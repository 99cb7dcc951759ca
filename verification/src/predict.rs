//! `predict df.var = model, kind`: which quantity a fitted model yields
//! for each kind name, and the errors for the names a model does not know.
//! The quantities themselves are computed by the estimation library.
use crate::ast::Expr;
use crate::interp::Interpreter;
use crate::options::{parse_usize, spec_parse_usize};
use crate::panels::{find_first, first_pos};
use crate::render::{render, render_value};
use crate::semantics::{sem_expr, Flow, IState};
use crate::targets::{frame_bound, not_a_frame};
use crate::text::{decimal, nat_to_string, str_eq};
use crate::value::{strings_view, ErrV, HayashiError, ModelKind, Val, Value};
use vstd::prelude::*;

verus! {

/// A quantity that a fitted model can predict for every observation.
#[derive(PartialEq, Eq, Structural, Clone, Copy, Debug)]
pub enum PredictQuantity {
    /// The linear predictor `X b`.
    Xb,
    /// The fitted values.
    Fitted,
    Residuals,
    /// A predicted probability.
    Probability,
    /// The predicted mean response.
    Mean,
    /// The predicted count.
    Count,
    /// The probability of a structural zero.
    ZeroProbability,
    /// The most likely category.
    Category,
    /// The probability of the category with this 0-based index.
    CategoryProbability(usize),
    LogHazard,
    HazardRatio,
    Cusum,
    CusumSquares,
    PearsonResiduals,
    WorkingResiduals,
    /// The most likely regime (1-based).
    MostLikelyRegime,
    /// The smoothed probability of the regime with this 0-based index.
    RegimeProbability(usize),
    Level,
    Trend,
    /// The seasonal component with this 0-based index.
    Seasonal(usize),
    Observed,
    /// The scores of the principal component with this 0-based index.
    Component(usize),
    /// The latent factor with this 0-based index.
    LatentFactor(usize),
}

/// The error for a kind name that a model family does not know.
pub open spec fn unknown_kind(family: Seq<char>, k: Seq<char>, hint: Seq<char>) -> ErrV {
    ErrV::Runtime("predict "@ + family + ": kind '"@ + k + "' unknown — use: "@ + hint)
}

/// `k` begins with `p`.
pub open spec fn starts_with(k: Seq<char>, p: Seq<char>) -> bool {
    p.len() <= k.len() && k.take(p.len() as int) == p
}

/// The text of `k` after its first `n` characters.
pub open spec fn after(k: Seq<char>, n: int) -> Seq<char> {
    k.subrange(n, k.len() as int)
}

/// A 1-based index written after a prefix, made 0-based; `None` when it
/// does not parse or is 0, for the kinds are numbered from 1.
pub open spec fn index_after(k: Seq<char>, n: int) -> Option<usize> {
    match spec_parse_usize(after(k, n)) {
        Some(i) => if i == 0 { None } else { Some((i - 1) as usize) },
        None => None,
    }
}

/// Families whose only kind is the linear predictor.
pub open spec fn xb_family(kind: ModelKind) -> Option<Seq<char>> {
    match kind {
        ModelKind::Iv => Some("IV"@),
        ModelKind::Panel => Some("FE"@),
        ModelKind::Re => Some("RE"@),
        ModelKind::Tobit => Some("Tobit"@),
        ModelKind::Heckman => Some("Heckman"@),
        ModelKind::Quantile => Some("QReg"@),
        ModelKind::Rlm => Some("RLM"@),
        ModelKind::Gee => Some("GEE"@),
        ModelKind::Mixed => Some("MixedLM"@),
        _ => None,
    }
}

/// The fixed refusal of families that predict no column.
pub open spec fn refusal(kind: ModelKind) -> Option<Seq<char>> {
    match kind {
        ModelKind::Factor => Some(
            "predict Factor Analysis: scores not available via FA — use pca() for scores; FA is for loadings analysis"@,
        ),
        ModelKind::Conditional => Some(
            "predict clogit/cpoisson: fixed effects absorbed — unconditional prediction not available; use β̂ coefficients for odds ratios or marginal effects"@,
        ),
        ModelKind::Varma => Some(
            "predict varma: multivariate prediction not supported as a column — use print() for diagnostics"@,
        ),
        ModelKind::Gam => Some(
            "predict gam: fitted values are not stored — use gam() with df=dataset and compute Xβ̂ manually"@,
        ),
        ModelKind::Mice => Some("predict mice: MICE returns multiple datasets; access via model pooling"@),
        ModelKind::SVar => Some(
            "predict svar: no fitted values — use sirf() and sfevd() for impulse-response analysis"@,
        ),
        ModelKind::ThreeSls => Some(
            "predict 3sls: multiple equations — use print() to see coefficients per equation"@,
        ),
        _ => None,
    }
}

/// `k` is one of the residual names.
pub open spec fn is_resid(k: Seq<char>) -> bool {
    k == "residuals"@ || k == "resid"@ || k == "e"@
}

/// `k` is `xb` or `fitted`.
pub open spec fn is_xb(k: Seq<char>) -> bool {
    k == "xb"@ || k == "fitted"@
}

/// `k` is one of the names of a predicted mean.
pub open spec fn is_mean(k: Seq<char>) -> bool {
    k == "pr"@ || k == "mu"@ || k == "fitted"@
}

/// `k` is one of the names of a predicted count.
pub open spec fn is_count(k: Seq<char>) -> bool {
    k == "count"@ || k == "mu"@ || k == "fitted"@
}

/// The ordered-model kinds: `xb`, `yhat`, `prN` and `pr` (the last category).
pub open spec fn ordered_plan(k: Seq<char>, n: usize) -> Result<PredictQuantity, ErrV> {
    if k == "xb"@ {
        Ok(PredictQuantity::Xb)
    } else if k == "yhat"@ {
        Ok(PredictQuantity::Category)
    } else if starts_with(k, "pr"@) && k.len() > 2 {
        match spec_parse_usize(after(k, 2)) {
            None => Err(
                ErrV::Runtime(
                    "predict Ordered: '"@ + k + "' — use prN where N is the category (1-indexed)"@,
                ),
            ),
            Some(c) => if c == 0 || c > n {
                Err(
                    ErrV::Runtime(
                        "predict Ordered: category "@ + decimal(c as int) + " out of range 1.."@
                            + decimal(n as int),
                    ),
                )
            } else {
                Ok(PredictQuantity::CategoryProbability((c - 1) as usize))
            },
        }
    } else if k == "pr"@ {
        Ok(PredictQuantity::CategoryProbability((n - 1) as usize))
    } else {
        Err(unknown_kind("Ordered"@, k, "pr, prN, yhat, xb"@))
    }
}

/// The principal-component kinds `pcN`.
pub open spec fn pca_plan(k: Seq<char>, n: usize) -> Result<PredictQuantity, ErrV> {
    if starts_with(k, "pc"@) && k.len() > 2 {
        match spec_parse_usize(after(k, 2)) {
            None => Err(
                ErrV::Runtime("predict PCA: '"@ + k + "' invalid — use pcN where N=1.."@ + decimal(n as int)),
            ),
            Some(c) => if c == 0 || c > n {
                Err(
                    ErrV::Runtime(
                        "predict PCA: component "@ + decimal(c as int) + " out of range 1.."@ + decimal(
                            n as int,
                        ),
                    ),
                )
            } else {
                Ok(PredictQuantity::Component((c - 1) as usize))
            },
        }
    } else {
        Err(
            ErrV::Runtime(
                "predict PCA: kind '"@ + k + "' unknown — use: pc1, pc2, ..., pc"@ + decimal(n as int),
            ),
        )
    }
}

/// The Markov-switching kinds: the likeliest regime, or `regimeN`.
pub open spec fn markov_plan(k: Seq<char>, n: usize) -> Result<PredictQuantity, ErrV> {
    if k == "smoothed"@ || k == "regime"@ || k == "state"@ {
        Ok(PredictQuantity::MostLikelyRegime)
    } else if starts_with(k, "regime"@) && k.len() > 6 {
        match spec_parse_usize(after(k, 6)) {
            None => Err(
                ErrV::Runtime(
                    "predict MarkovSwitching: '"@ + k + "' invalid — use regimeN where N=1.."@ + decimal(
                        n as int,
                    ),
                ),
            ),
            Some(i) => if i == 0 || i > n {
                Err(
                    ErrV::Runtime(
                        "predict MarkovSwitching: regime "@ + decimal(i as int) + " out of range 1.."@
                            + decimal(n as int),
                    ),
                )
            } else {
                Ok(PredictQuantity::RegimeProbability((i - 1) as usize))
            },
        }
    } else {
        Err(unknown_kind("MarkovSwitching"@, k, "regime, regime1, regime2, ..."@))
    }
}

/// The dynamic-factor kinds `fN`, numbered from 1.
pub open spec fn dfm_plan(k: Seq<char>, n: usize) -> Result<PredictQuantity, ErrV> {
    if starts_with(k, "f"@) && index_after(k, 1) is Some {
        let idx = index_after(k, 1)->Some_0;
        if idx >= n {
            Err(
                ErrV::Runtime(
                    "predict dfm: factor f"@ + decimal(idx + 1) + " does not exist — model has "@
                        + decimal(n as int) + " factors"@,
                ),
            )
        } else {
            Ok(PredictQuantity::LatentFactor(idx))
        }
    } else {
        Err(unknown_kind("dfm"@, k, "f1, f2, ... (1-based index of latent factor)"@))
    }
}

/// The Markov-autoregression kinds: the most likely regime, or the
/// probability of regime `N`, numbered from 1.
pub open spec fn msar_plan(k: Seq<char>, n: usize) -> Result<PredictQuantity, ErrV> {
    if k == "regime"@ || k == "state"@ {
        Ok(PredictQuantity::MostLikelyRegime)
    } else if starts_with(k, "regime"@) && k.len() > 6 && index_after(k, 6) is Some {
        let idx = index_after(k, 6)->Some_0;
        if idx >= n {
            Err(
                ErrV::Runtime(
                    "predict msauto: regime"@ + decimal(idx + 1) + " out of range 1.."@ + decimal(n as int),
                ),
            )
        } else {
            Ok(PredictQuantity::RegimeProbability(idx))
        }
    } else {
        Err(unknown_kind("msauto"@, k, "regime, regime1, regime2, ..."@))
    }
}

/// The MSTL kinds: trend, residuals, `seasonal` (the first period) and
/// `seasonalN`, numbered from 1.
pub open spec fn mstl_plan(k: Seq<char>, n: usize) -> Result<PredictQuantity, ErrV> {
    if k == "trend"@ {
        Ok(PredictQuantity::Trend)
    } else if k == "resid"@ || k == "residual"@ || k == "e"@ {
        Ok(PredictQuantity::Residuals)
    } else if k == "seasonal"@ || (starts_with(k, "seasonal"@) && index_after(k, 8) is Some) {
        let idx: usize = if k == "seasonal"@ { 0 } else { index_after(k, 8)->Some_0 };
        if idx >= n {
            Err(
                ErrV::Runtime(
                    "predict mstl: seasonal"@ + decimal(idx + 1) + " component does not exist — model has "@
                        + decimal(n as int) + " periods"@,
                ),
            )
        } else {
            Ok(PredictQuantity::Seasonal(idx))
        }
    } else {
        Err(unknown_kind("mstl"@, k, "trend, resid, seasonal, seasonal1, seasonal2, ..."@))
    }
}

/// What `predict` computes for a model of family `kind` with `n` parts
/// and the kind name `k`, or the error it gives.
pub open spec fn spec_predict_plan(kind: ModelKind, n: usize, k: Seq<char>) -> Result<PredictQuantity, ErrV> {
    if xb_family(kind) is Some {
        if is_xb(k) {
            Ok(PredictQuantity::Xb)
        } else {
            Err(unknown_kind(xb_family(kind)->Some_0, k, "xb"@))
        }
    } else if refusal(kind) is Some {
        Err(ErrV::Runtime(refusal(kind)->Some_0))
    } else {
        match kind {
            ModelKind::Ols => if is_xb(k) {
                Ok(PredictQuantity::Xb)
            } else if is_resid(k) {
                Ok(PredictQuantity::Residuals)
            } else {
                Err(unknown_kind("OLS"@, k, "xb, residuals"@))
            },
            ModelKind::Binary => if k == "pr"@ || is_xb(k) {
                Ok(PredictQuantity::Probability)
            } else {
                Err(unknown_kind("logit/probit"@, k, "pr"@))
            },
            ModelKind::Poisson => if is_count(k) {
                Ok(PredictQuantity::Count)
            } else if k == "xb"@ {
                Ok(PredictQuantity::Xb)
            } else {
                Err(unknown_kind("Poisson"@, k, "count, xb"@))
            },
            ModelKind::NegBin => if is_count(k) {
                Ok(PredictQuantity::Count)
            } else if k == "xb"@ {
                Ok(PredictQuantity::Xb)
            } else {
                Err(unknown_kind("NegBin"@, k, "count, xb"@))
            },
            ModelKind::Ordered => ordered_plan(k, n),
            ModelKind::Cox => if k == "loghr"@ || k == "xb"@ {
                Ok(PredictQuantity::LogHazard)
            } else if k == "hr"@ || k == "hazard"@ {
                Ok(PredictQuantity::HazardRatio)
            } else {
                Err(unknown_kind("Cox"@, k, "loghr, hr"@))
            },
            ModelKind::Beta => if is_mean(k) {
                Ok(PredictQuantity::Mean)
            } else if k == "xb"@ {
                Ok(PredictQuantity::Xb)
            } else {
                Err(unknown_kind("BetaReg"@, k, "pr, xb"@))
            },
            ModelKind::Glsar => if is_xb(k) {
                Ok(PredictQuantity::Fitted)
            } else if is_resid(k) {
                Ok(PredictQuantity::Residuals)
            } else {
                Err(unknown_kind("GLSAR"@, k, "xb, residuals"@))
            },
            ModelKind::ZeroInflated => if is_count(k) {
                Ok(PredictQuantity::Count)
            } else if k == "pr0"@ {
                Ok(PredictQuantity::ZeroProbability)
            } else {
                Err(unknown_kind("ZIP/ZINB"@, k, "count, pr0"@))
            },
            ModelKind::Rolling => if is_resid(k) {
                Ok(PredictQuantity::Residuals)
            } else {
                Err(unknown_kind("RollingOLS"@, k, "residuals"@))
            },
            ModelKind::RecursiveLs => if is_resid(k) {
                Ok(PredictQuantity::Residuals)
            } else if k == "cusum"@ {
                Ok(PredictQuantity::Cusum)
            } else if k == "cusum_sq"@ {
                Ok(PredictQuantity::CusumSquares)
            } else {
                Err(unknown_kind("RecursiveLS"@, k, "residuals, cusum, cusum_sq"@))
            },
            ModelKind::Glm => if is_mean(k) {
                Ok(PredictQuantity::Mean)
            } else if k == "xb"@ {
                Ok(PredictQuantity::Xb)
            } else if is_resid(k) || k == "deviance"@ {
                Ok(PredictQuantity::Residuals)
            } else if k == "pearson"@ {
                Ok(PredictQuantity::PearsonResiduals)
            } else if k == "working"@ {
                Ok(PredictQuantity::WorkingResiduals)
            } else {
                Err(unknown_kind("GLM"@, k, "pr, xb, residuals, pearson, working"@))
            },
            ModelKind::Lowess => if k == "smoothed"@ || k == "yhat"@ || k == "fitted"@ {
                Ok(PredictQuantity::Fitted)
            } else if is_resid(k) {
                Ok(PredictQuantity::Residuals)
            } else {
                Err(unknown_kind("LOWESS"@, k, "smoothed, residuals"@))
            },
            ModelKind::Pca => pca_plan(k, n),
            ModelKind::Markov => markov_plan(k, n),
            ModelKind::Uc => if k == "level"@ {
                Ok(PredictQuantity::Level)
            } else if k == "trend"@ {
                Ok(PredictQuantity::Trend)
            } else if k == "seasonal"@ {
                Ok(PredictQuantity::Seasonal(0))
            } else if is_resid(k) {
                Ok(PredictQuantity::Residuals)
            } else {
                Err(unknown_kind("ucm"@, k, "level, trend, seasonal, residuals"@))
            },
            ModelKind::Dfm => dfm_plan(k, n),
            ModelKind::Msar => msar_plan(k, n),
            ModelKind::Decomp => if k == "trend"@ {
                Ok(PredictQuantity::Trend)
            } else if k == "seasonal"@ {
                Ok(PredictQuantity::Seasonal(0))
            } else if k == "residual"@ || k == "resid"@ || k == "e"@ {
                Ok(PredictQuantity::Residuals)
            } else if k == "observed"@ || k == "fitted"@ {
                Ok(PredictQuantity::Observed)
            } else {
                Err(unknown_kind("decompose"@, k, "trend, seasonal, residual, observed"@))
            },
            ModelKind::Mstl => mstl_plan(k, n),
            ModelKind::Ets => if k == "fitted"@ || k == "yhat"@ || k == "xb"@ {
                Ok(PredictQuantity::Fitted)
            } else if is_resid(k) {
                Ok(PredictQuantity::Residuals)
            } else if k == "level"@ {
                Ok(PredictQuantity::Level)
            } else if k == "trend"@ {
                Ok(PredictQuantity::Trend)
            } else if k == "seasonal"@ {
                Ok(PredictQuantity::Seasonal(0))
            } else {
                Err(unknown_kind("ets"@, k, "fitted, residuals, level, trend, seasonal"@))
            },
            ModelKind::Threshold => Err(
                ErrV::Runtime(
                    "predict pthresh: kind '"@ + k + "' — use print() to see thresholds and coefficients"@,
                ),
            ),
            _ => Err(ErrV::Type("predict: model type not supported"@)),
        }
    }
}


/// The one input on which the computation cannot go on: the last
/// category of an ordered model without categories.
pub open spec fn predict_undefined(kind: ModelKind, n: usize, k: Seq<char>) -> bool {
    kind == ModelKind::Ordered && n == 0 && k == "pr"@
}

/// The abstract form of a planned quantity or an error.
pub open spec fn plan_view(r: Result<PredictQuantity, HayashiError>) -> Result<PredictQuantity, ErrV> {
    match r {
        Ok(q) => Ok(q),
        Err(e) => Err(e@),
    }
}

fn has_prefix(k: &str, p: &str) -> (b: bool)
    ensures
        b == starts_with(k@, p@),
{
    let n = k.unicode_len();
    let m = p.unicode_len();
    if m > n {
        return false;
    }
    let mut i: usize = 0;
    while i < m
        invariant
            i <= m <= n,
            n == k@.len(),
            m == p@.len(),
            forall|t: int| 0 <= t < i ==> k@[t] == p@[t],
        decreases m - i,
    {
        if k.get_char(i) != p.get_char(i) {
            assert(k@.take(m as int)[i as int] != p@[i as int]);
            return false;
        }
        i = i + 1;
    }
    assert(k@.take(m as int) =~= p@);
    true
}

fn suffix_index(k: &str, n: usize) -> (i: Option<usize>)
    requires
        n <= k@.len(),
    ensures
        i == index_after(k@, n as int),
{
    let rest = k.substring_char(n, k.unicode_len());
    match parse_usize(rest) {
        Some(i) => if i == 0 { None } else { Some(i - 1) },
        None => None,
    }
}

fn unknown(family: &str, k: &str, hint: &str) -> (e: HayashiError)
    ensures
        e@ == unknown_kind(family@, k@, hint@),
{
    HayashiError::Runtime(
        String::from_str("predict ").concat(family).concat(": kind '").concat(k).concat(
            "' unknown — use: ",
        ).concat(hint),
    )
}

fn number(n: usize) -> (s: String)
    ensures
        s@ == decimal(n as int),
{
    nat_to_string(n as u64)
}

fn is_resid_name(k: &str) -> (b: bool)
    ensures
        b == is_resid(k@),
{
    str_eq(k, "residuals") || str_eq(k, "resid") || str_eq(k, "e")
}

fn is_xb_name(k: &str) -> (b: bool)
    ensures
        b == is_xb(k@),
{
    str_eq(k, "xb") || str_eq(k, "fitted")
}

fn is_mean_name(k: &str) -> (b: bool)
    ensures
        b == is_mean(k@),
{
    str_eq(k, "pr") || str_eq(k, "mu") || str_eq(k, "fitted")
}

fn is_count_name(k: &str) -> (b: bool)
    ensures
        b == is_count(k@),
{
    str_eq(k, "count") || str_eq(k, "mu") || str_eq(k, "fitted")
}

fn xb_family_name(kind: ModelKind) -> (r: Option<&'static str>)
    ensures
        match r {
            Some(f) => xb_family(kind) == Some(f@),
            None => xb_family(kind) is None,
        },
{
    match kind {
        ModelKind::Iv => Some("IV"),
        ModelKind::Panel => Some("FE"),
        ModelKind::Re => Some("RE"),
        ModelKind::Tobit => Some("Tobit"),
        ModelKind::Heckman => Some("Heckman"),
        ModelKind::Quantile => Some("QReg"),
        ModelKind::Rlm => Some("RLM"),
        ModelKind::Gee => Some("GEE"),
        ModelKind::Mixed => Some("MixedLM"),
        _ => None,
    }
}

fn refusal_text(kind: ModelKind) -> (r: Option<&'static str>)
    ensures
        match r {
            Some(f) => refusal(kind) == Some(f@),
            None => refusal(kind) is None,
        },
{
    match kind {
        ModelKind::Factor => Some(
            "predict Factor Analysis: scores not available via FA — use pca() for scores; FA is for loadings analysis",
        ),
        ModelKind::Conditional => Some(
            "predict clogit/cpoisson: fixed effects absorbed — unconditional prediction not available; use β̂ coefficients for odds ratios or marginal effects",
        ),
        ModelKind::Varma => Some(
            "predict varma: multivariate prediction not supported as a column — use print() for diagnostics",
        ),
        ModelKind::Gam => Some(
            "predict gam: fitted values are not stored — use gam() with df=dataset and compute Xβ̂ manually",
        ),
        ModelKind::Mice => Some("predict mice: MICE returns multiple datasets; access via model pooling"),
        ModelKind::SVar => Some(
            "predict svar: no fitted values — use sirf() and sfevd() for impulse-response analysis",
        ),
        ModelKind::ThreeSls => Some(
            "predict 3sls: multiple equations — use print() to see coefficients per equation",
        ),
        _ => None,
    }
}

fn ordered_exec(k: &str, n: usize) -> (r: Result<PredictQuantity, HayashiError>)
    requires
        !(n == 0 && k@ == "pr"@),
    ensures
        plan_view(r) == ordered_plan(k@, n),
{
    if str_eq(k, "xb") {
        Ok(PredictQuantity::Xb)
    } else if str_eq(k, "yhat") {
        Ok(PredictQuantity::Category)
    } else if has_prefix(k, "pr") && k.unicode_len() > 2 {
        proof {
            reveal_strlit("pr");
        }
        match parse_usize(k.substring_char(2, k.unicode_len())) {
            None => Err(
                HayashiError::Runtime(
                    String::from_str("predict Ordered: '").concat(k).concat(
                        "' — use prN where N is the category (1-indexed)",
                    ),
                ),
            ),
            Some(c) => if c == 0 || c > n {
                Err(
                    HayashiError::Runtime(
                        String::from_str("predict Ordered: category ").concat(number(c).as_str()).concat(
                            " out of range 1..",
                        ).concat(number(n).as_str()),
                    ),
                )
            } else {
                Ok(PredictQuantity::CategoryProbability(c - 1))
            },
        }
    } else if str_eq(k, "pr") {
        Ok(PredictQuantity::CategoryProbability(n - 1))
    } else {
        Err(unknown("Ordered", k, "pr, prN, yhat, xb"))
    }
}

fn pca_exec(k: &str, n: usize) -> (r: Result<PredictQuantity, HayashiError>)
    ensures
        plan_view(r) == pca_plan(k@, n),
{
    if has_prefix(k, "pc") && k.unicode_len() > 2 {
        proof {
            reveal_strlit("pc");
        }
        match parse_usize(k.substring_char(2, k.unicode_len())) {
            None => Err(
                HayashiError::Runtime(
                    String::from_str("predict PCA: '").concat(k).concat(
                        "' invalid — use pcN where N=1..",
                    ).concat(number(n).as_str()),
                ),
            ),
            Some(c) => if c == 0 || c > n {
                Err(
                    HayashiError::Runtime(
                        String::from_str("predict PCA: component ").concat(number(c).as_str()).concat(
                            " out of range 1..",
                        ).concat(number(n).as_str()),
                    ),
                )
            } else {
                Ok(PredictQuantity::Component(c - 1))
            },
        }
    } else {
        Err(
            HayashiError::Runtime(
                String::from_str("predict PCA: kind '").concat(k).concat(
                    "' unknown — use: pc1, pc2, ..., pc",
                ).concat(number(n).as_str()),
            ),
        )
    }
}

fn markov_exec(k: &str, n: usize) -> (r: Result<PredictQuantity, HayashiError>)
    ensures
        plan_view(r) == markov_plan(k@, n),
{
    if str_eq(k, "smoothed") || str_eq(k, "regime") || str_eq(k, "state") {
        Ok(PredictQuantity::MostLikelyRegime)
    } else if has_prefix(k, "regime") && k.unicode_len() > 6 {
        proof {
            reveal_strlit("regime");
        }
        match parse_usize(k.substring_char(6, k.unicode_len())) {
            None => Err(
                HayashiError::Runtime(
                    String::from_str("predict MarkovSwitching: '").concat(k).concat(
                        "' invalid — use regimeN where N=1..",
                    ).concat(number(n).as_str()),
                ),
            ),
            Some(i) => if i == 0 || i > n {
                Err(
                    HayashiError::Runtime(
                        String::from_str("predict MarkovSwitching: regime ").concat(
                            number(i).as_str(),
                        ).concat(" out of range 1..").concat(number(n).as_str()),
                    ),
                )
            } else {
                Ok(PredictQuantity::RegimeProbability(i - 1))
            },
        }
    } else {
        Err(unknown("MarkovSwitching", k, "regime, regime1, regime2, ..."))
    }
}

fn dfm_exec(k: &str, n: usize) -> (r: Result<PredictQuantity, HayashiError>)
    ensures
        plan_view(r) == dfm_plan(k@, n),
{
    let parsed = if has_prefix(k, "f") {
        proof {
            reveal_strlit("f");
        }
        suffix_index(k, 1)
    } else {
        None
    };
    if let Some(idx) = parsed {
        if idx >= n {
            Err(
                HayashiError::Runtime(
                    String::from_str("predict dfm: factor f").concat(number(idx + 1).as_str()).concat(
                        " does not exist — model has ",
                    ).concat(number(n).as_str()).concat(" factors"),
                ),
            )
        } else {
            Ok(PredictQuantity::LatentFactor(idx))
        }
    } else {
        Err(unknown("dfm", k, "f1, f2, ... (1-based index of latent factor)"))
    }
}

fn msar_exec(k: &str, n: usize) -> (r: Result<PredictQuantity, HayashiError>)
    ensures
        plan_view(r) == msar_plan(k@, n),
{
    proof {
        reveal_strlit("regime");
    }
    if str_eq(k, "regime") || str_eq(k, "state") {
        Ok(PredictQuantity::MostLikelyRegime)
    } else if has_prefix(k, "regime") && k.unicode_len() > 6 && suffix_index(k, 6).is_some() {
        proof {
            reveal_strlit("regime");
        }
        let idx = suffix_index(k, 6).unwrap();
        if idx >= n {
            Err(
                HayashiError::Runtime(
                    String::from_str("predict msauto: regime").concat(number(idx + 1).as_str()).concat(
                        " out of range 1..",
                    ).concat(number(n).as_str()),
                ),
            )
        } else {
            Ok(PredictQuantity::RegimeProbability(idx))
        }
    } else {
        Err(unknown("msauto", k, "regime, regime1, regime2, ..."))
    }
}

fn mstl_exec(k: &str, n: usize) -> (r: Result<PredictQuantity, HayashiError>)
    ensures
        plan_view(r) == mstl_plan(k@, n),
{
    proof {
        reveal_strlit("seasonal");
    }
    if str_eq(k, "trend") {
        Ok(PredictQuantity::Trend)
    } else if str_eq(k, "resid") || str_eq(k, "residual") || str_eq(k, "e") {
        Ok(PredictQuantity::Residuals)
    } else if str_eq(k, "seasonal") || (has_prefix(k, "seasonal") && suffix_index(k, 8).is_some()) {
        proof {
            reveal_strlit("seasonal");
        }
        let idx: usize = if str_eq(k, "seasonal") { 0 } else { suffix_index(k, 8).unwrap() };
        if idx >= n {
            Err(
                HayashiError::Runtime(
                    String::from_str("predict mstl: seasonal").concat(number(idx + 1).as_str()).concat(
                        " component does not exist — model has ",
                    ).concat(number(n).as_str()).concat(" periods"),
                ),
            )
        } else {
            Ok(PredictQuantity::Seasonal(idx))
        }
    } else {
        Err(unknown("mstl", k, "trend, resid, seasonal, seasonal1, seasonal2, ..."))
    }
}

/// What `predict` computes for a model of family `kind` with `n` parts and
/// the kind name `k`.
pub fn predict_plan(kind: ModelKind, n: usize, k: &str) -> (r: Result<PredictQuantity, HayashiError>)
    requires
        !predict_undefined(kind, n, k@),
    ensures
        plan_view(r) == spec_predict_plan(kind, n, k@),
{
    match xb_family_name(kind) {
        Some(f) => {
            return if is_xb_name(k) {
                Ok(PredictQuantity::Xb)
            } else {
                Err(unknown(f, k, "xb"))
            };
        },
        None => {},
    }
    match refusal_text(kind) {
        Some(t) => {
            return Err(HayashiError::Runtime(String::from_str(t)));
        },
        None => {},
    }
    match kind {
        ModelKind::Ols => if is_xb_name(k) {
            Ok(PredictQuantity::Xb)
        } else if is_resid_name(k) {
            Ok(PredictQuantity::Residuals)
        } else {
            Err(unknown("OLS", k, "xb, residuals"))
        },
        ModelKind::Binary => if str_eq(k, "pr") || is_xb_name(k) {
            Ok(PredictQuantity::Probability)
        } else {
            Err(unknown("logit/probit", k, "pr"))
        },
        ModelKind::Poisson => if is_count_name(k) {
            Ok(PredictQuantity::Count)
        } else if str_eq(k, "xb") {
            Ok(PredictQuantity::Xb)
        } else {
            Err(unknown("Poisson", k, "count, xb"))
        },
        ModelKind::NegBin => if is_count_name(k) {
            Ok(PredictQuantity::Count)
        } else if str_eq(k, "xb") {
            Ok(PredictQuantity::Xb)
        } else {
            Err(unknown("NegBin", k, "count, xb"))
        },
        ModelKind::Ordered => ordered_exec(k, n),
        ModelKind::Cox => if str_eq(k, "loghr") || str_eq(k, "xb") {
            Ok(PredictQuantity::LogHazard)
        } else if str_eq(k, "hr") || str_eq(k, "hazard") {
            Ok(PredictQuantity::HazardRatio)
        } else {
            Err(unknown("Cox", k, "loghr, hr"))
        },
        ModelKind::Beta => if is_mean_name(k) {
            Ok(PredictQuantity::Mean)
        } else if str_eq(k, "xb") {
            Ok(PredictQuantity::Xb)
        } else {
            Err(unknown("BetaReg", k, "pr, xb"))
        },
        ModelKind::Glsar => if is_xb_name(k) {
            Ok(PredictQuantity::Fitted)
        } else if is_resid_name(k) {
            Ok(PredictQuantity::Residuals)
        } else {
            Err(unknown("GLSAR", k, "xb, residuals"))
        },
        ModelKind::ZeroInflated => if is_count_name(k) {
            Ok(PredictQuantity::Count)
        } else if str_eq(k, "pr0") {
            Ok(PredictQuantity::ZeroProbability)
        } else {
            Err(unknown("ZIP/ZINB", k, "count, pr0"))
        },
        ModelKind::Rolling => if is_resid_name(k) {
            Ok(PredictQuantity::Residuals)
        } else {
            Err(unknown("RollingOLS", k, "residuals"))
        },
        ModelKind::RecursiveLs => if is_resid_name(k) {
            Ok(PredictQuantity::Residuals)
        } else if str_eq(k, "cusum") {
            Ok(PredictQuantity::Cusum)
        } else if str_eq(k, "cusum_sq") {
            Ok(PredictQuantity::CusumSquares)
        } else {
            Err(unknown("RecursiveLS", k, "residuals, cusum, cusum_sq"))
        },
        ModelKind::Glm => if is_mean_name(k) {
            Ok(PredictQuantity::Mean)
        } else if str_eq(k, "xb") {
            Ok(PredictQuantity::Xb)
        } else if is_resid_name(k) || str_eq(k, "deviance") {
            Ok(PredictQuantity::Residuals)
        } else if str_eq(k, "pearson") {
            Ok(PredictQuantity::PearsonResiduals)
        } else if str_eq(k, "working") {
            Ok(PredictQuantity::WorkingResiduals)
        } else {
            Err(unknown("GLM", k, "pr, xb, residuals, pearson, working"))
        },
        ModelKind::Lowess => if str_eq(k, "smoothed") || str_eq(k, "yhat") || str_eq(k, "fitted") {
            Ok(PredictQuantity::Fitted)
        } else if is_resid_name(k) {
            Ok(PredictQuantity::Residuals)
        } else {
            Err(unknown("LOWESS", k, "smoothed, residuals"))
        },
        ModelKind::Pca => pca_exec(k, n),
        ModelKind::Markov => markov_exec(k, n),
        ModelKind::Uc => if str_eq(k, "level") {
            Ok(PredictQuantity::Level)
        } else if str_eq(k, "trend") {
            Ok(PredictQuantity::Trend)
        } else if str_eq(k, "seasonal") {
            Ok(PredictQuantity::Seasonal(0))
        } else if is_resid_name(k) {
            Ok(PredictQuantity::Residuals)
        } else {
            Err(unknown("ucm", k, "level, trend, seasonal, residuals"))
        },
        ModelKind::Dfm => dfm_exec(k, n),
        ModelKind::Msar => msar_exec(k, n),
        ModelKind::Decomp => if str_eq(k, "trend") {
            Ok(PredictQuantity::Trend)
        } else if str_eq(k, "seasonal") {
            Ok(PredictQuantity::Seasonal(0))
        } else if str_eq(k, "residual") || str_eq(k, "resid") || str_eq(k, "e") {
            Ok(PredictQuantity::Residuals)
        } else if str_eq(k, "observed") || str_eq(k, "fitted") {
            Ok(PredictQuantity::Observed)
        } else {
            Err(unknown("decompose", k, "trend, seasonal, residual, observed"))
        },
        ModelKind::Mstl => mstl_exec(k, n),
        ModelKind::Ets => if str_eq(k, "fitted") || str_eq(k, "yhat") || str_eq(k, "xb") {
            Ok(PredictQuantity::Fitted)
        } else if is_resid_name(k) {
            Ok(PredictQuantity::Residuals)
        } else if str_eq(k, "level") {
            Ok(PredictQuantity::Level)
        } else if str_eq(k, "trend") {
            Ok(PredictQuantity::Trend)
        } else if str_eq(k, "seasonal") {
            Ok(PredictQuantity::Seasonal(0))
        } else {
            Err(unknown("ets", k, "fitted, residuals, level, trend, seasonal"))
        },
        ModelKind::Threshold => Err(
            HayashiError::Runtime(
                String::from_str("predict pthresh: kind '").concat(k).concat(
                    "' — use print() to see thresholds and coefficients",
                ),
            ),
        ),
        _ => Err(HayashiError::Type(String::from_str("predict: model type not supported"))),
    }
}


/// The quantity a model value yields for the kind name `k`.
pub open spec fn value_plan(m: Val, k: Seq<char>) -> Option<Result<PredictQuantity, ErrV>> {
    match m {
        Val::Model { kind, parts, .. } => if predict_undefined(kind, parts, k) {
            None
        } else {
            Some(spec_predict_plan(kind, parts, k))
        },
        _ => Some(Err(ErrV::Type("predict: model type not supported"@))),
    }
}

/// `predict df.var = model, kind` up to the computation: the frame must be
/// bound, then the model and the kind are evaluated (the kind must be a
/// string), then the plan is chosen. `Fault` where the computation could
/// not go on.
pub open spec fn sem_predict(
    f: nat,
    s: IState,
    df: Seq<char>,
    model: Expr,
    kind: Expr,
    frames: Seq<Seq<char>>,
) -> Flow<PredictQuantity> {
    if !frames.contains(df) {
        Flow::Done(s, Err(not_a_frame(df)))
    } else {
        match sem_expr(f, s, model) {
            Flow::Done(s1, Ok(m)) => match sem_expr(f, s1, kind) {
                Flow::Done(s2, Ok(Val::Str(k))) => match value_plan(m, k) {
                    Some(r) => Flow::Done(s2, r),
                    None => Flow::Fault,
                },
                Flow::Done(s2, Ok(other)) => Flow::Done(
                    s2,
                    Err(ErrV::Type("predict kind must be a string, got "@ + render(other))),
                ),
                Flow::Done(s2, Err(x)) => Flow::Done(s2, Err(x)),
                Flow::Fault => Flow::Fault,
            },
            Flow::Done(s1, Err(x)) => Flow::Done(s1, Err(x)),
            Flow::Fault => Flow::Fault,
        }
    }
}

impl Interpreter {
    /// `predict df.var = model, kind`: checks the frame, evaluates the
    /// model and the kind name, and picks the quantity to compute.
    pub fn exec_predict(
        &mut self,
        df: &str,
        model: &Expr,
        kind: &Expr,
        frames: &Vec<String>,
        fuel: u64,
    ) -> (r: Result<PredictQuantity, HayashiError>)
        requires
            sem_predict(fuel as nat, old(self)@, df@, *model, *kind, strings_view(frames@)) is Done,
        ensures
            sem_predict(fuel as nat, old(self)@, df@, *model, *kind, strings_view(frames@)) == Flow::Done(
                final(self)@,
                plan_view(r),
            ),
    {
        if !frame_bound(frames, df) {
            return Err(
                HayashiError::Runtime(String::from_str("'").concat(df).concat("' is not a DataFrame")),
            );
        }
        let m = self.eval_expr(model, fuel)?;
        let kv = self.eval_expr(kind, fuel)?;
        let k = match kv {
            Value::Str(k) => k,
            other => {
                return Err(
                    HayashiError::Type(
                        String::from_str("predict kind must be a string, got ").concat(
                            render_value(&other).as_str(),
                        ),
                    ),
                );
            },
        };
        match m {
            Value::Model(ms) => predict_plan(ms.kind, ms.parts, k.as_str()),
            _ => Err(HayashiError::Type(String::from_str("predict: model type not supported"))),
        }
    }
}

/// Whether a coefficient name stands for the intercept, whose design
/// column is all ones.
pub open spec fn is_intercept_name(name: Seq<char>) -> bool {
    name == "_cons"@ || name == "const"@ || name == "Intercept"@ || name == "(Intercept)"@
}

/// The error for a coefficient name that is no column of the frame.
pub open spec fn missing_column(name: Seq<char>) -> ErrV {
    ErrV::Runtime("predict: column '"@ + name + "' not found in DataFrame"@)
}

/// The design columns for a model's coefficient names, given the frame's
/// column names: `None` for the intercept (a column of ones), else the
/// position of the frame column of that name; the error names the first
/// coefficient that is no column of the frame.
pub open spec fn spec_design_columns(names: Seq<Seq<char>>, cols: Seq<Seq<char>>) -> Result<Seq<Option<usize>>, ErrV>
    decreases names.len(),
{
    if names.len() == 0 {
        Ok(Seq::empty())
    } else {
        match spec_design_columns(names.drop_last(), cols) {
            Err(e) => Err(e),
            Ok(front) => {
                let n = names.last();
                if is_intercept_name(n) {
                    Ok(front.push(None))
                } else if first_pos(cols, n) >= 0 {
                    Ok(front.push(Some(first_pos(cols, n) as usize)))
                } else {
                    Err(missing_column(n))
                }
            }
        }
    }
}

proof fn lemma_design_error_stays(names: Seq<Seq<char>>, cols: Seq<Seq<char>>, k: int)
    requires
        0 <= k <= names.len(),
        spec_design_columns(names.take(k), cols) is Err,
    ensures
        spec_design_columns(names, cols) == spec_design_columns(names.take(k), cols),
    decreases names.len(),
{
    if k < names.len() {
        let p = names.drop_last();
        assert(p.take(k) =~= names.take(k));
        lemma_design_error_stays(p, cols, k);
    } else {
        assert(names.take(k) =~= names);
    }
}

/// Where each column of the design matrix comes from, for the coefficient
/// names of a fitted model and the column names of the frame.
pub fn build_x_from_varnames(names: &Vec<String>, columns: &Vec<String>) -> (r: Result<Vec<Option<usize>>, HayashiError>)
    ensures
        match r {
            Ok(v) => spec_design_columns(strings_view(names@), strings_view(columns@)) == Ok::<Seq<Option<usize>>, ErrV>(v@),
            Err(e) => spec_design_columns(strings_view(names@), strings_view(columns@)) == Err::<Seq<Option<usize>>, ErrV>(e@),
        },
{
    let ghost nv = strings_view(names@);
    let ghost cv = strings_view(columns@);
    let mut r: Vec<Option<usize>> = Vec::new();
    let mut i: usize = 0;
    while i < names.len()
        invariant
            i <= names@.len(),
            nv == strings_view(names@),
            cv == strings_view(columns@),
            nv.len() == names@.len(),
            spec_design_columns(nv.take(i as int), cv) == Ok::<Seq<Option<usize>>, ErrV>(r@),
        decreases names@.len() - i,
    {
        let n = names[i].as_str();
        assert(nv[i as int] == n@);
        assert(nv.take(i + 1).drop_last() =~= nv.take(i as int));
        assert(nv.take(i + 1).last() == n@);
        if str_eq(n, "_cons") || str_eq(n, "const") || str_eq(n, "Intercept") || str_eq(n, "(Intercept)") {
            r.push(None);
        } else {
            match find_first(columns, n) {
                Some(j) => r.push(Some(j)),
                None => {
                    proof {
                        lemma_design_error_stays(nv, cv, i + 1);
                    }
                    return Err(
                        HayashiError::Runtime(
                            String::from_str("predict: column '").concat(n).concat("' not found in DataFrame"),
                        ),
                    );
                },
            }
        }
        i = i + 1;
    }
    assert(nv.take(names@.len() as int) =~= nv);
    Ok(r)
}

} // verus!
