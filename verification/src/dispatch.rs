use crate::ast::Expr;
use crate::interp::Interpreter;
use crate::semantics::{sem_expr, Flow};
use crate::text::str_eq;
use crate::value::{entries_view, lemma_entries_view, strings_view, ErrV, HayashiError, ModelKind, ModelSummary, Val, Value};
use vstd::prelude::*;

verus! {

/// Where an estimator call goes: the handler that computes it, or another
/// estimator name that the call is re-dispatched as.
pub enum Route {
    Handler(String),
    Redirect(String),
}

/// The abstract form of a route.
pub enum RouteV {
    Handler(Seq<char>),
    Redirect(Seq<char>),
}

impl View for Route {
    type V = RouteV;

    open spec fn view(&self) -> RouteV {
        match self {
            Route::Handler(h) => RouteV::Handler(h@),
            Route::Redirect(t) => RouteV::Redirect(t@),
        }
    }
}

/// The abstract form of an optional route.
pub open spec fn route_view(r: Option<Route>) -> Option<RouteV> {
    match r {
        Some(x) => Some(x@),
        None => None,
    }
}

/// The estimator that handles `func` among the ETS, panel threshold, canonical correlation, weighted and panel summaries, rank tests, filters, penalized regression, unit-root and cointegration tests, `xtset`.
pub open spec fn misc_route(func: Seq<char>) -> Option<RouteV> {
    if func == "ets"@ || func == "ses"@ || func == "hwes"@ || func == "holtwinters"@ || func == "exponential_smoothing"@ {
        Some(RouteV::Handler("ets"@))
    } else if func == "pthresh"@ || func == "xtthresh"@ || func == "panel_threshold"@ || func == "threshold"@ {
        Some(RouteV::Handler("pthresh"@))
    } else if func == "cancorr"@ || func == "canon"@ || func == "cancor"@ {
        Some(RouteV::Handler("cancorr"@))
    } else if func == "summarize_w"@ || func == "dstats_w"@ || func == "svymean"@ || func == "wtsum"@ {
        Some(RouteV::Handler("summarize_w"@))
    } else if func == "tabstat"@ || func == "tabstats"@ {
        Some(RouteV::Handler("tabstat"@))
    } else if func == "xtsum"@ || func == "xt_summary"@ {
        Some(RouteV::Handler("xtsum"@))
    } else if func == "spearman"@ || func == "spearman_rho"@ {
        Some(RouteV::Handler("spearman"@))
    } else if func == "ranksum"@ || func == "mannwhitney"@ || func == "wilcoxon_rs"@ {
        Some(RouteV::Handler("ranksum"@))
    } else if func == "kruskal"@ || func == "kwallis"@ || func == "kruskal_wallis"@ {
        Some(RouteV::Handler("kruskal"@))
    } else if func == "signrank"@ || func == "wilcoxon_sr"@ || func == "wilcoxon_signed_rank"@ {
        Some(RouteV::Handler("signrank"@))
    } else if func == "bitest"@ || func == "signtest"@ || func == "binom_test"@ {
        Some(RouteV::Handler("bitest"@))
    } else if func == "hpfilter"@ || func == "hp_filter"@ || func == "hprescott"@ {
        Some(RouteV::Handler("hpfilter"@))
    } else if func == "bkfilter"@ || func == "bk_filter"@ || func == "baxter_king"@ {
        Some(RouteV::Handler("bkfilter"@))
    } else if func == "cffilter"@ || func == "cf_filter"@ || func == "christiano_fitzgerald"@ {
        Some(RouteV::Handler("cffilter"@))
    } else if func == "ridge"@ || func == "ridge_reg"@ {
        Some(RouteV::Handler("ridge"@))
    } else if func == "lasso"@ || func == "lasso_reg"@ {
        Some(RouteV::Handler("lasso"@))
    } else if func == "elasticnet"@ || func == "elastic_net"@ || func == "enet"@ {
        Some(RouteV::Handler("elasticnet"@))
    } else if func == "adf"@ || func == "dickey_fuller"@ || func == "augmented_df"@ {
        Some(RouteV::Handler("adf"@))
    } else if func == "kpss"@ {
        Some(RouteV::Handler("kpss"@))
    } else if func == "pp"@ || func == "phillips_perron"@ {
        Some(RouteV::Handler("pp"@))
    } else if func == "za"@ || func == "zivot_andrews"@ || func == "zivot"@ {
        Some(RouteV::Handler("za"@))
    } else if func == "granger"@ || func == "granger_causality"@ {
        Some(RouteV::Handler("granger"@))
    } else if func == "engle_granger"@ || func == "coint"@ || func == "egtest"@ {
        Some(RouteV::Handler("engle_granger"@))
    } else if func == "johansen"@ || func == "johansen_trace"@ || func == "vecrank"@ {
        Some(RouteV::Handler("johansen"@))
    } else if func == "xtset"@ {
        Some(RouteV::Handler("xtset"@))
    } else {
        None
    }
}

/// The estimator that handles `func` among the bootstrap, panel diagnostics, SUR, rolling and recursive OLS, information criteria, fixed and random effects, panel tests, GMM, Hausman and Wald tests.
pub open spec fn panel_route(func: Seq<char>) -> Option<RouteV> {
    if func == "bootstrap"@ || func == "boot"@ {
        Some(RouteV::Handler("bootstrap"@))
    } else if func == "bootse"@ {
        Some(RouteV::Redirect("bootstrap"@))
    } else if func == "markov"@ || func == "msar"@ || func == "markovswitching"@ {
        Some(RouteV::Handler("markov"@))
    } else if func == "clogit"@ || func == "xtlogit_fe"@ {
        Some(RouteV::Handler("clogit"@))
    } else if func == "cpoisson"@ || func == "xtpoisson_fe"@ || func == "ppml"@ {
        Some(RouteV::Handler("cpoisson"@))
    } else if func == "cmnlogit"@ || func == "cmlogit"@ || func == "conditional_mlogit"@ {
        Some(RouteV::Handler("cmnlogit"@))
    } else if func == "gqtest"@ {
        Some(RouteV::Handler("gqtest"@))
    } else if func == "bphet"@ || func == "hettest"@ {
        Some(RouteV::Handler("bphet"@))
    } else if func == "bptest"@ || func == "xttest0"@ || func == "xtbp"@ {
        Some(RouteV::Handler("bptest"@))
    } else if func == "wooldridge"@ || func == "xtserial"@ || func == "wooldridge_serial"@ || func == "xtwooldridge"@ {
        Some(RouteV::Handler("wooldridge"@))
    } else if func == "pesaran"@ || func == "xtcd"@ {
        Some(RouteV::Handler("eval_pesaran"@))
    } else if func == "mundlak"@ {
        Some(RouteV::Handler("eval_mundlak"@))
    } else if func == "abtest"@ || func == "abar"@ || func == "abond"@ || func == "xtabond_test"@ || func == "arellano_bond"@ {
        Some(RouteV::Handler("abtest"@))
    } else if func == "sur"@ || func == "sureg"@ {
        Some(RouteV::Handler("sur"@))
    } else if func == "rolling"@ || func == "rols"@ {
        Some(RouteV::Handler("eval_rolling"@))
    } else if func == "recursive"@ || func == "recols"@ {
        Some(RouteV::Handler("eval_recursive"@))
    } else if func == "ic"@ || func == "fitstat"@ || func == "estat"@ {
        Some(RouteV::Handler("ic"@))
    } else if func == "akaike_weights"@ || func == "aic_weights"@ {
        Some(RouteV::Handler("akaike_weights"@))
    } else if func == "lrtest"@ || func == "lr_test"@ {
        Some(RouteV::Handler("lrtest"@))
    } else if func == "fe"@ {
        Some(RouteV::Handler("fe"@))
    } else if func == "re"@ {
        Some(RouteV::Handler("re"@))
    } else if func == "ftest_fe"@ {
        Some(RouteV::Handler("ftest_fe"@))
    } else if func == "pesaran_cd"@ || func == "cd_test"@ {
        Some(RouteV::Handler("pesaran_cd"@))
    } else if func == "bplm"@ {
        Some(RouteV::Handler("bplm"@))
    } else if func == "chamberlain"@ {
        Some(RouteV::Handler("chamberlain"@))
    } else if func == "mundlak_OLD_REMOVED"@ {
        Some(RouteV::Handler("mundlak_OLD_REMOVED"@))
    } else if func == "ab"@ {
        Some(RouteV::Handler("ab"@))
    } else if func == "gmm"@ {
        Some(RouteV::Handler("gmm"@))
    } else if func == "sysgmm"@ {
        Some(RouteV::Handler("sysgmm"@))
    } else if func == "feiv"@ {
        Some(RouteV::Handler("feiv"@))
    } else if func == "pcse"@ {
        Some(RouteV::Handler("pcse"@))
    } else if func == "xtgls"@ {
        Some(RouteV::Handler("xtgls"@))
    } else if func == "ab_test"@ {
        Some(RouteV::Handler("ab_test"@))
    } else if func == "wooldridge_OLD_REMOVED"@ {
        Some(RouteV::Handler("wooldridge_OLD_REMOVED"@))
    } else if func == "hausman"@ {
        Some(RouteV::Handler("hausman"@))
    } else if func == "hausman_robust"@ || func == "hausman_r"@ {
        Some(RouteV::Handler("hausman_robust"@))
    } else if func == "ftest_robust"@ || func == "f_robust"@ {
        Some(RouteV::Handler("ftest_robust"@))
    } else if func == "test"@ {
        Some(RouteV::Handler("test"@))
    } else {
        None
    }
}

/// The estimator that handles `func` among the GARCH, residual diagnostics, decompositions, proportion tests, UCM, GAM, imputation, Markov switching, SVAR, 3SLS, DFM and normality tests.
pub open spec fn timeseries_route(func: Seq<char>) -> Option<RouteV> {
    if func == "garch"@ || func == "egarch"@ || func == "gjrgarch"@ {
        Some(RouteV::Handler("garch"@))
    } else if func == "ljungbox"@ || func == "ljung_box"@ || func == "portmanteau"@ {
        Some(RouteV::Handler("ljungbox"@))
    } else if func == "leverage"@ {
        Some(RouteV::Handler("leverage"@))
    } else if func == "cooks"@ {
        Some(RouteV::Handler("cooks"@))
    } else if func == "vif"@ {
        Some(RouteV::Handler("vif"@))
    } else if func == "condnum"@ {
        Some(RouteV::Handler("condnum"@))
    } else if func == "durbinwatson"@ || func == "dw"@ {
        Some(RouteV::Handler("durbinwatson"@))
    } else if func == "white"@ {
        Some(RouteV::Handler("white"@))
    } else if func == "reset"@ {
        Some(RouteV::Handler("reset"@))
    } else if func == "jb"@ {
        Some(RouteV::Handler("jb"@))
    } else if func == "bgodfrey"@ {
        Some(RouteV::Handler("bgodfrey"@))
    } else if func == "bgtest"@ || func == "bg"@ || func == "breusch_godfrey"@ {
        Some(RouteV::Redirect("bgodfrey"@))
    } else if func == "archtest"@ || func == "arch_test"@ || func == "engle_arch"@ {
        Some(RouteV::Handler("archtest"@))
    } else if func == "acf"@ {
        Some(RouteV::Handler("acf"@))
    } else if func == "pacf"@ {
        Some(RouteV::Handler("pacf"@))
    } else if func == "cusumtest"@ || func == "cusum_test"@ {
        Some(RouteV::Handler("cusumtest"@))
    } else if func == "forecast_vol"@ {
        Some(RouteV::Handler("forecast_vol"@))
    } else if func == "diagnostics"@ {
        Some(RouteV::Handler("diagnostics"@))
    } else if func == "varma"@ || func == "varmax"@ {
        Some(RouteV::Handler("varma"@))
    } else if func == "decompose"@ || func == "seasonal_decompose"@ {
        Some(RouteV::Handler("decompose"@))
    } else if func == "stl"@ {
        Some(RouteV::Handler("stl"@))
    } else if func == "mstl"@ {
        Some(RouteV::Handler("mstl"@))
    } else if func == "proptest"@ || func == "prtest"@ {
        Some(RouteV::Handler("proptest"@))
    } else if func == "proptest2"@ || func == "prtest2"@ {
        Some(RouteV::Handler("proptest2"@))
    } else if func == "propci"@ {
        Some(RouteV::Handler("propci"@))
    } else if func == "chisq2x2"@ || func == "chi2_2x2"@ {
        Some(RouteV::Handler("chisq2x2"@))
    } else if func == "multipletests"@ || func == "multtest"@ {
        Some(RouteV::Handler("multipletests"@))
    } else if func == "ucm"@ || func == "uc"@ || func == "structural_ts"@ {
        Some(RouteV::Handler("ucm"@))
    } else if func == "gam"@ || func == "gamfit"@ {
        Some(RouteV::Handler("gam"@))
    } else if func == "mice"@ || func == "mi"@ || func == "multiple_imputation"@ {
        Some(RouteV::Handler("mice"@))
    } else if func == "msauto"@ || func == "markov_ar"@ || func == "ms_ar"@ || func == "hamilton"@ {
        Some(RouteV::Handler("msauto"@))
    } else if func == "svar"@ || func == "svec"@ {
        Some(RouteV::Handler("svar"@))
    } else if func == "sirf"@ || func == "svar_irf"@ {
        Some(RouteV::Handler("sirf"@))
    } else if func == "sfevd"@ || func == "svar_fevd"@ {
        Some(RouteV::Handler("sfevd"@))
    } else if func == "threesl"@ || func == "three_sls"@ || func == "3sls"@ || func == "reg3"@ {
        Some(RouteV::Handler("threesl"@))
    } else if func == "dfm"@ || func == "dynamic_factor"@ {
        Some(RouteV::Handler("dfm"@))
    } else if func == "adtest"@ || func == "anderson_darling"@ {
        Some(RouteV::Handler("adtest"@))
    } else if func == "lilliefors"@ || func == "lillie"@ {
        Some(RouteV::Handler("lilliefors"@))
    } else if func == "omnibus"@ || func == "dagostino"@ {
        Some(RouteV::Handler("omnibus"@))
    } else if func == "swilk"@ || func == "shapiro_wilk"@ || func == "shapiro"@ {
        Some(RouteV::Handler("swilk"@))
    } else if func == "sfrancia"@ || func == "shapiro_francia"@ {
        Some(RouteV::Handler("sfrancia"@))
    } else if func == "sktest"@ {
        Some(RouteV::Handler("sktest"@))
    } else if func == "harveycollier"@ || func == "harvey_collier"@ || func == "hctest"@ {
        Some(RouteV::Handler("harveycollier"@))
    } else {
        None
    }
}

impl Interpreter {
    /// The handler of the estimator `func` among the ETS, panel threshold, canonical correlation, weighted and panel summaries, rank tests, filters, penalized regression, unit-root and cointegration tests, `xtset`, or `None`
    /// when `func` is none of them.
    pub fn eval_call_estimators_misc(func: &str) -> (r: Option<Route>)
        ensures
            route_view(r) == misc_route(func@),
    {
        if str_eq(func, "ets") || str_eq(func, "ses") || str_eq(func, "hwes") || str_eq(func, "holtwinters") || str_eq(func, "exponential_smoothing") {
            return Some(Route::Handler(String::from_str("ets")));
        }
        if str_eq(func, "pthresh") || str_eq(func, "xtthresh") || str_eq(func, "panel_threshold") || str_eq(func, "threshold") {
            return Some(Route::Handler(String::from_str("pthresh")));
        }
        if str_eq(func, "cancorr") || str_eq(func, "canon") || str_eq(func, "cancor") {
            return Some(Route::Handler(String::from_str("cancorr")));
        }
        if str_eq(func, "summarize_w") || str_eq(func, "dstats_w") || str_eq(func, "svymean") || str_eq(func, "wtsum") {
            return Some(Route::Handler(String::from_str("summarize_w")));
        }
        if str_eq(func, "tabstat") || str_eq(func, "tabstats") {
            return Some(Route::Handler(String::from_str("tabstat")));
        }
        if str_eq(func, "xtsum") || str_eq(func, "xt_summary") {
            return Some(Route::Handler(String::from_str("xtsum")));
        }
        if str_eq(func, "spearman") || str_eq(func, "spearman_rho") {
            return Some(Route::Handler(String::from_str("spearman")));
        }
        if str_eq(func, "ranksum") || str_eq(func, "mannwhitney") || str_eq(func, "wilcoxon_rs") {
            return Some(Route::Handler(String::from_str("ranksum")));
        }
        if str_eq(func, "kruskal") || str_eq(func, "kwallis") || str_eq(func, "kruskal_wallis") {
            return Some(Route::Handler(String::from_str("kruskal")));
        }
        if str_eq(func, "signrank") || str_eq(func, "wilcoxon_sr") || str_eq(func, "wilcoxon_signed_rank") {
            return Some(Route::Handler(String::from_str("signrank")));
        }
        if str_eq(func, "bitest") || str_eq(func, "signtest") || str_eq(func, "binom_test") {
            return Some(Route::Handler(String::from_str("bitest")));
        }
        if str_eq(func, "hpfilter") || str_eq(func, "hp_filter") || str_eq(func, "hprescott") {
            return Some(Route::Handler(String::from_str("hpfilter")));
        }
        if str_eq(func, "bkfilter") || str_eq(func, "bk_filter") || str_eq(func, "baxter_king") {
            return Some(Route::Handler(String::from_str("bkfilter")));
        }
        if str_eq(func, "cffilter") || str_eq(func, "cf_filter") || str_eq(func, "christiano_fitzgerald") {
            return Some(Route::Handler(String::from_str("cffilter")));
        }
        if str_eq(func, "ridge") || str_eq(func, "ridge_reg") {
            return Some(Route::Handler(String::from_str("ridge")));
        }
        if str_eq(func, "lasso") || str_eq(func, "lasso_reg") {
            return Some(Route::Handler(String::from_str("lasso")));
        }
        if str_eq(func, "elasticnet") || str_eq(func, "elastic_net") || str_eq(func, "enet") {
            return Some(Route::Handler(String::from_str("elasticnet")));
        }
        if str_eq(func, "adf") || str_eq(func, "dickey_fuller") || str_eq(func, "augmented_df") {
            return Some(Route::Handler(String::from_str("adf")));
        }
        if str_eq(func, "kpss") {
            return Some(Route::Handler(String::from_str("kpss")));
        }
        if str_eq(func, "pp") || str_eq(func, "phillips_perron") {
            return Some(Route::Handler(String::from_str("pp")));
        }
        if str_eq(func, "za") || str_eq(func, "zivot_andrews") || str_eq(func, "zivot") {
            return Some(Route::Handler(String::from_str("za")));
        }
        if str_eq(func, "granger") || str_eq(func, "granger_causality") {
            return Some(Route::Handler(String::from_str("granger")));
        }
        if str_eq(func, "engle_granger") || str_eq(func, "coint") || str_eq(func, "egtest") {
            return Some(Route::Handler(String::from_str("engle_granger")));
        }
        if str_eq(func, "johansen") || str_eq(func, "johansen_trace") || str_eq(func, "vecrank") {
            return Some(Route::Handler(String::from_str("johansen")));
        }
        if str_eq(func, "xtset") {
            return Some(Route::Handler(String::from_str("xtset")));
        }
        None
    }

    /// The handler of the estimator `func` among the bootstrap, panel diagnostics, SUR, rolling and recursive OLS, information criteria, fixed and random effects, panel tests, GMM, Hausman and Wald tests, or `None`
    /// when `func` is none of them.
    pub fn eval_call_estimators_panel(func: &str) -> (r: Option<Route>)
        ensures
            route_view(r) == panel_route(func@),
    {
        if str_eq(func, "bootstrap") || str_eq(func, "boot") {
            return Some(Route::Handler(String::from_str("bootstrap")));
        }
        if str_eq(func, "bootse") {
            return Some(Route::Redirect(String::from_str("bootstrap")));
        }
        if str_eq(func, "markov") || str_eq(func, "msar") || str_eq(func, "markovswitching") {
            return Some(Route::Handler(String::from_str("markov")));
        }
        if str_eq(func, "clogit") || str_eq(func, "xtlogit_fe") {
            return Some(Route::Handler(String::from_str("clogit")));
        }
        if str_eq(func, "cpoisson") || str_eq(func, "xtpoisson_fe") || str_eq(func, "ppml") {
            return Some(Route::Handler(String::from_str("cpoisson")));
        }
        if str_eq(func, "cmnlogit") || str_eq(func, "cmlogit") || str_eq(func, "conditional_mlogit") {
            return Some(Route::Handler(String::from_str("cmnlogit")));
        }
        if str_eq(func, "gqtest") {
            return Some(Route::Handler(String::from_str("gqtest")));
        }
        if str_eq(func, "bphet") || str_eq(func, "hettest") {
            return Some(Route::Handler(String::from_str("bphet")));
        }
        if str_eq(func, "bptest") || str_eq(func, "xttest0") || str_eq(func, "xtbp") {
            return Some(Route::Handler(String::from_str("bptest")));
        }
        if str_eq(func, "wooldridge") || str_eq(func, "xtserial") || str_eq(func, "wooldridge_serial") || str_eq(func, "xtwooldridge") {
            return Some(Route::Handler(String::from_str("wooldridge")));
        }
        if str_eq(func, "pesaran") || str_eq(func, "xtcd") {
            return Some(Route::Handler(String::from_str("eval_pesaran")));
        }
        if str_eq(func, "mundlak") {
            return Some(Route::Handler(String::from_str("eval_mundlak")));
        }
        if str_eq(func, "abtest") || str_eq(func, "abar") || str_eq(func, "abond") || str_eq(func, "xtabond_test") || str_eq(func, "arellano_bond") {
            return Some(Route::Handler(String::from_str("abtest")));
        }
        if str_eq(func, "sur") || str_eq(func, "sureg") {
            return Some(Route::Handler(String::from_str("sur")));
        }
        if str_eq(func, "rolling") || str_eq(func, "rols") {
            return Some(Route::Handler(String::from_str("eval_rolling")));
        }
        if str_eq(func, "recursive") || str_eq(func, "recols") {
            return Some(Route::Handler(String::from_str("eval_recursive")));
        }
        if str_eq(func, "ic") || str_eq(func, "fitstat") || str_eq(func, "estat") {
            return Some(Route::Handler(String::from_str("ic")));
        }
        if str_eq(func, "akaike_weights") || str_eq(func, "aic_weights") {
            return Some(Route::Handler(String::from_str("akaike_weights")));
        }
        if str_eq(func, "lrtest") || str_eq(func, "lr_test") {
            return Some(Route::Handler(String::from_str("lrtest")));
        }
        if str_eq(func, "fe") {
            return Some(Route::Handler(String::from_str("fe")));
        }
        if str_eq(func, "re") {
            return Some(Route::Handler(String::from_str("re")));
        }
        if str_eq(func, "ftest_fe") {
            return Some(Route::Handler(String::from_str("ftest_fe")));
        }
        if str_eq(func, "pesaran_cd") || str_eq(func, "cd_test") {
            return Some(Route::Handler(String::from_str("pesaran_cd")));
        }
        if str_eq(func, "bplm") {
            return Some(Route::Handler(String::from_str("bplm")));
        }
        if str_eq(func, "chamberlain") {
            return Some(Route::Handler(String::from_str("chamberlain")));
        }
        if str_eq(func, "mundlak_OLD_REMOVED") {
            return Some(Route::Handler(String::from_str("mundlak_OLD_REMOVED")));
        }
        if str_eq(func, "ab") {
            return Some(Route::Handler(String::from_str("ab")));
        }
        if str_eq(func, "gmm") {
            return Some(Route::Handler(String::from_str("gmm")));
        }
        if str_eq(func, "sysgmm") {
            return Some(Route::Handler(String::from_str("sysgmm")));
        }
        if str_eq(func, "feiv") {
            return Some(Route::Handler(String::from_str("feiv")));
        }
        if str_eq(func, "pcse") {
            return Some(Route::Handler(String::from_str("pcse")));
        }
        if str_eq(func, "xtgls") {
            return Some(Route::Handler(String::from_str("xtgls")));
        }
        if str_eq(func, "ab_test") {
            return Some(Route::Handler(String::from_str("ab_test")));
        }
        if str_eq(func, "wooldridge_OLD_REMOVED") {
            return Some(Route::Handler(String::from_str("wooldridge_OLD_REMOVED")));
        }
        if str_eq(func, "hausman") {
            return Some(Route::Handler(String::from_str("hausman")));
        }
        if str_eq(func, "hausman_robust") || str_eq(func, "hausman_r") {
            return Some(Route::Handler(String::from_str("hausman_robust")));
        }
        if str_eq(func, "ftest_robust") || str_eq(func, "f_robust") {
            return Some(Route::Handler(String::from_str("ftest_robust")));
        }
        if str_eq(func, "test") {
            return Some(Route::Handler(String::from_str("test")));
        }
        None
    }

    /// The handler of the estimator `func` among the GARCH, residual diagnostics, decompositions, proportion tests, UCM, GAM, imputation, Markov switching, SVAR, 3SLS, DFM and normality tests, or `None`
    /// when `func` is none of them.
    pub fn eval_call_estimators_timeseries(func: &str) -> (r: Option<Route>)
        ensures
            route_view(r) == timeseries_route(func@),
    {
        if str_eq(func, "garch") || str_eq(func, "egarch") || str_eq(func, "gjrgarch") {
            return Some(Route::Handler(String::from_str("garch")));
        }
        if str_eq(func, "ljungbox") || str_eq(func, "ljung_box") || str_eq(func, "portmanteau") {
            return Some(Route::Handler(String::from_str("ljungbox")));
        }
        if str_eq(func, "leverage") {
            return Some(Route::Handler(String::from_str("leverage")));
        }
        if str_eq(func, "cooks") {
            return Some(Route::Handler(String::from_str("cooks")));
        }
        if str_eq(func, "vif") {
            return Some(Route::Handler(String::from_str("vif")));
        }
        if str_eq(func, "condnum") {
            return Some(Route::Handler(String::from_str("condnum")));
        }
        if str_eq(func, "durbinwatson") || str_eq(func, "dw") {
            return Some(Route::Handler(String::from_str("durbinwatson")));
        }
        if str_eq(func, "white") {
            return Some(Route::Handler(String::from_str("white")));
        }
        if str_eq(func, "reset") {
            return Some(Route::Handler(String::from_str("reset")));
        }
        if str_eq(func, "jb") {
            return Some(Route::Handler(String::from_str("jb")));
        }
        if str_eq(func, "bgodfrey") {
            return Some(Route::Handler(String::from_str("bgodfrey")));
        }
        if str_eq(func, "bgtest") || str_eq(func, "bg") || str_eq(func, "breusch_godfrey") {
            return Some(Route::Redirect(String::from_str("bgodfrey")));
        }
        if str_eq(func, "archtest") || str_eq(func, "arch_test") || str_eq(func, "engle_arch") {
            return Some(Route::Handler(String::from_str("archtest")));
        }
        if str_eq(func, "acf") {
            return Some(Route::Handler(String::from_str("acf")));
        }
        if str_eq(func, "pacf") {
            return Some(Route::Handler(String::from_str("pacf")));
        }
        if str_eq(func, "cusumtest") || str_eq(func, "cusum_test") {
            return Some(Route::Handler(String::from_str("cusumtest")));
        }
        if str_eq(func, "forecast_vol") {
            return Some(Route::Handler(String::from_str("forecast_vol")));
        }
        if str_eq(func, "diagnostics") {
            return Some(Route::Handler(String::from_str("diagnostics")));
        }
        if str_eq(func, "varma") || str_eq(func, "varmax") {
            return Some(Route::Handler(String::from_str("varma")));
        }
        if str_eq(func, "decompose") || str_eq(func, "seasonal_decompose") {
            return Some(Route::Handler(String::from_str("decompose")));
        }
        if str_eq(func, "stl") {
            return Some(Route::Handler(String::from_str("stl")));
        }
        if str_eq(func, "mstl") {
            return Some(Route::Handler(String::from_str("mstl")));
        }
        if str_eq(func, "proptest") || str_eq(func, "prtest") {
            return Some(Route::Handler(String::from_str("proptest")));
        }
        if str_eq(func, "proptest2") || str_eq(func, "prtest2") {
            return Some(Route::Handler(String::from_str("proptest2")));
        }
        if str_eq(func, "propci") {
            return Some(Route::Handler(String::from_str("propci")));
        }
        if str_eq(func, "chisq2x2") || str_eq(func, "chi2_2x2") {
            return Some(Route::Handler(String::from_str("chisq2x2")));
        }
        if str_eq(func, "multipletests") || str_eq(func, "multtest") {
            return Some(Route::Handler(String::from_str("multipletests")));
        }
        if str_eq(func, "ucm") || str_eq(func, "uc") || str_eq(func, "structural_ts") {
            return Some(Route::Handler(String::from_str("ucm")));
        }
        if str_eq(func, "gam") || str_eq(func, "gamfit") {
            return Some(Route::Handler(String::from_str("gam")));
        }
        if str_eq(func, "mice") || str_eq(func, "mi") || str_eq(func, "multiple_imputation") {
            return Some(Route::Handler(String::from_str("mice")));
        }
        if str_eq(func, "msauto") || str_eq(func, "markov_ar") || str_eq(func, "ms_ar") || str_eq(func, "hamilton") {
            return Some(Route::Handler(String::from_str("msauto")));
        }
        if str_eq(func, "svar") || str_eq(func, "svec") {
            return Some(Route::Handler(String::from_str("svar")));
        }
        if str_eq(func, "sirf") || str_eq(func, "svar_irf") {
            return Some(Route::Handler(String::from_str("sirf")));
        }
        if str_eq(func, "sfevd") || str_eq(func, "svar_fevd") {
            return Some(Route::Handler(String::from_str("sfevd")));
        }
        if str_eq(func, "threesl") || str_eq(func, "three_sls") || str_eq(func, "3sls") || str_eq(func, "reg3") {
            return Some(Route::Handler(String::from_str("threesl")));
        }
        if str_eq(func, "dfm") || str_eq(func, "dynamic_factor") {
            return Some(Route::Handler(String::from_str("dfm")));
        }
        if str_eq(func, "adtest") || str_eq(func, "anderson_darling") {
            return Some(Route::Handler(String::from_str("adtest")));
        }
        if str_eq(func, "lilliefors") || str_eq(func, "lillie") {
            return Some(Route::Handler(String::from_str("lilliefors")));
        }
        if str_eq(func, "omnibus") || str_eq(func, "dagostino") {
            return Some(Route::Handler(String::from_str("omnibus")));
        }
        if str_eq(func, "swilk") || str_eq(func, "shapiro_wilk") || str_eq(func, "shapiro") {
            return Some(Route::Handler(String::from_str("swilk")));
        }
        if str_eq(func, "sfrancia") || str_eq(func, "shapiro_francia") {
            return Some(Route::Handler(String::from_str("sfrancia")));
        }
        if str_eq(func, "sktest") {
            return Some(Route::Handler(String::from_str("sktest")));
        }
        if str_eq(func, "harveycollier") || str_eq(func, "harvey_collier") || str_eq(func, "hctest") {
            return Some(Route::Handler(String::from_str("harveycollier")));
        }
        None
    }
}


/// The model families that `diagnostics()` covers.
pub open spec fn has_diagnostics(kind: ModelKind) -> bool {
    ||| kind == ModelKind::Ols
    ||| kind == ModelKind::Garch
    ||| kind == ModelKind::Arima
    ||| kind == ModelKind::Var
    ||| kind == ModelKind::Vecm
    ||| kind == ModelKind::Iv
    ||| kind == ModelKind::Panel
    ||| kind == ModelKind::Re
}

/// Which diagnostics a value gets: those of its model family, or the error
/// for a value that is no covered model.
pub open spec fn diagnostics_route(v: Val) -> Result<ModelKind, ErrV> {
    match v {
        Val::Model { kind, .. } => if has_diagnostics(kind) {
            Ok(kind)
        } else {
            Err(ErrV::Type("diagnostics() suporta OLS, GARCH, ARIMA, VAR, VECM, IV, FE e RE"@))
        },
        _ => Err(ErrV::Type("diagnostics() suporta OLS, GARCH, ARIMA, VAR, VECM, IV, FE e RE"@)),
    }
}

/// The abstract form of a model family or an error.
pub open spec fn kind_result_view(r: Result<ModelKind, HayashiError>) -> Result<ModelKind, ErrV> {
    match r {
        Ok(k) => Ok(k),
        Err(e) => Err(e@),
    }
}

impl Interpreter {
    /// `diagnostics(model)`: evaluates the model argument and picks the
    /// diagnostics of its family.
    pub fn diagnostics(&mut self, args: &Vec<Expr>, fuel: u64) -> (r: Result<ModelKind, HayashiError>)
        requires
            args@.len() > 0 ==> sem_expr(fuel as nat, old(self)@, args@[0]) is Done,
        ensures
            args@.len() == 0 ==> final(self)@ == old(self)@ && kind_result_view(r) == Err::<
                ModelKind,
                ErrV,
            >(ErrV::Runtime("diagnostics() requires a model (OLS, GARCH, or ARIMA)"@)),
            args@.len() > 0 ==> match sem_expr(fuel as nat, old(self)@, args@[0]) {
                Flow::Done(s, Ok(v)) => final(self)@ == s && kind_result_view(r) == diagnostics_route(
                    v,
                ),
                Flow::Done(s, Err(e)) => final(self)@ == s && kind_result_view(r) == Err::<
                    ModelKind,
                    ErrV,
                >(e),
                Flow::Fault => false,
            },
    {
        if args.len() == 0 {
            return Err(
                HayashiError::Runtime(
                    String::from_str("diagnostics() requires a model (OLS, GARCH, or ARIMA)"),
                ),
            );
        }
        let v = self.eval_expr(&args[0], fuel)?;
        match v {
            Value::Model(m) => match m.kind {
                ModelKind::Ols | ModelKind::Garch | ModelKind::Arima | ModelKind::Var
                | ModelKind::Vecm | ModelKind::Iv | ModelKind::Panel | ModelKind::Re => Ok(m.kind),
                _ => Err(
                    HayashiError::Type(
                        String::from_str(
                            "diagnostics() suporta OLS, GARCH, ARIMA, VAR, VECM, IV, FE e RE",
                        ),
                    ),
                ),
            },
            _ => Err(
                HayashiError::Type(
                    String::from_str("diagnostics() suporta OLS, GARCH, ARIMA, VAR, VECM, IV, FE e RE"),
                ),
            ),
        }
    }
}

/// The entries that open the diagnostics dictionary of an OLS model with
/// `n` observations and `k` coefficients.
pub open spec fn spec_ols_diagnostics_head(n: i64, k: i64) -> Seq<(Seq<char>, Val)> {
    seq![("model"@, Val::Str("OLS"@)), ("n"@, Val::Int(n)), ("k"@, Val::Int(k))]
}

/// The tests whose results follow in the OLS diagnostics dictionary, in
/// order; `vif` and `cooks_d` come after them when they can be computed.
pub open spec fn ols_diagnostic_keys() -> Seq<Seq<char>> {
    seq!["jarque_bera"@, "durbin_watson"@, "breusch_godfrey"@, "white"@, "reset"@]
}

/// The exact part of `diagnostics()` on an OLS model with `n_obs`
/// residuals: its `model`, `n` and `k` entries (`k` counts the
/// coefficients), and the names of the tests whose results the caller
/// computes and adds.
pub fn ols_diagnostics_entries(n_obs: usize, model: &ModelSummary) -> (r: (Vec<(String, Value)>, Vec<String>))
    requires
        n_obs <= i64::MAX,
        model.coef_names@.len() <= i64::MAX,
    ensures
        entries_view(r.0@) == spec_ols_diagnostics_head(n_obs as i64, model.coef_names@.len() as i64),
        strings_view(r.1@) == ols_diagnostic_keys(),
{
    let mut head: Vec<(String, Value)> = Vec::new();
    head.push((String::from_str("model"), Value::Str(String::from_str("OLS"))));
    head.push((String::from_str("n"), Value::Int(n_obs as i64)));
    head.push((String::from_str("k"), Value::Int(model.coef_names.len() as i64)));
    let mut keys: Vec<String> = Vec::new();
    keys.push(String::from_str("jarque_bera"));
    keys.push(String::from_str("durbin_watson"));
    keys.push(String::from_str("breusch_godfrey"));
    keys.push(String::from_str("white"));
    keys.push(String::from_str("reset"));
    proof {
        reveal_strlit("model");
        reveal_strlit("OLS");
        reveal_strlit("n");
        reveal_strlit("k");
        lemma_entries_view(head@);
        assert(entries_view(head@) =~= spec_ols_diagnostics_head(n_obs as i64, model.coef_names@.len() as i64));
        assert(strings_view(keys@) =~= ols_diagnostic_keys());
    }
    (head, keys)
}

} // verus!
