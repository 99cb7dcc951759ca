//! The options of `gam(...)`: the smoothed variables, the spline basis, and
//! the distribution family and link.
use crate::interp::Interpreter;
use crate::options::{get_option, opt_get};
use crate::text::str_eq;
use crate::value::{items_view, lemma_items_view, strings_view, ErrV, HayashiError, Val, Value};
use vstd::prelude::*;

verus! {

/// The names in `smooth=`: one string, or a list of strings.
pub open spec fn smooth_names(opt: Option<Val>) -> Result<Seq<Seq<char>>, ErrV> {
    match opt {
        None => Ok(Seq::empty()),
        Some(Val::Str(s)) => Ok(seq![s]),
        Some(Val::List(items)) => if forall|i: int| 0 <= i < items.len() ==> (#[trigger] items[i]) is Str {
            Ok(items.map_values(|v: Val| v->Str_0))
        } else {
            Err(ErrV::Type("smooth= must be string ou lista de strings"@))
        },
        Some(_) => Err(ErrV::Type("smooth= must be string ou lista de strings"@)),
    }
}

/// An integer option (converted as `as usize` converts it), or `default`.
pub open spec fn count_option(opt: Option<Val>, default: usize) -> usize {
    match opt {
        Some(Val::Int(v)) => v as usize,
        _ => default,
    }
}

/// The smoothed variables, the spline degrees of freedom and the spline
/// degree of a `gam` call with `n_linear` linear terms, or its error.
pub open spec fn spec_gam_options(opts: Seq<(String, Value)>, n_linear: usize) -> Result<
    (Seq<Seq<char>>, usize, usize),
    ErrV,
> {
    match smooth_names(opt_get(opts, "smooth"@)) {
        Err(e) => Err(e),
        Ok(names) => if names.len() == 0 && n_linear == 0 {
            Err(ErrV::Runtime("gam: specify linear terms (formula) and/or smooth="@))
        } else {
            Ok((names, count_option(opt_get(opts, "spline_df"@), 10), count_option(opt_get(opts, "degree"@), 3)))
        },
    }
}

/// The smoothed variables and the spline settings of a `gam` call.
pub fn parse_gam_options(opt_map: &Vec<(String, Value)>, n_linear: usize) -> (r: Result<
    (Vec<String>, usize, usize),
    HayashiError,
>)
    ensures
        match (r, spec_gam_options(opt_map@, n_linear)) {
            (Ok((n, d, g)), Ok((n2, d2, g2))) => strings_view(n@) == n2 && d == d2 && g == g2,
            (Err(e), Err(x)) => e@ == x,
            _ => false,
        },
{
    let names: Vec<String> = match get_option(opt_map, "smooth") {
        None => {
            let v: Vec<String> = Vec::new();
            assert(strings_view(v@) =~= Seq::<Seq<char>>::empty());
            v
        },
        Some(Value::Str(s)) => {
            let mut v: Vec<String> = Vec::new();
            v.push(s);
            assert(strings_view(v@) =~= seq![v@[0]@]);
            v
        },
        Some(Value::List(items)) => {
            proof {
                lemma_items_view(items@);
            }
            let ghost iv = items_view(items@);
            let mut v: Vec<String> = Vec::new();
            assert(strings_view(v@) =~= iv.take(0).map_values(|x: Val| x->Str_0));
            let mut i: usize = 0;
            while i < items.len()
                invariant
                    i <= items@.len(),
                    iv == items_view(items@),
                    iv.len() == items@.len(),
                    forall|t: int| 0 <= t < items@.len() ==> (#[trigger] iv[t]) == items@[t]@,
                    forall|t: int| 0 <= t < i ==> (#[trigger] iv[t]) is Str,
                    strings_view(v@) == iv.take(i as int).map_values(|x: Val| x->Str_0),
                    opt_get(opt_map@, "smooth"@) == Some(Val::List(iv)),
                    v@.len() == i,
                decreases items@.len() - i,
            {
                match &items[i] {
                    Value::Str(s) => {
                        let ghost before = v@;
                        v.push(s.clone());
                        proof {
                            let a = strings_view(v@);
                            let b = iv.take(i + 1).map_values(|x: Val| x->Str_0);
                            let c = iv.take(i as int).map_values(|x: Val| x->Str_0);
                            assert(iv[i as int] == items@[i as int]@);
                            assert forall|k: int| 0 <= k < a.len() implies a[k] == b[k] by {
                                if k < i {
                                    assert(strings_view(before)[k] == c[k]);
                                }
                            }
                            assert(a =~= b);
                        }
                    },
                    _ => {
                        assert(iv[i as int] == items@[i as int]@);
                        assert(!(iv[i as int] is Str));
                        return Err(HayashiError::Type(String::from_str("smooth= must be string ou lista de strings")));
                    },
                }
                i = i + 1;
            }
            assert(iv.take(items@.len() as int) =~= iv);
            v
        },
        Some(_) => {
            return Err(HayashiError::Type(String::from_str("smooth= must be string ou lista de strings")));
        },
    };
    if names.len() == 0 && n_linear == 0 {
        return Err(HayashiError::Runtime(String::from_str("gam: specify linear terms (formula) and/or smooth=")));
    }
    let spline_df = match get_option(opt_map, "spline_df") {
        Some(Value::Int(v)) => v as usize,
        _ => 10,
    };
    let degree = match get_option(opt_map, "degree") {
        Some(Value::Int(v)) => v as usize,
        _ => 3,
    };
    Ok((names, spline_df, degree))
}

/// The distribution family of a generalized model.
#[derive(PartialEq, Eq, Structural, Clone, Copy, Debug)]
pub enum GamFamily {
    Gaussian,
    Binomial,
    Poisson,
    Gamma,
    InverseGaussian,
    /// Its dispersion comes from `alpha=`.
    NegativeBinomial,
    /// Its power comes from `power=`.
    Tweedie,
}

/// The link function of a generalized model.
#[derive(PartialEq, Eq, Structural, Clone, Copy, Debug)]
pub enum GamLink {
    Identity,
    Log,
    Logit,
    Probit,
    InversePower,
    CLogLog,
}

/// The family named by `family=` (Gaussian when it is absent or not a
/// string).
pub open spec fn spec_family(opt: Option<Val>) -> Result<GamFamily, ErrV> {
    match opt {
        Some(Val::Str(s)) => if s == "gaussian"@ || s == "normal"@ {
            Ok(GamFamily::Gaussian)
        } else if s == "binomial"@ || s == "logistic"@ {
            Ok(GamFamily::Binomial)
        } else if s == "poisson"@ {
            Ok(GamFamily::Poisson)
        } else if s == "gamma"@ {
            Ok(GamFamily::Gamma)
        } else if s == "inverse_gaussian"@ {
            Ok(GamFamily::InverseGaussian)
        } else if s == "negbin"@ {
            Ok(GamFamily::NegativeBinomial)
        } else if s == "tweedie"@ {
            Ok(GamFamily::Tweedie)
        } else {
            Err(
                ErrV::Runtime(
                    "gam: family='"@ + s + "' unknown — use: gaussian, binomial, poisson, gamma, negbin"@,
                ),
            )
        },
        _ => Ok(GamFamily::Gaussian),
    }
}

/// The link named by `link=` (identity when it is absent or not a string).
pub open spec fn spec_link(opt: Option<Val>) -> Result<GamLink, ErrV> {
    match opt {
        Some(Val::Str(s)) => if s == "identity"@ {
            Ok(GamLink::Identity)
        } else if s == "log"@ {
            Ok(GamLink::Log)
        } else if s == "logit"@ {
            Ok(GamLink::Logit)
        } else if s == "probit"@ {
            Ok(GamLink::Probit)
        } else if s == "inverse"@ {
            Ok(GamLink::InversePower)
        } else if s == "cloglog"@ {
            Ok(GamLink::CLogLog)
        } else {
            Err(
                ErrV::Runtime(
                    "gam: link='"@ + s + "' unknown — use: identity, log, logit, probit, inverse, cloglog"@,
                ),
            )
        },
        _ => Ok(GamLink::Identity),
    }
}

/// The family and link of a `gam` call, the family checked first.
pub open spec fn spec_family_link(opts: Seq<(String, Value)>) -> Result<(GamFamily, GamLink), ErrV> {
    match spec_family(opt_get(opts, "family"@)) {
        Err(e) => Err(e),
        Ok(f) => match spec_link(opt_get(opts, "link"@)) {
            Err(e) => Err(e),
            Ok(l) => Ok((f, l)),
        },
    }
}

impl Interpreter {
    /// The distribution family and link of a `gam` call.
    pub fn parse_gam_family_link(opt_map: &Vec<(String, Value)>) -> (r: Result<(GamFamily, GamLink), HayashiError>)
        ensures
            match (r, spec_family_link(opt_map@)) {
                (Ok(a), Ok(b)) => a == b,
                (Err(e), Err(x)) => e@ == x,
                _ => false,
            },
    {
        let family = match get_option(opt_map, "family") {
            Some(Value::Str(s)) => {
                let t = s.as_str();
                if str_eq(t, "gaussian") || str_eq(t, "normal") {
                    GamFamily::Gaussian
                } else if str_eq(t, "binomial") || str_eq(t, "logistic") {
                    GamFamily::Binomial
                } else if str_eq(t, "poisson") {
                    GamFamily::Poisson
                } else if str_eq(t, "gamma") {
                    GamFamily::Gamma
                } else if str_eq(t, "inverse_gaussian") {
                    GamFamily::InverseGaussian
                } else if str_eq(t, "negbin") {
                    GamFamily::NegativeBinomial
                } else if str_eq(t, "tweedie") {
                    GamFamily::Tweedie
                } else {
                    return Err(
                        HayashiError::Runtime(
                            String::from_str("gam: family='").concat(t).concat(
                                "' unknown — use: gaussian, binomial, poisson, gamma, negbin",
                            ),
                        ),
                    );
                }
            },
            _ => GamFamily::Gaussian,
        };
        let link = match get_option(opt_map, "link") {
            Some(Value::Str(s)) => {
                let t = s.as_str();
                if str_eq(t, "identity") {
                    GamLink::Identity
                } else if str_eq(t, "log") {
                    GamLink::Log
                } else if str_eq(t, "logit") {
                    GamLink::Logit
                } else if str_eq(t, "probit") {
                    GamLink::Probit
                } else if str_eq(t, "inverse") {
                    GamLink::InversePower
                } else if str_eq(t, "cloglog") {
                    GamLink::CLogLog
                } else {
                    return Err(
                        HayashiError::Runtime(
                            String::from_str("gam: link='").concat(t).concat(
                                "' unknown — use: identity, log, logit, probit, inverse, cloglog",
                            ),
                        ),
                    );
                }
            },
            _ => GamLink::Identity,
        };
        Ok((family, link))
    }
}

} // verus!
