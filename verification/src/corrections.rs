//! The p-value correction that `multipletests` applies, chosen by its
//! `method=` option.
use crate::load::{lowercase, to_lowercase};
use crate::options::{get_option, opt_get};
use crate::text::str_eq;
use crate::value::{ErrV, HayashiError, Val, Value};
use vstd::prelude::*;

verus! {

/// The corrections for multiple tests.
#[derive(PartialEq, Eq, Structural, Clone, Copy, Debug)]
pub enum Correction {
    Bonferroni,
    Sidak,
    HolmBonferroni,
    BenjaminiHochberg,
    BenjaminiYekutieli,
}

/// The correction a lower-cased method name asks for, with its aliases.
pub open spec fn spec_correction_name(l: Seq<char>) -> Option<Correction> {
    if l == "bonferroni"@ {
        Some(Correction::Bonferroni)
    } else if l == "sidak"@ {
        Some(Correction::Sidak)
    } else if l == "holm"@ || l == "holm_bonferroni"@ || l == "holmbonferroni"@ {
        Some(Correction::HolmBonferroni)
    } else if l == "bh"@ || l == "benjamini_hochberg"@ || l == "fdr_bh"@ {
        Some(Correction::BenjaminiHochberg)
    } else if l == "by"@ || l == "benjamini_yekutieli"@ || l == "fdr_by"@ {
        Some(Correction::BenjaminiYekutieli)
    } else {
        None
    }
}

/// The short name of a correction, as `method=` spells it.
pub open spec fn correction_short_name(c: Correction) -> Seq<char> {
    match c {
        Correction::Bonferroni => "bonferroni"@,
        Correction::Sidak => "sidak"@,
        Correction::HolmBonferroni => "holm"@,
        Correction::BenjaminiHochberg => "bh"@,
        Correction::BenjaminiYekutieli => "by"@,
    }
}

/// Each correction is chosen by its own short name, so no two corrections share one.
pub proof fn lemma_correction_names(c: Correction)
    ensures
        spec_correction_name(correction_short_name(c)) == Some(c),
{
    reveal_strlit("benjamini_hochberg");
    reveal_strlit("benjamini_yekutieli");
    reveal_strlit("bh");
    reveal_strlit("bonferroni");
    reveal_strlit("by");
    reveal_strlit("fdr_bh");
    reveal_strlit("fdr_by");
    reveal_strlit("holm");
    reveal_strlit("holm_bonferroni");
    reveal_strlit("holmbonferroni");
    reveal_strlit("sidak");
    let n = correction_short_name(c);
    match c {
        Correction::Bonferroni => {
            assert(n.len() == 10);
        },
        Correction::Sidak => {
            assert(n.len() == 5);
        },
        Correction::HolmBonferroni => {
            assert(n.len() == 4);
        },
        Correction::BenjaminiHochberg => {
            assert(n.len() == 2);
        },
        Correction::BenjaminiYekutieli => {
            assert(n.len() == 2);
            assert(n[1] == 'y' && "bh"@[1] == 'h');
        },
    }
}

/// The correction of `multipletests`: option `method=` (a string, compared
/// in lower case), Bonferroni by default, or the error for an unknown name.
pub open spec fn spec_correction(opts: Seq<(String, Value)>) -> Result<Correction, ErrV> {
    match opt_get(opts, "method"@) {
        Some(Val::Str(s)) => match spec_correction_name(lowercase(s)) {
            Some(c) => Ok(c),
            None => Err(
                ErrV::Runtime("unknown method: '"@ + lowercase(s) + "' — use bonferroni, sidak, holm, bh, by"@),
            ),
        },
        _ => Ok(Correction::Bonferroni),
    }
}

/// The correction named by a lower-cased method name.
pub fn correction_name(l: &str) -> (r: Option<Correction>)
    ensures
        r == spec_correction_name(l@),
{
    if str_eq(l, "bonferroni") {
        Some(Correction::Bonferroni)
    } else if str_eq(l, "sidak") {
        Some(Correction::Sidak)
    } else if str_eq(l, "holm") || str_eq(l, "holm_bonferroni") || str_eq(l, "holmbonferroni") {
        Some(Correction::HolmBonferroni)
    } else if str_eq(l, "bh") || str_eq(l, "benjamini_hochberg") || str_eq(l, "fdr_bh") {
        Some(Correction::BenjaminiHochberg)
    } else if str_eq(l, "by") || str_eq(l, "benjamini_yekutieli") || str_eq(l, "fdr_by") {
        Some(Correction::BenjaminiYekutieli)
    } else {
        None
    }
}

/// The correction chosen by the options of a `multipletests` call.
pub fn multipletests_method(opt_map: &Vec<(String, Value)>) -> (r: Result<Correction, HayashiError>)
    ensures
        match (r, spec_correction(opt_map@)) {
            (Ok(c), Ok(d)) => c == d,
            (Err(e), Err(x)) => e@ == x,
            _ => false,
        },
{
    match get_option(opt_map, "method") {
        Some(Value::Str(s)) => {
            let l = to_lowercase(s.as_str());
            match correction_name(l.as_str()) {
                Some(c) => Ok(c),
                None => Err(
                    HayashiError::Runtime(
                        String::from_str("unknown method: '").concat(l.as_str()).concat(
                            "' — use bonferroni, sidak, holm, bh, by",
                        ),
                    ),
                ),
            }
        },
        _ => Ok(Correction::Bonferroni),
    }
}

} // verus!
