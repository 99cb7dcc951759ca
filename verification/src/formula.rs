use crate::text::nat_to_string;
use crate::value::strings_view;
use vstd::prelude::*;

verus! {

/// A term on the right-hand side of a model formula.
pub enum RhsTerm {
    /// `C(var)`: a categorical variable with its levels in display order
    /// (`var` is `None` when the term is not a bare variable).
    Categorical { var: Option<String>, display: String, levels: Vec<String> },
    /// Any other term, by its display name.
    Plain { display: String },
}

/// A model formula `lhs ~ rhs... | fe...`.
pub struct Formula {
    pub lhs: String,
    pub rhs: Vec<RhsTerm>,
    pub fe: Vec<String>,
}

/// The display name of a term.
pub open spec fn term_name(t: RhsTerm) -> Seq<char> {
    match t {
        RhsTerm::Categorical { display, .. } => display@,
        RhsTerm::Plain { display } => display@,
    }
}

/// `parts` joined with `sep` between consecutive parts.
pub open spec fn join(parts: Seq<Seq<char>>, sep: Seq<char>) -> Seq<char>
    decreases parts.len(),
{
    if parts.len() == 0 {
        Seq::empty()
    } else if parts.len() == 1 {
        parts[0]
    } else {
        join(parts.drop_last(), sep) + sep + parts.last()
    }
}

/// The display names of the right-hand side terms.
pub open spec fn rhs_names(rhs: Seq<RhsTerm>) -> Seq<Seq<char>> {
    rhs.map_values(|t: RhsTerm| term_name(t))
}

/// The text form of a formula.
pub open spec fn spec_formula_string(f: Formula) -> Seq<char> {
    let base = if f.lhs@.len() == 0 {
        "~ "@ + join(rhs_names(f.rhs@), " + "@)
    } else {
        f.lhs@ + " ~ "@ + join(rhs_names(f.rhs@), " + "@)
    };
    if f.fe@.len() == 0 {
        base
    } else {
        base + " | "@ + join(strings_view(f.fe@), " + "@)
    }
}

fn term_display(t: &RhsTerm) -> (s: String)
    ensures
        s@ == term_name(*t),
{
    match t {
        RhsTerm::Categorical { display, .. } => display.clone(),
        RhsTerm::Plain { display } => display.clone(),
    }
}

/// Joins strings with a separator.
pub fn join_strings(parts: &Vec<String>, sep: &str) -> (s: String)
    ensures
        s@ == join(strings_view(parts@), sep@),
{
    let ghost pv = strings_view(parts@);
    let mut acc = String::new();
    let mut i: usize = 0;
    assert(acc@ =~= join(pv.take(0), sep@));
    while i < parts.len()
        invariant
            i <= parts@.len(),
            pv == strings_view(parts@),
            pv.len() == parts@.len(),
            acc@ == join(pv.take(i as int), sep@),
        decreases parts@.len() - i,
    {
        if i > 0 {
            acc = acc.concat(sep);
        }
        acc = acc.concat(parts[i].as_str());
        proof {
            assert(pv.take(i + 1).drop_last() =~= pv.take(i as int));
            assert(pv.take(i + 1).last() == parts@[i as int]@);
            if i == 0 {
                assert(join(pv.take(0), sep@) =~= Seq::<char>::empty());
            }
        }
        i = i + 1;
        assert(acc@ =~= join(pv.take(i as int), sep@));
    }
    assert(pv.take(parts@.len() as int) =~= pv);
    acc
}

fn term_names(rhs: &Vec<RhsTerm>) -> (v: Vec<String>)
    ensures
        strings_view(v@) == rhs_names(rhs@),
{
    let mut v: Vec<String> = Vec::new();
    let mut i: usize = 0;
    while i < rhs.len()
        invariant
            i <= rhs@.len(),
            v@.len() == i,
            strings_view(v@) == rhs_names(rhs@.take(i as int)),
        decreases rhs@.len() - i,
    {
        let ghost before = v@;
        v.push(term_display(&rhs[i]));
        proof {
            let a = strings_view(v@);
            let b = rhs_names(rhs@.take(i + 1));
            assert forall|k: int| 0 <= k < a.len() implies a[k] == b[k] by {
                if k < i {
                    assert(strings_view(before)[k] == rhs_names(rhs@.take(i as int))[k]);
                }
            }
            assert(a =~= b);
        }
        i = i + 1;
    }
    assert(rhs@.take(rhs@.len() as int) =~= rhs@);
    v
}

impl crate::interp::Interpreter {
    /// The formula as the estimation library reads it:
    /// `lhs ~ a + b | fe1 + fe2`.
    pub fn formula_to_string(f: &Formula) -> (s: String)
        ensures
            s@ == spec_formula_string(*f),
    {
        let names = term_names(&f.rhs);
        let rhs = join_strings(&names, " + ");
        let base = if f.lhs.as_str().unicode_len() == 0 {
            String::from_str("~ ").concat(rhs.as_str())
        } else {
            f.lhs.clone().concat(" ~ ").concat(rhs.as_str())
        };
        if f.fe.len() == 0 {
            base
        } else {
            base.concat(" | ").concat(join_strings(&f.fe, " + ").as_str())
        }
    }
}

/// The coefficient names a term contributes: `var=level` for every level of
/// a categorical variable but the first, the display name otherwise.
pub open spec fn term_coef_names(t: RhsTerm) -> Seq<Seq<char>> {
    match t {
        RhsTerm::Categorical { var, display, levels } => match var {
            Some(v) => later_levels(strings_view(levels@)).map_values(|l: Seq<char>| v@ + "="@ + l),
            None => seq![display@],
        },
        RhsTerm::Plain { display } => seq![display@],
    }
}

/// All levels but the first.
pub open spec fn later_levels(levels: Seq<Seq<char>>) -> Seq<Seq<char>> {
    if levels.len() == 0 {
        levels
    } else {
        levels.subrange(1, levels.len() as int)
    }
}

/// `_cons` followed by the names of all terms.
pub open spec fn raw_coef_names(rhs: Seq<RhsTerm>) -> Seq<Seq<char>>
    decreases rhs.len(),
{
    if rhs.len() == 0 {
        seq!["_cons"@]
    } else {
        raw_coef_names(rhs.drop_last()) + term_coef_names(rhs.last())
    }
}

/// Names `x{k}` for the positions `k` in `from+1 ..= to`.
pub open spec fn filler_names(from: nat, to: nat) -> Seq<Seq<char>>
    decreases to - from,
{
    if from >= to {
        Seq::empty()
    } else {
        seq!["x"@ + crate::text::decimal((from + 1) as int)] + filler_names(from + 1, to)
    }
}

/// The coefficient names of a model with `n_cols` coefficients.
pub open spec fn spec_coef_names(f: Formula, n_cols: nat) -> Seq<Seq<char>> {
    let raw = raw_coef_names(f.rhs@);
    if raw.len() >= n_cols {
        raw.take(n_cols as int)
    } else {
        raw + filler_names(raw.len(), n_cols)
    }
}

proof fn lemma_filler_push(from: nat, to: nat)
    requires
        from <= to,
    ensures
        filler_names(from, to + 1) == filler_names(from, to).push("x"@ + crate::text::decimal((to + 1) as int)),
        filler_names(from, to).len() == to - from,
    decreases to - from,
{
    if from < to {
        lemma_filler_push(from + 1, to);
        assert(filler_names(from, to + 1) =~= seq!["x"@ + crate::text::decimal((from + 1) as int)]
            + filler_names(from + 1, to + 1));
    } else {
        assert(filler_names(from + 1, to + 1) =~= Seq::<Seq<char>>::empty());
    }
}

/// Generates coefficient names from the formula: `_cons`, then the terms,
/// cut or padded with `x{k}` to `n_cols` names.
pub fn coef_names_from_formula(formula: &Formula, n_cols: usize) -> (names: Vec<String>)
    ensures
        strings_view(names@) == spec_coef_names(*formula, n_cols as nat),
{
    let mut names: Vec<String> = Vec::new();
    names.push(String::from_str("_cons"));
    let mut i: usize = 0;
    assert(strings_view(names@) =~= raw_coef_names(formula.rhs@.take(0)));
    while i < formula.rhs.len()
        invariant
            i <= formula.rhs@.len(),
            strings_view(names@) == raw_coef_names(formula.rhs@.take(i as int)),
        decreases formula.rhs@.len() - i,
    {
        let ghost before = strings_view(names@);
        match &formula.rhs[i] {
            RhsTerm::Categorical { var, display, levels } => match var {
                Some(v) => {
                    let ghost lv = later_levels(strings_view(levels@));
                    let mut j: usize = 1;
                    while j < levels.len()
                        invariant
                            1 <= j <= levels@.len() || (j == 1 && levels@.len() == 0),
                            lv == later_levels(strings_view(levels@)),
                            strings_view(names@) == before + lv.take(j - 1).map_values(
                                |l: Seq<char>| v@ + "="@ + l,
                            ),
                        decreases levels@.len() - j,
                    {
                        let name = v.clone().concat("=").concat(levels[j].as_str());
                        proof { reveal_strlit("="); }
                        let ghost prev = names@;
                        names.push(name);
                        proof {
                            let a = strings_view(names@);
                            let b = before + lv.take(j as int).map_values(|l: Seq<char>| v@ + "="@ + l);
                            let c = before + lv.take(j - 1).map_values(|l: Seq<char>| v@ + "="@ + l);
                            assert(lv[j - 1] == levels@[j as int]@);
                            assert forall|k: int| 0 <= k < a.len() implies a[k] == b[k] by {
                                if k < a.len() - 1 {
                                    assert(strings_view(prev)[k] == c[k]);
                                }
                            }
                            assert(a =~= b);
                        }
                        j = j + 1;
                    }
                    assert(lv.take(lv.len() as int) =~= lv);
                },
                None => {
                    names.push(display.clone());
                },
            },
            RhsTerm::Plain { display } => {
                names.push(display.clone());
            },
        }
        proof {
            assert(formula.rhs@.take(i + 1).drop_last() =~= formula.rhs@.take(i as int));
        }
        i = i + 1;
        assert(strings_view(names@) =~= raw_coef_names(formula.rhs@.take(i as int)));
    }
    assert(formula.rhs@.take(formula.rhs@.len() as int) =~= formula.rhs@);
    let ghost raw = strings_view(names@);
    if names.len() >= n_cols {
        names.truncate(n_cols);
        assert(strings_view(names@) =~= raw.take(n_cols as int));
    } else {
        assert(filler_names(raw.len(), raw.len()) =~= Seq::<Seq<char>>::empty());
        while names.len() < n_cols
            invariant
                raw.len() <= names@.len() <= n_cols,
                strings_view(names@) == raw + filler_names(raw.len(), names@.len() as nat),
            decreases n_cols - names@.len(),
        {
            let k = names.len();
            let name = String::from_str("x").concat(nat_to_string((k + 1) as u64).as_str());
            proof { reveal_strlit("x"); }
            let ghost prev = names@;
            names.push(name);
            proof {
                lemma_filler_push(raw.len(), k as nat);
                let a = strings_view(names@);
                let b = raw + filler_names(raw.len(), (k + 1) as nat);
                let c = raw + filler_names(raw.len(), k as nat);
                assert forall|m: int| 0 <= m < a.len() implies a[m] == b[m] by {
                    if m < k {
                        assert(strings_view(prev)[m] == c[m]);
                    }
                }
                assert(a =~= b);
            }
        }
    }
    names
}

/// A model always gets exactly `n_cols` coefficient names, whatever its
/// formula: the names from the formula are cut or padded to that length.
pub proof fn lemma_coef_names_len(f: Formula, n_cols: nat)
    ensures
        spec_coef_names(f, n_cols).len() == n_cols,
{
    let raw = raw_coef_names(f.rhs@);
    if raw.len() < n_cols {
        lemma_filler_push(raw.len(), n_cols);
    }
}

} // verus!
