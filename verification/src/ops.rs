use crate::env::{Env, env_declare_const};
use crate::render::{render, render_value};
use crate::semantics::{
    bind_params, list_has_rendered, dict_insert, dict_key, entry_find, error_fields, in_result, index_result,
    int_expected, range_bound, range_seq, shown, str_expected,
};
use crate::text::{int_to_string, str_contains, str_eq};
use crate::value::{
    entries_view, items_view, lemma_items_view_push, lemma_entries_view, lemma_items_view, result_view, share, ErrV,
    HayashiError, Val, Value, value_view,
};
use std::rc::Rc;
use vstd::prelude::*;

verus! {

/// `entry_find` is the last index with the key.
pub proof fn lemma_entry_find(d: Seq<(Seq<char>, Val)>, k: Seq<char>)
    ensures
        -1 <= entry_find(d, k) < d.len(),
        entry_find(d, k) >= 0 ==> d[entry_find(d, k)].0 == k,
        forall|t: int| entry_find(d, k) < t < d.len() ==> d[t].0 != k,
    decreases d.len(),
{
    if d.len() > 0 {
        lemma_entry_find(d.drop_last(), k);
        assert forall|t: int| entry_find(d, k) < t < d.len() implies d[t].0 != k by {
            if t < d.len() - 1 {
                assert(d[t] == d.drop_last()[t]);
            }
        }
    }
}

pub(crate) proof fn lemma_entry_find_unique(d: Seq<(Seq<char>, Val)>, k: Seq<char>, r: int)
    requires
        -1 <= r < d.len(),
        r >= 0 ==> d[r].0 == k,
        forall|t: int| r < t < d.len() ==> d[t].0 != k,
    ensures
        entry_find(d, k) == r,
{
    lemma_entry_find(d, k);
}

/// Index of the last entry with key `k`.
pub fn find_entry(d: &Vec<(String, Value)>, k: &String) -> (r: Option<usize>)
    ensures
        match r {
            Some(j) => j as int == entry_find(entries_view(d@), k@) && j < d@.len(),
            None => entry_find(entries_view(d@), k@) == -1,
        },
{
    proof {
        lemma_entries_view(d@);
    }
    let ghost ev = entries_view(d@);
    let mut j: usize = d.len();
    while j > 0
        invariant
            j <= d@.len(),
            ev == entries_view(d@),
            ev.len() == d@.len(),
            forall|t: int| 0 <= t < d@.len() ==> #[trigger] ev[t] == (d@[t].0@, value_view(d@[t].1)),
            forall|t: int| j <= t < ev.len() ==> ev[t].0 != k@,
        decreases j,
    {
        if d[j - 1].0 == *k {
            proof {
                lemma_entry_find_unique(ev, k@, j - 1);
            }
            return Some(j - 1);
        }
        j = j - 1;
    }
    proof {
        lemma_entry_find_unique(ev, k@, -1);
    }
    None
}

/// Stores `v` under `k` in an entry list, replacing an entry with that key.
pub fn insert_entry(d: &mut Vec<(String, Value)>, k: String, v: Value)
    ensures
        entries_view(final(d)@) == dict_insert(entries_view(old(d)@), k@, v@),
{
    proof {
        lemma_entries_view(old(d)@);
    }
    let ghost kv = k@;
    let ghost vv = v@;
    match find_entry(d, &k) {
        Some(j) => {
            d.set(j, (k, v));
            proof {
                lemma_entries_view(d@);
                assert(entries_view(d@) =~= entries_view(old(d)@).update(j as int, (kv, vv)));
            }
        },
        None => {
            d.push((k, v));
            proof {
                lemma_entries_view(d@);
                assert(entries_view(d@) =~= entries_view(old(d)@).push((kv, vv)));
            }
        },
    }
}

/// The key a value gives a dictionary entry.
pub fn entry_key(v: &Value) -> (r: Result<String, HayashiError>)
    ensures
        match (r, dict_key(v@)) {
            (Ok(a), Ok(b)) => a@ == b,
            (Err(a), Err(b)) => a@ == b,
            _ => false,
        },
{
    match v {
        Value::Str(t) => Ok(t.clone()),
        Value::Int(i) => Ok(int_to_string(*i)),
        _ => {
            let m = String::from_str("dict key must be string, got ").concat(render_value(v).as_str());
            Err(HayashiError::Type(m))
        },
    }
}

fn runtime(m: String) -> (e: HayashiError)
    ensures
        e@ == ErrV::Runtime(m@),
{
    HayashiError::Runtime(m)
}

fn type_error(m: String) -> (e: HayashiError)
    ensures
        e@ == ErrV::Type(m@),
{
    HayashiError::Type(m)
}

/// Indexing `o[i]` on evaluated operands.
pub fn index_value(o: &Value, i: &Value) -> (r: Result<Value, HayashiError>)
    ensures
        result_view(r) == index_result(o@, i@),
{
    match o {
        Value::Dict(d) => match i {
            Value::Str(k) => match find_entry(d, k) {
                Some(j) => {
                    proof {
                        lemma_entries_view(d@);
                    }
                    Ok(d[j].1.copy())
                },
                None => Err(runtime(
                    String::from_str("key '").concat(k.as_str()).concat("' not found in dict"),
                )),
            },
            _ => Err(type_error(String::from_str("dict index must be a string"))),
        },
        Value::Error(e) => match i {
            Value::Str(k) => {
                if str_eq(k.as_str(), "kind") {
                    Ok(Value::Str(e.kind.clone()))
                } else if str_eq(k.as_str(), "msg") || str_eq(k.as_str(), "message") {
                    Ok(Value::Str(e.msg.clone()))
                } else if str_eq(k.as_str(), "line") {
                    Ok(Value::Int(e.line))
                } else {
                    Err(
                        runtime(
                            String::from_str("error field '").concat(k.as_str()).concat(
                                "' not found (available: kind, msg, line)",
                            ),
                        ),
                    )
                }
            },
            _ => Err(type_error(String::from_str("error index must be a string"))),
        },
        Value::List(items) => match i {
            Value::Int(n) => {
                proof {
                    lemma_items_view(items@);
                }
                let len: i128 = items.len() as i128;
                let n = *n as i128;
                let pos: i128 = if n < 0 { len + n } else { n };
                if pos < 0 || pos >= len {
                    let m = String::from_str("index out of range (len=").concat(
                        int_to_string(items.len() as i64).as_str(),
                    ).concat(")");
                    Err(runtime(m))
                } else {
                    Ok(items[pos as usize].copy())
                }
            },
            _ => Err(type_error(String::from_str("list index must be integer"))),
        },
        _ => Err(type_error(String::from_str("indexing requires list or dict"))),
    }
}

/// Membership `l in r` on evaluated operands.
pub fn in_value(l: &Value, r: &Value) -> (res: Result<Value, HayashiError>)
    ensures
        result_view(res) == in_result(l@, r@),
{
    match r {
        Value::List(items) => {
            proof {
                lemma_items_view(items@);
            }
            let needle = render_value(l);
            assert(r@ == Val::List(items_view(items@)));
            let mut j: usize = 0;
            while j < items.len()
                invariant
                    j <= items@.len(),
                    needle@ == render(l@),
                    r@ == Val::List(items_view(items@)),
                    items_view(items@).len() == items@.len(),
                    forall|t: int| 0 <= t < items@.len() ==> #[trigger] items_view(items@)[t] == value_view(items@[t]),
                    forall|t: int| 0 <= t < j ==> render(#[trigger] items_view(items@)[t]) != render(l@),
                decreases items@.len() - j,
            {
                let shown_item = render_value(&items[j]);
                if shown_item == needle {
                    assert(render(items_view(items@)[j as int]) == render(l@));
                    assert(exists|t: int|
                        0 <= t < items_view(items@).len() && render(#[trigger] items_view(items@)[t])
                            == render(l@));
                    assert(list_has_rendered(items_view(items@), render(l@)));
                    return Ok(Value::Bool(true));
                }
                j = j + 1;
            }
            assert(!list_has_rendered(items_view(items@), render(l@)));
            Ok(Value::Bool(false))
        },
        Value::Dict(d) => {
            let key = match l {
                Value::Str(t) => t.clone(),
                _ => render_value(l),
            };
            let found = find_entry(d, &key);
            Ok(Value::Bool(found.is_some()))
        },
        Value::Str(t) => {
            let sub = match l {
                Value::Str(u) => u.clone(),
                _ => render_value(l),
            };
            Ok(Value::Bool(str_contains(t.as_str(), sub.as_str())))
        },
        _ => Err(type_error(String::from_str("'in' requires list, dict, or string on right side"))),
    }
}

/// The integers of `start..end` or `start..=end`.
pub fn range_values(start: i64, end: i64, inclusive: bool) -> (v: Vec<Value>)
    ensures
        items_view(v@) == range_seq(start, end, inclusive),
{
    let mut v: Vec<Value> = Vec::new();
    let ghost target = range_seq(start, end, inclusive);
    if start <= end {
        let mut cur: i64 = start;
        while cur < end
            invariant
                start <= cur <= end,
                target == range_seq(start, end, inclusive),
                items_view(v@) == target.take(cur - start),
            decreases end - cur,
        {
            let ghost old_v = v@;
            v.push(Value::Int(cur));
            proof {
                lemma_items_view_push(old_v, Value::Int(cur));
                assert(items_view(v@) =~= target.take(cur - start + 1));
            }
            cur = cur + 1;
        }
        if inclusive {
            let ghost old_v = v@;
            v.push(Value::Int(end));
            proof {
                lemma_items_view_push(old_v, Value::Int(end));
                assert(items_view(v@) =~= target);
            }
        } else {
            assert(target.take(end - start) =~= target);
        }
    } else {
        let mut cur: i64 = start;
        while cur > end
            invariant
                end <= cur <= start,
                target == range_seq(start, end, inclusive),
                items_view(v@) == target.take(start - cur),
            decreases cur - end,
        {
            let ghost old_v = v@;
            v.push(Value::Int(cur));
            proof {
                lemma_items_view_push(old_v, Value::Int(cur));
                assert(items_view(v@) =~= target.take(start - cur + 1));
            }
            cur = cur - 1;
        }
        if inclusive {
            let ghost old_v = v@;
            v.push(Value::Int(end));
            proof {
                lemma_items_view_push(old_v, Value::Int(end));
                assert(items_view(v@) =~= target);
            }
        } else {
            assert(target.take(start - end) =~= target);
        }
    }
    v
}

/// The kind and message of a caught error.
pub fn caught_fields(e: &HayashiError) -> (r: (String, String))
    ensures
        (r.0@, r.1@) == error_fields(e@),
{
    match e {
        HayashiError::Runtime(m) => (String::from_str("RuntimeError"), m.clone()),
        HayashiError::Type(m) => (String::from_str("TypeError"), m.clone()),
        HayashiError::Inexact(_) => (
            String::from_str("FloatError"),
            String::from_str("result is a floating-point number"),
        ),
        HayashiError::FloatFormat(_) => (
            String::from_str("FloatError"),
            String::from_str("result is a floating-point number"),
        ),
        HayashiError::Exhausted => (
            String::from_str("LimitError"),
            String::from_str("evaluation budget exhausted"),
        ),
        _ => (String::from_str("ControlFlow"), String::from_str("")),
    }
}

/// The text a bare expression statement shows for its value.
pub fn shown_value(v: &Value) -> (s: String)
    ensures
        s@ == shown(v@),
{
    match v {
        Value::Str(t) => String::from_str("\"").concat(t.as_str()).concat("\""),
        _ => render_value(v),
    }
}

/// Binds parameters to argument values, in order, as constants.
pub fn bind_params_in(env: &mut Env, params: &Vec<String>, vals: Vec<Value>)
    ensures
        final(env)@ == bind_params(old(env)@, crate::value::strings_view(params@), items_view(vals@), 0),
{
    proof {
        lemma_items_view(vals@);
    }
    let ghost pv = crate::value::strings_view(params@);
    let ghost vv = items_view(vals@);
    let mut i: usize = 0;
    while i < params.len() && i < vals.len()
        invariant
            pv == crate::value::strings_view(params@),
            pv.len() == params@.len(),
            vv == items_view(vals@),
            vv.len() == vals@.len(),
            forall|t: int| 0 <= t < vals@.len() ==> #[trigger] vv[t] == value_view(vals@[t]),
            i <= params@.len(),
            i <= vals@.len(),
            bind_params(old(env)@, pv, vv, 0) == bind_params(env@, pv, vv, i as int),
        decreases params@.len() - i,
    {
        env.declare_const(&params[i], vals[i].copy());
        i = i + 1;
    }
}

/// A bound of an integer `for` range.
pub fn for_range_bound(v: &Value, start: bool) -> (r: Result<i64, HayashiError>)
    ensures
        match (r, range_bound(v@, if start { "start"@ } else { "end"@ })) {
            (Ok(a), Ok(b)) => a == b,
            (Err(a), Err(b)) => a@ == b,
            _ => false,
        },
{
    match v {
        Value::Int(i) => Ok(*i),
        _ => {
            let which = if start { String::from_str("start") } else { String::from_str("end") };
            let m = String::from_str("for: range ").concat(which.as_str()).concat(" must be integer, not ").concat(
                render_value(v).as_str(),
            );
            Err(type_error(m))
        },
    }
}

/// The error for a non-integer where an integer is expected.
pub fn not_int_error(ctx: &str, v: &Value) -> (e: HayashiError)
    ensures
        e@ == int_expected(ctx@, v@),
{
    type_error(String::from_str(ctx).concat(": expected integer, got ").concat(render_value(v).as_str()))
}

/// The error for a non-string where a string is expected.
pub fn not_str_error(ctx: &str, v: &Value) -> (e: HayashiError)
    ensures
        e@ == str_expected(ctx@, v@),
{
    type_error(String::from_str(ctx).concat(": expected string, got ").concat(render_value(v).as_str()))
}

} // verus!
