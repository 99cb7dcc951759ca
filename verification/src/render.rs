use crate::text::{decimal, int_to_string};
use crate::value::{Val, Value, value_view, items_view, entries_view, lemma_items_view, lemma_entries_view};
use vstd::prelude::*;

verus! {

/// The text form of a value, as `print` and `{}` interpolation show it.
pub open spec fn render(v: Val) -> Seq<char>
    decreases v,
{
    match v {
        Val::Nil => "nil"@,
        Val::Bool(b) => if b { "true"@ } else { "false"@ },
        Val::Int(i) => decimal(i as int),
        Val::Str(s) => s,
        Val::List(l) => "["@ + render_items(l) + "]"@,
        Val::Dict(d) => "{"@ + render_entries(d) + "}"@,
        Val::Error { kind, msg, .. } => "Error("@ + kind + ": "@ + msg + ")"@,
        Val::Diag { rendered, .. } => rendered,
        Val::Model { .. } => "<model>"@,
        Val::UserFn { .. } => "<fn>"@,
    }
}

/// The items of a list, rendered and separated by `, `.
pub open spec fn render_items(items: Seq<Val>) -> Seq<char>
    decreases items,
{
    if items.len() == 0 {
        Seq::empty()
    } else if items.len() == 1 {
        render(items[0])
    } else {
        render_items(items.drop_last()) + ", "@ + render(items.last())
    }
}

/// The entries of a dictionary, rendered as `key: value` and separated by `, `.
pub open spec fn render_entries(entries: Seq<(Seq<char>, Val)>) -> Seq<char>
    decreases entries,
{
    if entries.len() == 0 {
        Seq::empty()
    } else if entries.len() == 1 {
        entries[0].0 + ": "@ + render(entries[0].1)
    } else {
        render_entries(entries.drop_last()) + ", "@ + entries.last().0 + ": "@ + render(
            entries.last().1,
        )
    }
}

/// Renders a value as text.
pub fn render_value(v: &Value) -> (s: String)
    ensures
        s@ == render(v@),
    decreases *v,
{
    match v {
        Value::Nil => String::from_str("nil"),
        Value::Bool(b) => if *b { String::from_str("true") } else { String::from_str("false") },
        Value::Int(i) => int_to_string(*i),
        Value::Str(s) => s.clone(),
        Value::List(l) => {
            assert forall|k: int| 0 <= k < l@.len() implies decreases_to!(*v => #[trigger] l@[k]) by {
                assert(decreases_to!(*v => (*v)->List_0@[k]));
            }
            proof { lemma_items_view(l@); }
            let mut acc = String::from_str("[");
            let mut i: usize = 0;
            while i < l.len()
                invariant
                    i <= l@.len(),
                    items_view(l@).len() == l@.len(),
                    forall|k: int| 0 <= k < l@.len() ==> #[trigger] items_view(l@)[k] == value_view(l@[k]),
                    acc@ == "["@ + render_items(items_view(l@).take(i as int)),
                    forall|k: int| 0 <= k < l@.len() ==> decreases_to!(*v => #[trigger] l@[k]),
                decreases l@.len() - i,
            {
                let item = render_value(&l[i]);
                let ghost prev = items_view(l@).take(i as int);
                if i > 0 {
                    acc = acc.concat(", ");
                }
                acc = acc.concat(item.as_str());
                proof {
                    assert(items_view(l@).take(i + 1).drop_last() =~= prev);
                    assert(items_view(l@).take(i + 1).last() == l@[i as int]@);
                    if i == 0 {
                        assert(render_items(prev) =~= Seq::<char>::empty());
                    }
                }
                i = i + 1;
                assert(acc@ =~= "["@ + render_items(items_view(l@).take(i as int)));
            }
            assert(items_view(l@).take(l@.len() as int) =~= items_view(l@));
            acc.concat("]")
        },
        Value::Dict(d) => {
            assert forall|k: int| 0 <= k < d@.len() implies decreases_to!(*v => #[trigger] d@[k].1) by {
                assert(decreases_to!(*v => (*v)->Dict_0@[k]));
                assert(decreases_to!((*v)->Dict_0@[k] => (*v)->Dict_0@[k].1));
            }
            proof { lemma_entries_view(d@); }
            let mut acc = String::from_str("{");
            let mut i: usize = 0;
            while i < d.len()
                invariant
                    i <= d@.len(),
                    entries_view(d@).len() == d@.len(),
                    forall|k: int| 0 <= k < d@.len() ==> #[trigger] entries_view(d@)[k] == (d@[k].0@, value_view(d@[k].1)),
                    acc@ == "{"@ + render_entries(entries_view(d@).take(i as int)),
                    forall|k: int| 0 <= k < d@.len() ==> decreases_to!(*v => #[trigger] d@[k].1),
                decreases d@.len() - i,
            {
                let item = render_value(&d[i].1);
                let ghost prev = entries_view(d@).take(i as int);
                if i > 0 {
                    acc = acc.concat(", ");
                }
                acc = acc.concat(d[i].0.as_str());
                acc = acc.concat(": ");
                acc = acc.concat(item.as_str());
                proof {
                    assert(entries_view(d@).take(i + 1).drop_last() =~= prev);
                    assert(entries_view(d@).take(i + 1).last() == (d@[i as int].0@, d@[i as int].1@));
                    if i == 0 {
                        assert(render_entries(prev) =~= Seq::<char>::empty());
                    }
                }
                i = i + 1;
                assert(acc@ =~= "{"@ + render_entries(entries_view(d@).take(i as int)));
            }
            assert(entries_view(d@).take(d@.len() as int) =~= entries_view(d@));
            acc.concat("}")
        },
        Value::Error(e) => {
            let s = String::from_str("Error(");
            let s = s.concat(e.kind.as_str());
            let s = s.concat(": ");
            let s = s.concat(e.msg.as_str());
            s.concat(")")
        },
        Value::Diag(d) => d.rendered.clone(),
        Value::Model(_) => String::from_str("<model>"),
        Value::UserFn(_) => String::from_str("<fn>"),
    }
}

} // verus!
