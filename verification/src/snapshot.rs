//! Object references inside stored property values, and their rewriting when a
//! captured tree is restored under fresh ids.
use std::collections::HashMap;

use vstd::prelude::*;

use crate::ids::ObjectId;

verus! {

broadcast use vstd::std_specs::hash::group_hash_axioms;

/// A stored property value as far as reference rewriting sees it: a weak reference to
/// an object (by raw id), a list, a keyed map, or any other value (`Other`, left as
/// it is). Maps keep their entries in order; `K` is the key type.
#[derive(Debug, PartialEq, Eq)]
pub enum PropValue<K, L> {
    /// A weak reference to the object with this raw id.
    Object(u64),
    /// A list of values.
    List(Vec<PropValue<K, L>>),
    /// A map from keys to values.
    Dict(Vec<(K, PropValue<K, L>)>),
    /// Any value without references inside.
    Other(L),
}

/// True when `w` is `v` with every object reference `a` that `m` maps replaced by
/// `m[a]`; everything else (shape, keys, other values) is unchanged.
pub open spec fn remapped<K, L>(v: PropValue<K, L>, m: Map<u64, u64>, w: PropValue<K, L>) -> bool
    decreases v,
{
    match v {
        PropValue::Object(a) => w == PropValue::<K, L>::Object(
            if m.contains_key(a) {
                m[a]
            } else {
                a
            },
        ),
        PropValue::List(xs) => match w {
            PropValue::List(ys) => xs@.len() == ys@.len() && forall|i: int|
                0 <= i < xs@.len() ==> remapped(#[trigger] xs@[i], m, ys@[i]),
            _ => false,
        },
        PropValue::Dict(xs) => match w {
            PropValue::Dict(ys) => xs@.len() == ys@.len() && forall|i: int|
                0 <= i < xs@.len() ==> (#[trigger] xs@[i]).0 == ys@[i].0 && remapped(xs@[i].1, m, ys@[i].1),
            _ => false,
        },
        PropValue::Other(a) => w == PropValue::<K, L>::Other(a),
    }
}

/// True when `v` holds a reference to an object that `m` maps.
pub open spec fn touches<K, L>(v: PropValue<K, L>, m: Map<u64, u64>) -> bool
    decreases v,
{
    match v {
        PropValue::Object(a) => m.contains_key(a),
        PropValue::List(xs) => exists|i: int| 0 <= i < xs@.len() && touches(#[trigger] xs@[i], m),
        PropValue::Dict(xs) => exists|i: int| 0 <= i < xs@.len() && touches((#[trigger] xs@[i]).1, m),
        PropValue::Other(_) => false,
    }
}

/// Rewrites the object references of `v` through `remap` (old raw id to new raw id);
/// references to ids that `remap` does not know stay as they are. Returns the new value
/// and whether any reference was rewritten.
pub fn remap_value<K, L>(v: PropValue<K, L>, remap: &HashMap<u64, u64>) -> (r: (PropValue<K, L>, bool))
    ensures
        remapped(v, remap@, r.0),
        r.1 == touches(v, remap@),
    decreases v,
{
    let ghost v0 = v;
    match v {
        PropValue::Object(a) => match remap.get(&a) {
            Some(b) => (PropValue::Object(*b), true),
            None => (PropValue::Object(a), false),
        },
        PropValue::List(xs) => {
            let ghost orig = xs@;
            let mut rest = xs;
            let n = rest.len();
            let mut out: Vec<PropValue<K, L>> = Vec::new();
            let mut changed = false;
            let mut k: usize = 0;
            while rest.len() > 0
                invariant
                    v0 == PropValue::<K, L>::List(xs),
                    orig == xs@,
                    v0 == v,
                    orig.len() == n,
                    k <= orig.len(),
                    rest@ == orig.subrange(k as int, orig.len() as int),
                    out@.len() == k,
                    forall|i: int| 0 <= i < k ==> remapped(#[trigger] orig[i], remap@, out@[i]),
                    changed == exists|i: int| 0 <= i < k && touches(#[trigger] orig[i], remap@),
                decreases rest@.len(),
            {
                assert(k < orig.len());
                let x = rest.remove(0);
                assert(x == orig[k as int]);
                assert(decreases_to!(v0 => v0->List_0));
                assert(decreases_to!(v0->List_0 => v0->List_0@));
                assert(decreases_to!(v0->List_0@ => v0->List_0@[k as int]));
                assert(decreases_to!(v => x));
                let (y, c) = remap_value(x, remap);
                out.push(y);
                proof {
                    if c {
                        assert(touches(orig[k as int], remap@));
                    }
                }
                changed = changed || c;
                k = k + 1;
                assert(rest@ =~= orig.subrange(k as int, orig.len() as int));
            }
            (PropValue::List(out), changed)
        },
        PropValue::Dict(xs) => {
            let ghost orig = xs@;
            let mut rest = xs;
            let n = rest.len();
            let mut out: Vec<(K, PropValue<K, L>)> = Vec::new();
            let mut changed = false;
            let mut k: usize = 0;
            while rest.len() > 0
                invariant
                    v0 == PropValue::<K, L>::Dict(xs),
                    orig == xs@,
                    v0 == v,
                    orig.len() == n,
                    k <= orig.len(),
                    rest@ == orig.subrange(k as int, orig.len() as int),
                    out@.len() == k,
                    forall|i: int|
                        0 <= i < k ==> (#[trigger] orig[i]).0 == out@[i].0 && remapped(orig[i].1, remap@, out@[i].1),
                    changed == exists|i: int| 0 <= i < k && touches((#[trigger] orig[i]).1, remap@),
                decreases rest@.len(),
            {
                assert(k < orig.len());
                let (key, x) = rest.remove(0);
                assert(orig[k as int] == (key, x));
                assert(decreases_to!(v0 => v0->Dict_0));
                assert(decreases_to!(v0->Dict_0 => v0->Dict_0@));
                assert(decreases_to!(v0->Dict_0@ => v0->Dict_0@[k as int]));
                assert(decreases_to!(v0->Dict_0@[k as int] => v0->Dict_0@[k as int].1));
                assert(decreases_to!(v => x));
                let (y, c) = remap_value(x, remap);
                out.push((key, y));
                proof {
                    if c {
                        assert(touches(orig[k as int].1, remap@));
                    }
                }
                changed = changed || c;
                k = k + 1;
                assert(rest@ =~= orig.subrange(k as int, orig.len() as int));
            }
            (PropValue::Dict(out), changed)
        },
        PropValue::Other(a) => (PropValue::Other(a), false),
    }
}

/// The stored properties of an object, captured in declaration order from
/// `(name, stored, value read)` triples: properties that are not stored are skipped;
/// the first stored property without a value fails the capture with its name.
pub open spec fn captured<V>(ps: Seq<(String, bool, Option<V>)>) -> Result<Seq<(String, V)>, String>
    decreases ps.len(),
{
    if ps.len() == 0 {
        Ok(Seq::empty())
    } else {
        let rest = captured(ps.drop_first());
        if !ps[0].1 {
            rest
        } else {
            match ps[0].2 {
                None => Err(ps[0].0),
                Some(v) => match rest {
                    Ok(t) => Ok(seq![(ps[0].0, v)] + t),
                    Err(e) => Err(e),
                },
            }
        }
    }
}

/// Capturing keeps exactly the stored properties, in order, with their values, when
/// every stored property has a value; properties that are not stored never appear,
/// whatever their value. Otherwise the capture fails with the name of the first stored
/// property that has no value.
pub proof fn law_capture_exact<V>(ps: Seq<(String, bool, Option<V>)>)
    ensures
        (forall|i: int| 0 <= i < ps.len() && (#[trigger] ps[i]).1 ==> ps[i].2 is Some) ==> captured(ps) == Ok::<
            Seq<(String, V)>,
            String,
        >(ps.filter(|p: (String, bool, Option<V>)| p.1).map_values(|p: (String, bool, Option<V>)| (p.0, p.2->Some_0))),
        !(forall|i: int| 0 <= i < ps.len() && (#[trigger] ps[i]).1 ==> ps[i].2 is Some) ==> exists|j: int|
            0 <= j < ps.len() && (#[trigger] ps[j]).1 && ps[j].2 is None && (forall|i: int|
                0 <= i < j && (#[trigger] ps[i]).1 ==> ps[i].2 is Some) && captured(ps) == Err::<Seq<(String, V)>, String>(
                ps[j].0,
            ),
    decreases ps.len(),
{
    let keep = |p: (String, bool, Option<V>)| p.1;
    let pick = |p: (String, bool, Option<V>)| (p.0, p.2->Some_0);
    if ps.len() == 0 {
        reveal(Seq::filter);
        assert(ps.filter(keep).map_values(pick) =~= Seq::<(String, V)>::empty());
    } else {
        let rest = ps.drop_first();
        law_capture_exact(rest);
        assert(ps =~= seq![ps[0]] + rest);
        Seq::filter_distributes_over_add(seq![ps[0]], rest, keep);
        reveal(Seq::filter);
        assert(seq![ps[0]].drop_last() =~= Seq::<(String, bool, Option<V>)>::empty());
        assert(Seq::<(String, bool, Option<V>)>::empty().filter(keep) =~= Seq::<(String, bool, Option<V>)>::empty());
        assert(seq![ps[0]].drop_last().filter(keep) =~= Seq::<(String, bool, Option<V>)>::empty());
        assert(seq![ps[0]].last() == ps[0]);
        let head = seq![ps[0]].filter(keep);
        if (forall|i: int| 0 <= i < ps.len() && (#[trigger] ps[i]).1 ==> ps[i].2 is Some) {
            assert forall|i: int| 0 <= i < rest.len() && (#[trigger] rest[i]).1 implies rest[i].2 is Some by {
                assert(rest[i] == ps[i + 1]);
            }
            if ps[0].1 {
                assert(head =~= seq![ps[0]]);
                assert((head + rest.filter(keep)).map_values(pick) =~= seq![(ps[0].0, ps[0].2->Some_0)] + rest.filter(
                    keep,
                ).map_values(pick));
            } else {
                assert(head =~= Seq::<(String, bool, Option<V>)>::empty());
                assert(head + rest.filter(keep) =~= rest.filter(keep));
            }
        } else {
            let j0 = choose|j: int| 0 <= j < ps.len() && (#[trigger] ps[j]).1 && !(ps[j].2 is Some);
            if ps[0].1 && ps[0].2 is None {
                assert(ps[0].1 && ps[0].2 is None);
            } else {
                assert(j0 > 0);
                assert(rest[j0 - 1] == ps[j0]);
                assert(!(forall|i: int| 0 <= i < rest.len() && (#[trigger] rest[i]).1 ==> rest[i].2 is Some));
                let j = choose|j: int|
                    0 <= j < rest.len() && (#[trigger] rest[j]).1 && rest[j].2 is None && (forall|i: int|
                        0 <= i < j && (#[trigger] rest[i]).1 ==> rest[i].2 is Some) && captured(rest) == Err::<
                        Seq<(String, V)>,
                        String,
                    >(rest[j].0);
                assert(ps[j + 1] == rest[j]);
                assert forall|i: int| 0 <= i < j + 1 && (#[trigger] ps[i]).1 implies ps[i].2 is Some by {
                    if i > 0 {
                        assert(ps[i] == rest[i - 1]);
                    }
                }
            }
        }
    }
}

/// `acc` followed by a capture result.
pub open spec fn after_captured<V>(acc: Seq<(String, V)>, r: Result<Seq<(String, V)>, String>) -> Result<
    Seq<(String, V)>,
    String,
> {
    match r {
        Ok(t) => Ok(acc + t),
        Err(e) => Err(e),
    }
}

/// Captures the stored properties from `(name, stored, value read)` triples in order;
/// `Err(name)` names the first stored property that had no value.
pub fn capture_props<V>(props: Vec<(String, bool, Option<V>)>) -> (r: Result<Vec<(String, V)>, String>)
    ensures
        match captured(props@) {
            Ok(t) => r matches Ok(v) && v@ == t,
            Err(e) => r == Err::<Vec<(String, V)>, String>(e),
        },
{
    let ghost orig = props@;
    let mut rest = props;
    let mut acc: Vec<(String, V)> = Vec::new();
    proof {
        if captured(orig) is Ok {
            assert(acc@ + captured(orig)->Ok_0 =~= captured(orig)->Ok_0);
        }
    }
    while rest.len() > 0
        invariant
            orig == props@,
            captured(orig) == after_captured(acc@, captured(rest@)),
        decreases rest@.len(),
    {
        let ghost before = rest@;
        let ghost acc0 = acc@;
        let (name, stored, value) = rest.remove(0);
        assert(before.drop_first() =~= rest@);
        assert(before[0] == (name, stored, value));
        if stored {
            match value {
                None => {
                    assert(captured(before) == Err::<Seq<(String, V)>, String>(name));
                    return Err(name);
                },
                Some(v) => {
                    acc.push((name, v));
                    proof {
                        match captured(rest@) {
                            Ok(t) => {
                                assert(acc0 + (seq![(name, v)] + t) =~= acc@ + t);
                            },
                            Err(_) => {},
                        }
                    }
                },
            }
        }
    }
    assert(captured(rest@) == Ok::<Seq<(String, V)>, String>(Seq::empty()));
    assert(acc@ + Seq::<(String, V)>::empty() =~= acc@);
    Ok(acc)
}

/// Records that the object captured under raw id `captured` was restored as
/// `restored`; a captured id of 0 (an object captured without tree context) records
/// nothing.
pub fn record_restored_id(remap: &mut HashMap<u64, u64>, captured: u64, restored: ObjectId)
    ensures
        captured == 0 ==> final(remap)@ == old(remap)@,
        captured != 0 ==> final(remap)@ == old(remap)@.insert(captured, restored.0),
{
    if captured != 0 {
        remap.insert(captured, restored.0);
    }
}

/// With an empty table no reference is rewritten.
pub proof fn law_empty_table_touches_nothing<K, L>(v: PropValue<K, L>)
    ensures
        !touches(v, Map::<u64, u64>::empty()),
    decreases v,
{
    match v {
        PropValue::List(xs) => {
            assert forall|i: int| 0 <= i < xs@.len() implies !touches(#[trigger] xs@[i], Map::<u64, u64>::empty()) by {
                assert(decreases_to!(v => v->List_0));
                assert(decreases_to!(v->List_0 => v->List_0@));
                assert(decreases_to!(v->List_0@ => v->List_0@[i]));
                law_empty_table_touches_nothing(xs@[i]);
            }
        },
        PropValue::Dict(xs) => {
            assert forall|i: int| 0 <= i < xs@.len() implies !touches((#[trigger] xs@[i]).1, Map::<u64, u64>::empty()) by {
                assert(decreases_to!(v => v->Dict_0));
                assert(decreases_to!(v->Dict_0 => v->Dict_0@));
                assert(decreases_to!(v->Dict_0@ => v->Dict_0@[i]));
                assert(decreases_to!(v->Dict_0@[i] => v->Dict_0@[i].1));
                law_empty_table_touches_nothing(xs@[i].1);
            }
        },
        _ => {},
    }
}

/// A reference to an object that the table maps is always reported as rewritten, and
/// it is rewritten to the mapped id.
pub proof fn law_mapped_reference_rewritten<K, L>(a: u64, m: Map<u64, u64>, w: PropValue<K, L>)
    requires
        m.contains_key(a),
        remapped(PropValue::<K, L>::Object(a), m, w),
    ensures
        touches(PropValue::<K, L>::Object(a), m),
        w == PropValue::<K, L>::Object(m[a]),
{
}

} // verus!
