use vstd::prelude::*;

use crate::model::{
    keep_non_placement, lemma_matches_all, matching_indices, push_implied, spec_matches, spec_push,
    spec_remove_placement, Prop,
};

verus! {

/// A conjunction absorbs matching from its members: whenever one element of
/// a conjunction matches a pattern, the conjunction matches it too —
/// whatever the pattern's shape.
pub proof fn lemma_conjunction_absorbs(es: Seq<Prop>, i: int, q: Prop)
    requires
        0 <= i < es.len(),
        spec_matches(es[i], q),
    ensures
        spec_matches(Prop::And(es), q),
    decreases q,
{
    match q {
        Prop::And(qs) => {
            assert(Prop::And(qs)->And_0 == qs);
            assert forall|k: int| 0 <= k < qs.len() implies spec_matches(
                Prop::And(es),
                #[trigger] qs[k],
            ) by {
                assert(spec_matches(es[i], qs[k]));
                lemma_conjunction_absorbs(es, i, qs[k]);
            }
        },
        _ => {
            assert(Prop::And(es)->And_0 == es);
        },
    }
}

/// Matching is reflexive: every property expression matches itself.
pub proof fn lemma_matches_reflexive(p: Prop)
    ensures
        spec_matches(p, p),
    decreases p,
{
    match p {
        Prop::And(es) => {
            assert(Prop::And(es)->And_0 == es);
            assert forall|i: int| 0 <= i < es.len() implies spec_matches(
                p,
                #[trigger] es[i],
            ) by {
                lemma_matches_reflexive(es[i]);
                lemma_conjunction_absorbs(es, i, es[i]);
            }
            lemma_matches_all(p, es);
        },
        Prop::Placement(_, inner) => {
            lemma_matches_reflexive(*inner);
        },
        Prop::Role(_, inner) => {
            lemma_matches_reflexive(*inner);
        },
        Prop::Has(inner) => {
            lemma_matches_reflexive(*inner);
        },
        Prop::HasNot(inner) => {
            lemma_matches_reflexive(*inner);
        },
        Prop::WasBy(_, inner) => {
            lemma_matches_reflexive(*inner);
        },
        Prop::DidTo(_, inner) => {
            lemma_matches_reflexive(*inner);
        },
        Prop::KeyTo(inner) => {
            lemma_matches_reflexive(*inner);
        },
        _ => {},
    }
}

/// Strict kind discipline: two non-conjunction expressions of different
/// variant kinds never match.
pub proof fn lemma_matches_same_kind(a: Prop, b: Prop)
    requires
        !(a is And),
        !(b is And),
        spec_matches(a, b),
    ensures
        a is I <==> b is I,
        a is You <==> b is You,
        a is He <==> b is He,
        a is She <==> b is She,
        a is It <==> b is It,
        a is That <==> b is That,
        a is Placement <==> b is Placement,
        a is Role <==> b is Role,
        a is Has <==> b is Has,
        a is HasNot <==> b is HasNot,
        a is Called <==> b is Called,
        a is OfType <==> b is OfType,
        a is Adj <==> b is Adj,
        a is WasBy <==> b is WasBy,
        a is DidTo <==> b is DidTo,
        a is KeyTo <==> b is KeyTo,
{
}

/// Pushing a property that the current state already implies changes
/// nothing.
pub proof fn lemma_push_implied_noop(s: Prop, p: Prop)
    requires
        push_implied(s, p),
    ensures
        spec_push(s, p) == s,
{
}

/// Pushing is idempotent: pushing the same property twice leaves exactly
/// the state that pushing it once produces.
pub proof fn lemma_push_idempotent(s: Prop, p: Prop)
    ensures
        spec_push(spec_push(s, p), p) == spec_push(s, p),
{
    let s1 = spec_push(s, p);
    if push_implied(s, p) {
        assert(s1 == s);
    } else {
        lemma_matches_reflexive(p);
        match s {
            Prop::And(es) => {
                assert(s1 == Prop::And(es.push(p)));
                assert(es.push(p)[es.len() as int] == p);
                assert(push_implied(s1, p));
            },
            _ => {
                assert(s1 == Prop::And(seq![s, p]));
                assert(seq![s, p][1] == p);
                assert(push_implied(s1, p));
            },
        }
    }
}

/// Pushing establishes the fact: after pushing a property, the state
/// matches it — whether it was freshly appended or already implied.
pub proof fn lemma_push_establishes(s: Prop, p: Prop)
    ensures
        spec_matches(spec_push(s, p), p),
{
    lemma_matches_reflexive(p);
    if push_implied(s, p) {
        match s {
            Prop::And(es) => {
                let w = choose|i: int| 0 <= i < es.len() && spec_matches(#[trigger] es[i], p);
                lemma_conjunction_absorbs(es, w, p);
            },
            _ => {},
        }
    } else {
        match s {
            Prop::And(es) => {
                assert(es.push(p)[es.len() as int] == p);
                lemma_conjunction_absorbs(es.push(p), es.len() as int, p);
            },
            _ => {
                assert(seq![s, p][1] == p);
                lemma_conjunction_absorbs(seq![s, p], 1, p);
            },
        }
    }
}

/// Every element a filter keeps comes from the input sequence.
proof fn lemma_filter_from_input<A>(s: Seq<A>, pred: spec_fn(A) -> bool)
    ensures
        forall|i: int|
            0 <= i < s.filter(pred).len() ==> s.contains(#[trigger] s.filter(pred)[i]),
    decreases s.len(),
{
    reveal_with_fuel(Seq::filter, 2);
    if s.len() > 0 {
        let rest = s.drop_last();
        lemma_filter_from_input(rest, pred);
        assert forall|i: int|
            0 <= i < s.filter(pred).len() implies s.contains(#[trigger] s.filter(pred)[i]) by {
            if i < rest.filter(pred).len() {
                assert(s.filter(pred)[i] == rest.filter(pred)[i]);
                assert(rest.contains(rest.filter(pred)[i]));
                let w = choose|k: int|
                    0 <= k < rest.len() && rest[k] == rest.filter(pred)[i];
                assert(s[w] == s.filter(pred)[i]);
            } else {
                assert(s.filter(pred)[i] == s.last());
                assert(s[s.len() - 1] == s.last());
            }
        }
    }
}

/// Removing placements touches exactly the placement conjuncts: it is a
/// no-op on a non-conjunction; on a conjunction, every kept element is a
/// non-placement element of the input, and every non-placement element of
/// the input is kept.
pub proof fn lemma_remove_placement_exact(s: Prop)
    ensures
        !(s is And) ==> spec_remove_placement(s) == s,
        s is And ==> spec_remove_placement(s) is And,
        s is And ==> forall|i: int|
            0 <= i < spec_remove_placement(s)->And_0.len() ==> {
                let kept = #[trigger] spec_remove_placement(s)->And_0[i];
                &&& !(kept is Placement)
                &&& s->And_0.contains(kept)
            },
        s is And ==> forall|e: Prop|
            s->And_0.contains(e) && !(e is Placement) ==> spec_remove_placement(
                s,
            )->And_0.contains(e),
{
    match s {
        Prop::And(es) => {
            let pred = keep_non_placement();
            assert(spec_remove_placement(s)->And_0 == es.filter(pred));
            lemma_filter_from_input(es, pred);
            assert forall|i: int|
                0 <= i < es.filter(pred).len() implies !(#[trigger] es.filter(
                pred,
            )[i] is Placement) by {
                Seq::lemma_filter_pred(es, pred, i);
                assert(pred(es.filter(pred)[i]));
            }
            assert forall|e: Prop|
                es.contains(e) && !(e is Placement) implies es.filter(pred).contains(e) by {
                let w = choose|k: int| 0 <= k < es.len() && es[k] == e;
                assert(pred(es[w]));
                Seq::lemma_filter_contains(es, pred, w);
            }
        },
        _ => {},
    }
}

/// The matching indices come out in strictly increasing order.
pub proof fn lemma_matching_indices_sorted(room: Seq<Prop>, pat: Prop)
    ensures
        forall|k1: int, k2: int|
            0 <= k1 < k2 < matching_indices(room, pat).len() ==> #[trigger] matching_indices(
                room,
                pat,
            )[k1] < #[trigger] matching_indices(room, pat)[k2],
    decreases room.len(),
{
    if room.len() > 0 {
        let rest = room.drop_last();
        lemma_matching_indices_sorted(rest, pat);
        crate::model::lemma_matching_indices_bounds(rest, pat);
        let mi = matching_indices(room, pat);
        let mr = matching_indices(rest, pat);
        assert forall|k1: int, k2: int|
            0 <= k1 < k2 < mi.len() implies #[trigger] mi[k1] < #[trigger] mi[k2] by {
            if spec_matches(room.last(), pat) {
                assert(mi == mr.push(room.len() - 1));
                if k2 < mr.len() {
                    assert(mi[k1] == mr[k1]);
                    assert(mi[k2] == mr[k2]);
                } else {
                    assert(mi[k1] == mr[k1]);
                    assert(mi[k2] == room.len() - 1);
                    assert(mr[k1] < rest.len());
                }
            } else {
                assert(mi[k1] == mr[k1]);
                assert(mi[k2] == mr[k2]);
            }
        }
    }
}

/// `matching_indices` is sound and complete: an index is in the list
/// exactly when the entity at that index matches the pattern.
pub proof fn lemma_matching_indices_complete(room: Seq<Prop>, pat: Prop)
    ensures
        forall|i: int|
            0 <= i < room.len() ==> (matching_indices(room, pat).contains(i) <==> spec_matches(
                room[i],
                pat,
            )),
    decreases room.len(),
{
    if room.len() > 0 {
        let rest = room.drop_last();
        lemma_matching_indices_complete(rest, pat);
        crate::model::lemma_matching_indices_bounds(rest, pat);
        let mi = matching_indices(room, pat);
        let mr = matching_indices(rest, pat);
        let n = room.len() - 1;
        assert forall|i: int|
            0 <= i < room.len() implies (mi.contains(i) <==> spec_matches(room[i], pat)) by {
            if spec_matches(room.last(), pat) {
                assert(mi == mr.push(n));
                if i < n {
                    assert(rest[i] == room[i]);
                    if mr.contains(i) {
                        let w = choose|k: int| 0 <= k < mr.len() && mr[k] == i;
                        assert(mi[w] == i);
                    }
                    if mi.contains(i) {
                        let w = choose|k: int| 0 <= k < mi.len() && mi[k] == i;
                        assert(w < mr.len());
                        assert(mr[w] == i);
                    }
                } else {
                    assert(mi[mi.len() - 1] == n);
                    assert(room[n] == room.last());
                }
            } else {
                assert(mi == mr);
                if i < n {
                    assert(rest[i] == room[i]);
                } else {
                    assert(room[n] == room.last());
                    if mi.contains(i) {
                        let w = choose|k: int| 0 <= k < mi.len() && mi[k] == i;
                        assert(mr[w] == i);
                        assert(mr[w] < rest.len());
                    }
                }
            }
        }
    }
}

} // verus!
