use vstd::prelude::*;

use crate::object::Adjective;
use crate::verb::Verb;

verus! {

/// The sub-kind of a placement relation.
pub enum PlaceKind {
    On,
    LeanToward,
    In,
    OutOf,
}

/// The kind of a role relation.
pub enum RoleKind {
    OpponentOf,
}

/// The mathematical model of a property expression.
///
/// Every executable datum of the library views into this type: a `Prop` is a
/// finite tree whose leaves are identity tags, names, and adjectives, and
/// whose inner nodes are conjunctions, relations (`Placement`, `Role`),
/// possession claims (`Has`, `HasNot`), history facts (`DidTo`, `WasBy`) and
/// the key relation (`KeyTo`). All contracts of the library are stated over
/// this type.
#[verifier::ext_equal]
pub enum Prop {
    I,
    You,
    He,
    She,
    It,
    That,
    And(Seq<Prop>),
    Placement(PlaceKind, Box<Prop>),
    Role(RoleKind, Box<Prop>),
    Has(Box<Prop>),
    HasNot(Box<Prop>),
    Called(Seq<char>),
    OfType(Seq<char>),
    Adj(Adjective),
    WasBy(Verb, Box<Prop>),
    DidTo(Verb, Box<Prop>),
    KeyTo(Box<Prop>),
}

/// Whether property expression `a` satisfies pattern `b`.
///
/// The resolution order is asymmetric and deliberate:
/// 1. a conjunction used as the pattern means "all of" — `a` must match
///    every element of `b`'s list;
/// 2. otherwise a conjunction used as the subject means "any of" — some
///    element of `a`'s list must match `b`;
/// 3. otherwise both sides are non-conjunctions and are compared by variant
///    kind: different kinds never match, same kinds compare their nested
///    patterns recursively, names by value, verbs and adjectives by identity.
pub open spec fn spec_matches(a: Prop, b: Prop) -> bool
    decreases b, a,
{
    match b {
        Prop::And(pats) => forall|i: int|
            0 <= i < pats.len() ==> spec_matches(a, #[trigger] pats[i]),
        _ => match a {
            Prop::And(elems) => exists|i: int|
                0 <= i < elems.len() && spec_matches(#[trigger] elems[i], b),
            _ => match (a, b) {
                (Prop::I, Prop::I) => true,
                (Prop::You, Prop::You) => true,
                (Prop::He, Prop::He) => true,
                (Prop::She, Prop::She) => true,
                (Prop::It, Prop::It) => true,
                (Prop::That, Prop::That) => true,
                (Prop::Placement(ka, pa), Prop::Placement(kb, pb)) =>
                    ka == kb && spec_matches(*pa, *pb),
                (Prop::Role(ka, pa), Prop::Role(kb, pb)) =>
                    ka == kb && spec_matches(*pa, *pb),
                (Prop::Has(pa), Prop::Has(pb)) => spec_matches(*pa, *pb),
                (Prop::HasNot(pa), Prop::HasNot(pb)) => spec_matches(*pa, *pb),
                (Prop::Called(na), Prop::Called(nb)) => na == nb,
                (Prop::OfType(na), Prop::OfType(nb)) => na == nb,
                (Prop::Adj(aa), Prop::Adj(ab)) => aa == ab,
                (Prop::WasBy(va, pa), Prop::WasBy(vb, pb)) =>
                    va == vb && spec_matches(*pa, *pb),
                (Prop::DidTo(va, pa), Prop::DidTo(vb, pb)) =>
                    va == vb && spec_matches(*pa, *pb),
                (Prop::KeyTo(pa), Prop::KeyTo(pb)) => spec_matches(*pa, *pb),
                _ => false,
            },
        },
    }
}

/// Whether pushing `p` onto `s` is a no-op: the property is already implied
/// by the current state. A conjunction implies `p` when one of its elements
/// matches it; any other expression implies `p` when it matches it itself.
pub open spec fn push_implied(s: Prop, p: Prop) -> bool {
    match s {
        Prop::And(elems) => exists|i: int|
            0 <= i < elems.len() && spec_matches(#[trigger] elems[i], p),
        _ => spec_matches(s, p),
    }
}

/// Adding a fact to a property expression.
///
/// A property already implied by the current state is never duplicated;
/// otherwise a conjunction appends it, and any other expression is replaced
/// by the two-element conjunction of itself and the new fact.
pub open spec fn spec_push(s: Prop, p: Prop) -> Prop {
    if push_implied(s, p) {
        s
    } else {
        match s {
            Prop::And(elems) => Prop::And(elems.push(p)),
            _ => Prop::And(seq![s, p]),
        }
    }
}

/// Keeps the elements that the pattern `pat` does not match.
///
/// Note the direction: the pattern is the subject of the match, so removal
/// asks whether `pat` matches the element, not the reverse.
pub open spec fn keep_unmatched(pat: Prop) -> spec_fn(Prop) -> bool {
    |e: Prop| !spec_matches(pat, e)
}

/// Keeps the elements that are not placement relations.
pub open spec fn keep_non_placement() -> spec_fn(Prop) -> bool {
    |e: Prop| !(e is Placement)
}

/// Removing every conjunct that the pattern matches. A non-conjunction is
/// left unchanged.
pub open spec fn spec_remove(s: Prop, pat: Prop) -> Prop {
    match s {
        Prop::And(elems) => Prop::And(elems.filter(keep_unmatched(pat))),
        _ => s,
    }
}

/// Removing every placement conjunct. A non-conjunction is left unchanged.
pub open spec fn spec_remove_placement(s: Prop) -> Prop {
    match s {
        Prop::And(elems) => Prop::And(elems.filter(keep_non_placement())),
        _ => s,
    }
}

/// The indices of the entities in `room` that match `pat`, in increasing
/// order.
pub open spec fn matching_indices(room: Seq<Prop>, pat: Prop) -> Seq<int>
    decreases room.len(),
{
    if room.len() == 0 {
        Seq::empty()
    } else {
        let rest = matching_indices(room.drop_last(), pat);
        if spec_matches(room.last(), pat) {
            rest.push(room.len() - 1)
        } else {
            rest
        }
    }
}

/// Whether a pattern resolves: exactly one entity matches it.
pub open spec fn resolves(room: Seq<Prop>, pat: Prop) -> bool {
    matching_indices(room, pat).len() == 1
}

/// The index of the unique entity that a resolving pattern picks out.
pub open spec fn resolved_index(room: Seq<Prop>, pat: Prop) -> int {
    matching_indices(room, pat)[0]
}

/// The indices that the patterns resolve to, in order; a pattern that does
/// not resolve contributes nothing.
pub open spec fn resolved_indices(room: Seq<Prop>, pats: Seq<Prop>) -> Seq<int>
    decreases pats.len(),
{
    if pats.len() == 0 {
        Seq::empty()
    } else {
        let rest = resolved_indices(room, pats.drop_last());
        if resolves(room, pats.last()) {
            rest.push(resolved_index(room, pats.last()))
        } else {
            rest
        }
    }
}

/// The distinctness gate: among the patterns that do resolve, no two may
/// pick the same entity.
pub open spec fn distinct_ok(room: Seq<Prop>, pats: Seq<Prop>) -> bool {
    resolved_indices(room, pats).no_duplicates()
}

/// Whether one gating pair holds: the pattern resolves and the resolved
/// entity matches the paired property.
pub open spec fn gate_pair_holds(room: Seq<Prop>, pair: (Prop, Prop)) -> bool {
    resolves(room, pair.0) && spec_matches(room[resolved_index(room, pair.0)], pair.1)
}

/// The requirement gate: every pair must hold.
pub open spec fn require_ok(room: Seq<Prop>, pairs: Seq<(Prop, Prop)>) -> bool {
    forall|k: int| 0 <= k < pairs.len() ==> gate_pair_holds(room, #[trigger] pairs[k])
}

/// The prevention gate fires when some pair holds; a pattern that does not
/// resolve counts as not matching.
pub open spec fn prevent_triggered(room: Seq<Prop>, pairs: Seq<(Prop, Prop)>) -> bool {
    exists|k: int| 0 <= k < pairs.len() && gate_pair_holds(room, #[trigger] pairs[k])
}

/// Every matching index lies inside the room.
pub proof fn lemma_matching_indices_bounds(room: Seq<Prop>, pat: Prop)
    ensures
        forall|k: int|
            0 <= k < matching_indices(room, pat).len() ==> 0 <= #[trigger] matching_indices(
                room,
                pat,
            )[k] < room.len(),
    decreases room.len(),
{
    if room.len() > 0 {
        lemma_matching_indices_bounds(room.drop_last(), pat);
        let rest = matching_indices(room.drop_last(), pat);
        let full = matching_indices(room, pat);
        assert forall|k: int| 0 <= k < full.len() implies 0 <= #[trigger] full[k] < room.len() by {
            if spec_matches(room.last(), pat) {
                assert(full == rest.push(room.len() - 1));
                if k < rest.len() {
                    assert(full[k] == rest[k]);
                } else {
                    assert(full[k] == room.len() - 1);
                }
            } else {
                assert(full[k] == rest[k]);
            }
        }
    }
}

/// The indices resolved from a prefix of the patterns are a prefix of the
/// indices resolved from all of them.
pub proof fn lemma_resolved_indices_prefix(room: Seq<Prop>, pats: Seq<Prop>, k: int)
    requires
        0 <= k <= pats.len(),
    ensures
        resolved_indices(room, pats.take(k)).is_prefix_of(resolved_indices(room, pats)),
    decreases pats.len() - k,
{
    if k == pats.len() {
        assert(pats.take(k) =~= pats);
        assert(resolved_indices(room, pats).subrange(
            0,
            resolved_indices(room, pats).len() as int,
        ) =~= resolved_indices(room, pats));
    } else {
        lemma_resolved_indices_prefix(room, pats, k + 1);
        let shorter = resolved_indices(room, pats.take(k));
        let longer = resolved_indices(room, pats.take(k + 1));
        let full = resolved_indices(room, pats);
        assert(pats.take(k + 1).drop_last() =~= pats.take(k));
        assert(pats.take(k + 1).last() == pats[k]);
        assert(shorter.is_prefix_of(longer)) by {
            if resolves(room, pats[k]) {
                assert(longer.subrange(0, shorter.len() as int) =~= shorter);
            } else {
                assert(longer.subrange(0, shorter.len() as int) =~= shorter);
            }
        }
        assert(full.subrange(0, shorter.len() as int) =~= shorter) by {
            assert(longer =~= full.subrange(0, longer.len() as int));
            assert forall|j: int| 0 <= j < shorter.len() implies full[j] == shorter[j] by {
                assert(longer[j] == shorter[j]);
                assert(full.subrange(0, longer.len() as int)[j] == full[j]);
            }
        }
    }
}

/// A prefix of a duplicate-free sequence is duplicate-free.
pub proof fn lemma_no_duplicates_prefix<A>(p: Seq<A>, s: Seq<A>)
    requires
        p.is_prefix_of(s),
        s.no_duplicates(),
    ensures
        p.no_duplicates(),
{
    assert forall|i: int, j: int|
        0 <= i < p.len() && 0 <= j < p.len() && i != j implies p[i] != p[j] by {
        assert(p[i] == s.subrange(0, p.len() as int)[i]);
        assert(p[j] == s.subrange(0, p.len() as int)[j]);
    }
}

/// One removal instruction: if the pattern resolves, the paired property is
/// stripped from the resolved entity; otherwise nothing happens.
pub open spec fn apply_remove_step(room: Seq<Prop>, pat: Prop, prop: Prop) -> Seq<Prop> {
    if resolves(room, pat) {
        let i = resolved_index(room, pat);
        room.update(i, spec_remove(room[i], prop))
    } else {
        room
    }
}

/// The removal instructions, applied in order; each resolves against the
/// room as left by the previous one.
pub open spec fn apply_removes(room: Seq<Prop>, pairs: Seq<(Prop, Prop)>) -> Seq<Prop>
    decreases pairs.len(),
{
    if pairs.len() == 0 {
        room
    } else {
        let prev = apply_removes(room, pairs.drop_last());
        apply_remove_step(prev, pairs.last().0, pairs.last().1)
    }
}

/// One placement-removal instruction.
pub open spec fn apply_remove_placement_step(room: Seq<Prop>, pat: Prop) -> Seq<Prop> {
    if resolves(room, pat) {
        let i = resolved_index(room, pat);
        room.update(i, spec_remove_placement(room[i]))
    } else {
        room
    }
}

/// The placement-removal instructions, applied in order.
pub open spec fn apply_remove_placements(room: Seq<Prop>, pats: Seq<Prop>) -> Seq<Prop>
    decreases pats.len(),
{
    if pats.len() == 0 {
        room
    } else {
        apply_remove_placement_step(apply_remove_placements(room, pats.drop_last()), pats.last())
    }
}

/// One decoration instruction: if the pattern resolves, the paired property
/// is pushed onto the resolved entity.
pub open spec fn apply_decorate_step(room: Seq<Prop>, pat: Prop, prop: Prop) -> Seq<Prop> {
    if resolves(room, pat) {
        let i = resolved_index(room, pat);
        room.update(i, spec_push(room[i], prop))
    } else {
        room
    }
}

/// The decoration instructions, applied in order.
pub open spec fn apply_decorates(room: Seq<Prop>, pairs: Seq<(Prop, Prop)>) -> Seq<Prop>
    decreases pairs.len(),
{
    if pairs.len() == 0 {
        room
    } else {
        let prev = apply_decorates(room, pairs.drop_last());
        apply_decorate_step(prev, pairs.last().0, pairs.last().1)
    }
}

/// Recording the transaction itself: the subject entity learns that it did
/// the verb to the object pattern, then the object entity learns that the
/// verb was done to it by the subject pattern.
pub open spec fn record_history(
    room: Seq<Prop>,
    sub_i: int,
    obj_i: int,
    verb: Verb,
    subject: Prop,
    object: Prop,
) -> Seq<Prop> {
    let r1 = room.update(sub_i, spec_push(room[sub_i], Prop::DidTo(verb, Box::new(object))));
    r1.update(obj_i, spec_push(r1[obj_i], Prop::WasBy(verb, Box::new(subject))))
}

/// The model of a declarative action.
#[verifier::ext_equal]
pub struct ActionModel {
    /// The pattern naming the acting entity.
    pub subject: Prop,
    /// The verb recorded in the history facts.
    pub verb: Verb,
    /// The pattern naming the acted-on entity.
    pub object: Prop,
    /// Properties to push, each onto the entity its pattern resolves to.
    pub decorate: Seq<(Prop, Prop)>,
    /// Properties to strip, each from the entity its pattern resolves to.
    pub remove: Seq<(Prop, Prop)>,
    /// Entities whose placement conjuncts are stripped.
    pub remove_placement: Seq<Prop>,
    /// Pairs that abort the action when the entity resolves and matches.
    pub prevent: Seq<(Prop, Prop)>,
    /// Pairs that abort the action unless the entity resolves and matches.
    pub require: Seq<(Prop, Prop)>,
    /// Patterns that must resolve to pairwise different entities.
    pub distinct: Seq<Prop>,
}

/// Whether every gate of the action passes against the room.
pub open spec fn action_allowed(room: Seq<Prop>, a: ActionModel) -> bool {
    &&& resolves(room, a.subject)
    &&& resolves(room, a.object)
    &&& distinct_ok(room, a.distinct)
    &&& require_ok(room, a.require)
    &&& !prevent_triggered(room, a.prevent)
}

/// The room after an allowed action: removals, then placement removals,
/// then decorations, then the history record on the subject and object
/// entities as resolved against the original room.
pub open spec fn apply_action(room: Seq<Prop>, a: ActionModel) -> Seq<Prop> {
    let sub_i = resolved_index(room, a.subject);
    let obj_i = resolved_index(room, a.object);
    let r1 = apply_removes(room, a.remove);
    let r2 = apply_remove_placements(r1, a.remove_placement);
    let r3 = apply_decorates(r2, a.decorate);
    record_history(r3, sub_i, obj_i, a.verb, a.subject, a.object)
}

/// A conjunction used as the pattern means "all of": any subject matches a
/// conjunction pattern exactly when it matches every one of its elements.
pub broadcast proof fn lemma_matches_all(a: Prop, ps: Seq<Prop>)
    ensures
        #[trigger] spec_matches(a, Prop::And(ps)) <==> (forall|i: int|
            0 <= i < ps.len() ==> spec_matches(a, #[trigger] ps[i])),
{
    assert(Prop::And(ps)->And_0 == ps);
}

/// A conjunction used as the subject means "any of": a conjunction subject
/// matches a non-conjunction pattern exactly when at least one of its
/// elements does.
pub broadcast proof fn lemma_matches_any(es: Seq<Prop>, b: Prop)
    requires
        !(b is And),
    ensures
        #[trigger] spec_matches(Prop::And(es), b) <==> (exists|i: int|
            0 <= i < es.len() && spec_matches(#[trigger] es[i], b)),
{
    assert(Prop::And(es)->And_0 == es);
}

} // verus!
