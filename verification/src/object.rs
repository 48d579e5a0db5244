use vstd::prelude::*;

use crate::model::{
    keep_non_placement, keep_unmatched, lemma_matches_all, lemma_matches_any, push_implied,
    spec_matches, spec_push, spec_remove, spec_remove_placement, PlaceKind, Prop, RoleKind,
};
use crate::verb::Verb;

verus! {

/// The closed set of adjective state flags.
#[derive(Copy, Clone, Debug, PartialEq, Eq, Structural)]
pub enum Adjective {
    Dead,
    Murderer,
    Open,
    Closed,
    Locked,
    Unlocked,
}

/// A placement relation: a reference-pattern to another entity under one of
/// four sub-kinds. The pattern is resolved freshly at use time, never cached.
#[derive(Debug)]
pub enum Placement {
    On(Object),
    LeanToward(Object),
    In(Object),
    OutOf(Object),
}

/// A role relation: a reference-pattern to another entity under a role kind.
#[derive(Debug)]
pub enum Role {
    OpponentOf(Object),
}

/// A property expression: everything known or asked about one entity.
///
/// This is pure data — a recursively owned tree with no sharing and no
/// hidden state — and its mathematical model is [`Prop`], reached through
/// the view operator `@`.
#[derive(Debug)]
pub enum Object {
    I,
    You,
    He,
    She,
    It,
    That,
    And(Vec<Object>),
    Placement(Box<Placement>),
    Role(Box<Role>),
    Has(Box<Object>),
    HasNot(Box<Object>),
    Called(String),
    OfType(String),
    Adj(Adjective),
    WasBy(Verb, Box<Object>),
    DidTo(Verb, Box<Object>),
    KeyTo(Box<Object>),
}

/// The models of a list of executable property expressions, in order.
pub open spec fn props_of(s: Seq<Object>) -> Seq<Prop>
    decreases s,
{
    if s.len() == 0 {
        Seq::empty()
    } else {
        props_of(s.drop_last()).push(prop_of(s[s.len() - 1]))
    }
}

/// The length and elements of `props_of` follow the input pointwise.
pub broadcast proof fn lemma_props_of(s: Seq<Object>)
    ensures
        (#[trigger] props_of(s)).len() == s.len(),
        forall|i: int| 0 <= i < s.len() ==> props_of(s)[i] == prop_of(s[i]),
    decreases s.len(),
{
    if s.len() > 0 {
        lemma_props_of(s.drop_last());
    }
}

/// Filtering a one-element sequence keeps or drops its only element.
proof fn lemma_filter_singleton<A>(x: A, p: spec_fn(A) -> bool)
    ensures
        seq![x].filter(p) == if p(x) {
            seq![x]
        } else {
            Seq::<A>::empty()
        },
{
    let s = seq![x];
    assert(s.len() == 1);
    assert(s.last() == x);
    assert(s.drop_last() =~= Seq::<A>::empty());
    assert(s.drop_last() == Seq::<A>::empty());
    reveal_with_fuel(Seq::filter, 2);
    assert(Seq::<A>::empty().filter(p) == Seq::<A>::empty());
    if p(x) {
        assert(s.filter(p) =~= seq![x]);
    } else {
        assert(s.filter(p) =~= Seq::<A>::empty());
    }
}

/// Taking the models of a filtered list is filtering the models, whenever
/// the two predicates agree through the model.
proof fn lemma_props_of_filter(
    s: Seq<Object>,
    opred: spec_fn(Object) -> bool,
    ppred: spec_fn(Prop) -> bool,
)
    requires
        forall|o: Object| #[trigger] opred(o) == ppred(prop_of(o)),
    ensures
        props_of(s.filter(opred)) == props_of(s).filter(ppred),
    decreases s.len(),
{
    if s.len() == 0 {
        assert(s.filter(opred) =~= s);
    } else {
        let rest = s.drop_last();
        let x = s.last();
        reveal_with_fuel(Seq::filter, 2);
        lemma_props_of_filter(rest, opred, ppred);
        assert(props_of(s) == props_of(rest).push(prop_of(x)));
        assert(props_of(s).drop_last() =~= props_of(rest));
        assert(props_of(s).last() == prop_of(x));
        if opred(x) {
            assert(s.filter(opred) == rest.filter(opred).push(x));
            assert(rest.filter(opred).push(x).drop_last() =~= rest.filter(opred));
            assert(props_of(s.filter(opred)) == props_of(rest.filter(opred)).push(prop_of(x)));
        } else {
            assert(s.filter(opred) == rest.filter(opred));
        }
    }
}

/// The model of an executable placement relation.
pub open spec fn place_prop(p: Placement) -> Prop
    decreases p,
{
    match p {
        Placement::On(o) => Prop::Placement(PlaceKind::On, Box::new(prop_of(o))),
        Placement::LeanToward(o) => Prop::Placement(PlaceKind::LeanToward, Box::new(prop_of(o))),
        Placement::In(o) => Prop::Placement(PlaceKind::In, Box::new(prop_of(o))),
        Placement::OutOf(o) => Prop::Placement(PlaceKind::OutOf, Box::new(prop_of(o))),
    }
}

/// The model of an executable role relation.
pub open spec fn role_prop(r: Role) -> Prop
    decreases r,
{
    match r {
        Role::OpponentOf(o) => Prop::Role(RoleKind::OpponentOf, Box::new(prop_of(o))),
    }
}

/// The model of an executable property expression.
pub open spec fn prop_of(o: Object) -> Prop
    decreases o,
{
    match o {
        Object::I => Prop::I,
        Object::You => Prop::You,
        Object::He => Prop::He,
        Object::She => Prop::She,
        Object::It => Prop::It,
        Object::That => Prop::That,
        Object::And(list) => Prop::And(props_of(list@)),
        Object::Placement(p) => place_prop(*p),
        Object::Role(r) => role_prop(*r),
        Object::Has(o) => Prop::Has(Box::new(prop_of(*o))),
        Object::HasNot(o) => Prop::HasNot(Box::new(prop_of(*o))),
        Object::Called(s) => Prop::Called(s@),
        Object::OfType(s) => Prop::OfType(s@),
        Object::Adj(a) => Prop::Adj(a),
        Object::WasBy(v, o) => Prop::WasBy(v, Box::new(prop_of(*o))),
        Object::DidTo(v, o) => Prop::DidTo(v, Box::new(prop_of(*o))),
        Object::KeyTo(o) => Prop::KeyTo(Box::new(prop_of(*o))),
    }
}

/// The model keeps the variant kind of an expression.
pub broadcast proof fn lemma_prop_of_kind(o: Object)
    ensures
        (#[trigger] prop_of(o)) is I <==> o is I,
        prop_of(o) is You <==> o is You,
        prop_of(o) is He <==> o is He,
        prop_of(o) is She <==> o is She,
        prop_of(o) is It <==> o is It,
        prop_of(o) is That <==> o is That,
        prop_of(o) is And <==> o is And,
        prop_of(o) is Placement <==> o is Placement,
        prop_of(o) is Role <==> o is Role,
        prop_of(o) is Has <==> o is Has,
        prop_of(o) is HasNot <==> o is HasNot,
        prop_of(o) is Called <==> o is Called,
        prop_of(o) is OfType <==> o is OfType,
        prop_of(o) is Adj <==> o is Adj,
        prop_of(o) is WasBy <==> o is WasBy,
        prop_of(o) is DidTo <==> o is DidTo,
        prop_of(o) is KeyTo <==> o is KeyTo,
{
    match o {
        Object::Placement(p) => {
            assert(prop_of(o) == place_prop(*p));
        },
        Object::Role(r) => {
            assert(prop_of(o) == role_prop(*r));
        },
        _ => {},
    }
}

impl View for Object {
    type V = Prop;

    open spec fn view(&self) -> Prop {
        prop_of(*self)
    }
}

/// The reference-pattern inside a placement relation.
pub open spec fn place_ref(p: Placement) -> Object {
    match p {
        Placement::On(o) => o,
        Placement::LeanToward(o) => o,
        Placement::In(o) => o,
        Placement::OutOf(o) => o,
    }
}

/// The reference-pattern inside a role relation.
pub open spec fn role_ref(r: Role) -> Object {
    match r {
        Role::OpponentOf(o) => o,
    }
}

impl Placement {
    /// Borrows the referenced pattern, whatever the sub-kind.
    pub fn obj_ref(&self) -> (r: &Object)
        ensures
            *r == place_ref(*self),
    {
        match self {
            Placement::On(obj) => obj,
            Placement::LeanToward(obj) => obj,
            Placement::In(obj) => obj,
            Placement::OutOf(obj) => obj,
        }
    }

    /// Returns `true` if the placement matches another: the sub-kinds must
    /// agree and the referenced patterns must match.
    pub fn matches(&self, other: &Placement) -> (r: bool)
        ensures
            r == spec_matches(self@, other@),
        decreases *other, *self, 0int,
    {
        match (self, other) {
            (Placement::On(a), Placement::On(b)) => a.matches(b),
            (Placement::LeanToward(a), Placement::LeanToward(b)) => a.matches(b),
            (Placement::In(a), Placement::In(b)) => a.matches(b),
            (Placement::OutOf(a), Placement::OutOf(b)) => a.matches(b),
            _ => false,
        }
    }
}

impl Role {
    /// Borrows the referenced pattern, whatever the role kind.
    pub fn obj_ref(&self) -> (r: &Object)
        ensures
            *r == role_ref(*self),
    {
        match self {
            Role::OpponentOf(obj) => obj,
        }
    }

    /// Returns `true` if the role matches another: the role kinds must agree
    /// and the referenced patterns must match.
    pub fn matches(&self, other: &Role) -> (r: bool)
        ensures
            r == spec_matches(self@, other@),
        decreases *other, *self, 0int,
    {
        match (self, other) {
            (Role::OpponentOf(a), Role::OpponentOf(b)) => a.matches(b),
        }
    }
}

impl Object {
    /// Compares two non-conjunction property expressions by variant kind.
    fn matches_leaf(&self, other: &Object) -> (r: bool)
        requires
            !(*self is And),
            !(*other is And),
        ensures
            r == spec_matches(self@, other@),
        decreases *other, *self, 0int,
    {
        proof {
            lemma_prop_of_kind(*self);
            lemma_prop_of_kind(*other);
        }
        match self {
            Object::And(_) => false,
            Object::I => matches!(other, Object::I),
            Object::You => matches!(other, Object::You),
            Object::He => matches!(other, Object::He),
            Object::She => matches!(other, Object::She),
            Object::It => matches!(other, Object::It),
            Object::That => matches!(other, Object::That),
            Object::Placement(a) => match other {
                Object::Placement(b) => a.matches(b),
                _ => false,
            },
            Object::Role(a) => match other {
                Object::Role(b) => a.matches(b),
                _ => false,
            },
            Object::Has(a) => match other {
                Object::Has(b) => a.matches(b),
                _ => false,
            },
            Object::HasNot(a) => match other {
                Object::HasNot(b) => a.matches(b),
                _ => false,
            },
            Object::Called(a) => match other {
                Object::Called(b) => *a == *b,
                _ => false,
            },
            Object::OfType(a) => match other {
                Object::OfType(b) => *a == *b,
                _ => false,
            },
            Object::Adj(a) => match other {
                Object::Adj(b) => *a == *b,
                _ => false,
            },
            Object::WasBy(va, a) => match other {
                Object::WasBy(vb, b) => *va == *vb && a.matches(b),
                _ => false,
            },
            Object::DidTo(va, a) => match other {
                Object::DidTo(vb, b) => *va == *vb && a.matches(b),
                _ => false,
            },
            Object::KeyTo(a) => match other {
                Object::KeyTo(b) => a.matches(b),
                _ => false,
            },
        }
    }

    /// Returns `true` if the object matches another.
    ///
    /// The pattern side takes precedence: a conjunction pattern must be
    /// matched in every element, a conjunction subject matches a
    /// non-conjunction pattern if any of its elements does, and two
    /// non-conjunctions compare by variant kind.
    #[verifier::loop_isolation(false)]
    #[verifier::rlimit(50)]
    pub fn matches(&self, other: &Object) -> (r: bool)
        ensures
            r == spec_matches(self@, other@),
        decreases *other, *self, 1int,
    {
        match other {
            Object::And(pats) => {
                proof {
                    lemma_props_of(pats@);
                }
                let n = pats.len();
                let mut i: usize = 0;
                while i < n
                    invariant
                        n == pats@.len(),
                        i <= n,
                        forall|k: int| 0 <= k < i ==> spec_matches(self@, prop_of(pats@[k])),
                    decreases n - i,
                {
                    proof {
                        vstd::std_specs::vec::axiom_vec_index_decreases(*pats, i as int);
                        assert(*pats == other->And_0);
                        assert(decreases_to!(*other => other->And_0));
                        assert(decreases_to!(*other => pats@[i as int]));
                    }
                    if !self.matches(&pats[i]) {
                        proof {
                            lemma_props_of(pats@);
                            lemma_matches_all(self@, props_of(pats@));
                            assert(props_of(pats@)[i as int] == prop_of(pats@[i as int]));
                        }
                        return false;
                    }
                    i += 1;
                }
                proof {
                    lemma_props_of(pats@);
                    lemma_matches_all(self@, props_of(pats@));
                    assert forall|j: int| 0 <= j < props_of(pats@).len() implies spec_matches(
                        self@,
                        props_of(pats@)[j],
                    ) by {
                        assert(props_of(pats@)[j] == prop_of(pats@[j]));
                    }
                    assert(spec_matches(self@, other@));
                }
                true
            },
            _ => match self {
                Object::And(elems) => {
                    proof {
                        lemma_props_of(elems@);
                        lemma_prop_of_kind(*other);
                    }
                    let n = elems.len();
                    let mut i: usize = 0;
                    while i < n
                        invariant
                            n == elems@.len(),
                            i <= n,
                            !(other@ is And),
                            forall|k: int| 0 <= k < i ==> !spec_matches(prop_of(elems@[k]), other@),
                        decreases n - i,
                    {
                        proof {
                            vstd::std_specs::vec::axiom_vec_index_decreases(*elems, i as int);
                            assert(*elems == self->And_0);
                            assert(decreases_to!(*self => self->And_0));
                            assert(decreases_to!(*self => elems@[i as int]));
                        }
                        if elems[i].matches(other) {
                            proof {
                                lemma_props_of(elems@);
                                lemma_matches_any(props_of(elems@), other@);
                                assert(props_of(elems@)[i as int] == prop_of(elems@[i as int]));
                                assert(spec_matches(props_of(elems@)[i as int], other@));
                            }
                            return true;
                        }
                        i += 1;
                    }
                    proof {
                        lemma_props_of(elems@);
                        lemma_matches_any(props_of(elems@), other@);
                        assert forall|j: int| 0 <= j < props_of(elems@).len() implies !spec_matches(
                            props_of(elems@)[j],
                            other@,
                        ) by {
                            assert(props_of(elems@)[j] == prop_of(elems@[j]));
                        }
                        assert(!spec_matches(self@, other@));
                    }
                    false
                },
                _ => self.matches_leaf(other),
            },
        }
    }
}

impl Object {
    /// Adds a fact to the list of properties.
    ///
    /// A property already implied by the current state is a no-op; otherwise
    /// a conjunction appends the fact and any other expression becomes the
    /// two-element conjunction of itself and the fact.
    #[verifier::loop_isolation(false)]
    pub fn push(&mut self, obj: Object)
        ensures
            final(self)@ == spec_push(old(self)@, obj@),
    {
        let mut tmp = Object::I;
        core::mem::swap(self, &mut tmp);
        match tmp {
            Object::And(mut list) => {
                let ghost orig = list@;
                let n = list.len();
                let mut i: usize = 0;
                let mut found = false;
                while i < n && !found
                    invariant
                        n == orig.len(),
                        list@ == orig,
                        i <= n,
                        found ==> i < n && spec_matches(prop_of(orig[i as int]), obj@),
                        !found ==> forall|k: int| 0 <= k < i ==> !spec_matches(
                            prop_of(orig[k]),
                            obj@,
                        ),
                    decreases n - i, (if found { 0int } else { 1int }),
                {
                    if list[i].matches(&obj) {
                        found = true;
                    } else {
                        i += 1;
                    }
                }
                proof {
                    lemma_props_of(orig);
                    if found {
                        assert(props_of(orig)[i as int] == prop_of(orig[i as int]));
                        assert(push_implied(Prop::And(props_of(orig)), obj@));
                    } else {
                        assert forall|k: int| 0 <= k < props_of(orig).len() implies !spec_matches(
                            props_of(orig)[k],
                            obj@,
                        ) by {
                            assert(props_of(orig)[k] == prop_of(orig[k]));
                        }
                        assert(!push_implied(Prop::And(props_of(orig)), obj@));
                    }
                }
                if !found {
                    list.push(obj);
                    proof {
                        lemma_props_of(list@);
                        lemma_props_of(orig);
                        assert(props_of(list@) =~= props_of(orig).push(
                            prop_of(list@[orig.len() as int]),
                        ));
                    }
                    let ghost endlist = list@;
                    *self = Object::And(list);
                    proof {
                        assert(self@ == Prop::And(props_of(endlist)));
                        assert(old(self)@ == Prop::And(props_of(orig)));
                        assert(!push_implied(old(self)@, obj@));
                        assert(self@ == spec_push(old(self)@, obj@));
                    }
                } else {
                    *self = Object::And(list);
                    proof {
                        assert(self@ == Prop::And(props_of(orig)));
                        assert(old(self)@ == Prop::And(props_of(orig)));
                        assert(push_implied(old(self)@, obj@));
                        assert(self@ == spec_push(old(self)@, obj@));
                    }
                }
            },
            other => {
                proof {
                    lemma_prop_of_kind(other);
                }
                if other.matches(&obj) {
                    let ghost kept = other@;
                    *self = other;
                    proof {
                        assert(self@ == kept);
                        assert(push_implied(old(self)@, obj@));
                        assert(self@ == spec_push(old(self)@, obj@));
                    }
                } else {
                    let ghost single = other@;
                    let pair = vec![other, obj];
                    proof {
                        lemma_props_of(pair@);
                        assert(props_of(pair@) =~= seq![prop_of(pair@[0]), prop_of(pair@[1])]);
                    }
                    *self = Object::And(pair);
                    proof {
                        assert(self@ == Prop::And(seq![single, obj@]));
                        assert(!push_implied(old(self)@, obj@));
                        assert(self@ == spec_push(old(self)@, obj@));
                    }
                }
            },
        }
    }
}

impl Object {
    /// Removes every conjunct that the given pattern matches.
    ///
    /// The pattern is the subject of the check — a conjunct is removed when
    /// `obj` matches it, not the reverse. A non-conjunction is left
    /// unchanged.
    #[verifier::loop_isolation(false)]
    pub fn remove(&mut self, obj: &Object)
        ensures
            final(self)@ == spec_remove(old(self)@, obj@),
    {
        let ghost opred = |o: Object| !spec_matches(obj@, prop_of(o));
        let mut tmp = Object::I;
        core::mem::swap(self, &mut tmp);
        match tmp {
            Object::And(mut list) => {
                let ghost orig = list@;
                let mut i: usize = list.len();
                while i > 0
                    invariant
                        i <= orig.len(),
                        list@ == orig.take(i as int) + orig.skip(i as int).filter(opred),
                    decreases i,
                {
                    i -= 1;
                    proof {
                        assert(orig.skip(i as int) =~= seq![orig[i as int]] + orig.skip(
                            i as int + 1,
                        ));
                        Seq::filter_distributes_over_add(
                            seq![orig[i as int]],
                            orig.skip(i as int + 1),
                            opred,
                        );
                        lemma_filter_singleton(orig[i as int], opred);
                        assert(list@[i as int] == orig[i as int]);
                    }
                    if obj.matches(&list[i]) {
                        list.remove(i);
                        proof {
                            assert(list@ =~= orig.take(i as int) + orig.skip(i as int).filter(
                                opred,
                            ));
                        }
                    } else {
                        proof {
                            assert(orig.take(i as int + 1) =~= orig.take(i as int) + seq![
                                orig[i as int],
                            ]);
                            assert(list@ =~= orig.take(i as int) + orig.skip(i as int).filter(
                                opred,
                            ));
                        }
                    }
                }
                proof {
                    assert(orig.skip(0) =~= orig);
                    assert(orig.take(0) =~= Seq::<Object>::empty());
                    assert(list@ =~= orig.filter(opred));
                    assert forall|o: Object| #[trigger] opred(o) == keep_unmatched(obj@)(
                        prop_of(o),
                    ) by {}
                    lemma_props_of_filter(orig, opred, keep_unmatched(obj@));
                }
                *self = Object::And(list);
                proof {
                    assert(old(self)@ == Prop::And(props_of(orig)));
                    assert(self@ == Prop::And(props_of(orig).filter(keep_unmatched(obj@))));
                }
            },
            other => {
                proof {
                    lemma_prop_of_kind(other);
                }
                *self = other;
            },
        }
    }

    /// Removes every placement conjunct, of any sub-kind. A non-conjunction
    /// is left unchanged.
    #[verifier::loop_isolation(false)]
    pub fn remove_placement(&mut self)
        ensures
            final(self)@ == spec_remove_placement(old(self)@),
    {
        let ghost opred = |o: Object| !(o is Placement);
        let mut tmp = Object::I;
        core::mem::swap(self, &mut tmp);
        match tmp {
            Object::And(mut list) => {
                let ghost orig = list@;
                let mut i: usize = list.len();
                while i > 0
                    invariant
                        i <= orig.len(),
                        list@ == orig.take(i as int) + orig.skip(i as int).filter(opred),
                    decreases i,
                {
                    i -= 1;
                    proof {
                        assert(orig.skip(i as int) =~= seq![orig[i as int]] + orig.skip(
                            i as int + 1,
                        ));
                        Seq::filter_distributes_over_add(
                            seq![orig[i as int]],
                            orig.skip(i as int + 1),
                            opred,
                        );
                        lemma_filter_singleton(orig[i as int], opred);
                        assert(list@[i as int] == orig[i as int]);
                    }
                    let is_place = matches!(list[i], Object::Placement(_));
                    if is_place {
                        list.remove(i);
                        proof {
                            assert(list@ =~= orig.take(i as int) + orig.skip(i as int).filter(
                                opred,
                            ));
                        }
                    } else {
                        proof {
                            assert(orig.take(i as int + 1) =~= orig.take(i as int) + seq![
                                orig[i as int],
                            ]);
                            assert(list@ =~= orig.take(i as int) + orig.skip(i as int).filter(
                                opred,
                            ));
                        }
                    }
                }
                proof {
                    assert(orig.skip(0) =~= orig);
                    assert(orig.take(0) =~= Seq::<Object>::empty());
                    assert(list@ =~= orig.filter(opred));
                    assert forall|o: Object| #[trigger] opred(o) == keep_non_placement()(
                        prop_of(o),
                    ) by {
                        lemma_prop_of_kind(o);
                    }
                    lemma_props_of_filter(orig, opred, keep_non_placement());
                }
                *self = Object::And(list);
                proof {
                    assert(old(self)@ == Prop::And(props_of(orig)));
                    assert(self@ == Prop::And(props_of(orig).filter(keep_non_placement())));
                }
            },
            other => {
                proof {
                    lemma_prop_of_kind(other);
                }
                *self = other;
            },
        }
    }
}

impl Clone for Placement {
    /// A deep copy: the copy models the same placement relation.
    fn clone(&self) -> (res: Placement)
        ensures
            res@ == self@,
        decreases *self,
    {
        match self {
            Placement::On(o) => Placement::On(o.clone()),
            Placement::LeanToward(o) => Placement::LeanToward(o.clone()),
            Placement::In(o) => Placement::In(o.clone()),
            Placement::OutOf(o) => Placement::OutOf(o.clone()),
        }
    }
}

impl Clone for Role {
    /// A deep copy: the copy models the same role relation.
    fn clone(&self) -> (res: Role)
        ensures
            res@ == self@,
        decreases *self,
    {
        match self {
            Role::OpponentOf(o) => Role::OpponentOf(o.clone()),
        }
    }
}

impl Clone for Object {
    /// A deep copy: the copy models the same property expression.
    #[verifier::loop_isolation(false)]
    fn clone(&self) -> (res: Object)
        ensures
            res@ == self@,
        decreases *self,
    {
        match self {
            Object::I => Object::I,
            Object::You => Object::You,
            Object::He => Object::He,
            Object::She => Object::She,
            Object::It => Object::It,
            Object::That => Object::That,
            Object::And(list) => {
                let n = list.len();
                let mut copies: Vec<Object> = Vec::new();
                let mut i: usize = 0;
                while i < n
                    invariant
                        n == list@.len(),
                        i <= n,
                        copies@.len() == i,
                        forall|k: int| 0 <= k < i ==> prop_of(copies@[k]) == prop_of(list@[k]),
                    decreases n - i,
                {
                    proof {
                        vstd::std_specs::vec::axiom_vec_index_decreases(*list, i as int);
                        assert(*list == self->And_0);
                        assert(decreases_to!(*self => self->And_0));
                        assert(decreases_to!(*self => list@[i as int]));
                    }
                    copies.push(list[i].clone());
                    i += 1;
                }
                proof {
                    lemma_props_of(copies@);
                    lemma_props_of(list@);
                    assert(props_of(copies@) =~= props_of(list@));
                }
                Object::And(copies)
            },
            Object::Placement(p) => Object::Placement(Box::new((**p).clone())),
            Object::Role(r) => Object::Role(Box::new((**r).clone())),
            Object::Has(o) => Object::Has(Box::new((**o).clone())),
            Object::HasNot(o) => Object::HasNot(Box::new((**o).clone())),
            Object::Called(s) => Object::Called(s.clone()),
            Object::OfType(s) => Object::OfType(s.clone()),
            Object::Adj(a) => Object::Adj(*a),
            Object::WasBy(v, o) => Object::WasBy(*v, Box::new((**o).clone())),
            Object::DidTo(v, o) => Object::DidTo(*v, Box::new((**o).clone())),
            Object::KeyTo(o) => Object::KeyTo(Box::new((**o).clone())),
        }
    }
}

impl View for Placement {
    type V = Prop;

    open spec fn view(&self) -> Prop {
        place_prop(*self)
    }
}

impl View for Role {
    type V = Prop;

    open spec fn view(&self) -> Prop {
        role_prop(*self)
    }
}


impl vstd::std_specs::convert::FromSpecImpl<Adjective> for Object {
    open spec fn obeys_from_spec() -> bool {
        true
    }

    open spec fn from_spec(adj: Adjective) -> Object {
        Object::Adj(adj)
    }
}

impl From<Adjective> for Object {
    /// Wraps an adjective as a property expression.
    fn from(adj: Adjective) -> (o: Object)
        ensures
            o == Object::Adj(adj),
    {
        Object::Adj(adj)
    }
}

impl vstd::std_specs::convert::FromSpecImpl<Placement> for Object {
    open spec fn obeys_from_spec() -> bool {
        true
    }

    open spec fn from_spec(place: Placement) -> Object {
        Object::Placement(Box::new(place))
    }
}

impl From<Placement> for Object {
    /// Wraps a placement relation as a property expression.
    fn from(place: Placement) -> (o: Object)
        ensures
            o == Object::Placement(Box::new(place)),
            o@ == place@,
    {
        Object::Placement(Box::new(place))
    }
}

impl vstd::std_specs::convert::FromSpecImpl<Role> for Object {
    open spec fn obeys_from_spec() -> bool {
        true
    }

    open spec fn from_spec(role: Role) -> Object {
        Object::Role(Box::new(role))
    }
}

impl From<Role> for Object {
    /// Wraps a role relation as a property expression.
    fn from(role: Role) -> (o: Object)
        ensures
            o == Object::Role(Box::new(role)),
            o@ == role@,
    {
        Object::Role(Box::new(role))
    }
}

/// A placement pattern: resting on whatever matches `obj`.
pub fn on(obj: Object) -> (p: Placement)
    ensures
        p@ == Prop::Placement(PlaceKind::On, Box::new(obj@)),
{
    Placement::On(obj)
}

/// A placement pattern: leaning toward whatever matches `obj`.
pub fn lean_toward(obj: Object) -> (p: Placement)
    ensures
        p@ == Prop::Placement(PlaceKind::LeanToward, Box::new(obj@)),
{
    Placement::LeanToward(obj)
}

/// A placement pattern: inside whatever matches `obj`.
pub fn in_(obj: Object) -> (p: Placement)
    ensures
        p@ == Prop::Placement(PlaceKind::In, Box::new(obj@)),
{
    Placement::In(obj)
}

/// A placement pattern: out of whatever matches `obj`.
pub fn out_of(obj: Object) -> (p: Placement)
    ensures
        p@ == Prop::Placement(PlaceKind::OutOf, Box::new(obj@)),
{
    Placement::OutOf(obj)
}

/// A possession pattern: holds something matching `obj`.
pub fn has(obj: Object) -> (o: Object)
    ensures
        o@ == Prop::Has(Box::new(obj@)),
{
    Object::Has(Box::new(obj))
}

/// A denied-possession pattern: holds nothing matching `obj`.
pub fn has_not(obj: Object) -> (o: Object)
    ensures
        o@ == Prop::HasNot(Box::new(obj@)),
{
    Object::HasNot(Box::new(obj))
}

/// A naming pattern, compared by string value.
pub fn called(name: &str) -> (o: Object)
    ensures
        o@ == Prop::Called(name@),
{
    Object::Called(name.to_owned())
}

/// A type-tag pattern, compared by string value.
pub fn of_type(name: &str) -> (o: Object)
    ensures
        o@ == Prop::OfType(name@),
{
    Object::OfType(name.to_owned())
}

/// A key pattern: unlocks whatever matches `obj`.
pub fn key_to(obj: Object) -> (o: Object)
    ensures
        o@ == Prop::KeyTo(Box::new(obj@)),
{
    Object::KeyTo(Box::new(obj))
}

/// A history-fact pattern: was killed by something matching `obj`.
pub fn killed_by(obj: Object) -> (o: Object)
    ensures
        o@ == Prop::WasBy(Verb::Kill, Box::new(obj@)),
{
    Object::WasBy(Verb::Kill, Box::new(obj))
}

/// A history-fact pattern: killed something matching `obj`.
pub fn killed(obj: Object) -> (o: Object)
    ensures
        o@ == Prop::DidTo(Verb::Kill, Box::new(obj@)),
{
    Object::DidTo(Verb::Kill, Box::new(obj))
}

/// A role pattern: opponent of whatever matches `obj`.
pub fn opponent_of(obj: Object) -> (r: Role)
    ensures
        r@ == Prop::Role(RoleKind::OpponentOf, Box::new(obj@)),
{
    Role::OpponentOf(obj)
}

} // verus!
