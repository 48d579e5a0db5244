use vstd::prelude::*;

use crate::model::{spec_matches, PlaceKind, Prop, RoleKind};
use crate::object::{
    prop_of, has as has_pattern, has_not as has_not_pattern, killed as killed_pattern,
    killed_by as killed_by_pattern, Object, Placement, Role,
};
use crate::verb::Verb;

verus! {

impl Object {
    /// Returns `true` if self has another object.
    pub fn has(&self, obj: Object) -> (r: bool)
        ensures
            r == spec_matches(self@, Prop::Has(Box::new(obj@))),
    {
        self.matches(&has_pattern(obj))
    }

    /// Returns `true` if self has not another object.
    pub fn has_not(&self, obj: Object) -> (r: bool)
        ensures
            r == spec_matches(self@, Prop::HasNot(Box::new(obj@))),
    {
        self.matches(&has_not_pattern(obj))
    }

    /// Returns `true` if self is on another object.
    pub fn is_on(&self, obj: Object) -> (r: bool)
        ensures
            r == spec_matches(self@, Prop::Placement(PlaceKind::On, Box::new(obj@))),
    {
        let ghost ov = obj@;
        let pat = Object::Placement(Box::new(Placement::On(obj)));
        proof {
            reveal_with_fuel(prop_of, 3);
            assert(pat@ == Prop::Placement(PlaceKind::On, Box::new(ov)));
        }
        self.matches(&pat)
    }

    /// Returns `true` if self leans toward another object.
    pub fn is_leaning_toward(&self, obj: Object) -> (r: bool)
        ensures
            r == spec_matches(self@, Prop::Placement(PlaceKind::LeanToward, Box::new(obj@))),
    {
        let ghost ov = obj@;
        let pat = Object::Placement(Box::new(Placement::LeanToward(obj)));
        proof {
            reveal_with_fuel(prop_of, 3);
            assert(pat@ == Prop::Placement(PlaceKind::LeanToward, Box::new(ov)));
        }
        self.matches(&pat)
    }

    /// Returns `true` if self is in another object.
    pub fn is_in(&self, obj: Object) -> (r: bool)
        ensures
            r == spec_matches(self@, Prop::Placement(PlaceKind::In, Box::new(obj@))),
    {
        let ghost ov = obj@;
        let pat = Object::Placement(Box::new(Placement::In(obj)));
        proof {
            reveal_with_fuel(prop_of, 3);
            assert(pat@ == Prop::Placement(PlaceKind::In, Box::new(ov)));
        }
        self.matches(&pat)
    }

    /// Returns `true` if self is out of another object.
    pub fn is_out_of(&self, obj: Object) -> (r: bool)
        ensures
            r == spec_matches(self@, Prop::Placement(PlaceKind::OutOf, Box::new(obj@))),
    {
        let ghost ov = obj@;
        let pat = Object::Placement(Box::new(Placement::OutOf(obj)));
        proof {
            reveal_with_fuel(prop_of, 3);
            assert(pat@ == Prop::Placement(PlaceKind::OutOf, Box::new(ov)));
        }
        self.matches(&pat)
    }

    /// Returns `true` if self was killed by another object.
    pub fn was_killed_by(&self, obj: Object) -> (r: bool)
        ensures
            r == spec_matches(self@, Prop::WasBy(Verb::Kill, Box::new(obj@))),
    {
        self.matches(&killed_by_pattern(obj))
    }

    /// Returns `true` if self killed another object.
    pub fn killed(&self, obj: Object) -> (r: bool)
        ensures
            r == spec_matches(self@, Prop::DidTo(Verb::Kill, Box::new(obj@))),
    {
        self.matches(&killed_pattern(obj))
    }

    /// Returns `true` if self talked to another object.
    pub fn talked_to(&self, obj: Object) -> (r: bool)
        ensures
            r == spec_matches(self@, Prop::DidTo(Verb::Talk, Box::new(obj@))),
    {
        self.matches(&Object::DidTo(Verb::Talk, Box::new(obj)))
    }

    /// Returns `true` if self was talked to by another object.
    pub fn was_talked_to_by(&self, obj: Object) -> (r: bool)
        ensures
            r == spec_matches(self@, Prop::WasBy(Verb::Talk, Box::new(obj@))),
    {
        self.matches(&Object::WasBy(Verb::Talk, Box::new(obj)))
    }

    /// Returns `true` if self was moved by another object.
    pub fn was_moved_by(&self, obj: Object) -> (r: bool)
        ensures
            r == spec_matches(self@, Prop::WasBy(Verb::Move, Box::new(obj@))),
    {
        self.matches(&Object::WasBy(Verb::Move, Box::new(obj)))
    }

    /// Returns `true` if self moved another object.
    pub fn moved(&self, obj: Object) -> (r: bool)
        ensures
            r == spec_matches(self@, Prop::DidTo(Verb::Move, Box::new(obj@))),
    {
        self.matches(&Object::DidTo(Verb::Move, Box::new(obj)))
    }

    /// Returns `true` if self is opponent of another object.
    pub fn is_opponent_of(&self, obj: Object) -> (r: bool)
        ensures
            r == spec_matches(self@, Prop::Role(RoleKind::OpponentOf, Box::new(obj@))),
    {
        let ghost ov = obj@;
        let pat = Object::Role(Box::new(Role::OpponentOf(obj)));
        proof {
            reveal_with_fuel(prop_of, 3);
            assert(pat@ == Prop::Role(RoleKind::OpponentOf, Box::new(ov)));
        }
        self.matches(&pat)
    }

    /// Returns `true` if self locked another object.
    pub fn locked(&self, obj: Object) -> (r: bool)
        ensures
            r == spec_matches(self@, Prop::DidTo(Verb::Lock, Box::new(obj@))),
    {
        self.matches(&Object::DidTo(Verb::Lock, Box::new(obj)))
    }

    /// Returns `true` if self closed another object.
    pub fn closed(&self, obj: Object) -> (r: bool)
        ensures
            r == spec_matches(self@, Prop::DidTo(Verb::Close, Box::new(obj@))),
    {
        self.matches(&Object::DidTo(Verb::Close, Box::new(obj)))
    }
}

} // verus!
