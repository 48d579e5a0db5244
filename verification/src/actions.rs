use vstd::prelude::*;

use crate::model::{ActionModel, PlaceKind, Prop, RoleKind};
use crate::object::{
    has, has_not, in_, key_to, lean_toward, lemma_props_of, on, opponent_of, out_of, place_ref,
    Adjective, Object, Placement,
};
use crate::room::{lemma_pairs_of, Action};
use crate::verb::Verb;

verus! {

impl Object {
    /// Moves the object to some place. The object gets the new placement
    /// after losing every old one; moving something onto a carrier removes
    /// the carrier's own placement on it; subject and object must be
    /// distinct entities.
    pub fn moves(self, object: Object, place: Placement) -> (a: Action)
        ensures
            a@ == (ActionModel {
                subject: self@,
                verb: Verb::Move,
                object: object@,
                decorate: seq![(object@, place@)],
                remove: if place is On {
                    seq![
                        (place_ref(place)@, Prop::Placement(PlaceKind::On, Box::new(object@))),
                    ]
                } else {
                    Seq::empty()
                },
                remove_placement: seq![object@],
                prevent: Seq::empty(),
                require: Seq::empty(),
                distinct: seq![self@, object@],
            }),
    {
        let ghost sv = self@;
        let ghost ov = object@;
        let ghost pv = place@;
        let ghost was_on = place is On;
        let ghost inner = place_ref(place)@;
        let remove: Vec<(Object, Object)> = match &place {
            Placement::On(_) => vec![
                (place.obj_ref().clone(), Object::from(on(object.clone()))),
            ],
            _ => Vec::new(),
        };
        let ghost rmv = remove@;
        let decorate: Vec<(Object, Object)> = vec![(object.clone(), Object::from(place))];
        let ghost dcv = decorate@;
        let remove_placement: Vec<Object> = vec![object.clone()];
        let ghost rpv = remove_placement@;
        let distinct: Vec<Object> = vec![self.clone(), object.clone()];
        let ghost dsv = distinct@;
        let a = Action::Do {
            subject: self,
            verb: Verb::Move,
            object,
            decorate,
            remove,
            remove_placement,
            require: Vec::new(),
            prevent: Vec::new(),
            distinct,
        };
        proof {
            lemma_pairs_of(rmv);
            lemma_pairs_of(dcv);
            lemma_props_of(rpv);
            lemma_props_of(dsv);
            assert(a@ =~= (ActionModel {
                subject: sv,
                verb: Verb::Move,
                object: ov,
                decorate: seq![(ov, pv)],
                remove: if was_on {
                    seq![(inner, Prop::Placement(PlaceKind::On, Box::new(ov)))]
                } else {
                    Seq::empty()
                },
                remove_placement: seq![ov],
                prevent: Seq::empty(),
                require: Seq::empty(),
                distinct: seq![sv, ov],
            }));
        }
        a
    }

    /// Gives an item to another object. The giver must currently have the
    /// item, loses it, and the receiver gains it; the item's placement is
    /// cleared; giver, receiver and item must be distinct entities.
    pub fn gives_item(self, to: Object, item: Object) -> (a: Action)
        ensures
            a@ == (ActionModel {
                subject: self@,
                verb: Verb::Give,
                object: to@,
                decorate: seq![
                    (self@, Prop::HasNot(Box::new(item@))),
                    (to@, Prop::Has(Box::new(item@))),
                ],
                remove: seq![
                    (self@, Prop::Has(Box::new(item@))),
                    (to@, Prop::HasNot(Box::new(item@))),
                ],
                remove_placement: seq![item@],
                prevent: seq![(self@, Prop::HasNot(Box::new(item@)))],
                require: Seq::empty(),
                distinct: seq![self@, to@, item@],
            }),
    {
        let ghost sv = self@;
        let ghost tv = to@;
        let ghost iv = item@;
        let decorate: Vec<(Object, Object)> = vec![
            (self.clone(), has_not(item.clone())),
            (to.clone(), has(item.clone())),
        ];
        let ghost dcv = decorate@;
        let remove: Vec<(Object, Object)> = vec![
            (self.clone(), has(item.clone())),
            (to.clone(), has_not(item.clone())),
        ];
        let ghost rmv = remove@;
        let remove_placement: Vec<Object> = vec![item.clone()];
        let ghost rpv = remove_placement@;
        let prevent: Vec<(Object, Object)> = vec![(self.clone(), has_not(item.clone()))];
        let ghost pvv = prevent@;
        let distinct: Vec<Object> = vec![self.clone(), to.clone(), item];
        let ghost dsv = distinct@;
        let a = Action::Do {
            subject: self,
            verb: Verb::Give,
            object: to,
            decorate,
            remove,
            remove_placement,
            require: Vec::new(),
            prevent,
            distinct,
        };
        proof {
            lemma_pairs_of(dcv);
            lemma_pairs_of(rmv);
            lemma_props_of(rpv);
            lemma_pairs_of(pvv);
            lemma_props_of(dsv);
            assert(a@ =~= (ActionModel {
                subject: sv,
                verb: Verb::Give,
                object: tv,
                decorate: seq![
                    (sv, Prop::HasNot(Box::new(iv))),
                    (tv, Prop::Has(Box::new(iv))),
                ],
                remove: seq![
                    (sv, Prop::Has(Box::new(iv))),
                    (tv, Prop::HasNot(Box::new(iv))),
                ],
                remove_placement: seq![iv],
                prevent: seq![(sv, Prop::HasNot(Box::new(iv)))],
                require: Seq::empty(),
                distinct: seq![sv, tv, iv],
            }));
        }
        a
    }

    /// Gives an object to a receiver, naming the item first.
    pub fn gives_to(self, item: Object, to: Object) -> (a: Action)
        ensures
            a@ == (ActionModel {
                subject: self@,
                verb: Verb::Give,
                object: to@,
                decorate: seq![
                    (self@, Prop::HasNot(Box::new(item@))),
                    (to@, Prop::Has(Box::new(item@))),
                ],
                remove: seq![
                    (self@, Prop::Has(Box::new(item@))),
                    (to@, Prop::HasNot(Box::new(item@))),
                ],
                remove_placement: seq![item@],
                prevent: seq![(self@, Prop::HasNot(Box::new(item@)))],
                require: Seq::empty(),
                distinct: seq![self@, to@, item@],
            }),
    {
        self.gives_item(to, item)
    }

    /// Kills the object: the subject becomes a murderer and the object dead.
    pub fn kills(self, object: Object) -> (a: Action)
        ensures
            a@ == (ActionModel {
                subject: self@,
                verb: Verb::Kill,
                object: object@,
                decorate: seq![
                    (self@, Prop::Adj(Adjective::Murderer)),
                    (object@, Prop::Adj(Adjective::Dead)),
                ],
                remove: Seq::empty(),
                remove_placement: Seq::empty(),
                prevent: Seq::empty(),
                require: Seq::empty(),
                distinct: Seq::empty(),
            }),
    {
        let ghost sv = self@;
        let ghost ov = object@;
        let decorate: Vec<(Object, Object)> = vec![
            (self.clone(), Object::from(Adjective::Murderer)),
            (object.clone(), Object::from(Adjective::Dead)),
        ];
        let ghost dcv = decorate@;
        let a = Action::Do {
            subject: self,
            verb: Verb::Kill,
            object,
            decorate,
            remove: Vec::new(),
            remove_placement: Vec::new(),
            require: Vec::new(),
            prevent: Vec::new(),
            distinct: Vec::new(),
        };
        proof {
            lemma_pairs_of(dcv);
            assert(a@ =~= (ActionModel {
                subject: sv,
                verb: Verb::Kill,
                object: ov,
                decorate: seq![
                    (sv, Prop::Adj(Adjective::Murderer)),
                    (ov, Prop::Adj(Adjective::Dead)),
                ],
                remove: Seq::empty(),
                remove_placement: Seq::empty(),
                prevent: Seq::empty(),
                require: Seq::empty(),
                distinct: Seq::empty(),
            }));
        }
        a
    }

    /// Talks to the object: nothing changes beyond the recorded history.
    pub fn talk_to(self, object: Object) -> (a: Action)
        ensures
            a@ == (ActionModel {
                subject: self@,
                verb: Verb::Talk,
                object: object@,
                decorate: Seq::empty(),
                remove: Seq::empty(),
                remove_placement: Seq::empty(),
                prevent: Seq::empty(),
                require: Seq::empty(),
                distinct: Seq::empty(),
            }),
    {
        let ghost sv = self@;
        let ghost ov = object@;
        let a = Action::Do {
            subject: self,
            verb: Verb::Talk,
            object,
            decorate: Vec::new(),
            remove: Vec::new(),
            remove_placement: Vec::new(),
            require: Vec::new(),
            prevent: Vec::new(),
            distinct: Vec::new(),
        };
        proof {
            assert(a@ =~= (ActionModel {
                subject: sv,
                verb: Verb::Talk,
                object: ov,
                decorate: Seq::empty(),
                remove: Seq::empty(),
                remove_placement: Seq::empty(),
                prevent: Seq::empty(),
                require: Seq::empty(),
                distinct: Seq::empty(),
            }));
        }
        a
    }

    /// Opens the object, unless it is locked.
    pub fn opens(self, object: Object) -> (a: Action)
        ensures
            a@ == (ActionModel {
                subject: self@,
                verb: Verb::Open,
                object: object@,
                decorate: seq![
                    (object@, Prop::Adj(Adjective::Open)),
                ],
                remove: seq![
                    (object@, Prop::Adj(Adjective::Closed)),
                ],
                remove_placement: Seq::empty(),
                prevent: seq![
                    (object@, Prop::Adj(Adjective::Locked)),
                ],
                require: Seq::empty(),
                distinct: seq![self@, object@],
            }),
    {
        let ghost sv = self@;
        let ghost ov = object@;
        let decorate: Vec<(Object, Object)> = vec![
            (object.clone(), Object::from(Adjective::Open)),
        ];
        let ghost dcv = decorate@;
        let remove: Vec<(Object, Object)> = vec![
            (object.clone(), Object::from(Adjective::Closed)),
        ];
        let ghost rmv = remove@;
        let prevent: Vec<(Object, Object)> = vec![
            (object.clone(), Object::from(Adjective::Locked)),
        ];
        let ghost pvv = prevent@;
        let distinct: Vec<Object> = vec![self.clone(), object.clone()];
        let ghost dsv = distinct@;
        let a = Action::Do {
            subject: self,
            verb: Verb::Open,
            object: object,
            decorate,
            remove,
            remove_placement: Vec::new(),
            require: Vec::new(),
            prevent,
            distinct: distinct,
        };
        proof {
            lemma_pairs_of(dcv);
            lemma_pairs_of(rmv);
            lemma_pairs_of(pvv);
            lemma_props_of(dsv);
            assert(a@ =~= (ActionModel {
                subject: sv,
                verb: Verb::Open,
                object: ov,
                decorate: seq![
                    (ov, Prop::Adj(Adjective::Open)),
                ],
                remove: seq![
                    (ov, Prop::Adj(Adjective::Closed)),
                ],
                remove_placement: Seq::empty(),
                prevent: seq![
                    (ov, Prop::Adj(Adjective::Locked)),
                ],
                require: Seq::empty(),
                distinct: seq![sv, ov],
            }));
        }
        a
    }

    /// Closes the object.
    pub fn closes(self, object: Object) -> (a: Action)
        ensures
            a@ == (ActionModel {
                subject: self@,
                verb: Verb::Close,
                object: object@,
                decorate: seq![
                    (object@, Prop::Adj(Adjective::Closed)),
                ],
                remove: seq![
                    (object@, Prop::Adj(Adjective::Open)),
                ],
                remove_placement: Seq::empty(),
                prevent: Seq::empty(),
                require: Seq::empty(),
                distinct: seq![self@, object@],
            }),
    {
        let ghost sv = self@;
        let ghost ov = object@;
        let decorate: Vec<(Object, Object)> = vec![
            (object.clone(), Object::from(Adjective::Closed)),
        ];
        let ghost dcv = decorate@;
        let remove: Vec<(Object, Object)> = vec![
            (object.clone(), Object::from(Adjective::Open)),
        ];
        let ghost rmv = remove@;
        let distinct: Vec<Object> = vec![self.clone(), object.clone()];
        let ghost dsv = distinct@;
        let a = Action::Do {
            subject: self,
            verb: Verb::Close,
            object: object,
            decorate,
            remove,
            remove_placement: Vec::new(),
            require: Vec::new(),
            prevent: Vec::new(),
            distinct: distinct,
        };
        proof {
            lemma_pairs_of(dcv);
            lemma_pairs_of(rmv);
            lemma_props_of(dsv);
            assert(a@ =~= (ActionModel {
                subject: sv,
                verb: Verb::Close,
                object: ov,
                decorate: seq![
                    (ov, Prop::Adj(Adjective::Closed)),
                ],
                remove: seq![
                    (ov, Prop::Adj(Adjective::Open)),
                ],
                remove_placement: Seq::empty(),
                prevent: Seq::empty(),
                require: Seq::empty(),
                distinct: seq![sv, ov],
            }));
        }
        a
    }

    /// Walks through the object, unless it is closed.
    pub fn walks_through(self, object: Object) -> (a: Action)
        ensures
            a@ == (ActionModel {
                subject: self@,
                verb: Verb::WalkThrough,
                object: object@,
                decorate: Seq::empty(),
                remove: Seq::empty(),
                remove_placement: Seq::empty(),
                prevent: seq![
                    (object@, Prop::Adj(Adjective::Closed)),
                ],
                require: Seq::empty(),
                distinct: seq![self@, object@],
            }),
    {
        let ghost sv = self@;
        let ghost ov = object@;
        let prevent: Vec<(Object, Object)> = vec![
            (object.clone(), Object::from(Adjective::Closed)),
        ];
        let ghost pvv = prevent@;
        let distinct: Vec<Object> = vec![self.clone(), object.clone()];
        let ghost dsv = distinct@;
        let a = Action::Do {
            subject: self,
            verb: Verb::WalkThrough,
            object: object,
            decorate: Vec::new(),
            remove: Vec::new(),
            remove_placement: Vec::new(),
            require: Vec::new(),
            prevent,
            distinct: distinct,
        };
        proof {
            lemma_pairs_of(pvv);
            lemma_props_of(dsv);
            assert(a@ =~= (ActionModel {
                subject: sv,
                verb: Verb::WalkThrough,
                object: ov,
                decorate: Seq::empty(),
                remove: Seq::empty(),
                remove_placement: Seq::empty(),
                prevent: seq![
                    (ov, Prop::Adj(Adjective::Closed)),
                ],
                require: Seq::empty(),
                distinct: seq![sv, ov],
            }));
        }
        a
    }

    /// Locks the object, which also closes it.
    pub fn locks(self, object: Object) -> (a: Action)
        ensures
            a@ == (ActionModel {
                subject: self@,
                verb: Verb::Lock,
                object: object@,
                decorate: seq![
                    (object@, Prop::Adj(Adjective::Locked)),
                    (object@, Prop::Adj(Adjective::Closed)),
                ],
                remove: seq![
                    (object@, Prop::Adj(Adjective::Unlocked)),
                ],
                remove_placement: Seq::empty(),
                prevent: Seq::empty(),
                require: Seq::empty(),
                distinct: seq![self@, object@],
            }),
    {
        let ghost sv = self@;
        let ghost ov = object@;
        let decorate: Vec<(Object, Object)> = vec![
            (object.clone(), Object::from(Adjective::Locked)),
            (object.clone(), Object::from(Adjective::Closed)),
        ];
        let ghost dcv = decorate@;
        let remove: Vec<(Object, Object)> = vec![
            (object.clone(), Object::from(Adjective::Unlocked)),
        ];
        let ghost rmv = remove@;
        let distinct: Vec<Object> = vec![self.clone(), object.clone()];
        let ghost dsv = distinct@;
        let a = Action::Do {
            subject: self,
            verb: Verb::Lock,
            object: object,
            decorate,
            remove,
            remove_placement: Vec::new(),
            require: Vec::new(),
            prevent: Vec::new(),
            distinct: distinct,
        };
        proof {
            lemma_pairs_of(dcv);
            lemma_pairs_of(rmv);
            lemma_props_of(dsv);
            assert(a@ =~= (ActionModel {
                subject: sv,
                verb: Verb::Lock,
                object: ov,
                decorate: seq![
                    (ov, Prop::Adj(Adjective::Locked)),
                    (ov, Prop::Adj(Adjective::Closed)),
                ],
                remove: seq![
                    (ov, Prop::Adj(Adjective::Unlocked)),
                ],
                remove_placement: Seq::empty(),
                prevent: Seq::empty(),
                require: Seq::empty(),
                distinct: seq![sv, ov],
            }));
        }
        a
    }

    /// Unlocks the object; the subject must hold a matching key.
    pub fn unlocks(self, object: Object) -> (a: Action)
        ensures
            a@ == (ActionModel {
                subject: self@,
                verb: Verb::Unlock,
                object: object@,
                decorate: seq![
                    (object@, Prop::Adj(Adjective::Unlocked)),
                ],
                remove: seq![
                    (object@, Prop::Adj(Adjective::Locked)),
                ],
                remove_placement: Seq::empty(),
                prevent: Seq::empty(),
                require: seq![
                    (self@, Prop::Has(Box::new(Prop::KeyTo(Box::new(object@))))),
                ],
                distinct: seq![self@, object@],
            }),
    {
        let ghost sv = self@;
        let ghost ov = object@;
        let decorate: Vec<(Object, Object)> = vec![
            (object.clone(), Object::from(Adjective::Unlocked)),
        ];
        let ghost dcv = decorate@;
        let remove: Vec<(Object, Object)> = vec![
            (object.clone(), Object::from(Adjective::Locked)),
        ];
        let ghost rmv = remove@;
        let require: Vec<(Object, Object)> = vec![
            (self.clone(), has(key_to(object.clone()))),
        ];
        let ghost rqv = require@;
        let distinct: Vec<Object> = vec![self.clone(), object.clone()];
        let ghost dsv = distinct@;
        let a = Action::Do {
            subject: self,
            verb: Verb::Unlock,
            object: object,
            decorate,
            remove,
            remove_placement: Vec::new(),
            require,
            prevent: Vec::new(),
            distinct: distinct,
        };
        proof {
            lemma_pairs_of(dcv);
            lemma_pairs_of(rmv);
            lemma_pairs_of(rqv);
            lemma_props_of(dsv);
            assert(a@ =~= (ActionModel {
                subject: sv,
                verb: Verb::Unlock,
                object: ov,
                decorate: seq![
                    (ov, Prop::Adj(Adjective::Unlocked)),
                ],
                remove: seq![
                    (ov, Prop::Adj(Adjective::Locked)),
                ],
                remove_placement: Seq::empty(),
                prevent: Seq::empty(),
                require: seq![
                    (sv, Prop::Has(Box::new(Prop::KeyTo(Box::new(ov))))),
                ],
                distinct: seq![sv, ov],
            }));
        }
        a
    }

    /// Picks up the object: the subject gains it and its placement is cleared.
    pub fn picks_up(self, object: Object) -> (a: Action)
        ensures
            a@ == (ActionModel {
                subject: self@,
                verb: Verb::PickUp,
                object: object@,
                decorate: seq![
                    (self@, Prop::Has(Box::new(object@))),
                ],
                remove: seq![
                    (self@, Prop::HasNot(Box::new(object@))),
                ],
                remove_placement: seq![object@],
                prevent: Seq::empty(),
                require: Seq::empty(),
                distinct: seq![self@, object@],
            }),
    {
        let ghost sv = self@;
        let ghost ov = object@;
        let decorate: Vec<(Object, Object)> = vec![
            (self.clone(), has(object.clone())),
        ];
        let ghost dcv = decorate@;
        let remove: Vec<(Object, Object)> = vec![
            (self.clone(), has_not(object.clone())),
        ];
        let ghost rmv = remove@;
        let remove_placement: Vec<Object> = vec![object.clone()];
        let ghost rpv = remove_placement@;
        let distinct: Vec<Object> = vec![self.clone(), object.clone()];
        let ghost dsv = distinct@;
        let a = Action::Do {
            subject: self,
            verb: Verb::PickUp,
            object: object,
            decorate,
            remove,
            remove_placement: remove_placement,
            require: Vec::new(),
            prevent: Vec::new(),
            distinct: distinct,
        };
        proof {
            lemma_pairs_of(dcv);
            lemma_pairs_of(rmv);
            lemma_props_of(rpv);
            lemma_props_of(dsv);
            assert(a@ =~= (ActionModel {
                subject: sv,
                verb: Verb::PickUp,
                object: ov,
                decorate: seq![
                    (sv, Prop::Has(Box::new(ov))),
                ],
                remove: seq![
                    (sv, Prop::HasNot(Box::new(ov))),
                ],
                remove_placement: seq![ov],
                prevent: Seq::empty(),
                require: Seq::empty(),
                distinct: seq![sv, ov],
            }));
        }
        a
    }

    /// Carries the object: the subject gains it and its placement is cleared.
    pub fn carries(self, object: Object) -> (a: Action)
        ensures
            a@ == (ActionModel {
                subject: self@,
                verb: Verb::Carry,
                object: object@,
                decorate: seq![
                    (self@, Prop::Has(Box::new(object@))),
                ],
                remove: seq![
                    (self@, Prop::HasNot(Box::new(object@))),
                ],
                remove_placement: seq![object@],
                prevent: Seq::empty(),
                require: Seq::empty(),
                distinct: seq![self@, object@],
            }),
    {
        let ghost sv = self@;
        let ghost ov = object@;
        let decorate: Vec<(Object, Object)> = vec![
            (self.clone(), has(object.clone())),
        ];
        let ghost dcv = decorate@;
        let remove: Vec<(Object, Object)> = vec![
            (self.clone(), has_not(object.clone())),
        ];
        let ghost rmv = remove@;
        let remove_placement: Vec<Object> = vec![object.clone()];
        let ghost rpv = remove_placement@;
        let distinct: Vec<Object> = vec![self.clone(), object.clone()];
        let ghost dsv = distinct@;
        let a = Action::Do {
            subject: self,
            verb: Verb::Carry,
            object: object,
            decorate,
            remove,
            remove_placement: remove_placement,
            require: Vec::new(),
            prevent: Vec::new(),
            distinct: distinct,
        };
        proof {
            lemma_pairs_of(dcv);
            lemma_pairs_of(rmv);
            lemma_props_of(rpv);
            lemma_props_of(dsv);
            assert(a@ =~= (ActionModel {
                subject: sv,
                verb: Verb::Carry,
                object: ov,
                decorate: seq![
                    (sv, Prop::Has(Box::new(ov))),
                ],
                remove: seq![
                    (sv, Prop::HasNot(Box::new(ov))),
                ],
                remove_placement: seq![ov],
                prevent: Seq::empty(),
                require: Seq::empty(),
                distinct: seq![sv, ov],
            }));
        }
        a
    }

    /// Puts the object down: the subject no longer has it.
    pub fn puts_down(self, object: Object) -> (a: Action)
        ensures
            a@ == (ActionModel {
                subject: self@,
                verb: Verb::PutDown,
                object: object@,
                decorate: seq![
                    (self@, Prop::HasNot(Box::new(object@))),
                ],
                remove: seq![
                    (self@, Prop::Has(Box::new(object@))),
                ],
                remove_placement: Seq::empty(),
                prevent: Seq::empty(),
                require: Seq::empty(),
                distinct: seq![self@, object@],
            }),
    {
        let ghost sv = self@;
        let ghost ov = object@;
        let decorate: Vec<(Object, Object)> = vec![
            (self.clone(), has_not(object.clone())),
        ];
        let ghost dcv = decorate@;
        let remove: Vec<(Object, Object)> = vec![
            (self.clone(), has(object.clone())),
        ];
        let ghost rmv = remove@;
        let distinct: Vec<Object> = vec![self.clone(), object.clone()];
        let ghost dsv = distinct@;
        let a = Action::Do {
            subject: self,
            verb: Verb::PutDown,
            object: object,
            decorate,
            remove,
            remove_placement: Vec::new(),
            require: Vec::new(),
            prevent: Vec::new(),
            distinct: distinct,
        };
        proof {
            lemma_pairs_of(dcv);
            lemma_pairs_of(rmv);
            lemma_props_of(dsv);
            assert(a@ =~= (ActionModel {
                subject: sv,
                verb: Verb::PutDown,
                object: ov,
                decorate: seq![
                    (sv, Prop::HasNot(Box::new(ov))),
                ],
                remove: seq![
                    (sv, Prop::Has(Box::new(ov))),
                ],
                remove_placement: Seq::empty(),
                prevent: Seq::empty(),
                require: Seq::empty(),
                distinct: seq![sv, ov],
            }));
        }
        a
    }

    /// Stands the subject on the object.
    pub fn stands_on(self, object: Object) -> (a: Action)
        ensures
            a@ == (ActionModel {
                subject: self@,
                verb: Verb::StandOn,
                object: object@,
                decorate: seq![
                    (self@, Prop::Placement(PlaceKind::On, Box::new(object@))),
                ],
                remove: Seq::empty(),
                remove_placement: Seq::empty(),
                prevent: Seq::empty(),
                require: Seq::empty(),
                distinct: seq![self@, object@],
            }),
    {
        let ghost sv = self@;
        let ghost ov = object@;
        let decorate: Vec<(Object, Object)> = vec![
            (self.clone(), Object::from(on(object.clone()))),
        ];
        let ghost dcv = decorate@;
        let distinct: Vec<Object> = vec![self.clone(), object.clone()];
        let ghost dsv = distinct@;
        let a = Action::Do {
            subject: self,
            verb: Verb::StandOn,
            object: object,
            decorate,
            remove: Vec::new(),
            remove_placement: Vec::new(),
            require: Vec::new(),
            prevent: Vec::new(),
            distinct: distinct,
        };
        proof {
            lemma_pairs_of(dcv);
            lemma_props_of(dsv);
            assert(a@ =~= (ActionModel {
                subject: sv,
                verb: Verb::StandOn,
                object: ov,
                decorate: seq![
                    (sv, Prop::Placement(PlaceKind::On, Box::new(ov))),
                ],
                remove: Seq::empty(),
                remove_placement: Seq::empty(),
                prevent: Seq::empty(),
                require: Seq::empty(),
                distinct: seq![sv, ov],
            }));
        }
        a
    }

    /// Leans the subject toward the object.
    pub fn leans_toward(self, object: Object) -> (a: Action)
        ensures
            a@ == (ActionModel {
                subject: self@,
                verb: Verb::LeanToward,
                object: object@,
                decorate: seq![
                    (self@, Prop::Placement(PlaceKind::LeanToward, Box::new(object@))),
                ],
                remove: Seq::empty(),
                remove_placement: Seq::empty(),
                prevent: Seq::empty(),
                require: Seq::empty(),
                distinct: seq![self@, object@],
            }),
    {
        let ghost sv = self@;
        let ghost ov = object@;
        let decorate: Vec<(Object, Object)> = vec![
            (self.clone(), Object::from(lean_toward(object.clone()))),
        ];
        let ghost dcv = decorate@;
        let distinct: Vec<Object> = vec![self.clone(), object.clone()];
        let ghost dsv = distinct@;
        let a = Action::Do {
            subject: self,
            verb: Verb::LeanToward,
            object: object,
            decorate,
            remove: Vec::new(),
            remove_placement: Vec::new(),
            require: Vec::new(),
            prevent: Vec::new(),
            distinct: distinct,
        };
        proof {
            lemma_pairs_of(dcv);
            lemma_props_of(dsv);
            assert(a@ =~= (ActionModel {
                subject: sv,
                verb: Verb::LeanToward,
                object: ov,
                decorate: seq![
                    (sv, Prop::Placement(PlaceKind::LeanToward, Box::new(ov))),
                ],
                remove: Seq::empty(),
                remove_placement: Seq::empty(),
                prevent: Seq::empty(),
                require: Seq::empty(),
                distinct: seq![sv, ov],
            }));
        }
        a
    }

    /// Sleeps in the object: the subject ends up inside it.
    pub fn sleeps_in(self, object: Object) -> (a: Action)
        ensures
            a@ == (ActionModel {
                subject: self@,
                verb: Verb::SleepIn,
                object: object@,
                decorate: seq![
                    (self@, Prop::Placement(PlaceKind::In, Box::new(object@))),
                ],
                remove: Seq::empty(),
                remove_placement: Seq::empty(),
                prevent: Seq::empty(),
                require: Seq::empty(),
                distinct: seq![self@, object@],
            }),
    {
        let ghost sv = self@;
        let ghost ov = object@;
        let decorate: Vec<(Object, Object)> = vec![
            (self.clone(), Object::from(in_(object.clone()))),
        ];
        let ghost dcv = decorate@;
        let distinct: Vec<Object> = vec![self.clone(), object.clone()];
        let ghost dsv = distinct@;
        let a = Action::Do {
            subject: self,
            verb: Verb::SleepIn,
            object: object,
            decorate,
            remove: Vec::new(),
            remove_placement: Vec::new(),
            require: Vec::new(),
            prevent: Vec::new(),
            distinct: distinct,
        };
        proof {
            lemma_pairs_of(dcv);
            lemma_props_of(dsv);
            assert(a@ =~= (ActionModel {
                subject: sv,
                verb: Verb::SleepIn,
                object: ov,
                decorate: seq![
                    (sv, Prop::Placement(PlaceKind::In, Box::new(ov))),
                ],
                remove: Seq::empty(),
                remove_placement: Seq::empty(),
                prevent: Seq::empty(),
                require: Seq::empty(),
                distinct: seq![sv, ov],
            }));
        }
        a
    }

    /// Wakes up in the object: the subject is inside it.
    pub fn wakes_up_in(self, object: Object) -> (a: Action)
        ensures
            a@ == (ActionModel {
                subject: self@,
                verb: Verb::WakeUpIn,
                object: object@,
                decorate: seq![
                    (self@, Prop::Placement(PlaceKind::In, Box::new(object@))),
                ],
                remove: Seq::empty(),
                remove_placement: Seq::empty(),
                prevent: Seq::empty(),
                require: Seq::empty(),
                distinct: seq![self@, object@],
            }),
    {
        let ghost sv = self@;
        let ghost ov = object@;
        let decorate: Vec<(Object, Object)> = vec![
            (self.clone(), Object::from(in_(object.clone()))),
        ];
        let ghost dcv = decorate@;
        let distinct: Vec<Object> = vec![self.clone(), object.clone()];
        let ghost dsv = distinct@;
        let a = Action::Do {
            subject: self,
            verb: Verb::WakeUpIn,
            object: object,
            decorate,
            remove: Vec::new(),
            remove_placement: Vec::new(),
            require: Vec::new(),
            prevent: Vec::new(),
            distinct: distinct,
        };
        proof {
            lemma_pairs_of(dcv);
            lemma_props_of(dsv);
            assert(a@ =~= (ActionModel {
                subject: sv,
                verb: Verb::WakeUpIn,
                object: ov,
                decorate: seq![
                    (sv, Prop::Placement(PlaceKind::In, Box::new(ov))),
                ],
                remove: Seq::empty(),
                remove_placement: Seq::empty(),
                prevent: Seq::empty(),
                require: Seq::empty(),
                distinct: seq![sv, ov],
            }));
        }
        a
    }

    /// Climbs via the object to some place: the subject loses its old
    /// placement and gains the new one; subject, object and place must be
    /// distinct.
    pub fn climbs_to(self, object: Object, place: Placement) -> (a: Action)
        ensures
            a@ == (ActionModel {
                subject: self@,
                verb: Verb::Climb,
                object: object@,
                decorate: seq![(self@, place@)],
                remove: Seq::empty(),
                remove_placement: seq![self@],
                prevent: Seq::empty(),
                require: Seq::empty(),
                distinct: seq![self@, object@, place@],
            }),
    {
        let ghost sv = self@;
        let ghost ov = object@;
        let ghost pv = place@;
        let decorate: Vec<(Object, Object)> = vec![(self.clone(), Object::from(place.clone()))];
        let ghost dcv = decorate@;
        let remove_placement: Vec<Object> = vec![self.clone()];
        let ghost rpv = remove_placement@;
        let distinct: Vec<Object> = vec![self.clone(), object.clone(), Object::from(place)];
        let ghost dsv = distinct@;
        let a = Action::Do {
            subject: self,
            verb: Verb::Climb,
            object,
            decorate,
            remove: Vec::new(),
            remove_placement,
            require: Vec::new(),
            prevent: Vec::new(),
            distinct,
        };
        proof {
            lemma_pairs_of(dcv);
            lemma_props_of(rpv);
            lemma_props_of(dsv);
            assert(a@ =~= (ActionModel {
                subject: sv,
                verb: Verb::Climb,
                object: ov,
                decorate: seq![(sv, pv)],
                remove: Seq::empty(),
                remove_placement: seq![sv],
                prevent: Seq::empty(),
                require: Seq::empty(),
                distinct: seq![sv, ov, pv],
            }));
        }
        a
    }

    /// Climbs out of the object.
    pub fn climbs_out_of(self, object: Object) -> (a: Action)
        ensures
            a@ == (ActionModel {
                subject: self@,
                verb: Verb::Climb,
                object: object@,
                decorate: seq![(self@, Prop::Placement(PlaceKind::OutOf, Box::new(object@)))],
                remove: Seq::empty(),
                remove_placement: seq![self@],
                prevent: Seq::empty(),
                require: Seq::empty(),
                distinct: seq![
                    self@,
                    object@,
                    Prop::Placement(PlaceKind::OutOf, Box::new(object@)),
                ],
            }),
    {
        self.climbs_to(object.clone(), out_of(object))
    }

    /// Climbs into the object.
    pub fn climbs_into(self, object: Object) -> (a: Action)
        ensures
            a@ == (ActionModel {
                subject: self@,
                verb: Verb::Climb,
                object: object@,
                decorate: seq![(self@, Prop::Placement(PlaceKind::In, Box::new(object@)))],
                remove: Seq::empty(),
                remove_placement: seq![self@],
                prevent: Seq::empty(),
                require: Seq::empty(),
                distinct: seq![
                    self@,
                    object@,
                    Prop::Placement(PlaceKind::In, Box::new(object@)),
                ],
            }),
    {
        self.climbs_to(object.clone(), in_(object))
    }

    /// Plays a game against an opponent: both parties become opponents of
    /// each other; subject, game and opponent must be distinct.
    pub fn plays_against(self, game: Object, opponent: Object) -> (a: Action)
        ensures
            a@ == (ActionModel {
                subject: self@,
                verb: Verb::Play,
                object: game@,
                decorate: seq![
                    (self@, Prop::Role(RoleKind::OpponentOf, Box::new(opponent@))),
                    (opponent@, Prop::Role(RoleKind::OpponentOf, Box::new(self@))),
                ],
                remove: Seq::empty(),
                remove_placement: Seq::empty(),
                prevent: Seq::empty(),
                require: Seq::empty(),
                distinct: seq![self@, game@, opponent@],
            }),
    {
        let ghost sv = self@;
        let ghost gv = game@;
        let ghost ov = opponent@;
        let decorate: Vec<(Object, Object)> = vec![
            (self.clone(), Object::from(opponent_of(opponent.clone()))),
            (opponent.clone(), Object::from(opponent_of(self.clone()))),
        ];
        let ghost dcv = decorate@;
        let distinct: Vec<Object> = vec![self.clone(), game.clone(), opponent];
        let ghost dsv = distinct@;
        let a = Action::Do {
            subject: self,
            verb: Verb::Play,
            object: game,
            decorate,
            remove: Vec::new(),
            remove_placement: Vec::new(),
            require: Vec::new(),
            prevent: Vec::new(),
            distinct,
        };
        proof {
            lemma_pairs_of(dcv);
            lemma_props_of(dsv);
            assert(a@ =~= (ActionModel {
                subject: sv,
                verb: Verb::Play,
                object: gv,
                decorate: seq![
                    (sv, Prop::Role(RoleKind::OpponentOf, Box::new(ov))),
                    (ov, Prop::Role(RoleKind::OpponentOf, Box::new(sv))),
                ],
                remove: Seq::empty(),
                remove_placement: Seq::empty(),
                prevent: Seq::empty(),
                require: Seq::empty(),
                distinct: seq![sv, gv, ov],
            }));
        }
        a
    }
}

} // verus!
