use vstd::prelude::*;

use crate::model::{
    action_allowed, apply_action, apply_decorates, apply_removes, apply_remove_placements,
    distinct_ok, gate_pair_holds, lemma_matching_indices_bounds, lemma_no_duplicates_prefix,
    lemma_resolved_indices_prefix, matching_indices, prevent_triggered, record_history, require_ok,
    resolved_index, resolved_indices, resolves, spec_push, spec_remove, spec_remove_placement,
    ActionModel, Prop,
};
use crate::object::{lemma_props_of, prop_of, props_of, Object};
use crate::verb::Verb;

verus! {

/// A declarative action: gating conditions plus mutations, all addressed by
/// entity patterns that are resolved against the room at execution time.
pub enum Action {
    /// Do something.
    Do {
        /// The subject.
        subject: Object,
        /// The verb.
        verb: Verb,
        /// The object.
        object: Object,
        /// Decorate with new properties.
        decorate: Vec<(Object, Object)>,
        /// Remove properties.
        remove: Vec<(Object, Object)>,
        /// Remove placement properties.
        remove_placement: Vec<Object>,
        /// Properties that prevent the action from happening.
        prevent: Vec<(Object, Object)>,
        /// Required properties for the action to happen.
        require: Vec<(Object, Object)>,
        /// A group of distinct objects in order for the action to work at all.
        distinct: Vec<Object>,
    },
}

/// The models of a list of (pattern, property) instruction pairs, in order.
pub open spec fn pairs_of(s: Seq<(Object, Object)>) -> Seq<(Prop, Prop)>
    decreases s,
{
    if s.len() == 0 {
        Seq::empty()
    } else {
        pairs_of(s.drop_last()).push(
            (prop_of(s[s.len() - 1].0), prop_of(s[s.len() - 1].1)),
        )
    }
}

/// The length and elements of `pairs_of` follow the input pointwise.
pub broadcast proof fn lemma_pairs_of(s: Seq<(Object, Object)>)
    ensures
        (#[trigger] pairs_of(s)).len() == s.len(),
        forall|i: int|
            0 <= i < s.len() ==> pairs_of(s)[i] == (prop_of(s[i].0), prop_of(s[i].1)),
    decreases s.len(),
{
    if s.len() > 0 {
        lemma_pairs_of(s.drop_last());
    }
}

impl View for Action {
    type V = crate::model::ActionModel;

    open spec fn view(&self) -> crate::model::ActionModel {
        match self {
            Action::Do {
                subject,
                verb,
                object,
                decorate,
                remove,
                remove_placement,
                prevent,
                require,
                distinct,
            } => crate::model::ActionModel {
                subject: prop_of(*subject),
                verb: *verb,
                object: prop_of(*object),
                decorate: pairs_of(decorate@),
                remove: pairs_of(remove@),
                remove_placement: props_of(remove_placement@),
                prevent: pairs_of(prevent@),
                require: pairs_of(require@),
                distinct: props_of(distinct@),
            },
        }
    }
}

/// The entity store: an ordered collection of entities, each holding one
/// property expression that records everything currently known about it.
pub struct Room {
    /// The entities, in creation order. Entities are never added or removed
    /// after construction; only their property expressions change.
    pub objects: Vec<Object>,
}

impl View for Room {
    type V = Seq<Prop>;

    open spec fn view(&self) -> Seq<Prop> {
        props_of(self.objects@)
    }
}

impl Room {
    /// Creates a new room with objects.
    pub fn new(objects: Vec<Object>) -> (r: Room)
        ensures
            r.objects@ == objects@,
            r@ == props_of(objects@),
    {
        Room { objects }
    }

    /// Pushes a property onto the entity at the given index.
    fn entity_push(&mut self, ind: usize, prop: Object)
        requires
            ind < old(self).objects@.len(),
        ensures
            final(self)@ == old(self)@.update(
                ind as int,
                spec_push(old(self)@[ind as int], prop@),
            ),
            final(self).objects@.len() == old(self).objects@.len(),
    {
        proof {
            lemma_props_of(self.objects@);
        }
        let ghost before = self.objects@;
        self.objects[ind].push(prop);
        proof {
            lemma_props_of(self.objects@);
            assert(props_of(self.objects@) =~= props_of(before).update(
                ind as int,
                spec_push(prop_of(before[ind as int]), prop@),
            ));
        }
    }

    /// Strips every conjunct that the pattern matches from the entity at the
    /// given index.
    fn entity_remove(&mut self, ind: usize, pat: &Object)
        requires
            ind < old(self).objects@.len(),
        ensures
            final(self)@ == old(self)@.update(
                ind as int,
                spec_remove(old(self)@[ind as int], pat@),
            ),
            final(self).objects@.len() == old(self).objects@.len(),
    {
        proof {
            lemma_props_of(self.objects@);
        }
        let ghost before = self.objects@;
        self.objects[ind].remove(pat);
        proof {
            lemma_props_of(self.objects@);
            assert(props_of(self.objects@) =~= props_of(before).update(
                ind as int,
                spec_remove(prop_of(before[ind as int]), pat@),
            ));
        }
    }

    /// Strips every placement conjunct from the entity at the given index.
    fn entity_remove_placement(&mut self, ind: usize)
        requires
            ind < old(self).objects@.len(),
        ensures
            final(self)@ == old(self)@.update(
                ind as int,
                spec_remove_placement(old(self)@[ind as int]),
            ),
            final(self).objects@.len() == old(self).objects@.len(),
    {
        proof {
            lemma_props_of(self.objects@);
        }
        let ghost before = self.objects@;
        self.objects[ind].remove_placement();
        proof {
            lemma_props_of(self.objects@);
            assert(props_of(self.objects@) =~= props_of(before).update(
                ind as int,
                spec_remove_placement(prop_of(before[ind as int])),
            ));
        }
    }

    /// Finds an object in the room by pattern.
    ///
    /// Returns `Ok` with the index of the unique entity that matches the
    /// pattern. When no entity or more than one matches, returns `Err` with
    /// every matching index in increasing order: absence and ambiguity share
    /// one failure channel, and a caller who cares which it was inspects the
    /// length of the list.
    #[verifier::loop_isolation(false)]
    pub fn find(&self, obj: &Object) -> (r: Result<usize, Vec<usize>>)
        ensures
            match r {
                Ok(i) => matching_indices(self@, obj@) == seq![i as int],
                Err(v) => {
                    &&& v@.map_values(|u: usize| u as int) == matching_indices(self@, obj@)
                    &&& matching_indices(self@, obj@).len() != 1
                },
            },
    {
        let mut res: Vec<usize> = Vec::new();
        let n = self.objects.len();
        let mut i: usize = 0;
        proof {
            lemma_props_of(self.objects@);
        }
        while i < n
            invariant
                n == self.objects@.len(),
                i <= n,
                res@.map_values(|u: usize| u as int) == matching_indices(
                    self@.take(i as int),
                    obj@,
                ),
                forall|k: int| 0 <= k < res@.len() ==> res@[k] < i,
            decreases n - i,
        {
            proof {
                assert(self@.take(i as int + 1).drop_last() =~= self@.take(i as int));
                assert(self@.take(i as int + 1).last() == prop_of(self.objects@[i as int]));
            }
            if self.objects[i].matches(obj) {
                res.push(i);
                proof {
                    assert(res@.map_values(|u: usize| u as int) =~= matching_indices(
                        self@.take(i as int + 1),
                        obj@,
                    ));
                }
            } else {
                proof {
                    assert(res@.map_values(|u: usize| u as int) =~= matching_indices(
                        self@.take(i as int + 1),
                        obj@,
                    ));
                }
            }
            i += 1;
        }
        proof {
            assert(self@.take(n as int) =~= self@);
        }
        if res.len() == 1 {
            let ix = res[0];
            proof {
                assert(matching_indices(self@, obj@) =~= seq![ix as int]);
            }
            Ok(ix)
        } else {
            Err(res)
        }
    }
}


impl Room {
    /// Executes an action in the room as an ordered transaction.
    ///
    /// The subject and object patterns must resolve; the `distinct` patterns
    /// that resolve must be pairwise different; every `require` pair must
    /// resolve and match; no `prevent` pair may resolve and match. Any gate
    /// failure returns `Err` with the room untouched. Once gating passes the
    /// mutations are unconditional: removals, then placement removals, then
    /// decorations, each resolved against the room as already mutated, and
    /// finally the transaction itself is recorded as history facts on the
    /// subject and object entities.
    #[verifier::loop_isolation(false)]
    #[verifier::rlimit(100)]
    pub fn action(&mut self, action: &Action) -> (r: Result<(), ()>)
        ensures
            r is Ok <==> action_allowed(old(self)@, action@),
            r is Ok ==> final(self)@ == apply_action(old(self)@, action@),
            r is Err ==> final(self)@ == old(self)@,
            final(self).objects@.len() == old(self).objects@.len(),
    {
        match action {
            Action::Do {
                subject,
                verb,
                object,
                decorate,
                remove,
                remove_placement,
                prevent,
                require,
                distinct,
            } => {
                let ghost room0 = self@;
                let ghost am = action@;
                proof {
                    lemma_props_of(self.objects@);
                }
                let sub_found = self.find(subject);
                let obj_found = self.find(object);
                let sub_ix: usize;
                let obj_ix: usize;
                match (sub_found, obj_found) {
                    (Ok(sa), Ok(ob)) => {
                        sub_ix = sa;
                        obj_ix = ob;
                    },
                    _ => {
                        return Err(());
                    },
                }
                proof {
                    assert(resolves(room0, am.subject));
                    assert(resolved_index(room0, am.subject) == sub_ix as int);
                    assert(resolves(room0, am.object));
                    assert(resolved_index(room0, am.object) == obj_ix as int);
                    lemma_matching_indices_bounds(room0, am.subject);
                    lemma_matching_indices_bounds(room0, am.object);
                }

                // Distinctness gate: collect the indices the patterns
                // resolve to and fail on the first repetition.
                let ghost dprops = props_of(distinct@);
                proof {
                    lemma_props_of(distinct@);
                }
                let mut ids: Vec<usize> = Vec::new();
                let n_d = distinct.len();
                let mut k: usize = 0;
                while k < n_d
                    invariant
                        self@ == room0,
                        self.objects@.len() == old(self).objects@.len(),
                        k <= n_d,
                        ids@.map_values(|u: usize| u as int) == resolved_indices(
                            room0,
                            dprops.take(k as int),
                        ),
                        resolved_indices(room0, dprops.take(k as int)).no_duplicates(),
                    decreases n_d - k,
                {
                    proof {
                        assert(dprops.take(k as int + 1).drop_last() =~= dprops.take(k as int));
                        assert(dprops.take(k as int + 1).last() == prop_of(distinct@[k as int]));
                    }
                    match self.find(&distinct[k]) {
                        Ok(ind) => {
                            let n_m = ids.len();
                            let mut m: usize = 0;
                            while m < n_m
                                invariant
                                    m <= n_m,
                                    n_m == ids@.len(),
                                    forall|j: int| 0 <= j < m ==> ids@[j] != ind,
                                decreases n_m - m,
                            {
                                if ids[m] == ind {
                                    proof {
                                        let taken = resolved_indices(
                                            room0,
                                            dprops.take(k as int + 1),
                                        );
                                        assert(taken == resolved_indices(
                                            room0,
                                            dprops.take(k as int),
                                        ).push(ind as int));
                                        assert(taken[m as int] == ind as int);
                                        assert(taken[taken.len() - 1] == ind as int);
                                        assert(!taken.no_duplicates());
                                        lemma_resolved_indices_prefix(
                                            room0,
                                            dprops,
                                            k as int + 1,
                                        );
                                        if distinct_ok(room0, dprops) {
                                            lemma_no_duplicates_prefix(
                                                taken,
                                                resolved_indices(room0, dprops),
                                            );
                                        }
                                    }
                                    return Err(());
                                }
                                m += 1;
                            }
                            ids.push(ind);
                            proof {
                                assert(ids@.map_values(|u: usize| u as int) =~= resolved_indices(
                                    room0,
                                    dprops.take(k as int + 1),
                                ));
                            }
                        },
                        Err(_) => {},
                    }
                    k += 1;
                }
                proof {
                    assert(dprops.take(n_d as int) =~= dprops);
                    assert(distinct_ok(room0, am.distinct));
                }

                // Requirement gate: every pair must resolve and match.
                let ghost rprops = pairs_of(require@);
                proof {
                    lemma_pairs_of(require@);
                }
                let n_r = require.len();
                let mut k: usize = 0;
                while k < n_r
                    invariant
                        self@ == room0,
                        self.objects@.len() == old(self).objects@.len(),
                        k <= n_r,
                        forall|j: int| 0 <= j < k ==> gate_pair_holds(room0, #[trigger] rprops[j]),
                    decreases n_r - k,
                {
                    let pr = &require[k];
                    let holds = match self.find(&pr.0) {
                        Ok(ind) => {
                            proof {
                                lemma_matching_indices_bounds(room0, prop_of(pr.0));
                                lemma_props_of(self.objects@);
                                assert(matching_indices(room0, prop_of(pr.0))[0] == ind as int);
                                assert(ind < self.objects@.len());
                            }
                            self.objects[ind].matches(&pr.1)
                        },
                        Err(_) => false,
                    };
                    if !holds {
                        proof {
                            assert(!gate_pair_holds(room0, rprops[k as int]));
                            assert(!require_ok(room0, am.require));
                        }
                        return Err(());
                    }
                    k += 1;
                }
                proof {
                    assert(require_ok(room0, am.require));
                }

                // Prevention gate: no pair may resolve and match.
                let ghost pprops = pairs_of(prevent@);
                proof {
                    lemma_pairs_of(prevent@);
                }
                let n_p = prevent.len();
                let mut k: usize = 0;
                while k < n_p
                    invariant
                        self@ == room0,
                        self.objects@.len() == old(self).objects@.len(),
                        k <= n_p,
                        forall|j: int| 0 <= j < k ==> !gate_pair_holds(room0, #[trigger] pprops[j]),
                    decreases n_p - k,
                {
                    let pr = &prevent[k];
                    let holds = match self.find(&pr.0) {
                        Ok(ind) => {
                            proof {
                                lemma_matching_indices_bounds(room0, prop_of(pr.0));
                                lemma_props_of(self.objects@);
                                assert(matching_indices(room0, prop_of(pr.0))[0] == ind as int);
                                assert(ind < self.objects@.len());
                            }
                            self.objects[ind].matches(&pr.1)
                        },
                        Err(_) => false,
                    };
                    if holds {
                        proof {
                            assert(gate_pair_holds(room0, pprops[k as int]));
                            assert(prevent_triggered(room0, am.prevent));
                        }
                        return Err(());
                    }
                    k += 1;
                }
                proof {
                    assert(!prevent_triggered(room0, am.prevent));
                    assert(action_allowed(room0, am));
                }

                // Gating complete: from here the action cannot fail.
                // Removals first, so that a property stripped by this action
                // never erases one freshly decorated by it.
                let ghost rmpairs = pairs_of(remove@);
                proof {
                    lemma_pairs_of(remove@);
                }
                let n_rm = remove.len();
                let mut k: usize = 0;
                while k < n_rm
                    invariant
                        self.objects@.len() == old(self).objects@.len(),
                        k <= n_rm,
                        self@ == apply_removes(room0, rmpairs.take(k as int)),
                    decreases n_rm - k,
                {
                    proof {
                        assert(rmpairs.take(k as int + 1).drop_last() =~= rmpairs.take(k as int));
                        assert(rmpairs.take(k as int + 1).last() == rmpairs[k as int]);
                        lemma_props_of(self.objects@);
                    }
                    let pr = &remove[k];
                    match self.find(&pr.0) {
                        Ok(ind) => {
                            proof {
                                lemma_matching_indices_bounds(self@, prop_of(pr.0));
                                assert(matching_indices(self@, prop_of(pr.0))[0] == ind as int);
                                assert(ind < self.objects@.len());
                            }
                            self.entity_remove(ind, &pr.1);
                        },
                        Err(_) => {},
                    }
                    k += 1;
                }
                proof {
                    assert(rmpairs.take(n_rm as int) =~= rmpairs);
                }
                let ghost room1 = apply_removes(room0, am.remove);

                // Placement removals.
                let ghost rpprops = props_of(remove_placement@);
                proof {
                    lemma_props_of(remove_placement@);
                }
                let n_rp = remove_placement.len();
                let mut k: usize = 0;
                while k < n_rp
                    invariant
                        self.objects@.len() == old(self).objects@.len(),
                        k <= n_rp,
                        self@ == apply_remove_placements(room1, rpprops.take(k as int)),
                    decreases n_rp - k,
                {
                    proof {
                        assert(rpprops.take(k as int + 1).drop_last() =~= rpprops.take(k as int));
                        assert(rpprops.take(k as int + 1).last() == prop_of(
                            remove_placement@[k as int],
                        ));
                        lemma_props_of(self.objects@);
                    }
                    match self.find(&remove_placement[k]) {
                        Ok(ind) => {
                            proof {
                                lemma_matching_indices_bounds(
                                    self@,
                                    prop_of(remove_placement@[k as int]),
                                );
                                assert(matching_indices(self@, prop_of(remove_placement@[k as int]))[0]
                                    == ind as int);
                                assert(ind < self.objects@.len());
                            }
                            self.entity_remove_placement(ind);
                        },
                        Err(_) => {},
                    }
                    k += 1;
                }
                proof {
                    assert(rpprops.take(n_rp as int) =~= rpprops);
                }
                let ghost room2 = apply_remove_placements(room1, am.remove_placement);

                // Decorations.
                let ghost dcpairs = pairs_of(decorate@);
                proof {
                    lemma_pairs_of(decorate@);
                }
                let n_dc = decorate.len();
                let mut k: usize = 0;
                while k < n_dc
                    invariant
                        self.objects@.len() == old(self).objects@.len(),
                        k <= n_dc,
                        self@ == apply_decorates(room2, dcpairs.take(k as int)),
                    decreases n_dc - k,
                {
                    proof {
                        assert(dcpairs.take(k as int + 1).drop_last() =~= dcpairs.take(k as int));
                        assert(dcpairs.take(k as int + 1).last() == dcpairs[k as int]);
                        lemma_props_of(self.objects@);
                    }
                    let pr = &decorate[k];
                    match self.find(&pr.0) {
                        Ok(ind) => {
                            proof {
                                lemma_matching_indices_bounds(self@, prop_of(pr.0));
                                assert(matching_indices(self@, prop_of(pr.0))[0] == ind as int);
                                assert(ind < self.objects@.len());
                            }
                            self.entity_push(ind, pr.1.clone());
                        },
                        Err(_) => {},
                    }
                    k += 1;
                }
                proof {
                    assert(dcpairs.take(n_dc as int) =~= dcpairs);
                }

                // Record the transaction on the subject and object entities,
                // as resolved against the original room.
                self.entity_push(sub_ix, Object::DidTo(*verb, Box::new(object.clone())));
                self.entity_push(obj_ix, Object::WasBy(*verb, Box::new(subject.clone())));
                proof {
                    assert(final(self)@ == record_history(
                        apply_decorates(room2, am.decorate),
                        sub_ix as int,
                        obj_ix as int,
                        am.verb,
                        am.subject,
                        am.object,
                    ));
                    assert(final(self)@ == apply_action(room0, am));
                }
                Ok(())
            },
        }
    }
}

} // verus!
