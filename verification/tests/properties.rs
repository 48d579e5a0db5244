use room::Adjective::{Closed, Dead, Locked, Open};
use room::Object::{And, He, It, She, That};
use room::{called, has, killed, lean_toward, of_type, on, opponent_of, out_of, Object, Room};

/// A conjunction pattern means "all of": the subject must match every
/// element, and one failing element fails the whole pattern.
#[test]
fn conjunction_pattern_needs_every_element() {
    let subject = And(vec![He, called("Peter"), Dead.into()]);
    assert!(subject.matches(&And(vec![He, called("Peter")])));
    assert!(subject.matches(&And(vec![Dead.into(), He])));
    assert!(!subject.matches(&And(vec![He, called("John")])));
    assert!(!subject.matches(&And(vec![She, called("Peter")])));
    // The empty conjunction asks for nothing, so anything matches it.
    assert!(He.matches(&And(vec![])));
    assert!(And(vec![]).matches(&And(vec![])));
}

/// A conjunction subject means "any of" against a non-conjunction pattern:
/// one matching element is enough, and no matching element means failure.
#[test]
fn conjunction_subject_needs_one_element() {
    let subject = And(vec![He, called("Peter")]);
    assert!(subject.matches(&He));
    assert!(subject.matches(&called("Peter")));
    assert!(!subject.matches(&She));
    assert!(!subject.matches(&called("John")));
    // The empty conjunction offers nothing, so it matches no atom.
    assert!(!And(vec![]).matches(&He));
}

/// Different variant kinds never match, and nested patterns are compared
/// recursively.
#[test]
fn kind_discipline() {
    assert!(!He.matches(&She));
    assert!(!called("door").matches(&of_type("door")));
    assert!(!has(It).matches(&It));
    let p: Object = on(It).into();
    let q: Object = lean_toward(It).into();
    assert!(!p.matches(&q));
    let r: Object = on(And(vec![])).into();
    assert!(p.matches(&r));
    assert!(!killed(It).matches(&killed(That)));
    let ro: Object = opponent_of(It).into();
    assert!(ro.matches(&opponent_of(It).into()));
}

/// Pushing a property that is already implied changes nothing, and pushing
/// the same property twice never grows the conjunction.
#[test]
fn push_is_idempotent() {
    // An implied property on an atom leaves the atom alone.
    let mut subject = He;
    subject.push(He);
    assert!(matches!(subject, He));

    // Pushing the same fresh property twice adds it once.
    let mut subject = He;
    subject.push(called("Peter"));
    subject.push(called("Peter"));
    match &subject {
        And(list) => assert_eq!(list.len(), 2),
        _ => panic!("expected a conjunction"),
    }
    assert!(subject.matches(&And(vec![He, called("Peter")])));

    // A property one element already matches is never duplicated.
    subject.push(He);
    match &subject {
        And(list) => assert_eq!(list.len(), 2),
        _ => panic!("expected a conjunction"),
    }
}

/// Removing placements strips every placement conjunct, of any sub-kind,
/// and nothing else; a bare atom is left unchanged.
#[test]
fn remove_placement_strips_only_placements() {
    let mut subject = He;
    subject.push(on(It).into());
    subject.push(called("Peter"));
    subject.push(out_of(That).into());
    assert!(subject.is_on(It));
    assert!(subject.is_out_of(That));
    subject.remove_placement();
    assert!(!subject.is_on(It));
    assert!(!subject.is_out_of(That));
    assert!(subject.matches(&And(vec![He, called("Peter")])));
    match &subject {
        And(list) => assert_eq!(list.len(), 2),
        _ => panic!("expected a conjunction"),
    }

    // No-op on a non-conjunction, even a placement itself.
    let mut atom: Object = on(It).into();
    atom.remove_placement();
    assert!(atom.matches(&on(It).into()));
}

/// Removal checks the pattern against the element, not the element against
/// the pattern.
#[test]
fn remove_is_pattern_directed() {
    let mut subject = He;
    subject.push(has(key_pattern()));
    assert!(subject.has(key_pattern()));
    subject.remove(&has(key_pattern()));
    assert!(!subject.has(key_pattern()));
    assert!(subject.matches(&He));
}

fn key_pattern() -> Object {
    room::key_to(of_type("door"))
}

/// `find` returns the unique index exactly when one entity matches, and
/// otherwise every matching index in order — possibly none.
#[test]
fn find_unique_or_every_match() {
    let room = Room::new(vec![He, It, He]);
    assert_eq!(room.find(&It), Ok(1));
    assert_eq!(room.find(&He), Err(vec![0, 2]));
    assert_eq!(room.find(&She), Err(vec![]));
}

/// An ambiguous subject or object makes the whole action fail with no
/// mutation.
#[test]
fn ambiguous_resolution_fails_action() {
    let mut room = Room::new(vec![He, He, It]);
    assert!(room.action(&He.talk_to(It)).is_err());
    assert!(!room.objects[2].was_talked_to_by(He));

    // An absent object fails the same way.
    let mut room = Room::new(vec![He, It]);
    assert!(room.action(&He.talk_to(She)).is_err());
}

/// A failed gate leaves the room exactly as it was: opening a locked door
/// neither opens it nor records any history.
#[test]
fn failed_action_mutates_nothing() {
    let mut room = Room::new(vec![And(vec![of_type("door"), Closed.into(), Locked.into()]), He]);
    assert!(room.action(&He.opens(of_type("door"))).is_err());
    assert!(room.objects[0].matches(&Closed.into()));
    assert!(!room.objects[0].matches(&Open.into()));
    assert!(!room.objects[1].matches(&room::Object::DidTo(
        room::Verb::Open,
        Box::new(of_type("door")),
    )));
}

/// Entities referenced through placement are re-resolved on demand: a
/// history fact can name an entity by what it did.
#[test]
fn patterns_resolve_freshly() {
    let mut room = Room::new(vec![called("Peter"), called("John")]);
    room.action(&called("Peter").kills(called("John"))).unwrap();
    // Address Peter by the deed, not the name.
    let mut room2 = Room::new(room.objects);
    assert_eq!(room2.find(&killed(called("John"))), Ok(0));
    room2.action(&killed(called("John")).talk_to(called("John"))).unwrap();
    assert!(room2.objects[0].talked_to(called("John")));
}

/// The alias builders and direct relation queries agree with the primary
/// surface: giving via `gives_to`, the lock/close history helpers, the
/// `killed_by` pattern, and the placement and role relations themselves.
#[test]
fn aliases_and_relations() {
    let she = 1;
    let mut room = Room::new(vec![He, She, It]);
    room.action(&He.gives_to(It, She)).unwrap();
    assert!(room.objects[she].has(It));

    let i = 1;
    let mut room = Room::new(vec![of_type("door"), room::Object::I]);
    room.action(&room::Object::I.closes(of_type("door"))).unwrap();
    room.action(&room::Object::I.locks(of_type("door"))).unwrap();
    assert!(room.objects[i].closed(of_type("door")));
    assert!(room.objects[i].locked(of_type("door")));
    assert!(!room.objects[i].locked(of_type("window")));

    let mut victim = She;
    victim.push(room::killed_by(He));
    assert!(victim.was_killed_by(He));
    assert!(victim.matches(&room::killed_by(He)));

    let p = on(It);
    assert!(p.matches(&on(It)));
    assert!(!p.matches(&lean_toward(It)));
    assert!(p.obj_ref().matches(&It));
    let r = opponent_of(He);
    assert!(r.matches(&opponent_of(He)));
    assert!(!r.matches(&opponent_of(She)));
    assert!(r.obj_ref().matches(&He));
}
