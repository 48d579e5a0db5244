use room::Adjective::{Closed, Dead, Murderer, Open};
use room::Object::{And, He, I, It, She, That, You};
use room::{called, has_not, key_to, killed, of_type, on, Room};

#[test]
fn test_move() {
    let it = 1;
    let that = 2;
    let mut room = Room::new(vec![He, It, That]);
    room.action(&He.moves(It, on(That))).unwrap();
    assert!(room.objects[it].is_on(That));
    assert!(!room.objects[that].is_on(It));
    room.action(&He.moves(That, on(It))).unwrap();
    assert!(room.objects[that].is_on(It));
    assert!(!room.objects[it].is_on(That));

    let he = 0;
    let that = 1;
    let mut room = Room::new(vec![He, That]);
    // Can not move itself.
    assert!(room.action(&He.moves(He, on(That))).is_err());
    // Can move something on itself.
    assert!(room.action(&He.moves(That, on(He))).is_ok());
    assert!(room.objects[that].is_on(He));
    assert!(room.objects[that].was_moved_by(He));
    assert!(room.objects[he].moved(That));
}

#[test]
fn test_give() {
    let he = 0;
    let she = 1;
    let mut room = Room::new(vec![He, She, It]);
    room.action(&He.gives_item(She, It)).unwrap();
    assert!(room.objects[she].has(It));
    assert!(!room.objects[he].has(It));
    room.action(&She.gives_item(He, It)).unwrap();
    assert!(room.objects[he].has(It));
    assert!(!room.objects[she].has(It));

    let she = 0;
    let peter = 1;
    let mut room = Room::new(vec![She, called("Peter"), It]);
    room.action(&She.gives_item(called("Peter"), It)).unwrap();
    assert!(room.objects[peter].has(It));
    assert!(!room.objects[she].has(It));
    room.action(&called("Peter").gives_item(She, It)).unwrap();
    assert!(room.objects[she].has(It));
    assert!(!room.objects[peter].has(It));

    let mut room = Room::new(vec![He, It]);
    // Can not give something to the same object.
    assert!(room.action(&He.gives_item(He, It)).is_err());
    // The same object that gives can not be given.
    assert!(room.action(&He.gives_item(It, He)).is_err());
}

#[test]
fn test_names() {
    let he = 0;
    let mut room = Room::new(vec![He]);
    room.objects[he].push(called("Peter"));
    assert!(room.objects[he].matches(&And(vec![He, called("Peter")])));
}

#[test]
fn test_kill() {
    let he = 0;
    let she = 1;
    let mut room = Room::new(vec![He, She]);
    assert!(!room.objects[she].matches(&Dead.into()));
    assert!(!room.objects[he].matches(&Murderer.into()));
    room.action(&He.kills(She)).unwrap();
    assert!(room.objects[she].matches(&Dead.into()));
    assert!(room.objects[he].matches(&Murderer.into()));
    assert!(room.objects[she].was_killed_by(He));
    assert!(room.objects[he].killed(She));

    let peter = 0;
    let john = 1;
    let sheila = 2;
    let mut room = Room::new(vec![called("Peter"), called("John"), called("Sheila")]);
    assert!(!room.objects[peter].matches(&Dead.into()));
    assert!(!room.objects[peter].killed(called("John")));
    assert!(!room.objects[peter].was_killed_by(called("Sheila")));
    assert!(!room.objects[john].matches(&Dead.into()));
    assert!(!room.objects[john].was_killed_by(called("Peter")));
    assert!(!room.objects[sheila].matches(&Dead.into()));
    assert!(!room.objects[sheila].killed(killed(called("John"))));
    room.action(&called("Peter").kills(called("John"))).unwrap();
    room.action(&called("Sheila").kills(killed(called("John")))).unwrap();
    assert!(room.objects[peter].matches(&Dead.into()));
    assert!(room.objects[peter].killed(called("John")));
    assert!(room.objects[peter].was_killed_by(called("Sheila")));
    assert!(room.objects[john].matches(&Dead.into()));
    assert!(room.objects[john].was_killed_by(called("Peter")));
    assert!(!room.objects[sheila].matches(&Dead.into()));
    assert!(room.objects[sheila].killed(killed(called("John"))));
}

#[test]
fn test_talk() {
    let i = 0;
    let you = 1;
    let mut room = Room::new(vec![I, You]);
    assert!(!room.objects[i].talked_to(You));
    assert!(!room.objects[you].was_talked_to_by(I));
    room.action(&I.talk_to(You)).unwrap();
    assert!(room.objects[i].talked_to(You));
    assert!(room.objects[you].was_talked_to_by(I));
}

#[test]
fn test_door() {
    let door = 0;
    let mut room = Room::new(vec![of_type("door"), I]);
    assert!(!room.objects[door].matches(&Open.into()));
    assert!(!room.objects[door].matches(&Closed.into()));
    room.action(&I.opens(of_type("door"))).unwrap();
    assert!(room.objects[door].matches(&Open.into()));
    assert!(!room.objects[door].matches(&Closed.into()));
    room.action(&I.closes(of_type("door"))).unwrap();
    assert!(room.objects[door].matches(&Closed.into()));
    assert!(!room.objects[door].matches(&Open.into()));
    // Can not walk through door because it is closed.
    assert!(room.action(&I.walks_through(of_type("door"))).is_err());
    room.action(&I.opens(of_type("door"))).unwrap();
    room.action(&I.walks_through(of_type("door"))).unwrap();

    let mut room = Room::new(vec![of_type("door"), I, key_to(of_type("door"))]);
    room.action(&I.closes(of_type("door"))).unwrap();
    room.action(&I.locks(of_type("door"))).unwrap();
    // Can not open door because it is locked.
    assert!(room.action(&I.opens(of_type("door"))).is_err());
    // Can not unlock door because I do not have the key.
    assert!(room.action(&I.unlocks(of_type("door"))).is_err());
    room.action(&I.picks_up(key_to(of_type("door")))).unwrap();
    room.action(&I.unlocks(of_type("door"))).unwrap();
    room.action(&I.opens(of_type("door"))).unwrap();

    let mut room = Room::new(vec![
        And(vec![He, has_not(key_to(of_type("door")))]),
        She,
        key_to(of_type("door")),
    ]);
    assert!(room.action(&He.gives_item(She, key_to(of_type("door")))).is_err());
    room.action(&He.picks_up(key_to(of_type("door")))).unwrap();
    room.action(&He.gives_item(She, key_to(of_type("door")))).unwrap();
}

#[test]
fn test_ladder() {
    let ladder = 0;
    let i = 4;
    let mut room = Room::new(vec![
        of_type("ladder"),
        of_type("roof"),
        of_type("ground"),
        of_type("wall"),
        And(vec![I, has_not(of_type("ladder"))]),
    ]);
    room.action(&I.carries(of_type("ladder"))).unwrap();
    assert!(!room.objects[i].has_not(of_type("ladder")));
    assert!(room.objects[i].has(of_type("ladder")));
    room.action(&I.puts_down(of_type("ladder"))).unwrap();
    assert!(!room.objects[i].has(of_type("ladder")));
    assert!(room.objects[i].has_not(of_type("ladder")));
    room.action(&of_type("ladder").stands_on(of_type("ground"))).unwrap();
    assert!(room.objects[ladder].is_on(of_type("ground")));
    room.action(&of_type("ladder").leans_toward(of_type("wall"))).unwrap();
    assert!(room.objects[ladder].is_leaning_toward(of_type("wall")));
    room.action(&I.climbs_to(of_type("ladder"), on(of_type("roof")))).unwrap();
    assert!(room.objects[i].is_on(of_type("roof")));
    room.action(&I.picks_up(of_type("ladder"))).unwrap();
    assert!(!room.objects[ladder].is_on(of_type("ground")));
}

#[test]
fn test_sleep() {
    let i = 1;
    let mut room = Room::new(vec![of_type("bed"), I]);
    room.action(&I.sleeps_in(of_type("bed"))).unwrap();
    assert!(room.objects[i].is_in(of_type("bed")));
    room.action(&I.wakes_up_in(of_type("bed"))).unwrap();
    room.action(&I.climbs_out_of(of_type("bed"))).unwrap();
    assert!(!room.objects[i].is_in(of_type("bed")));
    assert!(room.objects[i].is_out_of(of_type("bed")));
    room.action(&I.climbs_into(of_type("bed"))).unwrap();
    assert!(!room.objects[i].is_out_of(of_type("bed")));
    assert!(room.objects[i].is_in(of_type("bed")));
}

#[test]
fn test_chess() {
    let i = 1;
    let you = 2;
    let mut room = Room::new(vec![And(vec![called("chess"), of_type("game")]), I, You]);
    room.action(&I.plays_against(called("chess"), You)).unwrap();
    assert!(room.objects[i].is_opponent_of(You));
    assert!(room.objects[you].is_opponent_of(I));
}
