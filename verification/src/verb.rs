use vstd::prelude::*;

verus! {

/// The closed vocabulary of verb tags recorded in history facts.
///
/// A verb carries no behaviour of its own: it only tags `DidTo` / `WasBy`
/// history facts and the action being executed, and two verbs are compared
/// by identity alone.
#[derive(Copy, Clone, Debug, PartialEq, Eq, Structural)]
pub enum Verb {
    Carry,
    Climb,
    Close,
    Give,
    Kill,
    LeanToward,
    Lock,
    Move,
    Open,
    PickUp,
    Play,
    PutDown,
    SleepIn,
    StandOn,
    Talk,
    WakeUpIn,
    WalkThrough,
    Unlock,
}

} // verus!
