//! A symbolic world-state engine.
//!
//! A closed "room" of entities is modelled as an ordered list of recursive
//! property expressions. A pure structural matching algorithm with
//! asymmetric conjunction semantics decides whether one expression satisfies
//! another; it doubles as the lookup key for entity resolution. Declarative
//! actions — gating conditions plus mutations addressed by pattern — are
//! executed transactionally against the room: every gate is evaluated before
//! any mutation, so a failed action leaves the room untouched.

pub mod actions;
pub mod helpers;
pub mod laws;
pub mod model;
pub mod object;
pub mod room;
pub mod verb;

pub use object::{
    called, has, has_not, in_, key_to, killed, killed_by, lean_toward, of_type, on, opponent_of,
    out_of, Adjective, Object, Placement, Role,
};
pub use room::{Action, Room};
pub use verb::Verb;
