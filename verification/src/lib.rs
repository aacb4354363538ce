//! Rules engine for a multiplayer area-control game: the turn-state machine,
//! its action vocabulary and the invariants that every transition upholds.

pub mod lookup;
pub mod data;
pub mod actions;
pub mod board;
pub mod conservation;
pub mod control;
pub mod pips;
pub mod seating;
