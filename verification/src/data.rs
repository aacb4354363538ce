//! The data model: players, territory nodes, court cards and the game state.

use vstd::prelude::*;

pub mod court_cards;
pub mod game_state;
pub mod setup_cards;
pub mod system;

verus! {

/// The mathematical values of a list of items, in order.
pub open spec fn views<T: View>(items: Seq<T>) -> Seq<T::V> {
    Seq::new(items.len(), |i: int| items[i]@)
}

/// The outcome of an operation with its value taken by its view.
pub open spec fn viewed<T: View, E>(outcome: Result<T, E>) -> Result<T::V, E> {
    match outcome {
        Ok(value) => Ok(value@),
        Err(e) => Err(e),
    }
}

} // verus!
