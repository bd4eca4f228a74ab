//! The task queue of a game: scheduled events and their queue under the
//! names that game code knows them by.

use vstd::prelude::*;
use crate::event::Event;

pub use crate::eventqueue::EventQueue as GameEventQueue;

verus! {

/// A scheduled event of a game.
pub type GameEvent<F> = Event<F>;

} // verus!
