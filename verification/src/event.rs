//! A scheduled event: a name, a countdown of frames, and the action to run.

use vstd::prelude::*;

verus! {

/// A named piece of deferred work. It is run once per frame until its
/// countdown of remaining frames is used up.
///
/// The action is any callable without arguments; a plain function and a
/// closure that carries its own state both qualify.
#[derive(Debug)]
pub struct Event<F> {
    /// Identifies the event when it is removed by name.
    pub name: String,
    /// How many more frames the event is to run in.
    pub frames: u32,
    /// What the event does each time it runs.
    pub task: F,
}

/// The event `e` one frame later: same name, same action, one frame fewer.
/// It is meant for events that still have a frame left.
pub open spec fn aged<F>(e: Event<F>) -> Event<F>
    recommends
        e.frames >= 1,
{
    Event { name: e.name, frames: (e.frames - 1) as u32, task: e.task }
}

/// The event `e` after `k` frames, provided that it has that many left.
pub open spec fn aged_by<F>(e: Event<F>, k: nat) -> Event<F>
    recommends
        e.frames >= k,
{
    Event { name: e.name, frames: (e.frames - k) as u32, task: e.task }
}

impl<F> Event<F> {
    /// Whether the countdown has reached zero, so that the event must not run
    /// again.
    pub open spec fn expired(self) -> bool {
        self.frames == 0
    }

    /// Uses up one of the remaining frames. The name and the action stay as
    /// they are.
    pub fn dec(&mut self)
        requires
            old(self).frames >= 1,
        ensures
            *final(self) == aged(*old(self)),
    {
        self.frames = self.frames - 1;
    }
}

} // verus!
