//! The frame loop's state and one turn of its cycle: the per-frame task, then
//! every scheduled event, then the pruning of the expired ones.

use vstd::prelude::*;
use crate::event::Event;
use crate::eventqueue::{aged_all, all_called, all_live, pruned_to, runnable, EventQueue};

verus! {

/// The per-frame task may be called on the queue `queue`.
pub open spec fn task_accepts<F, T: Fn(&mut Vec<Event<F>>) -> Result<(), String>>(
    task: T,
    queue: Seq<Event<F>>,
) -> bool {
    forall|m: &mut Vec<Event<F>>| m@ == queue ==> call_requires(task, (m,))
}

/// The message of a failed task, if it failed.
pub open spec fn failure_of(report: Result<(), String>) -> Option<String> {
    match report {
        Ok(_) => None,
        Err(message) => Some(message),
    }
}

/// The state of the frame loop: the queue of scheduled events, and the task
/// that is called at the start of every frame with the queue in its hands.
pub struct Engine<F, T> {
    /// The scheduled events. The task and the caller may add to it and remove
    /// from it between the runs.
    pub event_queue: Vec<Event<F>>,
    /// The per-frame task.
    pub task: T,
}

impl<F: Fn(), T: Fn(&mut Vec<Event<F>>) -> Result<(), String>> Engine<F, T> {
    /// An engine with an empty queue that will call `task` every frame.
    pub fn new(task: T) -> (engine: Self)
        ensures
            engine.event_queue@ == Seq::<Event<F>>::empty(),
            engine.task == task,
    {
        Engine { event_queue: Vec::new(), task }
    }

    /// Calls the per-frame task on the queue. A failure does not stop
    /// anything: its message is handed back for the caller to report.
    pub fn run_task(&mut self) -> (failure: Option<String>)
        requires
            task_accepts(old(self).task, old(self).event_queue@),
        ensures
            final(self).task == old(self).task,
            exists|m: &mut Vec<Event<F>>, report: Result<(), String>|
                {
                    &&& m@ == old(self).event_queue@
                    &&& final(m)@ == final(self).event_queue@
                    &&& #[trigger] call_ensures(old(self).task, (m,), report)
                    &&& failure == failure_of(report)
                },
    {
        let report = (self.task)(&mut self.event_queue);
        match report {
            Ok(_) => None,
            Err(message) => Some(message),
        }
    }

    /// Whether every scheduled event has a frame left, so that the queue can
    /// be run.
    pub fn ready(&self) -> (ready: bool)
        ensures
            ready == all_live(self.event_queue@),
    {
        let mut i: usize = 0;
        while i < self.event_queue.len()
            invariant
                i <= self.event_queue.len(),
                forall|j: int| 0 <= j < i ==> !(#[trigger] self.event_queue@[j]).expired(),
            decreases self.event_queue.len() - i,
        {
            if self.event_queue[i].frames == 0 {
                assert(self.event_queue@[i as int].expired());
                return false;
            }
            i = i + 1;
        }
        true
    }

    /// Runs every scheduled event once, calling its action, and then removes
    /// those that have no frame left: what a frame does after its task.
    pub fn settle(&mut self)
        requires
            runnable(old(self).event_queue@),
        ensures
            final(self).task == old(self).task,
            all_called(old(self).event_queue@),
            pruned_to(aged_all(old(self).event_queue@), final(self).event_queue@),
            all_live(final(self).event_queue@),
    {
        self.event_queue.run_all();
        self.event_queue.prune();
    }

    /// One frame without its pause: the task, then the action of every event
    /// that the task left in the queue, then the pruning. A failure of the
    /// task skips nothing; its message is handed back for the caller to
    /// report.
    pub fn frame(&mut self) -> (failure: Option<String>)
        requires
            task_accepts(old(self).task, old(self).event_queue@),
            forall|m: &mut Vec<Event<F>>, report: Result<(), String>|
                m@ == old(self).event_queue@ && #[trigger] call_ensures(
                    old(self).task,
                    (m,),
                    report,
                ) ==> runnable(final(m)@),
        ensures
            final(self).task == old(self).task,
            all_live(final(self).event_queue@),
            exists|m: &mut Vec<Event<F>>, report: Result<(), String>|
                {
                    &&& m@ == old(self).event_queue@
                    &&& #[trigger] call_ensures(old(self).task, (m,), report)
                    &&& failure == failure_of(report)
                    &&& all_called(final(m)@)
                    &&& pruned_to(aged_all(final(m)@), final(self).event_queue@)
                },
    {
        let failure = self.run_task();
        self.settle();
        failure
    }
}

} // verus!
