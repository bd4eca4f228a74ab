//! The queue of scheduled events: removal by name, running every event, and
//! pruning the expired ones.

use vstd::prelude::*;
use vstd::multiset::Multiset;
use crate::event::{aged, Event};

verus! {

/// Every event of `s` has at least one frame left.
pub open spec fn all_live<F>(s: Seq<Event<F>>) -> bool {
    forall|i: int| 0 <= i < s.len() ==> !(#[trigger] s[i]).expired()
}

/// Every event of `s` has at least one frame left and an action that may be
/// called: the queue can be run.
pub open spec fn runnable<F: Fn()>(s: Seq<Event<F>>) -> bool {
    forall|i: int|
        0 <= i < s.len() ==> !(#[trigger] s[i]).expired() && call_requires(s[i].task, ())
}

/// The queue `s` after every one of its events has run once.
pub open spec fn aged_all<F>(s: Seq<Event<F>>) -> Seq<Event<F>> {
    Seq::new(s.len(), |i: int| aged(s[i]))
}

/// The action of every event of `s` has been called and has returned.
pub open spec fn all_called<F: Fn()>(s: Seq<Event<F>>) -> bool {
    forall|i: int| 0 <= i < s.len() ==> call_ensures((#[trigger] s[i]).task, (), ())
}

/// The events of `m` that have a frame left, each as often as it is in `m`.
pub open spec fn survivors<F>(m: Multiset<Event<F>>) -> Multiset<Event<F>> {
    m.filter(|e: Event<F>| !e.expired())
}

/// Pruning `before` may give `after`: `after` holds the events of `before`
/// that have a frame left, each as often as before and in some order, and a
/// queue without expired events is left exactly as it is.
pub open spec fn pruned_to<F>(before: Seq<Event<F>>, after: Seq<Event<F>>) -> bool {
    &&& after.to_multiset() == survivors(before.to_multiset())
    &&& all_live(before) ==> after == before
}

/// Some event of `s` is called `name`.
pub open spec fn has_named<F>(s: Seq<Event<F>>, name: Seq<char>) -> bool {
    exists|i: int| 0 <= i < s.len() && (#[trigger] s[i]).name@ == name
}

/// `i` is the place of the first event of `s` that is called `name`.
pub open spec fn is_first_named<F>(s: Seq<Event<F>>, name: Seq<char>, i: int) -> bool {
    &&& 0 <= i < s.len()
    &&& s[i].name@ == name
    &&& forall|j: int| 0 <= j < i ==> (#[trigger] s[j]).name@ != name
}

/// The queue `s` without the event at place `i`, whose place the last event
/// has taken.
pub open spec fn swap_removed<F>(s: Seq<Event<F>>, i: int) -> Seq<Event<F>>
    recommends
        0 <= i < s.len(),
{
    s.update(i, s.last()).drop_last()
}

/// Removing the first event called `name` from `before` gives `after`: a queue
/// without such an event stays as it is; otherwise the last event takes the
/// place of the first one with that name.
pub open spec fn removed_to<F>(before: Seq<Event<F>>, name: Seq<char>, after: Seq<Event<F>>) -> bool {
    &&& !has_named(before, name) ==> after == before
    &&& forall|i: int| is_first_named(before, name, i) ==> after == swap_removed(before, i)
}

/// Taking the event at place `i` out by moving the last one into its place
/// removes exactly that one event from the contents.
pub proof fn swap_removed_contents<F>(s: Seq<Event<F>>, i: int)
    requires
        0 <= i < s.len(),
    ensures
        swap_removed(s, i).to_multiset() == s.to_multiset().remove(s[i]),
        swap_removed(s, i).len() == s.len() - 1,
{
    broadcast use vstd::multiset::group_multiset_axioms;

    let t = s.update(i, s.last());
    let last = s.len() - 1;
    vstd::seq_lib::to_multiset_update(s, i, s.last());
    vstd::seq_lib::to_multiset_remove(t, last);
    assert(t.remove(last) =~= t.drop_last());
    assert(swap_removed(s, i).to_multiset() =~= s.to_multiset().remove(s[i]));
}

/// What a queue of scheduled events can do. Any container that offers these
/// three operations on the events it holds can serve as the queue.
pub trait EventQueue<F> {
    /// The events that the queue holds, in their current order.
    spec fn events(&self) -> Seq<Event<F>>;

    /// Removes the first event called `name`, if there is one, by moving the
    /// last event into its place. The order of the others may change.
    fn remove(&mut self, name: String)
        ensures
            removed_to(old(self).events(), name@, final(self).events()),
    ;

    /// Runs every event once, in the queue's order: its action is called,
    /// then one of its frames is used up.
    fn run_all(&mut self) where F: Fn()
        requires
            runnable(old(self).events()),
        ensures
            final(self).events() == aged_all(old(self).events()),
            all_called(old(self).events()),
    ;

    /// Removes every event that has no frame left.
    fn prune(&mut self)
        ensures
            pruned_to(old(self).events(), final(self).events()),
            all_live(final(self).events()),
    ;
}

impl<F> EventQueue<F> for Vec<Event<F>> {
    open spec fn events(&self) -> Seq<Event<F>> {
        self@
    }

    fn remove(&mut self, name: String) {
        let n = self.len();
        let mut i: usize = 0;
        while i < n
            invariant
                i <= n,
                n == self.len(),
                *self == *old(self),
                forall|j: int| 0 <= j < i ==> (#[trigger] self@[j]).name@ != name@,
            decreases n - i,
        {
            if self[i].name == name {
                assert(is_first_named(self@, name@, i as int));
                self.swap_remove(i);
                return;
            }
            i = i + 1;
        }
    }

    fn run_all(&mut self) where F: Fn() {
        let n = self.len();
        let mut i: usize = 0;
        while i < n
            invariant
                i <= n,
                n == self.len(),
                n == old(self).len(),
                runnable(old(self)@),
                forall|j: int| 0 <= j < i ==> self@[j] == aged(old(self)@[j]),
                forall|j: int| i <= j < n ==> self@[j] == old(self)@[j],
                forall|j: int| 0 <= j < i ==> call_ensures((#[trigger] old(self)@[j]).task, (), ()),
            decreases n - i,
        {
            let event = &mut self[i];
            (event.task)();
            event.dec();
            i = i + 1;
        }
        assert(self@ =~= aged_all(old(self)@));
    }

    fn prune(&mut self) {
        let mut i: usize = 0;
        while i < self.len()
            invariant
                i <= self.len(),
                forall|j: int| 0 <= j < i ==> !(#[trigger] self@[j]).expired(),
                survivors(self@.to_multiset()) == survivors(old(self)@.to_multiset()),
                all_live(old(self)@) ==> self@ == old(self)@,
            decreases self.len() - i,
        {
            if self[i].frames == 0 {
                proof {
                    swap_removed_contents(self@, i as int);
                    survivors_without_expired(self@.to_multiset(), self@[i as int]);
                }
                self.swap_remove(i);
            } else {
                i = i + 1;
            }
        }
        proof {
            survivors_of_live(self@);
        }
    }
}

/// The events of a vector that serves as the queue are the vector's own
/// contents. A caller whose action has a type that Verus does not look
/// through can call this to carry what it knows of the vector over to the
/// queue.
pub proof fn events_is_view<F>(q: Vec<Event<F>>)
    ensures
        q.events() == q@,
{
}

/// Taking an expired event out of the contents changes nothing about which
/// events have a frame left.
pub proof fn survivors_without_expired<F>(m: Multiset<Event<F>>, e: Event<F>)
    requires
        e.expired(),
    ensures
        survivors(m.remove(e)) == survivors(m),
{
    broadcast use vstd::multiset::group_multiset_axioms;

    assert(survivors(m.remove(e)) =~= survivors(m));
}

/// A queue without expired events holds exactly its survivors.
pub proof fn survivors_of_live<F>(s: Seq<Event<F>>)
    requires
        all_live(s),
    ensures
        survivors(s.to_multiset()) == s.to_multiset(),
{
    broadcast use vstd::multiset::group_multiset_axioms;

    assert forall|e: Event<F>| #[trigger]
        survivors(s.to_multiset()).count(e) == s.to_multiset().count(e) by {
        vstd::seq_lib::to_multiset_contains(s, e);
        if s.to_multiset().count(e) > 0 {
            let i = choose|i: int| 0 <= i < s.len() && s[i] == e;
            assert(!s[i].expired());
        }
    }
    assert(survivors(s.to_multiset()) =~= s.to_multiset());
}

} // verus!
