//! What holds of scheduled events over whole frames: how their countdowns
//! fall, when they leave the queue, and that pruning twice changes nothing.

use vstd::prelude::*;
use crate::event::{aged, aged_by, Event};
use crate::eventqueue::{aged_all, all_live, has_named, pruned_to, removed_to, survivors};

verus! {

/// The event that `e` was `k` frames earlier: same name, same action, `k`
/// frames more.
pub open spec fn younger<F>(e: Event<F>, k: nat) -> Event<F>
    recommends
        e.frames + k <= u32::MAX,
{
    Event { name: e.name, frames: (e.frames + k) as u32, task: e.task }
}

/// One frame's work on the queue may turn `before` into `after`: every event
/// runs once, then the expired ones are pruned.
pub open spec fn cycle_to<F>(before: Seq<Event<F>>, after: Seq<Event<F>>) -> bool {
    pruned_to(aged_all(before), after)
}

/// How often the event `x` is in the queue `s`.
pub open spec fn count_in<F>(s: Seq<Event<F>>, x: Event<F>) -> nat {
    s.to_multiset().count(x)
}

/// After pruning, an event is in the queue as often as before if it has a
/// frame left, and not at all if it has none.
pub proof fn pruned_count<F>(before: Seq<Event<F>>, after: Seq<Event<F>>, x: Event<F>)
    requires
        pruned_to(before, after),
    ensures
        count_in(after, x) == if x.expired() {
            0
        } else {
            count_in(before, x)
        },
        x.expired() ==> !after.contains(x),
        !x.expired() ==> (after.contains(x) <==> before.contains(x)),
{
    broadcast use vstd::multiset::group_multiset_axioms;

    vstd::seq_lib::to_multiset_contains(after, x);
    vstd::seq_lib::to_multiset_contains(before, x);
}

/// Pruning leaves no expired event behind.
pub proof fn pruned_is_live<F>(before: Seq<Event<F>>, after: Seq<Event<F>>)
    requires
        pruned_to(before, after),
    ensures
        all_live(after),
{
    assert forall|i: int| 0 <= i < after.len() implies !(#[trigger] after[i]).expired() by {
        assert(after.contains(after[i]));
        pruned_count(before, after, after[i]);
    }
}

/// Pruning is idempotent: a second pruning, with no run in between, leaves
/// the queue exactly as the first one left it.
pub proof fn prune_idempotent<F>(start: Seq<Event<F>>, once: Seq<Event<F>>, twice: Seq<Event<F>>)
    requires
        pruned_to(start, once),
        pruned_to(once, twice),
    ensures
        twice == once,
{
    pruned_is_live(start, once);
}

/// Removing a name that no event has changes nothing: the queue keeps its
/// events and their order.
pub proof fn remove_absent_is_noop<F>(before: Seq<Event<F>>, name: Seq<char>, after: Seq<Event<F>>)
    requires
        !has_named(before, name),
        removed_to(before, name, after),
    ensures
        after == before,
        after.to_multiset() == before.to_multiset(),
{
}

/// After every event of a queue without expired events has run once, an
/// event is in the queue as often as the event one frame younger was before.
pub proof fn aged_all_count<F>(s: Seq<Event<F>>, x: Event<F>)
    requires
        all_live(s),
    ensures
        count_in(aged_all(s), x) == if x.frames < u32::MAX {
            count_in(s, younger(x, 1))
        } else {
            0
        },
    decreases s.len(),
{
    broadcast use vstd::multiset::group_multiset_axioms;

    if s.len() == 0 {
        assert(aged_all(s) =~= s);
        vstd::seq_lib::to_multiset_len(s);
        assert(s.to_multiset().count(x) == 0);
        assert(s.to_multiset().count(younger(x, 1)) == 0);
    } else {
        let front = s.drop_last();
        let last = s.last();
        assert(all_live(front)) by {
            assert forall|i: int| 0 <= i < front.len() implies !(#[trigger] front[i]).expired() by {
                assert(front[i] == s[i]);
            }
        }
        aged_all_count(front, x);
        assert(s =~= front.push(last));
        assert(aged_all(s) =~= aged_all(front).push(aged(last)));
        vstd::seq_lib::to_multiset_build(front, last);
        vstd::seq_lib::to_multiset_build(aged_all(front), aged(last));
        assert(!last.expired());
        assert(aged(last) == x <==> (x.frames < u32::MAX && last == younger(x, 1)));
    }
}

/// After one frame's work on a queue without expired events, an event is in
/// the queue as often as the event one frame younger was before it, and no
/// event without a frame left is in it.
pub proof fn cycle_count<F>(before: Seq<Event<F>>, after: Seq<Event<F>>, x: Event<F>)
    requires
        all_live(before),
        cycle_to(before, after),
    ensures
        count_in(after, x) == if 1 <= x.frames < u32::MAX {
            count_in(before, younger(x, 1))
        } else {
            0
        },
{
    pruned_count(aged_all(before), after, x);
    aged_all_count(before, x);
    if x.frames == u32::MAX {
        assert(count_in(aged_all(before), x) == 0);
    }
}

/// Over `k` frames the countdown of every event falls by `k`: after them an
/// event with `f` frames left is in the queue as often as the same event with
/// `f + k` frames was at the start, and an event that had `k` frames or fewer
/// is gone, so that no countdown ever falls below zero.
///
/// `states` holds the queue at the start and after each of the `k` frames.
pub proof fn frames_after_cycles<F>(states: Seq<Seq<Event<F>>>, k: nat, x: Event<F>)
    requires
        states.len() == k + 1,
        all_live(states[0]),
        forall|j: int| 0 <= j < k ==> cycle_to(#[trigger] states[j], states[j + 1]),
    ensures
        all_live(states[k as int]),
        count_in(states[k as int], x) == if 1 <= x.frames && x.frames + k <= u32::MAX {
            count_in(states[0], younger(x, k))
        } else {
            0
        },
    decreases k,
{
    if k == 0 {
        assert(younger(x, 0) == x);
        if x.expired() {
            vstd::seq_lib::to_multiset_contains(states[0], x);
            if states[0].contains(x) {
                let i = choose|i: int| 0 <= i < states[0].len() && states[0][i] == x;
                assert(!states[0][i].expired());
            }
        }
    } else {
        let earlier = states.drop_last();
        let j = (k - 1) as nat;
        assert forall|i: int| 0 <= i < j implies cycle_to(#[trigger] earlier[i], earlier[i + 1]) by {
            assert(cycle_to(states[i], states[i + 1]));
        }
        frames_after_cycles(earlier, j, younger(x, 1));
        assert(cycle_to(states[j as int], states[j as int + 1]));
        cycle_count(states[j as int], states[k as int], x);
        pruned_is_live(aged_all(states[j as int]), states[k as int]);
        if 1 <= x.frames && x.frames + k <= u32::MAX {
            assert(younger(younger(x, 1), j) == younger(x, k));
        }
    }
}

/// An event that is in the queue at the start with more than `k` frames is in
/// it after `k` frames as often as at the start, with `k` frames fewer.
pub proof fn event_after_cycles<F>(states: Seq<Seq<Event<F>>>, k: nat, e: Event<F>)
    requires
        states.len() == k + 1,
        all_live(states[0]),
        forall|j: int| 0 <= j < k ==> cycle_to(#[trigger] states[j], states[j + 1]),
        e.frames > k,
    ensures
        count_in(states[k as int], aged_by(e, k)) == count_in(states[0], e),
{
    frames_after_cycles(states, k, aged_by(e, k));
    assert(younger(aged_by(e, k), k) == e);
}

/// An event with a single frame left runs in the next run and in no other:
/// that run leaves it expired, and the pruning that follows takes it out of
/// the queue, so that no later run can reach it.
pub proof fn last_frame_runs_once<F>(before: Seq<Event<F>>, after: Seq<Event<F>>, i: int)
    requires
        all_live(before),
        cycle_to(before, after),
        0 <= i < before.len(),
        before[i].frames == 1,
    ensures
        aged_all(before)[i] == aged(before[i]),
        aged(before[i]).expired(),
        !after.contains(aged(before[i])),
        after.len() < before.len(),
{
    broadcast use vstd::multiset::group_multiset_axioms;

    let ran = aged_all(before);
    pruned_count(ran, after, ran[i]);
    vstd::seq_lib::to_multiset_len(ran);
    vstd::seq_lib::to_multiset_len(after);
    vstd::seq_lib::to_multiset_contains(ran, ran[i]);
    assert(ran.contains(ran[i]));
    assert(survivors(ran.to_multiset()).subset_of(ran.to_multiset()));
    assert(survivors(ran.to_multiset()).count(ran[i]) < ran.to_multiset().count(ran[i]));
    strictly_fewer(survivors(ran.to_multiset()), ran.to_multiset(), ran[i]);
}

/// Contents that hold nothing more often than others do, and one thing less
/// often, are smaller.
proof fn strictly_fewer<A>(small: vstd::multiset::Multiset<A>, large: vstd::multiset::Multiset<A>, a: A)
    requires
        small.subset_of(large),
        small.count(a) < large.count(a),
    ensures
        small.len() < large.len(),
{
    broadcast use vstd::multiset::group_multiset_axioms;

    let rest = large.sub(small);
    assert(small.add(rest) =~= large);
    assert(rest.count(a) > 0);
    assert(rest.len() > 0) by {
        if rest.len() == 0 {
            vstd::multiset::lemma_multiset_empty_len(rest);
        }
    }
}

/// An event that is enqueued during a run and runs in it is still in the
/// queue after the pruning that follows, one frame older, unless it had a
/// single frame left: then it is gone.
///
/// `held` is the queue without the new event `e`.
pub proof fn enqueued_and_run<F>(held: Seq<Event<F>>, e: Event<F>, after: Seq<Event<F>>)
    requires
        all_live(held),
        !e.expired(),
        cycle_to(held.push(e), after),
    ensures
        e.frames > 1 ==> after.contains(aged(e)),
        e.frames == 1 ==> !after.contains(aged(e)),
{
    let all = held.push(e);
    assert(aged_all(all) =~= aged_all(held).push(aged(e)));
    assert(aged_all(all).last() == aged(e));
    assert(aged_all(all).contains(aged(e)));
    pruned_count(aged_all(all), after, aged(e));
}

/// An event that is enqueued during a run too late to run in it is still in
/// the queue after the pruning that follows, with all its frames.
///
/// `held` is the queue without the new event `e`.
pub proof fn enqueued_and_kept<F>(held: Seq<Event<F>>, e: Event<F>, after: Seq<Event<F>>)
    requires
        !e.expired(),
        pruned_to(aged_all(held).push(e), after),
    ensures
        after.contains(e),
{
    let late = aged_all(held).push(e);
    assert(late.last() == e);
    assert(late.contains(e));
    pruned_count(late, after, e);
}

} // verus!
