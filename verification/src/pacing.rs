//! Pacing of the frame loop: how long to wait at the end of a frame so that
//! frames start at a steady rate.

use vstd::prelude::*;

verus! {

/// The time that one frame is given, in nanoseconds: a thirtieth of a second.
pub const FRAME_DURATION_NANOS: u128 = 33_333_333;

/// The wait that is due at the time `now` for a frame that began at `start`
/// and is given `budget`: what is left until `start + budget`, or nothing if
/// that moment has come or gone.
pub open spec fn pause_due(start: int, now: int, budget: int) -> Option<int> {
    if now < start + budget {
        Some(start + budget - now)
    } else {
        None
    }
}

/// How long a frame lasts in all, from `start` to the end of its wait, when
/// its work was done at the time `now`.
pub open spec fn frame_length(start: int, now: int, budget: int) -> int {
    match pause_due(start, now, budget) {
        Some(pause) => now - start + pause,
        None => now - start,
    }
}

/// The wait that ends a frame, for times counted in nanoseconds from a common
/// origin. A frame that has used up its budget gets no wait, and the time it
/// ran over is not made up later. The times are as wide as the nanoseconds
/// of a `std::time::Duration`, so that any two clock readings can be handed
/// in.
pub fn pause_for(start: u128, now: u128, budget: u128) -> (pause: Option<u128>)
    requires
        start + budget <= u128::MAX,
    ensures
        match pause {
            Some(wait) => pause_due(start as int, now as int, budget as int) == Some(wait as int),
            None => pause_due(start as int, now as int, budget as int).is_none(),
        },
{
    let deadline: u128 = start + budget;
    if now < deadline {
        Some(deadline - now)
    } else {
        None
    }
}

/// The wait that ends a frame of the standard length.
pub fn frame_pause(start: u128, now: u128) -> (pause: Option<u128>)
    requires
        start + FRAME_DURATION_NANOS <= u128::MAX,
    ensures
        match pause {
            Some(wait) => pause_due(start as int, now as int, FRAME_DURATION_NANOS as int)
                == Some(wait as int),
            None => pause_due(start as int, now as int, FRAME_DURATION_NANOS as int).is_none(),
        },
{
    pause_for(start, now, FRAME_DURATION_NANOS)
}

/// A frame whose work took less than the budget lasts exactly the budget;
/// one whose work took as long or longer lasts as long as its work did.
pub proof fn frame_length_law(start: int, now: int, budget: int)
    requires
        start <= now,
        0 <= budget,
    ensures
        now - start < budget ==> frame_length(start, now, budget) == budget,
        now - start >= budget ==> frame_length(start, now, budget) == now - start,
        now - start >= budget ==> pause_due(start, now, budget).is_none(),
{
}

} // verus!
