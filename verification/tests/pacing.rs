use game_engine::pacing::{frame_pause, pause_for, FRAME_DURATION_NANOS};

#[test]
fn frame_duration_is_a_thirtieth_of_a_second() {
    assert_eq!(FRAME_DURATION_NANOS, 33_333_333);
}

#[test]
fn pause_fills_the_rest_of_the_budget() {
    assert_eq!(pause_for(1_000, 1_400, 1_000), Some(600));
    assert_eq!(pause_for(0, 0, 33_333_333), Some(33_333_333));
    assert_eq!(pause_for(5_000_000_000, 5_010_000_000, 33_333_333), Some(23_333_333));
}

#[test]
fn work_and_pause_add_up_to_the_budget() {
    let start: u128 = 7_000;
    let budget: u128 = 500;
    for work in 0..500u128 {
        let pause = pause_for(start, start + work, budget);
        assert_eq!(pause, Some(budget - work));
        assert_eq!(work + pause.unwrap(), budget);
    }
}

#[test]
fn no_pause_at_the_deadline() {
    assert_eq!(pause_for(1_000, 2_000, 1_000), None);
}

#[test]
fn no_pause_after_an_overrun() {
    assert_eq!(pause_for(1_000, 2_001, 1_000), None);
    assert_eq!(pause_for(1_000, 9_000_000, 1_000), None);
}

#[test]
fn pause_with_no_budget_is_none() {
    assert_eq!(pause_for(1_000, 1_000, 0), None);
}

#[test]
fn pause_when_the_clock_reads_earlier_than_the_start() {
    assert_eq!(pause_for(1_000, 900, 1_000), Some(1_100));
}

#[test]
fn pause_at_the_largest_deadline() {
    assert_eq!(pause_for(u128::MAX - 10, u128::MAX - 4, 10), Some(4));
    assert_eq!(pause_for(u128::MAX - 10, u128::MAX, 10), None);
}

#[test]
fn frame_pause_uses_the_standard_budget() {
    assert_eq!(frame_pause(100, 100), Some(33_333_333));
    assert_eq!(frame_pause(100, 133), Some(33_333_300));
    assert_eq!(frame_pause(100, 33_333_432), Some(1));
    assert_eq!(frame_pause(100, 33_333_433), None);
    assert_eq!(frame_pause(100, 40_000_000), None);
}
