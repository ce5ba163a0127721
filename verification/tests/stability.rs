use collisions_disallowed::stability::Stability;

fn record(clean_streak: u32, is_stable: bool) -> Stability {
    Stability { clean_streak, is_stable }
}

#[test]
fn fresh_record_is_unstable_at_zero() {
    assert_eq!(Stability::fresh(), record(0, false));
}

#[test]
fn a_clean_frame_counts_one() {
    assert_eq!(record(0, false).rested(500), record(1, false));
    assert_eq!(record(41, false).rested(500), record(42, false));
}

#[test]
fn the_frame_that_reaches_the_threshold_makes_stable() {
    assert_eq!(record(498, false).rested(500), record(499, false));
    assert_eq!(record(499, false).rested(500), record(500, true));
}

#[test]
fn a_stable_record_stops_counting() {
    assert_eq!(record(500, true).rested(500), record(500, true));
    assert_eq!(record(500, true).rested(500).rested(500), record(500, true));
}

#[test]
fn threshold_one_settles_in_one_frame() {
    assert_eq!(Stability::fresh().rested(1), record(1, true));
}

#[test]
fn threshold_zero_still_takes_one_frame() {
    assert_eq!(Stability::fresh(), record(0, false));
    assert_eq!(Stability::fresh().rested(0), record(1, true));
    assert_eq!(Stability::fresh().rested(0).rested(0), record(1, true));
}

#[test]
fn largest_threshold_counts_to_the_end() {
    assert_eq!(record(u32::MAX - 2, false).rested(u32::MAX), record(u32::MAX - 1, false));
    assert_eq!(record(u32::MAX - 1, false).rested(u32::MAX), record(u32::MAX, true));
    assert_eq!(record(u32::MAX, true).rested(u32::MAX), record(u32::MAX, true));
}

#[test]
fn a_touched_record_starts_over() {
    assert_eq!(record(0, false).after_frame(true, 500), record(0, false));
    assert_eq!(record(321, false).after_frame(true, 500), record(0, false));
    assert_eq!(record(500, true).after_frame(true, 500), record(0, false));
}

#[test]
fn an_untouched_record_rests() {
    assert_eq!(record(0, false).after_frame(false, 3), record(1, false));
    assert_eq!(record(2, false).after_frame(false, 3), record(3, true));
    assert_eq!(record(3, true).after_frame(false, 3), record(3, true));
}

#[test]
fn unstable_then_stable_then_unstable_again() {
    let threshold: u32 = 2;
    let mut circle = Stability::fresh();
    circle = circle.after_frame(false, threshold);
    assert_eq!(circle, record(1, false));
    circle = circle.after_frame(false, threshold);
    assert_eq!(circle, record(2, true));
    circle = circle.after_frame(false, threshold);
    assert_eq!(circle, record(2, true));
    circle = circle.after_frame(true, threshold);
    assert_eq!(circle, record(0, false));
    circle = circle.after_frame(false, threshold);
    assert_eq!(circle, record(1, false));
}
