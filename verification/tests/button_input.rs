use virtdriver::button_input::ButtonInput;

fn flags(tracker: &ButtonInput) -> (bool, bool, bool) {
    (tracker.current(), tracker.was_pressed(), tracker.was_released())
}

#[test]
fn fresh_tracker_reports_nothing() {
    let tracker = ButtonInput::default();
    assert_eq!(flags(&tracker), (false, false, false));
}

#[test]
fn press_edge_lasts_one_update() {
    let mut tracker = ButtonInput::default();
    tracker.update(true);
    assert_eq!(flags(&tracker), (true, true, false));
    tracker.update(true);
    assert_eq!(flags(&tracker), (true, false, false));
}

#[test]
fn release_edge_lasts_one_update() {
    let mut tracker = ButtonInput::default();
    tracker.update(true);
    tracker.update(false);
    assert_eq!(flags(&tracker), (false, false, true));
    tracker.update(false);
    assert_eq!(flags(&tracker), (false, false, false));
}

#[test]
fn steady_low_level_gives_no_edge() {
    let mut tracker = ButtonInput::default();
    tracker.update(false);
    assert_eq!(flags(&tracker), (false, false, false));
}

#[test]
fn edges_never_coincide_on_any_short_sequence() {
    // Every sequence of up to ten levels, as the bits of a counter.
    for length in 0..=10u32 {
        for pattern in 0..(1u32 << length) {
            let mut tracker = ButtonInput::default();
            let mut before = false;
            for step in 0..length {
                let level = (pattern >> step) & 1 == 1;
                tracker.update(level);
                assert!(!(tracker.was_pressed() && tracker.was_released()));
                assert_eq!(tracker.was_pressed(), !before && level);
                assert_eq!(tracker.was_released(), before && !level);
                assert_eq!(tracker.current(), level);
                before = level;
            }
        }
    }
}

#[test]
fn copies_are_independent() {
    let mut tracker = ButtonInput::default();
    let copy = tracker;
    tracker.update(true);
    assert_eq!(flags(&copy), (false, false, false));
    assert_eq!(flags(&tracker), (true, true, false));
}
