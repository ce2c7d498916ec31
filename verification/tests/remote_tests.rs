use electrolux_ir::remote::{ButtonTracker, UiRequest};

#[test]
fn first_poll_is_primed_once() {
    let mut t = ButtonTracker::new();
    assert!(t.prime());
    assert!(t.primed && !t.a_down && !t.b_down);
    assert!(!t.prime());
    assert!(!t.prime());
}

#[test]
fn a_press_activates_once() {
    let mut t = ButtonTracker::new();
    t.prime();
    assert_eq!(t.press_edges(true, false), Some(UiRequest::Activate));
    assert_eq!(t.press_edges(true, false), None);
    assert_eq!(t.press_edges(false, false), None);
    assert_eq!(t.press_edges(true, false), Some(UiRequest::Activate));
}

#[test]
fn b_press_wins_over_a() {
    let mut t = ButtonTracker::new();
    t.prime();
    assert_eq!(t.press_edges(true, true), Some(UiRequest::FocusNext));
    assert_eq!(t.press_edges(true, true), None);
    assert!(t.a_down && t.b_down);
}

#[test]
fn a_press_while_b_held_activates() {
    let mut t = ButtonTracker::new();
    assert_eq!(t.press_edges(false, true), Some(UiRequest::FocusNext));
    assert_eq!(t.press_edges(true, true), Some(UiRequest::Activate));
}
