//! The decisions of the reactive remote's input source: focus the single button on
//! the very first poll, then turn button presses into one UI request per physical
//! press (buttons are active-low; a press is a released-to-held edge).

use vstd::prelude::*;

verus! {

/// A request the input source hands the UI.
#[derive(Clone, Copy, Debug, PartialEq, Eq, Structural)]
pub enum UiRequest {
    /// Move the focus to the next widget.
    FocusNext,
    /// Activate the focused widget.
    Activate,
}

/// Button state kept between polls.
#[derive(Clone, Copy, Debug, PartialEq, Eq, Structural)]
pub struct ButtonTracker {
    /// Button A was held at the previous reading.
    pub a_down: bool,
    /// Button B was held at the previous reading.
    pub b_down: bool,
    /// The first poll (which focuses the button) has happened.
    pub primed: bool,
}

/// Next state and request after reading the buttons in state `t`
/// (`a_low`, `b_low` true while pressed). A fresh press of B wins over one of A.
pub open spec fn edge_transition(t: ButtonTracker, a_low: bool, b_low: bool) -> (
    ButtonTracker,
    Option<UiRequest>,
) {
    (
        ButtonTracker { a_down: a_low, b_down: b_low, primed: t.primed },
        if b_low && !t.b_down {
            Some(UiRequest::FocusNext)
        } else if a_low && !t.a_down {
            Some(UiRequest::Activate)
        } else {
            None
        },
    )
}

impl ButtonTracker {
    /// Both buttons released, first poll still to come.
    pub fn new() -> (t: ButtonTracker)
        ensures
            t == (ButtonTracker { a_down: false, b_down: false, primed: false }),
    {
        ButtonTracker { a_down: false, b_down: false, primed: false }
    }

    /// Start a poll: returns `true` exactly on the first poll, which then only
    /// focuses the button; every later call returns `false`.
    pub fn prime(&mut self) -> (first_poll: bool)
        ensures
            first_poll == !old(self).primed,
            *final(self) == (ButtonTracker { primed: true, ..*old(self) }),
    {
        if !self.primed {
            self.primed = true;
            true
        } else {
            false
        }
    }

    /// Read the buttons: remember their levels and report a fresh press, B first.
    pub fn press_edges(&mut self, a_low: bool, b_low: bool) -> (request: Option<UiRequest>)
        ensures
            (*final(self), request) == edge_transition(*old(self), a_low, b_low),
            final(self).a_down == a_low,
            final(self).b_down == b_low,
            final(self).primed == old(self).primed,
            request == Some(UiRequest::FocusNext) <==> (b_low && !old(self).b_down),
            request == Some(UiRequest::Activate) <==> (a_low && !old(self).a_down && !(b_low
                && !old(self).b_down)),
            request is None <==> !(b_low && !old(self).b_down) && !(a_low && !old(self).a_down),
    {
        let a_edge = a_low && !self.a_down;
        let b_edge = b_low && !self.b_down;
        self.a_down = a_low;
        self.b_down = b_low;
        if b_edge {
            Some(UiRequest::FocusNext)
        } else if a_edge {
            Some(UiRequest::Activate)
        } else {
            None
        }
    }
}

/// One request per physical press: a button still held at the next reading raises
/// no new request.
pub proof fn lemma_held_buttons_request_nothing(t: ButtonTracker, a_low: bool, b_low: bool)
    ensures
        edge_transition(edge_transition(t, a_low, b_low).0, a_low, b_low).1 is None,
{
}

/// A press of A after a reading that saw it released activates the focused widget,
/// unless B is freshly pressed at the same reading.
pub proof fn lemma_a_press_activates(t: ButtonTracker, b_low: bool)
    requires
        !t.a_down,
        !(b_low && !t.b_down),
    ensures
        edge_transition(t, true, b_low).1 == Some(UiRequest::Activate),
{
}

/// A fresh press of B moves the focus, whatever A does.
pub proof fn lemma_b_press_wins(t: ButtonTracker, a_low: bool)
    requires
        !t.b_down,
    ensures
        edge_transition(t, a_low, true).1 == Some(UiRequest::FocusNext),
{
}

/// A reading leaves the tracker holding exactly the levels just read, whatever it held before.
pub proof fn lemma_reading_is_remembered(t: ButtonTracker, a_low: bool, b_low: bool)
    ensures
        edge_transition(t, a_low, b_low).0.a_down == a_low,
        edge_transition(t, a_low, b_low).0.b_down == b_low,
        edge_transition(t, a_low, b_low).0.primed == t.primed,
{
}

/// Only the latest reading matters: two trackers (primed alike) that have just read the
/// same levels answer every next reading the same way, whatever their earlier history.
pub proof fn lemma_history_forgotten(
    t1: ButtonTracker,
    t2: ButtonTracker,
    a_low: bool,
    b_low: bool,
    next_a: bool,
    next_b: bool,
)
    requires
        t1.primed == t2.primed,
    ensures
        edge_transition(edge_transition(t1, a_low, b_low).0, next_a, next_b) == edge_transition(
            edge_transition(t2, a_low, b_low).0,
            next_a,
            next_b,
        ),
{
}

/// A press of B that follows a reading with B released is reported as a focus move,
/// whatever A does and whatever came before.
pub proof fn lemma_b_press_after_release_reported(t: ButtonTracker, a0: bool, a1: bool)
    ensures
        edge_transition(edge_transition(t, a0, false).0, a1, true).1 == Some(UiRequest::FocusNext),
{
}

/// A press of A that follows a reading with A released is reported as an activation,
/// unless B is freshly pressed at the same reading.
pub proof fn lemma_a_press_after_release_reported(t: ButtonTracker, b0: bool, b1: bool)
    requires
        !(b1 && !b0),
    ensures
        edge_transition(edge_transition(t, false, b0).0, true, b1).1 == Some(UiRequest::Activate),
{
}

/// Press, release, press again: every press of B moves the focus once, and the
/// release raises nothing.
pub proof fn lemma_b_press_release_press(t: ButtonTracker)
    requires
        !t.a_down,
        !t.b_down,
    ensures
        ({
            let (t1, r1) = edge_transition(t, false, true);
            let (t2, r2) = edge_transition(t1, false, false);
            let (t3, r3) = edge_transition(t2, false, true);
            &&& r1 == Some(UiRequest::FocusNext)
            &&& r2 is None
            &&& r3 == Some(UiRequest::FocusNext)
        }),
{
}

/// Released buttons raise no request.
pub proof fn lemma_released_buttons_request_nothing(t: ButtonTracker)
    ensures
        edge_transition(t, false, false).1 is None,
{
}

} // verus!
