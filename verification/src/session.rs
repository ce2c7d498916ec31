//! The decisions of a repeated IR transmission: send a frame, pause between
//! frames, stop after the last one or as soon as a frame cannot be sent.
//! The caller performs each action (transmit, pause) and reports how it went.

use vstd::prelude::*;

verus! {

/// Frames sent per button press: the receiver takes the second as a repeat.
pub const FRAME_REPEATS: u8 = 2;

/// Pause between consecutive frames, in milliseconds.
pub const FRAME_GAP_MS: u32 = 40;

/// Where a transmission session stands.
#[derive(Clone, Copy, Debug, PartialEq, Eq, Structural)]
pub enum SendPhase {
    /// Not started yet.
    Idle,
    /// A frame transmission has been requested and not reported yet.
    Transmitting,
    /// A pause between frames has been requested and not reported yet.
    Pausing,
    /// Nothing more to do.
    Finished,
}

/// What the caller reports to the session.
#[derive(Clone, Copy, Debug, PartialEq, Eq, Structural)]
pub enum SendEvent {
    /// Begin the session.
    Start,
    /// The requested frame went out (the channel came back, with or without a wait error).
    FrameDone,
    /// The requested frame could not be sent (no channel, or the transmission was refused).
    FrameAborted,
    /// The requested pause has elapsed.
    PauseDone,
}

/// What the session asks the caller to do next.
#[derive(Clone, Copy, Debug, PartialEq, Eq, Structural)]
pub enum SendAction {
    /// Transmit one frame.
    Transmit,
    /// Wait this many milliseconds.
    Pause(u32),
    /// Stop: the session is over.
    Finish,
}

/// Next frame count, phase and action after `event`, for a session of `repeats`
/// frames separated by `gap_ms`, that has completed `done` frames and is in `phase`.
/// An event that the phase does not expect ends the session.
pub open spec fn send_transition(
    repeats: u8,
    gap_ms: u32,
    done: u8,
    phase: SendPhase,
    event: SendEvent,
) -> (u8, SendPhase, SendAction) {
    match (phase, event) {
        (SendPhase::Idle, SendEvent::Start) => if repeats == 0 {
            (done, SendPhase::Finished, SendAction::Finish)
        } else {
            (done, SendPhase::Transmitting, SendAction::Transmit)
        },
        (SendPhase::Transmitting, SendEvent::FrameDone) => if done + 1 < repeats {
            ((done + 1) as u8, SendPhase::Pausing, SendAction::Pause(gap_ms))
        } else {
            ((done + 1) as u8, SendPhase::Finished, SendAction::Finish)
        },
        (SendPhase::Transmitting, SendEvent::FrameAborted) => (
            done,
            SendPhase::Finished,
            SendAction::Finish,
        ),
        (SendPhase::Pausing, SendEvent::PauseDone) => (
            done,
            SendPhase::Transmitting,
            SendAction::Transmit,
        ),
        _ => (done, SendPhase::Finished, SendAction::Finish),
    }
}

/// The states a session can be in: never more frames done than asked for, a frame
/// still to send while transmitting or pausing, and a pause only after a frame.
pub open spec fn send_state_ok(repeats: u8, done: u8, phase: SendPhase) -> bool {
    &&& done <= repeats
    &&& (phase == SendPhase::Idle ==> done == 0)
    &&& (phase == SendPhase::Transmitting ==> done < repeats)
    &&& (phase == SendPhase::Pausing ==> 0 < done < repeats)
}

/// The actions a session of `repeats` frames `gap_ms` apart asks for when it is fed
/// `events`, one action per event, from `done` completed frames in `phase`.
pub open spec fn run_events(
    repeats: u8,
    gap_ms: u32,
    done: u8,
    phase: SendPhase,
    events: Seq<SendEvent>,
) -> Seq<SendAction>
    decreases events.len(),
{
    if events.len() == 0 {
        Seq::empty()
    } else {
        let (next_done, next_phase, action) = send_transition(repeats, gap_ms, done, phase, events[0]);
        seq![action] + run_events(repeats, gap_ms, next_done, next_phase, events.drop_first())
    }
}

/// How many of `actions` ask for a frame transmission.
pub open spec fn transmit_count(actions: Seq<SendAction>) -> nat
    decreases actions.len(),
{
    if actions.len() == 0 {
        0
    } else {
        (if actions[0] == SendAction::Transmit { 1nat } else { 0nat }) + transmit_count(actions.drop_first())
    }
}

/// `n` rounds of "pause, transmit".
pub open spec fn pause_transmit_rounds(gap_ms: u32, n: nat) -> Seq<SendAction>
    decreases n,
{
    if n == 0 {
        Seq::empty()
    } else {
        seq![SendAction::Pause(gap_ms), SendAction::Transmit] + pause_transmit_rounds(gap_ms, (n - 1) as nat)
    }
}

/// `n` rounds of "frame done, pause done".
pub open spec fn frame_pause_reports(n: nat) -> Seq<SendEvent>
    decreases n,
{
    if n == 0 {
        Seq::empty()
    } else {
        seq![SendEvent::FrameDone, SendEvent::PauseDone] + frame_pause_reports((n - 1) as nat)
    }
}

/// The reports of a session of `repeats` frames in which every frame goes out.
pub open spec fn clean_reports(repeats: u8) -> Seq<SendEvent> {
    if repeats == 0 {
        seq![SendEvent::Start]
    } else {
        seq![SendEvent::Start] + frame_pause_reports((repeats - 1) as nat) + seq![SendEvent::FrameDone]
    }
}

/// What such a session asks for: each frame, a pause between consecutive frames
/// (none before the first), then the end.
pub open spec fn clean_actions(repeats: u8, gap_ms: u32) -> Seq<SendAction> {
    if repeats == 0 {
        seq![SendAction::Finish]
    } else {
        seq![SendAction::Transmit] + pause_transmit_rounds(gap_ms, (repeats - 1) as nat) + seq![SendAction::Finish]
    }
}

/// Transmissions still allowed from a state: the frames not yet sent, less the one
/// being transmitted; none once finished.
spec fn transmit_budget(repeats: u8, done: u8, phase: SendPhase) -> int {
    match phase {
        SendPhase::Idle => repeats - done,
        SendPhase::Transmitting => repeats - done - 1,
        SendPhase::Pausing => repeats - done,
        SendPhase::Finished => 0,
    }
}

proof fn lemma_run_events_unfold(
    repeats: u8,
    gap_ms: u32,
    done: u8,
    phase: SendPhase,
    events: Seq<SendEvent>,
)
    requires
        events.len() > 0,
    ensures
        ({
            let (d, p, a) = send_transition(repeats, gap_ms, done, phase, events[0]);
            &&& run_events(repeats, gap_ms, done, phase, events)[0] == a
            &&& run_events(repeats, gap_ms, done, phase, events).drop_first() == run_events(
                repeats,
                gap_ms,
                d,
                p,
                events.drop_first(),
            )
        }),
{
    let (d, p, a) = send_transition(repeats, gap_ms, done, phase, events[0]);
    assert((seq![a] + run_events(repeats, gap_ms, d, p, events.drop_first())).drop_first()
        =~= run_events(repeats, gap_ms, d, p, events.drop_first()));
}

/// Every transition keeps a session in a state that `send_state_ok` admits; a
/// transmission is asked for only while frames remain, and each report of a sent
/// frame counts exactly one frame.
pub proof fn lemma_transition_keeps_state_ok(
    repeats: u8,
    gap_ms: u32,
    done: u8,
    phase: SendPhase,
    event: SendEvent,
)
    requires
        send_state_ok(repeats, done, phase),
    ensures
        ({
            let (d, p, a) = send_transition(repeats, gap_ms, done, phase, event);
            &&& send_state_ok(repeats, d, p)
            &&& a == SendAction::Transmit ==> d < repeats && d == done
            &&& d == if phase == SendPhase::Transmitting && event == SendEvent::FrameDone {
                done + 1
            } else {
                done as int
            }
        }),
{
}

proof fn lemma_transmit_count_within_budget(
    repeats: u8,
    gap_ms: u32,
    done: u8,
    phase: SendPhase,
    events: Seq<SendEvent>,
)
    requires
        send_state_ok(repeats, done, phase),
    ensures
        transmit_count(run_events(repeats, gap_ms, done, phase, events)) <= transmit_budget(
            repeats,
            done,
            phase,
        ),
    decreases events.len(),
{
    if events.len() > 0 {
        let (d, p, a) = send_transition(repeats, gap_ms, done, phase, events[0]);
        lemma_run_events_unfold(repeats, gap_ms, done, phase, events);
        lemma_transmit_count_within_budget(repeats, gap_ms, d, p, events.drop_first());
    }
}

/// Whatever the caller reports, a session asks for at most `repeats` transmissions.
pub proof fn lemma_at_most_repeats_transmissions(repeats: u8, gap_ms: u32, events: Seq<SendEvent>)
    ensures
        transmit_count(run_events(repeats, gap_ms, 0, SendPhase::Idle, events)) <= repeats,
{
    lemma_transmit_count_within_budget(repeats, gap_ms, 0, SendPhase::Idle, events);
}

/// Once finished, a session stays finished and asks for nothing but the end.
pub proof fn lemma_finished_is_final(repeats: u8, gap_ms: u32, done: u8, events: Seq<SendEvent>)
    ensures
        run_events(repeats, gap_ms, done, SendPhase::Finished, events) == Seq::new(
            events.len(),
            |i: int| SendAction::Finish,
        ),
    decreases events.len(),
{
    if events.len() > 0 {
        lemma_finished_is_final(repeats, gap_ms, done, events.drop_first());
    }
    assert(run_events(repeats, gap_ms, done, SendPhase::Finished, events) =~= Seq::new(
        events.len(),
        |i: int| SendAction::Finish,
    ));
}

/// A frame that cannot be sent ends the session at once.
pub proof fn lemma_abort_finishes(repeats: u8, gap_ms: u32, done: u8)
    ensures
        send_transition(repeats, gap_ms, done, SendPhase::Transmitting, SendEvent::FrameAborted) == (
            done,
            SendPhase::Finished,
            SendAction::Finish,
        ),
{
}

proof fn lemma_clean_tail(repeats: u8, gap_ms: u32, done: u8, n: nat)
    requires
        done < repeats,
        done + n + 1 == repeats,
    ensures
        run_events(
            repeats,
            gap_ms,
            done,
            SendPhase::Transmitting,
            frame_pause_reports(n) + seq![SendEvent::FrameDone],
        ) == pause_transmit_rounds(gap_ms, n) + seq![SendAction::Finish],
    decreases n,
{
    let evs = frame_pause_reports(n) + seq![SendEvent::FrameDone];
    if n == 0 {
        assert(evs =~= seq![SendEvent::FrameDone]);
        assert(evs.drop_first() =~= Seq::<SendEvent>::empty());
        let empty = run_events(repeats, gap_ms, (done + 1) as u8, SendPhase::Finished, evs.drop_first());
        assert(empty =~= Seq::<SendAction>::empty());
        assert(run_events(repeats, gap_ms, done, SendPhase::Transmitting, evs) == seq![SendAction::Finish] + empty);
    } else {
        let rest = frame_pause_reports((n - 1) as nat) + seq![SendEvent::FrameDone];
        assert(evs[0] == SendEvent::FrameDone);
        assert(evs.drop_first()[0] == SendEvent::PauseDone);
        assert(evs.drop_first().drop_first() =~= rest);
        lemma_clean_tail(repeats, gap_ms, (done + 1) as u8, (n - 1) as nat);
        let tail = run_events(repeats, gap_ms, (done + 1) as u8, SendPhase::Transmitting, rest);
        assert(run_events(repeats, gap_ms, (done + 1) as u8, SendPhase::Pausing, evs.drop_first())
            == seq![SendAction::Transmit] + tail);
        assert(run_events(repeats, gap_ms, done, SendPhase::Transmitting, evs) =~= seq![
            SendAction::Pause(gap_ms),
            SendAction::Transmit,
        ] + tail);
        assert(pause_transmit_rounds(gap_ms, n) + seq![SendAction::Finish] =~= seq![
            SendAction::Pause(gap_ms),
            SendAction::Transmit,
        ] + (pause_transmit_rounds(gap_ms, (n - 1) as nat) + seq![SendAction::Finish]));
    }
}

/// When every frame goes out, a session of `repeats` frames transmits each of them,
/// pauses `gap_ms` between consecutive frames and never before the first, then ends.
pub proof fn lemma_clean_session(repeats: u8, gap_ms: u32)
    ensures
        run_events(repeats, gap_ms, 0, SendPhase::Idle, clean_reports(repeats)) == clean_actions(
            repeats,
            gap_ms,
        ),
{
    let evs = clean_reports(repeats);
    if repeats == 0 {
        assert(evs.drop_first() =~= Seq::<SendEvent>::empty());
        let empty = run_events(repeats, gap_ms, 0, SendPhase::Finished, evs.drop_first());
        assert(empty =~= Seq::<SendAction>::empty());
        assert(run_events(repeats, gap_ms, 0, SendPhase::Idle, evs) == seq![SendAction::Finish] + empty);
    } else {
        let rest = frame_pause_reports((repeats - 1) as nat) + seq![SendEvent::FrameDone];
        assert(evs.drop_first() =~= rest);
        lemma_clean_tail(repeats, gap_ms, 0, (repeats - 1) as nat);
        assert(run_events(repeats, gap_ms, 0, SendPhase::Idle, evs) =~= seq![SendAction::Transmit]
            + run_events(repeats, gap_ms, 0, SendPhase::Transmitting, rest));
        assert(clean_actions(repeats, gap_ms) =~= seq![SendAction::Transmit] + (pause_transmit_rounds(
            gap_ms,
            (repeats - 1) as nat,
        ) + seq![SendAction::Finish]));
    }
}

/// A transmission of `repeats` frames with `gap_ms` milliseconds between frames.
pub struct SendSession {
    repeats: u8,
    gap_ms: u32,
    done: u8,
    phase: SendPhase,
}

impl SendSession {
    #[verifier::type_invariant]
    spec fn inv(self) -> bool {
        send_state_ok(self.repeats, self.done, self.phase)
    }

    /// Frames this session sends when nothing fails.
    pub closed spec fn spec_repeats(self) -> u8 {
        self.repeats
    }

    /// Pause between frames, in milliseconds.
    pub closed spec fn spec_gap_ms(self) -> u32 {
        self.gap_ms
    }

    /// Frames completed so far.
    pub closed spec fn spec_done(self) -> u8 {
        self.done
    }

    /// Where the session stands.
    pub closed spec fn spec_phase(self) -> SendPhase {
        self.phase
    }

    /// A session that has not started, for `repeats` frames `gap_ms` apart.
    pub fn new(repeats: u8, gap_ms: u32) -> (s: SendSession)
        ensures
            s.spec_repeats() == repeats,
            s.spec_gap_ms() == gap_ms,
            s.spec_done() == 0,
            s.spec_phase() == SendPhase::Idle,
            send_state_ok(s.spec_repeats(), s.spec_done(), s.spec_phase()),
    {
        SendSession { repeats, gap_ms, done: 0, phase: SendPhase::Idle }
    }

    /// Take the caller's report and say what to do next.
    pub fn on_event(&mut self, event: SendEvent) -> (action: SendAction)
        ensures
            final(self).spec_repeats() == old(self).spec_repeats(),
            final(self).spec_gap_ms() == old(self).spec_gap_ms(),
            send_state_ok(old(self).spec_repeats(), old(self).spec_done(), old(self).spec_phase()),
            send_state_ok(final(self).spec_repeats(), final(self).spec_done(), final(self).spec_phase()),
            (final(self).spec_done(), final(self).spec_phase(), action) == send_transition(
                old(self).spec_repeats(),
                old(self).spec_gap_ms(),
                old(self).spec_done(),
                old(self).spec_phase(),
                event,
            ),
    {
        proof {
            use_type_invariant(&*self);
        }
        match (self.phase, event) {
            (SendPhase::Idle, SendEvent::Start) => {
                if self.repeats == 0 {
                    self.phase = SendPhase::Finished;
                    SendAction::Finish
                } else {
                    self.phase = SendPhase::Transmitting;
                    SendAction::Transmit
                }
            },
            (SendPhase::Transmitting, SendEvent::FrameDone) => {
                let done = self.done + 1;
                if done < self.repeats {
                    *self = SendSession { repeats: self.repeats, gap_ms: self.gap_ms, done, phase: SendPhase::Pausing };
                    SendAction::Pause(self.gap_ms)
                } else {
                    *self = SendSession { repeats: self.repeats, gap_ms: self.gap_ms, done, phase: SendPhase::Finished };
                    SendAction::Finish
                }
            },
            (SendPhase::Pausing, SendEvent::PauseDone) => {
                self.phase = SendPhase::Transmitting;
                SendAction::Transmit
            },
            _ => {
                self.phase = SendPhase::Finished;
                SendAction::Finish
            },
        }
    }
}

} // verus!
