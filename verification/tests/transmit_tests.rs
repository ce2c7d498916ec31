use electrolux_ir::rmt::{ir_tx_settings, pack_symbols, RmtSymbol, SYMBOL_LEN};
use electrolux_ir::session::{SendAction, SendEvent, SendSession, FRAME_GAP_MS, FRAME_REPEATS};
use electrolux_ir::{build_off_frame, encode_frame, Pulse};

fn p(on: bool, micros: u16) -> Pulse {
    Pulse { carrier_on: on, micros }
}

#[test]
fn tx_settings_values() {
    let s = ir_tx_settings();
    assert_eq!(s.clk_divider, 80);
    assert_eq!(s.carrier_high, 13);
    assert_eq!(s.carrier_low, 13);
    assert!(s.idle_output && !s.idle_output_high);
    assert!(s.carrier_modulation && s.carrier_level_high);
}

#[test]
fn pack_pairs_and_end_marker() {
    let pulses = [p(true, 10), p(false, 20), p(true, 30), p(false, 40)];
    let symbols = pack_symbols(&pulses);
    assert_eq!(symbols.len(), 3);
    assert_eq!(symbols[0], RmtSymbol { level0: true, duration0: 10, level1: false, duration1: 20 });
    assert_eq!(symbols[1], RmtSymbol { level0: true, duration0: 30, level1: false, duration1: 40 });
    assert_eq!(symbols[2], RmtSymbol { level0: false, duration0: 0, level1: false, duration1: 0 });
}

#[test]
fn pack_odd_trailing_pulse() {
    let pulses = [p(true, 10), p(false, 20), p(true, 30)];
    let symbols = pack_symbols(&pulses);
    assert_eq!(symbols.len(), 3);
    assert_eq!(symbols[1], RmtSymbol { level0: true, duration0: 30, level1: false, duration1: 0 });
    assert_eq!(symbols[2], RmtSymbol { level0: false, duration0: 0, level1: false, duration1: 0 });
}

#[test]
fn pack_empty_is_end_marker_only() {
    let symbols = pack_symbols(&[]);
    assert_eq!(symbols.len(), 1);
    assert_eq!(symbols[0], RmtSymbol { level0: false, duration0: 0, level1: false, duration1: 0 });
}

#[test]
fn pack_encoded_frame_fills_buffer() {
    let pulses = encode_frame(&build_off_frame());
    let symbols = pack_symbols(&pulses);
    assert_eq!(symbols.len(), SYMBOL_LEN);
    assert_eq!(SYMBOL_LEN, 107);
    for k in 0..pulses.len() {
        let s = symbols[k / 2];
        let half = if k % 2 == 0 { p(s.level0, s.duration0) } else { p(s.level1, s.duration1) };
        assert_eq!(half, pulses[k]);
    }
    assert_eq!(symbols[106], RmtSymbol { level0: false, duration0: 0, level1: false, duration1: 0 });
}

#[test]
fn pack_too_long_is_cut_at_capacity() {
    let pulses = vec![p(true, 1); 2 * SYMBOL_LEN + 2];
    let symbols = pack_symbols(&pulses);
    assert_eq!(symbols.len(), SYMBOL_LEN);
    assert_eq!(symbols[SYMBOL_LEN - 1], RmtSymbol { level0: true, duration0: 1, level1: true, duration1: 1 });
}

fn run_clean(repeats: u8, gap: u32) -> Vec<SendAction> {
    let mut session = SendSession::new(repeats, gap);
    let mut actions = Vec::new();
    let mut event = SendEvent::Start;
    loop {
        let action = session.on_event(event);
        actions.push(action);
        event = match action {
            SendAction::Transmit => SendEvent::FrameDone,
            SendAction::Pause(_) => SendEvent::PauseDone,
            SendAction::Finish => break,
        };
    }
    actions
}

#[test]
fn session_sends_two_frames_with_gap() {
    let actions = run_clean(FRAME_REPEATS, FRAME_GAP_MS);
    assert_eq!(
        actions,
        vec![SendAction::Transmit, SendAction::Pause(40), SendAction::Transmit, SendAction::Finish]
    );
}

#[test]
fn session_zero_repeats_sends_nothing() {
    assert_eq!(run_clean(0, 40), vec![SendAction::Finish]);
}

#[test]
fn session_many_repeats() {
    let actions = run_clean(5, 7);
    let transmits = actions.iter().filter(|a| **a == SendAction::Transmit).count();
    let pauses = actions.iter().filter(|a| **a == SendAction::Pause(7)).count();
    assert_eq!((transmits, pauses), (5, 4));
    assert_eq!(actions.first(), Some(&SendAction::Transmit));
    assert_eq!(actions.last(), Some(&SendAction::Finish));
}

#[test]
fn session_abort_stops() {
    let mut session = SendSession::new(3, 40);
    assert_eq!(session.on_event(SendEvent::Start), SendAction::Transmit);
    assert_eq!(session.on_event(SendEvent::FrameAborted), SendAction::Finish);
    assert_eq!(session.on_event(SendEvent::PauseDone), SendAction::Finish);
    assert_eq!(session.on_event(SendEvent::FrameDone), SendAction::Finish);
}

#[test]
fn session_unexpected_report_ends_it() {
    let mut session = SendSession::new(3, 40);
    assert_eq!(session.on_event(SendEvent::FrameDone), SendAction::Finish);
    assert_eq!(session.on_event(SendEvent::Start), SendAction::Finish);
}
