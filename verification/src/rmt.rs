//! What the IR transmitter hands the RMT peripheral: its channel settings and the
//! pulse list packed two pulses per symbol, closed by an end marker.

use vstd::prelude::*;

use crate::pulse::{
    frame_pulses, lemma_frame_pulses_bit, lemma_frame_pulses_shape, Pulse, CARRIER_HZ, PULSE_LEN,
};

verus! {

/// RMT source clock divider: the 80 MHz APB clock divided by 80 gives 1 tick per microsecond.
pub const RMT_CLK_DIVIDER: u8 = 80;

/// RMT channel clock in hertz once divided (one tick per microsecond).
pub const RMT_TICK_HZ: u32 = 1_000_000;

/// Longest duration, in ticks, that one half of a symbol can hold.
pub const RMT_MAX_DURATION: u16 = 0x7FFF;

/// Symbols the transmitter buffer holds: two pulses per symbol, plus one end marker.
pub const SYMBOL_LEN: usize = PULSE_LEN / 2 + 1;

/// One RMT symbol: a first segment (`level0` for `duration0` ticks) followed by a
/// second (`level1` for `duration1` ticks). A level is `true` for high (carrier gated on).
#[derive(Clone, Copy, Debug, PartialEq, Eq, Structural)]
pub struct RmtSymbol {
    pub level0: bool,
    pub duration0: u16,
    pub level1: bool,
    pub duration1: u16,
}

/// Settings of the RMT transmit channel that drives the IR LED.
#[derive(Clone, Copy, Debug, PartialEq, Eq, Structural)]
pub struct TxSettings {
    /// Source clock divider.
    pub clk_divider: u8,
    /// Whether the idle output level is driven.
    pub idle_output: bool,
    /// Idle output level (`true` for high).
    pub idle_output_high: bool,
    /// Whether the carrier is gated onto high segments.
    pub carrier_modulation: bool,
    /// Carrier high phase, in ticks.
    pub carrier_high: u16,
    /// Carrier low phase, in ticks.
    pub carrier_low: u16,
    /// Level on which the carrier is gated (`true` for high).
    pub carrier_level_high: bool,
}

/// Half a period of the IR carrier, in RMT ticks (rounded down).
pub open spec fn carrier_half_period_ticks() -> int {
    RMT_TICK_HZ as int / (2 * CARRIER_HZ as int)
}

/// Channel settings for a gated 38 kHz carrier with a silent (low) idle line.
pub fn ir_tx_settings() -> (s: TxSettings)
    ensures
        s.clk_divider == RMT_CLK_DIVIDER,
        s.idle_output,
        !s.idle_output_high,
        s.carrier_modulation,
        s.carrier_high == carrier_half_period_ticks(),
        s.carrier_low == carrier_half_period_ticks(),
        s.carrier_level_high,
{
    let half: u32 = RMT_TICK_HZ / (CARRIER_HZ * 2);
    assert(half == 13) by (nonlinear_arith)
        requires
            half == 1_000_000int / 76_000int,
    ;
    TxSettings {
        clk_divider: RMT_CLK_DIVIDER,
        idle_output: true,
        idle_output_high: false,
        carrier_modulation: true,
        carrier_high: half as u16,
        carrier_low: half as u16,
        carrier_level_high: true,
    }
}

/// The symbols that a symbol list holds, in order.
pub uninterp spec fn symbol_list_contents(v: heapless::Vec<RmtSymbol, SYMBOL_LEN>) -> Seq<RmtSymbol>;

/// `heapless::Vec::new`: an empty list of capacity `SYMBOL_LEN`.
#[verifier::external_body]
fn new_symbol_list() -> (v: heapless::Vec<RmtSymbol, SYMBOL_LEN>)
    ensures
        symbol_list_contents(v) == Seq::<RmtSymbol>::empty(),
{
    heapless::Vec::new()
}

/// `heapless::Vec::push`: appends `s` when the list holds fewer than `SYMBOL_LEN`
/// symbols; otherwise leaves the list unchanged and hands `s` back.
#[verifier::external_body]
fn push_symbol(v: &mut heapless::Vec<RmtSymbol, SYMBOL_LEN>, s: RmtSymbol) -> (r: Result<(), RmtSymbol>)
    ensures
        symbol_list_contents(*old(v)).len() < SYMBOL_LEN ==> {
            &&& r == Ok::<(), RmtSymbol>(())
            &&& symbol_list_contents(*final(v)) == symbol_list_contents(*old(v)).push(s)
        },
        symbol_list_contents(*old(v)).len() >= SYMBOL_LEN ==> {
            &&& r == Err::<(), RmtSymbol>(s)
            &&& symbol_list_contents(*final(v)) == symbol_list_contents(*old(v))
        },
{
    v.push(s)
}

/// The symbol that sends pulse `a` and then pulse `b`.
pub open spec fn pair_symbol(a: Pulse, b: Pulse) -> RmtSymbol {
    RmtSymbol { level0: a.carrier_on, duration0: a.micros, level1: b.carrier_on, duration1: b.micros }
}

/// The symbol that sends a lone trailing pulse `a`, with a zero-length low second half.
pub open spec fn lone_symbol(a: Pulse) -> RmtSymbol {
    RmtSymbol { level0: a.carrier_on, duration0: a.micros, level1: false, duration1: 0 }
}

/// The all-zero symbol that ends a transmission.
pub open spec fn end_marker() -> RmtSymbol {
    RmtSymbol { level0: false, duration0: 0, level1: false, duration1: 0 }
}

/// Consecutive pairs of `p` (`p[0]p[1]`, `p[2]p[3]`, ...), a trailing odd pulse left out.
pub open spec fn paired_symbols(p: Seq<Pulse>) -> Seq<RmtSymbol> {
    Seq::new(p.len() / 2, |i: int| pair_symbol(p[2 * i], p[2 * i + 1]))
}

/// Every symbol that sending `p` takes: the pairs, a lone symbol for an odd last
/// pulse, and the end marker.
pub open spec fn all_symbols(p: Seq<Pulse>) -> Seq<RmtSymbol> {
    paired_symbols(p) + (if p.len() % 2 == 1 {
        seq![lone_symbol(p.last())]
    } else {
        Seq::empty()
    }) + seq![end_marker()]
}

/// The symbols that fit in the transmitter buffer: the first `SYMBOL_LEN` of `all_symbols(p)`.
pub open spec fn packed_symbols(p: Seq<Pulse>) -> Seq<RmtSymbol> {
    let all = all_symbols(p);
    if all.len() <= SYMBOL_LEN {
        all
    } else {
        all.take(SYMBOL_LEN as int)
    }
}

/// Every pulse fits in half a symbol.
pub open spec fn pulses_fit_symbols(p: Seq<Pulse>) -> bool {
    forall|i: int| 0 <= i < p.len() ==> #[trigger] p[i].micros <= RMT_MAX_DURATION
}

/// Every duration in the symbol fits its half.
pub open spec fn symbol_fits(s: RmtSymbol) -> bool {
    s.duration0 <= RMT_MAX_DURATION && s.duration1 <= RMT_MAX_DURATION
}

/// The pulse that the first (`second == false`) or second half of `s` sends.
pub open spec fn symbol_half(s: RmtSymbol, second: bool) -> Pulse {
    if second {
        Pulse { carrier_on: s.level1, micros: s.duration1 }
    } else {
        Pulse { carrier_on: s.level0, micros: s.duration0 }
    }
}

/// When every pulse fits in half a symbol, so does every packed symbol.
pub proof fn lemma_packed_symbols_fit(p: Seq<Pulse>)
    requires
        pulses_fit_symbols(p),
    ensures
        forall|i: int| 0 <= i < packed_symbols(p).len() ==> symbol_fits(#[trigger] packed_symbols(p)[i]),
{
    let all = all_symbols(p);
    assert forall|i: int| 0 <= i < all.len() implies symbol_fits(#[trigger] all[i]) by {
        if i < p.len() / 2 {
            assert(p[2 * i].micros <= RMT_MAX_DURATION);
            assert(p[2 * i + 1].micros <= RMT_MAX_DURATION);
        } else if p.len() % 2 == 1 && i == p.len() / 2 {
            assert(p[p.len() - 1].micros <= RMT_MAX_DURATION);
        }
    }
}

/// A pulse list of even length that fits the buffer is packed without loss: pulse `k`
/// is half `k % 2` of symbol `k / 2`, and the symbol after the last pair is the end marker.
pub proof fn lemma_packing_lossless(p: Seq<Pulse>)
    requires
        p.len() % 2 == 0,
        p.len() <= 2 * (SYMBOL_LEN - 1),
    ensures
        packed_symbols(p).len() == p.len() / 2 + 1,
        packed_symbols(p)[(p.len() / 2) as int] == end_marker(),
        forall|k: int|
            0 <= k < p.len() ==> symbol_half(#[trigger] packed_symbols(p)[k / 2], k % 2 == 1) == p[k],
{
    let packed = packed_symbols(p);
    assert forall|k: int| 0 <= k < p.len() implies symbol_half(
        #[trigger] packed[k / 2],
        k % 2 == 1,
    ) == p[k] by {
        let i = k / 2;
        assert(packed[i] == pair_symbol(p[2 * i], p[2 * i + 1]));
        assert(k == 2 * i || k == 2 * i + 1);
    }
}

/// For every pulse list: as many symbols as fit (pairs, a lone symbol for an odd last
/// pulse, an end marker; at most `SYMBOL_LEN`), and every full pair that is kept sends
/// pulses `2i` and `2i + 1` in order.
pub proof fn lemma_packing_keeps_pairs_in_order(p: Seq<Pulse>)
    ensures
        packed_symbols(p).len() == if p.len() / 2 + p.len() % 2 + 1 <= SYMBOL_LEN {
            p.len() / 2 + p.len() % 2 + 1
        } else {
            SYMBOL_LEN as nat
        },
        forall|i: int|
            0 <= i < p.len() / 2 && i < SYMBOL_LEN ==> {
                &&& symbol_half(#[trigger] packed_symbols(p)[i], false) == p[2 * i]
                &&& symbol_half(packed_symbols(p)[i], true) == p[2 * i + 1]
            },
{
}

/// A list of odd length that fits ends with its last pulse alone in a symbol (second
/// half low for zero ticks), then the end marker.
pub proof fn lemma_packing_odd_tail(p: Seq<Pulse>)
    requires
        p.len() % 2 == 1,
        p.len() / 2 + 2 <= SYMBOL_LEN,
    ensures
        packed_symbols(p).len() == p.len() / 2 + 2,
        symbol_half(packed_symbols(p)[(p.len() / 2) as int], false) == p[p.len() - 1],
        symbol_half(packed_symbols(p)[(p.len() / 2) as int], true) == (Pulse {
            carrier_on: false,
            micros: 0,
        }),
        packed_symbols(p)[(p.len() / 2 + 1) as int] == end_marker(),
{
}

/// Every pulse of an encoded frame fits in half a symbol.
pub proof fn lemma_frame_pulses_fit(frame: Seq<u8>)
    ensures
        pulses_fit_symbols(frame_pulses(frame)),
{
    lemma_frame_pulses_shape(frame);
    let p = frame_pulses(frame);
    assert forall|k: int| 0 <= k < p.len() implies #[trigger] p[k].micros <= RMT_MAX_DURATION by {
        if 2 <= k < 2 + 16 * frame.len() {
            let b = (k - 2) / 16;
            let j = ((k - 2) % 16) / 2;
            lemma_frame_pulses_bit(frame, b, j);
            assert(k == 2 + 16 * b + 2 * j || k == 2 + 16 * b + 2 * j + 1);
        }
    }
}

/// An encoded 13-byte frame fills the transmitter buffer exactly and loses nothing:
/// 106 symbols of two pulses each, then the end marker.
pub proof fn lemma_encoded_frame_packs_whole(frame: Seq<u8>)
    requires
        frame.len() == crate::frame::FRAME_LEN,
    ensures
        packed_symbols(frame_pulses(frame)).len() == SYMBOL_LEN,
        packed_symbols(frame_pulses(frame))[SYMBOL_LEN - 1] == end_marker(),
        forall|k: int|
            0 <= k < PULSE_LEN ==> symbol_half(
                #[trigger] packed_symbols(frame_pulses(frame))[k / 2],
                k % 2 == 1,
            ) == frame_pulses(frame)[k],
{
    lemma_frame_pulses_shape(frame);
    lemma_packing_lossless(frame_pulses(frame));
}

/// Pack `pulses` two per symbol and close with an end marker, keeping what fits in
/// `SYMBOL_LEN` symbols.
pub fn pack_symbols(pulses: &[Pulse]) -> (symbols: heapless::Vec<RmtSymbol, SYMBOL_LEN>)
    ensures
        symbol_list_contents(symbols) == packed_symbols(pulses@),
{
    let n = pulses.len();
    let mut data = new_symbol_list();
    let mut k: usize = 0;
    while k < n / 2
        invariant
            n == pulses@.len(),
            k <= n / 2,
            symbol_list_contents(data) == paired_symbols(pulses@).take(
                if k <= SYMBOL_LEN { k as int } else { SYMBOL_LEN as int },
            ),
        decreases n / 2 - k,
    {
        let first = pulses[2 * k];
        let second = pulses[2 * k + 1];
        let code = RmtSymbol {
            level0: first.carrier_on,
            duration0: first.micros,
            level1: second.carrier_on,
            duration1: second.micros,
        };
        let _ = push_symbol(&mut data, code);
        assert(symbol_list_contents(data) =~= paired_symbols(pulses@).take(
            if k + 1 <= SYMBOL_LEN { k + 1 } else { SYMBOL_LEN as int },
        ));
        k += 1;
    }
    if n % 2 == 1 {
        let last = pulses[n - 1];
        let code = RmtSymbol {
            level0: last.carrier_on,
            duration0: last.micros,
            level1: false,
            duration1: 0,
        };
        let _ = push_symbol(&mut data, code);
    }
    let _ = push_symbol(
        &mut data,
        RmtSymbol { level0: false, duration0: 0, level1: false, duration1: 0 },
    );
    assert(symbol_list_contents(data) =~= packed_symbols(pulses@));
    data
}

} // verus!
