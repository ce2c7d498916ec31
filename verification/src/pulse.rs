//! Raw mark/space pulse encoding of a frame (most significant bit first).

use vstd::prelude::*;

use crate::frame::{bit_of, FRAME_LEN};

verus! {

/// Carrier on/off segment with a duration in microseconds.
#[derive(Clone, Copy, Debug, PartialEq, Eq, Structural)]
pub struct Pulse {
    pub carrier_on: bool,
    pub micros: u16,
}

/// Header mark, in microseconds.
pub const HEADER_MARK: u16 = 8950;

/// Header space, in microseconds.
pub const HEADER_SPACE: u16 = 4530;

/// Mark that opens every data bit, in microseconds.
pub const BIT_MARK: u16 = 563;

/// Space that closes a `1` bit, in microseconds.
pub const ONE_SPACE: u16 = 1690;

/// Space that closes a `0` bit, in microseconds.
pub const ZERO_SPACE: u16 = 538;

/// Footer mark, in microseconds.
pub const FOOTER_MARK: u16 = 563;

/// Gap after the footer mark, in microseconds.
pub const FOOTER_GAP: u16 = 2000;

/// IR carrier frequency in hertz.
pub const CARRIER_HZ: u32 = 38_000;

/// Pulses in an encoded frame: header (2) + 8 bits of 2 pulses per byte + footer (2).
pub const PULSE_LEN: usize = 2 + FRAME_LEN * 8 * 2 + 2;

#[verifier::external_type_specification]
#[verifier::external_body]
#[verifier::reject_recursive_types(T)]
pub struct ExBoundedVec<T, const N: usize>(heapless::Vec<T, N>);

/// The pulses that a pulse list holds, in order.
pub uninterp spec fn pulse_list_contents(v: heapless::Vec<Pulse, PULSE_LEN>) -> Seq<Pulse>;

/// `heapless::Vec::new`: an empty list of capacity `PULSE_LEN`.
#[verifier::external_body]
fn new_pulse_list() -> (v: heapless::Vec<Pulse, PULSE_LEN>)
    ensures
        pulse_list_contents(v) == Seq::<Pulse>::empty(),
{
    heapless::Vec::new()
}

/// `heapless::Vec::push`: appends `p` when the list holds fewer than `PULSE_LEN`
/// pulses; otherwise leaves the list unchanged and hands `p` back.
#[verifier::external_body]
fn push_pulse(v: &mut heapless::Vec<Pulse, PULSE_LEN>, p: Pulse) -> (r: Result<(), Pulse>)
    ensures
        pulse_list_contents(*old(v)).len() < PULSE_LEN ==> {
            &&& r == Ok::<(), Pulse>(())
            &&& pulse_list_contents(*final(v)) == pulse_list_contents(*old(v)).push(p)
        },
        pulse_list_contents(*old(v)).len() >= PULSE_LEN ==> {
            &&& r == Err::<(), Pulse>(p)
            &&& pulse_list_contents(*final(v)) == pulse_list_contents(*old(v))
        },
{
    v.push(p)
}

/// A carrier-on segment of `micros` microseconds.
pub open spec fn mark(micros: u16) -> Pulse {
    Pulse { carrier_on: true, micros }
}

/// A carrier-off segment of `micros` microseconds.
pub open spec fn space(micros: u16) -> Pulse {
    Pulse { carrier_on: false, micros }
}

/// The two pulses of one data bit: the bit mark, then a long space for `1` or a short one for `0`.
pub open spec fn bit_pulses(one: bool) -> Seq<Pulse> {
    seq![mark(BIT_MARK), space(if one { ONE_SPACE } else { ZERO_SPACE })]
}

/// Pulses of the `n` most significant bits of `byte`, most significant first.
pub open spec fn leading_bits_pulses(byte: u8, n: nat) -> Seq<Pulse>
    decreases n,
{
    if n == 0 {
        Seq::empty()
    } else {
        leading_bits_pulses(byte, (n - 1) as nat) + bit_pulses(bit_of(byte, (8 - n) as u8) == 1)
    }
}

/// Pulses of all eight bits of `byte`, most significant first.
pub open spec fn byte_pulses(byte: u8) -> Seq<Pulse> {
    leading_bits_pulses(byte, 8)
}

/// Pulses of the bytes of `s`, in order.
pub open spec fn bytes_pulses(s: Seq<u8>) -> Seq<Pulse>
    decreases s.len(),
{
    if s.len() == 0 {
        Seq::empty()
    } else {
        bytes_pulses(s.drop_last()) + byte_pulses(s.last())
    }
}

/// Header pulses.
pub open spec fn header_pulses() -> Seq<Pulse> {
    seq![mark(HEADER_MARK), space(HEADER_SPACE)]
}

/// Footer pulses.
pub open spec fn footer_pulses() -> Seq<Pulse> {
    seq![mark(FOOTER_MARK), space(FOOTER_GAP)]
}

/// The full pulse train of a frame: header, the bytes MSB-first, footer.
pub open spec fn frame_pulses(frame: Seq<u8>) -> Seq<Pulse> {
    header_pulses() + bytes_pulses(frame) + footer_pulses()
}

proof fn lemma_leading_bits_pulses_len(byte: u8, n: nat)
    ensures
        leading_bits_pulses(byte, n).len() == 2 * n,
    decreases n,
{
    if n > 0 {
        lemma_leading_bits_pulses_len(byte, (n - 1) as nat);
    }
}

proof fn lemma_bytes_pulses_len(s: Seq<u8>)
    ensures
        bytes_pulses(s).len() == 16 * s.len(),
    decreases s.len(),
{
    if s.len() > 0 {
        lemma_bytes_pulses_len(s.drop_last());
        lemma_leading_bits_pulses_len(s.last(), 8);
    }
}

proof fn lemma_leading_bits_pulses_index(byte: u8, n: nat, j: int)
    requires
        0 <= j < n,
    ensures
        leading_bits_pulses(byte, n)[2 * j] == mark(BIT_MARK),
        leading_bits_pulses(byte, n)[2 * j + 1] == space(
            if bit_of(byte, (7 - j) as u8) == 1 { ONE_SPACE } else { ZERO_SPACE },
        ),
    decreases n,
{
    lemma_leading_bits_pulses_len(byte, (n - 1) as nat);
    if j < n - 1 {
        lemma_leading_bits_pulses_index(byte, (n - 1) as nat, j);
    }
}

proof fn lemma_bytes_pulses_index(s: Seq<u8>, b: int, r: int)
    requires
        0 <= b < s.len(),
        0 <= r < 16,
    ensures
        bytes_pulses(s)[16 * b + r] == byte_pulses(s[b])[r],
    decreases s.len(),
{
    lemma_bytes_pulses_len(s.drop_last());
    lemma_leading_bits_pulses_len(s[b], 8);
    lemma_leading_bits_pulses_len(s.last(), 8);
    if b < s.len() - 1 {
        assert(s.drop_last()[b] == s[b]);
        lemma_bytes_pulses_index(s.drop_last(), b, r);
    }
}

/// An encoded frame has `4 + 16 * len` pulses (212 for a 13-byte frame), opens with the
/// header mark and space and closes with the footer mark and gap.
pub proof fn lemma_frame_pulses_shape(frame: Seq<u8>)
    ensures
        frame_pulses(frame).len() == 4 + 16 * frame.len(),
        frame_pulses(frame)[0] == mark(HEADER_MARK),
        frame_pulses(frame)[1] == space(HEADER_SPACE),
        frame_pulses(frame)[2 + 16 * frame.len() as int] == mark(FOOTER_MARK),
        frame_pulses(frame)[3 + 16 * frame.len() as int] == space(FOOTER_GAP),
{
    lemma_bytes_pulses_len(frame);
}

/// Bit `j` (counted from the most significant) of byte `b` is sent as pulses
/// `2 + 16 * b + 2 * j` (the bit mark) and the one after it (a long space for `1`,
/// a short one for `0`).
pub proof fn lemma_frame_pulses_bit(frame: Seq<u8>, b: int, j: int)
    requires
        0 <= b < frame.len(),
        0 <= j < 8,
    ensures
        frame_pulses(frame)[2 + 16 * b + 2 * j] == mark(BIT_MARK),
        frame_pulses(frame)[2 + 16 * b + 2 * j + 1] == space(
            if bit_of(frame[b], (7 - j) as u8) == 1 { ONE_SPACE } else { ZERO_SPACE },
        ),
{
    lemma_bytes_pulses_len(frame);
    lemma_bytes_pulses_index(frame, b, 2 * j);
    lemma_bytes_pulses_index(frame, b, 2 * j + 1);
    lemma_leading_bits_pulses_index(frame[b], 8, j);
}

/// Marks and spaces alternate: even positions carry the carrier, odd positions are silent.
pub proof fn lemma_frame_pulses_alternate(frame: Seq<u8>, k: int)
    requires
        0 <= k < frame_pulses(frame).len(),
    ensures
        frame_pulses(frame)[k].carrier_on == (k % 2 == 0),
{
    lemma_frame_pulses_shape(frame);
    if 2 <= k < 2 + 16 * frame.len() {
        let b = (k - 2) / 16;
        let r = (k - 2) % 16;
        let j = r / 2;
        lemma_frame_pulses_bit(frame, b, j);
        assert(k == 2 + 16 * b + 2 * j || k == 2 + 16 * b + 2 * j + 1);
    }
}

/// Encode a 13-byte frame into the raw mark/space pulse list (MSB-first per byte).
pub fn encode_frame(frame: &[u8; FRAME_LEN]) -> (pulses: heapless::Vec<Pulse, PULSE_LEN>)
    ensures
        pulse_list_contents(pulses) == frame_pulses(frame@),
{
    let mut v = new_pulse_list();
    let _ = push_pulse(&mut v, Pulse { carrier_on: true, micros: HEADER_MARK });
    let _ = push_pulse(&mut v, Pulse { carrier_on: false, micros: HEADER_SPACE });
    assert(pulse_list_contents(v) =~= header_pulses() + bytes_pulses(frame@.take(0)));
    let mut i: usize = 0;
    while i < FRAME_LEN
        invariant
            i <= FRAME_LEN,
            pulse_list_contents(v) == header_pulses() + bytes_pulses(frame@.take(i as int)),
        decreases FRAME_LEN - i,
    {
        let byte = frame[i];
        let ghost before = pulse_list_contents(v);
        proof {
            lemma_bytes_pulses_len(frame@.take(i as int));
        }
        let mut bit: i8 = 7;
        while bit >= 0
            invariant
                -1 <= bit <= 7,
                i < FRAME_LEN,
                before.len() == 2 + 16 * i,
                pulse_list_contents(v) == before + leading_bits_pulses(byte, (7 - bit) as nat),
            decreases bit + 1,
        {
            proof {
                lemma_leading_bits_pulses_len(byte, (7 - bit) as nat);
            }
            let one = (byte >> (bit as u8)) & 1 == 1;
            let _ = push_pulse(&mut v, Pulse { carrier_on: true, micros: BIT_MARK });
            let _ = push_pulse(
                &mut v,
                Pulse { carrier_on: false, micros: if one { ONE_SPACE } else { ZERO_SPACE } },
            );
            proof {
                assert(bit_of(byte, (8 - (8 - bit)) as u8) == (byte >> (bit as u8)) & 1);
                assert(pulse_list_contents(v) =~= before + leading_bits_pulses(byte, (8 - bit) as nat));
            }
            bit -= 1;
        }
        proof {
            assert(frame@.take(i + 1).drop_last() =~= frame@.take(i as int));
            assert(pulse_list_contents(v) =~= header_pulses() + bytes_pulses(frame@.take(i + 1)));
        }
        i += 1;
    }
    proof {
        assert(frame@.take(FRAME_LEN as int) =~= frame@);
        lemma_bytes_pulses_len(frame@);
    }
    let _ = push_pulse(&mut v, Pulse { carrier_on: true, micros: FOOTER_MARK });
    let _ = push_pulse(&mut v, Pulse { carrier_on: false, micros: FOOTER_GAP });
    assert(pulse_list_contents(v) =~= frame_pulses(frame@));
    v
}

} // verus!
