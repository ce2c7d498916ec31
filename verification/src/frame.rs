//! The 13-byte Electrolux frame and its bit-reversed checksum.

use vstd::prelude::*;

verus! {

/// Number of bytes in an Electrolux frame.
pub const FRAME_LEN: usize = 13;

/// Bit `i` (0 = least significant) of the byte `b`.
pub open spec fn bit_of(b: u8, i: u8) -> u8 {
    (b >> i) & 1
}

/// The byte whose bit `7 - i` is bit `i` of `b`, for every `i` below 8.
pub open spec fn reversed_byte(b: u8) -> u8 {
    (bit_of(b, 0) << 7u8) | (bit_of(b, 1) << 6u8) | (bit_of(b, 2) << 5u8) | (bit_of(b, 3) << 4u8)
        | (bit_of(b, 4) << 3u8) | (bit_of(b, 5) << 2u8) | (bit_of(b, 6) << 1u8) | bit_of(b, 7)
}

/// The value `reverse_bits` has accumulated after its first `n` rounds.
spec fn reversal_prefix(b: u8, n: nat) -> u8
    decreases n,
{
    if n == 0 {
        0
    } else {
        (reversal_prefix(b, (n - 1) as nat) << 1u8) | bit_of(b, (n - 1) as u8)
    }
}

proof fn lemma_reversal_prefix_complete(b: u8)
    ensures
        reversal_prefix(b, 8) == reversed_byte(b),
{
    reveal_with_fuel(reversal_prefix, 9);
    let p1 = reversal_prefix(b, 1);
    let p2 = reversal_prefix(b, 2);
    let p3 = reversal_prefix(b, 3);
    let p4 = reversal_prefix(b, 4);
    let p5 = reversal_prefix(b, 5);
    let p6 = reversal_prefix(b, 6);
    let p7 = reversal_prefix(b, 7);
    let p8 = reversal_prefix(b, 8);
    assert(p8 == reversed_byte(b)) by (bit_vector)
        requires
            p1 == (0u8 << 1u8) | ((b >> 0u8) & 1),
            p2 == (p1 << 1u8) | ((b >> 1u8) & 1),
            p3 == (p2 << 1u8) | ((b >> 2u8) & 1),
            p4 == (p3 << 1u8) | ((b >> 3u8) & 1),
            p5 == (p4 << 1u8) | ((b >> 4u8) & 1),
            p6 == (p5 << 1u8) | ((b >> 5u8) & 1),
            p7 == (p6 << 1u8) | ((b >> 6u8) & 1),
            p8 == (p7 << 1u8) | ((b >> 7u8) & 1),
    ;
}

/// Reverse the bit order of a byte (least significant bit becomes most significant).
pub fn reverse_bits(b: u8) -> (r: u8)
    ensures
        r == reversed_byte(b),
{
    let ghost b0 = b;
    let mut b = b;
    let mut r: u8 = 0;
    let mut i: u8 = 0;
    assert(b0 >> 0u8 == b0) by (bit_vector);
    while i < 8
        invariant
            i <= 8,
            b == b0 >> i,
            r == reversal_prefix(b0, i as nat),
        decreases 8 - i,
    {
        proof {
            assert((b0 >> i) & 1 == bit_of(b0, i));
            assert(((b0 >> i) >> 1u8) == b0 >> ((i + 1) as u8)) by (bit_vector)
                requires
                    i < 8,
            ;
        }
        r = (r << 1) | (b & 1);
        b >>= 1;
        i += 1;
    }
    proof {
        lemma_reversal_prefix_complete(b0);
    }
    r
}

/// Bit `i` of the reversed byte is bit `7 - i` of the original, for every bit position.
pub proof fn lemma_reversed_byte_bits(b: u8, i: u8)
    by (bit_vector)
    requires
        i < 8,
    ensures
        bit_of(reversed_byte(b), i) == bit_of(b, (7 - i) as u8),
{
}

/// Reversing the bits of a byte twice gives the byte back.
pub proof fn lemma_reverse_bits_involution(b: u8)
    by (bit_vector)
    ensures
        reversed_byte(reversed_byte(b)) == b,
{
}

/// Fixed first byte of every frame.
pub const FRAME_HEADER: u8 = 0xC3;

/// Second-byte bits for "swing off"; the low bits carry the temperature field.
pub const SWING_OFF: u8 = 0xE0;

/// Fifth byte for "fan low".
pub const FAN_LOW: u8 = 0x06;

/// Set-point carried by the OFF frame, in degrees Celsius.
pub const OFF_TEMPERATURE: u8 = 24;

/// Lowest set-point the temperature field encodes (the field holds `temp - 8`).
pub const TEMPERATURE_OFFSET: u8 = 8;

/// Sum of the bit-reversed bytes of `s`.
pub open spec fn reversed_sum(s: Seq<u8>) -> nat
    decreases s.len(),
{
    if s.len() == 0 {
        0
    } else {
        reversed_sum(s.drop_last()) + reversed_byte(s.last()) as nat
    }
}

/// The checksum byte of a frame whose first twelve bytes are `payload`:
/// the bit reversal of the low byte of the sum of the bit-reversed bytes.
pub open spec fn frame_checksum(payload: Seq<u8>) -> u8 {
    reversed_byte((reversed_sum(payload) % 256) as u8)
}

/// The temperature field of the second byte for a set-point of `temp` degrees.
pub open spec fn temperature_field(temp: u8) -> u8 {
    reversed_byte((temp - TEMPERATURE_OFFSET) as u8) >> 3u8
}

/// `f` is the OFF frame: power off, fan low, swing off, 24 degrees, with its checksum last.
pub open spec fn is_off_frame(f: Seq<u8>) -> bool {
    &&& f.len() == FRAME_LEN
    &&& f[0] == FRAME_HEADER
    &&& f[1] == SWING_OFF | temperature_field(OFF_TEMPERATURE)
    &&& f[2] == 0 && f[3] == 0
    &&& f[4] == FAN_LOW
    &&& forall|i: int| 5 <= i < 12 ==> f[i] == 0
    &&& f[12] == frame_checksum(f.take(12))
}

/// The OFF frame is byte-exact: `C3 E1 00 00 06 00 00 00 00 00 00 00 55`.
pub proof fn lemma_off_frame_bytes(f: Seq<u8>)
    requires
        is_off_frame(f),
    ensures
        f == seq![0xC3u8, 0xE1, 0x00, 0x00, 0x06, 0x00, 0x00, 0x00, 0x00, 0x00, 0x00, 0x00, 0x55],
{
    assert(SWING_OFF | temperature_field(OFF_TEMPERATURE) == 0xE1u8) by (bit_vector);
    assert(reversed_byte(0xC3) == 0xC3 && reversed_byte(0xE1) == 0x87 && reversed_byte(0x06) == 0x60
        && reversed_byte(0) == 0 && reversed_byte(170) == 0x55) by (bit_vector);
    let payload = f.take(12);
    assert(reversed_sum(f.take(0)) == 0);
    lemma_reversed_sum_step(f, 0);
    lemma_reversed_sum_step(f, 1);
    lemma_reversed_sum_step(f, 2);
    lemma_reversed_sum_step(f, 3);
    lemma_reversed_sum_step(f, 4);
    lemma_reversed_sum_step(f, 5);
    lemma_reversed_sum_step(f, 6);
    lemma_reversed_sum_step(f, 7);
    lemma_reversed_sum_step(f, 8);
    lemma_reversed_sum_step(f, 9);
    lemma_reversed_sum_step(f, 10);
    lemma_reversed_sum_step(f, 11);
    assert(reversed_sum(payload) == 426);
    assert(f =~= seq![0xC3u8, 0xE1, 0x00, 0x00, 0x06, 0x00, 0x00, 0x00, 0x00, 0x00, 0x00, 0x00, 0x55]);
}

proof fn lemma_reversed_sum_step(s: Seq<u8>, k: int)
    requires
        0 <= k < s.len(),
    ensures
        reversed_sum(s.take(k + 1)) == reversed_sum(s.take(k)) + reversed_byte(s[k]),
{
    assert(s.take(k + 1).drop_last() =~= s.take(k));
}

proof fn lemma_low_byte_is_mod(x: u32)
    ensures
        (x & 0xFF) as u8 == x % 256,
{
    assert((x & 0xFF) as u8 == x % 256) by (bit_vector);
}

/// Build the 13-byte OFF frame (power off, fan low, swing off, 24 degrees).
pub fn build_off_frame() -> (frame: [u8; FRAME_LEN])
    ensures
        is_off_frame(frame@),
{
    let mut arr = [0u8; 13];
    arr[0] = FRAME_HEADER;
    arr[1] = SWING_OFF;
    let t: u8 = OFF_TEMPERATURE - TEMPERATURE_OFFSET;
    arr[1] |= reverse_bits(t) >> 3;
    arr[4] = FAN_LOW;
    let mut sum: u32 = 0;
    let mut i: usize = 0;
    while i < 12
        invariant
            i <= 12,
            arr@.len() == FRAME_LEN,
            arr[0] == FRAME_HEADER,
            arr[1] == SWING_OFF | temperature_field(OFF_TEMPERATURE),
            arr[2] == 0 && arr[3] == 0,
            arr[4] == FAN_LOW,
            forall|k: int| 5 <= k < 13 ==> arr[k] == 0,
            sum == reversed_sum(arr@.take(i as int)),
            sum <= 255 * i,
        decreases 12 - i,
    {
        proof {
            lemma_reversed_sum_step(arr@, i as int);
        }
        sum += reverse_bits(arr[i]) as u32;
        i += 1;
    }
    proof {
        lemma_low_byte_is_mod(sum);
    }
    let ghost payload = arr@.take(12);
    arr[12] = reverse_bits((sum & 0xFF) as u8);
    assert(arr@.take(12) =~= payload);
    arr
}

} // verus!
