use electrolux_ir::{
    build_off_frame, encode_frame, Pulse, BIT_MARK, FOOTER_GAP, FOOTER_MARK, HEADER_MARK,
    HEADER_SPACE, ONE_SPACE, PULSE_LEN, ZERO_SPACE,
};

#[test]
fn encode_pulse_counts_and_endpoints() {
    let f = build_off_frame();
    let pulses = encode_frame(&f);
    assert_eq!(pulses.len(), 212);
    assert_eq!(pulses[0], Pulse { carrier_on: true, micros: HEADER_MARK });
    assert_eq!(pulses[1], Pulse { carrier_on: false, micros: HEADER_SPACE });
    assert_eq!(pulses[211], Pulse { carrier_on: false, micros: FOOTER_GAP });
    assert_eq!(pulses[210], Pulse { carrier_on: true, micros: FOOTER_MARK });
}

#[test]
fn first_data_bit_is_msb_first() {
    let f = build_off_frame();
    let pulses = encode_frame(&f);
    assert_eq!(pulses[2], Pulse { carrier_on: true, micros: BIT_MARK });
    assert_eq!(pulses[3], Pulse { carrier_on: false, micros: ONE_SPACE });
    assert_eq!(pulses[5], Pulse { carrier_on: false, micros: ONE_SPACE });
    assert_eq!(pulses[7], Pulse { carrier_on: false, micros: ZERO_SPACE });
}

#[test]
fn pulse_len_is_212() {
    assert_eq!(PULSE_LEN, 212);
}

#[test]
fn encoded_bits_follow_each_byte_msb_first() {
    let f = build_off_frame();
    let pulses = encode_frame(&f);
    for (b, &byte) in f.iter().enumerate() {
        for j in 0..8 {
            let k = 2 + 16 * b + 2 * j;
            assert_eq!(pulses[k], Pulse { carrier_on: true, micros: BIT_MARK });
            let one = (byte >> (7 - j)) & 1 == 1;
            let expected = if one { ONE_SPACE } else { ZERO_SPACE };
            assert_eq!(pulses[k + 1], Pulse { carrier_on: false, micros: expected });
        }
    }
}

#[test]
fn marks_and_spaces_alternate() {
    let pulses = encode_frame(&[0x5A; 13]);
    for (k, p) in pulses.iter().enumerate() {
        assert_eq!(p.carrier_on, k % 2 == 0);
    }
}

#[test]
fn all_zero_and_all_one_frames() {
    let zeros = encode_frame(&[0x00; 13]);
    let ones = encode_frame(&[0xFF; 13]);
    assert_eq!(zeros.len(), 212);
    assert_eq!(ones.len(), 212);
    for k in (3..210).step_by(2) {
        assert_eq!(zeros[k].micros, ZERO_SPACE);
        assert_eq!(ones[k].micros, ONE_SPACE);
    }
}
