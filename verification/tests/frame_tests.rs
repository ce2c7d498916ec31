use electrolux_ir::{build_off_frame, reverse_bits};

#[test]
fn reverse_bits_matches_reference() {
    assert_eq!(reverse_bits(0b0001_0000), 0b0000_1000); // 16 -> 8
    assert_eq!(reverse_bits(0xE1), 0x87);
    assert_eq!(reverse_bits(0xC3), 0xC3); // palindrome
    assert_eq!(reverse_bits(0xAA), 0x55);
}

#[test]
fn off_frame_is_byte_exact() {
    let f = build_off_frame();
    assert_eq!(
        f,
        [0xC3, 0xE1, 0x00, 0x00, 0x06, 0x00, 0x00, 0x00, 0x00, 0x00, 0x00, 0x00, 0x55]
    );
}

#[test]
fn checksum_is_last_byte() {
    let f = build_off_frame();
    let sum: u32 = f[..12].iter().map(|&b| reverse_bits(b) as u32).sum();
    assert_eq!(reverse_bits((sum & 0xFF) as u8), f[12]);
}

#[test]
fn reverse_bits_edge_values() {
    assert_eq!(reverse_bits(0x00), 0x00);
    assert_eq!(reverse_bits(0xFF), 0xFF);
    assert_eq!(reverse_bits(0x01), 0x80);
    assert_eq!(reverse_bits(0x80), 0x01);
    assert_eq!(reverse_bits(0x06), 0x60);
    assert_eq!(reverse_bits(0xAA), 0x55);
}

#[test]
fn reverse_bits_is_an_involution() {
    for b in 0..=255u8 {
        assert_eq!(reverse_bits(reverse_bits(b)), b);
    }
}

#[test]
fn reverse_bits_mirrors_every_bit() {
    for b in 0..=255u8 {
        let r = reverse_bits(b);
        for i in 0..8 {
            assert_eq!((r >> i) & 1, (b >> (7 - i)) & 1);
        }
    }
}

#[test]
fn off_frame_fields() {
    let f = build_off_frame();
    assert_eq!(f[0], 0xC3);
    // swing off in the high bits, temperature 24 - 8 = 16 reversed and shifted in the low bits
    assert_eq!(f[1], 0xE0 | (reverse_bits(16) >> 3));
    assert_eq!(f[4], 0x06);
    assert!(f[2] == 0 && f[3] == 0 && f[5..12].iter().all(|&b| b == 0));
}
