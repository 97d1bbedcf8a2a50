use chip8::decode::{decode, imm12, imm8};

#[test]
fn decode_splits_a_word_into_its_four_digits() {
    assert_eq!(decode(0xD12F), (0xD, 0x1, 0x2, 0xF));
    assert_eq!(decode(0x0000), (0, 0, 0, 0));
    assert_eq!(decode(0xFFFF), (0xF, 0xF, 0xF, 0xF));
    assert_eq!(decode(0x00E0), (0, 0, 0xE, 0));
}

#[test]
fn decode_fields_put_every_word_together_again() {
    let mut w: u32 = 0;
    while w <= 0xFFFF {
        let word = w as u16;
        let (op, x, y, n) = decode(word);
        assert!(op < 16 && x < 16 && y < 16 && n < 16);
        assert_eq!((op << 12) | (x << 8) | (y << 4) | n, word);
        w += 1;
    }
}

#[test]
fn immediates_join_the_low_digits() {
    assert_eq!(imm12(0x3, 0x0, 0x0), 0x300);
    assert_eq!(imm12(0xF, 0xF, 0xF), 0xFFF);
    assert_eq!(imm12(0xA, 0xB, 0xC), 0xABC);
    assert_eq!(imm8(0x0, 0x5), 0x05);
    assert_eq!(imm8(0xF, 0xF), 0xFF);
    assert_eq!(imm8(0x4, 0x2), 0x42);
}
