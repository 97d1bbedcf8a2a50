use chip8::machine::Machine;
use chip8::text::{digit, disassemble, instruction_words, push_decimal, push_hex, trace};

#[test]
fn digits_are_decimal_then_capital_letters() {
    let all: String = (0u8..16).map(digit).collect();
    assert_eq!(all, "0123456789ABCDEF");
}

#[test]
fn numbers_are_written_without_leading_zeros() {
    let mut s = String::from("n=");
    push_decimal(&mut s, 0);
    s.push(' ');
    push_decimal(&mut s, 9);
    s.push(' ');
    push_decimal(&mut s, 10);
    s.push(' ');
    push_decimal(&mut s, 4096);
    s.push(' ');
    push_hex(&mut s, 0);
    s.push(' ');
    push_hex(&mut s, 0xF);
    s.push(' ');
    push_hex(&mut s, 0x10);
    s.push(' ');
    push_hex(&mut s, 0xBEEF);
    assert_eq!(s, "n=0 9 10 4096 0 F 10 BEEF");
}

#[test]
fn dump_of_a_new_machine() {
    let m = Machine::new(1);
    let mut expected = String::from("register i: 0x0\npc: 512\ngeneral registers\n");
    for r in 0..16 {
        expected.push_str(&format!("reg{} = 0\n", r));
    }
    assert_eq!(m.dump(), expected);
}

#[test]
fn dump_shows_the_address_register_in_hexadecimal_and_the_rest_in_decimal() {
    let mut m = Machine::new(1);
    m.set_i(0x3AF);
    m.set_pc(0x0ABC);
    m.set_reg(0, 7);
    m.set_reg(10, 200);
    m.set_reg(15, 255);
    let text = m.dump();
    assert!(text.starts_with("register i: 0x3AF\npc: 2748\ngeneral registers\nreg0 = 7\nreg1 = 0\n"));
    assert!(text.contains("\nreg10 = 200\n"));
    assert!(text.ends_with("reg14 = 0\nreg15 = 255\n"));
    assert_eq!(text.lines().count(), 19);
}

#[test]
fn listing_of_control_flow() {
    assert_eq!(disassemble(0x00E0), "0xE0    clear screen\n");
    assert_eq!(disassemble(0x00EE), "0xEE    return\n");
    assert_eq!(disassemble(0x0123), "0x123    call @0x123\n");
    assert_eq!(disassemble(0x0000), "0x0    call @0x000\n");
    assert_eq!(disassemble(0x1ABC), "0x1ABC    jmp 0xABC\n");
    assert_eq!(disassemble(0x2300), "0x2300    call 0x300\n");
    assert_eq!(disassemble(0xB00F), "0xB00F    PC = VO + 0x00F\n");
}

#[test]
fn listing_of_comparisons_and_loads() {
    assert_eq!(disassemble(0x3A0F), "0x3A0F    V10 == 015\n");
    assert_eq!(disassemble(0x4123), "0x4123    V1 != 23\n");
    assert_eq!(disassemble(0x5120), "0x5120    V1 != V2\n");
    assert_eq!(disassemble(0x5121), "0x5121    \n");
    assert_eq!(disassemble(0x9AB0), "0x9AB0    V10 != V11\n");
    assert_eq!(disassemble(0x9AB1), "0x9AB1    \n");
    assert_eq!(disassemble(0x6CFF), "0x6CFF    V12 = 1515\n");
    assert_eq!(disassemble(0x7001), "0x7001    V0 += 01\n");
    assert_eq!(disassemble(0xA2F0), "0xA2F0    I = 0x2F0\n");
}

#[test]
fn listing_of_the_alu_family() {
    assert_eq!(disassemble(0x8120), "0x8120    V1 = V2\n");
    assert_eq!(disassemble(0x8121), "0x8121    V1 |= V2\n");
    assert_eq!(disassemble(0x8122), "0x8122    V1 &= V2\n");
    assert_eq!(disassemble(0x8123), "0x8123    V1 ^= V2\n");
    assert_eq!(disassemble(0x8124), "0x8124    V1 += V2\n");
    assert_eq!(disassemble(0x8125), "0x8125    V1 -= V2\n");
    assert_eq!(disassemble(0x8126), "0x8126    V1 >>= 1\n");
    assert_eq!(disassemble(0x8127), "0x8127    V1 = V2 - V1\n");
    assert_eq!(disassemble(0x812E), "0x812E    V1 <<= 1\n");
    assert_eq!(disassemble(0x8129), "0x8129    V1 <<= 1\n");
}

#[test]
fn listing_of_the_rest() {
    assert_eq!(disassemble(0xC1AB), "0xC1AB    V1=rand()&0xAB \n");
    assert_eq!(disassemble(0xD12F), "0xD12F    draw(V1,V2, 15)\n");
    assert_eq!(disassemble(0xE39E), "0xE39E    if key() == V3\n");
    assert_eq!(disassemble(0xE3A1), "0xE3A1    if key() != V3\n");
    assert_eq!(disassemble(0xE300), "0xE300    \n");
    assert_eq!(disassemble(0xF407), "0xF407    V4 = get_delay()\n");
    assert_eq!(disassemble(0xF40A), "0xF40A    V4 = get_key()\n");
    assert_eq!(disassemble(0xF415), "0xF415    delay_timer(V4)\n");
    assert_eq!(disassemble(0xF418), "0xF418    sound_timer(V4)\n");
    assert_eq!(disassemble(0xF429), "0xF429    I = sprite_addr[V4])\n");
    assert_eq!(disassemble(0xF433), "0xF433    BCD(V4)\n");
    assert_eq!(disassemble(0xFF55), "0xFF55    reg_dump(V15, &I)\n");
    assert_eq!(disassemble(0xF065), "0xF065    reg_load(V0, &I)\n");
    assert_eq!(disassemble(0xF41E), "0xF41E    \n");
}

#[test]
fn instruction_words_pair_the_bytes_high_first() {
    assert_eq!(instruction_words(&[0x60, 0x0A, 0x70, 0x05]), vec![0x600A, 0x7005]);
    assert_eq!(instruction_words(&[0x12, 0x34, 0x56]), vec![0x1234]);
    assert_eq!(instruction_words(&[0xFF]), Vec::<u16>::new());
    assert_eq!(instruction_words(&[]), Vec::<u16>::new());
}

#[test]
fn trace_is_the_word_in_hexadecimal() {
    assert_eq!(trace(0x600A), "0x600A");
    assert_eq!(trace(0x00E0), "0xE0");
    assert_eq!(trace(0), "0x0");
    assert_eq!(trace(0xFFFF), "0xFFFF");
}
