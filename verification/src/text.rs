//! Text for people: numbers in decimal and hexadecimal, the dump of a
//! machine, and the listing of a program image.

use crate::decode::{decode, decode_spec};
use crate::machine::{Machine, MachineView, NUM_REGS};
use vstd::prelude::*;

verus! {

/// `String::push` of the standard library.
///
/// Trusted, not proved: the documentation says that it appends the given
/// character to the end of the string.
pub assume_specification[ String::push ](s: &mut String, ch: char)
    ensures
        final(s)@ == old(s)@.push(ch),
;

/// `String::push_str` of the standard library.
///
/// Trusted, not proved: the documentation says that it appends the given
/// string slice onto the end of the string.
pub assume_specification[ String::push_str ](s: &mut String, string: &str)
    ensures
        final(s)@ == old(s)@ + string@,
;

/// The sixteen digits, in order of their value.
pub open spec fn digit_chars() -> Seq<char> {
    seq!['0', '1', '2', '3', '4', '5', '6', '7', '8', '9', 'A', 'B', 'C', 'D', 'E', 'F']
}

/// The digit that stands for `d`, for `d` below sixteen.
pub open spec fn digit_char(d: int) -> char {
    digit_chars()[d]
}

/// The number written in decimal, without leading zeros.
pub open spec fn decimal(v: nat) -> Seq<char>
    decreases v,
{
    if v < 10 {
        seq![digit_char(v as int)]
    } else {
        decimal(v / 10).push(digit_char((v % 10) as int))
    }
}

/// The number written in hexadecimal with capital letters, without leading
/// zeros.
pub open spec fn hex_upper(v: nat) -> Seq<char>
    decreases v,
{
    if v < 16 {
        seq![digit_char(v as int)]
    } else {
        hex_upper(v / 16).push(digit_char((v % 16) as int))
    }
}

/// The digit that stands for `d`.
pub fn digit(d: u8) -> (ch: char)
    requires
        d < 16,
    ensures
        ch == digit_char(d as int),
{
    if d == 0 {
        '0'
    } else if d == 1 {
        '1'
    } else if d == 2 {
        '2'
    } else if d == 3 {
        '3'
    } else if d == 4 {
        '4'
    } else if d == 5 {
        '5'
    } else if d == 6 {
        '6'
    } else if d == 7 {
        '7'
    } else if d == 8 {
        '8'
    } else if d == 9 {
        '9'
    } else if d == 10 {
        'A'
    } else if d == 11 {
        'B'
    } else if d == 12 {
        'C'
    } else if d == 13 {
        'D'
    } else if d == 14 {
        'E'
    } else {
        'F'
    }
}

/// Appends `v` in decimal.
pub fn push_decimal(s: &mut String, v: usize)
    ensures
        final(s)@ == old(s)@ + decimal(v as nat),
    decreases v,
{
    if v >= 10 {
        push_decimal(s, v / 10);
    }
    s.push(digit((v % 10) as u8));
    proof {
        assert(s@ =~= old(s)@ + decimal(v as nat));
    }
}

/// Appends `v` in hexadecimal, with capital letters.
pub fn push_hex(s: &mut String, v: usize)
    ensures
        final(s)@ == old(s)@ + hex_upper(v as nat),
    decreases v,
{
    if v >= 16 {
        push_hex(s, v / 16);
    }
    s.push(digit((v % 16) as u8));
    proof {
        assert(s@ =~= old(s)@ + hex_upper(v as nat));
    }
}

/// The lines of the first `count` registers, one line for each: its index,
/// then its value, both in decimal.
pub open spec fn register_lines(registers: Seq<u8>, count: nat) -> Seq<char>
    decreases count,
{
    if count == 0 {
        Seq::empty()
    } else {
        let r = (count - 1) as nat;
        register_lines(registers, r) + "reg"@ + decimal(r) + " = "@ + decimal(
            registers[r as int] as nat,
        ) + "\n"@
    }
}

/// The dump of a machine: the address register in hexadecimal, the program
/// counter in decimal, then a line for each register.
pub open spec fn dump_text(s: MachineView) -> Seq<char> {
    "register i: 0x"@ + hex_upper(s.reg_i as nat) + "\npc: "@ + decimal(s.pc as nat)
        + "\ngeneral registers\n"@ + register_lines(s.registers, s.registers.len())
}

impl Machine {
    /// The state of the registers as text.
    pub fn dump(&self) -> (text: String)
        requires
            self.wf(),
        ensures
            text@ == dump_text(self@),
    {
        let mut text: String = String::new();
        text.push_str("register i: 0x");
        push_hex(&mut text, self.get_i() as usize);
        text.push_str("\npc: ");
        push_decimal(&mut text, self.pc());
        text.push_str("\ngeneral registers\n");
        let ghost head = text@;
        proof {
            assert(head =~= "register i: 0x"@ + hex_upper(self@.reg_i as nat) + "\npc: "@
                + decimal(self@.pc as nat) + "\ngeneral registers\n"@);
            assert(text@ =~= head + register_lines(self@.registers, 0));
        }
        let mut i: usize = 0;
        while i < NUM_REGS
            invariant
                self.wf(),
                i <= NUM_REGS,
                text@ == head + register_lines(self@.registers, i as nat),
            decreases NUM_REGS - i,
        {
            text.push_str("reg");
            push_decimal(&mut text, i);
            text.push_str(" = ");
            push_decimal(&mut text, self.get_reg(i) as usize);
            text.push_str("\n");
            proof {
                assert(text@ =~= head + register_lines(self@.registers, (i + 1) as nat));
            }
            i += 1;
        }
        text
    }
}

/// A register's name: `V` and its index in decimal.
pub open spec fn reg_name(r: u16) -> Seq<char> {
    "V"@ + decimal(r as nat)
}

/// Three fields as three hexadecimal digits.
pub open spec fn hex3(b: u16, c: u16, d: u16) -> Seq<char> {
    seq![digit_char(b as int), digit_char(c as int), digit_char(d as int)]
}

/// Two fields as two hexadecimal digits.
pub open spec fn hex2(c: u16, d: u16) -> Seq<char> {
    seq![digit_char(c as int), digit_char(d as int)]
}

/// Two fields, each written in decimal, one after the other.
pub open spec fn dec2(c: u16, d: u16) -> Seq<char> {
    decimal(c as nat) + decimal(d as nat)
}

/// What a decoded instruction is called in a listing, with the end of the
/// line. A tuple that the listing does not know gives an empty line.
pub open spec fn mnemonic(t: (u16, u16, u16, u16)) -> Seq<char> {
    let (a, b, c, d) = t;
    if a == 0 {
        if b == 0 && c == 0xE && d == 0 {
            "clear screen\n"@
        } else if b == 0 && c == 0xE && d == 0xE {
            "return\n"@
        } else {
            "call @0x"@ + hex3(b, c, d) + "\n"@
        }
    } else if a == 1 {
        "jmp 0x"@ + hex3(b, c, d) + "\n"@
    } else if a == 2 {
        "call 0x"@ + hex3(b, c, d) + "\n"@
    } else if a == 3 {
        reg_name(b) + " == "@ + dec2(c, d) + "\n"@
    } else if a == 4 {
        reg_name(b) + " != "@ + dec2(c, d) + "\n"@
    } else if a == 5 && d == 0 {
        reg_name(b) + " != "@ + reg_name(c) + "\n"@
    } else if a == 6 {
        reg_name(b) + " = "@ + dec2(c, d) + "\n"@
    } else if a == 7 {
        reg_name(b) + " += "@ + dec2(c, d) + "\n"@
    } else if a == 8 {
        if d == 0 {
            reg_name(b) + " = "@ + reg_name(c) + "\n"@
        } else if d == 1 {
            reg_name(b) + " |= "@ + reg_name(c) + "\n"@
        } else if d == 2 {
            reg_name(b) + " &= "@ + reg_name(c) + "\n"@
        } else if d == 3 {
            reg_name(b) + " ^= "@ + reg_name(c) + "\n"@
        } else if d == 4 {
            reg_name(b) + " += "@ + reg_name(c) + "\n"@
        } else if d == 5 {
            reg_name(b) + " -= "@ + reg_name(c) + "\n"@
        } else if d == 6 {
            reg_name(b) + " >>= 1\n"@
        } else if d == 7 {
            reg_name(b) + " = "@ + reg_name(c) + " - "@ + reg_name(b) + "\n"@
        } else {
            reg_name(b) + " <<= 1\n"@
        }
    } else if a == 9 && d == 0 {
        reg_name(b) + " != "@ + reg_name(c) + "\n"@
    } else if a == 0xA {
        "I = 0x"@ + hex3(b, c, d) + "\n"@
    } else if a == 0xB {
        "PC = VO + 0x"@ + hex3(b, c, d) + "\n"@
    } else if a == 0xC {
        reg_name(b) + "=rand()&0x"@ + hex2(c, d) + " \n"@
    } else if a == 0xD {
        "draw("@ + reg_name(b) + ","@ + reg_name(c) + ", "@ + decimal(d as nat) + ")\n"@
    } else if a == 0xE && c == 9 && d == 0xE {
        "if key() == "@ + reg_name(b) + "\n"@
    } else if a == 0xE && c == 0xA && d == 1 {
        "if key() != "@ + reg_name(b) + "\n"@
    } else if a == 0xF && c == 0 && d == 7 {
        reg_name(b) + " = get_delay()\n"@
    } else if a == 0xF && c == 0 && d == 0xA {
        reg_name(b) + " = get_key()\n"@
    } else if a == 0xF && c == 1 && d == 5 {
        "delay_timer("@ + reg_name(b) + ")\n"@
    } else if a == 0xF && c == 1 && d == 8 {
        "sound_timer("@ + reg_name(b) + ")\n"@
    } else if a == 0xF && c == 2 && d == 9 {
        "I = sprite_addr["@ + reg_name(b) + "])\n"@
    } else if a == 0xF && c == 3 && d == 3 {
        "BCD("@ + reg_name(b) + ")\n"@
    } else if a == 0xF && c == 5 && d == 5 {
        "reg_dump("@ + reg_name(b) + ", &I)\n"@
    } else if a == 0xF && c == 6 && d == 5 {
        "reg_load("@ + reg_name(b) + ", &I)\n"@
    } else {
        "\n"@
    }
}

/// One line of a listing: the instruction word in hexadecimal, four spaces,
/// and what the instruction is called.
pub open spec fn listing_line(w: u16) -> Seq<char> {
    "0x"@ + hex_upper(w as nat) + "    "@ + mnemonic(decode_spec(w))
}

/// Appends a register's name.
pub fn push_reg(s: &mut String, r: u16)
    ensures
        final(s)@ == old(s)@ + reg_name(r),
{
    s.push_str("V");
    push_decimal(s, r as usize);
    proof {
        assert(s@ =~= old(s)@ + reg_name(r));
    }
}

/// Appends three fields as hexadecimal digits.
pub fn push_hex3(s: &mut String, b: u16, c: u16, d: u16)
    requires
        b < 16,
        c < 16,
        d < 16,
    ensures
        final(s)@ == old(s)@ + hex3(b, c, d),
{
    s.push(digit(b as u8));
    s.push(digit(c as u8));
    s.push(digit(d as u8));
    proof {
        assert(s@ =~= old(s)@ + hex3(b, c, d));
    }
}

/// Appends two fields, each in decimal.
pub fn push_dec2(s: &mut String, c: u16, d: u16)
    ensures
        final(s)@ == old(s)@ + dec2(c, d),
{
    push_decimal(s, c as usize);
    push_decimal(s, d as usize);
    proof {
        assert(s@ =~= old(s)@ + dec2(c, d));
    }
}

/// Appends `Vb`, the text `middle`, `Vc`, and the end of the line.
fn push_reg_op_reg(s: &mut String, b: u16, middle: &str, c: u16)
    ensures
        final(s)@ == old(s)@ + (reg_name(b) + middle@ + reg_name(c) + "\n"@),
{
    push_reg(s, b);
    s.push_str(middle);
    push_reg(s, c);
    s.push_str("\n");
    proof {
        assert(s@ =~= old(s)@ + (reg_name(b) + middle@ + reg_name(c) + "\n"@));
    }
}

/// Appends `Vb`, the text `middle`, the two fields in decimal, and the end
/// of the line.
fn push_reg_op_imm(s: &mut String, b: u16, middle: &str, c: u16, d: u16)
    ensures
        final(s)@ == old(s)@ + (reg_name(b) + middle@ + dec2(c, d) + "\n"@),
{
    push_reg(s, b);
    s.push_str(middle);
    push_dec2(s, c, d);
    s.push_str("\n");
    proof {
        assert(s@ =~= old(s)@ + (reg_name(b) + middle@ + dec2(c, d) + "\n"@));
    }
}

/// Appends the text `head`, three hexadecimal digits, and the end of the
/// line.
fn push_head_hex3(s: &mut String, head: &str, b: u16, c: u16, d: u16)
    requires
        b < 16,
        c < 16,
        d < 16,
    ensures
        final(s)@ == old(s)@ + (head@ + hex3(b, c, d) + "\n"@),
{
    s.push_str(head);
    push_hex3(s, b, c, d);
    s.push_str("\n");
    proof {
        assert(s@ =~= old(s)@ + (head@ + hex3(b, c, d) + "\n"@));
    }
}

/// Appends the text `head`, `Vb`, and the text `tail`.
fn push_head_reg_tail(s: &mut String, head: &str, b: u16, tail: &str)
    ensures
        final(s)@ == old(s)@ + (head@ + reg_name(b) + tail@),
{
    s.push_str(head);
    push_reg(s, b);
    s.push_str(tail);
    proof {
        assert(s@ =~= old(s)@ + (head@ + reg_name(b) + tail@));
    }
}

/// Appends `Vb` and the text `tail`.
fn push_reg_tail(s: &mut String, b: u16, tail: &str)
    ensures
        final(s)@ == old(s)@ + (reg_name(b) + tail@),
{
    push_reg(s, b);
    s.push_str(tail);
    proof {
        assert(s@ =~= old(s)@ + (reg_name(b) + tail@));
    }
}

/// Appends what a decoded instruction is called, with the end of the line.
pub fn push_mnemonic(s: &mut String, t: (u16, u16, u16, u16))
    requires
        t.0 < 16 && t.1 < 16 && t.2 < 16 && t.3 < 16,
    ensures
        final(s)@ == old(s)@ + mnemonic(t),
{
    let (a, b, c, d) = t;
    if a == 0 {
        if b == 0 && c == 0xE && d == 0 {
            s.push_str("clear screen\n");
        } else if b == 0 && c == 0xE && d == 0xE {
            s.push_str("return\n");
        } else {
            push_head_hex3(s, "call @0x", b, c, d);
        }
    } else if a == 1 {
        push_head_hex3(s, "jmp 0x", b, c, d);
    } else if a == 2 {
        push_head_hex3(s, "call 0x", b, c, d);
    } else if a == 3 {
        push_reg_op_imm(s, b, " == ", c, d);
    } else if a == 4 {
        push_reg_op_imm(s, b, " != ", c, d);
    } else if a == 5 && d == 0 {
        push_reg_op_reg(s, b, " != ", c);
    } else if a == 6 {
        push_reg_op_imm(s, b, " = ", c, d);
    } else if a == 7 {
        push_reg_op_imm(s, b, " += ", c, d);
    } else if a == 8 {
        if d == 0 {
            push_reg_op_reg(s, b, " = ", c);
        } else if d == 1 {
            push_reg_op_reg(s, b, " |= ", c);
        } else if d == 2 {
            push_reg_op_reg(s, b, " &= ", c);
        } else if d == 3 {
            push_reg_op_reg(s, b, " ^= ", c);
        } else if d == 4 {
            push_reg_op_reg(s, b, " += ", c);
        } else if d == 5 {
            push_reg_op_reg(s, b, " -= ", c);
        } else if d == 6 {
            push_reg_tail(s, b, " >>= 1\n");
        } else if d == 7 {
            push_reg(s, b);
            s.push_str(" = ");
            push_reg(s, c);
            s.push_str(" - ");
            push_reg(s, b);
            s.push_str("\n");
            proof {
                assert(s@ =~= old(s)@ + (reg_name(b) + " = "@ + reg_name(c) + " - "@ + reg_name(b)
                    + "\n"@));
            }
        } else {
            push_reg_tail(s, b, " <<= 1\n");
        }
    } else if a == 9 && d == 0 {
        push_reg_op_reg(s, b, " != ", c);
    } else if a == 0xA {
        push_head_hex3(s, "I = 0x", b, c, d);
    } else if a == 0xB {
        push_head_hex3(s, "PC = VO + 0x", b, c, d);
    } else if a == 0xC {
        push_reg(s, b);
        s.push_str("=rand()&0x");
        s.push(digit(c as u8));
        s.push(digit(d as u8));
        s.push_str(" \n");
        proof {
            assert(s@ =~= old(s)@ + (reg_name(b) + "=rand()&0x"@ + hex2(c, d) + " \n"@));
        }
    } else if a == 0xD {
        s.push_str("draw(");
        push_reg(s, b);
        s.push_str(",");
        push_reg(s, c);
        s.push_str(", ");
        push_decimal(s, d as usize);
        s.push_str(")\n");
        proof {
            assert(s@ =~= old(s)@ + ("draw("@ + reg_name(b) + ","@ + reg_name(c) + ", "@
                + decimal(d as nat) + ")\n"@));
        }
    } else if a == 0xE && c == 9 && d == 0xE {
        push_head_reg_tail(s, "if key() == ", b, "\n");
    } else if a == 0xE && c == 0xA && d == 1 {
        push_head_reg_tail(s, "if key() != ", b, "\n");
    } else if a == 0xF && c == 0 && d == 7 {
        push_reg_tail(s, b, " = get_delay()\n");
    } else if a == 0xF && c == 0 && d == 0xA {
        push_reg_tail(s, b, " = get_key()\n");
    } else if a == 0xF && c == 1 && d == 5 {
        push_head_reg_tail(s, "delay_timer(", b, ")\n");
    } else if a == 0xF && c == 1 && d == 8 {
        push_head_reg_tail(s, "sound_timer(", b, ")\n");
    } else if a == 0xF && c == 2 && d == 9 {
        push_head_reg_tail(s, "I = sprite_addr[", b, "])\n");
    } else if a == 0xF && c == 3 && d == 3 {
        push_head_reg_tail(s, "BCD(", b, ")\n");
    } else if a == 0xF && c == 5 && d == 5 {
        push_head_reg_tail(s, "reg_dump(", b, ", &I)\n");
    } else if a == 0xF && c == 6 && d == 5 {
        push_head_reg_tail(s, "reg_load(", b, ", &I)\n");
    } else {
        s.push_str("\n");
    }
}

/// One line of a listing for the instruction word.
pub fn disassemble(instruction: u16) -> (line: String)
    ensures
        line@ == listing_line(instruction),
{
    let instr_tuple: (u16, u16, u16, u16) = decode(instruction);
    let mut line: String = String::new();
    line.push_str("0x");
    push_hex(&mut line, instruction as usize);
    line.push_str("    ");
    push_mnemonic(&mut line, instr_tuple);
    proof {
        assert(line@ =~= listing_line(instruction));
    }
    line
}

/// The trace of a fetched instruction word: the word in hexadecimal.
pub open spec fn trace_text(w: u16) -> Seq<char> {
    "0x"@ + hex_upper(w as nat)
}

/// The trace of a fetched instruction word.
pub fn trace(instruction: u16) -> (text: String)
    ensures
        text@ == trace_text(instruction),
{
    let mut text: String = String::new();
    text.push_str("0x");
    push_hex(&mut text, instruction as usize);
    proof {
        assert(text@ =~= trace_text(instruction));
    }
    text
}

/// The instruction words of a program image: its bytes taken in pairs, the
/// high byte first. A last byte without a partner is left out.
pub open spec fn words_of(data: Seq<u8>) -> Seq<u16> {
    Seq::new(
        data.len() / 2,
        |k: int| (data[2 * k] * 0x100 + data[2 * k + 1]) as u16,
    )
}

/// The instruction words of a program image.
pub fn instruction_words(data: &[u8]) -> (words: Vec<u16>)
    ensures
        words@ == words_of(data@),
{
    let mut words: Vec<u16> = Vec::new();
    let mut i: usize = 1;
    while i < data.len()
        invariant
            i % 2 == 1,
            i <= data@.len() + 1,
            words@.len() == i / 2,
            forall|k: int|
                0 <= k < words@.len() ==> words@[k] == (data@[2 * k] * 0x100 + data@[2 * k
                    + 1]) as u16,
        decreases data@.len() + 1 - i,
    {
        let high: u8 = data[i - 1];
        let low: u8 = data[i];
        proof {
            assert((high as u16) << 8 | (low as u16) == high * 0x100 + low) by (bit_vector);
        }
        let instruction: u16 = (high as u16) << 8 | (low as u16);
        words.push(instruction);
        i += 2;
    }
    proof {
        assert(words@ =~= words_of(data@));
    }
    words
}

} // verus!
