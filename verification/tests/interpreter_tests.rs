use chip8::interpreter::{
    condition, dispatch_interpretor, execute, random_instr, random_instr_with, reg_dump, reg_load,
    setter_regs, step, Effect, Stub,
};
use chip8::machine::{Fault, Machine};

fn run(m: &mut Machine, word: u16) -> Result<Effect, Fault> {
    dispatch_interpretor(word, m)
}

#[test]
fn add_immediate_wraps_modulo_256() {
    let mut m = Machine::new(1);
    m.set_reg(3, 0xFF);
    assert_eq!(run(&mut m, 0x7301), Ok(Effect::Nothing));
    assert_eq!(m.get_reg(3), 0x00);
    assert_eq!(m.get_reg(15), 0);
    assert_eq!(m.pc(), 0x202);
    m.set_reg(3, 0xF0);
    run(&mut m, 0x7320).unwrap();
    assert_eq!(m.get_reg(3), 0x10);
}

#[test]
fn load_immediate_sets_the_register() {
    let mut m = Machine::new(1);
    assert_eq!(run(&mut m, 0x6A5C), Ok(Effect::Nothing));
    assert_eq!(m.get_reg(10), 0x5C);
    assert_eq!(m.pc(), 0x202);
}

#[test]
fn call_then_return_comes_back_to_the_call() {
    let mut m = Machine::new(1);
    assert_eq!(m.pc(), 0x200);
    assert_eq!(run(&mut m, 0x2300), Ok(Effect::Nothing));
    assert_eq!(m.pc(), 0x300);
    assert_eq!(m.stack_depth(), 1);
    assert_eq!(run(&mut m, 0x00EE), Ok(Effect::Nothing));
    assert_eq!(m.pc(), 0x200);
    assert_eq!(m.stack_depth(), 0);
}

#[test]
fn nested_calls_return_in_reverse_order() {
    let mut m = Machine::new(1);
    run(&mut m, 0x2300).unwrap();
    run(&mut m, 0x2456).unwrap();
    assert_eq!(m.pc(), 0x456);
    run(&mut m, 0x00EE).unwrap();
    assert_eq!(m.pc(), 0x300);
    run(&mut m, 0x00EE).unwrap();
    assert_eq!(m.pc(), 0x200);
}

#[test]
fn return_without_call_is_a_stack_underflow() {
    let mut m = Machine::new(1);
    m.set_reg(1, 5);
    assert_eq!(run(&mut m, 0x00EE), Err(Fault::StackUnderflow));
    assert_eq!(m.pc(), 0x200);
    assert_eq!(m.get_reg(1), 5);
}

#[test]
fn skip_equal_immediate_advances_by_four_or_two() {
    let mut m = Machine::new(1);
    m.set_reg(2, 5);
    assert_eq!(run(&mut m, 0x3205), Ok(Effect::Nothing));
    assert_eq!(m.pc(), 0x204);
    let mut m = Machine::new(1);
    m.set_reg(2, 5);
    assert_eq!(run(&mut m, 0x3206), Ok(Effect::Nothing));
    assert_eq!(m.pc(), 0x202);
}

#[test]
fn skip_not_equal_immediate() {
    let mut m = Machine::new(1);
    m.set_reg(2, 5);
    run(&mut m, 0x4206).unwrap();
    assert_eq!(m.pc(), 0x204);
    run(&mut m, 0x4205).unwrap();
    assert_eq!(m.pc(), 0x206);
}

#[test]
fn skip_on_register_comparison() {
    let mut m = Machine::new(1);
    m.set_reg(1, 9);
    m.set_reg(2, 9);
    m.set_reg(3, 8);
    run(&mut m, 0x5120).unwrap();
    assert_eq!(m.pc(), 0x204);
    run(&mut m, 0x5130).unwrap();
    assert_eq!(m.pc(), 0x206);
    run(&mut m, 0x9130).unwrap();
    assert_eq!(m.pc(), 0x20A);
    run(&mut m, 0x9120).unwrap();
    assert_eq!(m.pc(), 0x20C);
}

#[test]
fn register_comparison_with_a_last_digit_is_not_an_instruction() {
    let mut m = Machine::new(1);
    assert_eq!(run(&mut m, 0x5121), Ok(Effect::Halt));
    assert_eq!(run(&mut m, 0x9121), Ok(Effect::Halt));
    assert_eq!(m.pc(), 0x200);
}

#[test]
fn jumps_set_the_program_counter_without_advance() {
    let mut m = Machine::new(1);
    assert_eq!(run(&mut m, 0x1ABC), Ok(Effect::Nothing));
    assert_eq!(m.pc(), 0xABC);
    assert_eq!(run(&mut m, 0xB123), Ok(Effect::Nothing));
    assert_eq!(m.pc(), 0x123);
    assert_eq!(m.stack_depth(), 0);
}

#[test]
fn load_and_add_address_register() {
    let mut m = Machine::new(1);
    run(&mut m, 0xA123).unwrap();
    assert_eq!(m.get_i(), 0x123);
    assert_eq!(m.pc(), 0x202);
    m.set_reg(4, 0x10);
    run(&mut m, 0xF41E).unwrap();
    assert_eq!(m.get_i(), 0x133);
    assert_eq!(m.pc(), 0x204);
    m.set_i(0xFFFF);
    m.set_reg(4, 2);
    run(&mut m, 0xF41E).unwrap();
    assert_eq!(m.get_i(), 0x0001);
}

fn alu(op: u16, vx: u8, vy: u8) -> u8 {
    let mut m = Machine::new(1);
    m.set_reg(1, vx);
    m.set_reg(2, vy);
    assert_eq!(run(&mut m, 0x8120 | op), Ok(Effect::Nothing));
    assert_eq!(m.get_reg(2), vy);
    assert_eq!(m.get_reg(15), 0);
    assert_eq!(m.pc(), 0x202);
    m.get_reg(1)
}

#[test]
fn alu_family_computes_each_operation() {
    assert_eq!(alu(0x0, 0x12, 0x34), 0x34);
    assert_eq!(alu(0x1, 0b1100, 0b1010), 0b1110);
    assert_eq!(alu(0x2, 0b1100, 0b1010), 0b1000);
    assert_eq!(alu(0x3, 0b1100, 0b1010), 0b0110);
    assert_eq!(alu(0x4, 10, 20), 30);
    assert_eq!(alu(0x5, 20, 5), 15);
    assert_eq!(alu(0x6, 0b0000_0111, 0), 0b0000_0011);
    assert_eq!(alu(0x7, 5, 20), 15);
    assert_eq!(alu(0xE, 0b0100_0001, 0), 0b1000_0010);
}

#[test]
fn alu_family_wraps_without_a_flag() {
    assert_eq!(alu(0x4, 0xFF, 0x02), 0x01);
    assert_eq!(alu(0x5, 0x01, 0x02), 0xFF);
    assert_eq!(alu(0x7, 0x02, 0x01), 0xFF);
    assert_eq!(alu(0xE, 0x81, 0), 0x02);
    assert_eq!(alu(0x6, 0x01, 0), 0x00);
}

#[test]
fn alu_word_outside_the_family_is_not_an_instruction() {
    let mut m = Machine::new(1);
    m.set_reg(1, 7);
    for n in [0x8u16, 0x9, 0xA, 0xB, 0xC, 0xD, 0xF] {
        assert_eq!(run(&mut m, 0x8120 | n), Ok(Effect::Halt));
    }
    assert_eq!(m.get_reg(1), 7);
    assert_eq!(m.pc(), 0x200);
}

#[test]
fn register_dump_and_load_round_trip() {
    let mut m = Machine::new(1);
    m.set_i(0x300);
    let values = [0x11u8, 0x22, 0x33, 0x44];
    for (r, v) in values.iter().enumerate() {
        m.set_reg(r, *v);
    }
    m.set_reg(4, 0x55);
    assert_eq!(run(&mut m, 0xF355), Ok(Effect::Nothing));
    assert_eq!(m.read_mem(0x300), 0x11);
    assert_eq!(m.read_mem(0x303), 0x44);
    assert_eq!(m.read_mem(0x304), 0);
    assert_eq!(m.get_i(), 0x300);
    for r in 0..5 {
        m.set_reg(r, 0);
    }
    assert_eq!(run(&mut m, 0xF365), Ok(Effect::Nothing));
    for (r, v) in values.iter().enumerate() {
        assert_eq!(m.get_reg(r), *v);
    }
    assert_eq!(m.get_reg(4), 0);
    assert_eq!(m.pc(), 0x204);
}

#[test]
fn register_dump_outside_memory_is_a_fault_and_changes_nothing() {
    let mut m = Machine::new(1);
    m.set_i(0xFFE);
    m.set_reg(0, 1);
    m.set_reg(1, 2);
    m.set_reg(2, 3);
    assert_eq!(run(&mut m, 0xF255), Err(Fault::AddressOutOfRange));
    assert_eq!(m.read_mem(0xFFE), 0);
    assert_eq!(m.pc(), 0x200);
    assert_eq!(run(&mut m, 0xF265), Err(Fault::AddressOutOfRange));
    assert_eq!(m.get_reg(0), 1);
    assert_eq!(run(&mut m, 0xF155), Ok(Effect::Nothing));
    assert_eq!(m.read_mem(0xFFE), 1);
    assert_eq!(m.read_mem(0xFFF), 2);
}

#[test]
fn placeholders_only_report_and_advance() {
    let cases = [
        (0xE19Eu16, Stub::KeyEq),
        (0xE1A1, Stub::KeyDiff),
        (0xF107, Stub::GetDelay),
        (0xF10A, Stub::GetKey),
        (0xF115, Stub::Timer),
        (0xF118, Stub::Sound),
        (0xF129, Stub::LoadSprite),
        (0xF133, Stub::Bcd),
    ];
    for (word, stub) in cases {
        let mut m = Machine::new(1);
        m.set_reg(1, 0x7B);
        m.set_i(0x300);
        assert_eq!(run(&mut m, word), Ok(Effect::Diagnostic(stub)));
        assert_eq!(m.pc(), 0x202);
        assert_eq!(m.get_reg(1), 0x7B);
        assert_eq!(m.get_i(), 0x300);
        assert_eq!(m.read_mem(0x300), 0);
    }
}

#[test]
fn placeholder_messages() {
    assert_eq!(Stub::KeyEq.message(), "instruction key eq implemented");
    assert_eq!(Stub::KeyDiff.message(), "instruction key diff implemented");
    assert_eq!(Stub::GetDelay.message(), "instruction get delay implemented");
    assert_eq!(Stub::GetKey.message(), "instruction get_key implemented");
    assert_eq!(Stub::Timer.message(), "instruction timer implemented");
    assert_eq!(Stub::Sound.message(), "instruction sound implemented");
    assert_eq!(Stub::LoadSprite.message(), "instruction load sprite implemented");
    assert_eq!(Stub::Bcd.message(), "instruction BCD implemented");
}

#[test]
fn unrecognized_words_halt_and_change_nothing() {
    for word in [0x0000u16, 0x0123, 0x00E1, 0xE000, 0xE19F, 0xF000, 0xF1FF, 0xF156] {
        let mut m = Machine::new(1);
        assert_eq!(run(&mut m, word), Ok(Effect::Halt));
        assert_eq!(m.pc(), 0x200);
    }
}

#[test]
fn clear_screen_asks_for_a_blank_display() {
    let mut m = Machine::new(1);
    assert_eq!(run(&mut m, 0x00E0), Ok(Effect::ClearScreen));
    assert_eq!(m.pc(), 0x202);
}

#[test]
fn random_with_a_given_number_masks_it() {
    let mut m = Machine::new(1);
    assert_eq!(execute(0xC50F, &mut m, 0xAB), Ok(Effect::Nothing));
    assert_eq!(m.get_reg(5), 0x0B);
    assert_eq!(m.pc(), 0x202);
    random_instr_with((0xC, 6, 0xF, 0x0), &mut m, 0xAB);
    assert_eq!(m.get_reg(6), 0xA0);
}

#[test]
fn random_instruction_draws_below_the_bound_and_varies() {
    let mut m = Machine::new(1);
    let mut seen = [false; 256];
    for _ in 0..4000 {
        m.set_pc(0x200);
        assert_eq!(run(&mut m, 0xC1FF), Ok(Effect::Nothing));
        assert_eq!(m.pc(), 0x202);
        seen[m.get_reg(1) as usize] = true;
    }
    assert!(!seen[255]);
    let distinct = seen.iter().filter(|s| **s).count();
    assert!(distinct > 100);
}

#[test]
fn random_instruction_with_zero_mask_gives_zero() {
    let mut m = Machine::new(1);
    m.set_reg(1, 9);
    let drawn = random_instr((0xC, 1, 0, 0), &mut m);
    assert!(drawn < 255);
    assert_eq!(m.get_reg(1), 0);
}

#[test]
fn handlers_work_on_decoded_tuples() {
    let mut m = Machine::new(1);
    m.set_reg(1, 5);
    condition((3, 1, 0, 5), &mut m);
    assert_eq!(m.pc(), 0x202);
    condition((3, 1, 0, 6), &mut m);
    assert_eq!(m.pc(), 0x202);
    setter_regs((8, 1, 2, 4), &mut m);
    assert_eq!(m.get_reg(1), 5);
    m.set_reg(2, 0xFE);
    setter_regs((8, 1, 2, 4), &mut m);
    assert_eq!(m.get_reg(1), 3);
    m.set_i(0x400);
    reg_dump(2, &mut m);
    assert_eq!(m.read_mem(0x401), 3);
    assert_eq!(m.read_mem(0x402), 0xFE);
    m.set_i(0x401);
    reg_load(1, &mut m);
    assert_eq!(m.get_reg(0), 3);
    assert_eq!(m.get_reg(1), 0xFE);
    assert_eq!(m.get_reg(2), 0xFE);
}

#[test]
fn program_runs_until_the_unrecognized_word() {
    let mut m = Machine::new(1);
    m.write_rom(&[0x60, 0x0A, 0x70, 0x05, 0x00, 0x00]);
    assert_eq!(step(&mut m), Ok(Effect::Nothing));
    assert_eq!(m.get_reg(0), 0x0A);
    assert_eq!(step(&mut m), Ok(Effect::Nothing));
    assert_eq!(m.get_reg(0), 0x0F);
    assert_eq!(m.pc(), 0x204);
    assert_eq!(step(&mut m), Ok(Effect::Halt));
    assert_eq!(m.get_reg(0), 0x0F);
    assert_eq!(m.pc(), 0x204);
}

#[test]
fn step_past_the_end_of_memory_is_a_fault() {
    let mut m = Machine::new(1);
    m.set_pc(0xFFF);
    assert_eq!(step(&mut m), Err(Fault::AddressOutOfRange));
    assert_eq!(m.pc(), 0xFFF);
}
