use chip8::machine::{Fault, Machine, Memory, MEM_SIZE, START_ADDR};

#[test]
fn new_machine_is_zeroed_and_starts_at_the_load_address() {
    let m = Machine::new(3);
    assert_eq!(m.pc(), START_ADDR);
    assert_eq!(m.pc(), 0x200);
    assert_eq!(m.get_i(), 0);
    assert_eq!(m.screen_scale(), 3);
    assert_eq!(m.stack_depth(), 0);
    for r in 0..16 {
        assert_eq!(m.get_reg(r), 0);
    }
    assert_eq!(m.read_mem(0), 0);
    assert_eq!(m.read_mem(0xFFF), 0);
}

#[test]
fn registers_and_memory_hold_what_is_written() {
    let mut m = Machine::new(1);
    m.set_reg(0, 7);
    m.set_reg(15, 0xFF);
    m.set_i(0x345);
    m.write_mem(0, 1);
    m.write_mem(0xFFF, 2);
    assert_eq!(m.get_reg(0), 7);
    assert_eq!(m.get_reg(15), 0xFF);
    assert_eq!(m.get_reg(1), 0);
    assert_eq!(m.get_i(), 0x345);
    assert_eq!(m.read_mem(0), 1);
    assert_eq!(m.read_mem(0xFFF), 2);
    assert_eq!(m.read_mem(1), 0);
    m.set_screen_scale(9);
    assert_eq!(m.screen_scale(), 9);
}

#[test]
fn memory_reads_back_writes() {
    let mut mem = Memory::new();
    assert_eq!(mem.read_mem(0x200), 0);
    mem.write_mem(0x200, 0xAB);
    assert_eq!(mem.read_mem(0x200), 0xAB);
    assert_eq!(mem.read_mem(0x201), 0);
    let fresh = Memory::default();
    assert_eq!(fresh.read_mem(0x200), 0);
    assert_eq!(MEM_SIZE, 4096);
}

#[test]
fn program_counter_moves_by_one_instruction() {
    let mut m = Machine::new(1);
    m.incr_pc();
    assert_eq!(m.pc(), 0x202);
    m.set_pc(0x0ABC);
    assert_eq!(m.pc(), 0xABC);
    m.incr_pc();
    assert_eq!(m.pc(), 0xABE);
}

#[test]
fn call_pushes_and_returner_pops() {
    let mut m = Machine::new(1);
    m.call(0x300);
    assert_eq!(m.pc(), 0x300);
    assert_eq!(m.stack_depth(), 1);
    m.call(0x400);
    assert_eq!(m.pc(), 0x400);
    assert_eq!(m.stack_depth(), 2);
    m.returner();
    assert_eq!(m.pc(), 0x300);
    m.returner();
    assert_eq!(m.pc(), 0x200);
    assert_eq!(m.stack_depth(), 0);
}

#[test]
fn write_rom_copies_the_image_to_the_load_address() {
    let mut m = Machine::new(1);
    m.write_mem(0x1FF, 0x11);
    m.write_mem(0x203, 0x22);
    m.write_rom(&[0xDE, 0xAD, 0xBE]);
    assert_eq!(m.read_mem(0x1FF), 0x11);
    assert_eq!(m.read_mem(0x200), 0xDE);
    assert_eq!(m.read_mem(0x201), 0xAD);
    assert_eq!(m.read_mem(0x202), 0xBE);
    assert_eq!(m.read_mem(0x203), 0x22);
}

#[test]
fn write_rom_takes_an_image_that_fills_memory_to_the_end() {
    let mut m = Machine::new(1);
    let rom = vec![0x5Au8; MEM_SIZE - START_ADDR];
    m.write_rom(&rom);
    assert_eq!(m.read_mem(0x200), 0x5A);
    assert_eq!(m.read_mem(0xFFF), 0x5A);
    assert_eq!(m.read_mem(0x1FF), 0);
    let mut empty = Machine::new(1);
    empty.write_rom(&[]);
    assert_eq!(empty.read_mem(0x200), 0);
}

#[test]
fn fetch_reads_the_high_byte_first() {
    let mut m = Machine::new(1);
    m.write_rom(&[0x12, 0x34]);
    assert_eq!(m.fetch(), Ok(0x1234));
    m.set_pc(0x201);
    assert_eq!(m.fetch(), Ok(0x3400));
}

#[test]
fn fetch_fails_when_the_word_leaves_memory() {
    let mut m = Machine::new(1);
    m.write_mem(0xFFE, 0xAB);
    m.write_mem(0xFFF, 0xCD);
    m.set_pc(0xFFE);
    assert_eq!(m.fetch(), Ok(0xABCD));
    m.set_pc(0xFFF);
    assert_eq!(m.fetch(), Err(Fault::AddressOutOfRange));
    m.set_pc(0xFFFF);
    assert_eq!(m.fetch(), Err(Fault::AddressOutOfRange));
}
