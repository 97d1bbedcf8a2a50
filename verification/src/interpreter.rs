//! The executor: what each instruction does to the machine, as a function on
//! the machine's mathematical value, and the code that does it.

use crate::decode::{decode, decode_spec, imm12, imm12_spec, imm8, imm8_spec, is_decoded};
use crate::display::Pixel;
use crate::machine::{Fault, Machine, MachineView, MEM_SIZE, NUM_REGS, SIZE_INSTR};
use crate::random::random_in_range;
use vstd::prelude::*;

verus! {

/// Upper bound, exclusive, of the numbers drawn for the random instruction.
pub const RANDOM_BOUND: u16 = 255;

/// The instructions that are recognised and have no effect but a diagnostic.
#[derive(Clone, Copy, Debug, PartialEq, Eq, Structural)]
pub enum Stub {
    /// `Ex9E`: skip if the key in `Vx` is pressed.
    KeyEq,
    /// `ExA1`: skip if the key in `Vx` is not pressed.
    KeyDiff,
    /// `Fx07`: read the delay timer.
    GetDelay,
    /// `Fx0A`: wait for a key.
    GetKey,
    /// `Fx15`: set the delay timer.
    Timer,
    /// `Fx18`: set the sound timer.
    Sound,
    /// `Fx29`: address of the sprite of a digit.
    LoadSprite,
    /// `Fx33`: binary-coded decimal.
    Bcd,
}

impl Stub {
    /// The line that reports the instruction.
    pub fn message(&self) -> (text: &'static str)
        ensures
            text@ == match *self {
                Stub::KeyEq => "instruction key eq implemented"@,
                Stub::KeyDiff => "instruction key diff implemented"@,
                Stub::GetDelay => "instruction get delay implemented"@,
                Stub::GetKey => "instruction get_key implemented"@,
                Stub::Timer => "instruction timer implemented"@,
                Stub::Sound => "instruction sound implemented"@,
                Stub::LoadSprite => "instruction load sprite implemented"@,
                Stub::Bcd => "instruction BCD implemented"@,
            },
    {
        match self {
            Stub::KeyEq => "instruction key eq implemented",
            Stub::KeyDiff => "instruction key diff implemented",
            Stub::GetDelay => "instruction get delay implemented",
            Stub::GetKey => "instruction get_key implemented",
            Stub::Timer => "instruction timer implemented",
            Stub::Sound => "instruction sound implemented",
            Stub::LoadSprite => "instruction load sprite implemented",
            Stub::Bcd => "instruction BCD implemented",
        }
    }
}

/// What the surrounding program has to do after an instruction.
#[derive(Debug, PartialEq, Eq)]
pub enum Effect {
    /// Nothing.
    Nothing,
    /// Blank the display.
    ClearScreen,
    /// XOR these requests onto the display, present the frame and wait for
    /// the end of the frame.
    Draw(Vec<Pixel>),
    /// Report that an instruction without effect was met.
    Diagnostic(Stub),
    /// Leave the execution loop: the instruction is not one of the set.
    Halt,
}

/// The mathematical value of an `Effect`.
pub enum Action {
    Nothing,
    ClearScreen,
    Draw(Seq<Pixel>),
    Diagnostic(Stub),
    Halt,
}

impl View for Effect {
    type V = Action;

    open spec fn view(&self) -> Action {
        match self {
            Effect::Nothing => Action::Nothing,
            Effect::ClearScreen => Action::ClearScreen,
            Effect::Draw(pixels) => Action::Draw(pixels@),
            Effect::Diagnostic(stub) => Action::Diagnostic(*stub),
            Effect::Halt => Action::Halt,
        }
    }
}

/// The state after an instruction, and what the instruction asks for or why
/// it failed.
pub struct Outcome {
    pub state: MachineView,
    pub result: Result<Action, Fault>,
}

/// The outcome that a final state and a returned value stand for.
pub open spec fn outcome_of(state: MachineView, res: Result<Effect, Fault>) -> Outcome {
    Outcome {
        state,
        result: match res {
            Ok(effect) => Ok(effect@),
            Err(fault) => Err(fault),
        },
    }
}

/// The instruction is done, and the program goes on with `state`.
pub open spec fn done(state: MachineView, action: Action) -> Outcome {
    Outcome { state, result: Ok(action) }
}

/// The instruction cannot be done; the machine stays as it is.
pub open spec fn failed(state: MachineView, fault: Fault) -> Outcome {
    Outcome { state, result: Err(fault) }
}

/// Whether a skip instruction (`3xkk`, `4xkk`, `5xy0`, `9xy0`) skips.
pub open spec fn skip_taken(s: MachineView, t: (u16, u16, u16, u16)) -> bool {
    let vx = s.registers[t.1 as int];
    let vy = s.registers[t.2 as int];
    let kk = imm8_spec(t.2, t.3);
    ||| t.0 == 3 && vx == kk
    ||| t.0 == 4 && vx != kk
    ||| t.0 == 5 && vx == vy
    ||| t.0 == 9 && vx != vy
}

/// The state after the test of a skip instruction: the program counter has
/// moved past one instruction if the skip is taken.
pub open spec fn condition_spec(s: MachineView, t: (u16, u16, u16, u16)) -> MachineView {
    if skip_taken(s, t) {
        s.advanced()
    } else {
        s
    }
}

/// The last field of an `8xyn` instruction names an operation.
pub open spec fn is_alu_op(n: u16) -> bool {
    n <= 7 || n == 0xE
}

/// The new value of `Vx` after the `8xyn` operation `n` on `vx` and `vy`.
/// Sums, differences and the left shift are taken modulo 256.
pub open spec fn alu_spec(n: u16, vx: u8, vy: u8) -> u8 {
    if n == 0 {
        vy
    } else if n == 1 {
        vx | vy
    } else if n == 2 {
        vx & vy
    } else if n == 3 {
        vx ^ vy
    } else if n == 4 {
        ((vx + vy) % 256) as u8
    } else if n == 5 {
        ((vx - vy) % 256) as u8
    } else if n == 6 {
        vx / 2
    } else if n == 7 {
        ((vy - vx) % 256) as u8
    } else {
        ((vx * 2) % 256) as u8
    }
}

/// The state after the register operation of an `8xyn` instruction: `Vx`
/// holds the result of operation `n`, and nothing changes where `n` names
/// no operation.
pub open spec fn setter_regs_spec(s: MachineView, t: (u16, u16, u16, u16)) -> MachineView {
    if is_alu_op(t.3) {
        s.with_reg(t.1 as int, alu_spec(t.3, s.registers[t.1 as int], s.registers[t.2 as int]))
    } else {
        s
    }
}

/// The state after registers `V0` to `V(count - 1)` have been stored in
/// memory from the address register on.
pub open spec fn dumped(s: MachineView, count: int) -> MachineView {
    s.with_memory(
        Seq::new(
            s.memory.len(),
            |a: int|
                if s.reg_i <= a < s.reg_i + count {
                    s.registers[a - s.reg_i]
                } else {
                    s.memory[a]
                },
        ),
    )
}

/// The state after registers `V0` to `V(count - 1)` have been read from
/// memory from the address register on.
pub open spec fn restored(s: MachineView, count: int) -> MachineView {
    s.with_registers(
        Seq::new(
            s.registers.len(),
            |r: int|
                if r < count {
                    s.memory[s.reg_i + r]
                } else {
                    s.registers[r]
                },
        ),
    )
}

/// What the instruction word `w` does to the machine `s`, where `rnd` is
/// the number that the random instruction draws.
///
/// Every instruction but a jump, a call, a return and a halt leaves the
/// program counter one instruction further; a skip that is taken, two. A
/// fault and a halt leave the machine as it is.
pub open spec fn execute_spec(s: MachineView, w: u16, rnd: u8) -> Outcome {
    let t = decode_spec(w);
    let (op, x, y, n) = t;
    let nnn = imm12_spec(x, y, n);
    let kk = imm8_spec(y, n);
    let vx = s.registers[x as int];
    let vy = s.registers[y as int];
    if op == 0 {
        if w == 0x00E0 {
            done(s.advanced(), Action::ClearScreen)
        } else if w == 0x00EE {
            if s.stack.len() > 0 {
                done(s.returned(), Action::Nothing)
            } else {
                failed(s, Fault::StackUnderflow)
            }
        } else {
            done(s, Action::Halt)
        }
    } else if op == 1 {
        done(s.with_pc(nnn as usize), Action::Nothing)
    } else if op == 2 {
        done(s.called(nnn), Action::Nothing)
    } else if op == 3 || op == 4 || (op == 5 && n == 0) || (op == 9 && n == 0) {
        done(condition_spec(s, t).advanced(), Action::Nothing)
    } else if op == 6 {
        done(s.with_reg(x as int, kk).advanced(), Action::Nothing)
    } else if op == 7 {
        done(s.with_reg(x as int, ((vx + kk) % 256) as u8).advanced(), Action::Nothing)
    } else if op == 8 && is_alu_op(n) {
        done(s.with_reg(x as int, alu_spec(n, vx, vy)).advanced(), Action::Nothing)
    } else if op == 0xA {
        done(s.with_i(nnn).advanced(), Action::Nothing)
    } else if op == 0xB {
        done(s.with_pc(nnn as usize), Action::Nothing)
    } else if op == 0xC {
        done(s.with_reg(x as int, rnd & kk).advanced(), Action::Nothing)
    } else if op == 0xD {
        if s.sprite_in_memory(n as u8) {
            done(s.advanced(), Action::Draw(s.sprite(x as int, y as int, n as u8)))
        } else {
            failed(s, Fault::AddressOutOfRange)
        }
    } else if op == 0xE && y == 9 && n == 0xE {
        done(s.advanced(), Action::Diagnostic(Stub::KeyEq))
    } else if op == 0xE && y == 0xA && n == 1 {
        done(s.advanced(), Action::Diagnostic(Stub::KeyDiff))
    } else if op == 0xF && y == 0 && n == 7 {
        done(s.advanced(), Action::Diagnostic(Stub::GetDelay))
    } else if op == 0xF && y == 0 && n == 0xA {
        done(s.advanced(), Action::Diagnostic(Stub::GetKey))
    } else if op == 0xF && y == 1 && n == 5 {
        done(s.advanced(), Action::Diagnostic(Stub::Timer))
    } else if op == 0xF && y == 1 && n == 8 {
        done(s.advanced(), Action::Diagnostic(Stub::Sound))
    } else if op == 0xF && y == 1 && n == 0xE {
        done(s.with_i(((s.reg_i + vx) % 0x10000) as u16).advanced(), Action::Nothing)
    } else if op == 0xF && y == 2 && n == 9 {
        done(s.advanced(), Action::Diagnostic(Stub::LoadSprite))
    } else if op == 0xF && y == 3 && n == 3 {
        done(s.advanced(), Action::Diagnostic(Stub::Bcd))
    } else if op == 0xF && y == 5 && n == 5 {
        if s.reg_i + x < MEM_SIZE {
            done(dumped(s, x + 1).advanced(), Action::Nothing)
        } else {
            failed(s, Fault::AddressOutOfRange)
        }
    } else if op == 0xF && y == 6 && n == 5 {
        if s.reg_i + x < MEM_SIZE {
            done(restored(s, x + 1).advanced(), Action::Nothing)
        } else {
            failed(s, Fault::AddressOutOfRange)
        }
    } else {
        done(s, Action::Halt)
    }
}

/// What one cycle does: the word at the program counter is fetched and
/// executed. The fetch fails when the word does not lie in memory.
pub open spec fn cycle_spec(s: MachineView, rnd: u8) -> Outcome {
    if s.pc + 1 < MEM_SIZE {
        execute_spec(s, s.word_at_pc(), rnd)
    } else {
        failed(s, Fault::AddressOutOfRange)
    }
}

/// Stores registers `V0` to `V(reg_number)` in memory from the address
/// register on.
pub fn reg_dump(reg_number: u8, machine: &mut Machine)
    requires
        old(machine).wf(),
        reg_number < NUM_REGS,
        old(machine)@.reg_i + reg_number < MEM_SIZE,
    ensures
        final(machine).wf(),
        final(machine)@ == dumped(old(machine)@, reg_number + 1),
{
    let base_addr: u16 = machine.get_i();
    let mut i: u8 = 0;
    proof {
        assert(machine@.memory =~= dumped(old(machine)@, 0).memory);
    }
    while i < reg_number + 1
        invariant
            i <= reg_number + 1,
            reg_number < NUM_REGS,
            base_addr == old(machine)@.reg_i,
            base_addr + reg_number < MEM_SIZE,
            old(machine).wf(),
            machine.wf(),
            machine@ == dumped(old(machine)@, i as int),
        decreases reg_number + 1 - i,
    {
        let val: u8 = machine.get_reg(i as usize);
        machine.write_mem(base_addr + i as u16, val);
        proof {
            assert(machine@.memory =~= dumped(old(machine)@, i + 1).memory);
        }
        i += 1;
    }
}

/// Reads registers `V0` to `V(reg_number)` from memory from the address
/// register on.
pub fn reg_load(reg_number: u8, machine: &mut Machine)
    requires
        old(machine).wf(),
        reg_number < NUM_REGS,
        old(machine)@.reg_i + reg_number < MEM_SIZE,
    ensures
        final(machine).wf(),
        final(machine)@ == restored(old(machine)@, reg_number + 1),
{
    let base_addr: u16 = machine.get_i();
    let mut i: u8 = 0;
    proof {
        assert(machine@.registers =~= restored(old(machine)@, 0).registers);
    }
    while i < reg_number + 1
        invariant
            i <= reg_number + 1,
            reg_number < NUM_REGS,
            base_addr == old(machine)@.reg_i,
            base_addr + reg_number < MEM_SIZE,
            old(machine).wf(),
            machine.wf(),
            machine@ == restored(old(machine)@, i as int),
        decreases reg_number + 1 - i,
    {
        let mem_content: u8 = machine.read_mem(base_addr + i as u16);
        machine.set_reg(i as usize, mem_content);
        proof {
            assert(machine@.registers =~= restored(old(machine)@, i + 1).registers);
        }
        i += 1;
    }
}

/// The random instruction with the number `rnd` drawn for it: `Vx` becomes
/// `rnd AND kk`.
pub fn random_instr_with(instruction: (u16, u16, u16, u16), machine: &mut Machine, rnd: u8)
    requires
        old(machine).wf(),
        is_decoded(instruction),
    ensures
        final(machine).wf(),
        final(machine)@ == old(machine)@.with_reg(
            instruction.1 as int,
            rnd & imm8_spec(instruction.2, instruction.3),
        ),
{
    let nn: u8 = imm8(instruction.2, instruction.3);
    let new_rand: u8 = rnd & nn;
    machine.set_reg(instruction.1 as usize, new_rand);
}

/// The random instruction: draws a number below `RANDOM_BOUND` and stores
/// it, masked by `kk`, in `Vx`. Returns the number drawn.
pub fn random_instr(instruction: (u16, u16, u16, u16), machine: &mut Machine) -> (rnd: u8)
    requires
        old(machine).wf(),
        is_decoded(instruction),
    ensures
        rnd < RANDOM_BOUND,
        final(machine).wf(),
        final(machine)@ == old(machine)@.with_reg(
            instruction.1 as int,
            rnd & imm8_spec(instruction.2, instruction.3),
        ),
{
    let drawn: u16 = random_in_range(0, RANDOM_BOUND);
    let rnd: u8 = drawn as u8;
    random_instr_with(instruction, machine, rnd);
    rnd
}

/// The test of a skip instruction: moves the program counter past one
/// instruction if the skip is taken.
pub fn condition(instruction: (u16, u16, u16, u16), machine: &mut Machine)
    requires
        old(machine).wf(),
        is_decoded(instruction),
        old(machine)@.pc + SIZE_INSTR <= usize::MAX,
    ensures
        final(machine).wf(),
        final(machine)@ == condition_spec(old(machine)@, instruction),
{
    let reg_x: usize = instruction.1 as usize;
    if instruction.0 == 3 || instruction.0 == 4 {
        let comp_value: u8 = imm8(instruction.2, instruction.3);
        let reg_value: u8 = machine.get_reg(reg_x);
        if instruction.0 == 3 && comp_value == reg_value {
            machine.incr_pc();
        }
        if instruction.0 == 4 && comp_value != reg_value {
            machine.incr_pc();
        }
        return ;
    }
    let reg_y: usize = instruction.2 as usize;
    if instruction.0 == 5 && machine.get_reg(reg_x) == machine.get_reg(reg_y) {
        machine.incr_pc();
    }
    if instruction.0 == 9 && machine.get_reg(reg_x) != machine.get_reg(reg_y) {
        machine.incr_pc();
    }
}

/// An `8xyn` instruction: `Vx` becomes the result of operation `n` on `Vx`
/// and `Vy`. Where `n` names no operation, no register is written.
pub fn setter_regs(instruction: (u16, u16, u16, u16), machine: &mut Machine)
    requires
        old(machine).wf(),
        is_decoded(instruction),
    ensures
        final(machine).wf(),
        final(machine)@ == setter_regs_spec(old(machine)@, instruction),
        !is_alu_op(instruction.3) ==> final(machine)@ == old(machine)@,
{
    if !(instruction.3 <= 7 || instruction.3 == 0xE) {
        return ;
    }
    let reg_x: usize = instruction.1 as usize;
    let regval_x: u8 = machine.get_reg(reg_x);
    let regval_y: u8 = machine.get_reg(instruction.2 as usize);
    let op: u16 = instruction.3;
    let new_x_val: u8 = if op == 0 {
        regval_y
    } else if op == 1 {
        regval_x | regval_y
    } else if op == 2 {
        regval_x & regval_y
    } else if op == 3 {
        regval_x ^ regval_y
    } else if op == 4 {
        regval_x.wrapping_add(regval_y)
    } else if op == 5 {
        regval_x.wrapping_sub(regval_y)
    } else if op == 6 {
        assert(regval_x >> 1 == regval_x / 2) by (bit_vector);
        regval_x >> 1
    } else if op == 7 {
        regval_y.wrapping_sub(regval_x)
    } else {
        assert(regval_x << 1 == (regval_x * 2) % 256) by (bit_vector);
        regval_x << 1
    };
    machine.set_reg(reg_x, new_x_val);
}

/// Executes the instruction word, with `rnd` as the number that the random
/// instruction draws.
pub fn execute(instruction: u16, machine: &mut Machine, rnd: u8) -> (res: Result<Effect, Fault>)
    requires
        old(machine).wf(),
        old(machine)@.pc + 2 * SIZE_INSTR <= usize::MAX,
    ensures
        final(machine).wf(),
        outcome_of(final(machine)@, res) == execute_spec(old(machine)@, instruction, rnd),
{
    let instr_tuple: (u16, u16, u16, u16) = decode(instruction);
    let (op, b, c, d) = instr_tuple;
    if op == 0 {
        if b == 0 && c == 0xE && d == 0 {
            machine.incr_pc();
            return Ok(Effect::ClearScreen);
        } else if b == 0 && c == 0xE && d == 0xE {
            if machine.stack_depth() == 0 {
                return Err(Fault::StackUnderflow);
            }
            machine.returner();
            return Ok(Effect::Nothing);
        } else {
            return Ok(Effect::Halt);
        }
    } else if op == 1 {
        machine.set_pc(imm12(b, c, d));
        return Ok(Effect::Nothing);
    } else if op == 2 {
        machine.call(imm12(b, c, d));
        return Ok(Effect::Nothing);
    } else if op == 3 || op == 4 || (op == 5 && d == 0) || (op == 9 && d == 0) {
        condition(instr_tuple, machine);
    } else if op == 6 {
        machine.set_reg(b as usize, imm8(c, d));
    } else if op == 7 {
        let sum: u8 = machine.get_reg(b as usize).wrapping_add(imm8(c, d));
        machine.set_reg(b as usize, sum);
    } else if op == 8 && (d <= 7 || d == 0xE) {
        setter_regs(instr_tuple, machine);
    } else if op == 0xA {
        machine.set_i(imm12(b, c, d));
    } else if op == 0xB {
        machine.set_pc(imm12(b, c, d));
        return Ok(Effect::Nothing);
    } else if op == 0xC {
        random_instr_with(instr_tuple, machine, rnd);
    } else if op == 0xD {
        let pixels: Vec<Pixel> = match machine.draw(b as u8, c as u8, d as u8) {
            Ok(pixels) => pixels,
            Err(fault) => {
                return Err(fault);
            },
        };
        machine.incr_pc();
        return Ok(Effect::Draw(pixels));
    } else if op == 0xE && c == 9 && d == 0xE {
        machine.incr_pc();
        return Ok(Effect::Diagnostic(Stub::KeyEq));
    } else if op == 0xE && c == 0xA && d == 1 {
        machine.incr_pc();
        return Ok(Effect::Diagnostic(Stub::KeyDiff));
    } else if op == 0xF && c == 0 && d == 7 {
        machine.incr_pc();
        return Ok(Effect::Diagnostic(Stub::GetDelay));
    } else if op == 0xF && c == 0 && d == 0xA {
        machine.incr_pc();
        return Ok(Effect::Diagnostic(Stub::GetKey));
    } else if op == 0xF && c == 1 && d == 5 {
        machine.incr_pc();
        return Ok(Effect::Diagnostic(Stub::Timer));
    } else if op == 0xF && c == 1 && d == 8 {
        machine.incr_pc();
        return Ok(Effect::Diagnostic(Stub::Sound));
    } else if op == 0xF && c == 1 && d == 0xE {
        let sum: u16 = machine.get_i().wrapping_add(machine.get_reg(b as usize) as u16);
        machine.set_i(sum);
    } else if op == 0xF && c == 2 && d == 9 {
        machine.incr_pc();
        return Ok(Effect::Diagnostic(Stub::LoadSprite));
    } else if op == 0xF && c == 3 && d == 3 {
        machine.incr_pc();
        return Ok(Effect::Diagnostic(Stub::Bcd));
    } else if op == 0xF && c == 5 && d == 5 {
        if machine.get_i() as usize + b as usize >= MEM_SIZE {
            return Err(Fault::AddressOutOfRange);
        }
        reg_dump(b as u8, machine);
    } else if op == 0xF && c == 6 && d == 5 {
        if machine.get_i() as usize + b as usize >= MEM_SIZE {
            return Err(Fault::AddressOutOfRange);
        }
        reg_load(b as u8, machine);
    } else {
        return Ok(Effect::Halt);
    }
    machine.incr_pc();
    Ok(Effect::Nothing)
}

/// Only the random instruction looks at the number drawn.
pub proof fn lemma_random_only(s: MachineView, w: u16, r1: u8, r2: u8)
    requires
        decode_spec(w).0 != 0xC,
    ensures
        execute_spec(s, w, r1) == execute_spec(s, w, r2),
{
}

/// Decodes and executes one instruction word. The random instruction draws
/// its number, below `RANDOM_BOUND`, from the random number generator.
pub fn dispatch_interpretor(instruction: u16, machine: &mut Machine) -> (res: Result<
    Effect,
    Fault,
>)
    requires
        old(machine).wf(),
        old(machine)@.pc + 2 * SIZE_INSTR <= usize::MAX,
    ensures
        final(machine).wf(),
        exists|rnd: u8|
            rnd < RANDOM_BOUND && #[trigger] execute_spec(old(machine)@, instruction, rnd)
                == outcome_of(final(machine)@, res),
        decode_spec(instruction).0 != 0xC ==> outcome_of(final(machine)@, res) == execute_spec(
            old(machine)@,
            instruction,
            0,
        ),
{
    let instr_tuple: (u16, u16, u16, u16) = decode(instruction);
    if instr_tuple.0 == 0xC {
        let rnd: u8 = random_instr(instr_tuple, machine);
        machine.incr_pc();
        let res: Result<Effect, Fault> = Ok(Effect::Nothing);
        assert(execute_spec(old(machine)@, instruction, rnd) == outcome_of(machine@, res));
        res
    } else {
        let res: Result<Effect, Fault> = execute(instruction, machine, 0);
        assert(execute_spec(old(machine)@, instruction, 0) == outcome_of(machine@, res));
        res
    }
}

/// One cycle: fetches the instruction word at the program counter and
/// executes it.
pub fn step(machine: &mut Machine) -> (res: Result<Effect, Fault>)
    requires
        old(machine).wf(),
    ensures
        final(machine).wf(),
        exists|rnd: u8|
            rnd < RANDOM_BOUND && #[trigger] cycle_spec(old(machine)@, rnd) == outcome_of(
                final(machine)@,
                res,
            ),
        !(old(machine)@.pc + 1 < MEM_SIZE && decode_spec(old(machine)@.word_at_pc()).0 == 0xC)
            ==> outcome_of(final(machine)@, res) == cycle_spec(old(machine)@, 0),
{
    match machine.fetch() {
        Ok(instruction) => {
            let res: Result<Effect, Fault> = dispatch_interpretor(instruction, machine);
            proof {
                let rnd = choose|rnd: u8|
                    rnd < RANDOM_BOUND && #[trigger] execute_spec(
                        old(machine)@,
                        instruction,
                        rnd,
                    ) == outcome_of(machine@, res);
                assert(cycle_spec(old(machine)@, rnd) == outcome_of(machine@, res));
            }
            res
        },
        Err(fault) => {
            let res: Result<Effect, Fault> = Err(fault);
            assert(cycle_spec(old(machine)@, 0) == outcome_of(machine@, res));
            res
        },
    }
}

} // verus!
