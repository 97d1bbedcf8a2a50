//! The machine state: memory, registers, address register, call stack and
//! program counter, with the operations that read and change them.

use crate::timer::Timer;
use vstd::prelude::*;

verus! {

/// Address at which a program image is loaded and at which execution starts.
pub const START_ADDR: usize = 512;

/// Width of one instruction in bytes.
pub const SIZE_INSTR: usize = 2;

/// Number of bytes of addressable memory.
pub const MEM_SIZE: usize = 0x1000;

/// Number of general byte registers, `V0` to `VF`.
pub const NUM_REGS: usize = 16;

/// Seed of the delay timer when no register supplies one.
pub const DEFAULT_TIMER_SEED: u8 = 10;

/// The conditions under which the machine cannot go on.
#[derive(Clone, Copy, Debug, PartialEq, Eq, Structural)]
pub enum Fault {
    /// A memory access outside the `MEM_SIZE` bytes of the address space.
    AddressOutOfRange,
    /// A return while the call stack holds no return address.
    StackUnderflow,
}

/// What a request for the timer's count stores: the reply, or 0 where there
/// was no timer to reply.
pub open spec fn reply_or_zero(reply: Option<u8>) -> u8 {
    match reply {
        Some(val) => val,
        None => 0,
    }
}

/// The flat byte store that backs both program code and data.
pub struct Memory {
    addr_space: Vec<u8>,
}

impl View for Memory {
    type V = Seq<u8>;

    closed spec fn view(&self) -> Seq<u8> {
        self.addr_space@
    }
}

impl Memory {
    /// A memory holds exactly `MEM_SIZE` bytes.
    pub open spec fn wf(&self) -> bool {
        self@.len() == MEM_SIZE
    }

    /// A memory of `MEM_SIZE` zero bytes.
    pub fn new() -> (m: Memory)
        ensures
            m.wf(),
            m@ == Seq::new(MEM_SIZE as nat, |i: int| 0u8),
    {
        let m = Memory { addr_space: vec![0u8; MEM_SIZE] };
        assert(m@ =~= Seq::new(MEM_SIZE as nat, |i: int| 0u8));
        m
    }

    /// Stores `val` at address `idx`.
    pub fn write_mem(&mut self, idx: u16, val: u8)
        requires
            old(self).wf(),
            idx < MEM_SIZE,
        ensures
            final(self).wf(),
            final(self)@ == old(self)@.update(idx as int, val),
    {
        self.addr_space[idx as usize] = val;
    }

    /// The byte at address `idx`.
    pub fn read_mem(&self, idx: u16) -> (val: u8)
        requires
            self.wf(),
            idx < MEM_SIZE,
        ensures
            val == self@[idx as int],
    {
        self.addr_space[idx as usize]
    }
}

impl Default for Memory {
    fn default() -> (m: Memory)
        ensures
            m.wf(),
            m@ == Seq::new(MEM_SIZE as nat, |i: int| 0u8),
    {
        Memory::new()
    }
}

/// The mathematical value of a machine: what every contract speaks of.
pub struct MachineView {
    /// The 16-bit address register `I`.
    pub reg_i: u16,
    /// The general registers `V0` to `VF`.
    pub registers: Seq<u8>,
    /// The bytes of memory, by address.
    pub memory: Seq<u8>,
    /// The return addresses, the most recent call last.
    pub stack: Seq<usize>,
    /// The address of the next instruction to fetch.
    pub pc: usize,
    /// The integer factor by which the display scales a pixel.
    pub screen_scale: u8,
    /// Whether a delay timer has been started, to which requests can be
    /// sent.
    pub timer_linked: bool,
}

impl MachineView {
    /// Sixteen registers and `MEM_SIZE` bytes of memory.
    pub open spec fn wf(self) -> bool {
        self.registers.len() == NUM_REGS && self.memory.len() == MEM_SIZE
    }

    /// The state of a machine that has just been made.
    pub open spec fn initial(scale: u8) -> MachineView {
        MachineView {
            reg_i: 0,
            registers: Seq::new(NUM_REGS as nat, |i: int| 0u8),
            memory: Seq::new(MEM_SIZE as nat, |i: int| 0u8),
            stack: Seq::empty(),
            pc: START_ADDR,
            screen_scale: scale,
            timer_linked: false,
        }
    }

    pub open spec fn with_pc(self, pc: usize) -> MachineView {
        MachineView { pc, ..self }
    }

    pub open spec fn with_i(self, val: u16) -> MachineView {
        MachineView { reg_i: val, ..self }
    }

    pub open spec fn with_reg(self, idx: int, val: u8) -> MachineView {
        MachineView { registers: self.registers.update(idx, val), ..self }
    }

    pub open spec fn with_registers(self, registers: Seq<u8>) -> MachineView {
        MachineView { registers, ..self }
    }

    pub open spec fn with_mem(self, idx: int, val: u8) -> MachineView {
        MachineView { memory: self.memory.update(idx, val), ..self }
    }

    pub open spec fn with_memory(self, memory: Seq<u8>) -> MachineView {
        MachineView { memory, ..self }
    }

    pub open spec fn with_scale(self, scale: u8) -> MachineView {
        MachineView { screen_scale: scale, ..self }
    }

    pub open spec fn with_timer_linked(self, linked: bool) -> MachineView {
        MachineView { timer_linked: linked, ..self }
    }

    /// The program counter moved past one instruction.
    pub open spec fn advanced(self) -> MachineView {
        self.with_pc((self.pc + SIZE_INSTR) as usize)
    }

    /// A subroutine call: the current program counter is pushed, then
    /// replaced by `addr`.
    pub open spec fn called(self, addr: u16) -> MachineView {
        MachineView { stack: self.stack.push(self.pc), pc: addr as usize, ..self }
    }

    /// A return: the most recent return address is popped into the program
    /// counter.
    pub open spec fn returned(self) -> MachineView {
        MachineView { stack: self.stack.drop_last(), pc: self.stack.last(), ..self }
    }

    /// The instruction word at the program counter, high byte first.
    pub open spec fn word_at_pc(self) -> u16 {
        (self.memory[self.pc as int] * 0x100 + self.memory[self.pc + 1]) as u16
    }

    /// The seed that a delay timer started now would get.
    pub open spec fn timer_seed(self, reg: Option<u8>) -> u8 {
        match reg {
            Some(r) => self.registers[r as int],
            None => DEFAULT_TIMER_SEED,
        }
    }

    /// Memory after a program image has been copied to `START_ADDR`.
    pub open spec fn loaded(self, rom: Seq<u8>) -> MachineView {
        self.with_memory(
            Seq::new(
                self.memory.len(),
                |a: int|
                    if START_ADDR <= a < START_ADDR + rom.len() {
                        rom[a - START_ADDR]
                    } else {
                        self.memory[a]
                    },
            ),
        )
    }
}

/// The virtual machine.
pub struct Machine {
    reg_i: u16,
    registers: Vec<u8>,
    memory: Memory,
    stack: Vec<usize>,
    pc: usize,
    screen_scale: u8,
    timer_linked: bool,
}

impl View for Machine {
    type V = MachineView;

    closed spec fn view(&self) -> MachineView {
        MachineView {
            reg_i: self.reg_i,
            registers: self.registers@,
            memory: self.memory@,
            stack: self.stack@,
            pc: self.pc,
            screen_scale: self.screen_scale,
            timer_linked: self.timer_linked,
        }
    }
}

impl Machine {
    /// The machine holds sixteen registers and `MEM_SIZE` bytes of memory.
    pub open spec fn wf(&self) -> bool {
        self@.wf()
    }

    /// A machine with zeroed registers and memory, an empty call stack and
    /// the program counter at `START_ADDR`.
    pub fn new(scale: u8) -> (m: Machine)
        ensures
            m.wf(),
            m@ == MachineView::initial(scale),
    {
        let m = Machine {
            registers: vec![0u8; NUM_REGS],
            stack: Vec::new(),
            reg_i: 0,
            memory: Memory::default(),
            pc: START_ADDR,
            screen_scale: scale,
            timer_linked: false,
        };
        assert(m@.registers =~= Seq::new(NUM_REGS as nat, |i: int| 0u8));
        m
    }

    pub fn set_screen_scale(&mut self, scale: u8)
        ensures
            final(self)@ == old(self)@.with_scale(scale),
    {
        self.screen_scale = scale;
    }

    pub fn screen_scale(&self) -> (scale: u8)
        ensures
            scale == self@.screen_scale,
    {
        self.screen_scale
    }

    pub fn pc(&self) -> (pc: usize)
        ensures
            pc == self@.pc,
    {
        self.pc
    }

    /// Moves the program counter past one instruction.
    pub fn incr_pc(&mut self)
        requires
            old(self)@.pc + SIZE_INSTR <= usize::MAX,
        ensures
            final(self)@ == old(self)@.advanced(),
    {
        self.pc += SIZE_INSTR;
    }

    pub fn set_pc(&mut self, val: u16)
        ensures
            final(self)@ == old(self)@.with_pc(val as usize),
    {
        self.pc = val as usize;
    }

    /// The value of register `idx`.
    pub fn get_reg(&self, idx: usize) -> (val: u8)
        requires
            self.wf(),
            idx < NUM_REGS,
        ensures
            val == self@.registers[idx as int],
    {
        self.registers[idx]
    }

    /// Sets register `idx` to `val`.
    pub fn set_reg(&mut self, idx: usize, val: u8)
        requires
            old(self).wf(),
            idx < NUM_REGS,
        ensures
            final(self).wf(),
            final(self)@ == old(self)@.with_reg(idx as int, val),
    {
        self.registers[idx] = val;
    }

    pub fn set_i(&mut self, val: u16)
        ensures
            final(self)@ == old(self)@.with_i(val),
    {
        self.reg_i = val;
    }

    pub fn get_i(&self) -> (val: u16)
        ensures
            val == self@.reg_i,
    {
        self.reg_i
    }

    /// Stores `val` at address `idx` of memory.
    pub fn write_mem(&mut self, idx: u16, val: u8)
        requires
            old(self).wf(),
            idx < MEM_SIZE,
        ensures
            final(self).wf(),
            final(self)@ == old(self)@.with_mem(idx as int, val),
    {
        self.memory.write_mem(idx, val);
    }

    /// The byte at address `idx` of memory.
    pub fn read_mem(&self, idx: u16) -> (val: u8)
        requires
            self.wf(),
            idx < MEM_SIZE,
        ensures
            val == self@.memory[idx as int],
    {
        self.memory.read_mem(idx)
    }

    /// Calls the subroutine at `addr`: the current program counter becomes
    /// the newest return address.
    pub fn call(&mut self, addr: u16)
        ensures
            final(self)@ == old(self)@.called(addr),
    {
        self.stack.push(self.pc);
        self.pc = addr as usize;
    }

    /// Number of return addresses on the call stack.
    pub fn stack_depth(&self) -> (depth: usize)
        ensures
            depth == self@.stack.len(),
    {
        self.stack.len()
    }

    /// Returns from a subroutine to the newest return address.
    pub fn returner(&mut self)
        requires
            old(self)@.stack.len() > 0,
        ensures
            final(self)@ == old(self)@.returned(),
    {
        let addr_ret = self.stack.pop();
        match addr_ret {
            Some(addr) => {
                self.pc = addr;
            },
            None => {},
        }
    }

    /// The instruction word at the program counter, high byte first. Fails
    /// when either of its two bytes lies outside memory.
    pub fn fetch(&self) -> (res: Result<u16, Fault>)
        requires
            self.wf(),
        ensures
            res == if self@.pc + 1 < MEM_SIZE {
                Ok::<u16, Fault>(self@.word_at_pc())
            } else {
                Err::<u16, Fault>(Fault::AddressOutOfRange)
            },
    {
        if self.pc >= MEM_SIZE - 1 {
            return Err(Fault::AddressOutOfRange);
        }
        let first_byte: u8 = self.read_mem(self.pc as u16);
        let sec_byte: u8 = self.read_mem((self.pc + 1) as u16);
        proof {
            assert((first_byte as u16) << 8 | (sec_byte as u16) == first_byte * 0x100 + sec_byte)
                by (bit_vector);
        }
        Ok((first_byte as u16) << 8 | (sec_byte as u16))
    }

    /// Starts a delay timer, in place of any that ran before: the timer
    /// begins at the value of register `reg`, or at `DEFAULT_TIMER_SEED`
    /// where no register is given, and from now on a request can be sent to
    /// it.
    pub fn init_timer(&mut self, reg: Option<u8>) -> (timer: Timer)
        requires
            old(self).wf(),
            reg matches Some(r) ==> r < NUM_REGS,
        ensures
            timer.time == old(self)@.timer_seed(reg),
            final(self)@ == old(self)@.with_timer_linked(true),
    {
        let seed: u8 = match reg {
            Some(register) => self.get_reg(register as usize),
            None => DEFAULT_TIMER_SEED,
        };
        self.timer_linked = true;
        Timer::new(seed)
    }

    /// Whether there is a delay timer to ask, that is, whether a request is
    /// to be sent and a reply awaited. Asking changes nothing: the timer can
    /// be asked as often as wanted.
    pub fn request_time(&self) -> (linked: bool)
        ensures
            linked == self@.timer_linked,
    {
        self.timer_linked
    }

    /// Stores the timer's reply in register `reg`, or 0 where there was no
    /// timer to ask.
    pub fn get_time(&mut self, reg: u8, reply: Option<u8>)
        requires
            old(self).wf(),
            reg < NUM_REGS,
        ensures
            final(self).wf(),
            final(self)@ == old(self)@.with_reg(reg as int, reply_or_zero(reply)),
    {
        if let Some(val) = reply {
            self.set_reg(reg as usize, val);
        } else {
            self.set_reg(reg as usize, 0);
        }
    }

    /// Copies a program image into memory, starting at `START_ADDR`.
    pub fn write_rom(&mut self, instructions: &[u8])
        requires
            old(self).wf(),
            instructions@.len() <= MEM_SIZE - START_ADDR,
        ensures
            final(self).wf(),
            final(self)@ == old(self)@.loaded(instructions@),
    {
        let mut i: usize = 0;
        proof {
            assert(self@.memory =~= old(self)@.loaded(instructions@.take(0)).memory);
        }
        while i < instructions.len()
            invariant
                i <= instructions@.len() <= MEM_SIZE - START_ADDR,
                self.wf(),
                self@ == old(self)@.loaded(instructions@.take(i as int)),
            decreases instructions@.len() - i,
        {
            self.write_mem((START_ADDR + i) as u16, instructions[i]);
            proof {
                assert(self@.memory =~= old(self)@.loaded(
                    instructions@.take(i + 1),
                ).memory);
            }
            i += 1;
        }
        proof {
            assert(instructions@.take(i as int) =~= instructions@);
        }
    }
}

} // verus!
