//! Laws of the instruction set, proved of `execute_spec`: how arithmetic
//! wraps, how call and return pair up, how far the program counter moves,
//! and how the registers survive a trip through memory.

use crate::decode::{decode_spec, imm12_spec, imm8_spec};
use crate::display::{
    all_on_screen, bit_set, landing, lemma_sprite_pixels_on_screen, lemma_sprite_xor_bits,
    lemma_sprite_xor_cells, lemma_xor_twice, sprite_flips, xored, SCREEN_PIXELS,
};
use crate::interpreter::{
    alu_spec, execute_spec, is_alu_op, skip_taken, Action, Outcome,
};
use crate::interpreter::condition_spec;
use crate::decode::is_decoded;
use crate::machine::{reply_or_zero, Fault, MachineView, MEM_SIZE, NUM_REGS, SIZE_INSTR};
use crate::timer::{run_timer_spec, ticked, TimerEvent};
use vstd::prelude::*;

verus! {

/// `7xkk` adds modulo 256: the sum wraps round to 0 after 255. No other
/// register changes, and no flag is set.
pub proof fn lemma_add_immediate_wraps(s: MachineView, w: u16, rnd: u8)
    requires
        s.wf(),
        decode_spec(w).0 == 7,
    ensures
        ({
            let (op, x, y, n) = decode_spec(w);
            let after = execute_spec(s, w, rnd);
            let sum = s.registers[x as int] + imm8_spec(y, n);
            &&& after.result == Ok::<Action, Fault>(Action::Nothing)
            &&& after.state.registers.len() == NUM_REGS
            &&& after.state.registers[x as int] == if sum < 256 {
                sum
            } else {
                sum - 256
            }
            &&& forall|r: int|
                0 <= r < NUM_REGS && r != x ==> after.state.registers[r] == s.registers[r]
        }),
{
}

/// What the arithmetic operations of the `8xyn` family give, without the
/// modulo: the result is brought back into a byte by adding or taking away
/// 256 once.
pub proof fn lemma_alu_arithmetic(vx: u8, vy: u8)
    ensures
        alu_spec(4, vx, vy) == if vx + vy < 256 {
            vx + vy
        } else {
            vx + vy - 256
        },
        alu_spec(5, vx, vy) == if vx >= vy {
            vx - vy
        } else {
            vx - vy + 256
        },
        alu_spec(7, vx, vy) == if vy >= vx {
            vy - vx
        } else {
            vy - vx + 256
        },
        alu_spec(0xE, vx, vy) == if vx < 128 {
            2 * vx
        } else {
            2 * vx - 256
        },
        alu_spec(6, vx, vy) == vx / 2,
{
}

/// The sums and differences of the `8xyn` family are taken modulo 256, and
/// the shifts drop the bit that leaves the byte. No other register changes,
/// and no flag is set.
pub proof fn lemma_alu_wraps(s: MachineView, w: u16, rnd: u8)
    requires
        s.wf(),
        decode_spec(w).0 == 8,
        is_alu_op(decode_spec(w).3),
    ensures
        ({
            let (op, x, y, n) = decode_spec(w);
            let after = execute_spec(s, w, rnd);
            let vx = s.registers[x as int];
            let vy = s.registers[y as int];
            let new = after.state.registers[x as int];
            &&& after.result == Ok::<Action, Fault>(Action::Nothing)
            &&& after.state.registers.len() == NUM_REGS
            &&& new == alu_spec(n, vx, vy)
            &&& n == 4 ==> new == if vx + vy < 256 {
                vx + vy
            } else {
                vx + vy - 256
            }
            &&& n == 5 ==> new == if vx >= vy {
                vx - vy
            } else {
                vx - vy + 256
            }
            &&& n == 7 ==> new == if vy >= vx {
                vy - vx
            } else {
                vy - vx + 256
            }
            &&& n == 0xE ==> new == if vx < 128 {
                2 * vx
            } else {
                2 * vx - 256
            }
            &&& forall|r: int|
                0 <= r < NUM_REGS && r != x ==> after.state.registers[r] == s.registers[r]
        }),
{
    let (op, x, y, n) = decode_spec(w);
    lemma_alu_arithmetic(s.registers[x as int], s.registers[y as int]);
}

/// Call and return pair up: a call moves the program counter to its target
/// and a return right after it brings back the machine as it was before the
/// call, program counter and call stack included.
pub proof fn lemma_call_then_return(s: MachineView, w: u16, rnd: u8)
    requires
        decode_spec(w).0 == 2,
    ensures
        ({
            let (op, x, y, n) = decode_spec(w);
            let called = execute_spec(s, w, rnd);
            let back = execute_spec(called.state, 0x00EE, rnd);
            &&& called.result == Ok::<Action, Fault>(Action::Nothing)
            &&& called.state.pc == imm12_spec(x, y, n)
            &&& called.state.stack == s.stack.push(s.pc)
            &&& back.result == Ok::<Action, Fault>(Action::Nothing)
            &&& back.state == s
        }),
{
    let (op, x, y, n) = decode_spec(w);
    let called = execute_spec(s, w, rnd);
    assert(decode_spec(0x00EE) == (0u16, 0u16, 0xEu16, 0xEu16));
    assert(called.state.stack.drop_last() =~= s.stack);
}

/// Returns come back in the reverse order of the calls: after two calls the
/// first return goes to where the second call was made, the next to where
/// the first was made.
pub proof fn lemma_returns_reverse_calls(s: MachineView, w1: u16, w2: u16, rnd: u8)
    requires
        decode_spec(w1).0 == 2,
        decode_spec(w2).0 == 2,
    ensures
        ({
            let first = execute_spec(s, w1, rnd).state;
            let second = execute_spec(first, w2, rnd).state;
            let back1 = execute_spec(second, 0x00EE, rnd).state;
            let back2 = execute_spec(back1, 0x00EE, rnd).state;
            &&& back1 == first
            &&& back2 == s
        }),
{
    let first = execute_spec(s, w1, rnd).state;
    lemma_call_then_return(s, w1, rnd);
    lemma_call_then_return(first, w2, rnd);
}

/// A return with no call before it is a fault, and leaves the machine as it
/// is.
pub proof fn lemma_return_without_call(s: MachineView, rnd: u8)
    requires
        s.stack.len() == 0,
    ensures
        execute_spec(s, 0x00EE, rnd) == (Outcome {
            state: s,
            result: Err(Fault::StackUnderflow),
        }),
{
    assert(decode_spec(0x00EE) == (0u16, 0u16, 0xEu16, 0xEu16));
}

/// The instruction is one of the four skips.
pub open spec fn is_skip(w: u16) -> bool {
    let (op, x, y, n) = decode_spec(w);
    op == 3 || op == 4 || (op == 5 && n == 0) || (op == 9 && n == 0)
}

/// A skip that is taken moves the program counter by two instructions, one
/// that is not taken by one; nothing else changes.
pub proof fn lemma_skip_advance(s: MachineView, w: u16, rnd: u8)
    requires
        is_skip(w),
        s.pc + 2 * SIZE_INSTR <= usize::MAX,
    ensures
        ({
            let after = execute_spec(s, w, rnd);
            &&& after.result == Ok::<Action, Fault>(Action::Nothing)
            &&& after.state == s.with_pc(after.state.pc)
            &&& after.state.pc == if skip_taken(s, decode_spec(w)) {
                s.pc + 4
            } else {
                s.pc + 2
            }
        }),
{
}

/// The test of a skip instruction on its own moves the program counter past
/// one instruction if the skip is taken and leaves it where it is if not;
/// nothing else changes. The cycle's own advance comes on top of this.
pub proof fn lemma_condition_step(s: MachineView, t: (u16, u16, u16, u16))
    requires
        is_decoded(t),
        s.pc + SIZE_INSTR <= usize::MAX,
    ensures
        ({
            let vx = s.registers[t.1 as int];
            let vy = s.registers[t.2 as int];
            let kk = imm8_spec(t.2, t.3);
            let after = condition_spec(s, t);
            &&& after == s.with_pc(after.pc)
            &&& t.0 == 3 ==> after.pc == if vx == kk {
                s.pc + 2
            } else {
                s.pc as int
            }
            &&& t.0 == 4 ==> after.pc == if vx != kk {
                s.pc + 2
            } else {
                s.pc as int
            }
            &&& t.0 == 5 ==> after.pc == if vx == vy {
                s.pc + 2
            } else {
                s.pc as int
            }
            &&& t.0 == 9 ==> after.pc == if vx != vy {
                s.pc + 2
            } else {
                s.pc as int
            }
            &&& t.0 == 5 && t.1 == t.2 ==> after.pc == s.pc + 2
            &&& t.0 == 9 && t.1 == t.2 ==> after.pc == s.pc
        }),
{
}

/// The instruction sets the program counter itself: a jump, a call or a
/// return.
pub open spec fn is_transfer(w: u16) -> bool {
    let op = decode_spec(w).0;
    op == 1 || op == 2 || op == 0xB || w == 0x00EE
}

/// Every instruction that succeeds, does not halt, and is neither a skip
/// nor a jump, call or return moves the program counter by exactly one
/// instruction. A fault and a halt leave it where it is.
pub proof fn lemma_pc_advance(s: MachineView, w: u16, rnd: u8)
    requires
        s.pc + 2 * SIZE_INSTR <= usize::MAX,
    ensures
        ({
            let after = execute_spec(s, w, rnd);
            &&& after.result is Err ==> after.state == s
            &&& after.result == Ok::<Action, Fault>(Action::Halt) ==> after.state == s
            &&& after.result is Ok && after.result != Ok::<Action, Fault>(Action::Halt)
                && !is_skip(w) && !is_transfer(w) ==> after.state.pc == s.pc + 2
        }),
{
}

/// Registers survive a trip through memory: after `Fx55` has stored `V0` to
/// `Vx`, and whatever the registers are set to afterwards, `Fx65` with the
/// same `x` and the same address register brings `V0` to `Vx` back and
/// leaves the registers above `Vx` alone.
pub proof fn lemma_dump_load_round_trip(
    s: MachineView,
    dump: u16,
    load: u16,
    scratch: Seq<u8>,
    rnd: u8,
)
    requires
        s.wf(),
        scratch.len() == NUM_REGS,
        decode_spec(dump).0 == 0xF && decode_spec(dump).2 == 5 && decode_spec(dump).3 == 5,
        decode_spec(load).0 == 0xF && decode_spec(load).2 == 6 && decode_spec(load).3 == 5,
        decode_spec(dump).1 == decode_spec(load).1,
        s.reg_i + decode_spec(dump).1 < MEM_SIZE,
    ensures
        ({
            let x = decode_spec(dump).1;
            let stored = execute_spec(s, dump, rnd);
            let loaded = execute_spec(stored.state.with_registers(scratch), load, rnd);
            &&& stored.result == Ok::<Action, Fault>(Action::Nothing)
            &&& stored.state.registers == s.registers
            &&& forall|r: int| 0 <= r <= x ==> stored.state.memory[s.reg_i + r] == s.registers[r]
            &&& loaded.result == Ok::<Action, Fault>(Action::Nothing)
            &&& loaded.state.registers.len() == NUM_REGS
            &&& forall|r: int| 0 <= r <= x ==> loaded.state.registers[r] == s.registers[r]
            &&& forall|r: int| x < r < NUM_REGS ==> loaded.state.registers[r] == scratch[r]
            &&& loaded.state.memory == stored.state.memory
        }),
{
}

/// Drawing a sprite twice at the same place gives the same requests both
/// times, and XORed onto a screen twice they leave the screen as it was.
pub proof fn lemma_draw_twice_restores(s: MachineView, w: u16, screen: Seq<bool>, rnd: u8)
    requires
        s.wf(),
        screen.len() == SCREEN_PIXELS,
        decode_spec(w).0 == 0xD,
        s.sprite_in_memory(decode_spec(w).3 as u8),
    ensures
        ({
            let (op, x, y, n) = decode_spec(w);
            let pixels = s.sprite(x as int, y as int, n as u8);
            let first = execute_spec(s, w, rnd);
            let second = execute_spec(first.state, w, rnd);
            &&& first.result == Ok::<Action, Fault>(Action::Draw(pixels))
            &&& second.result == Ok::<Action, Fault>(Action::Draw(pixels))
            &&& all_on_screen(pixels)
            &&& xored(xored(screen, pixels), pixels) == screen
        }),
{
    let (op, x, y, n) = decode_spec(w);
    let pixels = s.sprite(x as int, y as int, n as u8);
    lemma_sprite_pixels_on_screen(
        s.memory,
        s.reg_i as int,
        s.registers[x as int],
        s.registers[y as int],
        n as nat,
    );
    lemma_xor_twice(screen, pixels);
}

/// A draw XORs the sprite onto the display bit by bit: the pixel on which
/// column `c` of row `r` lands becomes its old value XOR the bit of that
/// column in byte `r` of the sprite, the most significant bit being column
/// 0; every pixel on which no set bit lands keeps its old value.
#[verifier::rlimit(50)]
pub proof fn lemma_draw_xors_cells(s: MachineView, w: u16, screen: Seq<bool>, rnd: u8)
    requires
        s.wf(),
        screen.len() == SCREEN_PIXELS,
        decode_spec(w).0 == 0xD,
        s.sprite_in_memory(decode_spec(w).3 as u8),
    ensures
        ({
            let (op, x, y, n) = decode_spec(w);
            let x0 = s.registers[x as int];
            let y0 = s.registers[y as int];
            let pixels = s.sprite(x as int, y as int, n as u8);
            let after = xored(screen, pixels);
            &&& execute_spec(s, w, rnd).result == Ok::<Action, Fault>(Action::Draw(pixels))
            &&& after.len() == SCREEN_PIXELS
            &&& forall|r: int, c: int|
                0 <= r < n && 0 <= c < 8 ==> after[#[trigger] landing(x0, y0, r, c)] == (screen[landing(
                    x0,
                    y0,
                    r,
                    c,
                )] != bit_set(s.memory[s.reg_i + r], c as u8))
            &&& forall|k: int|
                0 <= k < SCREEN_PIXELS ==> #[trigger] after[k] == (screen[k] != sprite_flips(
                    s.memory,
                    s.reg_i as int,
                    x0,
                    y0,
                    n as nat,
                    k,
                ))
        }),
{
    let (op, x, y, n) = decode_spec(w);
    let x0 = s.registers[x as int];
    let y0 = s.registers[y as int];
    let pixels = s.sprite(x as int, y as int, n as u8);
    let after = xored(screen, pixels);
    lemma_sprite_xor_cells(screen, s.memory, s.reg_i as int, x0, y0, n as nat, 0);
    assert forall|k: int| 0 <= k < SCREEN_PIXELS implies #[trigger] after[k] == (screen[k]
        != sprite_flips(s.memory, s.reg_i as int, x0, y0, n as nat, k)) by {
        lemma_sprite_xor_cells(screen, s.memory, s.reg_i as int, x0, y0, n as nat, k);
    }
    assert forall|r: int, c: int| 0 <= r < n && 0 <= c < 8 implies after[#[trigger] landing(
        x0,
        y0,
        r,
        c,
    )] == (screen[landing(x0, y0, r, c)] != bit_set(s.memory[s.reg_i + r], c as u8)) by {
        lemma_sprite_xor_bits(screen, s.memory, s.reg_i as int, x0, y0, n as nat, r, c);
    }
}

/// The state after the machine has asked a timer whose count is `time` and
/// stored the answer in register `reg`: a machine that has started no timer
/// asks nobody and stores 0.
pub open spec fn asked(s: MachineView, reg: int, time: u8) -> MachineView {
    s.with_reg(
        reg,
        reply_or_zero(
            if s.timer_linked {
                run_timer_spec(time, TimerEvent::Requested).1
            } else {
                None
            },
        ),
    )
}

/// The machine as `init_timer` leaves it, and the count that its timer
/// starts from.
pub open spec fn timer_started(s: MachineView, reg: Option<u8>) -> (MachineView, u8) {
    (s.with_timer_linked(true), s.timer_seed(reg))
}

/// Started from a register that holds `seed`, any timer that ran before is
/// replaced: asked before its first period the timer gives `seed`, asked
/// after one period `seed - 1` (4 for a seed of 5), and the registers, the
/// address register, the program counter, memory and the call stack are as
/// they were.
pub proof fn lemma_timer_reads(s: MachineView, src: u8, dst: u8)
    requires
        s.wf(),
        src < NUM_REGS,
        dst < NUM_REGS,
    ensures
        ({
            let seed = s.registers[src as int];
            let (started, count) = timer_started(s, Some(src));
            let at_once = asked(started, dst as int, count);
            let later = asked(
                started,
                dst as int,
                run_timer_spec(count, TimerEvent::PeriodElapsed).0,
            );
            &&& count == seed
            &&& started == s.with_timer_linked(true)
            &&& at_once.registers[dst as int] == seed
            &&& later.registers[dst as int] == ticked(seed)
            &&& seed > 0 ==> later.registers[dst as int] == seed - 1
        }),
{
}

/// Asking does not count down and uses nothing up: two requests with no
/// period between them store the same value, the count as it stands.
pub proof fn lemma_timer_reads_agree(s: MachineView, first: u8, second: u8, time: u8)
    requires
        s.wf(),
        s.timer_linked,
        first < NUM_REGS,
        second < NUM_REGS,
    ensures
        ({
            let count = run_timer_spec(time, TimerEvent::Requested).0;
            let once = asked(s, first as int, time);
            let twice = asked(once, second as int, count);
            &&& count == time
            &&& once.timer_linked
            &&& once.registers[first as int] == time
            &&& twice.registers[second as int] == time
            &&& twice.registers[first as int] == time
        }),
{
}

/// A machine that has started no timer reads 0.
pub proof fn lemma_no_timer_reads_zero(s: MachineView, reg: u8, time: u8)
    requires
        s.wf(),
        !s.timer_linked,
        reg < NUM_REGS,
    ensures
        asked(s, reg as int, time).registers[reg as int] == 0,
        MachineView::initial(s.screen_scale).timer_linked == false,
{
}

} // verus!
