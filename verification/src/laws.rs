//! What holds of the machine whatever its state: laws of single
//! instructions and of instructions in sequence, each proved from the
//! definitions in `machine`.

use vstd::prelude::*;
use crate::cpu::Chip_8;
use crate::display::{blank, lemma_blit_twice, lights};
use crate::fault::ProgramFault;
use crate::keyboard::{key_of, lemma_first_press_from, newly_pressed, Scancode, KEY_COUNT};
use crate::machine::{
    is_clear, is_return, lemma_arithmetic_changes_registers, lemma_decimal_digits,
    lemma_draw_keeps, lemma_perform_arithmetic, lemma_perform_draw, lemma_perform_jumps,
    lemma_perform_loads, lemma_perform_skips, lemma_perform_system, lemma_perform_transfer,
    lemma_perform_unknown, lemma_transfer_keeps, op_kk, op_n, op_nnn, op_prefix, op_x, op_y,
    Machine, State, FLAG, MEMORY_SIZE, REGISTER_COUNT,
};
use crate::stack::STACK_SIZE;

verus! {

/// The program counter `pc` moved on by `by`, at sixteen bits.
pub open spec fn pc_after(pc: u16, by: int) -> u16 {
    ((pc + by) % 0x10000) as u16
}

/// Whether `op` is one of the instructions that skip the next instruction
/// on a condition.
pub open spec fn is_skip(op: u16) -> bool {
    let p = op_prefix(op);
    ||| p == 0x3
    ||| p == 0x4
    ||| (p == 0x5 && op_n(op) == 0x0)
    ||| (p == 0x9 && op_n(op) == 0x0)
    ||| (p == 0xE && (op_kk(op) == 0x9E || op_kk(op) == 0xA1))
}

/// Whether the condition holds on which the skip instruction `op` skips.
pub open spec fn skip_holds(s: Machine, op: u16) -> bool {
    let p = op_prefix(op);
    let vx = s.v[op_x(op)];
    let vy = s.v[op_y(op)];
    if p == 0x3 {
        vx == op_kk(op)
    } else if p == 0x4 {
        vx != op_kk(op)
    } else if p == 0x5 {
        vx == vy
    } else if p == 0x9 {
        vx != vy
    } else if op_kk(op) == 0x9E {
        s.keys[vx as int]
    } else {
        !s.keys[vx as int]
    }
}

/// The state after the instructions `ops` were executed in turn, the
/// `k`-th with the random byte `rnds[k]`, or the first fault.
pub open spec fn run(s: Machine, ops: Seq<u16>, rnds: Seq<u8>) -> Result<Machine, ProgramFault>
    decreases ops.len(),
{
    if ops.len() == 0 {
        Ok(s)
    } else {
        match run(s, ops.drop_last(), rnds) {
            Ok(m) => m.execute(ops.last(), rnds[ops.len() - 1]),
            Err(fault) => Err(fault),
        }
    }
}

/// The instruction `8xy4`, with `x` not the flag register, leaves the sum
/// of the registers `x` and `y` modulo 256 in register `x`, and sets the
/// flag to 1 if the sum is above 255 and to 0 if it is not.
pub proof fn law_add_sets_carry(s: Machine, op: u16, rnd: u8)
    requires
        s.wf(),
        s.state is Running,
        op_prefix(op) == 0x8,
        op_n(op) == 0x4,
        op_x(op) != FLAG,
    ensures
        s.execute(op, rnd) is Ok,
        s.execute(op, rnd)->Ok_0.v[op_x(op)] == (s.v[op_x(op)] + s.v[op_y(op)]) % 256,
        s.execute(op, rnd)->Ok_0.v[FLAG as int] == 1 <==> s.v[op_x(op)] + s.v[op_y(op)] > 255,
        s.execute(op, rnd)->Ok_0.v[FLAG as int] == 0 <==> s.v[op_x(op)] + s.v[op_y(op)] <= 255,
{
    lemma_perform_arithmetic(s.advance(), op, rnd);
}

/// The instruction `8xy5`, with `x` not the flag register, leaves the
/// difference of the registers `x` and `y` modulo 256 in register `x`, and
/// sets the flag to 1 if register `x` was at least register `y` and to 0
/// if it was not.
pub proof fn law_sub_sets_no_borrow(s: Machine, op: u16, rnd: u8)
    requires
        s.wf(),
        s.state is Running,
        op_prefix(op) == 0x8,
        op_n(op) == 0x5,
        op_x(op) != FLAG,
    ensures
        s.execute(op, rnd) is Ok,
        s.execute(op, rnd)->Ok_0.v[op_x(op)] == (s.v[op_x(op)] - s.v[op_y(op)]) % 256,
        s.execute(op, rnd)->Ok_0.v[FLAG as int] == 1 <==> s.v[op_x(op)] >= s.v[op_y(op)],
        s.execute(op, rnd)->Ok_0.v[FLAG as int] == 0 <==> s.v[op_x(op)] < s.v[op_y(op)],
{
    lemma_perform_arithmetic(s.advance(), op, rnd);
}

/// Whether `op` clears the display or draws on it.
pub open spec fn is_clear_or_draw(op: u16) -> bool {
    is_clear(op) || op_prefix(op) == 0xD
}

/// An instruction that clears the display or draws on it leaves a running
/// machine running.
proof fn lemma_drawing_keeps_running(s: Machine, op: u16, rnd: u8)
    requires
        s.state is Running,
        is_clear_or_draw(op),
        s.execute(op, rnd) is Ok,
    ensures
        s.execute(op, rnd)->Ok_0.state is Running,
{
    lemma_perform_system(s.advance(), op, rnd);
    if op_prefix(op) == 0xD {
        lemma_perform_draw(s.advance(), op, rnd);
    }
}

/// A sequence of instructions that clear the display or draw on it leaves
/// a running machine running.
proof fn lemma_drawings_keep_running(s: Machine, ops: Seq<u16>, rnds: Seq<u8>)
    requires
        s.state is Running,
        forall|k: int| 0 <= k < ops.len() ==> is_clear_or_draw(#[trigger] ops[k]),
    ensures
        run(s, ops, rnds) is Ok ==> run(s, ops, rnds)->Ok_0.state is Running,
    decreases ops.len(),
{
    if ops.len() > 0 {
        lemma_drawings_keep_running(s, ops.drop_last(), rnds);
        if run(s, ops, rnds) is Ok {
            let before = run(s, ops.drop_last(), rnds)->Ok_0;
            assert(is_clear_or_draw(ops.last()));
            lemma_drawing_keeps_running(before, ops.last(), rnds[ops.len() - 1]);
        }
    }
}

/// After `00E0` every pixel is dark, whatever was drawn before: a running
/// machine that clears the display, draws any number of sprites and
/// clears the display again ends with a dark display.
pub proof fn law_clear_after_draws(s: Machine, draws: Seq<u16>, rnds: Seq<u8>)
    requires
        s.state is Running,
        forall|k: int| 0 <= k < draws.len() ==> op_prefix(#[trigger] draws[k]) == 0xD,
    ensures
        run(s, (seq![0x00E0u16] + draws).push(0x00E0u16), rnds) is Ok ==> run(
            s,
            (seq![0x00E0u16] + draws).push(0x00E0u16),
            rnds,
        )->Ok_0.pixels == blank(),
{
    let body = seq![0x00E0u16] + draws;
    let all = body.push(0x00E0u16);
    assert(all.drop_last() =~= body);
    assert(all.last() == 0x00E0u16);
    assert(is_clear(0x00E0u16));
    assert forall|k: int| 0 <= k < body.len() implies is_clear_or_draw(#[trigger] body[k]) by {
        if k > 0 {
            assert(body[k] == draws[k - 1]);
        }
    }
    lemma_drawings_keep_running(s, body, rnds);
    if run(s, all, rnds) is Ok {
        let before = run(s, body, rnds)->Ok_0;
        lemma_perform_system(before.advance(), 0x00E0u16, rnds[all.len() - 1]);
    }
}

/// Clearing a display that is dark already changes nothing.
pub proof fn law_clear_is_idempotent(s: Machine)
    ensures
        s.clear().clear() == s.clear(),
        s.clear().pixels == blank(),
{
}

/// Drawing the same sprite twice at the same position, with nothing done
/// in between, gives back the display as it was; the second drawing sets
/// the flag to 1 exactly if the first one lit a pixel. This holds where
/// neither position register is the flag register, which the first
/// drawing overwrites.
pub proof fn law_draw_twice_restores(s: Machine, op: u16, rnd: u8)
    requires
        s.wf(),
        s.state is Running,
        op_prefix(op) == 0xD,
        op_x(op) != FLAG,
        op_y(op) != FLAG,
        s.execute(op, rnd) is Ok,
    ensures
        s.execute(op, rnd)->Ok_0.execute(op, rnd) is Ok,
        s.execute(op, rnd)->Ok_0.execute(op, rnd)->Ok_0.pixels == s.pixels,
        s.execute(op, rnd)->Ok_0.execute(op, rnd)->Ok_0.v[FLAG as int] == 1 <==> lights(
            s.pixels,
            s.ram.subrange(s.i as int, s.i + op_n(op)),
            s.v[op_y(op)] as int % 32,
            s.v[op_x(op)] as int % 64,
        ),
{
    let sprite = s.ram.subrange(s.i as int, s.i + op_n(op));
    lemma_blit_twice(s.pixels, sprite, s.v[op_y(op)] as int % 32, s.v[op_x(op)] as int % 64);
    lemma_perform_draw(s.advance(), op, rnd);
    let once = s.execute(op, rnd)->Ok_0;
    lemma_perform_draw(once.advance(), op, rnd);
}

/// A call followed by a return goes on at the instruction after the call:
/// the machine is as it was before the call, but for the program counter,
/// which is one instruction further.
pub proof fn law_call_then_return(s: Machine, op: u16, r1: u8, r2: u8)
    requires
        s.state is Running,
        op_prefix(op) == 0x2,
        s.stack.len() < STACK_SIZE,
    ensures
        s.execute(op, r1) is Ok,
        s.execute(op, r1)->Ok_0.pc == op_nnn(op),
        s.execute(op, r1)->Ok_0.execute(0x00EE, r2) == Ok::<Machine, ProgramFault>(s.advance()),
{
    lemma_perform_jumps(s.advance(), op, r1);
    let called = s.execute(op, r1)->Ok_0;
    assert(is_return(0x00EEu16));
    lemma_perform_system(called.advance(), 0x00EEu16, r2);
    assert(called.stack.drop_last() =~= s.stack);
}

/// A call with sixteen return addresses on the stack is a fault, and a
/// return with none is one too.
pub proof fn law_stack_faults(s: Machine, op: u16, rnd: u8)
    requires
        s.state is Running,
    ensures
        op_prefix(op) == 0x2 ==> (s.execute(op, rnd) == Err::<Machine, ProgramFault>(
            ProgramFault::StackOverflow,
        ) <==> s.stack.len() >= STACK_SIZE),
        is_return(op) ==> (s.execute(op, rnd) == Err::<Machine, ProgramFault>(
            ProgramFault::StackUnderflow,
        ) <==> s.stack.len() == 0),
{
    lemma_perform_jumps(s.advance(), op, rnd);
    lemma_perform_system(s.advance(), op, rnd);
}

/// What `perform` comes to on `op`, by the group that `op` is of, and what
/// the instructions that write to registers, memory or the display leave
/// alone.
proof fn lemma_perform_by_groups(t: Machine, op: u16, rnd: u8)
    requires
        t.wf(),
        t.perform(op, rnd) is Ok,
    ensures
        ({
            let u = t.perform(op, rnd)->Ok_0;
            let p = op_prefix(op);
            &&& u.wf()
            &&& if p == 0x1 || p == 0x2 {
                u.pc == op_nnn(op)
            } else if p == 0xB {
                u.pc == t.v[0] + op_nnn(op)
            } else if is_return(op) {
                u.pc == t.stack.last()
            } else if is_skip(op) && skip_holds(t, op) {
                u.pc == pc_after(t.pc, 2)
            } else {
                u.pc == t.pc
            }
        }),
{
    let p = op_prefix(op);
    lemma_perform_unknown(t, op, rnd);
    if is_return(op) || is_clear(op) {
        lemma_perform_system(t, op, rnd);
    } else if p == 0x1 || p == 0x2 || p == 0xB {
        lemma_perform_jumps(t, op, rnd);
    } else if is_skip(op) {
        lemma_perform_skips(t, op, rnd);
    } else if p == 0x8 {
        lemma_perform_arithmetic(t, op, rnd);
        lemma_arithmetic_changes_registers(t, op, op_x(op), op_y(op), op_n(op));
    } else if p == 0xD {
        lemma_perform_draw(t, op, rnd);
        lemma_draw_keeps(t, op_x(op), op_y(op), op_n(op));
    } else if p == 0xF {
        lemma_perform_transfer(t, op, rnd);
        lemma_transfer_keeps(t, op, op_x(op), op_kk(op));
    } else {
        lemma_perform_loads(t, op, rnd);
    }
}

/// Where the program counter is after an instruction: at the address that
/// a jump, a call or a return names; two instructions further after a
/// skip whose condition holds; one instruction further after anything
/// else, a skip whose condition fails among them.
pub proof fn law_program_counter(s: Machine, op: u16, rnd: u8)
    requires
        s.wf(),
        s.state is Running,
        s.execute(op, rnd) is Ok,
    ensures
        ({
            let pc = s.execute(op, rnd)->Ok_0.pc;
            let p = op_prefix(op);
            if p == 0x1 || p == 0x2 {
                pc == op_nnn(op)
            } else if p == 0xB {
                pc == s.v[0] + op_nnn(op)
            } else if is_return(op) {
                pc == s.stack.last()
            } else if is_skip(op) && skip_holds(s, op) {
                pc == pc_after(s.pc, 4)
            } else {
                pc == pc_after(s.pc, 2)
            }
        }),
{
    assert(pc_after(pc_after(s.pc, 2), 2) == pc_after(s.pc, 4));
    lemma_perform_by_groups(s.advance(), op, rnd);
}

/// The instruction `Fx33` writes three decimal digits, which make up the
/// value of register `x`, and no other byte of memory.
pub proof fn law_bcd_digits(s: Machine, op: u16, rnd: u8)
    requires
        s.wf(),
        s.state is Running,
        op_prefix(op) == 0xF,
        op_kk(op) == 0x33,
        s.i + 3 <= MEMORY_SIZE,
    ensures
        s.execute(op, rnd) is Ok,
        ({
            let ram = s.execute(op, rnd)->Ok_0.ram;
            let i = s.i as int;
            &&& ram[i] < 10 && ram[i + 1] < 10 && ram[i + 2] < 10
            &&& 100 * ram[i] + 10 * ram[i + 1] + ram[i + 2] == s.v[op_x(op)]
            &&& forall|a: int| 0 <= a < MEMORY_SIZE && !(i <= a < i + 3) ==> ram[a] == s.ram[a]
        }),
{
    lemma_perform_transfer(s.advance(), op, rnd);
    lemma_decimal_digits(s.v[op_x(op)]);
}

/// A machine that waits for a key performs no instruction and fetches
/// none, while its timers go on counting.
pub proof fn law_waiting_machine_rests(s: Machine, op: u16, rnd: u8)
    requires
        !(s.state is Running),
    ensures
        s.execute(op, rnd) == Ok::<Machine, ProgramFault>(s),
        s.step(rnd) == Ok::<Machine, ProgramFault>(s),
        s.tick().state == s.state,
        s.tick().pc == s.pc,
        s.delay_timer > 0 ==> s.tick().delay_timer == s.delay_timer - 1,
        s.sound_timer > 0 ==> s.tick().sound_timer == s.sound_timer - 1,
{
}

/// A machine that waits for a key with register `r` goes on waiting as
/// long as no key goes down. When keys go down, the lowest of them goes to
/// register `r` and the machine runs again, its program counter where it
/// was.
pub proof fn law_key_press_resumes(s: Machine, r: usize, snapshot: Seq<bool>)
    requires
        s.wf(),
        r < REGISTER_COUNT,
        s.state == State::AwaitingKey(r),
    ensures
        (forall|k: int| 0 <= k < KEY_COUNT ==> !newly_pressed(s.keys, snapshot, k))
            ==> s.see_keys(snapshot) == (Machine { keys: snapshot, ..s }),
        forall|k: int|
            #![trigger newly_pressed(s.keys, snapshot, k)]
            newly_pressed(s.keys, snapshot, k) && (forall|j: int|
                0 <= j < k ==> !newly_pressed(s.keys, snapshot, j)) ==> {
                &&& s.see_keys(snapshot).state is Running
                &&& s.see_keys(snapshot).v[r as int] == k
                &&& s.see_keys(snapshot).pc == s.pc
            },
{
    lemma_first_press_from(s.keys, snapshot, 0);
}

/// The state of a machine has its sizes, given what `Stack::len` tells of
/// every stack.
pub proof fn law_machine_has_its_sizes(cpu: &Chip_8)
    requires
        cpu.stack@.len() <= STACK_SIZE,
    ensures
        cpu@.wf(),
{
}

/// An instruction that is no jump, call or return leaves the program
/// counter even if it was even.
pub proof fn law_program_counter_stays_even(s: Machine, op: u16, rnd: u8)
    requires
        s.wf(),
        s.state is Running,
        s.pc % 2 == 0,
        s.execute(op, rnd) is Ok,
        op_prefix(op) != 0x1,
        op_prefix(op) != 0x2,
        op_prefix(op) != 0xB,
        !is_return(op),
    ensures
        s.execute(op, rnd)->Ok_0.pc % 2 == 0,
{
    law_program_counter(s, op, rnd);
}

/// No two keys of the physical keyboard stand for the same key of the
/// keypad, and each stands for one of its sixteen keys.
pub proof fn law_scancodes_are_distinct(a: Scancode, b: Scancode)
    ensures
        key_of(a) < KEY_COUNT,
        key_of(a) == key_of(b) ==> a == b,
{
}

/// An instruction leaves every part of the machine at its size: no write
/// goes past the end of memory, the stack or the display.
pub proof fn law_execute_keeps_sizes(s: Machine, op: u16, rnd: u8)
    requires
        s.wf(),
        s.execute(op, rnd) is Ok,
    ensures
        s.execute(op, rnd)->Ok_0.wf(),
{
    if s.state is Running {
        lemma_perform_by_groups(s.advance(), op, rnd);
    }
}

} // verus!
