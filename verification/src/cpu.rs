//! The machine itself: its state, and the functions that build it, load a
//! program into it and run it, one instruction at a time.

use vstd::prelude::*;
use vstd::slice::slice_subrange;
use crate::display::Display;
use crate::fault::{ProgramFault, ResourceFault};
use crate::keyboard::{Keyboard, KEY_COUNT};
use crate::machine::{
    executed, font, lemma_perform_arithmetic, lemma_perform_draw, lemma_perform_jumps,
    lemma_perform_loads, lemma_perform_skips, lemma_perform_system, lemma_perform_transfer,
    lemma_perform_unknown, lemma_random_only_in_cxkk, op_prefix, opcode_at, overwrite, presents,
    step_is_random, stepped, Machine, FLAG, MEMORY_SIZE, PROGRAM_START, REGISTER_COUNT,
};
pub use crate::machine::{Effect, State};
use crate::random::random_byte;
use crate::stack::Stack;

verus! {

/// The machine. Its view is its state as a `Machine`.
#[allow(non_camel_case_types)]
pub struct Chip_8 {
    /// The display.
    pub display: Display,
    /// Memory: the font from address 0, programs from `PROGRAM_START`.
    pub ram: [u8; 4096],
    /// The return addresses of the calls under way.
    pub stack: Stack,
    /// The general registers `V0` to `VF`; `VF` is the flag.
    pub v: [u8; 16],
    /// The index register, an address into memory.
    pub i: u16,
    /// The program counter: the address of the next instruction.
    pub pc: u16,
    /// The delay timer.
    pub delay_timer: u8,
    /// The sound timer.
    pub sound_timer: u8,
    /// The keypad as last seen.
    pub keyboard: Keyboard,
    /// Whether the machine runs or waits for a key.
    pub state: State,
}

impl View for Chip_8 {
    type V = Machine;

    open spec fn view(&self) -> Machine {
        Machine {
            pixels: self.display@,
            ram: self.ram@,
            stack: self.stack@,
            v: self.v@,
            i: self.i,
            pc: self.pc,
            delay_timer: self.delay_timer,
            sound_timer: self.sound_timer,
            keys: self.keyboard@,
            state: self.state,
        }
    }
}

/// Writes `bytes` into memory from `start` on.
fn copy_into(ram: &mut [u8; 4096], start: usize, bytes: &[u8])
    requires
        start + bytes.len() <= MEMORY_SIZE,
    ensures
        final(ram)@ == overwrite(old(ram)@, start as int, bytes@),
{
    let mut k: usize = 0;
    while k < bytes.len()
        invariant
            k <= bytes.len(),
            start + bytes.len() <= MEMORY_SIZE,
            ram@ == overwrite(old(ram)@, start as int, bytes@.take(k as int)),
        decreases bytes.len() - k,
    {
        ram[start + k] = bytes[k];
        k += 1;
        assert(ram@ =~= overwrite(old(ram)@, start as int, bytes@.take(k as int)));
    }
    assert(bytes@.take(k as int) =~= bytes@);
}

/// Fills the registers 0 to `x` from memory from `start` on.
fn fill_from(v: &mut [u8; 16], ram: &[u8; 4096], start: usize, x: usize)
    requires
        x < REGISTER_COUNT,
        start + x + 1 <= MEMORY_SIZE,
    ensures
        final(v)@ == Seq::new(
            REGISTER_COUNT as nat,
            |k: int|
                if k <= x {
                    ram@[start + k]
                } else {
                    old(v)@[k]
                },
        ),
{
    let mut loc: usize = 0;
    while loc <= x
        invariant
            loc <= x + 1,
            x < REGISTER_COUNT,
            start + x + 1 <= MEMORY_SIZE,
            v@ == Seq::new(
                REGISTER_COUNT as nat,
                |k: int|
                    if k < loc {
                        ram@[start + k]
                    } else {
                        old(v)@[k]
                    },
            ),
        decreases x + 1 - loc,
    {
        v[loc] = ram[start + loc];
        loc += 1;
        assert(v@ =~= Seq::new(
            REGISTER_COUNT as nat,
            |k: int|
                if k < loc {
                    ram@[start + k]
                } else {
                    old(v)@[k]
                },
        ));
    }
    assert(v@ =~= Seq::new(
        REGISTER_COUNT as nat,
        |k: int|
            if k <= x {
                ram@[start + k]
            } else {
                old(v)@[k]
            },
    ));
}

impl Chip_8 {
    /// A machine with the font in memory, all else zero, ready to run from
    /// `PROGRAM_START`.
    pub fn build() -> (cpu: Chip_8)
        ensures
            cpu@ == Machine::initial(),
    {
        let mut cpu = Chip_8 {
            display: Display::new(),
            ram: [0; 4096],
            stack: Stack::new(),
            v: [0; 16],
            i: 0,
            pc: PROGRAM_START,
            delay_timer: 0,
            sound_timer: 0,
            keyboard: Keyboard::new(),
            state: State::Running,
        };
        assert(cpu.ram@ =~= Seq::new(MEMORY_SIZE as nat, |a: int| 0u8));
        assert(cpu.v@ =~= Seq::new(REGISTER_COUNT as nat, |k: int| 0u8));
        cpu.load_font();
        cpu
    }

    /// Writes the font to the bottom of memory.
    fn load_font(&mut self)
        ensures
            final(self)@ == (Machine { ram: overwrite(old(self)@.ram, 0, font()), ..old(self)@ }),
    {
        let glyphs: [u8; 80] = [
            0xF0, 0x90, 0x90, 0x90, 0xF0,
            0x20, 0x60, 0x20, 0x20, 0x70,
            0xF0, 0x10, 0xF0, 0x80, 0xF0,
            0xF0, 0x10, 0xF0, 0x10, 0xF0,
            0x90, 0x90, 0xF0, 0x10, 0x10,
            0xF0, 0x80, 0xF0, 0x10, 0xF0,
            0xF0, 0x80, 0xF0, 0x90, 0xF0,
            0xF0, 0x10, 0x20, 0x40, 0x40,
            0xF0, 0x90, 0xF0, 0x90, 0xF0,
            0xF0, 0x90, 0xF0, 0x10, 0xF0,
            0xF0, 0x90, 0xF0, 0x90, 0x90,
            0xE0, 0x90, 0xE0, 0x90, 0xE0,
            0xF0, 0x80, 0x80, 0x80, 0xF0,
            0xE0, 0x90, 0x90, 0x90, 0xE0,
            0xF0, 0x80, 0xF0, 0x80, 0xF0,
            0xF0, 0x80, 0xF0, 0x80, 0x80,
        ];
        assert(glyphs@ =~= font());
        copy_into(&mut self.ram, 0, glyphs.as_slice());
    }

    /// Loads the program `bytes` into memory from `PROGRAM_START` on, if
    /// it fits; if it does not, nothing changes.
    pub fn read_into_memory(&mut self, bytes: &[u8]) -> (r: Result<(), ResourceFault>)
        ensures
            bytes@.len() <= MEMORY_SIZE - PROGRAM_START ==> r == Ok::<(), ResourceFault>(())
                && final(self)@ == old(self)@.load(bytes@),
            bytes@.len() > MEMORY_SIZE - PROGRAM_START ==> r == Err::<(), ResourceFault>(
                ResourceFault::RomTooLarge(bytes.len()),
            ) && final(self)@ == old(self)@,
    {
        if bytes.len() > MEMORY_SIZE - PROGRAM_START as usize {
            return Err(ResourceFault::RomTooLarge(bytes.len()));
        }
        copy_into(&mut self.ram, PROGRAM_START as usize, bytes);
        Ok(())
    }

    /// One cycle: fetches the instruction word at the program counter and
    /// executes it. A machine that waits for a key does nothing. On a
    /// fault nothing changes.
    pub fn fetch_decode_execute(&mut self) -> (r: Result<Effect, ProgramFault>)
        ensures
            exists|rnd: u8| stepped(old(self)@, rnd, final(self)@, r),
            forall|rnd: u8|
                !step_is_random(old(self)@) ==> #[trigger] stepped(
                    old(self)@,
                    rnd,
                    final(self)@,
                    r,
                ),
    {
        if let State::AwaitingKey(_) = self.state {
            assert(stepped(old(self)@, 0, self@, Ok(Effect::Nothing)));
            return Ok(Effect::Nothing);
        }
        let loc = self.pc as usize;
        if loc + 2 > MEMORY_SIZE {
            assert(stepped(old(self)@, 0, self@, Err(ProgramFault::AddressOutOfRange(self.pc))));
            return Err(ProgramFault::AddressOutOfRange(self.pc));
        }
        let high = self.ram[loc];
        let low = self.ram[loc + 1];
        let op_code = ((high as u16) << 8) | (low as u16);
        assert(((high as u16) << 8) | (low as u16) == high * 0x100 + low) by (bit_vector);
        assert(op_code == opcode_at(self@.ram, self@.pc as int));
        let r = self.execute(op_code);
        proof {
            let rnd = choose|rnd: u8| executed(old(self)@, op_code, rnd, self@, r);
            assert(stepped(old(self)@, rnd, self@, r));
            assert forall|other: u8| !step_is_random(old(self)@) implies #[trigger] stepped(
                old(self)@,
                other,
                self@,
                r,
            ) by {
                assert(executed(old(self)@, op_code, other, self@, r));
            }
        }
        r
    }

    /// Executes the instruction `op_code`, and says whether the display
    /// has to be shown. A machine that waits for a key does nothing. A
    /// running machine moves its program counter past the instruction and
    /// then performs it; on a fault nothing changes.
    ///
    /// Only the instructions `Cxkk` use a random byte, which is drawn here:
    /// after any other instruction the machine is in the one state that
    /// `Machine::execute` gives, whatever byte it is asked with.
    pub fn execute(&mut self, op_code: u16) -> (r: Result<Effect, ProgramFault>)
        ensures
            exists|rnd: u8| executed(old(self)@, op_code, rnd, final(self)@, r),
            forall|rnd: u8|
                op_prefix(op_code) != 0xC ==> #[trigger] executed(
                    old(self)@,
                    op_code,
                    rnd,
                    final(self)@,
                    r,
                ),
    {
        assert((op_code & 0xF000) >> 12 == op_code / 0x1000) by (bit_vector);
        let rnd = if (op_code & 0xF000) >> 12 == 0xC {
            random_byte()
        } else {
            0
        };
        let r = self.execute_with(op_code, rnd);
        proof {
            assert forall|other: u8| op_prefix(op_code) != 0xC implies #[trigger] executed(
                old(self)@,
                op_code,
                other,
                self@,
                r,
            ) by {
                lemma_random_only_in_cxkk(old(self)@, op_code, other, rnd);
            }
        }
        r
    }

    /// Executes the instruction `op_code` as `execute` does, with `rnd` as
    /// the random byte, should the instruction ask for one.
    pub fn execute_with(&mut self, op_code: u16, rnd: u8) -> (r: Result<Effect, ProgramFault>)
        ensures
            executed(old(self)@, op_code, rnd, final(self)@, r),
    {
        if let State::AwaitingKey(_) = self.state {
            return Ok(Effect::Nothing);
        }
        let pc = self.pc;
        self.pc = pc.wrapping_add(2);
        assert(self@ == old(self)@.advance());
        let done = self.perform(op_code, rnd);
        if done.is_err() {
            self.pc = pc;
            assert(self@ == old(self)@);
        }
        done
    }

    /// Performs the instruction `op_code` on a machine whose program
    /// counter is already past it, and says whether the display has to be
    /// shown. `rnd` is the random byte for the instruction that asks for
    /// one.
    fn perform(&mut self, op_code: u16, rnd: u8) -> (r: Result<Effect, ProgramFault>)
        ensures
            match old(self)@.perform(op_code, rnd) {
                Ok(next) => final(self)@ == next && r == Ok::<Effect, ProgramFault>(
                    if presents(op_code) {
                        Effect::Present
                    } else {
                        Effect::Nothing
                    },
                ),
                Err(fault) => final(self)@ == old(self)@ && r == Err::<Effect, ProgramFault>(
                    fault,
                ),
            },
    {
        proof {
            let pre = old(self)@;
            lemma_perform_unknown(pre, op_code, rnd);
            lemma_perform_system(pre, op_code, rnd);
            lemma_perform_jumps(pre, op_code, rnd);
            lemma_perform_skips(pre, op_code, rnd);
            lemma_perform_loads(pre, op_code, rnd);
            if op_prefix(op_code) == 0x8 {
                lemma_perform_arithmetic(pre, op_code, rnd);
            }
            if op_prefix(op_code) == 0xD {
                lemma_perform_draw(pre, op_code, rnd);
            }
            if op_prefix(op_code) == 0xF {
                lemma_perform_transfer(pre, op_code, rnd);
            }
        }
        let prefix = ((op_code & 0xF000) >> 12) as u8;
        let x = ((op_code & 0x0F00) >> 8) as usize;
        let y = ((op_code & 0x00F0) >> 4) as usize;
        let k = (op_code & 0x000F) as u8;
        let kk = (op_code & 0x00FF) as u8;
        let nnn = op_code & 0x0FFF;
        assert((op_code & 0xF000) >> 12 == op_code / 0x1000) by (bit_vector);
        assert((op_code & 0x0F00) >> 8 == (op_code / 0x100) % 16) by (bit_vector);
        assert((op_code & 0x00F0) >> 4 == (op_code / 0x10) % 16) by (bit_vector);
        assert(op_code & 0x000F == op_code % 16) by (bit_vector);
        assert(op_code & 0x00FF == op_code % 0x100) by (bit_vector);
        assert(op_code & 0x0FFF == op_code % 0x1000) by (bit_vector);

        let done: Result<(), ProgramFault> = match prefix {
            0x0 => {
                if x == 0x0 && kk == 0xE0 {
                    self.clear_display();
                    Ok(())
                } else if x == 0x0 && kk == 0xEE {
                    self.return_from_subroutine()
                } else {
                    Err(ProgramFault::UnknownOpcode(op_code))
                }
            },
            0x1 => {
                self.jump_to_nnn(nnn);
                Ok(())
            },
            0x2 => self.call_nnn(nnn),
            0x3 => {
                self.skip_if(self.v[x] == kk);
                Ok(())
            },
            0x4 => {
                self.skip_if(self.v[x] != kk);
                Ok(())
            },
            0x5 => {
                if k == 0x0 {
                    self.skip_if(self.v[x] == self.v[y]);
                    Ok(())
                } else {
                    Err(ProgramFault::UnknownOpcode(op_code))
                }
            },
            0x6 => {
                self.set_vx(x, kk);
                Ok(())
            },
            0x7 => {
                self.add_kk_to_vx(x, kk);
                Ok(())
            },
            0x8 => self.arithmetic(op_code, x, y, k),
            0x9 => {
                if k == 0x0 {
                    self.skip_if(self.v[x] != self.v[y]);
                    Ok(())
                } else {
                    Err(ProgramFault::UnknownOpcode(op_code))
                }
            },
            0xA => {
                self.set_i(nnn);
                Ok(())
            },
            0xB => {
                self.jump_to_nnn((self.v[0] as u16) + nnn);
                Ok(())
            },
            0xC => {
                self.gen_random(x, kk, rnd);
                Ok(())
            },
            0xD => self.draw(x, y, k as usize),
            0xE => {
                if kk == 0x9E {
                    self.skip_if_key(x)
                } else if kk == 0xA1 {
                    self.skip_if_nkey(x)
                } else {
                    Err(ProgramFault::UnknownOpcode(op_code))
                }
            },
            0xF => self.transfer(op_code, x, kk),
            _ => Err(ProgramFault::UnknownOpcode(op_code)),
        };
        match done {
            Ok(()) => {
                let effect = if (prefix == 0x0 && x == 0x0 && kk == 0xE0) || prefix == 0xD {
                    Effect::Present
                } else {
                    Effect::Nothing
                };
                Ok(effect)
            },
            Err(fault) => Err(fault),
        }
    }

    /// Puts `i` into the index register.
    fn set_i(&mut self, i: u16)
        ensures
            final(self)@ == old(self)@.with_i(i),
    {
        self.i = i;
    }

    /// The instructions `8xy0` to `8xyE`.
    fn arithmetic(&mut self, op_code: u16, x: usize, y: usize, k: u8) -> (r: Result<
        (),
        ProgramFault,
    >)
        requires
            x < REGISTER_COUNT,
            y < REGISTER_COUNT,
        ensures
            match old(self)@.arithmetic(op_code, x as int, y as int, k as int) {
                Ok(next) => r is Ok && final(self)@ == next,
                Err(fault) => r == Err::<(), ProgramFault>(fault) && final(self)@ == old(self)@,
            },
    {
        match k {
            0x0 => self.set_vx(x, self.v[y]),
            0x1 => self.set_vx(x, self.v[x] | self.v[y]),
            0x2 => self.set_vx(x, self.v[x] & self.v[y]),
            0x3 => self.set_vx(x, self.v[x] ^ self.v[y]),
            0x4 => self.add_vy_to_vx(x, y),
            0x5 => self.sub_vy_from_vx(x, y),
            0x6 => self.shift_vx_right(x),
            0x7 => self.sub_vx_from_vy(x, y),
            0xE => self.shift_vx_left(x),
            _ => {
                return Err(ProgramFault::UnknownOpcode(op_code));
            },
        }
        Ok(())
    }

    /// The instructions `Fx07` to `Fx65`.
    fn transfer(&mut self, op_code: u16, x: usize, kk: u8) -> (r: Result<(), ProgramFault>)
        requires
            x < REGISTER_COUNT,
        ensures
            match old(self)@.transfer(op_code, x as int, kk) {
                Ok(next) => r is Ok && final(self)@ == next,
                Err(fault) => r == Err::<(), ProgramFault>(fault) && final(self)@ == old(self)@,
            },
    {
        match kk {
            0x07 => {
                self.set_vx(x, self.delay_timer);
                Ok(())
            },
            0x0A => {
                self.wait_for_key(x);
                Ok(())
            },
            0x15 => {
                self.delay_timer = self.v[x];
                Ok(())
            },
            0x18 => {
                self.sound_timer = self.v[x];
                Ok(())
            },
            0x1E => {
                self.set_i(self.i.wrapping_add(self.v[x] as u16));
                Ok(())
            },
            0x29 => {
                self.get_font_key(x);
                Ok(())
            },
            0x33 => self.store_BCD(x),
            0x55 => self.v_dump(x),
            0x65 => self.v_load(x),
            _ => Err(ProgramFault::UnknownOpcode(op_code)),
        }
    }

    /// Takes in what the physical keyboard shows now, one flag per key. A
    /// machine that waits for a key takes the lowest key that went down
    /// since the last time, if any did, into the register it waits with,
    /// and runs again. Where the machine waits with a number that no
    /// register has, it runs again and no register changes.
    pub fn see_keys(&mut self, snapshot: &[bool; 16])
        ensures
            final(self)@ == old(self)@.see_keys(snapshot@),
    {
        let pressed = self.keyboard.read_user_input(snapshot);
        if let State::AwaitingKey(r) = self.state {
            if let Some(key) = pressed {
                if r < REGISTER_COUNT {
                    self.v[r] = key;
                }
                self.state = State::Running;
            }
        }
    }

    /// `00E0`: makes every pixel dark.
    fn clear_display(&mut self)
        ensures
            final(self)@ == old(self)@.clear(),
    {
        self.display.clear_screen();
    }

    /// `00EE`: goes back to the most recent return address.
    fn return_from_subroutine(&mut self) -> (r: Result<(), ProgramFault>)
        ensures
            match old(self)@.ret() {
                Ok(next) => r is Ok && final(self)@ == next,
                Err(fault) => r == Err::<(), ProgramFault>(fault) && final(self)@ == old(self)@,
            },
    {
        match self.stack.pop() {
            Some(addr) => {
                self.pc = addr;
                Ok(())
            },
            None => Err(ProgramFault::StackUnderflow),
        }
    }

    /// `1nnn`, `Bnnn`: goes on at `nnn`.
    fn jump_to_nnn(&mut self, nnn: u16)
        ensures
            final(self)@ == old(self)@.jump(nnn),
    {
        self.pc = nnn;
    }

    /// `2nnn`: keeps the program counter as the return address and goes on
    /// at `nnn`.
    fn call_nnn(&mut self, nnn: u16) -> (r: Result<(), ProgramFault>)
        ensures
            match old(self)@.call(nnn) {
                Ok(next) => r is Ok && final(self)@ == next,
                Err(fault) => r == Err::<(), ProgramFault>(fault) && final(self)@ == old(self)@,
            },
    {
        match self.stack.push(self.pc) {
            Ok(()) => {
                self.pc = nnn;
                Ok(())
            },
            Err(fault) => Err(fault),
        }
    }

    /// Skips the next instruction if `cond` holds.
    fn skip_if(&mut self, cond: bool)
        ensures
            final(self)@ == old(self)@.skip_if(cond),
    {
        if cond {
            self.pc = self.pc.wrapping_add(2);
        }
    }

    /// Puts `val` into register `x`.
    fn set_vx(&mut self, x: usize, val: u8)
        requires
            x < REGISTER_COUNT,
        ensures
            final(self)@ == old(self)@.with_v(x as int, val),
    {
        self.v[x] = val;
    }

    /// `7xkk`: adds `kk` to register `x`, without a carry.
    fn add_kk_to_vx(&mut self, x: usize, kk: u8)
        requires
            x < REGISTER_COUNT,
        ensures
            final(self)@ == old(self)@.add_byte(x as int, kk),
    {
        self.v[x] = self.v[x].wrapping_add(kk);
    }

    /// `8xy4`: adds register `y` to register `x` and sets the flag to the
    /// carry.
    fn add_vy_to_vx(&mut self, x: usize, y: usize)
        requires
            x < REGISTER_COUNT,
            y < REGISTER_COUNT,
        ensures
            final(self)@ == old(self)@.add_reg(x as int, y as int),
    {
        match self.v[x].checked_add(self.v[y]) {
            Some(sum) => {
                self.v[x] = sum;
                self.v[FLAG] = 0;
            },
            None => {
                self.v[x] = self.v[x].wrapping_add(self.v[y]);
                self.v[FLAG] = 1;
            },
        }
    }

    /// `8xy5`: takes register `y` from register `x` and sets the flag
    /// unless it had to borrow.
    fn sub_vy_from_vx(&mut self, x: usize, y: usize)
        requires
            x < REGISTER_COUNT,
            y < REGISTER_COUNT,
        ensures
            final(self)@ == old(self)@.sub_reg(x as int, y as int),
    {
        match self.v[x].checked_sub(self.v[y]) {
            Some(diff) => {
                self.v[x] = diff;
                self.v[FLAG] = 1;
            },
            None => {
                self.v[x] = self.v[x].wrapping_sub(self.v[y]);
                self.v[FLAG] = 0;
            },
        }
    }

    /// `8xy6`: shifts register `x` right by one bit and sets the flag to
    /// the bit that fell off.
    fn shift_vx_right(&mut self, x: usize)
        requires
            x < REGISTER_COUNT,
        ensures
            final(self)@ == old(self)@.shift_right(x as int),
    {
        let val = self.v[x];
        assert(val >> 1 == val / 2 && (val & 0x01 == 0x01 <==> val % 2 == 1)) by (bit_vector);
        self.v[x] = val >> 1;
        self.v[FLAG] = if val & 0x01 == 0x01 {
            1
        } else {
            0
        };
    }

    /// `8xy7`: makes register `x` register `y` less register `x` and sets
    /// the flag unless it had to borrow.
    fn sub_vx_from_vy(&mut self, x: usize, y: usize)
        requires
            x < REGISTER_COUNT,
            y < REGISTER_COUNT,
        ensures
            final(self)@ == old(self)@.sub_from_reg(x as int, y as int),
    {
        match self.v[y].checked_sub(self.v[x]) {
            Some(diff) => {
                self.v[x] = diff;
                self.v[FLAG] = 1;
            },
            None => {
                self.v[x] = self.v[y].wrapping_sub(self.v[x]);
                self.v[FLAG] = 0;
            },
        }
    }

    /// `8xyE`: shifts register `x` left by one bit and sets the flag to the
    /// bit that fell off.
    fn shift_vx_left(&mut self, x: usize)
        requires
            x < REGISTER_COUNT,
        ensures
            final(self)@ == old(self)@.shift_left(x as int),
    {
        let val = self.v[x];
        assert(val << 1 == (val * 2) % 0x100 && ((val & 0x80) >> 7 == 0x01 <==> val >= 0x80))
            by (bit_vector);
        self.v[x] = val << 1;
        self.v[FLAG] = if (val & 0x80) >> 7 == 0x01 {
            1
        } else {
            0
        };
    }

    /// `Cxkk`: puts the random byte `rnd`, masked by `kk`, into register
    /// `x`.
    fn gen_random(&mut self, x: usize, kk: u8, rnd: u8)
        requires
            x < REGISTER_COUNT,
        ensures
            final(self)@ == old(self)@.with_v(x as int, rnd & kk),
    {
        self.v[x] = rnd & kk;
    }

    /// `Dxyn`: draws the sprite of `height` rows that memory holds at the
    /// index register, at the position that the registers `x` and `y`
    /// give, and sets the flag to whether a lit pixel went dark.
    fn draw(&mut self, x: usize, y: usize, height: usize) -> (r: Result<(), ProgramFault>)
        requires
            x < REGISTER_COUNT,
            y < REGISTER_COUNT,
        ensures
            match old(self)@.draw(x as int, y as int, height as int) {
                Ok(next) => r is Ok && final(self)@ == next,
                Err(fault) => r == Err::<(), ProgramFault>(fault) && final(self)@ == old(self)@,
            },
    {
        let start = self.i as usize;
        if height > MEMORY_SIZE || start > MEMORY_SIZE - height {
            return Err(ProgramFault::AddressOutOfRange(self.i));
        }
        let start_column = self.v[x] % 64;
        let start_row = self.v[y] % 32;
        let sprite = slice_subrange(self.ram.as_slice(), start, start + height);
        let hit = self.display.draw_sprite(sprite, start_row, start_column);
        self.v[FLAG] = if hit {
            1
        } else {
            0
        };
        Ok(())
    }

    /// `Ex9E`: skips the next instruction if the key whose number is in
    /// register `x` is down.
    fn skip_if_key(&mut self, x: usize) -> (r: Result<(), ProgramFault>)
        requires
            x < REGISTER_COUNT,
        ensures
            match old(self)@.skip_on_key(x as int, true) {
                Ok(next) => r is Ok && final(self)@ == next,
                Err(fault) => r == Err::<(), ProgramFault>(fault) && final(self)@ == old(self)@,
            },
    {
        let key = self.v[x];
        if key as usize >= KEY_COUNT {
            return Err(ProgramFault::NoSuchKey(key));
        }
        let down = self.keyboard.key_pressed(key);
        self.skip_if(down);
        Ok(())
    }

    /// `ExA1`: skips the next instruction if the key whose number is in
    /// register `x` is up.
    fn skip_if_nkey(&mut self, x: usize) -> (r: Result<(), ProgramFault>)
        requires
            x < REGISTER_COUNT,
        ensures
            match old(self)@.skip_on_key(x as int, false) {
                Ok(next) => r is Ok && final(self)@ == next,
                Err(fault) => r == Err::<(), ProgramFault>(fault) && final(self)@ == old(self)@,
            },
    {
        let key = self.v[x];
        if key as usize >= KEY_COUNT {
            return Err(ProgramFault::NoSuchKey(key));
        }
        let down = self.keyboard.key_pressed(key);
        self.skip_if(!down);
        Ok(())
    }

    /// `Fx29`: points the index register at the glyph of the digit in
    /// register `x`.
    fn get_font_key(&mut self, x: usize)
        requires
            x < REGISTER_COUNT,
        ensures
            final(self)@ == old(self)@.with_i((5 * old(self)@.v[x as int]) as u16),
    {
        self.i = 5 * (self.v[x] as u16);
    }

    /// `Fx0A`: stops the machine until a key is pressed, whose number will
    /// go to register `x`.
    fn wait_for_key(&mut self, x: usize)
        ensures
            final(self)@ == old(self)@.wait_for_key(x as int),
    {
        self.state = State::AwaitingKey(x);
    }

    /// `Fx33`: writes the decimal digits of register `x` to memory at the
    /// index register.
    #[allow(non_snake_case)]
    fn store_BCD(&mut self, x: usize) -> (r: Result<(), ProgramFault>)
        requires
            x < REGISTER_COUNT,
        ensures
            match old(self)@.store_bcd(x as int) {
                Ok(next) => r is Ok && final(self)@ == next,
                Err(fault) => r == Err::<(), ProgramFault>(fault) && final(self)@ == old(self)@,
            },
    {
        let i = self.i as usize;
        if i + 3 > MEMORY_SIZE {
            return Err(ProgramFault::AddressOutOfRange(self.i));
        }
        let num = self.v[x];
        self.ram[i] = num / 100;
        self.ram[i + 1] = num / 10 % 10;
        self.ram[i + 2] = num % 10;
        Ok(())
    }

    /// `Fx55`: writes the registers 0 to `x` to memory at the index
    /// register.
    fn v_dump(&mut self, x: usize) -> (r: Result<(), ProgramFault>)
        requires
            x < REGISTER_COUNT,
        ensures
            match old(self)@.dump(x as int) {
                Ok(next) => r is Ok && final(self)@ == next,
                Err(fault) => r == Err::<(), ProgramFault>(fault) && final(self)@ == old(self)@,
            },
    {
        let i = self.i as usize;
        if i + x + 1 > MEMORY_SIZE {
            return Err(ProgramFault::AddressOutOfRange(self.i));
        }
        let registers = slice_subrange(self.v.as_slice(), 0, x + 1);
        copy_into(&mut self.ram, i, registers);
        Ok(())
    }

    /// `Fx65`: fills the registers 0 to `x` from memory at the index
    /// register.
    fn v_load(&mut self, x: usize) -> (r: Result<(), ProgramFault>)
        requires
            x < REGISTER_COUNT,
        ensures
            match old(self)@.fill(x as int) {
                Ok(next) => r is Ok && final(self)@ == next,
                Err(fault) => r == Err::<(), ProgramFault>(fault) && final(self)@ == old(self)@,
            },
    {
        let i = self.i as usize;
        if i + x + 1 > MEMORY_SIZE {
            return Err(ProgramFault::AddressOutOfRange(self.i));
        }
        fill_from(&mut self.v, &self.ram, i, x);
        Ok(())
    }

    /// Counts each timer that is not zero down by one.
    pub fn decrement_timers(&mut self)
        ensures
            final(self)@ == old(self)@.tick(),
    {
        if self.delay_timer > 0 {
            self.delay_timer -= 1;
        }
        if self.sound_timer > 0 {
            self.sound_timer -= 1;
        }
    }
}

} // verus!
