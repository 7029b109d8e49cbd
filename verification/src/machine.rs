//! What the machine is and does, as mathematics: its state as a value, and
//! each instruction as a function from state to state.

use vstd::prelude::*;
use crate::display::{blank, blit, collides, is_screen};
use crate::fault::ProgramFault;
use crate::keyboard::{first_press, KEY_COUNT};
use crate::stack::STACK_SIZE;

verus! {

/// The number of bytes of memory.
pub const MEMORY_SIZE: usize = 4096;

/// The address at which programs are loaded and start to run.
pub const PROGRAM_START: u16 = 0x200;

/// The number of general registers.
pub const REGISTER_COUNT: usize = 16;

/// The register that instructions use as their carry, borrow and collision
/// flag.
pub const FLAG: usize = 0xF;

/// Whether the machine runs instructions or waits for a key.
#[derive(Clone, Copy, Debug, PartialEq, Eq, Structural)]
pub enum State {
    /// Instructions are fetched and performed.
    Running,
    /// No instruction is performed until a key is pressed; the key's number
    /// then goes to the register named here.
    AwaitingKey(usize),
}

/// What the caller has to do after an instruction.
#[derive(Clone, Copy, Debug, PartialEq, Eq, Structural)]
pub enum Effect {
    /// Nothing.
    Nothing,
    /// Show the display: the instruction cleared it or drew on it.
    Present,
}

/// The font that sits at the bottom of memory: the glyphs of the digits `0`
/// to `F`, five rows each.
pub open spec fn font() -> Seq<u8> {
    seq![
        0xF0u8, 0x90, 0x90, 0x90, 0xF0,
        0x20, 0x60, 0x20, 0x20, 0x70,
        0xF0, 0x10, 0xF0, 0x80, 0xF0,
        0xF0, 0x10, 0xF0, 0x10, 0xF0,
        0x90, 0x90, 0xF0, 0x10, 0x10,
        0xF0, 0x80, 0xF0, 0x10, 0xF0,
        0xF0, 0x80, 0xF0, 0x90, 0xF0,
        0xF0, 0x10, 0x20, 0x40, 0x40,
        0xF0, 0x90, 0xF0, 0x90, 0xF0,
        0xF0, 0x90, 0xF0, 0x10, 0xF0,
        0xF0, 0x90, 0xF0, 0x90, 0x90,
        0xE0, 0x90, 0xE0, 0x90, 0xE0,
        0xF0, 0x80, 0x80, 0x80, 0xF0,
        0xE0, 0x90, 0x90, 0x90, 0xE0,
        0xF0, 0x80, 0xF0, 0x80, 0xF0,
        0xF0, 0x80, 0xF0, 0x80, 0x80,
    ]
}

/// The first four bits of an instruction word: the instruction's group.
pub open spec fn op_prefix(op: u16) -> int {
    op as int / 0x1000
}

/// The second four bits of an instruction word: a register's number.
pub open spec fn op_x(op: u16) -> int {
    (op as int / 0x100) % 16
}

/// The third four bits of an instruction word: a register's number.
pub open spec fn op_y(op: u16) -> int {
    (op as int / 0x10) % 16
}

/// The last four bits of an instruction word.
pub open spec fn op_n(op: u16) -> int {
    op as int % 16
}

/// The last eight bits of an instruction word: a byte.
pub open spec fn op_kk(op: u16) -> u8 {
    (op as int % 0x100) as u8
}

/// The last twelve bits of an instruction word: an address.
pub open spec fn op_nnn(op: u16) -> u16 {
    (op as int % 0x1000) as u16
}

/// Whether `op` is the instruction `00E0`, which clears the display.
pub open spec fn is_clear(op: u16) -> bool {
    op_prefix(op) == 0x0 && op_x(op) == 0x0 && op_kk(op) == 0xE0
}

/// Whether `op` is the instruction `00EE`, which returns from a call.
pub open spec fn is_return(op: u16) -> bool {
    op_prefix(op) == 0x0 && op_x(op) == 0x0 && op_kk(op) == 0xEE
}

/// The instruction word that memory holds at `pc`, high byte first.
pub open spec fn opcode_at(ram: Seq<u8>, pc: int) -> u16 {
    (ram[pc] as int * 0x100 + ram[pc + 1] as int) as u16
}

/// Whether instruction `op` changes the display: it clears it or draws on
/// it.
pub open spec fn presents(op: u16) -> bool {
    is_clear(op) || op_prefix(op) == 0xD
}

/// Memory `ram` with `bytes` written over it from `start` on.
pub open spec fn overwrite(ram: Seq<u8>, start: int, bytes: Seq<u8>) -> Seq<u8> {
    Seq::new(
        ram.len(),
        |a: int|
            if start <= a < start + bytes.len() {
                bytes[a - start]
            } else {
                ram[a]
            },
    )
}

/// The state of the machine.
pub struct Machine {
    /// The display, `pixels[row][column]`.
    pub pixels: Seq<Seq<bool>>,
    /// Memory.
    pub ram: Seq<u8>,
    /// The return addresses of the calls under way, oldest first.
    pub stack: Seq<u16>,
    /// The general registers `V0` to `VF`.
    pub v: Seq<u8>,
    /// The index register.
    pub i: u16,
    /// The program counter.
    pub pc: u16,
    /// The delay timer.
    pub delay_timer: u8,
    /// The sound timer.
    pub sound_timer: u8,
    /// The keypad as last seen, `true` where a key is down.
    pub keys: Seq<bool>,
    /// Whether the machine runs or waits for a key.
    pub state: State,
}

impl Machine {
    /// Whether the parts of the state have their sizes.
    pub open spec fn wf(self) -> bool {
        &&& is_screen(self.pixels)
        &&& self.ram.len() == MEMORY_SIZE
        &&& self.stack.len() <= STACK_SIZE
        &&& self.v.len() == REGISTER_COUNT
        &&& self.keys.len() == KEY_COUNT
    }

    /// The machine as it is built: the font at the bottom of memory, all
    /// else zero, dark and up, the program counter at `PROGRAM_START`.
    pub open spec fn initial() -> Machine {
        Machine {
            pixels: blank(),
            ram: overwrite(Seq::new(MEMORY_SIZE as nat, |a: int| 0u8), 0, font()),
            stack: Seq::empty(),
            v: Seq::new(REGISTER_COUNT as nat, |k: int| 0u8),
            i: 0,
            pc: PROGRAM_START,
            delay_timer: 0,
            sound_timer: 0,
            keys: Seq::new(KEY_COUNT as nat, |k: int| false),
            state: State::Running,
        }
    }

    /// The state with the program `bytes` in memory from `PROGRAM_START` on.
    pub open spec fn load(self, bytes: Seq<u8>) -> Machine {
        Machine { ram: overwrite(self.ram, PROGRAM_START as int, bytes), ..self }
    }

    /// The state one sixtieth of a second later: each timer that is not
    /// zero is one less.
    pub open spec fn tick(self) -> Machine {
        Machine {
            delay_timer: if self.delay_timer > 0 {
                (self.delay_timer - 1) as u8
            } else {
                0
            },
            sound_timer: if self.sound_timer > 0 {
                (self.sound_timer - 1) as u8
            } else {
                0
            },
            ..self
        }
    }

    /// The state with the program counter at `pc`.
    pub open spec fn jump(self, pc: u16) -> Machine {
        Machine { pc, ..self }
    }

    /// The state with the program counter one instruction further. The
    /// counter has sixteen bits and wraps.
    pub open spec fn advance(self) -> Machine {
        self.jump(((self.pc + 2) % 0x10000) as u16)
    }

    /// The state with the next instruction skipped if `cond` holds.
    pub open spec fn skip_if(self, cond: bool) -> Machine {
        if cond {
            self.advance()
        } else {
            self
        }
    }

    /// The state with `val` in register `x`.
    pub open spec fn with_v(self, x: int, val: u8) -> Machine {
        Machine { v: self.v.update(x, val), ..self }
    }

    /// The state with the flag register at 1 if `flag` holds, else at 0.
    pub open spec fn with_flag(self, flag: bool) -> Machine {
        self.with_v(FLAG as int, if flag { 1u8 } else { 0u8 })
    }

    /// The state with `i` in the index register.
    pub open spec fn with_i(self, i: u16) -> Machine {
        Machine { i, ..self }
    }

    /// `00E0`: every pixel dark.
    pub open spec fn clear(self) -> Machine {
        Machine { pixels: blank(), ..self }
    }

    /// `00EE`: back to the most recent return address.
    pub open spec fn ret(self) -> Result<Machine, ProgramFault> {
        if self.stack.len() == 0 {
            Err(ProgramFault::StackUnderflow)
        } else {
            Ok(Machine { pc: self.stack.last(), stack: self.stack.drop_last(), ..self })
        }
    }

    /// `2nnn`: on to `nnn`, with the program counter kept as the return
    /// address.
    pub open spec fn call(self, nnn: u16) -> Result<Machine, ProgramFault> {
        if self.stack.len() >= STACK_SIZE {
            Err(ProgramFault::StackOverflow)
        } else {
            Ok(Machine { pc: nnn, stack: self.stack.push(self.pc), ..self })
        }
    }

    /// `7xkk`: `kk` added to register `x`, the sum cut to eight bits.
    pub open spec fn add_byte(self, x: int, kk: u8) -> Machine {
        self.with_v(x, ((self.v[x] + kk) % 0x100) as u8)
    }

    /// `8xy4`: register `y` added to register `x`, the sum cut to eight
    /// bits; the flag says whether the sum was cut.
    pub open spec fn add_reg(self, x: int, y: int) -> Machine {
        let sum = self.v[x] + self.v[y];
        self.with_v(x, (sum % 0x100) as u8).with_flag(sum > 0xFF)
    }

    /// `8xy5`: register `y` taken from register `x`, modulo 256; the flag
    /// says that nothing was borrowed.
    pub open spec fn sub_reg(self, x: int, y: int) -> Machine {
        self.with_v(x, ((self.v[x] - self.v[y]) % 0x100) as u8).with_flag(self.v[x] >= self.v[y])
    }

    /// `8xy7`: register `x` becomes register `y` less register `x`, modulo
    /// 256; the flag says that nothing was borrowed.
    pub open spec fn sub_from_reg(self, x: int, y: int) -> Machine {
        self.with_v(x, ((self.v[y] - self.v[x]) % 0x100) as u8).with_flag(self.v[y] >= self.v[x])
    }

    /// `8xy6`: register `x` halved; the flag holds the bit that fell off.
    pub open spec fn shift_right(self, x: int) -> Machine {
        self.with_v(x, (self.v[x] / 2) as u8).with_flag(self.v[x] % 2 == 1)
    }

    /// `8xyE`: register `x` doubled, cut to eight bits; the flag holds the
    /// bit that fell off.
    pub open spec fn shift_left(self, x: int) -> Machine {
        self.with_v(x, ((self.v[x] * 2) % 0x100) as u8).with_flag(self.v[x] >= 0x80)
    }

    /// `Dxyn`: the `n` bytes of memory from the index register on are drawn
    /// as a sprite. Its top left corner is at the column in register `x`,
    /// modulo the display's width, and the row in register `y`, modulo the
    /// display's height. The flag says whether a lit pixel went dark.
    pub open spec fn draw(self, x: int, y: int, n: int) -> Result<Machine, ProgramFault> {
        if self.i + n > MEMORY_SIZE {
            Err(ProgramFault::AddressOutOfRange(self.i))
        } else {
            let sprite = self.ram.subrange(self.i as int, self.i + n);
            let row0 = self.v[y] as int % 32;
            let col0 = self.v[x] as int % 64;
            Ok(
                Machine { pixels: blit(self.pixels, sprite, row0, col0), ..self }.with_flag(
                    collides(self.pixels, sprite, row0, col0),
                ),
            )
        }
    }

    /// `Ex9E` where `down` holds, `ExA1` where it does not: the next
    /// instruction is skipped if the key whose number is in register `x` is
    /// down, or up.
    pub open spec fn skip_on_key(self, x: int, down: bool) -> Result<Machine, ProgramFault> {
        if self.v[x] >= KEY_COUNT {
            Err(ProgramFault::NoSuchKey(self.v[x]))
        } else {
            Ok(self.skip_if(self.keys[self.v[x] as int] == down))
        }
    }

    /// `Fx0A`: the machine waits for a key, whose number will go to
    /// register `x`.
    pub open spec fn wait_for_key(self, x: int) -> Machine {
        Machine { state: State::AwaitingKey(x as usize), ..self }
    }

    /// `Fx33`: the hundreds, tens and ones of register `x` go to the three
    /// bytes of memory from the index register on.
    pub open spec fn store_bcd(self, x: int) -> Result<Machine, ProgramFault> {
        if self.i + 3 > MEMORY_SIZE {
            Err(ProgramFault::AddressOutOfRange(self.i))
        } else {
            let num = self.v[x];
            Ok(
                Machine {
                    ram: self.ram.update(self.i as int, (num / 100) as u8).update(
                        self.i + 1,
                        (num / 10 % 10) as u8,
                    ).update(self.i + 2, (num % 10) as u8),
                    ..self
                },
            )
        }
    }

    /// `Fx55`: the registers 0 to `x` go to memory from the index register
    /// on.
    pub open spec fn dump(self, x: int) -> Result<Machine, ProgramFault> {
        if self.i + x + 1 > MEMORY_SIZE {
            Err(ProgramFault::AddressOutOfRange(self.i))
        } else {
            Ok(Machine { ram: overwrite(self.ram, self.i as int, self.v.take(x + 1)), ..self })
        }
    }

    /// `Fx65`: the registers 0 to `x` are filled from memory from the index
    /// register on.
    pub open spec fn fill(self, x: int) -> Result<Machine, ProgramFault> {
        if self.i + x + 1 > MEMORY_SIZE {
            Err(ProgramFault::AddressOutOfRange(self.i))
        } else {
            Ok(
                Machine {
                    v: Seq::new(
                        self.v.len(),
                        |k: int|
                            if k <= x {
                                self.ram[self.i + k]
                            } else {
                                self.v[k]
                            },
                    ),
                    ..self
                },
            )
        }
    }

    /// The instructions `8xy0` to `8xyE`, which compute on the registers
    /// `x` and `y`; `n` is the last four bits of the word `op`.
    pub open spec fn arithmetic(self, op: u16, x: int, y: int, n: int) -> Result<
        Machine,
        ProgramFault,
    > {
        if n == 0x0 {
            Ok(self.with_v(x, self.v[y]))
        } else if n == 0x1 {
            Ok(self.with_v(x, self.v[x] | self.v[y]))
        } else if n == 0x2 {
            Ok(self.with_v(x, self.v[x] & self.v[y]))
        } else if n == 0x3 {
            Ok(self.with_v(x, self.v[x] ^ self.v[y]))
        } else if n == 0x4 {
            Ok(self.add_reg(x, y))
        } else if n == 0x5 {
            Ok(self.sub_reg(x, y))
        } else if n == 0x6 {
            Ok(self.shift_right(x))
        } else if n == 0x7 {
            Ok(self.sub_from_reg(x, y))
        } else if n == 0xE {
            Ok(self.shift_left(x))
        } else {
            Err(ProgramFault::UnknownOpcode(op))
        }
    }

    /// The instructions `Fx07` to `Fx65`, which move values between
    /// register `x`, the timers, the index register and memory; `kk` is
    /// the last eight bits of the word `op`.
    pub open spec fn transfer(self, op: u16, x: int, kk: u8) -> Result<Machine, ProgramFault> {
        if kk == 0x07 {
            Ok(self.with_v(x, self.delay_timer))
        } else if kk == 0x0A {
            Ok(self.wait_for_key(x))
        } else if kk == 0x15 {
            Ok(Machine { delay_timer: self.v[x], ..self })
        } else if kk == 0x18 {
            Ok(Machine { sound_timer: self.v[x], ..self })
        } else if kk == 0x1E {
            Ok(self.with_i(((self.i + self.v[x]) % 0x10000) as u16))
        } else if kk == 0x29 {
            Ok(self.with_i((5 * self.v[x]) as u16))
        } else if kk == 0x33 {
            self.store_bcd(x)
        } else if kk == 0x55 {
            self.dump(x)
        } else if kk == 0x65 {
            self.fill(x)
        } else {
            Err(ProgramFault::UnknownOpcode(op))
        }
    }

    /// What instruction `op` does to a running machine whose program
    /// counter is already past it. `rnd` is the random byte at hand. A
    /// word that is no instruction is a fault.
    ///
    /// The definition is long, so proofs see it only after
    /// `reveal(Machine::perform)`; the lemmas `lemma_perform_*` give it
    /// for one group of instructions at a time.
    #[verifier::opaque]
    pub open spec fn perform(self, op: u16, rnd: u8) -> Result<Machine, ProgramFault> {
        let p = op_prefix(op);
        let x = op_x(op);
        let y = op_y(op);
        let n = op_n(op);
        let kk = op_kk(op);
        let nnn = op_nnn(op);
        if is_clear(op) {
            Ok(self.clear())
        } else if is_return(op) {
            self.ret()
        } else if p == 0x1 {
            Ok(self.jump(nnn))
        } else if p == 0x2 {
            self.call(nnn)
        } else if p == 0x3 {
            Ok(self.skip_if(self.v[x] == kk))
        } else if p == 0x4 {
            Ok(self.skip_if(self.v[x] != kk))
        } else if p == 0x5 && n == 0x0 {
            Ok(self.skip_if(self.v[x] == self.v[y]))
        } else if p == 0x6 {
            Ok(self.with_v(x, kk))
        } else if p == 0x7 {
            Ok(self.add_byte(x, kk))
        } else if p == 0x8 {
            self.arithmetic(op, x, y, n)
        } else if p == 0x9 && n == 0x0 {
            Ok(self.skip_if(self.v[x] != self.v[y]))
        } else if p == 0xA {
            Ok(self.with_i(nnn))
        } else if p == 0xB {
            Ok(self.jump((self.v[0] + nnn) as u16))
        } else if p == 0xC {
            Ok(self.with_v(x, rnd & kk))
        } else if p == 0xD {
            self.draw(x, y, n)
        } else if p == 0xE && kk == 0x9E {
            self.skip_on_key(x, true)
        } else if p == 0xE && kk == 0xA1 {
            self.skip_on_key(x, false)
        } else if p == 0xF {
            self.transfer(op, x, kk)
        } else {
            Err(ProgramFault::UnknownOpcode(op))
        }
    }

    /// What instruction `op` does to the machine, or the fault it ends in.
    /// A machine that waits for a key performs nothing. A running machine
    /// moves its program counter past the instruction and then performs it.
    pub open spec fn execute(self, op: u16, rnd: u8) -> Result<Machine, ProgramFault> {
        if self.state is Running {
            self.advance().perform(op, rnd)
        } else {
            Ok(self)
        }
    }

    /// What one cycle does: the instruction word at the program counter is
    /// fetched and executed. A machine that waits for a key fetches
    /// nothing.
    pub open spec fn step(self, rnd: u8) -> Result<Machine, ProgramFault> {
        if !(self.state is Running) {
            Ok(self)
        } else if self.pc + 2 > MEMORY_SIZE {
            Err(ProgramFault::AddressOutOfRange(self.pc))
        } else {
            self.execute(opcode_at(self.ram, self.pc as int), rnd)
        }
    }

    /// The state after the keypad was seen as `snapshot`. A machine that
    /// waits for a key takes the key press, if there is one, into the
    /// register it waits with, and runs again; a number that no register
    /// has names no register, and none changes.
    pub open spec fn see_keys(self, snapshot: Seq<bool>) -> Machine {
        let seen = Machine { keys: snapshot, ..self };
        match (self.state, first_press(self.keys, snapshot)) {
            (State::AwaitingKey(r), Some(key)) => if r < REGISTER_COUNT {
                Machine { state: State::Running, ..seen.with_v(r as int, key) }
            } else {
                Machine { state: State::Running, ..seen }
            },
            _ => seen,
        }
    }
}

/// Only the instructions `Cxkk` depend on the random byte.
pub proof fn lemma_random_only_in_cxkk(s: Machine, op: u16, r1: u8, r2: u8)
    requires
        op_prefix(op) != 0xC,
    ensures
        s.perform(op, r1) == s.perform(op, r2),
        s.execute(op, r1) == s.execute(op, r2),
{
    reveal(Machine::perform);
}

/// What `perform` comes to on `00E0` and `00EE`.
pub proof fn lemma_perform_system(s: Machine, op: u16, rnd: u8)
    ensures
        is_clear(op) ==> s.perform(op, rnd) == Ok::<Machine, ProgramFault>(s.clear()),
        is_return(op) ==> s.perform(op, rnd) == s.ret(),
{
    reveal(Machine::perform);
}

/// What `perform` comes to on `1nnn`, `2nnn` and `Bnnn`.
pub proof fn lemma_perform_jumps(s: Machine, op: u16, rnd: u8)
    ensures
        op_prefix(op) == 0x1 ==> s.perform(op, rnd) == Ok::<Machine, ProgramFault>(
            s.jump(op_nnn(op)),
        ),
        op_prefix(op) == 0x2 ==> s.perform(op, rnd) == s.call(op_nnn(op)),
        op_prefix(op) == 0xB ==> s.perform(op, rnd) == Ok::<Machine, ProgramFault>(
            s.jump((s.v[0] + op_nnn(op)) as u16),
        ),
{
    reveal(Machine::perform);
}

/// What `perform` comes to on the instructions that skip on a condition.
pub proof fn lemma_perform_skips(s: Machine, op: u16, rnd: u8)
    ensures
        op_prefix(op) == 0x3 ==> s.perform(op, rnd) == Ok::<Machine, ProgramFault>(
            s.skip_if(s.v[op_x(op)] == op_kk(op)),
        ),
        op_prefix(op) == 0x4 ==> s.perform(op, rnd) == Ok::<Machine, ProgramFault>(
            s.skip_if(s.v[op_x(op)] != op_kk(op)),
        ),
        op_prefix(op) == 0x5 && op_n(op) == 0x0 ==> s.perform(op, rnd) == Ok::<
            Machine,
            ProgramFault,
        >(s.skip_if(s.v[op_x(op)] == s.v[op_y(op)])),
        op_prefix(op) == 0x9 && op_n(op) == 0x0 ==> s.perform(op, rnd) == Ok::<
            Machine,
            ProgramFault,
        >(s.skip_if(s.v[op_x(op)] != s.v[op_y(op)])),
        op_prefix(op) == 0xE && op_kk(op) == 0x9E ==> s.perform(op, rnd) == s.skip_on_key(
            op_x(op),
            true,
        ),
        op_prefix(op) == 0xE && op_kk(op) == 0xA1 ==> s.perform(op, rnd) == s.skip_on_key(
            op_x(op),
            false,
        ),
{
    reveal(Machine::perform);
}

/// What `perform` comes to on `6xkk`, `7xkk`, `Annn` and `Cxkk`.
pub proof fn lemma_perform_loads(s: Machine, op: u16, rnd: u8)
    ensures
        op_prefix(op) == 0x6 ==> s.perform(op, rnd) == Ok::<Machine, ProgramFault>(
            s.with_v(op_x(op), op_kk(op)),
        ),
        op_prefix(op) == 0x7 ==> s.perform(op, rnd) == Ok::<Machine, ProgramFault>(
            s.add_byte(op_x(op), op_kk(op)),
        ),
        op_prefix(op) == 0xA ==> s.perform(op, rnd) == Ok::<Machine, ProgramFault>(
            s.with_i(op_nnn(op)),
        ),
        op_prefix(op) == 0xC ==> s.perform(op, rnd) == Ok::<Machine, ProgramFault>(
            s.with_v(op_x(op), rnd & op_kk(op)),
        ),
{
    reveal(Machine::perform);
}

/// Which words `perform` takes for no instruction.
pub proof fn lemma_perform_unknown(s: Machine, op: u16, rnd: u8)
    ensures
        s.perform(op, rnd) == Err::<Machine, ProgramFault>(ProgramFault::UnknownOpcode(op)) <==> {
            let p = op_prefix(op);
            ||| p == 0x0 && !is_clear(op) && !is_return(op)
            ||| (p == 0x5 || p == 0x9) && op_n(op) != 0x0
            ||| p == 0x8 && op_n(op) > 0x7 && op_n(op) != 0xE
            ||| p == 0xE && op_kk(op) != 0x9E && op_kk(op) != 0xA1
            ||| p == 0xF && !(op_kk(op) == 0x07 || op_kk(op) == 0x0A || op_kk(op) == 0x15
                || op_kk(op) == 0x18 || op_kk(op) == 0x1E || op_kk(op) == 0x29 || op_kk(op)
                == 0x33 || op_kk(op) == 0x55 || op_kk(op) == 0x65)
        },
{
    reveal(Machine::perform);
}

/// The instructions `8xy0` to `8xyE` change registers, and nothing else.
pub proof fn lemma_arithmetic_changes_registers(s: Machine, op: u16, x: int, y: int, n: int)
    requires
        s.wf(),
        0 <= x < REGISTER_COUNT,
        s.arithmetic(op, x, y, n) is Ok,
    ensures
        s.arithmetic(op, x, y, n)->Ok_0 == (Machine {
            v: s.arithmetic(op, x, y, n)->Ok_0.v,
            ..s
        }),
        s.arithmetic(op, x, y, n)->Ok_0.v.len() == s.v.len(),
{
}

/// The instructions `Fx07` to `Fx65` leave the program counter, the stack,
/// the display and the keypad as they are, and every part at its size.
pub proof fn lemma_transfer_keeps(s: Machine, op: u16, x: int, kk: u8)
    requires
        s.wf(),
        0 <= x < REGISTER_COUNT,
        s.transfer(op, x, kk) is Ok,
    ensures
        ({
            let t = s.transfer(op, x, kk)->Ok_0;
            &&& t.pc == s.pc
            &&& t.stack == s.stack
            &&& t.pixels == s.pixels
            &&& t.keys == s.keys
            &&& t.ram.len() == s.ram.len()
            &&& t.v.len() == s.v.len()
        }),
{
}

/// The instruction `Dxyn` changes the display and the registers, and
/// nothing else, and leaves both at their sizes.
pub proof fn lemma_draw_keeps(s: Machine, x: int, y: int, n: int)
    requires
        s.wf(),
        s.draw(x, y, n) is Ok,
    ensures
        ({
            let t = s.draw(x, y, n)->Ok_0;
            &&& t == (Machine { pixels: t.pixels, v: t.v, ..s })
            &&& is_screen(t.pixels)
            &&& t.v.len() == s.v.len()
        }),
{
}

/// What `perform` comes to on `8xy0` to `8xyE`.
pub proof fn lemma_perform_arithmetic(s: Machine, op: u16, rnd: u8)
    requires
        op_prefix(op) == 0x8,
    ensures
        s.perform(op, rnd) == s.arithmetic(op, op_x(op), op_y(op), op_n(op)),
{
    reveal(Machine::perform);
}

/// What `perform` comes to on `Dxyn`.
pub proof fn lemma_perform_draw(s: Machine, op: u16, rnd: u8)
    requires
        op_prefix(op) == 0xD,
    ensures
        s.perform(op, rnd) == s.draw(op_x(op), op_y(op), op_n(op)),
{
    reveal(Machine::perform);
}

/// What `perform` comes to on `Fx07` to `Fx65`.
pub proof fn lemma_perform_transfer(s: Machine, op: u16, rnd: u8)
    requires
        op_prefix(op) == 0xF,
    ensures
        s.perform(op, rnd) == s.transfer(op, op_x(op), op_kk(op)),
{
    reveal(Machine::perform);
}

/// The three decimal digits of a byte make up the byte.
pub proof fn lemma_decimal_digits(num: u8)
    ensures
        num / 100 < 10,
        num / 10 % 10 < 10,
        num % 10 < 10,
        100 * (num / 100) + 10 * (num / 10 % 10) + num % 10 == num,
{
    assert(num / 100 < 10 && num / 10 % 10 < 10 && num % 10 < 10 && 100 * (num / 100) + 10 * (num
        / 10 % 10) + num % 10 == num) by (bit_vector);
}

/// What the caller has to do after a machine in state `pre` executed
/// `op`: show the display if a running machine cleared it or drew on it.
pub open spec fn effect_of(pre: Machine, op: u16) -> Effect {
    if pre.state is Running && presents(op) {
        Effect::Present
    } else {
        Effect::Nothing
    }
}

/// Whether a machine that was at `pre`, is at `post` and returned `res`
/// did what `outcome` asks for, in answer to the instruction `op`: on a
/// fault nothing has changed.
pub open spec fn follows(
    pre: Machine,
    op: u16,
    outcome: Result<Machine, ProgramFault>,
    post: Machine,
    res: Result<Effect, ProgramFault>,
) -> bool {
    match outcome {
        Ok(next) => post == next && res == Ok::<Effect, ProgramFault>(effect_of(pre, op)),
        Err(fault) => post == pre && res == Err::<Effect, ProgramFault>(fault),
    }
}

/// Whether a machine that was at `pre`, is at `post` and returned `res`
/// executed `op` with the random byte `rnd`.
pub open spec fn executed(
    pre: Machine,
    op: u16,
    rnd: u8,
    post: Machine,
    res: Result<Effect, ProgramFault>,
) -> bool {
    follows(pre, op, pre.execute(op, rnd), post, res)
}

/// Whether a machine that was at `pre`, is at `post` and returned `res`
/// went through one cycle with the random byte `rnd`.
pub open spec fn stepped(
    pre: Machine,
    rnd: u8,
    post: Machine,
    res: Result<Effect, ProgramFault>,
) -> bool {
    follows(pre, opcode_at(pre.ram, pre.pc as int), pre.step(rnd), post, res)
}

/// Whether the cycle that a machine in state `s` goes through next uses a
/// random byte.
pub open spec fn step_is_random(s: Machine) -> bool {
    s.state is Running && s.pc + 2 <= MEMORY_SIZE && op_prefix(opcode_at(s.ram, s.pc as int))
        == 0xC
}

} // verus!
