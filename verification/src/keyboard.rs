//! The keypad: sixteen keys, numbered 0x0 to 0xF, each held down or not.

use vstd::prelude::*;

verus! {

/// The number of keys on the keypad.
pub const KEY_COUNT: usize = 16;

/// The keys of a physical keyboard that stand for the keypad's keys: the
/// four rows of four keys that start with `1`, `Q`, `A` and `Z`.
#[derive(Clone, Copy, Debug, PartialEq, Eq, Structural)]
pub enum Scancode {
    Num1,
    Num2,
    Num3,
    Num4,
    Q,
    W,
    E,
    R,
    A,
    S,
    D,
    F,
    Z,
    X,
    C,
    V,
}

/// The keypad key that a key of the physical keyboard stands for.
pub open spec fn key_of(code: Scancode) -> u8 {
    match code {
        Scancode::Num1 => 0x1,
        Scancode::Num2 => 0x2,
        Scancode::Num3 => 0x3,
        Scancode::Num4 => 0xC,
        Scancode::Q => 0x4,
        Scancode::W => 0x5,
        Scancode::E => 0x6,
        Scancode::R => 0xD,
        Scancode::A => 0x7,
        Scancode::S => 0x8,
        Scancode::D => 0x9,
        Scancode::F => 0xE,
        Scancode::Z => 0xA,
        Scancode::X => 0x0,
        Scancode::C => 0xB,
        Scancode::V => 0xF,
    }
}

/// Whether key `k` is up in `before` and down in `after`.
pub open spec fn newly_pressed(before: Seq<bool>, after: Seq<bool>, k: int) -> bool {
    0 <= k < KEY_COUNT && !before[k] && after[k]
}

/// The lowest key from `k` on that is up in `before` and down in `after`.
pub open spec fn first_press_from(before: Seq<bool>, after: Seq<bool>, k: int) -> Option<u8>
    decreases KEY_COUNT - k,
{
    if k < 0 || k >= KEY_COUNT {
        None
    } else if newly_pressed(before, after, k) {
        Some(k as u8)
    } else {
        first_press_from(before, after, k + 1)
    }
}

/// The key press that takes the keypad from `before` to `after`: the lowest
/// key that went down, if any did.
pub open spec fn first_press(before: Seq<bool>, after: Seq<bool>) -> Option<u8> {
    first_press_from(before, after, 0)
}

/// `first_press_from` finds a key that went down, no key from `k` on that
/// went down lies below it, and it finds none only if none went down.
pub proof fn lemma_first_press_from(before: Seq<bool>, after: Seq<bool>, k: int)
    requires
        0 <= k <= KEY_COUNT,
    ensures
        match first_press_from(before, after, k) {
            Some(key) => {
                &&& k <= key
                &&& newly_pressed(before, after, key as int)
                &&& forall|j: int| k <= j < key ==> !newly_pressed(before, after, j)
            },
            None => forall|j: int| k <= j < KEY_COUNT ==> !newly_pressed(before, after, j),
        },
    decreases KEY_COUNT - k,
{
    if k < KEY_COUNT && !newly_pressed(before, after, k) {
        lemma_first_press_from(before, after, k + 1);
    }
}

/// The state of the keypad. Its view is the sequence of the sixteen keys,
/// `true` where a key is held down.
pub struct Keyboard {
    /// The keys, `true` where one is held down.
    pub keys: [bool; 16],
}

impl View for Keyboard {
    type V = Seq<bool>;

    open spec fn view(&self) -> Seq<bool> {
        self.keys@
    }
}

impl Keyboard {
    /// A keypad with no key held down.
    pub fn new() -> (k: Keyboard)
        ensures
            k@ == Seq::new(KEY_COUNT as nat, |i: int| false),
    {
        let k = Keyboard { keys: [false; 16] };
        assert(k@ =~= Seq::new(KEY_COUNT as nat, |i: int| false));
        k
    }

    /// Takes in what the physical keyboard shows now, one flag per key, and
    /// says which key was pressed since the last time: the lowest key that
    /// was up then and is down now.
    pub fn read_user_input(&mut self, snapshot: &[bool; 16]) -> (pressed: Option<u8>)
        ensures
            final(self)@ == snapshot@,
            pressed == first_press(old(self)@, snapshot@),
    {
        let mut pressed: Option<u8> = None;
        let mut k: usize = 0;
        while k < KEY_COUNT && pressed.is_none()
            invariant
                k <= KEY_COUNT,
                self@ == old(self)@,
                pressed is None ==> first_press(old(self)@, snapshot@) == first_press_from(
                    old(self)@,
                    snapshot@,
                    k as int,
                ),
                pressed is Some ==> pressed == first_press(old(self)@, snapshot@),
            decreases KEY_COUNT - k + if pressed is None { 1int } else { 0int },
        {
            if !self.keys[k] && snapshot[k] {
                pressed = Some(k as u8);
            } else {
                k += 1;
            }
        }
        self.keys = *snapshot;
        pressed
    }

    /// Whether `key` is held down.
    pub fn key_pressed(&self, key: u8) -> (down: bool)
        requires
            key < KEY_COUNT,
        ensures
            down == self@[key as int],
    {
        self.keys[key as usize]
    }

    /// The key of the physical keyboard that stands for `key`, if the
    /// keypad has such a key.
    pub fn to_scancode(key: u8) -> (code: Option<Scancode>)
        ensures
            key < KEY_COUNT ==> code is Some && key_of(code->0) == key,
            key >= KEY_COUNT ==> code is None,
    {
        match key {
            0x0 => Some(Scancode::X),
            0x1 => Some(Scancode::Num1),
            0x2 => Some(Scancode::Num2),
            0x3 => Some(Scancode::Num3),
            0x4 => Some(Scancode::Q),
            0x5 => Some(Scancode::W),
            0x6 => Some(Scancode::E),
            0x7 => Some(Scancode::A),
            0x8 => Some(Scancode::S),
            0x9 => Some(Scancode::D),
            0xA => Some(Scancode::Z),
            0xB => Some(Scancode::C),
            0xC => Some(Scancode::Num4),
            0xD => Some(Scancode::R),
            0xE => Some(Scancode::F),
            0xF => Some(Scancode::V),
            _ => None,
        }
    }

    /// The keypad key that `code` stands for.
    pub fn from_scancode(code: Scancode) -> (key: u8)
        ensures
            key == key_of(code),
            key < KEY_COUNT,
    {
        match code {
            Scancode::Num1 => 0x1,
            Scancode::Num2 => 0x2,
            Scancode::Num3 => 0x3,
            Scancode::Num4 => 0xC,
            Scancode::Q => 0x4,
            Scancode::W => 0x5,
            Scancode::E => 0x6,
            Scancode::R => 0xD,
            Scancode::A => 0x7,
            Scancode::S => 0x8,
            Scancode::D => 0x9,
            Scancode::F => 0xE,
            Scancode::Z => 0xA,
            Scancode::X => 0x0,
            Scancode::C => 0xB,
            Scancode::V => 0xF,
        }
    }
}

} // verus!
