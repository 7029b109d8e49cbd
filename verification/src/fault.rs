//! The conditions on which the machine refuses to go on.

use vstd::prelude::*;

verus! {

/// A defect of the program being run. None of them can be recovered from:
/// the machine is left as it was before the faulting operation.
#[derive(Clone, Copy, Debug, PartialEq, Eq, Structural)]
pub enum ProgramFault {
    /// The instruction word matches no instruction; it is carried along.
    UnknownOpcode(u16),
    /// A call was made with sixteen return addresses already on the stack.
    StackOverflow,
    /// A return was made with no return address on the stack.
    StackUnderflow,
    /// A memory access would reach past the last byte of memory; the
    /// address at which the access starts is carried along.
    AddressOutOfRange(u16),
    /// A key was queried that the keypad does not have; the key's number is
    /// carried along.
    NoSuchKey(u8),
}

/// A failure to provide the machine with what it needs to start.
#[derive(Clone, Copy, Debug, PartialEq, Eq, Structural)]
pub enum ResourceFault {
    /// The program image is longer than the memory above the load address;
    /// its length is carried along.
    RomTooLarge(usize),
}

} // verus!
