//! The call stack: at most sixteen return addresses, last in, first out.

use vstd::prelude::*;
use crate::fault::ProgramFault;

verus! {

/// The number of return addresses that the stack can hold.
pub const STACK_SIZE: usize = 16;

/// A bounded stack of return addresses.
///
/// Its view is the sequence of the addresses it holds, oldest first. The
/// type keeps to itself that it never holds more than `STACK_SIZE` of them;
/// `len` hands that bound to callers.
pub struct Stack {
    data: [u16; 16],
    pointer: usize,
}

impl View for Stack {
    type V = Seq<u16>;

    closed spec fn view(&self) -> Seq<u16> {
        self.data@.subrange(0, self.pointer as int)
    }
}

impl Stack {
    #[verifier::type_invariant]
    spec fn in_bounds(&self) -> bool {
        self.pointer <= STACK_SIZE
    }

    /// An empty stack.
    pub fn new() -> (s: Stack)
        ensures
            s@ == Seq::<u16>::empty(),
    {
        let s = Stack { data: [0; 16], pointer: 0 };
        assert(s@ =~= Seq::<u16>::empty());
        s
    }

    /// The number of addresses on the stack.
    pub fn len(&self) -> (n: usize)
        ensures
            n == self@.len(),
            n <= STACK_SIZE,
    {
        proof {
            use_type_invariant(self);
        }
        self.pointer
    }

    /// Puts `item` on top of the stack, unless the stack is full: then
    /// nothing changes and the overflow is reported.
    pub fn push(&mut self, item: u16) -> (r: Result<(), ProgramFault>)
        ensures
            old(self)@.len() < STACK_SIZE ==> r == Ok::<(), ProgramFault>(()) && final(self)@
                == old(self)@.push(item),
            old(self)@.len() >= STACK_SIZE ==> r == Err::<(), ProgramFault>(
                ProgramFault::StackOverflow,
            ) && final(self)@ == old(self)@,
    {
        proof {
            use_type_invariant(&*self);
        }
        if self.pointer < STACK_SIZE {
            self.data[self.pointer] = item;
            self.pointer += 1;
            assert(self@ =~= old(self)@.push(item));
            Ok(())
        } else {
            Err(ProgramFault::StackOverflow)
        }
    }

    /// Takes the most recent address off the stack, or reports that there
    /// is none.
    pub fn pop(&mut self) -> (r: Option<u16>)
        ensures
            old(self)@.len() == 0 ==> r == None::<u16> && final(self)@ == old(self)@,
            old(self)@.len() > 0 ==> r == Some(old(self)@.last()) && final(self)@ == old(
                self,
            )@.drop_last(),
    {
        proof {
            use_type_invariant(&*self);
        }
        if self.pointer > 0 {
            let temp = self.data[self.pointer - 1];
            self.data[self.pointer - 1] = 0;
            self.pointer -= 1;
            assert(self@ =~= old(self)@.drop_last());
            Some(temp)
        } else {
            None
        }
    }
}

} // verus!
