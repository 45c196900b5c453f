//! Bounded LIFO of 16-bit return addresses used by the subroutine call and
//! return instructions. The capacity is a construction-time parameter; a
//! capacity of `None` means unbounded.

use vstd::prelude::*;

verus! {

/// The two ways a stack operation can fail. Neither failure mutates the
/// stack; the caller decides the halt policy.
#[derive(Clone, Copy, Debug, PartialEq, Eq, Structural)]
pub enum StackError {
    StackOverflow,
    StackUnderflow,
}

/// A LIFO of return addresses with an optional capacity bound.
pub struct Stack {
    pub max: Option<usize>,
    pub data: Vec<u16>,
}

impl Stack {
    /// True when a further push must fail.
    pub open spec fn is_full(self) -> bool {
        match self.max {
            Some(m) => self.data@.len() >= m,
            None => false,
        }
    }

    pub fn new(max: Option<usize>) -> (r: Stack)
        ensures
            r.max == max,
            r.data@ == Seq::<u16>::empty(),
    {
        Stack { max, data: Vec::new() }
    }

    /// Appends `item`, unless the stack is at capacity, in which case it
    /// fails with `StackOverflow` and leaves the stack unchanged.
    pub fn push(&mut self, item: u16) -> (r: Result<(), StackError>)
        ensures
            final(self).max == old(self).max,
            old(self).is_full() ==> r == Err::<(), StackError>(StackError::StackOverflow)
                && final(self).data@ == old(self).data@,
            !old(self).is_full() ==> r == Ok::<(), StackError>(())
                && final(self).data@ == old(self).data@.push(item),
    {
        if let Some(m) = self.max {
            if self.data.len() >= m {
                return Err(StackError::StackOverflow);
            }
        }
        self.data.push(item);
        Ok(())
    }

    /// Removes and returns the most recent entry; fails with
    /// `StackUnderflow` on an empty stack.
    pub fn pop(&mut self) -> (r: Result<u16, StackError>)
        ensures
            final(self).max == old(self).max,
            old(self).data@.len() == 0 ==> r == Err::<u16, StackError>(StackError::StackUnderflow)
                && final(self).data@ == old(self).data@,
            old(self).data@.len() > 0 ==> r == Ok::<u16, StackError>(old(self).data@.last())
                && final(self).data@ == old(self).data@.drop_last(),
    {
        match self.data.pop() {
            None => Err(StackError::StackUnderflow),
            Some(val) => Ok(val),
        }
    }

    /// The most recent entry without removing it, `None` when empty.
    pub fn top(self) -> (r: Option<u16>)
        ensures
            self.data@.len() == 0 ==> r is None,
            self.data@.len() > 0 ==> r == Some(self.data@.last()),
    {
        if self.data.len() == 0 {
            None
        } else {
            Some(self.data[self.data.len() - 1])
        }
    }
}

/// Law: pushing `a` then `b` and popping twice yields `b` then `a`, and
/// restores the stack to where it started. Stated over the sequence model
/// that `push` and `pop` are specified against.
pub proof fn lemma_stack_round_trip(s: Seq<u16>, a: u16, b: u16)
    ensures
        s.push(a).push(b).last() == b,
        s.push(a).push(b).drop_last() == s.push(a),
        s.push(a).last() == a,
        s.push(a).drop_last() == s,
{
    assert(s.push(a).push(b).drop_last() =~= s.push(a));
    assert(s.push(a).drop_last() =~= s);
}

} // verus!
