//! The CHIP-8 return-address stack.
//!
//! The stack is sixteen slots deep and grows downwards: slot 15 is never
//! used, so it holds at most fifteen return addresses.

use vstd::prelude::*;

verus! {

/// The number of return addresses the stack can hold.
pub const STACK_CAPACITY: usize = 15;

/// One slot of the stack: either empty or holding a return address.
#[derive(Clone, Copy, PartialEq, Eq)]
enum Item {
    Empty,
    Val(u16),
}

/// The address held by a slot (meaningless for an empty slot).
spec fn item_value(item: Item) -> u16 {
    match item {
        Item::Empty => 0,
        Item::Val(x) => x,
    }
}

/// A fixed-size LIFO stack of 16-bit return addresses.
#[derive(Clone, PartialEq)]
pub struct Stack {
    stack: Vec<Item>,
    sp: usize,
}

/// The contents after a push of `v`: pushed on top unless the stack is full.
pub open spec fn pushed(s: Seq<u16>, v: u16) -> Seq<u16> {
    if s.len() < STACK_CAPACITY {
        s.push(v)
    } else {
        s
    }
}

/// The contents after a pop: the top removed, if there is one.
pub open spec fn popped(s: Seq<u16>) -> Seq<u16> {
    if s.len() > 0 {
        s.drop_last()
    } else {
        s
    }
}

/// The address a pop hands back, if any.
pub open spec fn top(s: Seq<u16>) -> Option<u16> {
    if s.len() > 0 {
        Some(s.last())
    } else {
        None
    }
}

impl View for Stack {
    /// The stored addresses, bottom first: the last element is the top.
    type V = Seq<u16>;

    closed spec fn view(&self) -> Seq<u16> {
        Seq::new((15 - self.sp) as nat, |k: int| item_value(self.stack@[14 - k]))
    }
}

impl Stack {
    /// Slots below the stack pointer are empty, the slots from the stack
    /// pointer up to 14 are occupied, and slot 15 stays empty.
    pub closed spec fn wf(&self) -> bool {
        &&& self.stack@.len() == 16
        &&& self.sp <= 15
        &&& forall|i: int| 0 <= i < self.sp ==> (#[trigger] self.stack@[i]) is Empty
        &&& forall|i: int| self.sp <= i < 15 ==> (#[trigger] self.stack@[i]) is Val
        &&& self.stack@[15] is Empty
    }

    /// Creates an empty stack.
    pub fn new() -> (s: Stack)
        ensures
            s.wf(),
            s@ == Seq::<u16>::empty(),
    {
        Stack { stack: vec![Item::Empty; 16], sp: 15 }
    }

    /// Removes and returns the top address; fails with "Empty stack!" when
    /// nothing is stored.
    pub fn pop(&mut self) -> (r: Result<u16, &'static str>)
        requires
            old(self).wf(),
        ensures
            final(self).wf(),
            final(self)@ == popped(old(self)@),
            r is Ok <==> top(old(self)@) is Some,
            r matches Ok(x) ==> top(old(self)@) == Some(x),
            r matches Err(e) ==> e@ == "Empty stack!"@,
    {
        match self.stack[self.sp] {
            Item::Empty => Err("Empty stack!"),
            Item::Val(x) => {
                self.stack.set(self.sp, Item::Empty);
                self.sp = self.sp + 1;
                proof {
                    assert(self@ =~= old(self)@.drop_last());
                }
                Ok(x)
            },
        }
    }

    /// Pushes an address; fails with "Stack is full!" when fifteen
    /// addresses are already stored.
    pub fn push(&mut self, val: u16) -> (r: Result<(), &'static str>)
        requires
            old(self).wf(),
        ensures
            final(self).wf(),
            final(self)@ == pushed(old(self)@, val),
            r is Ok <==> old(self)@.len() < STACK_CAPACITY,
            r matches Err(e) ==> e@ == "Stack is full!"@,
    {
        if self.sp == 0 {
            Err("Stack is full!")
        } else {
            self.sp = self.sp - 1;
            self.stack.set(self.sp, Item::Val(val));
            proof {
                assert(self@ =~= old(self)@.push(val));
            }
            Ok(())
        }
    }

    /// The number of stored addresses.
    pub fn size(&self) -> (n: usize)
        requires
            self.wf(),
        ensures
            n == self@.len(),
    {
        15 - self.sp
    }
}

/// A stack never holds more than its capacity.
pub proof fn lemma_stack_bounded(s: &Stack)
    requires
        s.wf(),
    ensures
        s@.len() <= STACK_CAPACITY,
{
}

/// Popping right after a successful push hands back the pushed address and
/// leaves the stack as it was before the push.
pub proof fn lemma_pop_undoes_push(s: Seq<u16>, v: u16)
    requires
        s.len() < STACK_CAPACITY,
    ensures
        top(pushed(s, v)) == Some(v),
        popped(pushed(s, v)) == s,
{
    assert(s.push(v).drop_last() =~= s);
}

/// Pushing the address that a pop handed back restores the stack.
pub proof fn lemma_push_undoes_pop(s: Seq<u16>)
    requires
        s.len() > 0,
        s.len() <= STACK_CAPACITY,
    ensures
        pushed(popped(s), top(s)->0) == s,
{
    assert(s.drop_last().push(s.last()) =~= s);
}

} // verus!
