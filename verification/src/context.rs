//! The saved register context of one execution slot.

use vstd::prelude::*;

verus! {

/// The subset of CPU state that must survive a cooperative switch on the
/// baseline (System V x86-64) target: the stack pointer and the six
/// callee-saved general-purpose registers. Pure data: only the switch
/// primitive of the host reads or writes a live context, and only the
/// scheduler's spawn routine seeds one for a never-run thread.
///
/// The library records `rsp` as a byte offset into the owning slot's stack
/// buffer; the host adds the buffer's machine address when it materializes a
/// hardware context, so that the verified code never handles raw addresses.
#[derive(Clone, Copy, Debug)]
pub struct ThreadContext {
    pub rsp: u64,
    pub r15: u64,
    pub r14: u64,
    pub r13: u64,
    pub r12: u64,
    pub rbx: u64,
    pub rbp: u64,
}

impl ThreadContext {
    /// True when every saved register is zero, the state of a slot that has
    /// never been run nor seeded with a fabricated frame.
    pub open spec fn is_zeroed(self) -> bool {
        &&& self.rsp == 0
        &&& self.r15 == 0
        &&& self.r14 == 0
        &&& self.r13 == 0
        &&& self.r12 == 0
        &&& self.rbx == 0
        &&& self.rbp == 0
    }
}

impl Default for ThreadContext {
    /// A fresh context with every register zeroed.
    fn default() -> (c: ThreadContext)
        ensures
            c.is_zeroed(),
    {
        ThreadContext { rsp: 0, r15: 0, r14: 0, r13: 0, r12: 0, rbx: 0, rbp: 0 }
    }
}

} // verus!
