//! Execution slots: lifecycle state, owned stack buffer, saved context, and
//! the fabricated stack frame a never-run thread is entered through.

use vstd::prelude::*;
use crate::context::ThreadContext;

verus! {

/// Size in bytes of the stack buffer every slot owns. Fixed at slot creation
/// and never changed: a live context points into the buffer, so the backing
/// storage must not move or shrink. The size is a multiple of 16, which the
/// frame layout of `spawn` relies on to honor the platform's stack-alignment
/// rule (see `lemma_frame_alignment`).
pub const DEFAULT_STACK_SIZE: usize = 2 * 1024 * 1024;

/// Lifecycle state of one execution slot.
///
/// `Available -> Ready` on spawn, `Ready -> Running` when the scheduler
/// selects the slot, `Running -> Ready` when it yields with work remaining,
/// and `Running -> Available` when its body returns, at which point the slot
/// may be reused by a later spawn.
#[derive(PartialEq, Eq, Structural, Clone, Copy, Debug)]
pub enum State {
    Available,
    Running,
    Ready,
}

/// One execution slot: a stable identity, an owned fixed-size stack buffer,
/// the saved register context, and the lifecycle state.
pub struct Thread {
    pub id: usize,
    pub stack: Vec<u8>,
    pub ctx: ThreadContext,
    pub state: State,
}

impl Thread {
    /// A fresh, available slot with a zeroed stack and a zeroed context.
    pub fn new(id: usize) -> (t: Thread)
        ensures
            t.id == id,
            t.state == State::Available,
            t.ctx.is_zeroed(),
            t.stack@ == Seq::new(DEFAULT_STACK_SIZE as nat, |i: int| 0u8),
    {
        let stack = zeroed_stack(DEFAULT_STACK_SIZE);
        Thread { id, stack, ctx: ThreadContext::default(), state: State::Available }
    }
}

/// A zero-filled buffer of the requested size.
fn zeroed_stack(size: usize) -> (v: Vec<u8>)
    ensures
        v@ == Seq::new(size as nat, |i: int| 0u8),
{
    let mut v: Vec<u8> = Vec::new();
    let mut i: usize = 0;
    while i < size
        invariant
            i <= size,
            v@ == Seq::new(i as nat, |j: int| 0u8),
        decreases size - i,
    {
        v.push(0u8);
        proof {
            assert(v@ =~= Seq::new((i + 1) as nat, |j: int| 0u8));
        }
        i = i + 1;
    }
    v
}

/// Byte `k` of `v` in little-endian order: the byte a store of `v` places at
/// address `base + k` on the target.
pub open spec fn le_byte(v: u64, k: int) -> u8 {
    (v >> ((8 * k) as u64)) as u8
}

/// True when `new_stack` equals `old_stack` with the eight little-endian
/// bytes of `v` written at `offset`.
pub open spec fn u64_written(old_stack: Seq<u8>, new_stack: Seq<u8>, offset: int, v: u64) -> bool {
    &&& new_stack.len() == old_stack.len()
    &&& forall|k: int| 0 <= k < 8 ==> new_stack[offset + k] == le_byte(v, k)
    &&& forall|i: int|
        0 <= i < old_stack.len() && !(offset <= i < offset + 8) ==> new_stack[i] == old_stack[i]
}

/// Stores `v` into `stack` at `offset` in little-endian byte order, the
/// layout in which the target reads a 64-bit word back from memory.
pub fn write_u64_le(stack: &mut Vec<u8>, offset: usize, v: u64)
    requires
        offset + 8 <= old(stack)@.len(),
    ensures
        u64_written(old(stack)@, final(stack)@, offset as int, v),
{
    let n: usize = stack.len();
    let mut k: usize = 0;
    while k < 8
        invariant
            k <= 8,
            offset + 8 <= n == stack@.len(),
            stack@.len() == old(stack)@.len(),
            forall|j: int| 0 <= j < k ==> stack@[offset + j] == le_byte(v, j),
            forall|i: int|
                0 <= i < old(stack)@.len() && !(offset <= i < offset + k) ==> stack@[i] == old(
                    stack,
                )@[i],
        decreases 8 - k,
    {
        let shift: u64 = 8u64 * (k as u64);
        let b: u8 = #[verifier::truncate] ((v >> shift) as u8);
        stack[offset + k] = b;
        k = k + 1;
    }
}

/// True when `new_stack` is `old_stack` with a fabricated initial frame
/// seeded near its top: the eight little-endian bytes of `body` at offset
/// `len - 32` and those of `guard_addr` at offset `len - 24`, every other
/// byte untouched.
///
/// The switch primitive ends in a return instruction, so the first switch
/// into a slot whose stack pointer is seeded at `len - 32` pops `body` and
/// transfers control there; when the body routine itself returns, it pops
/// `guard_addr` next and falls into the completion trampoline.
pub open spec fn frame_seeded(
    old_stack: Seq<u8>,
    new_stack: Seq<u8>,
    body: u64,
    guard_addr: u64,
) -> bool {
    &&& new_stack.len() == old_stack.len()
    &&& forall|k: int| 0 <= k < 8 ==> new_stack[old_stack.len() - 32 + k] == le_byte(body, k)
    &&& forall|k: int| 0 <= k < 8 ==> new_stack[old_stack.len() - 24 + k] == le_byte(guard_addr, k)
    &&& forall|i: int|
        0 <= i < old_stack.len() && !(old_stack.len() - 32 <= i < old_stack.len() - 16)
            ==> new_stack[i] == old_stack[i]
}

/// The byte offsets of the fabricated frame honor the platform ABI: with a
/// 16-byte-aligned buffer base, the seeded stack pointer is 16-byte aligned,
/// and after the switch primitive's final `ret` pops the entry address the
/// stack pointer is congruent to 8 modulo 16, exactly the state a caller's
/// `call` instruction would have left for the entry routine.
pub proof fn lemma_frame_alignment()
    ensures
        (DEFAULT_STACK_SIZE - 32) % 16 == 0,
        (DEFAULT_STACK_SIZE - 24) % 16 == 8,
{
}

} // verus!
