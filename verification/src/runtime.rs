//! The scheduler: a fixed-capacity table of execution slots, a cursor naming
//! the running slot, round-robin selection, and the slot state machine.

use vstd::prelude::*;
use crate::context::ThreadContext;
use crate::thread::DEFAULT_STACK_SIZE;
use crate::thread::State;
use crate::thread::Thread;
use crate::thread::frame_seeded;
use crate::thread::write_u64_le;

verus! {

/// The one recoverable failure of the core: `spawn` found no `Available`
/// slot. Capacity is fixed at construction, so the call cannot succeed until
/// some spawned body completes and frees its slot.
#[derive(PartialEq, Eq, Structural, Clone, Copy, Debug)]
pub enum SpawnError {
    ResourceExhausted,
}

/// The scheduler: all execution slots, owned for the process lifetime, and
/// the index of the slot that currently runs.
pub struct Runtime {
    pub threads: Vec<Thread>,
    pub current: usize,
}

/// The lifecycle states of a slot table, index for index.
pub open spec fn states_of(a: Seq<Thread>) -> Seq<State> {
    Seq::new(a.len(), |i: int| a[i].state)
}

/// The slot index visited `k` steps after `cur` in cyclic scan order, for
/// `0 <= cur < len` and `0 <= k <= len`.
pub open spec fn slot_at(cur: int, len: int, k: int) -> int {
    if cur + k < len {
        cur + k
    } else {
        cur + k - len
    }
}

/// True when the slot visited `k` steps after `cur` is `Ready`.
pub open spec fn ready_at(s: Seq<State>, cur: int, k: int) -> bool {
    s[slot_at(cur, s.len() as int, k)] == State::Ready
}

/// The least scan offset at or after `k` whose slot is `Ready`, if the scan
/// of all `s.len()` positions starting at `cur` finds one.
pub open spec fn first_ready_offset_from(s: Seq<State>, cur: int, k: int) -> Option<int>
    decreases s.len() - k,
{
    if k < 0 || k >= s.len() {
        Option::None
    } else if ready_at(s, cur, k) {
        Option::Some(k)
    } else {
        first_ready_offset_from(s, cur, k + 1)
    }
}

/// The offset, in cyclic scan order from `cur`, of the first `Ready` slot:
/// the distance the round-robin scan travels, `None` when no slot is `Ready`.
pub open spec fn first_ready_offset(s: Seq<State>, cur: int) -> Option<int> {
    first_ready_offset_from(s, cur, 0)
}

/// What the scan returns: the least offset whose slot is `Ready`, or `None`
/// exactly when no offset within one full cycle reaches a `Ready` slot.
pub proof fn lemma_first_ready_offset_from(s: Seq<State>, cur: int, k: int)
    requires
        0 <= k,
    ensures
        match first_ready_offset_from(s, cur, k) {
            Option::Some(j) => {
                &&& k <= j < s.len()
                &&& ready_at(s, cur, j)
                &&& forall|j2: int| k <= j2 < j ==> !ready_at(s, cur, j2)
            },
            Option::None => forall|j: int| k <= j < s.len() ==> !ready_at(s, cur, j),
        },
    decreases s.len() - k,
{
    if k < s.len() && !ready_at(s, cur, k) {
        lemma_first_ready_offset_from(s, cur, k + 1);
    }
}

/// The least slot index at or after `i` whose state is `Available`, if any.
pub open spec fn first_available_from(s: Seq<State>, i: int) -> Option<int>
    decreases s.len() - i,
{
    if i < 0 || i >= s.len() {
        Option::None
    } else if s[i] == State::Available {
        Option::Some(i)
    } else {
        first_available_from(s, i + 1)
    }
}

/// The slot a spawn claims: the least index whose state is `Available`, or
/// `None` exactly when no slot is free.
pub open spec fn first_available(s: Seq<State>) -> Option<int> {
    first_available_from(s, 0)
}

/// What the spawn scan returns: the least index at or after `i` whose slot
/// is `Available`, or `None` exactly when no such slot exists.
pub proof fn lemma_first_available_from(s: Seq<State>, i: int)
    requires
        0 <= i,
    ensures
        match first_available_from(s, i) {
            Option::Some(j) => {
                &&& i <= j < s.len()
                &&& s[j] == State::Available
                &&& forall|j2: int| i <= j2 < j ==> s[j2] != State::Available
            },
            Option::None => forall|j: int| i <= j < s.len() ==> s[j] != State::Available,
        },
    decreases s.len() - i,
{
    if i < s.len() && s[i] != State::Available {
        lemma_first_available_from(s, i + 1);
    }
}

/// The state table after the running slot steps aside: a `Running` current
/// slot is demoted to `Ready`; one already `Available` (a body that just
/// completed) is left reclaimed.
pub open spec fn demote(s: Seq<State>, cur: int) -> Seq<State> {
    if s[cur] == State::Available {
        s
    } else {
        s.update(cur, State::Ready)
    }
}

/// The state table after one yield: unchanged when no slot is `Ready`;
/// otherwise the current slot steps aside and the first `Ready` slot in
/// cyclic scan order is promoted to `Running`.
pub open spec fn yield_step_states(s: Seq<State>, cur: int) -> Seq<State> {
    match first_ready_offset(s, cur) {
        Option::None => s,
        Option::Some(k) => demote(s, cur).update(slot_at(cur, s.len() as int, k), State::Running),
    }
}

/// The cursor after one yield: unchanged when no slot is `Ready`, else the
/// index of the promoted slot.
pub open spec fn yield_step_current(s: Seq<State>, cur: int) -> int {
    match first_ready_offset(s, cur) {
        Option::None => cur,
        Option::Some(k) => slot_at(cur, s.len() as int, k),
    }
}

/// True when `b` is `a` with at most the lifecycle states changed: same
/// number of slots, and each slot keeps its identity, its stack buffer's
/// contents, and its saved context.
pub open spec fn same_slots_except_state(a: Seq<Thread>, b: Seq<Thread>) -> bool {
    &&& b.len() == a.len()
    &&& forall|i: int|
        0 <= i < a.len() ==> {
            &&& (#[trigger] b[i]).id == a[i].id
            &&& b[i].stack@ == a[i].stack@
            &&& b[i].ctx == a[i].ctx
        }
}

impl Runtime {
    /// The lifecycle states of this runtime's slots, index for index.
    pub open spec fn states(self) -> Seq<State> {
        states_of(self.threads@)
    }

    /// Well-formedness of the slot table: the cursor is in range, each slot's
    /// identity is its index, every stack buffer keeps its configured size,
    /// and no slot other than the current one is `Running`.
    pub open spec fn wf(self) -> bool {
        &&& 1 <= self.threads@.len()
        &&& self.current < self.threads@.len()
        &&& forall|i: int|
            0 <= i < self.threads@.len() ==> (#[trigger] self.threads@[i]).id == i
        &&& forall|i: int|
            0 <= i < self.threads@.len() ==> (#[trigger] self.threads@[i]).stack@.len()
                == DEFAULT_STACK_SIZE
        &&& forall|i: int|
            0 <= i < self.threads@.len() && (#[trigger] self.threads@[i]).state == State::Running
                ==> i == self.current
    }

    /// A runtime of `capacity` slots. Slot 0 is the implicit "main" thread,
    /// pre-marked `Running` and never spawned; every other slot starts
    /// `Available`.
    pub fn new(capacity: usize) -> (rt: Runtime)
        requires
            1 <= capacity,
        ensures
            rt.wf(),
            rt.threads@.len() == capacity,
            rt.current == 0,
            rt.threads@[0].state == State::Running,
            forall|i: int| 1 <= i < capacity ==> rt.threads@[i].state == State::Available,
            forall|i: int| 0 <= i < capacity ==> (#[trigger] rt.threads@[i]).ctx.is_zeroed(),
            forall|i: int|
                0 <= i < capacity ==> (#[trigger] rt.threads@[i]).stack@ == Seq::new(
                    DEFAULT_STACK_SIZE as nat,
                    |j: int| 0u8,
                ),
    {
        let mut threads: Vec<Thread> = Vec::new();
        let mut base = Thread::new(0);
        base.state = State::Running;
        threads.push(base);
        let mut i: usize = 1;
        while i < capacity
            invariant
                1 <= i <= capacity,
                threads@.len() == i,
                threads@[0].state == State::Running,
                forall|j: int| 1 <= j < i ==> threads@[j].state == State::Available,
                forall|j: int| 0 <= j < i ==> (#[trigger] threads@[j]).id == j,
                forall|j: int|
                    0 <= j < i ==> (#[trigger] threads@[j]).stack@.len() == DEFAULT_STACK_SIZE,
                forall|j: int| 0 <= j < i ==> (#[trigger] threads@[j]).ctx.is_zeroed(),
                forall|j: int|
                    0 <= j < i ==> (#[trigger] threads@[j]).stack@ == Seq::new(
                        DEFAULT_STACK_SIZE as nat,
                        |m: int| 0u8,
                    ),
            decreases capacity - i,
        {
            threads.push(Thread::new(i));
            i = i + 1;
        }
        Runtime { threads, current: 0 }
    }

    /// One round-robin scheduling step, the single suspension point of the
    /// system. Scans cyclically from the current slot for the first `Ready`
    /// slot; if none exists, returns `false` and changes nothing (the run
    /// loop's termination condition). Otherwise demotes the current slot
    /// (`Running` becomes `Ready`; a just-completed `Available` slot stays
    /// reclaimed), promotes the found slot to `Running`, and moves the
    /// cursor to it. The host performs the actual register switch between
    /// the two slots' contexts whenever this returns `true`; no slot's
    /// saved context, stack contents, or identity is altered here.
    pub fn t_yield(&mut self) -> (switched: bool)
        requires
            old(self).wf(),
        ensures
            final(self).wf(),
            switched == (first_ready_offset(old(self).states(), old(self).current as int)
                is Some),
            final(self).states() == yield_step_states(
                old(self).states(),
                old(self).current as int,
            ),
            final(self).current as int == yield_step_current(
                old(self).states(),
                old(self).current as int,
            ),
            same_slots_except_state(old(self).threads@, final(self).threads@),
            !switched ==> *final(self) == *old(self),
    {
        let ghost s = old(self).states();
        let ghost cur = old(self).current as int;
        let len = self.threads.len();
        let mut pos = self.current;
        let ghost mut k: int = 0;
        while self.threads[pos].state != State::Ready
            invariant
                *self == *old(self),
                old(self).wf(),
                s == old(self).states(),
                cur == old(self).current as int,
                len == self.threads@.len(),
                0 <= k < len,
                pos < len,
                pos == slot_at(cur, len as int, k),
                first_ready_offset(s, cur) == first_ready_offset_from(s, cur, k),
            decreases len - k,
        {
            proof {
                assert(!ready_at(s, cur, k));
                assert(first_ready_offset_from(s, cur, k) == first_ready_offset_from(
                    s,
                    cur,
                    k + 1,
                ));
            }
            pos = pos + 1;
            if pos == len {
                pos = 0;
            }
            if pos == self.current {
                proof {
                    assert(k + 1 == len);
                    assert(first_ready_offset_from(s, cur, k + 1) is None);
                }
                return false;
            }
            proof {
                assert(pos == slot_at(cur, len as int, k + 1));
                k = k + 1;
            }
        }
        proof {
            assert(ready_at(s, cur, k));
            assert(first_ready_offset(s, cur) == Option::Some(k));
        }
        let cur_idx = self.current;
        if self.threads[cur_idx].state != State::Available {
            let t = &mut self.threads[cur_idx];
            t.state = State::Ready;
        }
        let ghost mid = self.threads@;
        proof {
            assert(states_of(mid) =~= demote(s, cur));
        }
        let t2 = &mut self.threads[pos];
        t2.state = State::Running;
        self.current = pos;
        proof {
            assert(self.states() =~= yield_step_states(s, cur));
            assert forall|i: int|
                0 <= i < self.threads@.len() && (#[trigger] self.threads@[i]).state
                    == State::Running implies i == self.current by {
                if i != pos as int && i != cur {
                    assert(self.threads@[i] == old(self).threads@[i]);
                }
            }
        }
        true
    }

    /// Claims the first `Available` slot for a new thread body, or fails
    /// with `ResourceExhausted` when — and only when — no slot is free.
    ///
    /// `body` is the machine address of the zero-argument routine the thread
    /// will execute; `guard` is the address of the completion trampoline the
    /// body returns into. On success the claimed slot's stack is seeded with
    /// the fabricated initial frame (`frame_seeded`), its context's stack
    /// pointer is set to the frame's base offset, and the slot becomes
    /// `Ready`; nothing else changes.
    pub fn spawn(&mut self, body: u64, guard: u64) -> (r: Result<usize, SpawnError>)
        requires
            old(self).wf(),
        ensures
            final(self).wf(),
            (r is Ok) == (first_available(old(self).states()) is Some),
            match r {
                Result::Ok(i) => ({
                    let idx = i as int;
                    &&& first_available(old(self).states()) == Option::Some(idx)
                    &&& 0 <= idx < old(self).threads@.len()
                    &&& old(self).threads@[idx].state == State::Available
                    &&& final(self).states() == old(self).states().update(idx, State::Ready)
                    &&& final(self).current == old(self).current
                    &&& final(self).threads@.len() == old(self).threads@.len()
                    &&& forall|j: int|
                        0 <= j < old(self).threads@.len() && j != idx ==> final(self).threads@[j]
                            == old(self).threads@[j]
                    &&& final(self).threads@[idx].state == State::Ready
                    &&& final(self).threads@[idx].id == old(self).threads@[idx].id
                    &&& final(self).threads@[idx].ctx == (ThreadContext {
                        rsp: (DEFAULT_STACK_SIZE - 32) as u64,
                        ..old(self).threads@[idx].ctx
                    })
                    &&& frame_seeded(
                        old(self).threads@[idx].stack@,
                        final(self).threads@[idx].stack@,
                        body,
                        guard,
                    )
                }),
                Result::Err(e) => {
                    &&& e == SpawnError::ResourceExhausted
                    &&& first_available(old(self).states()) is None
                    &&& *final(self) == *old(self)
                },
            },
    {
        let ghost s = old(self).states();
        let len = self.threads.len();
        let mut i: usize = 0;
        while i < len
            invariant
                *self == *old(self),
                old(self).wf(),
                s == old(self).states(),
                len == self.threads@.len(),
                i <= len,
                first_available(s) == first_available_from(s, i as int),
            decreases len - i,
        {
            if self.threads[i].state == State::Available {
                proof {
                    assert(first_available(s) == Option::Some(i as int));
                }
                let t = &mut self.threads[i];
                let size = t.stack.len();
                let ghost stack0 = t.stack@;
                write_u64_le(&mut t.stack, size - 24, guard);
                write_u64_le(&mut t.stack, size - 32, body);
                t.ctx.rsp = (size - 32) as u64;
                t.state = State::Ready;
                proof {
                    assert(frame_seeded(stack0, t.stack@, body, guard));
                }
                proof {
                    assert(self.states() =~= s.update(i as int, State::Ready));
                    assert forall|j: int|
                        0 <= j < self.threads@.len() && (#[trigger] self.threads@[j]).state
                            == State::Running implies j == self.current by {
                        if j != i as int {
                            assert(self.threads@[j] == old(self).threads@[j]);
                        }
                    }
                }
                return Result::Ok(i);
            }
            proof {
                assert(first_available_from(s, i as int) == first_available_from(s, i as int + 1));
            }
            i = i + 1;
        }
        proof {
            assert(first_available(s) is None);
        }
        Result::Err(SpawnError::ResourceExhausted)
    }

    /// Reclaims the current slot after its body has returned: invoked only
    /// from the completion trampoline. The implicit main slot (index 0) is
    /// never reclaimed — for it this is a no-op. Any other slot is marked
    /// `Available`, immediately eligible for reuse by a later `spawn`, and
    /// one round-robin step then hands control elsewhere: a finished slot
    /// never falls through to a caller.
    pub fn t_return(&mut self)
        requires
            old(self).wf(),
        ensures
            final(self).wf(),
            old(self).current == 0 ==> *final(self) == *old(self),
            old(self).current != 0 ==> ({
                let marked = old(self).states().update(old(self).current as int, State::Available);
                &&& final(self).states() == yield_step_states(marked, old(self).current as int)
                &&& final(self).current as int == yield_step_current(
                    marked,
                    old(self).current as int,
                )
                &&& same_slots_except_state(old(self).threads@, final(self).threads@)
            }),
    {
        if self.current != 0 {
            let cur_idx = self.current;
            let t = &mut self.threads[cur_idx];
            t.state = State::Available;
            proof {
                assert(self.states() =~= old(self).states().update(
                    old(self).current as int,
                    State::Available,
                ));
                assert forall|j: int|
                    0 <= j < self.threads@.len() && (#[trigger] self.threads@[j]).state
                        == State::Running implies j == self.current by {
                    if j != cur_idx as int {
                        assert(self.threads@[j] == old(self).threads@[j]);
                    }
                }
            }
            self.t_yield();
        }
    }
}

} // verus!
