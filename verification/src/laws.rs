//! Scheduler laws: proofs of the global properties the runtime promises,
//! stated over the same spec functions the scheduler's contracts use.

use vstd::prelude::*;
use crate::thread::State;
use crate::runtime::first_available;
use crate::runtime::first_ready_offset;
use crate::runtime::lemma_first_available_from;
use crate::runtime::lemma_first_ready_offset_from;
use crate::runtime::ready_at;
use crate::runtime::slot_at;
use crate::runtime::yield_step_current;
use crate::runtime::yield_step_states;

verus! {

/// How many scan steps lie between `cur` and `q` in cyclic index order.
pub open spec fn cyclic_distance(cur: int, q: int, len: int) -> int {
    if q >= cur {
        q - cur
    } else {
        q - cur + len
    }
}

/// Round-robin fairness, one step at a time: whenever some slot `q` is
/// `Ready`, a yield switches, and the slot it promotes is the `Ready` slot
/// nearest to the cursor in cyclic index order — no `Ready` slot is ever
/// overtaken by one farther away. Over a run in which bodies yield
/// repeatedly, consecutive observations therefore visit slot indices in
/// non-decreasing cyclic order.
pub proof fn lemma_round_robin(s: Seq<State>, cur: int, q: int)
    requires
        0 <= cur < s.len(),
        0 <= q < s.len(),
        s[q] == State::Ready,
    ensures
        match first_ready_offset(s, cur) {
            Option::Some(k) => {
                &&& 0 <= k < s.len()
                &&& ready_at(s, cur, k)
                &&& yield_step_current(s, cur) == slot_at(cur, s.len() as int, k)
                &&& k <= cyclic_distance(cur, q, s.len() as int)
            },
            Option::None => false,
        },
{
    lemma_first_ready_offset_from(s, cur, 0);
    let d = cyclic_distance(cur, q, s.len() as int);
    assert(slot_at(cur, s.len() as int, d) == q);
    assert(ready_at(s, cur, d));
}

/// No starvation: a `Ready` slot `q` that a switch passes over stays
/// `Ready`, and its cyclic distance from the cursor strictly shrinks with
/// that switch. A waiting slot is therefore selected after at most its
/// initial distance in switches — under round robin every ready body runs
/// within one full cycle.
pub proof fn lemma_no_starvation(s: Seq<State>, cur: int, q: int)
    requires
        0 <= cur < s.len(),
        0 <= q < s.len(),
        s[cur] != State::Ready,
        s[q] == State::Ready,
        yield_step_current(s, cur) != q,
    ensures
        yield_step_states(s, cur)[q] == State::Ready,
        0 < cyclic_distance(yield_step_current(s, cur), q, s.len() as int) < cyclic_distance(
            cur,
            q,
            s.len() as int,
        ),
{
    lemma_round_robin(s, cur, q);
    let len = s.len() as int;
    let d = cyclic_distance(cur, q, len);
    match first_ready_offset(s, cur) {
        Option::Some(k) => {
            let p = slot_at(cur, len, k);
            assert(k != 0) by {
                if k == 0 {
                    assert(ready_at(s, cur, 0));
                    assert(s[cur] == State::Ready);
                }
            }
            assert(k != d) by {
                if k == d {
                    assert(slot_at(cur, len, d) == q);
                }
            }
            assert(cyclic_distance(p, q, len) == d - k);
            assert(q != cur);
        },
        Option::None => {},
    }
}

/// Slot reuse, first half: the slot a completion trampoline reclaims stays
/// `Available` through the yield that hands control away, whether or not a
/// switch target exists.
pub proof fn lemma_return_frees_slot(s: Seq<State>, cur: int)
    requires
        0 <= cur < s.len(),
    ensures
        yield_step_states(s.update(cur, State::Available), cur)[cur] == State::Available,
{
    let marked = s.update(cur, State::Available);
    lemma_first_ready_offset_from(marked, cur, 0);
    match first_ready_offset(marked, cur) {
        Option::Some(k) => {
            let p = slot_at(cur, marked.len() as int, k);
            assert(marked[p] == State::Ready);
            assert(p != cur);
        },
        Option::None => {},
    }
}

/// Slot reuse, second half: once a slot is `Available` and no lower-indexed
/// slot is, the next spawn claims exactly that slot, so a reclaimed slot's
/// id is reused.
pub proof fn lemma_slot_reuse(s: Seq<State>, c: int)
    requires
        0 <= c < s.len(),
        s[c] == State::Available,
        forall|j: int| 0 <= j < c ==> s[j] != State::Available,
    ensures
        first_available(s) == Option::Some(c),
{
    lemma_first_available_from(s, 0);
    match first_available(s) {
        Option::Some(j) => {
            if j < c {
                assert(s[j] != State::Available);
            }
            if j > c {
                assert(s[c] != State::Available);
            }
        },
        Option::None => {
            assert(s[c] != State::Available);
        },
    }
}

/// Capacity bound: with slot 0 reserved for the main thread and `spawned`
/// bodies already scheduled into slots `1..=spawned` of a table where no
/// body has yet completed, a further spawn claims slot `spawned + 1` while
/// one remains, and finds no slot — failing with `ResourceExhausted` — once
/// all `len - 1` spawnable slots are taken. A runtime of capacity `c` thus
/// accepts exactly `c - 1` spawns before one fails.
pub proof fn lemma_capacity_bound(s: Seq<State>, spawned: int)
    requires
        1 <= s.len(),
        s[0] == State::Running,
        0 <= spawned <= s.len() - 1,
        forall|j: int| 1 <= j <= spawned ==> s[j] == State::Ready,
        forall|j: int| spawned < j < s.len() ==> s[j] == State::Available,
    ensures
        spawned < s.len() - 1 ==> first_available(s) == Option::Some(spawned + 1),
        spawned == s.len() - 1 ==> first_available(s) is None,
{
    lemma_first_available_from(s, 0);
    match first_available(s) {
        Option::Some(j) => {
            assert(s[j] == State::Available);
            assert(j > spawned);
            if spawned < s.len() - 1 && j > spawned + 1 {
                assert(s[spawned + 1] != State::Available);
            }
        },
        Option::None => {
            if spawned < s.len() - 1 {
                assert(s[spawned + 1] != State::Available);
            }
        },
    }
}

/// Termination of the run loop: when no slot is `Ready` — every spawned
/// body has completed, or none was ever spawned — a yield finds no target,
/// changes nothing, and reports that no switch occurred; the run loop's
/// condition fails and the host exits the process. A fresh runtime with no
/// spawns satisfies the premise, so with zero bodies the loop ends on its
/// first iteration.
pub proof fn lemma_run_terminates(s: Seq<State>, cur: int)
    requires
        0 <= cur < s.len(),
        forall|i: int| 0 <= i < s.len() ==> s[i] != State::Ready,
    ensures
        first_ready_offset(s, cur) is None,
        yield_step_states(s, cur) == s,
        yield_step_current(s, cur) == cur,
{
    lemma_first_ready_offset_from(s, cur, 0);
    match first_ready_offset(s, cur) {
        Option::Some(k) => {
            assert(s[slot_at(cur, s.len() as int, k)] != State::Ready);
        },
        Option::None => {},
    }
}

/// No-op yield: when every slot other than the running one is `Available`,
/// a yield switches nothing — it returns control to its caller in place and
/// leaves the cursor and every state unchanged.
pub proof fn lemma_noop_yield(s: Seq<State>, cur: int)
    requires
        0 <= cur < s.len(),
        s[cur] == State::Running,
        forall|i: int| 0 <= i < s.len() && i != cur ==> s[i] == State::Available,
    ensures
        first_ready_offset(s, cur) is None,
        yield_step_states(s, cur) == s,
        yield_step_current(s, cur) == cur,
{
    lemma_run_terminates(s, cur);
}

} // verus!
