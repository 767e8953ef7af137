use green_threads::Runtime;
use green_threads::SpawnError;
use green_threads::State;

const BODY: u64 = 0x1000;
const GUARD: u64 = 0x2000;

#[test]
fn new_marks_main_running() {
    let rt = Runtime::new(4);
    assert_eq!(rt.threads.len(), 4);
    assert_eq!(rt.current, 0);
    assert_eq!(rt.threads[0].state, State::Running);
    for i in 1..4 {
        assert_eq!(rt.threads[i].state, State::Available);
    }
    for i in 0..4 {
        assert_eq!(rt.threads[i].id, i);
        assert_eq!(rt.threads[i].stack.len(), green_threads::DEFAULT_STACK_SIZE);
        assert_eq!(rt.threads[i].ctx.rsp, 0);
    }
}

#[test]
fn capacity_bound_exactly_c_minus_one_spawns() {
    let mut rt = Runtime::new(4);
    assert_eq!(rt.spawn(BODY, GUARD), Ok(1));
    assert_eq!(rt.spawn(BODY, GUARD), Ok(2));
    assert_eq!(rt.spawn(BODY, GUARD), Ok(3));
    assert_eq!(rt.spawn(BODY, GUARD), Err(SpawnError::ResourceExhausted));
}

#[test]
fn capacity_one_has_no_spawnable_slot() {
    let mut rt = Runtime::new(1);
    assert_eq!(rt.spawn(BODY, GUARD), Err(SpawnError::ResourceExhausted));
}

#[test]
fn noop_yield_when_all_others_available() {
    let mut rt = Runtime::new(4);
    assert!(!rt.t_yield());
    assert_eq!(rt.current, 0);
    assert_eq!(rt.threads[0].state, State::Running);
    for i in 1..4 {
        assert_eq!(rt.threads[i].state, State::Available);
    }
}

#[test]
fn run_loop_condition_fails_immediately_with_zero_bodies() {
    // run() loops while t_yield() is true, then exits the process: with no
    // spawned bodies the very first yield reports false.
    let mut rt = Runtime::new(4);
    assert!(!rt.t_yield());
}

#[test]
fn yield_visits_slots_in_index_order() {
    let mut rt = Runtime::new(4);
    assert_eq!(rt.spawn(BODY, GUARD), Ok(1));
    assert_eq!(rt.spawn(BODY, GUARD), Ok(2));
    assert_eq!(rt.spawn(BODY, GUARD), Ok(3));
    let mut visits = Vec::new();
    for _ in 0..9 {
        assert!(rt.t_yield());
        visits.push(rt.current);
    }
    assert_eq!(visits, vec![1, 2, 3, 0, 1, 2, 3, 0, 1]);
}

#[test]
fn demoted_slot_becomes_ready() {
    let mut rt = Runtime::new(4);
    assert_eq!(rt.spawn(BODY, GUARD), Ok(1));
    assert!(rt.t_yield());
    assert_eq!(rt.current, 1);
    assert_eq!(rt.threads[1].state, State::Running);
    assert_eq!(rt.threads[0].state, State::Ready);
}

#[test]
fn returned_slot_is_available_and_reused() {
    let mut rt = Runtime::new(3);
    assert_eq!(rt.spawn(BODY, GUARD), Ok(1));
    assert_eq!(rt.spawn(BODY, GUARD), Ok(2));
    assert!(rt.t_yield());
    assert_eq!(rt.current, 1);
    // Slot 1's body finishes: the completion trampoline calls t_return.
    rt.t_return();
    assert_eq!(rt.threads[1].state, State::Available);
    assert_eq!(rt.current, 2);
    // The freed slot is the one the next spawn claims.
    assert_eq!(rt.spawn(BODY, GUARD), Ok(1));
    assert_eq!(rt.threads[1].state, State::Ready);
}

#[test]
fn t_return_on_main_slot_is_a_noop() {
    let mut rt = Runtime::new(4);
    assert_eq!(rt.spawn(BODY, GUARD), Ok(1));
    rt.t_return();
    assert_eq!(rt.current, 0);
    assert_eq!(rt.threads[0].state, State::Running);
    assert_eq!(rt.threads[1].state, State::Ready);
}

#[test]
fn scheduler_never_touches_saved_contexts() {
    // The registers a context saves are only ever written by the switch
    // primitive of the host; yields and returns must leave them intact.
    let mut rt = Runtime::new(3);
    assert_eq!(rt.spawn(BODY, GUARD), Ok(1));
    rt.threads[1].ctx.rbx = 0xfeed;
    rt.threads[1].ctx.r15 = 0xbeef;
    let rsp_before = rt.threads[1].ctx.rsp;
    assert!(rt.t_yield());
    assert!(rt.t_yield());
    assert_eq!(rt.threads[1].ctx.rbx, 0xfeed);
    assert_eq!(rt.threads[1].ctx.r15, 0xbeef);
    assert_eq!(rt.threads[1].ctx.rsp, rsp_before);
}

#[test]
fn two_bodies_alternate_then_drain() {
    // Capacity 4, body A yields 10 times, body B yields 15 times: strict
    // alternation while both are Ready, then B alone drains, then the run
    // loop's condition fails.
    let mut rt = Runtime::new(4);
    assert_eq!(rt.spawn(0xaaaa, GUARD), Ok(1));
    assert_eq!(rt.spawn(0xbbbb, GUARD), Ok(2));
    let mut observed = Vec::new();
    let mut a = 0;
    let mut b = 0;
    loop {
        match rt.current {
            0 => {
                if !rt.t_yield() {
                    break;
                }
            }
            1 => {
                observed.push(('A', a));
                a += 1;
                if a == 10 {
                    rt.t_return();
                } else {
                    rt.t_yield();
                }
            }
            2 => {
                observed.push(('B', b));
                b += 1;
                if b == 15 {
                    rt.t_return();
                } else {
                    rt.t_yield();
                }
            }
            _ => unreachable!(),
        }
    }
    let mut expected = Vec::new();
    for i in 0..10 {
        expected.push(('A', i));
        expected.push(('B', i));
    }
    for i in 10..15 {
        expected.push(('B', i));
    }
    assert_eq!(observed, expected);
    assert_eq!(rt.threads[1].state, State::Available);
    assert_eq!(rt.threads[2].state, State::Available);
}
