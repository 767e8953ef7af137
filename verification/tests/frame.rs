use green_threads::DEFAULT_STACK_SIZE;
use green_threads::Runtime;
use green_threads::State;
use green_threads::Thread;
use green_threads::ThreadContext;

#[test]
fn spawn_seeds_frame_little_endian() {
    let mut rt = Runtime::new(2);
    let body: u64 = 0x0102030405060708;
    let guard: u64 = 0x1122334455667788;
    assert_eq!(rt.spawn(body, guard), Ok(1));
    let slot = &rt.threads[1];
    let top = DEFAULT_STACK_SIZE;
    // The entry address sits at the seeded stack pointer, lowest byte first.
    let body_bytes = &slot.stack[top - 32..top - 24];
    assert_eq!(body_bytes, &[0x08, 0x07, 0x06, 0x05, 0x04, 0x03, 0x02, 0x01]);
    // The completion trampoline's address sits immediately above it.
    let guard_bytes = &slot.stack[top - 24..top - 16];
    assert_eq!(guard_bytes, &[0x88, 0x77, 0x66, 0x55, 0x44, 0x33, 0x22, 0x11]);
    // The context's stack pointer names the entry address's slot, and the
    // seeded offset keeps the ABI's 16-byte alignment.
    assert_eq!(slot.ctx.rsp, (top - 32) as u64);
    assert_eq!(slot.ctx.rsp % 16, 0);
    assert_eq!(slot.state, State::Ready);
}

#[test]
fn spawn_leaves_rest_of_slot_untouched() {
    let mut rt = Runtime::new(2);
    assert_eq!(rt.spawn(0xaa, 0xbb), Ok(1));
    let slot = &rt.threads[1];
    let top = DEFAULT_STACK_SIZE;
    // Bytes outside the two seeded words keep their zeroed contents.
    assert!(slot.stack[..top - 32].iter().all(|&b| b == 0));
    assert!(slot.stack[top - 16..].iter().all(|&b| b == 0));
    // Only the stack pointer of the context is seeded.
    assert_eq!(slot.ctx.r15, 0);
    assert_eq!(slot.ctx.r14, 0);
    assert_eq!(slot.ctx.r13, 0);
    assert_eq!(slot.ctx.r12, 0);
    assert_eq!(slot.ctx.rbx, 0);
    assert_eq!(slot.ctx.rbp, 0);
    // The untouched slots keep their states.
    assert_eq!(rt.threads[0].state, State::Running);
    assert_eq!(rt.current, 0);
}

#[test]
fn fresh_thread_is_available_and_zeroed() {
    let t = Thread::new(7);
    assert_eq!(t.id, 7);
    assert_eq!(t.state, State::Available);
    assert_eq!(t.stack.len(), DEFAULT_STACK_SIZE);
    assert!(t.stack.iter().all(|&b| b == 0));
    assert_eq!(t.ctx.rsp, 0);
    assert_eq!(t.ctx.rbp, 0);
}

#[test]
fn default_context_is_zeroed() {
    let c = ThreadContext::default();
    assert_eq!(
        (c.rsp, c.r15, c.r14, c.r13, c.r12, c.rbx, c.rbp),
        (0, 0, 0, 0, 0, 0, 0)
    );
}
