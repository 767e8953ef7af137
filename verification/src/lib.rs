//! A minimal cooperative ("green thread") runtime core: a fixed-capacity
//! table of execution slots, each owning a stack buffer and a saved register
//! context, multiplexed onto one hardware execution stream by explicit
//! round-robin yielding.
//!
//! This crate holds the verified heart of the system: the slot state machine,
//! the round-robin scheduler, and the construction of the fabricated stack
//! frame that lets a context-switch primitive enter a never-run thread with a
//! plain return instruction. The primitive itself (a register save/restore in
//! assembly) and the process-wide runtime handle live in the unverified host
//! around this library; they drive these functions and obey their contracts.

pub mod context;
pub mod thread;
pub mod runtime;
pub mod laws;

pub use context::ThreadContext;
pub use thread::DEFAULT_STACK_SIZE;
pub use thread::State;
pub use thread::Thread;
pub use runtime::Runtime;
pub use runtime::SpawnError;
