//! A cooperative, single-threaded task runtime for a scripted host environment,
//! together with the pixel-buffer monitor model and the value-marshalling layer
//! built on top of it.
//!
//! The heart of the crate is the executor in [`coroutine`]: tasks are explicit
//! poll-state machines, polled once per external "tick", with cancellation
//! handles, an async mutex, a bounded FIFO channel and a tick barrier as the
//! suspension primitives.

pub mod coroutine;
pub mod debug;
pub mod either;
pub mod eval;
pub mod functions;
pub mod local_monitor;
pub mod lua_api;
pub mod misc;
pub mod strfmt;
pub mod vec2d;
