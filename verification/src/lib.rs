//! The verified core of a small HTTP server: a fixed-size pool of workers
//! that run the tasks submitted to it, and what the server answers to a
//! request.
//!
//! Nothing here starts a thread, waits or touches the network. The pool is
//! a plain value that decides and records; the program around it spawns
//! and joins the threads, guards the pool with a lock, and runs the tasks.

pub mod channel;
pub mod decimal;
pub mod error;
pub mod http;
pub mod pool;
pub mod system;
pub mod worker;
