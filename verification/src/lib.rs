//! A resumable computation that advances one step per invocation of a
//! stateless entry point. Its only memory is a 25-byte record stored at an
//! address derived from the requesting identity; work that remains after a
//! step is continued by asking the host to invoke the entry point again, one
//! level deeper.

pub mod address;
pub mod allocation;
pub mod dispatch;
pub mod engine;
pub mod fault;
pub mod state;
pub mod transaction;

pub use crate::dispatch::process_instruction;
