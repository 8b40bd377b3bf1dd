//! A completion-based I/O driver core: operations are pushed to a proactor,
//! which hands out tokens, records completions reported by a backend and
//! returns each operation with its result exactly once.

pub mod addr;
pub mod handle;
pub mod mem;
pub mod op;
pub mod proactor;
