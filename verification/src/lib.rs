//! Dispatch core of a terminal-control library.
//!
//! The crate decides, for every terminal capability request, whether to emit
//! its escape sequence into a caller-supplied byte sink or to fall back to a
//! synchronous native call, and it tracks the set of active text-rendering
//! attributes as a compact bitset.

pub mod attributes;
pub mod capability;
pub mod dispatch;
pub mod error;
pub mod sink;
