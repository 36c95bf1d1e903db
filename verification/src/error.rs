//! The unified error kind reported by the dispatcher.
//!
//! A failure is either an I/O failure of the byte sink (a write or the final
//! flush) or a failure of the native call path. The two origins share one
//! error kind but stay distinguishable, so a caller can tell a failed write
//! from a failed flush.

use vstd::prelude::*;

verus! {

/// Which sink operation an I/O failure came from.
#[derive(Clone, Copy, Debug, PartialEq, Eq, Structural)]
pub enum IoOrigin {
    /// The failure happened while writing bytes.
    Write,
    /// The failure happened while flushing buffered bytes.
    Flush,
}

/// The single error kind of the dispatch core. `code` carries the
/// implementation-defined code that the sink or the native call reported.
#[derive(Clone, Copy, Debug, PartialEq, Eq, Structural)]
pub enum ErrorKind {
    /// An I/O failure of the byte sink, with its origin.
    Io { origin: IoOrigin, code: u32 },
    /// A failure of the native call path.
    Native { code: u32 },
}

/// Holds when `e` reports a failed write.
pub open spec fn is_write_failure(e: ErrorKind) -> bool {
    e matches ErrorKind::Io { origin: IoOrigin::Write, .. }
}

/// Holds when `e` reports a failed flush.
pub open spec fn is_flush_failure(e: ErrorKind) -> bool {
    e matches ErrorKind::Io { origin: IoOrigin::Flush, .. }
}

/// Holds when `e` reports a failed native call.
pub open spec fn is_native_failure(e: ErrorKind) -> bool {
    e matches ErrorKind::Native { .. }
}

impl ErrorKind {
    /// Wraps a sink code as a failed write.
    pub fn write_failure(code: u32) -> (e: ErrorKind)
        ensures
            is_write_failure(e),
            e == (ErrorKind::Io { origin: IoOrigin::Write, code }),
    {
        ErrorKind::Io { origin: IoOrigin::Write, code }
    }

    /// Wraps a sink code as a failed flush.
    pub fn flush_failure(code: u32) -> (e: ErrorKind)
        ensures
            is_flush_failure(e),
            e == (ErrorKind::Io { origin: IoOrigin::Flush, code }),
    {
        ErrorKind::Io { origin: IoOrigin::Flush, code }
    }
}

} // verus!
