//! The byte sink that queued capability output is written into.
//!
//! A sink accepts sequential byte writes and an explicit flush that commits
//! the buffered bytes. Its model is the sequence of bytes accepted so far and
//! the number of flushes performed. A failed write or flush must be reported
//! as an error and leaves the sink unchanged; it never truncates silently.

use vstd::prelude::*;

verus! {

/// A destination for sequential byte writes with an explicit flush.
///
/// Implementors pick an error code (`u32`) of their own to report failures.
pub trait Sink {
    /// The bytes accepted so far.
    spec fn buffered(&self) -> Seq<u8>;

    /// How many flushes have been performed.
    spec fn flush_count(&self) -> nat;

    /// Appends `bytes` to the buffered output, or fails atomically.
    fn write_all(&mut self, bytes: &[u8]) -> (r: Result<(), u32>)
        ensures
            final(self).flush_count() == old(self).flush_count(),
            r is Ok ==> final(self).buffered() == old(self).buffered() + bytes@,
            r is Err ==> final(self).buffered() == old(self).buffered(),
    ;

    /// Commits the buffered bytes, or fails without committing.
    fn flush(&mut self) -> (r: Result<(), u32>)
        ensures
            final(self).buffered() == old(self).buffered(),
            r is Ok ==> final(self).flush_count() == old(self).flush_count() + 1,
            r is Err ==> final(self).flush_count() == old(self).flush_count(),
    ;
}

/// An in-memory sink that never fails.
///
/// Besides the buffered bytes it records whether a flush happened after the
/// last write, so a caller can observe whether output was committed.
pub struct MemSink {
    buffer: Vec<u8>,
    flushed: bool,
    flushes: Ghost<nat>,
}

impl MemSink {
    /// Whether a flush happened since the last write (false on a fresh sink).
    pub closed spec fn flushed_flag(&self) -> bool {
        self.flushed
    }

    /// A fresh sink: nothing buffered, nothing flushed.
    pub fn new() -> (s: MemSink)
        ensures
            s.buffered() == Seq::<u8>::empty(),
            s.flush_count() == 0,
            !s.flushed_flag(),
    {
        MemSink { buffer: Vec::new(), flushed: false, flushes: Ghost(0) }
    }

    /// The bytes accepted so far.
    pub fn contents(&self) -> (r: &Vec<u8>)
        ensures
            r@ == self.buffered(),
    {
        &self.buffer
    }

    /// Whether a flush happened since the last write.
    pub fn is_flushed(&self) -> (b: bool)
        ensures
            b == self.flushed_flag(),
    {
        self.flushed
    }
}

impl Sink for MemSink {
    closed spec fn buffered(&self) -> Seq<u8> {
        self.buffer@
    }

    closed spec fn flush_count(&self) -> nat {
        self.flushes@
    }

    fn write_all(&mut self, bytes: &[u8]) -> (r: Result<(), u32>)
        ensures
            r is Ok,
            !final(self).flushed_flag(),
    {
        let mut k: usize = 0;
        while k < bytes.len()
            invariant
                k <= bytes@.len(),
                self.buffer@ == old(self).buffer@ + bytes@.take(k as int),
                self.flushes == old(self).flushes,
            decreases bytes@.len() - k,
        {
            self.buffer.push(bytes[k]);
            proof {
                assert(bytes@.take(k as int).push(bytes@[k as int]) =~= bytes@.take(k + 1));
            }
            k = k + 1;
        }
        proof {
            assert(bytes@.take(bytes@.len() as int) =~= bytes@);
        }
        self.flushed = false;
        Ok(())
    }

    fn flush(&mut self) -> (r: Result<(), u32>)
        ensures
            r is Ok,
            final(self).flushed_flag(),
    {
        self.flushed = true;
        self.flushes = Ghost(self.flushes@ + 1);
        Ok(())
    }
}

/// A sink that accepts a fixed number of writes and then fails, and whose
/// flush can be made to fail as well. It exercises the error paths of the
/// dispatcher without any real I/O.
pub struct FailingSink {
    buffer: Vec<u8>,
    writes_left: u64,
    flush_fails: bool,
    code: u32,
    flushes: Ghost<nat>,
}

impl FailingSink {
    /// How many more writes the sink will accept before failing them.
    pub closed spec fn writes_remaining(&self) -> u64 {
        self.writes_left
    }

    /// Whether every flush fails.
    pub closed spec fn flush_failing(&self) -> bool {
        self.flush_fails
    }

    /// The code the sink reports on failure.
    pub closed spec fn error_code(&self) -> u32 {
        self.code
    }

    /// A sink that accepts `writes_left` writes, then reports `code`; its
    /// flush fails with the same code when `flush_fails` is set.
    pub fn new(writes_left: u64, flush_fails: bool, code: u32) -> (s: FailingSink)
        ensures
            s.buffered() == Seq::<u8>::empty(),
            s.flush_count() == 0,
            s.writes_remaining() == writes_left,
            s.flush_failing() == flush_fails,
            s.error_code() == code,
    {
        FailingSink { buffer: Vec::new(), writes_left, flush_fails, code, flushes: Ghost(0) }
    }

    /// The bytes accepted before the failure.
    pub fn contents(&self) -> (r: &Vec<u8>)
        ensures
            r@ == self.buffered(),
    {
        &self.buffer
    }
}

impl Sink for FailingSink {
    closed spec fn buffered(&self) -> Seq<u8> {
        self.buffer@
    }

    closed spec fn flush_count(&self) -> nat {
        self.flushes@
    }

    fn write_all(&mut self, bytes: &[u8]) -> (r: Result<(), u32>)
        ensures
            old(self).writes_remaining() == 0 ==> r == Result::<(), u32>::Err(
                old(self).error_code(),
            ) && *final(self) == *old(self),
            old(self).writes_remaining() > 0 ==> r is Ok && final(self).writes_remaining() == old(
                self,
            ).writes_remaining() - 1,
            final(self).flush_failing() == old(self).flush_failing(),
            final(self).error_code() == old(self).error_code(),
    {
        if self.writes_left == 0 {
            return Err(self.code);
        }
        self.writes_left = self.writes_left - 1;
        let mut k: usize = 0;
        while k < bytes.len()
            invariant
                k <= bytes@.len(),
                self.buffer@ == old(self).buffer@ + bytes@.take(k as int),
                self.flushes == old(self).flushes,
                self.writes_left == old(self).writes_left - 1,
                self.flush_fails == old(self).flush_fails,
                self.code == old(self).code,
            decreases bytes@.len() - k,
        {
            self.buffer.push(bytes[k]);
            proof {
                assert(bytes@.take(k as int).push(bytes@[k as int]) =~= bytes@.take(k + 1));
            }
            k = k + 1;
        }
        proof {
            assert(bytes@.take(bytes@.len() as int) =~= bytes@);
        }
        Ok(())
    }

    fn flush(&mut self) -> (r: Result<(), u32>)
        ensures
            old(self).flush_failing() ==> r == Result::<(), u32>::Err(old(self).error_code())
                && *final(self) == *old(self),
            !old(self).flush_failing() ==> r is Ok,
            final(self).writes_remaining() == old(self).writes_remaining(),
            final(self).flush_failing() == old(self).flush_failing(),
            final(self).error_code() == old(self).error_code(),
    {
        if self.flush_fails {
            Err(self.code)
        } else {
            self.flushes = Ghost(self.flushes@ + 1);
            Ok(())
        }
    }
}

} // verus!
