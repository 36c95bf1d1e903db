//! The capability abstraction: one terminal behaviour request.
//!
//! A capability knows its escape-sequence form and, alternatively, how to
//! perform itself through a synchronous native call on targets that cannot
//! interpret escape sequences. The native call must leave the destination in
//! a state equivalent to emitting the rendered form: it may write that form
//! through the fallback sink (flushing as it goes, since the native path has
//! no queuing concept) or bypass the sink entirely, but it may not write
//! anything else.

use vstd::prelude::*;

use crate::error::ErrorKind;
use crate::sink::Sink;

verus! {

/// One terminal behaviour request, dispatchable as an escape sequence or as
/// a native call.
pub trait Capability {
    /// The escape-sequence form of this capability.
    spec fn rendered(&self) -> Seq<u8>;

    /// Whether the current target interprets the escape-sequence form.
    spec fn supported(&self) -> bool;

    /// Returns the escape-sequence form. Pure: it changes nothing.
    fn render(&self) -> (r: &[u8])
        ensures
            r@ == self.rendered(),
    ;

    /// Whether the current target interprets the escape-sequence form. The
    /// answer is fixed for the process lifetime.
    fn supported_on_current_target(&self) -> (b: bool)
        ensures
            b == self.supported(),
    ;

    /// Performs the capability through the native call path. Invoked only
    /// when the target does not interpret escape sequences. The fallback
    /// sink either stays unchanged or receives exactly the rendered form;
    /// flushes through the fallback are allowed, since the native path
    /// cannot defer its effect.
    fn perform_native<S: Sink>(&mut self, fallback: &mut S) -> (r: Result<(), ErrorKind>)
        requires
            !old(self).supported(),
        ensures
            final(self).rendered() == old(self).rendered(),
            final(self).supported() == old(self).supported(),
            final(fallback).buffered() == old(fallback).buffered()
                || final(fallback).buffered() == old(fallback).buffered() + old(self).rendered(),
            final(fallback).flush_count() >= old(fallback).flush_count(),
    ;
}

/// A capability whose target always interprets escape sequences: it renders
/// the byte payload it was built from and never takes the native path.
pub struct EscapeCommand {
    payload: Vec<u8>,
}

impl EscapeCommand {
    /// A capability that renders exactly `payload`.
    pub fn new(payload: Vec<u8>) -> (c: EscapeCommand)
        ensures
            c.rendered() == payload@,
            c.supported(),
    {
        EscapeCommand { payload }
    }
}

impl Capability for EscapeCommand {
    closed spec fn rendered(&self) -> Seq<u8> {
        self.payload@
    }

    closed spec fn supported(&self) -> bool {
        true
    }

    fn render(&self) -> (r: &[u8]) {
        self.payload.as_slice()
    }

    fn supported_on_current_target(&self) -> (b: bool) {
        true
    }

    fn perform_native<S: Sink>(&mut self, fallback: &mut S) -> (r: Result<(), ErrorKind>) {
        Ok(())
    }
}

/// A capability that reports its target as unable to interpret escape
/// sequences, so dispatch takes the native call path. The native call is
/// simulated: it counts its invocations, can be told to write its rendered
/// form through the fallback sink (as a buffered fallback would), and can be
/// told to fail.
pub struct NativeCommand {
    payload: Vec<u8>,
    performed: u64,
    emit_through_fallback: bool,
    fail_code: Option<u32>,
}

impl NativeCommand {
    /// Whether the simulated native call emits the rendered form through the
    /// fallback sink.
    pub closed spec fn emits_through_fallback(&self) -> bool {
        self.emit_through_fallback
    }

    /// The code the simulated native call fails with, if any.
    pub closed spec fn failure_code(&self) -> Option<u32> {
        self.fail_code
    }

    /// A native-path capability whose call succeeds without touching the
    /// fallback sink.
    pub fn new(payload: Vec<u8>) -> (c: NativeCommand)
        ensures
            c.rendered() == payload@,
            !c.supported(),
            c.times_performed() == 0,
            !c.emits_through_fallback(),
            c.failure_code() is None,
    {
        NativeCommand { payload, performed: 0, emit_through_fallback: false, fail_code: None }
    }

    /// A native-path capability whose call writes the rendered form through
    /// the fallback sink and flushes it, as a buffered fallback does.
    pub fn with_fallback_emission(payload: Vec<u8>) -> (c: NativeCommand)
        ensures
            c.rendered() == payload@,
            !c.supported(),
            c.times_performed() == 0,
            c.emits_through_fallback(),
            c.failure_code() is None,
    {
        NativeCommand { payload, performed: 0, emit_through_fallback: true, fail_code: None }
    }

    /// A native-path capability whose call fails with `code`.
    pub fn failing(payload: Vec<u8>, code: u32) -> (c: NativeCommand)
        ensures
            c.rendered() == payload@,
            !c.supported(),
            c.times_performed() == 0,
            !c.emits_through_fallback(),
            c.failure_code() == Some(code),
    {
        NativeCommand { payload, performed: 0, emit_through_fallback: false, fail_code: Some(code) }
    }

    /// How often the native call path was invoked on this capability.
    pub closed spec fn times_performed(&self) -> u64 {
        self.performed
    }

    /// How often the native call path was invoked on this capability.
    pub fn performed_count(&self) -> (r: u64)
        ensures
            r == self.times_performed(),
    {
        self.performed
    }
}

impl Capability for NativeCommand {
    closed spec fn rendered(&self) -> Seq<u8> {
        self.payload@
    }

    closed spec fn supported(&self) -> bool {
        false
    }

    fn render(&self) -> (r: &[u8]) {
        self.payload.as_slice()
    }

    fn supported_on_current_target(&self) -> (b: bool) {
        false
    }

    fn perform_native<S: Sink>(&mut self, fallback: &mut S) -> (r: Result<(), ErrorKind>)
        ensures
            old(self).times_performed() < u64::MAX ==> final(self).times_performed()
                == old(self).times_performed() + 1,
            final(self).emits_through_fallback() == old(self).emits_through_fallback(),
            final(self).failure_code() == old(self).failure_code(),
            !old(self).emits_through_fallback() ==> *final(fallback) == *old(fallback)
                && (r is Ok <==> old(self).failure_code() is None)
                && (old(self).failure_code() matches Some(code) ==> r == Result::<
                    (),
                    ErrorKind,
                >::Err(ErrorKind::Native { code })),
            old(self).emits_through_fallback() && r is Ok ==> final(fallback).buffered()
                == old(fallback).buffered() + old(self).rendered()
                && final(fallback).flush_count() == old(fallback).flush_count() + 1,
            r is Ok ==> old(self).failure_code() is None,
    {
        if self.performed < u64::MAX {
            self.performed = self.performed + 1;
        }
        if self.emit_through_fallback {
            match fallback.write_all(self.payload.as_slice()) {
                Ok(()) => {},
                Err(code) => {
                    return Err(ErrorKind::write_failure(code));
                },
            }
            match fallback.flush() {
                Ok(()) => {},
                Err(code) => {
                    return Err(ErrorKind::flush_failure(code));
                },
            }
        }
        match self.fail_code {
            Some(code) => Err(ErrorKind::Native { code }),
            None => Ok(()),
        }
    }
}

} // verus!
