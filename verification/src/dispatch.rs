//! The dispatcher: queue and execute one or more capabilities against a sink.
//!
//! Both entry points process an ordered sequence of capabilities in argument
//! order and short-circuit on the first failure, which is surfaced to the
//! caller with the partial output left in place. `queue` buffers only;
//! `execute` additionally flushes the sink, exactly once, and only after
//! every queued write succeeded.
//!
//! The buffering guarantees hold when escape-sequence emission is in effect,
//! that is, when every capability is supported on the current target. On a
//! legacy target an unsupported capability is performed natively right away
//! (the native path may even flush), so there queue and execute collapse to
//! the same behaviour. What such a batch can leave in the sink is still
//! bounded: see [`may_emit`].

use vstd::prelude::*;

use crate::capability::Capability;
use crate::error::ErrorKind;
use crate::error::is_write_failure;
use crate::error::is_flush_failure;
use crate::sink::Sink;

verus! {

/// The escape-sequence forms of `caps`, concatenated in argument order.
pub open spec fn rendered_all<C: Capability>(caps: Seq<C>) -> Seq<u8>
    decreases caps.len(),
{
    if caps.len() == 0 {
        Seq::<u8>::empty()
    } else {
        rendered_all(caps.drop_last()) + caps.last().rendered()
    }
}

/// Whether every capability of `caps` is supported on the current target.
pub open spec fn all_supported<C: Capability>(caps: Seq<C>) -> bool {
    forall|i: int| 0 <= i < caps.len() ==> (#[trigger] caps[i]).supported()
}

/// Whether `out` is a possible byte emission of processing `caps` in order:
/// a supported capability contributes exactly its rendered form, and an
/// unsupported one contributes its rendered form or nothing, as its native
/// call decides. Nothing else ever reaches the sink: `out` ends in the last
/// capability's rendered form (or the last capability is unsupported and
/// contributed nothing), and what precedes that is an emission of the
/// capabilities before it.
pub open spec fn may_emit<C: Capability>(caps: Seq<C>, out: Seq<u8>) -> bool
    decreases caps.len(),
{
    if caps.len() == 0 {
        out == Seq::<u8>::empty()
    } else {
        let form = caps.last().rendered();
        ||| (out.len() >= form.len() && out.skip(out.len() - form.len()) == form && may_emit(
            caps.drop_last(),
            out.take(out.len() - form.len()),
        ))
        ||| (!caps.last().supported() && may_emit(caps.drop_last(), out))
    }
}

/// The frame of an aborted run: processing stopped at position `i`, and
/// nothing after `i` was touched. Where escape-sequence emission was in
/// effect up to and including the failing capability, the failure was a
/// failed write, the sink holds exactly the forms of the capabilities
/// before `i`, and no capability was touched at all.
pub open spec fn aborted_at<C: Capability, S: Sink>(
    i: int,
    caps0: Seq<C>,
    caps1: Seq<C>,
    sink0: S,
    sink1: S,
    e: ErrorKind,
) -> bool {
    &&& 0 <= i < caps0.len()
    &&& forall|j: int| i < j < caps0.len() ==> caps1[j] == caps0[j]
    &&& (all_supported(caps0.take(i + 1)) ==> {
        &&& is_write_failure(e)
        &&& sink1.buffered() == sink0.buffered() + rendered_all(caps0.take(i))
        &&& caps1 == caps0
    })
}

/// Concatenating one more rendered form extends the concatenation so far.
proof fn lemma_rendered_all_snoc<C: Capability>(caps: Seq<C>, i: int)
    requires
        0 <= i < caps.len(),
    ensures
        rendered_all(caps.take(i + 1)) == rendered_all(caps.take(i)) + caps[i].rendered(),
{
    let t = caps.take(i + 1);
    assert(t.drop_last() =~= caps.take(i));
    assert(t.last() == caps[i]);
    assert(rendered_all(t) == rendered_all(caps.take(i)) + caps[i].rendered());
}

/// A possible emission grows by one step: the next capability contributes
/// its rendered form, or nothing if its native call left the sink alone.
proof fn lemma_may_emit_snoc<C: Capability>(caps: Seq<C>, i: int, prefix: Seq<u8>, out: Seq<u8>)
    requires
        0 <= i < caps.len(),
        may_emit(caps.take(i), prefix),
        out == prefix + caps[i].rendered() || (!caps[i].supported() && out == prefix),
    ensures
        may_emit(caps.take(i + 1), out),
{
    let t = caps.take(i + 1);
    assert(t.drop_last() =~= caps.take(i));
    assert(t.last() == caps[i]);
    if out == prefix + caps[i].rendered() {
        let form = caps[i].rendered();
        assert(out.len() - form.len() == prefix.len());
        assert(out.skip(prefix.len() as int) =~= form);
        assert(out.take(prefix.len() as int) =~= prefix);
    }
    assert(may_emit(t, out));
}

/// Support of a whole sequence passes to each of its prefixes.
proof fn lemma_all_supported_prefix<C: Capability>(caps: Seq<C>, i: int)
    requires
        0 <= i <= caps.len(),
        all_supported(caps),
    ensures
        all_supported(caps.take(i)),
{
    assert forall|k: int| 0 <= k < caps.take(i).len() implies (#[trigger] caps.take(
        i,
    )[k]).supported() by {
        assert(caps.take(i)[k] == caps[k]);
    }
}

/// Support of a prefix passes to each shorter prefix.
proof fn lemma_all_supported_shorter<C: Capability>(caps: Seq<C>, i: int, j: int)
    requires
        0 <= j <= i <= caps.len(),
        all_supported(caps.take(i)),
    ensures
        all_supported(caps.take(j)),
{
    assert forall|k: int| 0 <= k < caps.take(j).len() implies (#[trigger] caps.take(
        j,
    )[k]).supported() by {
        assert(caps.take(i)[k] == caps[k]);
        assert(caps.take(j)[k] == caps[k]);
    }
}

/// Dispatches one capability: writes its rendered form to the sink where the
/// target interprets escape sequences, and performs it natively otherwise.
pub fn handle_capability<C: Capability, S: Sink>(sink: &mut S, cap: &mut C)
    -> (r: Result<(), ErrorKind>)
    ensures
        final(cap).rendered() == old(cap).rendered(),
        final(cap).supported() == old(cap).supported(),
        old(cap).supported() ==> *final(cap) == *old(cap)
            && final(sink).flush_count() == old(sink).flush_count(),
        old(cap).supported() && r is Ok ==> final(sink).buffered()
            == old(sink).buffered() + old(cap).rendered(),
        old(cap).supported() && r is Err ==> final(sink).buffered() == old(sink).buffered()
            && is_write_failure(r->Err_0),
        !old(cap).supported() ==> final(sink).flush_count() >= old(sink).flush_count()
            && (final(sink).buffered() == old(sink).buffered()
                || final(sink).buffered() == old(sink).buffered() + old(cap).rendered()),
{
    if cap.supported_on_current_target() {
        let bytes = cap.render();
        match sink.write_all(bytes) {
            Ok(()) => Ok(()),
            Err(code) => Err(ErrorKind::write_failure(code)),
        }
    } else {
        cap.perform_native(sink)
    }
}

/// Queues every capability of `caps`, in argument order, against `sink`,
/// stopping at the first failure. The sink is not flushed. On a target that
/// interprets escape sequences the sink receives exactly the concatenation
/// of the rendered forms; an unsupported capability is performed natively
/// instead, and on success the sink holds one of the emissions that
/// [`may_emit`] describes.
pub fn queue<C: Capability, S: Sink>(sink: &mut S, caps: &mut Vec<C>) -> (r: Result<(), ErrorKind>)
    ensures
        final(caps)@.len() == old(caps)@.len(),
        forall|j: int|
            #![trigger final(caps)@[j]]
            0 <= j < old(caps)@.len() ==> final(caps)@[j].rendered() == old(caps)@[j].rendered()
                && final(caps)@[j].supported() == old(caps)@[j].supported(),
        final(sink).flush_count() >= old(sink).flush_count(),
        all_supported(old(caps)@) ==> final(sink).flush_count() == old(sink).flush_count(),
        r is Ok ==> exists|out: Seq<u8>|
            final(sink).buffered() == old(sink).buffered() + out && #[trigger] may_emit(
                old(caps)@,
                out,
            ),
        r is Ok && all_supported(old(caps)@) ==> final(sink).buffered() == old(sink).buffered()
            + rendered_all(old(caps)@) && final(caps)@ == old(caps)@,
        r is Err ==> exists|i: int|
            #[trigger] aborted_at(i, old(caps)@, final(caps)@, *old(sink), *final(sink), r->Err_0),
        old(caps)@.len() == 0 ==> r is Ok && final(sink).buffered() == old(sink).buffered(),
{
    let ghost caps0: Seq<C> = caps@;
    let ghost buf0: Seq<u8> = sink.buffered();
    let ghost fc0: nat = sink.flush_count();
    let ghost mut emitted: Seq<u8> = Seq::empty();
    proof {
        assert(buf0 + emitted =~= buf0);
        assert(caps0.take(0) =~= Seq::<C>::empty());
    }
    let n = caps.len();
    let mut i: usize = 0;
    while i < n
        invariant
            i <= n,
            n == caps@.len(),
            caps@.len() == caps0.len(),
            forall|j: int|
                #![trigger caps@[j]]
                0 <= j < caps0.len() ==> caps@[j].rendered() == caps0[j].rendered()
                    && caps@[j].supported() == caps0[j].supported(),
            forall|j: int| i <= j < caps0.len() ==> caps@[j] == caps0[j],
            forall|j: int| 0 <= j < i && caps0[j].supported() ==> caps@[j] == caps0[j],
            sink.flush_count() >= fc0,
            sink.buffered() == buf0 + emitted,
            may_emit(caps0.take(i as int), emitted),
            all_supported(caps0.take(i as int)) ==> sink.flush_count() == fc0 && emitted
                == rendered_all(caps0.take(i as int)),
            buf0 == old(sink).buffered(),
            fc0 == old(sink).flush_count(),
            caps0 == old(caps)@,
        decreases n - i,
    {
        let ghost pre_buf: Seq<u8> = sink.buffered();
        let ghost pre_emitted: Seq<u8> = emitted;
        let res = handle_capability(sink, &mut caps[i]);
        match res {
            Ok(()) => {
                proof {
                    if caps0[i as int].supported() || sink.buffered() != pre_buf {
                        emitted = pre_emitted + caps0[i as int].rendered();
                    }
                    assert((buf0 + pre_emitted) + caps0[i as int].rendered() =~= buf0 + (
                    pre_emitted + caps0[i as int].rendered()));
                    lemma_may_emit_snoc(caps0, i as int, pre_emitted, emitted);
                    if all_supported(caps0.take(i as int + 1)) {
                        lemma_all_supported_shorter(caps0, i as int + 1, i as int);
                        assert(caps0.take(i as int + 1)[i as int] == caps0[i as int]);
                        lemma_rendered_all_snoc(caps0, i as int);
                    }
                }
                i = i + 1;
            },
            Err(e) => {
                proof {
                    if all_supported(caps0.take(i as int + 1)) {
                        lemma_all_supported_shorter(caps0, i as int + 1, i as int);
                        assert(caps0.take(i as int + 1)[i as int] == caps0[i as int]);
                        assert forall|j: int| 0 <= j < caps0.len() implies caps@[j]
                            == caps0[j] by {
                            if j < i as int {
                                assert(caps0.take(i as int + 1)[j] == caps0[j]);
                            }
                        }
                        assert(caps@ =~= caps0);
                    }
                    assert(aborted_at(i as int, caps0, caps@, *old(sink), *sink, e));
                }
                return Err(e);
            },
        }
    }
    proof {
        assert(caps0.take(n as int) =~= caps0);
        assert(may_emit(caps0, emitted));
        if all_supported(caps0) {
            lemma_all_supported_prefix(caps0, n as int);
            assert(caps@ =~= caps0);
        }
        if caps0.len() == 0 {
            assert(buf0 + rendered_all(caps0) =~= buf0);
        }
    }
    Ok(())
}

/// Queues every capability of `caps` and then flushes the sink. The flush
/// happens exactly once, after the last successful write, and only if every
/// queued capability succeeded; a failed flush is reported as its own
/// failure, distinguishable from a failed write.
pub fn execute<C: Capability, S: Sink>(sink: &mut S, caps: &mut Vec<C>)
    -> (r: Result<(), ErrorKind>)
    ensures
        final(caps)@.len() == old(caps)@.len(),
        forall|j: int|
            #![trigger final(caps)@[j]]
            0 <= j < old(caps)@.len() ==> final(caps)@[j].rendered() == old(caps)@[j].rendered()
                && final(caps)@[j].supported() == old(caps)@[j].supported(),
        r is Ok ==> final(sink).flush_count() >= old(sink).flush_count() + 1,
        r is Ok ==> exists|out: Seq<u8>|
            final(sink).buffered() == old(sink).buffered() + out && #[trigger] may_emit(
                old(caps)@,
                out,
            ),
        r is Ok && all_supported(old(caps)@) ==> final(sink).buffered()
            == old(sink).buffered() + rendered_all(old(caps)@)
            && final(sink).flush_count() == old(sink).flush_count() + 1
            && final(caps)@ == old(caps)@,
        all_supported(old(caps)@) && r is Err ==> is_write_failure(r->Err_0)
            || is_flush_failure(r->Err_0),
        all_supported(old(caps)@) && r is Err && is_write_failure(r->Err_0)
            ==> final(sink).flush_count() == old(sink).flush_count() && exists|i: int|
            #[trigger] aborted_at(i, old(caps)@, final(caps)@, *old(sink), *final(sink), r->Err_0),
        all_supported(old(caps)@) && r is Err && is_flush_failure(r->Err_0)
            ==> final(sink).flush_count() == old(sink).flush_count()
            && final(sink).buffered() == old(sink).buffered() + rendered_all(old(caps)@)
            && final(caps)@ == old(caps)@,
{
    match queue(sink, caps) {
        Err(e) => {
            proof {
                if all_supported(old(caps)@) {
                    let i = choose|i: int|
                        aborted_at(i, old(caps)@, caps@, *old(sink), *sink, e);
                    lemma_all_supported_prefix(old(caps)@, i + 1);
                }
            }
            Err(e)
        },
        Ok(()) => {
            match sink.flush() {
                Ok(()) => Ok(()),
                Err(code) => Err(ErrorKind::flush_failure(code)),
            }
        },
    }
}

} // verus!
