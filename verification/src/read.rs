//! One pooled read attempt, suspension-safe.
//!
//! A read attempt checks a buffer out of a [`CheckoutSlot`], lets the
//! underlying non-blocking stream fill at most the effective length — the
//! smaller of the caller's size cap and the buffer's capacity — and then
//! classifies what happened: not ready yet, end-of-stream, data produced, or
//! a failed read. On every one of those paths the buffer is returned to the
//! slot before the outcome reaches the caller, so no checkout is ever held
//! across a suspension boundary.

use vstd::prelude::*;
use vstd::slice::slice_subrange;

use crate::pool::CheckoutSlot;

verus! {

#[verifier::external_type_specification]
#[verifier::external_body]
pub struct ExIoError(std::io::Error);

#[verifier::external_type_specification]
#[verifier::external_body]
pub struct ExBytes(bytes::Bytes);

/// The byte sequence an owned blob holds.
pub uninterp spec fn bytes_contents(b: bytes::Bytes) -> Seq<u8>;

/// Relies on bytes::Bytes::copy_from_slice: copies the slice into a freshly
/// allocated, independently owned blob with the same bytes.
#[verifier::external_body]
fn bytes_copy(data: &[u8]) -> (r: bytes::Bytes)
    ensures
        bytes_contents(r) == data@,
{
    bytes::Bytes::copy_from_slice(data)
}

/// Default transform: copy the filled bytes into an independently owned blob
/// with no remaining reference into the pooled buffer.
pub fn copy_to_bytes(data: &[u8]) -> (r: bytes::Bytes)
    ensures
        bytes_contents(r) == data@,
{
    bytes_copy(data)
}

/// What one non-blocking read attempt on the underlying stream reported.
pub enum ReadEvent {
    /// The stream could not make progress; the attempt will be re-driven.
    Pending,
    /// The stream filled this many leading bytes of the effective window.
    /// Zero bytes signals end-of-stream.
    Filled(usize),
    /// The read failed; the error is propagated unchanged.
    Failed(std::io::Error),
}

/// The terminal classification of one drive step of a pooled read.
pub enum ReadOutcome<T> {
    /// Not ready yet: the operation stays in progress, holding no checkout.
    NotReady,
    /// Finished: either a produced value or None for end-of-stream.
    Complete(Option<T>),
    /// The underlying read failed with exactly this error.
    Failed(std::io::Error),
}

/// The smaller of the caller's size cap and the buffer capacity: how many
/// bytes one attempt may ask the stream for.
pub open spec fn effective_len_spec(limit: usize, capacity: usize) -> usize {
    if limit < capacity {
        limit
    } else {
        capacity
    }
}

/// Smallest of two lengths: the effective size of one read attempt.
pub fn effective_len(limit: usize, capacity: usize) -> (r: usize)
    ensures
        r == effective_len_spec(limit, capacity),
{
    if limit < capacity {
        limit
    } else {
        capacity
    }
}

/// Whether `t` is a value the transform may produce from the byte sequence
/// `source`, handed to it as a borrowed slice.
pub open spec fn transformed_from<T, F: FnOnce(&[u8]) -> T>(
    transform: F,
    source: Seq<u8>,
    t: T,
) -> bool {
    exists|s: &[u8]| s@ == source && #[trigger] call_ensures(transform, (s,), t)
}

/// Start one attempt: check the slot's buffer out and clamp the caller's
/// size cap to the buffer's capacity. Returns None — refusing loudly, with
/// the slot unchanged — when a checkout is already outstanding.
pub fn begin_attempt(slot: &mut CheckoutSlot, limit: usize) -> (r: Option<(Vec<u8>, usize)>)
    requires
        old(slot).wf(),
    ensures
        final(slot).wf(),
        final(slot).capacity() == old(slot).capacity(),
        old(slot).is_outstanding() ==> r is None && *final(slot) == *old(slot),
        !old(slot).is_outstanding() ==> final(slot).is_outstanding() && (r matches Some(p)
            && p.0@.len() == old(slot).capacity()
            && p.1 == effective_len_spec(limit, p.0@.len() as usize)
            && p.1 <= limit
            && p.1 <= p.0@.len()),
{
    match slot.checkout() {
        Some(buf) => {
            let eff = effective_len(limit, buf.len());
            Some((buf, eff))
        },
        None => None,
    }
}

/// Finish one attempt after the stream reported `event`, applying the
/// caller's transform to the filled prefix when data arrived. The buffer is
/// checked back in on every path — success, end-of-stream, error, and the
/// not-ready path taken right before a suspension — and the transform is
/// invoked only when more than zero bytes arrived.
#[verifier::rlimit(30)]
pub fn finish_attempt<T, F: FnOnce(&[u8]) -> T>(
    slot: &mut CheckoutSlot,
    buf: Vec<u8>,
    event: ReadEvent,
    transform: F,
) -> (r: ReadOutcome<T>)
    requires
        old(slot).wf(),
        old(slot).is_outstanding(),
        buf@.len() == old(slot).capacity(),
        event matches ReadEvent::Filled(n) ==> n <= buf@.len(),
        forall|s: &[u8]| s@.len() <= buf@.len() ==> #[trigger] call_requires(transform, (s,)),
    ensures
        final(slot).wf(),
        !final(slot).is_outstanding(),
        final(slot).capacity() == old(slot).capacity(),
        final(slot).holds_buffer(),
        event is Pending ==> r is NotReady,
        event matches ReadEvent::Filled(n) ==> (n == 0 ==> r == ReadOutcome::<T>::Complete(None))
            && (n != 0 ==> (r matches ReadOutcome::Complete(Some(t)) && transformed_from(
            transform,
            buf@.subrange(0, n as int),
            t,
        ))),
        event matches ReadEvent::Failed(e) ==> r == ReadOutcome::<T>::Failed(e),
{
    match event {
        ReadEvent::Pending => {
            slot.checkin(buf);
            ReadOutcome::NotReady
        },
        ReadEvent::Filled(n) => {
            if n == 0 {
                slot.checkin(buf);
                ReadOutcome::Complete(None)
            } else {
                let filled = slice_subrange(buf.as_slice(), 0, n);
                let produced = transform(filled);
                proof {
                    assert(filled@ == buf@.subrange(0, n as int));
                    assert(transformed_from(transform, buf@.subrange(0, n as int), produced));
                }
                slot.checkin(buf);
                ReadOutcome::Complete(Some(produced))
            }
        },
        ReadEvent::Failed(e) => {
            slot.checkin(buf);
            ReadOutcome::Failed(e)
        },
    }
}

/// Finish one attempt with the default transform: on data, the outcome
/// carries an owned blob equal to the filled prefix of the buffer.
pub fn finish_attempt_bytes(slot: &mut CheckoutSlot, buf: Vec<u8>, event: ReadEvent) -> (r:
    ReadOutcome<bytes::Bytes>)
    requires
        old(slot).wf(),
        old(slot).is_outstanding(),
        buf@.len() == old(slot).capacity(),
        event matches ReadEvent::Filled(n) ==> n <= buf@.len(),
    ensures
        final(slot).wf(),
        !final(slot).is_outstanding(),
        final(slot).capacity() == old(slot).capacity(),
        final(slot).holds_buffer(),
        event is Pending ==> r is NotReady,
        event matches ReadEvent::Filled(n) ==> (n == 0 ==> r == ReadOutcome::<
            bytes::Bytes,
        >::Complete(None)) && (n != 0 ==> (r matches ReadOutcome::Complete(Some(b))
            && bytes_contents(b) == buf@.subrange(0, n as int))),
        event matches ReadEvent::Failed(e) ==> r == ReadOutcome::<bytes::Bytes>::Failed(e),
{
    match event {
        ReadEvent::Pending => {
            slot.checkin(buf);
            ReadOutcome::NotReady
        },
        ReadEvent::Filled(n) => {
            if n == 0 {
                slot.checkin(buf);
                ReadOutcome::Complete(None)
            } else {
                let filled = slice_subrange(buf.as_slice(), 0, n);
                let blob = bytes_copy(filled);
                slot.checkin(buf);
                ReadOutcome::Complete(Some(blob))
            }
        },
        ReadEvent::Failed(e) => {
            slot.checkin(buf);
            ReadOutcome::Failed(e)
        },
    }
}

/// Whether `r` correctly classifies one drive step in which the stream —
/// represented by the callback `read`, handed a buffer and the effective
/// length `eff` — reported some event: not ready, a filled prefix of `n`
/// bytes with the transform applied to it when `n != 0`, end-of-stream when
/// `n == 0`, or a failure propagated unchanged.
pub open spec fn step_outcome_of<
    T,
    R: FnOnce(Vec<u8>, usize) -> (Vec<u8>, ReadEvent),
    F: FnOnce(&[u8]) -> T,
>(read: R, transform: F, eff: usize, r: ReadOutcome<T>) -> bool {
    exists|fed: Vec<u8>, got: Vec<u8>, ev: ReadEvent|
        #[trigger] call_ensures(read, (fed, eff), (got, ev)) && (ev is Pending ==> r is NotReady)
            && (ev matches ReadEvent::Filled(n) ==> (n == 0 ==> r == ReadOutcome::<T>::Complete(
            None,
        )) && (n != 0 ==> (r matches ReadOutcome::Complete(Some(t)) && transformed_from(
            transform,
            got@.subrange(0, n as int),
            t,
        )))) && (ev matches ReadEvent::Failed(e) ==> r == ReadOutcome::<T>::Failed(e))
}

/// One full drive step of the pooled-read operation: check the buffer out,
/// hand it to `read` — which stands for the underlying stream and performs
/// one non-blocking fill of at most the effective length — then classify
/// what happened, applying the transform to the filled prefix when data
/// arrived. The buffer is checked back in before the outcome is returned,
/// on every path, so the caller holds no checkout when it suspends.
pub fn read_attempt<
    T,
    R: FnOnce(Vec<u8>, usize) -> (Vec<u8>, ReadEvent),
    F: FnOnce(&[u8]) -> T,
>(slot: &mut CheckoutSlot, limit: usize, read: R, transform: F) -> (r: ReadOutcome<T>)
    requires
        old(slot).wf(),
        !old(slot).is_outstanding(),
        forall|b: Vec<u8>, e: usize| b@.len() == old(slot).capacity() && e <= b@.len()
            ==> #[trigger] call_requires(read, (b, e)),
        forall|b: Vec<u8>, e: usize, out: (Vec<u8>, ReadEvent)| #[trigger] call_ensures(
            read,
            (b, e),
            out,
        ) ==> out.0@.len() == b@.len() && (out.1 matches ReadEvent::Filled(n) ==> n <= e),
        forall|s: &[u8]| s@.len() <= old(slot).capacity() ==> #[trigger] call_requires(
            transform,
            (s,),
        ),
    ensures
        final(slot).wf(),
        !final(slot).is_outstanding(),
        final(slot).capacity() == old(slot).capacity(),
        final(slot).holds_buffer(),
        step_outcome_of(
            read,
            transform,
            effective_len_spec(limit, old(slot).capacity() as usize),
            r,
        ),
{
    match begin_attempt(slot, limit) {
        Some((buf, eff)) => {
            let ghost fed = buf;
            let (got, ev) = read(buf, eff);
            let ghost got_snapshot = got;
            let ghost ev_snapshot = ev;
            let out = finish_attempt(slot, got, ev, transform);
            proof {
                assert(call_ensures(read, (fed, eff), (got_snapshot, ev_snapshot)));
                assert(step_outcome_of(
                    read,
                    transform,
                    effective_len_spec(limit, old(slot).capacity() as usize),
                    out,
                ));
            }
            out
        },
        None => vstd::pervasive::unreached(),
    }
}

/// All chunks joined in call order.
pub open spec fn concat_all(chunks: Seq<Seq<u8>>) -> Seq<u8>
    decreases chunks.len(),
{
    if chunks.len() == 0 {
        Seq::empty()
    } else {
        chunks[0] + concat_all(chunks.drop_first())
    }
}

/// Chunks that are consecutive windows of a source — chunk `i` spans the
/// source between cut points `i` and `i + 1` — joined in order, yield the
/// source between the first and last cut point.
#[verifier::rlimit(50)]
pub proof fn lemma_chunks_window(source: Seq<u8>, cuts: Seq<int>, chunks: Seq<Seq<u8>>)
    requires
        cuts.len() == chunks.len() + 1,
        forall|i: int| 0 <= i < cuts.len() ==> 0 <= #[trigger] cuts[i] <= source.len(),
        forall|i: int| 0 <= i < chunks.len() ==> #[trigger] cuts[i] <= cuts[i + 1],
        forall|i: int| 0 <= i < chunks.len() ==> #[trigger] chunks[i] == source.subrange(
            cuts[i],
            cuts[i + 1],
        ),
    ensures
        cuts[0] <= cuts.last(),
        concat_all(chunks) == source.subrange(cuts[0], cuts.last()),
    decreases chunks.len(),
{
    if chunks.len() == 0 {
        assert(concat_all(chunks) =~= source.subrange(cuts[0], cuts.last()));
    } else {
        let cuts2 = cuts.drop_first();
        let chunks2 = chunks.drop_first();
        assert forall|i: int| 0 <= i < chunks2.len() implies #[trigger] chunks2[i]
            == source.subrange(cuts2[i], cuts2[i + 1]) by {
            assert(chunks[i + 1] == source.subrange(cuts[i + 1], cuts[i + 2]));
        }
        lemma_chunks_window(source, cuts2, chunks2);
        assert(chunks[0] == source.subrange(cuts[0], cuts[1]));
        assert(cuts2[0] == cuts[1]);
        assert(cuts2.last() == cuts.last());
        let joined = source.subrange(cuts[0], cuts[1]) + source.subrange(cuts[1], cuts.last());
        assert(cuts[0] <= cuts[1] <= cuts.last());
        assert(joined.len() == cuts.last() - cuts[0]);
        assert forall|j: int| 0 <= j < cuts.last() - cuts[0] implies joined[j] == source.subrange(
            cuts[0],
            cuts.last(),
        )[j] by {
            if j < cuts[1] - cuts[0] {
                assert(joined[j] == source[cuts[0] + j]);
            } else {
                assert(joined[j] == source[cuts[1] + (j - (cuts[1] - cuts[0]))]);
            }
        }
        assert(joined =~= source.subrange(cuts[0], cuts.last()));
    }
}

/// Law: repeated read chunks, each returning the next filled window of the
/// source, concatenated in call order reconstruct the source exactly — no
/// byte duplicated, dropped, or reordered.
pub proof fn lemma_chunks_reconstruct(source: Seq<u8>, cuts: Seq<int>, chunks: Seq<Seq<u8>>)
    requires
        cuts.len() == chunks.len() + 1,
        cuts[0] == 0,
        cuts.last() == source.len(),
        forall|i: int| 0 <= i < cuts.len() ==> 0 <= #[trigger] cuts[i] <= source.len(),
        forall|i: int| 0 <= i < chunks.len() ==> #[trigger] cuts[i] <= cuts[i + 1],
        forall|i: int| 0 <= i < chunks.len() ==> #[trigger] chunks[i] == source.subrange(
            cuts[i],
            cuts[i + 1],
        ),
    ensures
        concat_all(chunks) == source,
{
    lemma_chunks_window(source, cuts, chunks);
    assert(source.subrange(0, source.len() as int) =~= source);
}

} // verus!
