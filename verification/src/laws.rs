//! Theorems about the wire format, stated over the model that the codec's
//! contracts use.

use crate::wire::{
    after_frame, decode_step, first_payload, frame, has_frame, HEADER_LEN, MAX_PAYLOAD_LEN,
};
use vstd::prelude::*;

verus! {

/// All the bytes of `chunks`, in order.
pub open spec fn concat(chunks: Seq<Seq<u8>>) -> Seq<u8>
    decreases chunks.len(),
{
    if chunks.len() == 0 {
        Seq::empty()
    } else {
        chunks[0] + concat(chunks.drop_first())
    }
}

/// A receive loop, as a function: each chunk is appended to the buffer and
/// one decode attempt follows. Gives the payloads handed out, in order, and
/// the buffer after the last attempt.
pub open spec fn feed(buf: Seq<u8>, chunks: Seq<Seq<u8>>) -> (Seq<Seq<u8>>, Seq<u8>)
    decreases chunks.len(),
{
    if chunks.len() == 0 {
        (Seq::empty(), buf)
    } else {
        let attempt = decode_step(buf + chunks[0]);
        let later = feed(attempt.1, chunks.drop_first());
        match attempt.0 {
            Some(payload) => (seq![payload] + later.0, later.1),
            None => later,
        }
    }
}

/// The buffer after `n` decode attempts in a row with nothing appended in
/// between.
pub open spec fn retried(buf: Seq<u8>, n: nat) -> Seq<u8>
    decreases n,
{
    if n == 0 {
        buf
    } else {
        retried(decode_step(buf).1, (n - 1) as nat)
    }
}

/// A frame followed by any bytes decodes to its payload and leaves exactly
/// those bytes.
pub proof fn lemma_frame_then_tail(payload: Seq<u8>, tail: Seq<u8>)
    requires
        payload.len() <= MAX_PAYLOAD_LEN,
    ensures
        decode_step(frame(payload) + tail) == (Some(payload), tail),
{
    let buf = frame(payload) + tail;
    let n = payload.len();
    assert(buf[0] == (n / 256) as u8);
    assert(buf[1] == (n % 256) as u8);
    assert(first_payload(buf) =~= payload);
    assert(after_frame(buf) =~= tail);
}

/// Round trip: the frame of a payload, alone in a buffer, decodes to that
/// payload and leaves the buffer empty.
pub proof fn lemma_round_trip(payload: Seq<u8>)
    requires
        payload.len() <= MAX_PAYLOAD_LEN,
    ensures
        decode_step(frame(payload)) == (Some(payload), Seq::<u8>::empty()),
{
    lemma_frame_then_tail(payload, Seq::empty());
    assert(frame(payload) + Seq::<u8>::empty() =~= frame(payload));
}

/// A frame that has not arrived whole is not decoded: every proper prefix of
/// a frame is incomplete, and an attempt on it leaves it as it is.
pub proof fn lemma_prefix_incomplete(payload: Seq<u8>, k: int)
    requires
        payload.len() <= MAX_PAYLOAD_LEN,
        0 <= k < frame(payload).len(),
    ensures
        !has_frame(frame(payload).subrange(0, k)),
        decode_step(frame(payload).subrange(0, k)) == (
            None::<Seq<u8>>,
            frame(payload).subrange(0, k),
        ),
{
    let part = frame(payload).subrange(0, k);
    let n = payload.len();
    if k >= HEADER_LEN {
        assert(part[0] == (n / 256) as u8);
        assert(part[1] == (n % 256) as u8);
    }
}

/// No over-consumption: a frame followed by the first `k` bytes of a second
/// frame, short of the whole of it, decodes to the first payload and leaves
/// exactly those `k` bytes, on which the next attempt hands out nothing.
pub proof fn lemma_no_over_consumption(first: Seq<u8>, second: Seq<u8>, k: int)
    requires
        first.len() <= MAX_PAYLOAD_LEN,
        second.len() <= MAX_PAYLOAD_LEN,
        0 <= k < frame(second).len(),
    ensures
        decode_step(frame(first) + frame(second).subrange(0, k)) == (
            Some(first),
            frame(second).subrange(0, k),
        ),
        decode_step(frame(second).subrange(0, k)) == (
            None::<Seq<u8>>,
            frame(second).subrange(0, k),
        ),
{
    lemma_frame_then_tail(first, frame(second).subrange(0, k));
    lemma_prefix_incomplete(second, k);
}

/// Chunks that hold no bytes hand out nothing and leave an empty buffer
/// empty.
proof fn lemma_feed_nothing(chunks: Seq<Seq<u8>>)
    requires
        concat(chunks).len() == 0,
    ensures
        feed(Seq::empty(), chunks) == (Seq::<Seq<u8>>::empty(), Seq::<u8>::empty()),
    decreases chunks.len(),
{
    if chunks.len() > 0 {
        assert(Seq::<u8>::empty() + chunks[0] =~= Seq::<u8>::empty());
        lemma_feed_nothing(chunks.drop_first());
    }
}

/// With part of a frame buffered and the rest of it still to come in
/// `chunks`, the receive loop hands out the payload once and ends empty.
proof fn lemma_feed_rest(payload: Seq<u8>, buf: Seq<u8>, chunks: Seq<Seq<u8>>)
    requires
        payload.len() <= MAX_PAYLOAD_LEN,
        buf + concat(chunks) == frame(payload),
        buf.len() < frame(payload).len(),
    ensures
        feed(buf, chunks) == (seq![payload], Seq::<u8>::empty()),
    decreases chunks.len(),
{
    let whole = frame(payload);
    assert(chunks.len() > 0);
    let next = buf + chunks[0];
    let rest = chunks.drop_first();
    assert(next + concat(rest) =~= whole);
    if next.len() == whole.len() {
        assert(next =~= whole);
        lemma_round_trip(payload);
        lemma_feed_nothing(rest);
        assert(seq![payload] + Seq::<Seq<u8>>::empty() =~= seq![payload]);
    } else {
        assert(next =~= whole.subrange(0, next.len() as int));
        lemma_prefix_incomplete(payload, next.len() as int);
        lemma_feed_rest(payload, next, rest);
    }
}

/// Incremental feed: however the bytes of a frame are cut into chunks, empty
/// ones included, a receive loop that starts on an empty buffer hands out
/// the payload exactly once, as it would had the frame arrived in one
/// piece, and ends with an empty buffer.
pub proof fn lemma_incremental_feed(payload: Seq<u8>, chunks: Seq<Seq<u8>>)
    requires
        payload.len() <= MAX_PAYLOAD_LEN,
        concat(chunks) == frame(payload),
    ensures
        feed(Seq::empty(), chunks) == (seq![payload], Seq::<u8>::empty()),
        feed(Seq::empty(), seq![frame(payload)]) == feed(Seq::empty(), chunks),
{
    assert(Seq::<u8>::empty() + concat(chunks) =~= frame(payload));
    lemma_feed_rest(payload, Seq::empty(), chunks);
    let once = seq![frame(payload)];
    assert(concat(once.drop_first()) =~= Seq::<u8>::empty());
    assert(concat(once) =~= frame(payload));
    assert(Seq::<u8>::empty() + concat(once) =~= frame(payload));
    lemma_feed_rest(payload, Seq::empty(), once);
}

/// Waiting is idempotent: on a buffer without a whole frame, any number of
/// attempts in a row leave the buffer as it is, and the next one hands out
/// nothing again.
pub proof fn lemma_incomplete_is_stable(buf: Seq<u8>, n: nat)
    requires
        !has_frame(buf),
    ensures
        retried(buf, n) == buf,
        decode_step(retried(buf, n)) == (None::<Seq<u8>>, buf),
    decreases n,
{
    if n > 0 {
        lemma_incomplete_is_stable(buf, (n - 1) as nat);
    }
}

} // verus!
