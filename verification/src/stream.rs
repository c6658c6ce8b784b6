//! The point stream generator and its hand-off to the HTTP response.
//!
//! One streaming session owns the send side of a queue; an unverified relay
//! task owns the receive side and forwards chunks to the socket. The
//! generator loop here fills chunks with freshly drawn points and hands them
//! to the queue until the session's point count is exhausted or the receiver
//! has gone away. [`ChunkSink`] keeps, as ghost state, the exact sequence of
//! chunks the queue accepted, so the loop's contract can pin the whole
//! session against the chunk plan of [`crate::plan`].

use crate::plan::{
    chunk_plan, chunks_match_counts, next_chunk_points, CHUNK_BYTES, POINTS_PER_CHUNK,
};
use crate::point::{points_bytes, push_point, Point, BYTES_PER_POINT};
use tokio::sync::mpsc::UnboundedSender;
use vstd::prelude::*;

verus! {

/// Declares `bytes::Bytes` to Verus: an opaque byte container whose contents
/// are reached only through [`bytes_content`].
#[verifier::external_type_specification]
#[verifier::external_body]
pub struct ExBytes(bytes::Bytes);

/// Declares `tokio::sync::mpsc::UnboundedSender` to Verus: the send half of
/// a session's hand-off queue, opaque here.
#[verifier::external_type_specification]
#[verifier::external_body]
#[verifier::reject_recursive_types(T)]
pub struct ExUnboundedSender<T>(UnboundedSender<T>);

/// Declares `rand::rngs::ThreadRng` to Verus: a handle to the calling
/// thread's random generator, opaque here.
#[verifier::external_type_specification]
#[verifier::external_body]
pub struct ExThreadRng(rand::rngs::ThreadRng);

/// The bytes a `bytes::Bytes` handle holds.
pub uninterp spec fn bytes_content(b: bytes::Bytes) -> Seq<u8>;

/// Relies on `bytes::Bytes: From<Vec<u8>>`: the handle it returns holds
/// exactly the vector's bytes, unchanged and in order.
#[verifier::external_body]
fn bytes_from_vec(v: Vec<u8>) -> (b: bytes::Bytes)
    ensures
        bytes_content(b) == v@,
{
    bytes::Bytes::from(v)
}

/// Relies on `rand::rng()`: a handle to the calling thread's generator.
/// Nothing is assumed of the values it will produce.
#[verifier::external_body]
fn fresh_rng() -> rand::rngs::ThreadRng {
    rand::rng()
}

/// Relies on `rand::RngCore::next_u32` for `ThreadRng`: one draw from the
/// generator. The value is arbitrary; nothing is assumed of it, so every
/// caller is verified for every value that could come back.
#[verifier::external_body]
fn rng_next_u32(rng: &mut rand::rngs::ThreadRng) -> u32 {
    rand::RngCore::next_u32(rng)
}

/// Relies on `tokio::sync::mpsc::UnboundedSender::send`: it never blocks,
/// queues the message and returns `Ok` while the receive half is open, and
/// returns `Err` once the receiver was dropped or closed. Whether the
/// receiver is still there depends on the other task, so the result only
/// reports whether this chunk was accepted; callers are verified for both
/// outcomes.
#[verifier::external_body]
fn sender_send(tx: &UnboundedSender<bytes::Bytes>, chunk: bytes::Bytes) -> (accepted: bool) {
    tx.send(chunk).is_ok()
}

/// The generator's side of a session's hand-off queue, together with the
/// record of every chunk the queue has accepted, oldest first.
pub struct ChunkSink {
    tx: UnboundedSender<bytes::Bytes>,
    sent: Ghost<Seq<Seq<u8>>>,
}

impl ChunkSink {
    /// Chunks accepted by the queue so far, in delivery order.
    pub closed spec fn sent_chunks(self) -> Seq<Seq<u8>> {
        self.sent@
    }

    /// Wraps the send side of a fresh session queue.
    pub fn new(tx: UnboundedSender<bytes::Bytes>) -> (sink: Self)
        ensures
            sink.sent_chunks() == Seq::<Seq<u8>>::empty(),
    {
        ChunkSink { tx, sent: Ghost(Seq::empty()) }
    }

    /// Hands one chunk to the queue. Returns `true` while the receiver still
    /// listens; a rejected chunk is not delivered and not recorded.
    pub fn send(&mut self, chunk: Vec<u8>) -> (accepted: bool)
        ensures
            accepted ==> final(self).sent_chunks() == old(self).sent_chunks().push(chunk@),
            !accepted ==> final(self).sent_chunks() == old(self).sent_chunks(),
    {
        let ghost contents = chunk@;
        let handle = bytes_from_vec(chunk);
        let accepted = sender_send(&self.tx, handle);
        if accepted {
            self.sent = Ghost(self.sent@.push(contents));
        }
        accepted
    }
}

/// How a generation session ended.
#[derive(Clone, Copy, PartialEq, Eq, Structural, Debug)]
pub enum GenOutcome {
    /// A bounded session delivered every point it owed.
    Completed,
    /// The receiver went away; the session stopped early.
    Disconnected,
}

/// The generator loop of a bounded session: fills chunks with fresh random
/// points and hands them to the queue until the `n` points owed are
/// delivered or the receiver disconnects. Memory in flight stays at one
/// chunk, whatever `n` is.
///
/// The contract pins the whole session: the accepted chunks are exactly a
/// prefix of the chunk plan for `n` — the full plan if and only if the
/// session completed.
pub fn produce_points(n: usize, sink: &mut ChunkSink) -> (outcome: GenOutcome)
    ensures
        old(sink).sent_chunks().is_prefix_of(final(sink).sent_chunks()),
        ({
            let sent = final(sink).sent_chunks().skip(old(sink).sent_chunks().len() as int);
            let counts = chunk_plan(n as nat);
            &&& sent.len() <= counts.len()
            &&& chunks_match_counts(sent, counts.take(sent.len() as int))
            &&& (outcome is Completed <==> sent.len() == counts.len())
        }),
{
    let ghost base = sink.sent_chunks();
    let ghost counts = chunk_plan(n as nat);
    proof {
        assert(base.skip(base.len() as int) =~= Seq::<Seq<u8>>::empty());
        assert(counts.skip(0) =~= counts);
        assert(counts.take(0) =~= Seq::<nat>::empty());
    }
    let mut rng = fresh_rng();
    let mut remaining: usize = n;
    loop
        invariant
            base == old(sink).sent_chunks(),
            base.is_prefix_of(sink.sent_chunks()),
            ({
                let sent = sink.sent_chunks().skip(base.len() as int);
                &&& sent.len() <= counts.len()
                &&& chunks_match_counts(sent, counts.take(sent.len() as int))
                &&& chunk_plan(remaining as nat) == counts.skip(sent.len() as int)
            }),
            counts == chunk_plan(n as nat),
        decreases remaining,
    {
        let ghost sent_before = sink.sent_chunks().skip(base.len() as int);
        if remaining == 0 {
            proof {
                assert(counts.skip(sent_before.len() as int).len() == 0);
                assert(counts.take(sent_before.len() as int) =~= counts);
            }
            return GenOutcome::Completed;
        }
        let points: usize = if remaining < POINTS_PER_CHUNK {
            remaining
        } else {
            POINTS_PER_CHUNK
        };
        proof {
            assert(chunk_plan(remaining as nat).len() >= 1);
            assert(points == next_chunk_points(remaining as nat));
        }
        let chunk = fill_chunk(points, &mut rng);
        let ghost chunk_view = chunk@;
        if !sink.send(chunk) {
            proof {
                assert(counts.skip(sent_before.len() as int).len() >= 1);
            }
            return GenOutcome::Disconnected;
        }
        proof {
            let sent_now = sink.sent_chunks().skip(base.len() as int);
            let k = sent_before.len() as int;
            assert(sent_now =~= sent_before.push(chunk_view));
            assert(counts.skip(k).len() >= 1);
            assert(counts.skip(k)[0] == counts[k]);
            assert(counts[k] == next_chunk_points(remaining as nat));
            assert(chunk_plan((remaining - points) as nat) =~= counts.skip(k).drop_first());
            assert(counts.skip(k).drop_first() =~= counts.skip(k + 1));
            assert forall|i: int| 0 <= i < sent_now.len() implies #[trigger] sent_now[i].len()
                == BYTES_PER_POINT * counts.take(k + 1)[i] by {
                if i < k {
                    assert(sent_before[i].len() == BYTES_PER_POINT * counts.take(k)[i]);
                }
            }
        }
        remaining = remaining - points;
    }
}

/// One step of an unbounded session: fills a full chunk with fresh random
/// points and hands it to the queue. The driver of an unbounded session
/// repeats this step until the receiver goes away — that loop has no bound
/// of its own, by design, so it stands outside the verified core; each of
/// its steps is this function.
pub fn produce_next_chunk(sink: &mut ChunkSink) -> (accepted: bool)
    ensures
        accepted ==> final(sink).sent_chunks().drop_last() == old(sink).sent_chunks()
            && final(sink).sent_chunks().len() == old(sink).sent_chunks().len() + 1
            && final(sink).sent_chunks().last().len() == CHUNK_BYTES,
        !accepted ==> final(sink).sent_chunks() == old(sink).sent_chunks(),
{
    let mut rng = fresh_rng();
    let chunk = fill_chunk(POINTS_PER_CHUNK, &mut rng);
    let ghost before = sink.sent_chunks();
    let ghost chunk_view = chunk@;
    let accepted = sink.send(chunk);
    proof {
        if accepted {
            assert(before.push(chunk_view).drop_last() =~= before);
        }
    }
    accepted
}

/// Fills one chunk: `points` records, each drawn fresh from the generator.
/// The buffer that comes back is the wire form of `points` points — whole
/// records, nothing else.
pub fn fill_chunk(points: usize, rng: &mut rand::rngs::ThreadRng) -> (chunk: Vec<u8>)
    requires
        points <= POINTS_PER_CHUNK,
    ensures
        chunk@.len() == BYTES_PER_POINT * points,
        exists|ps: Seq<Point>| ps.len() == points && chunk@ == points_bytes(ps),
{
    let mut chunk: Vec<u8> = Vec::with_capacity(points * BYTES_PER_POINT);
    let ghost mut drawn: Seq<Point> = Seq::empty();
    proof {
        assert(chunk@ =~= points_bytes(drawn));
    }
    let mut i: usize = 0;
    while i < points
        invariant
            i <= points,
            chunk@.len() == BYTES_PER_POINT * i,
            drawn.len() == i,
            chunk@ == points_bytes(drawn),
        decreases points - i,
    {
        let x = rng_next_u32(rng);
        let y = rng_next_u32(rng);
        let p = Point { x, y };
        proof {
            crate::point::lemma_point_bytes_len(p);
            crate::point::lemma_points_bytes_push(drawn, p);
        }
        push_point(&mut chunk, p);
        proof {
            drawn = drawn.push(p);
        }
        i = i + 1;
    }
    chunk
}

} // verus!
