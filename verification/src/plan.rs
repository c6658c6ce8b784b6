//! The chunking plan of a streaming session.
//!
//! A session owes a client either a fixed number of points or an unbounded
//! stream. The generator delivers the points in chunks of at most
//! [`POINTS_PER_CHUNK`] points; for a bounded session the sequence of chunk
//! sizes is fully determined by the total count, and this module states that
//! plan and proves the two facts the HTTP surface promises about it: a full
//! read is exactly `8·n` bytes, and any partial read is a whole number of
//! records.

use crate::point::BYTES_PER_POINT;
use vstd::arithmetic::div_mod::{lemma_add_mod_noop, lemma_mod_multiples_basic};
use vstd::prelude::*;

verus! {

/// Number of points the generator packs into one full chunk.
pub const POINTS_PER_CHUNK: usize = 4096;

/// Number of bytes in one full chunk.
pub const CHUNK_BYTES: usize = POINTS_PER_CHUNK * BYTES_PER_POINT;

/// Points the generator puts into the next chunk when `remaining` points are
/// still owed: a full chunk, or all that is left if less remains.
pub open spec fn next_chunk_points(remaining: nat) -> nat {
    if remaining < POINTS_PER_CHUNK {
        remaining
    } else {
        POINTS_PER_CHUNK as nat
    }
}

/// The point counts of the chunks of a bounded session of `n` points that
/// runs to completion: full chunks, then the remainder if any.
pub open spec fn chunk_plan(n: nat) -> Seq<nat>
    decreases n,
{
    if n == 0 {
        Seq::empty()
    } else {
        seq![next_chunk_points(n)] + chunk_plan((n - next_chunk_points(n)) as nat)
    }
}

/// Total number of points over a sequence of chunk counts.
pub open spec fn total_points(counts: Seq<nat>) -> nat
    decreases counts.len(),
{
    if counts.len() == 0 {
        0
    } else {
        counts[0] + total_points(counts.drop_first())
    }
}

pub proof fn lemma_total_points_prepend(c: nat, counts: Seq<nat>)
    ensures
        total_points(seq![c] + counts) == c + total_points(counts),
{
    let s = seq![c] + counts;
    assert(s.drop_first() =~= counts);
}

/// The plan of a bounded session accounts for every point exactly once.
pub proof fn lemma_chunk_plan_total(n: nat)
    ensures
        total_points(chunk_plan(n)) == n,
    decreases n,
{
    if n != 0 {
        let rest = (n - next_chunk_points(n)) as nat;
        lemma_chunk_plan_total(rest);
        lemma_total_points_prepend(next_chunk_points(n), chunk_plan(rest));
    }
}

/// `chunks` carry exactly the point counts `counts`: record-for-record, the
/// i-th chunk holds the bytes of `counts[i]` points.
pub open spec fn chunks_match_counts(chunks: Seq<Seq<u8>>, counts: Seq<nat>) -> bool {
    &&& chunks.len() == counts.len()
    &&& forall|i: int|
        0 <= i < chunks.len() ==> #[trigger] chunks[i].len() == BYTES_PER_POINT * counts[i]
}

pub proof fn lemma_flatten_len_matching(chunks: Seq<Seq<u8>>, counts: Seq<nat>)
    requires
        chunks_match_counts(chunks, counts),
    ensures
        chunks.flatten().len() == BYTES_PER_POINT * total_points(counts),
    decreases chunks.len(),
{
    if chunks.len() > 0 {
        assert(chunks.flatten() == chunks.first() + chunks.drop_first().flatten());
        assert forall|i: int| 0 <= i < chunks.drop_first().len() implies #[trigger] chunks.drop_first()[i].len()
            == BYTES_PER_POINT * counts.drop_first()[i] by {
            assert(chunks.drop_first()[i] == chunks[i + 1]);
            assert(counts.drop_first()[i] == counts[i + 1]);
        }
        lemma_flatten_len_matching(chunks.drop_first(), counts.drop_first());
    }
}

/// LAW — full read of a bounded stream: a session of `n` points whose chunks
/// follow the plan to completion delivers exactly `8·n` body bytes.
pub proof fn lemma_completed_session_bytes(chunks: Seq<Seq<u8>>, n: nat)
    requires
        chunks_match_counts(chunks, chunk_plan(n)),
    ensures
        chunks.flatten().len() == BYTES_PER_POINT * n,
{
    lemma_flatten_len_matching(chunks, chunk_plan(n));
    lemma_chunk_plan_total(n);
}

/// Every chunk in `chunks` is a whole number of 8-byte records.
pub open spec fn whole_record_chunks(chunks: Seq<Seq<u8>>) -> bool {
    forall|i: int|
        0 <= i < chunks.len() ==> #[trigger] chunks[i].len() % (BYTES_PER_POINT as nat) == 0
}

/// Chunks that carry whole point counts are made of whole records.
pub proof fn lemma_matching_chunks_whole_records(chunks: Seq<Seq<u8>>, counts: Seq<nat>)
    requires
        chunks_match_counts(chunks, counts),
    ensures
        whole_record_chunks(chunks),
{
    assert forall|i: int| 0 <= i < chunks.len() implies #[trigger] chunks[i].len() % (
    BYTES_PER_POINT as nat) == 0 by {
        lemma_mod_multiples_basic(counts[i] as int, BYTES_PER_POINT as int);
    }
}

/// LAW — however much of a stream a client saw, complete or cut short by a
/// disconnect, the body length is a whole number of 8-byte records.
pub proof fn lemma_stream_bytes_whole_records(chunks: Seq<Seq<u8>>)
    requires
        whole_record_chunks(chunks),
    ensures
        chunks.flatten().len() % (BYTES_PER_POINT as nat) == 0,
    decreases chunks.len(),
{
    if chunks.len() > 0 {
        assert(chunks.flatten() == chunks.first() + chunks.drop_first().flatten());
        assert forall|i: int| 0 <= i < chunks.drop_first().len() implies #[trigger] chunks.drop_first()[i].len()
            % (BYTES_PER_POINT as nat) == 0 by {
            assert(chunks.drop_first()[i] == chunks[i + 1]);
        }
        lemma_stream_bytes_whole_records(chunks.drop_first());
        lemma_add_mod_noop(
            chunks.first().len() as int,
            chunks.drop_first().flatten().len() as int,
            BYTES_PER_POINT as int,
        );
    }
}

/// LAW — full read, in the shape the generator's contract gives it: chunks
/// that follow the plan of `n` to its full length flatten to exactly `8·n`
/// body bytes.
pub proof fn lemma_full_plan_prefix_bytes(chunks: Seq<Seq<u8>>, n: nat)
    requires
        chunks.len() == chunk_plan(n).len(),
        chunks_match_counts(chunks, chunk_plan(n).take(chunks.len() as int)),
    ensures
        chunks.flatten().len() == BYTES_PER_POINT * n,
{
    assert(chunk_plan(n).take(chunks.len() as int) =~= chunk_plan(n));
    lemma_completed_session_bytes(chunks, n);
}

/// LAW — a client that reads a completed bounded session of `n` points to
/// the end decodes exactly `n` point records from the body, however it cut
/// its reads.
pub proof fn lemma_full_read_point_count(chunks: Seq<Seq<u8>>, n: nat)
    requires
        chunks.len() == chunk_plan(n).len(),
        chunks_match_counts(chunks, chunk_plan(n).take(chunks.len() as int)),
    ensures
        crate::point::decoded_points(chunks.flatten()).len() == n,
{
    lemma_full_plan_prefix_bytes(chunks, n);
    assert((n * (BYTES_PER_POINT as nat)) / (BYTES_PER_POINT as nat) == n) by (nonlinear_arith);
}

/// LAW — partial read: chunks that carry whole point counts — any prefix of
/// a session, complete or cut short — flatten to a whole number of records.
pub proof fn lemma_counted_chunks_whole_records(chunks: Seq<Seq<u8>>, counts: Seq<nat>)
    requires
        chunks_match_counts(chunks, counts),
    ensures
        chunks.flatten().len() % (BYTES_PER_POINT as nat) == 0,
{
    lemma_matching_chunks_whole_records(chunks, counts);
    lemma_stream_bytes_whole_records(chunks);
}

} // verus!
