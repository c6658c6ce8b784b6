//! The wire format of a point record.
//!
//! A point is two 32-bit unsigned coordinates. On the wire it is exactly
//! 8 bytes: the little-endian bytes of `x`, then the little-endian bytes of
//! `y`. A body is a plain concatenation of records with no framing, header,
//! or terminator, so a client may read it at any granularity.

use vstd::bytes::*;
use vstd::prelude::*;

verus! {

/// Number of bytes in the wire record of one point: two little-endian `u32`s.
pub const BYTES_PER_POINT: usize = 8;

/// One sample: a pair of coordinates in the generator's native range.
#[derive(Clone, Copy, PartialEq, Eq, Structural, Debug)]
pub struct Point {
    pub x: u32,
    pub y: u32,
}

/// Wire record of one point: `x` then `y`, each little endian.
pub open spec fn point_bytes(p: Point) -> Seq<u8> {
    spec_u32_to_le_bytes(p.x) + spec_u32_to_le_bytes(p.y)
}

pub proof fn lemma_point_bytes_len(p: Point)
    ensures
        point_bytes(p).len() == BYTES_PER_POINT,
{
    lemma_auto_spec_u32_to_from_le_bytes();
}

/// Wire form of a whole sequence of points: concatenated records, nothing
/// between or around them.
pub open spec fn points_bytes(ps: Seq<Point>) -> Seq<u8>
    decreases ps.len(),
{
    if ps.len() == 0 {
        Seq::empty()
    } else {
        point_bytes(ps[0]) + points_bytes(ps.drop_first())
    }
}

pub proof fn lemma_points_bytes_len(ps: Seq<Point>)
    ensures
        points_bytes(ps).len() == BYTES_PER_POINT * ps.len(),
    decreases ps.len(),
{
    if ps.len() > 0 {
        lemma_point_bytes_len(ps[0]);
        lemma_points_bytes_len(ps.drop_first());
    }
}

pub proof fn lemma_points_bytes_push(ps: Seq<Point>, p: Point)
    ensures
        points_bytes(ps.push(p)) == points_bytes(ps) + point_bytes(p),
    decreases ps.len(),
{
    if ps.len() == 0 {
        assert(ps.push(p)[0] == p);
        assert(ps.push(p).drop_first() =~= Seq::<Point>::empty());
        assert(points_bytes(Seq::<Point>::empty()) == Seq::<u8>::empty());
        assert(points_bytes(ps.push(p)) == point_bytes(p) + Seq::<u8>::empty());
        assert(points_bytes(ps.push(p)) =~= points_bytes(ps) + point_bytes(p));
    } else {
        assert(ps.push(p)[0] == ps[0]);
        assert(ps.push(p).drop_first() =~= ps.drop_first().push(p));
        lemma_points_bytes_push(ps.drop_first(), p);
        assert(points_bytes(ps.push(p)) == point_bytes(ps[0]) + points_bytes(
            ps.drop_first().push(p),
        ));
        assert(points_bytes(ps.push(p)) =~= points_bytes(ps) + point_bytes(p));
    }
}

/// The point stored at record index `i` of a body.
pub open spec fn point_at(bytes: Seq<u8>, i: int) -> Point {
    Point {
        x: spec_u32_from_le_bytes(bytes.subrange(8 * i, 8 * i + 4)),
        y: spec_u32_from_le_bytes(bytes.subrange(8 * i + 4, 8 * i + 8)),
    }
}

/// The records a client reads back from a body, in order. Meaningful for
/// bodies made of whole records, which is all this library ever emits.
pub open spec fn decoded_points(bytes: Seq<u8>) -> Seq<Point> {
    Seq::new(bytes.len() / (BYTES_PER_POINT as nat), |i: int| point_at(bytes, i))
}

/// Encoding one point and decoding it gives the point back.
pub proof fn lemma_point_round_trip(p: Point)
    ensures
        decoded_points(point_bytes(p)) == seq![p],
{
    lemma_auto_spec_u32_to_from_le_bytes();
    let b = point_bytes(p);
    assert(b.subrange(0, 4) =~= spec_u32_to_le_bytes(p.x));
    assert(b.subrange(4, 8) =~= spec_u32_to_le_bytes(p.y));
    assert(decoded_points(b) =~= seq![p]);
}

/// Record boundaries are invisible to the reader: decoding a body split at
/// any whole-record position is decoding the two parts separately. With
/// this, how a body was cut into chunks cannot change what a client decodes.
pub proof fn lemma_decoded_points_append(a: Seq<u8>, b: Seq<u8>)
    requires
        a.len() % (BYTES_PER_POINT as nat) == 0,
    ensures
        decoded_points(a + b) == decoded_points(a) + decoded_points(b),
{
    let k = a.len() / (BYTES_PER_POINT as nat);
    assert(a.len() == 8 * k);
    assert((8 * k + b.len()) / 8 == k + b.len() / 8) by (nonlinear_arith);
    assert forall|i: int| 0 <= i < k implies point_at(a + b, i) == point_at(a, i) by {
        assert((a + b).subrange(8 * i, 8 * i + 4) =~= a.subrange(8 * i, 8 * i + 4));
        assert((a + b).subrange(8 * i + 4, 8 * i + 8) =~= a.subrange(8 * i + 4, 8 * i + 8));
    }
    assert forall|i: int| k <= i < k + b.len() / 8 implies point_at(a + b, i) == point_at(
        b,
        i - k,
    ) by {
        assert((a + b).subrange(8 * i, 8 * i + 4) =~= b.subrange(
            8 * (i - k),
            8 * (i - k) + 4,
        ));
        assert((a + b).subrange(8 * i + 4, 8 * i + 8) =~= b.subrange(
            8 * (i - k) + 4,
            8 * (i - k) + 8,
        ));
    }
    assert(decoded_points(a + b) =~= decoded_points(a) + decoded_points(b));
}

/// Encoding any sequence of points and decoding the body gives the sequence
/// back: the wire format loses nothing and invents nothing.
pub proof fn lemma_points_round_trip(ps: Seq<Point>)
    ensures
        decoded_points(points_bytes(ps)) == ps,
    decreases ps.len(),
{
    if ps.len() == 0 {
        assert(decoded_points(points_bytes(ps)) =~= ps);
    } else {
        lemma_point_bytes_len(ps[0]);
        lemma_decoded_points_append(point_bytes(ps[0]), points_bytes(ps.drop_first()));
        lemma_point_round_trip(ps[0]);
        lemma_points_round_trip(ps.drop_first());
        assert(decoded_points(points_bytes(ps)) =~= ps);
    }
}

/// Appends the 8-byte record of `p` to a byte buffer.
pub fn push_point(buf: &mut Vec<u8>, p: Point)
    ensures
        final(buf)@ == old(buf)@ + point_bytes(p),
{
    let mut xb = u32_to_le_bytes(p.x);
    let mut yb = u32_to_le_bytes(p.y);
    buf.append(&mut xb);
    buf.append(&mut yb);
    assert(buf@ =~= old(buf)@ + point_bytes(p));
}

} // verus!
