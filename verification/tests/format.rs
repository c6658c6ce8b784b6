use pi_estimator::point::{push_point, Point, BYTES_PER_POINT};
use pi_estimator::plan::{CHUNK_BYTES, POINTS_PER_CHUNK};
use pi_estimator::stream::fill_chunk;

#[test]
fn point_record_is_little_endian_x_then_y() {
    let mut buf: Vec<u8> = Vec::new();
    push_point(
        &mut buf,
        Point {
            x: 1,
            y: 0x0102_0304,
        },
    );
    assert_eq!(buf, vec![1, 0, 0, 0, 4, 3, 2, 1]);
}

#[test]
fn point_record_is_always_eight_bytes() {
    let mut buf: Vec<u8> = Vec::new();
    push_point(&mut buf, Point { x: 0, y: 0 });
    push_point(
        &mut buf,
        Point {
            x: u32::MAX,
            y: u32::MAX,
        },
    );
    assert_eq!(buf.len(), 2 * BYTES_PER_POINT);
    assert_eq!(&buf[8..16], &[0xff; 8]);
}

#[test]
fn record_boundaries_are_invisible_in_the_bytes() {
    // The same logical stream of points, assembled in one buffer and in two,
    // is byte-identical: how the writer groups records cannot be seen by a
    // reader of the concatenated bytes.
    let points = [
        Point { x: 7, y: 11 },
        Point {
            x: 0xdead_beef,
            y: 0x0bad_cafe,
        },
        Point { x: 0, y: u32::MAX },
    ];

    let mut whole: Vec<u8> = Vec::new();
    for p in points {
        push_point(&mut whole, p);
    }

    let mut first: Vec<u8> = Vec::new();
    push_point(&mut first, points[0]);
    let mut rest: Vec<u8> = Vec::new();
    push_point(&mut rest, points[1]);
    push_point(&mut rest, points[2]);
    let mut glued = first.clone();
    glued.extend_from_slice(&rest);

    assert_eq!(whole, glued);
}

#[test]
fn fill_chunk_length_is_eight_times_points() {
    let mut rng = rand::rng();
    assert_eq!(fill_chunk(0, &mut rng).len(), 0);
    assert_eq!(fill_chunk(5, &mut rng).len(), 40);
    assert_eq!(fill_chunk(POINTS_PER_CHUNK, &mut rng).len(), CHUNK_BYTES);
    assert_eq!(CHUNK_BYTES, 32768);
}

#[test]
fn two_full_chunks_differ() {
    // Randomness sanity check: two fresh chunks of 4096 points agree with
    // overwhelming improbability.
    let mut rng = rand::rng();
    let a = fill_chunk(POINTS_PER_CHUNK, &mut rng);
    let b = fill_chunk(POINTS_PER_CHUNK, &mut rng);
    assert_eq!(a.len(), b.len());
    assert_ne!(a, b);
}
