use pi_estimator::plan::{CHUNK_BYTES, POINTS_PER_CHUNK};
use pi_estimator::stream::{produce_next_chunk, produce_points, ChunkSink, GenOutcome};
use tokio::sync::mpsc::unbounded_channel;

fn drain(rx: &mut tokio::sync::mpsc::UnboundedReceiver<bytes::Bytes>) -> Vec<bytes::Bytes> {
    let mut chunks = Vec::new();
    while let Ok(chunk) = rx.try_recv() {
        chunks.push(chunk);
    }
    chunks
}

#[test]
fn bounded_session_of_1000_points_is_8000_bytes() {
    let (tx, mut rx) = unbounded_channel::<bytes::Bytes>();
    let mut sink = ChunkSink::new(tx);
    let outcome = produce_points(1000, &mut sink);
    assert_eq!(outcome, GenOutcome::Completed);
    drop(sink);
    let chunks = drain(&mut rx);
    assert_eq!(chunks.len(), 1);
    let total: usize = chunks.iter().map(|c| c.len()).sum();
    assert_eq!(total, 8000);
}

#[test]
fn bounded_session_chunks_follow_the_plan() {
    // 5000 points: one full chunk of 4096 points, then the 904 left over.
    let (tx, mut rx) = unbounded_channel::<bytes::Bytes>();
    let mut sink = ChunkSink::new(tx);
    let outcome = produce_points(5000, &mut sink);
    assert_eq!(outcome, GenOutcome::Completed);
    drop(sink);
    let chunks = drain(&mut rx);
    let lens: Vec<usize> = chunks.iter().map(|c| c.len()).collect();
    assert_eq!(lens, vec![CHUNK_BYTES, 904 * 8]);
    for len in lens {
        assert_eq!(len % 8, 0);
    }
}

#[test]
fn session_of_zero_points_sends_nothing() {
    // The generator itself treats zero as "nothing owed"; the HTTP layer
    // rejects the request before any generator runs.
    let (tx, mut rx) = unbounded_channel::<bytes::Bytes>();
    let mut sink = ChunkSink::new(tx);
    let outcome = produce_points(0, &mut sink);
    assert_eq!(outcome, GenOutcome::Completed);
    drop(sink);
    assert!(drain(&mut rx).is_empty());
}

#[test]
fn disconnected_receiver_ends_a_bounded_session() {
    let (tx, rx) = unbounded_channel::<bytes::Bytes>();
    drop(rx);
    let mut sink = ChunkSink::new(tx);
    let outcome = produce_points(10, &mut sink);
    assert_eq!(outcome, GenOutcome::Disconnected);
}

#[test]
fn unbounded_step_sends_one_full_chunk() {
    let (tx, mut rx) = unbounded_channel::<bytes::Bytes>();
    let mut sink = ChunkSink::new(tx);
    assert!(produce_next_chunk(&mut sink));
    assert!(produce_next_chunk(&mut sink));
    drop(sink);
    let chunks = drain(&mut rx);
    assert_eq!(chunks.len(), 2);
    assert_eq!(chunks[0].len(), CHUNK_BYTES);
    assert_eq!(chunks[1].len(), CHUNK_BYTES);
    assert_eq!(CHUNK_BYTES, POINTS_PER_CHUNK * 8);
}

#[test]
fn client_leaving_after_one_chunk_stops_an_unbounded_session() {
    // The client reads one chunk (32768 bytes) and closes; the next delivery
    // attempt reports the disconnect and the session's driver stops. Nothing
    // hangs: the channel and both of its ends are gone when this test ends.
    let (tx, mut rx) = unbounded_channel::<bytes::Bytes>();
    let mut sink = ChunkSink::new(tx);
    assert!(produce_next_chunk(&mut sink));
    let first = rx.try_recv().expect("one chunk was delivered");
    assert_eq!(first.len(), CHUNK_BYTES);
    drop(rx);
    assert!(!produce_next_chunk(&mut sink));
}

#[test]
fn delivered_chunk_reaches_the_receiver_unchanged() {
    let (tx, mut rx) = unbounded_channel::<bytes::Bytes>();
    let mut sink = ChunkSink::new(tx);
    let payload: Vec<u8> = vec![1, 2, 3, 4, 5, 6, 7, 8];
    assert!(sink.send(payload.clone()));
    let received = rx.try_recv().expect("the chunk was accepted");
    assert_eq!(received.as_ref(), payload.as_slice());
}

#[test]
fn two_sessions_with_the_same_count_differ() {
    // Randomness sanity check across whole sessions.
    let run = || {
        let (tx, mut rx) = unbounded_channel::<bytes::Bytes>();
        let mut sink = ChunkSink::new(tx);
        assert_eq!(produce_points(100, &mut sink), GenOutcome::Completed);
        drop(sink);
        let mut body: Vec<u8> = Vec::new();
        for chunk in drain(&mut rx) {
            body.extend_from_slice(&chunk);
        }
        body
    };
    let a = run();
    let b = run();
    assert_eq!(a.len(), 800);
    assert_eq!(b.len(), 800);
    assert_ne!(a, b);
}
