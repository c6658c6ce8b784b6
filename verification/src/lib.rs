//! Verified core of a small HTTP service that streams pseudo-random 2D points
//! as raw binary data.
//!
//! The library holds everything the service decides or computes: the wire
//! format of a point record, the chunking plan of a streaming session, the
//! generator loop that fills and hands off chunks, and the request-level
//! decisions (parameter validation, fallback routing). The surrounding
//! process — sockets, routing tables, the async runtime — lives outside and
//! only calls in.

pub mod plan;
pub mod point;
pub mod respond;
pub mod stream;
