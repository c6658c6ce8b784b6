//! Request-level decisions of the HTTP surface.
//!
//! The surface is one data endpoint and a fallback: `/points` with an
//! optional count `n` streams point records, and every other route is served
//! from an asset directory when one is usable, else answered with a fixed
//! text. The functions here take the already-parsed request values and
//! decide status, body, and whether a stream starts; the transport around
//! them only carries the answers out.

use vstd::prelude::*;

verus! {

/// Status a starting stream is sent with.
pub const STATUS_OK: u16 = 200;

/// Status an invalid point count is answered with.
pub const STATUS_BAD_REQUEST: u16 = 400;

/// What the responder does with a `/points` request.
#[derive(Clone, Copy, Debug)]
pub enum PointsDecision {
    /// `n` was zero: answer with a client error; no stream is started.
    Reject,
    /// Start a stream: `Some(n)` delivers exactly `n` points, `None` is
    /// unbounded and runs until the client disconnects.
    Stream { limit: Option<usize> },
}

/// Validates the optional `n` parameter of a `/points` request: zero is
/// rejected before any stream starts, absence means unbounded, and any
/// positive count becomes the session's limit.
pub fn decide_points_request(n: Option<usize>) -> (d: PointsDecision)
    ensures
        d is Reject <==> n == Some(0usize),
        d matches PointsDecision::Stream { limit } ==> limit == n,
{
    match n {
        Some(0) => PointsDecision::Reject,
        _ => PointsDecision::Stream { limit: n },
    }
}

/// The HTTP status a decision is answered with: 400 for a rejected request,
/// 200 for a stream, sent before the first chunk.
pub fn decision_status(d: &PointsDecision) -> (status: u16)
    ensures
        status == (if d is Reject {
            STATUS_BAD_REQUEST
        } else {
            STATUS_OK
        }),
{
    match d {
        PointsDecision::Reject => STATUS_BAD_REQUEST,
        PointsDecision::Stream { .. } => STATUS_OK,
    }
}

/// Body of the rejection: tells the caller to pass a positive `n`.
pub fn rejection_message() -> (msg: &'static str)
    ensures
        msg@ == "Provide n"@,
{
    "Provide n"
}

/// Content type every stream body is sent with.
pub fn stream_content_type() -> (value: &'static str)
    ensures
        value@ == "application/octet-stream"@,
{
    "application/octet-stream"
}

/// What unmatched routes are served with.
#[derive(Clone, Copy, PartialEq, Eq, Structural, Debug)]
pub enum FallbackDecision {
    /// Serve files from the configured asset directory.
    ServeAssets,
    /// No usable asset directory: answer every unmatched route with a fixed
    /// 200 text response.
    FixedResponse,
}

/// Decides the fallback route: assets are served exactly when a directory is
/// configured and actually exists.
pub fn decide_fallback(dir_configured: bool, dir_exists: bool) -> (d: FallbackDecision)
    ensures
        d is ServeAssets <==> (dir_configured && dir_exists),
{
    if dir_configured && dir_exists {
        FallbackDecision::ServeAssets
    } else {
        FallbackDecision::FixedResponse
    }
}

/// Body served on unmatched routes when no asset directory is usable; it
/// goes out with status 200.
pub fn fallback_message() -> (msg: &'static str)
    ensures
        msg@ == "No frontend found"@,
{
    "No frontend found"
}

} // verus!
