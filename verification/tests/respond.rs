use pi_estimator::respond::{
    decide_fallback, decide_points_request, decision_status, fallback_message, rejection_message,
    stream_content_type, FallbackDecision, PointsDecision,
};

#[test]
fn zero_points_is_rejected_with_400_and_no_stream() {
    let d = decide_points_request(Some(0));
    assert!(matches!(d, PointsDecision::Reject));
    assert_eq!(decision_status(&d), 400);
    assert_eq!(rejection_message(), "Provide n");
}

#[test]
fn positive_count_starts_a_bounded_stream_with_200() {
    let d = decide_points_request(Some(1000));
    assert!(matches!(
        d,
        PointsDecision::Stream {
            limit: Some(1000)
        }
    ));
    assert_eq!(decision_status(&d), 200);
}

#[test]
fn absent_count_starts_an_unbounded_stream() {
    let d = decide_points_request(None);
    assert!(matches!(d, PointsDecision::Stream { limit: None }));
    assert_eq!(decision_status(&d), 200);
}

#[test]
fn stream_bodies_are_octet_streams() {
    assert_eq!(stream_content_type(), "application/octet-stream");
}

#[test]
fn fallback_serves_assets_only_from_an_existing_configured_directory() {
    assert_eq!(decide_fallback(true, true), FallbackDecision::ServeAssets);
    assert_eq!(decide_fallback(true, false), FallbackDecision::FixedResponse);
    assert_eq!(decide_fallback(false, false), FallbackDecision::FixedResponse);
}

#[test]
fn unmatched_route_without_assets_gets_the_fixed_text() {
    assert_eq!(fallback_message(), "No frontend found");
}
