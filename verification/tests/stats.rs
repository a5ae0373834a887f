use ssping::stats::Counts;
use ssping::stats::ProbeError;
use ssping::stats::ProbeResult;
use ssping::stats::aggregate;
use ssping::stats::classify;
use ssping::stats::exit_code;

#[test]
fn classification_follows_the_2xx_rule() {
    assert_eq!(classify(Ok(204)), ProbeResult::Success(204));
    assert_eq!(classify(Ok(200)), ProbeResult::Success(200));
    assert_eq!(classify(Ok(299)), ProbeResult::Success(299));
    assert_eq!(classify(Ok(199)), ProbeResult::HttpError(199));
    assert_eq!(classify(Ok(300)), ProbeResult::HttpError(300));
    assert_eq!(classify(Ok(404)), ProbeResult::HttpError(404));
    assert_eq!(classify(Err(ProbeError::Connect)), ProbeResult::Failure(ProbeError::Connect));
}

#[test]
fn record_keeps_counters_balanced() {
    let mut c = Counts::new();
    c.record(&ProbeResult::Success(204));
    c.record(&ProbeResult::HttpError(500));
    c.record(&ProbeResult::Failure(ProbeError::Send));
    assert_eq!(c.total, 3);
    assert_eq!(c.success, 1);
    assert_eq!(c.error, 2);
    assert_eq!(c.total, c.success + c.error);
}

#[test]
fn count_limit_stops_exactly_at_n() {
    let outcomes = vec![
        ProbeResult::Success(204),
        ProbeResult::HttpError(500),
        ProbeResult::Failure(ProbeError::Connect),
        ProbeResult::Success(200),
        ProbeResult::Success(200),
    ];
    let c = aggregate(&outcomes, Some(3));
    assert_eq!(c.total, 3);
    assert_eq!(c.success, 1);
    assert_eq!(c.error, 2);
}

#[test]
fn without_limit_all_outcomes_are_recorded() {
    let outcomes = vec![ProbeResult::Success(204); 4];
    let c = aggregate(&outcomes, None);
    assert_eq!(c.total, 4);
    assert_eq!(c.success, 4);
    assert_eq!(c.error, 0);
}

#[test]
fn should_continue_respects_the_limit() {
    let mut c = Counts::new();
    assert!(c.should_continue(Some(1)));
    assert!(c.should_continue(None));
    c.record(&ProbeResult::Success(204));
    assert!(!c.should_continue(Some(1)));
    assert!(c.should_continue(None));
}

#[test]
fn unreachable_proxy_three_probes_all_error() {
    let outcomes = vec![ProbeResult::Failure(ProbeError::Connect); 3];
    let c = aggregate(&outcomes, Some(3));
    assert_eq!(c.total, 3);
    assert_eq!(c.success, 0);
    assert_eq!(c.error, 3);
    assert_eq!(exit_code(false, &c), 1);
}

#[test]
fn single_probe_returning_204_exits_zero() {
    let outcomes = vec![classify(Ok(204))];
    let c = aggregate(&outcomes, Some(1));
    assert_eq!(c.total, 1);
    assert_eq!(exit_code(false, &c), 0);
}

#[test]
fn single_probe_returning_error_status_exits_one() {
    let outcomes = vec![classify(Ok(500))];
    let c = aggregate(&outcomes, Some(1));
    assert_eq!(c.total, 1);
    assert_eq!(exit_code(false, &c), 1);
}

#[test]
fn interruption_after_two_probes_keeps_their_counts() {
    // An unbounded run cut short externally: only the two completed probes
    // are reflected, and the exit code comes from them, not from the cut.
    let completed = vec![ProbeResult::Success(204), ProbeResult::HttpError(500)];
    let c = aggregate(&completed, None);
    assert_eq!(c.total, 2);
    assert_eq!(c.success, 1);
    assert_eq!(c.error, 1);
    assert_eq!(exit_code(false, &c), 0);
}

#[test]
fn exit_codes() {
    let none = Counts::new();
    assert_eq!(exit_code(true, &none), 2);
    assert_eq!(exit_code(false, &none), 1);
    let mut some = Counts::new();
    some.record(&ProbeResult::Success(200));
    assert_eq!(exit_code(false, &some), 0);
    assert_eq!(exit_code(true, &some), 2);
    let mut failed = Counts::new();
    failed.record(&ProbeResult::HttpError(404));
    assert_eq!(exit_code(false, &failed), 1);
}
