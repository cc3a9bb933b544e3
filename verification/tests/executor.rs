use deplorable::executor::{BuildExecutor, Report, Step, INITIAL_DELAY_MS, MAX_DELAY_MS};

fn sleep_of(step: Step) -> u64 {
    match step {
        Step::Sleep(millis) => millis,
        other => panic!("expected a wait, got {:?}", other),
    }
}

#[test]
fn a_build_begins_by_resolving() {
    let executor = BuildExecutor::new();
    assert!(matches!(executor.begin(), Step::Resolve));
    assert_eq!(executor.delay_ms(), 200);
}

#[test]
fn the_waiting_limits_are_as_documented() {
    assert_eq!(INITIAL_DELAY_MS, 200);
    assert_eq!(MAX_DELAY_MS, 1_800_000);
    assert_eq!(MAX_DELAY_MS, 30 * 60 * 1000);
}

#[test]
fn a_resolved_location_is_built() {
    let mut executor = BuildExecutor::new();
    match executor.advance(Report::Resolved(Some("https://example.org/src.tar.gz".to_string()))) {
        Step::Invoke(location) => assert_eq!(location, "https://example.org/src.tar.gz"),
        other => panic!("expected a build, got {:?}", other),
    }
    assert_eq!(executor.delay_ms(), 200);
}

#[test]
fn a_successful_build_is_the_end() {
    let mut executor = BuildExecutor::new();
    assert!(matches!(executor.advance(Report::Built(true)), Step::Done));
    assert_eq!(executor.delay_ms(), 200);
}

#[test]
fn after_a_wait_the_location_is_resolved_again() {
    let mut executor = BuildExecutor::new();
    assert_eq!(sleep_of(executor.advance(Report::Resolved(None))), 200);
    assert!(matches!(executor.advance(Report::Slept), Step::Resolve));
    assert_eq!(executor.delay_ms(), 400);
}

#[test]
fn waits_double_up_to_half_an_hour() {
    let mut executor = BuildExecutor::new();
    let expected: [u64; 17] = [
        200, 400, 800, 1_600, 3_200, 6_400, 12_800, 25_600, 51_200, 102_400, 204_800, 409_600, 819_200,
        1_638_400, 1_800_000, 1_800_000, 1_800_000,
    ];
    for wait in expected {
        assert_eq!(sleep_of(executor.advance(Report::Resolved(None))), wait);
        assert!(matches!(executor.advance(Report::Slept), Step::Resolve));
    }
}

#[test]
fn failed_builds_wait_like_failed_resolutions() {
    let mut executor = BuildExecutor::new();
    let expected: [u64; 16] = [
        200, 400, 800, 1_600, 3_200, 6_400, 12_800, 25_600, 51_200, 102_400, 204_800, 409_600, 819_200,
        1_638_400, 1_800_000, 1_800_000,
    ];
    for wait in expected {
        assert!(matches!(executor.advance(Report::Resolved(Some("x".to_string()))), Step::Invoke(_)));
        assert_eq!(sleep_of(executor.advance(Report::Built(false))), wait);
        assert!(matches!(executor.advance(Report::Slept), Step::Resolve));
    }
}

#[test]
fn both_kinds_of_failure_share_one_backoff() {
    let mut executor = BuildExecutor::new();
    assert_eq!(sleep_of(executor.advance(Report::Resolved(None))), 200);
    assert!(matches!(executor.advance(Report::Slept), Step::Resolve));
    assert!(matches!(executor.advance(Report::Resolved(Some("x".to_string()))), Step::Invoke(_)));
    assert_eq!(sleep_of(executor.advance(Report::Built(false))), 400);
    assert!(matches!(executor.advance(Report::Slept), Step::Resolve));
    assert_eq!(sleep_of(executor.advance(Report::Resolved(None))), 800);
    assert!(matches!(executor.advance(Report::Slept), Step::Resolve));
    assert!(matches!(executor.advance(Report::Resolved(Some("x".to_string()))), Step::Invoke(_)));
    assert!(matches!(executor.advance(Report::Built(true)), Step::Done));
}

#[test]
fn waits_never_shrink_and_never_pass_the_limit() {
    let mut executor = BuildExecutor::new();
    let mut last = 0;
    for round in 0..100 {
        let report = if round % 3 == 0 { Report::Built(false) } else { Report::Resolved(None) };
        let wait = sleep_of(executor.advance(report));
        assert!(wait >= last);
        assert!(wait >= 200);
        assert!(wait <= 1_800_000);
        last = wait;
    }
    assert_eq!(last, 1_800_000);
}

#[test]
fn each_build_starts_its_backoff_anew() {
    let mut first = BuildExecutor::new();
    assert_eq!(sleep_of(first.advance(Report::Resolved(None))), 200);
    assert_eq!(sleep_of(first.advance(Report::Resolved(None))), 400);
    let mut second = BuildExecutor::new();
    assert_eq!(sleep_of(second.advance(Report::Resolved(None))), 200);
}
