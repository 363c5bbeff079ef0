use holiday_scraper::scraper_client::{FetchAction, FetchSession, ScraperClientStats};

#[test]
fn test_retry_bound_exhausts_after_max_retries_plus_one() {
    let max_retries: u8 = 3;
    let mut session = FetchSession::new(max_retries);
    let mut stats = ScraperClientStats::new();

    for _ in 0..3 {
        let action = session.on_attempt(false, &mut stats);
        assert_eq!(action, FetchAction::SleepThenRetry);
        assert!(!session.finished);
        assert_eq!(stats.total_requests, 0, "a retry records nothing");
    }
    let action = session.on_attempt(false, &mut stats);
    assert_eq!(action, FetchAction::FailExhausted);
    assert!(session.finished);
    assert_eq!(session.attempts, 4, "exactly max_retries + 1 attempts");
    assert_eq!(stats.total_requests, 1);
    assert_eq!(stats.failed_requests, 1);
    assert_eq!(stats.successful_requests, 0);
}

#[test]
fn test_success_after_some_failures() {
    let max_retries: u8 = 3;
    let mut session = FetchSession::new(max_retries);
    let mut stats = ScraperClientStats::new();

    for _ in 0..2 {
        let action = session.on_attempt(false, &mut stats);
        assert_eq!(action, FetchAction::SleepThenRetry);
    }
    let action = session.on_attempt(true, &mut stats);
    assert_eq!(action, FetchAction::ReturnBody);
    assert!(session.finished, "no further attempts are made");
    assert_eq!(session.attempts, 3);
    assert_eq!(stats.total_requests, 1, "one statistics update per fetch");
    assert_eq!(stats.successful_requests, 1);
    assert_eq!(stats.failed_requests, 0);
}

#[test]
fn test_immediate_success() {
    let mut session = FetchSession::new(0);
    let mut stats = ScraperClientStats::new();
    let action = session.on_attempt(true, &mut stats);
    assert_eq!(action, FetchAction::ReturnBody);
    assert_eq!(session.attempts, 1);
    assert_eq!(stats.successful_requests, 1);
    assert_eq!(stats.total_requests, 1);
}

#[test]
fn test_zero_retries_fails_on_first_failure() {
    let mut session = FetchSession::new(0);
    let mut stats = ScraperClientStats::new();
    let action = session.on_attempt(false, &mut stats);
    assert_eq!(action, FetchAction::FailExhausted);
    assert_eq!(session.attempts, 1);
    assert_eq!(stats.failed_requests, 1);
}

#[test]
fn test_stats_record_counters() {
    let mut stats = ScraperClientStats::new();
    stats.record_success();
    stats.record_failure();
    stats.record_failure();
    assert_eq!(stats.total_requests, 3);
    assert_eq!(stats.successful_requests, 1);
    assert_eq!(stats.failed_requests, 2);
}
