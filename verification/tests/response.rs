use zabbix::Response;

#[test]
fn test_response() {
    let resp = Response::new(
        "success".to_string(),
        Some("processed: 0; failed: 14; total: 14; seconds spent: 0.000172".to_string()),
    );

    assert!(resp.success());
    assert!(!resp.ok());
    assert_eq!(14, resp.total_cnt());
    assert_eq!(14, resp.failed_cnt());
    assert_eq!(0, resp.processed_cnt());

    let resp1 = Response::new(
        "success".to_string(),
        Some("processed: 14; failed: 0; total: 14; seconds spent: 0.000172".to_string()),
    );
    assert!(resp1.ok());

    let resp2 = Response::new(
        "success".to_string(),
        Some("processed: 10; failed: 4; total: 14; seconds spent: 0.000172".to_string()),
    );
    assert!(!resp2.ok());
}

#[test]
fn response_test_response() {
    let resp = Response::new(
        "success".to_string(),
        Some("processed: 0; failed: 14; total: 14; seconds spent: 0.000172".to_string()),
    );

    assert!(resp.success());
    assert!(!resp.ok());
    assert_eq!(14, resp.total_cnt());
    assert_eq!(14, resp.failed_cnt());
    assert_eq!(0, resp.processed_cnt());

    let resp1 = Response::new(
        "success".to_string(),
        Some("processed: 14; failed: 0; total: 14; seconds spent: 0.000172".to_string()),
    );
    assert!(resp1.ok());

    let resp2 = Response::new(
        "success".to_string(),
        Some("processed: 10; failed: 4; total: 14; seconds spent: 0.000172".to_string()),
    );
    assert!(!resp2.ok());
}

#[test]
fn test_success_is_exact() {
    let resp = Response::new("Success".to_string(), None);
    assert!(!resp.success());
    let resp = Response::new("failed".to_string(), None);
    assert!(!resp.success());
    let resp = Response::new("success".to_string(), None);
    assert!(resp.success());
}

#[test]
fn test_counters_without_info() {
    let resp = Response::new("success".to_string(), None);
    assert_eq!(-1, resp.processed_cnt());
    assert_eq!(-1, resp.failed_cnt());
    assert_eq!(-1, resp.total_cnt());
    assert!(resp.info_captures().is_none());
}

#[test]
fn test_counters_with_malformed_info() {
    let resp = Response::new("success".to_string(), Some("all good".to_string()));
    assert_eq!(-1, resp.processed_cnt());
    assert_eq!(-1, resp.failed_cnt());
    assert_eq!(-1, resp.total_cnt());

    // the timing field needs a digit, one more character, then digits
    let resp = Response::new(
        "success".to_string(),
        Some("processed: 1; failed: 0; total: 1; seconds spent: x".to_string()),
    );
    assert_eq!(-1, resp.processed_cnt());
}

#[test]
fn test_pattern_found_mid_string() {
    let resp = Response::new(
        "success".to_string(),
        Some("note: processed: 7; failed: 1; total: 8; seconds spent: 1.5 (done)".to_string()),
    );
    assert_eq!(7, resp.processed_cnt());
    assert_eq!(1, resp.failed_cnt());
    assert_eq!(8, resp.total_cnt());
}

#[test]
fn test_seconds_capture() {
    let resp = Response::new(
        "success".to_string(),
        Some("processed: 0; failed: 14; total: 14; seconds spent: 0.000172".to_string()),
    );
    let caps = resp.info_captures().expect("pattern occurs");
    assert_eq!("0.000172", caps.seconds);
    assert_eq!("0", caps.processed);
    assert_eq!("14", caps.failed);
    assert_eq!("14", caps.total);
}

#[test]
fn test_counter_overflow_degrades() {
    let resp = Response::new(
        "success".to_string(),
        Some("processed: 99999999999; failed: 0; total: 1; seconds spent: 0.1".to_string()),
    );
    assert_eq!(-1, resp.processed_cnt());
    assert_eq!(0, resp.failed_cnt());
    assert_eq!(1, resp.total_cnt());
}
