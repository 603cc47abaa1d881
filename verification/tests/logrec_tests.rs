use prefix_gateway::logrec::{decimal_digits, final_status, format_log_record};

#[test]
fn log_record_holds_summary_and_status() {
    let summary = b"GET /svc/v1/api".to_vec();
    let record = format_log_record(&summary, 302);
    assert_eq!(record, b"GET /svc/v1/api response code: 302".to_vec());
}

#[test]
fn unwritten_response_logs_zero() {
    assert_eq!(final_status(None), 0);
    let summary = b"GET /x".to_vec();
    let record = format_log_record(&summary, final_status(None));
    assert_eq!(record, b"GET /x response code: 0".to_vec());
}

#[test]
fn written_response_keeps_its_status() {
    assert_eq!(final_status(Some(404)), 404);
}

#[test]
fn decimal_rendering_is_exact() {
    assert_eq!(decimal_digits(0), b"0".to_vec());
    assert_eq!(decimal_digits(7), b"7".to_vec());
    assert_eq!(decimal_digits(10), b"10".to_vec());
    assert_eq!(decimal_digits(65535), b"65535".to_vec());
}
