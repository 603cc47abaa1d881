use prefix_gateway::errors::GatewayError;
use prefix_gateway::prefix::{parse_prefix, split_segments};

#[test]
fn parse_prefix_two_segments() {
    let path = b"/svc/v1/assets/app.js".to_vec();
    let got = parse_prefix(&path).unwrap();
    assert_eq!(got, b"/svc/v1".to_vec());
}

#[test]
fn parse_prefix_exact_two() {
    let path = b"/svc/v1".to_vec();
    let got = parse_prefix(&path).unwrap();
    assert_eq!(got, b"/svc/v1".to_vec());
}

#[test]
fn parse_prefix_one_segment_fails() {
    let path = b"/onlyone".to_vec();
    match parse_prefix(&path) {
        Err(GatewayError::ClientRequestMalformed { segments }) => {
            assert_eq!(segments, vec![b"onlyone".to_vec()]);
        }
        other => panic!("expected ClientRequestMalformed, got {:?}", other),
    }
}

#[test]
fn parse_prefix_empty_path_fails() {
    let path = Vec::new();
    match parse_prefix(&path) {
        Err(GatewayError::ClientRequestMalformed { segments }) => {
            assert!(segments.is_empty());
        }
        other => panic!("expected ClientRequestMalformed, got {:?}", other),
    }
}

#[test]
fn parse_prefix_root_fails() {
    let path = b"/".to_vec();
    assert!(matches!(
        parse_prefix(&path),
        Err(GatewayError::ClientRequestMalformed { .. })
    ));
}

#[test]
fn parse_prefix_skips_empty_segments() {
    let path = b"/a//b".to_vec();
    let got = parse_prefix(&path).unwrap();
    assert_eq!(got, b"/a/b".to_vec());
}

#[test]
fn parse_prefix_without_leading_slash() {
    let path = b"a/b/c".to_vec();
    let got = parse_prefix(&path).unwrap();
    assert_eq!(got, b"/a/b".to_vec());
}

#[test]
fn split_segments_in_order() {
    let path = b"/x/y/z/".to_vec();
    let segs = split_segments(&path);
    assert_eq!(segs, vec![b"x".to_vec(), b"y".to_vec(), b"z".to_vec()]);
}

#[test]
fn error_status_is_client_class() {
    let path = b"/short".to_vec();
    let err = parse_prefix(&path).unwrap_err();
    assert_eq!(err.http_status(), 400);
}
