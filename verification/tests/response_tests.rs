use prefix_gateway::context::ProxyCtx;
use prefix_gateway::errors::GatewayError;
use prefix_gateway::response::{finish_body, process_response_headers};

#[test]
fn html_body_gets_prefixed_references() {
    let mut ctx = ProxyCtx::new();
    let key = b"/svc/v1".to_vec();
    process_response_headers(
        &mut ctx,
        &key,
        Some(b"text/html".to_vec()),
        200,
        None,
        None,
        None,
        None,
    );
    let chunk = b"<a href=\"/x\">link</a>".to_vec();
    ctx.buffer_chunk(&key, &chunk);
    let body = finish_body(&mut ctx, &key, Some(&key)).unwrap();
    assert_eq!(body, b"<a href=\"/svc/v1/x\">link</a>".to_vec());
}

#[test]
fn substitution_spans_chunk_boundaries() {
    let mut ctx = ProxyCtx::new();
    let key = b"/svc/v1".to_vec();
    process_response_headers(
        &mut ctx,
        &key,
        Some(b"text/html".to_vec()),
        200,
        None,
        None,
        None,
        None,
    );
    ctx.buffer_chunk(&key, &b"<img src=\"".to_vec());
    ctx.buffer_chunk(&key, &b"/logo.png\">".to_vec());
    let body = finish_body(&mut ctx, &key, Some(&key)).unwrap();
    assert_eq!(body, b"<img src=\"/svc/v1/logo.png\">".to_vec());
}

#[test]
fn binary_body_passes_through_unchanged() {
    let mut ctx = ProxyCtx::new();
    let key = b"/svc/v1".to_vec();
    process_response_headers(
        &mut ctx,
        &key,
        Some(b"image/png".to_vec()),
        200,
        None,
        None,
        None,
        None,
    );
    // includes the bytes of `"/` and `=/`, and an invalid UTF-8 byte
    let chunk = vec![0x89, 0x50, 0x4e, 0x47, 0x22, 0x2f, 0x3d, 0x2f, 0xff];
    ctx.buffer_chunk(&key, &chunk);
    let body = finish_body(&mut ctx, &key, Some(&key)).unwrap();
    assert_eq!(body, chunk);
}

#[test]
fn invalid_text_bytes_decode_lossily() {
    let mut ctx = ProxyCtx::new();
    let key = b"/svc/v1".to_vec();
    process_response_headers(
        &mut ctx,
        &key,
        Some(b"text/plain".to_vec()),
        200,
        None,
        None,
        None,
        None,
    );
    ctx.buffer_chunk(&key, &vec![0x61, 0xff, 0x62]);
    let body = finish_body(&mut ctx, &key, Some(&key)).unwrap();
    // 0xff is not valid UTF-8: it becomes the replacement character
    assert_eq!(body, vec![0x61, 0xef, 0xbf, 0xbd, 0x62]);
}

#[test]
fn missing_content_type_passes_through() {
    let mut ctx = ProxyCtx::new();
    let key = b"/svc/v1".to_vec();
    ctx.buffer_chunk(&key, &b"some bytes \"/raw".to_vec());
    let body = finish_body(&mut ctx, &key, Some(&key)).unwrap();
    assert_eq!(body, b"some bytes \"/raw".to_vec());
}

#[test]
fn missing_forwarded_path_fails_response() {
    let mut ctx = ProxyCtx::new();
    let key = b"/svc/v1".to_vec();
    ctx.buffer_chunk(&key, &b"text".to_vec());
    assert!(matches!(
        finish_body(&mut ctx, &key, None),
        Err(GatewayError::ForwardedPathMissing)
    ));
}

#[test]
fn redirect_location_points_back_at_gateway() {
    let mut ctx = ProxyCtx::new();
    let key = b"/svc/v1".to_vec();
    let upstream_host = b"upstream.local".to_vec();
    let forwarded_host = b"gateway.example".to_vec();
    let location = b"http://upstream.local/new".to_vec();
    let directives = process_response_headers(
        &mut ctx,
        &key,
        None,
        302,
        Some(&upstream_host),
        Some(&forwarded_host),
        Some(&key),
        Some(&location),
    );
    assert!(directives.strip_content_length);
    assert!(directives.chunked);
    let new_location = directives.new_location.unwrap();
    assert_eq!(new_location, b"http://gateway.example/svc/v1/new".to_vec());
    let printable = String::from_utf8(new_location).unwrap();
    assert!(printable.contains("gateway.example/svc/v1/new"));
}

#[test]
fn no_redirect_rewrite_on_success_status() {
    let mut ctx = ProxyCtx::new();
    let key = b"/svc/v1".to_vec();
    let upstream_host = b"upstream.local".to_vec();
    let forwarded_host = b"gateway.example".to_vec();
    let location = b"http://upstream.local/new".to_vec();
    let directives = process_response_headers(
        &mut ctx,
        &key,
        None,
        200,
        Some(&upstream_host),
        Some(&forwarded_host),
        Some(&key),
        Some(&location),
    );
    assert!(directives.new_location.is_none());
}

#[test]
fn redirect_rewrite_skipped_when_header_missing() {
    let mut ctx = ProxyCtx::new();
    let key = b"/svc/v1".to_vec();
    let upstream_host = b"upstream.local".to_vec();
    let location = b"http://upstream.local/new".to_vec();
    let directives = process_response_headers(
        &mut ctx,
        &key,
        None,
        302,
        Some(&upstream_host),
        None,
        Some(&key),
        Some(&location),
    );
    assert!(directives.strip_content_length);
    assert!(directives.chunked);
    assert!(directives.new_location.is_none());
}

#[test]
fn content_type_is_recorded_for_the_prefix() {
    let mut ctx = ProxyCtx::new();
    let key = b"/svc/v1".to_vec();
    process_response_headers(
        &mut ctx,
        &key,
        Some(b"text/plain".to_vec()),
        200,
        None,
        None,
        None,
        None,
    );
    let entry = ctx.take_entry(&key).unwrap();
    assert_eq!(entry.content_type, Some(b"text/plain".to_vec()));
    assert!(entry.buffer.is_empty());
}
