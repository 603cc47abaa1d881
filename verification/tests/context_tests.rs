use prefix_gateway::context::{ProxyCtx, UpstreamResCtx};
use prefix_gateway::response::finish_body;

#[test]
fn entries_under_different_prefixes_stay_apart() {
    let mut ctx = ProxyCtx::new();
    let first = b"/svc/v1".to_vec();
    let second = b"/other/v2".to_vec();
    ctx.buffer_chunk(&first, &b"first body".to_vec());
    ctx.buffer_chunk(&second, &b"second body".to_vec());
    let first_entry = ctx.take_entry(&first).unwrap();
    assert_eq!(first_entry.buffer, b"first body".to_vec());
    let second_entry = ctx.take_entry(&second).unwrap();
    assert_eq!(second_entry.buffer, b"second body".to_vec());
}

#[test]
fn entry_is_removed_after_completion() {
    let mut ctx = ProxyCtx::new();
    let first = b"/svc/v1".to_vec();
    let second = b"/other/v2".to_vec();
    ctx.buffer_chunk(&first, &b"gone after finish".to_vec());
    ctx.buffer_chunk(&second, &b"still here".to_vec());
    finish_body(&mut ctx, &first, Some(&first)).unwrap();
    assert!(ctx.take_entry(&first).is_none());
    let survivor = ctx.take_entry(&second).unwrap();
    assert_eq!(survivor.buffer, b"still here".to_vec());
}

#[test]
fn chunks_accumulate_in_order() {
    let mut ctx = ProxyCtx::new();
    let key = b"/svc/v1".to_vec();
    ctx.buffer_chunk(&key, &b"one ".to_vec());
    ctx.buffer_chunk(&key, &b"two".to_vec());
    let entry = ctx.take_entry(&key).unwrap();
    assert_eq!(entry.buffer, b"one two".to_vec());
    assert_eq!(entry.content_type, None);
}

#[test]
fn recording_content_type_keeps_buffered_bytes() {
    let mut ctx = ProxyCtx::new();
    let key = b"/svc/v1".to_vec();
    ctx.buffer_chunk(&key, &b"kept".to_vec());
    ctx.set_content_type(&key, Some(b"text/html".to_vec()));
    let entry = ctx.take_entry(&key).unwrap();
    assert_eq!(entry.buffer, b"kept".to_vec());
    assert_eq!(entry.content_type, Some(b"text/html".to_vec()));
}

#[test]
fn fresh_context_is_empty() {
    let mut ctx = ProxyCtx::new();
    assert!(ctx.take_entry(&b"/svc/v1".to_vec()).is_none());
}

#[test]
fn put_entry_replaces_old_entry() {
    let mut ctx = ProxyCtx::new();
    let key = b"/svc/v1".to_vec();
    ctx.buffer_chunk(&key, &b"old".to_vec());
    ctx.put_entry(
        &key,
        UpstreamResCtx { buffer: b"new".to_vec(), content_type: Some(b"text/css".to_vec()) },
    );
    let entry = ctx.take_entry(&key).unwrap();
    assert_eq!(entry.buffer, b"new".to_vec());
    assert_eq!(entry.content_type, Some(b"text/css".to_vec()));
}
