use prefix_gateway::peer::select_peer;
use prefix_gateway::request::{rewrite_path, rewrite_request};

#[test]
fn rewrite_path_strips_one_leading_prefix() {
    let path = b"/svc/v1/assets/app.js".to_vec();
    let prefix = b"/svc/v1".to_vec();
    assert_eq!(rewrite_path(&path, &prefix), b"/assets/app.js".to_vec());
}

#[test]
fn rewrite_path_of_bare_prefix_is_root() {
    let path = b"/svc/v1".to_vec();
    let prefix = b"/svc/v1".to_vec();
    assert_eq!(rewrite_path(&path, &prefix), b"/".to_vec());
}

#[test]
fn rewrite_path_is_not_idempotent() {
    let path = b"/a/b/a/b/x".to_vec();
    let prefix = b"/a/b".to_vec();
    let once = rewrite_path(&path, &prefix);
    assert_eq!(once, b"/a/b/x".to_vec());
    let twice = rewrite_path(&once, &prefix);
    assert_eq!(twice, b"/x".to_vec());
    assert_ne!(once, twice);
}

#[test]
fn rewrite_request_sets_forwarding_headers() {
    let path = b"/svc/v1/api".to_vec();
    let prefix = b"/svc/v1".to_vec();
    let target = select_peer(&b"http://backend:8080".to_vec()).unwrap();
    let inbound_host = b"gateway.example".to_vec();
    let req = rewrite_request(&path, &prefix, &target, Some(&inbound_host));
    assert_eq!(req.path, b"/api".to_vec());
    assert_eq!(req.host, b"backend".to_vec());
    assert_eq!(req.x_forwarded_host, b"gateway.example".to_vec());
    assert_eq!(req.accept_encoding, b"identity".to_vec());
    assert_eq!(req.x_forwarded_path, b"/svc/v1".to_vec());
}

#[test]
fn rewrite_request_without_inbound_host() {
    let path = b"/svc/v1".to_vec();
    let prefix = b"/svc/v1".to_vec();
    let target = select_peer(&b"http://backend".to_vec()).unwrap();
    let req = rewrite_request(&path, &prefix, &target, None);
    assert_eq!(req.path, b"/".to_vec());
    assert_eq!(req.x_forwarded_host, Vec::<u8>::new());
}
