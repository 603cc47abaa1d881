use prefix_gateway::errors::GatewayError;
use prefix_gateway::route::{plan_upstream, RouteLookup};

#[test]
fn missing_entry_yields_route_not_found() {
    let path = b"/svc/v1/api".to_vec();
    let prefix = b"/svc/v1".to_vec();
    let got = plan_upstream(RouteLookup::Missing, &path, &prefix, None);
    assert!(matches!(got, Err(GatewayError::RouteNotFound)));
}

#[test]
fn unreachable_store_yields_lookup_failed() {
    let path = b"/svc/v1/api".to_vec();
    let prefix = b"/svc/v1".to_vec();
    let got = plan_upstream(RouteLookup::Unavailable, &path, &prefix, None);
    assert!(matches!(got, Err(GatewayError::RouteLookupFailed)));
}

#[test]
fn found_document_yields_full_plan() {
    let doc = b"{\"target\":\"http://svc:9000\"}".to_vec();
    let path = b"/svc/v1/api?q=1".to_vec();
    let prefix = b"/svc/v1".to_vec();
    let host = b"gateway.example".to_vec();
    let plan = plan_upstream(RouteLookup::Found(doc), &path, &prefix, Some(&host)).unwrap();
    assert_eq!(plan.peer.dial_address, b"svc:9000".to_vec());
    assert!(!plan.peer.sni);
    assert_eq!(plan.peer.host_header, b"svc".to_vec());
    assert_eq!(plan.request.path, b"/api?q=1".to_vec());
    assert_eq!(plan.request.host, b"svc".to_vec());
    assert_eq!(plan.request.x_forwarded_host, b"gateway.example".to_vec());
    assert_eq!(plan.request.accept_encoding, b"identity".to_vec());
    assert_eq!(plan.request.x_forwarded_path, b"/svc/v1".to_vec());
}

#[test]
fn https_document_yields_tls_plan() {
    let doc = b"{\"target\":\"https://api.internal/\"}".to_vec();
    let path = b"/svc/v1".to_vec();
    let prefix = b"/svc/v1".to_vec();
    let plan = plan_upstream(RouteLookup::Found(doc), &path, &prefix, None).unwrap();
    assert_eq!(plan.peer.dial_address, b"api.internal:443".to_vec());
    assert!(plan.peer.sni);
    assert_eq!(plan.peer.host_header, b"api.internal".to_vec());
    assert_eq!(plan.request.path, b"/".to_vec());
}

#[test]
fn document_without_target_is_malformed() {
    let doc = b"{\"other\":1}".to_vec();
    let path = b"/svc/v1/api".to_vec();
    let prefix = b"/svc/v1".to_vec();
    let got = plan_upstream(RouteLookup::Found(doc), &path, &prefix, None);
    assert!(matches!(got, Err(GatewayError::UpstreamTargetMalformed)));
}

#[test]
fn non_string_target_is_malformed() {
    let doc = b"{\"target\":5}".to_vec();
    let path = b"/svc/v1/api".to_vec();
    let prefix = b"/svc/v1".to_vec();
    let got = plan_upstream(RouteLookup::Found(doc), &path, &prefix, None);
    assert!(matches!(got, Err(GatewayError::UpstreamTargetMalformed)));
}

#[test]
fn unparsable_document_is_malformed() {
    let doc = b"not json at all".to_vec();
    let path = b"/svc/v1/api".to_vec();
    let prefix = b"/svc/v1".to_vec();
    let got = plan_upstream(RouteLookup::Found(doc), &path, &prefix, None);
    assert!(matches!(got, Err(GatewayError::UpstreamTargetMalformed)));
}

#[test]
fn empty_target_is_rejected() {
    let doc = b"{\"target\":\"\"}".to_vec();
    let path = b"/svc/v1/api".to_vec();
    let prefix = b"/svc/v1".to_vec();
    let got = plan_upstream(RouteLookup::Found(doc), &path, &prefix, None);
    assert!(matches!(got, Err(GatewayError::UpstreamTargetMalformed)));
}
