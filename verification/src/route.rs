//! Route lookup handling: from a store answer to a full upstream plan.
//!
//! The store maps a route prefix to a JSON document `{"target": "..."}`.
//! The lookup itself is I/O owned by the caller; this module decides what
//! every possible answer means and, on success, derives the upstream
//! target and the rewritten request.

use vstd::prelude::*;

use crate::errors::GatewayError;
use crate::peer::{select_peer, spec_dial_address, spec_host_header, spec_sni, UpstreamTarget};
use crate::request::{rewrite_request, spec_identity, spec_rewrite_path, RewrittenRequest};
use crate::textops::{opt_ref_view, opt_view};

verus! {

/// The `target` string field of the JSON document `doc`, if `doc` parses
/// as a JSON object carrying one; a function of the bytes alone.
pub uninterp spec fn json_target_of(doc: Seq<u8>) -> Option<Seq<u8>>;

/// Relies on `serde_json::from_slice::<Value>` together with the `Value`
/// accessors `get` and `as_str`: extracts the `target` string field of a
/// JSON document, `None` when the document does not parse, is not an
/// object, lacks the field, or holds a non-string there. Parsing is a
/// pure function of the input bytes.
#[verifier::external_body]
fn extract_target(doc: &Vec<u8>) -> (r: Option<Vec<u8>>)
    ensures
        opt_view(r) == json_target_of(doc@),
{
    match serde_json::from_slice::<serde_json::Value>(doc.as_slice()) {
        Ok(v) => v.get("target").and_then(|t| t.as_str()).map(|s| s.as_bytes().to_vec()),
        Err(_) => None,
    }
}

/// What the route store answered for a prefix.
pub enum RouteLookup {
    /// The store holds this JSON document for the prefix.
    Found(Vec<u8>),
    /// The store holds no entry for the prefix.
    Missing,
    /// The store could not be reached or the lookup failed.
    Unavailable,
}

/// Everything needed to dispatch one request upstream.
pub struct UpstreamPlan {
    /// Where and how to dial.
    pub peer: UpstreamTarget,
    /// The rewritten path and headers to send.
    pub request: RewrittenRequest,
}

/// Does `plan` correctly serve target bytes `t` for this request?
pub open spec fn plan_matches(
    plan: UpstreamPlan,
    t: Seq<u8>,
    path: Seq<u8>,
    prefix: Seq<u8>,
    original_host: Option<Seq<u8>>,
) -> bool {
    &&& plan.peer.dial_address@ == spec_dial_address(t)
    &&& plan.peer.sni == spec_sni(t)
    &&& plan.peer.host_header@ == spec_host_header(t)
    &&& plan.request.path@ == spec_rewrite_path(path, prefix)
    &&& plan.request.host@ == spec_host_header(t)
    &&& plan.request.x_forwarded_host@ == (match original_host {
        Some(h) => h,
        None => Seq::<u8>::empty(),
    })
    &&& plan.request.accept_encoding@ == spec_identity()
    &&& plan.request.x_forwarded_path@ == prefix
}

/// Turn a store answer into an upstream plan or the error owed for it.
///
/// A failed lookup and a missing entry are request-scoped errors and no
/// upstream is dialed for them; a found document yields a plan exactly
/// when it carries a non-empty `target` string.
pub fn plan_upstream(
    lookup: RouteLookup,
    path: &Vec<u8>,
    prefix: &Vec<u8>,
    original_host: Option<&Vec<u8>>,
) -> (r: Result<UpstreamPlan, GatewayError>)
    ensures
        lookup is Unavailable ==> (r matches Err(e) && e is RouteLookupFailed),
        lookup is Missing ==> (r matches Err(e) && e is RouteNotFound),
        lookup matches RouteLookup::Found(doc) ==> match json_target_of(doc@) {
            None => r matches Err(e) && e is UpstreamTargetMalformed,
            Some(t) => if t.len() == 0 {
                r matches Err(e) && e is UpstreamTargetMalformed
            } else {
                r matches Ok(plan)
                    && plan_matches(plan, t, path@, prefix@, opt_ref_view(original_host))
            },
        },
{
    match lookup {
        RouteLookup::Unavailable => Err(GatewayError::RouteLookupFailed),
        RouteLookup::Missing => Err(GatewayError::RouteNotFound),
        RouteLookup::Found(doc) => match extract_target(&doc) {
            None => Err(GatewayError::UpstreamTargetMalformed),
            Some(t) => match select_peer(&t) {
                Err(e) => Err(e),
                Ok(peer) => {
                    let request = rewrite_request(path, prefix, &peer, original_host);
                    Ok(UpstreamPlan { peer, request })
                },
            },
        },
    }
}

} // verus!
