//! Outbound request rewriting: path stripping and forwarding headers.

use vstd::prelude::*;

use crate::peer::UpstreamTarget;
use crate::prefix::SLASH;
use crate::textops::{
    contains, push_all, replace_first, spec_contains, spec_replace_first,
};

verus! {

/// The rewritten request path: the first occurrence of `prefix + "/"`
/// becomes `/`; when that pattern is absent (the path is exactly the
/// prefix, say), the first occurrence of `prefix` alone becomes `/`.
/// Only the first match is altered.
pub open spec fn spec_rewrite_path(path: Seq<u8>, prefix: Seq<u8>) -> Seq<u8> {
    if spec_contains(path, prefix + seq![SLASH]) {
        spec_replace_first(path, prefix + seq![SLASH], seq![SLASH])
    } else {
        spec_replace_first(path, prefix, seq![SLASH])
    }
}

/// Strip one leading occurrence of the resolved prefix from the path.
pub fn rewrite_path(path: &Vec<u8>, prefix: &Vec<u8>) -> (r: Vec<u8>)
    ensures
        r@ == spec_rewrite_path(path@, prefix@),
{
    let mut pre_slash: Vec<u8> = Vec::new();
    push_all(&mut pre_slash, prefix);
    pre_slash.push(SLASH);
    assert(pre_slash@ =~= prefix@ + seq![SLASH]);
    let mut slash: Vec<u8> = Vec::new();
    slash.push(SLASH);
    assert(slash@ =~= seq![SLASH]);
    if contains(path, &pre_slash) {
        replace_first(path, &pre_slash, &slash)
    } else {
        replace_first(path, prefix, &slash)
    }
}

/// Law: rewriting a path that begins with the prefix followed by `/`
/// removes exactly that one leading occurrence — the result is `/` plus
/// the untouched remainder. Re-application is not idempotent: only the
/// first match of a rewrite is altered, so a later occurrence left in the
/// remainder would be struck by a second rewrite.
pub proof fn lemma_rewrite_path_strips_leading_prefix(path: Seq<u8>, prefix: Seq<u8>)
    requires
        crate::textops::spec_starts_with(path, prefix + seq![SLASH]),
    ensures
        spec_rewrite_path(path, prefix) == seq![SLASH] + path.skip(prefix.len() as int + 1),
{
    let pre_slash = prefix + seq![SLASH];
    assert(path.subrange(0, pre_slash.len() as int) =~= path.take(pre_slash.len() as int));
    assert(crate::textops::matches_at(path, pre_slash, 0));
    assert(spec_contains(path, pre_slash));
    assert(spec_replace_first(path, pre_slash, seq![SLASH])
        == seq![SLASH] + path.skip(pre_slash.len() as int));
}

/// The value of the `Accept-Encoding` header forced on upstream requests:
/// `identity`, so that bodies come back uncompressed and rewritable.
pub open spec fn spec_identity() -> Seq<u8> {
    seq![
        'i' as u8, 'd' as u8, 'e' as u8, 'n' as u8, 't' as u8, 'i' as u8, 't' as u8,
        'y' as u8,
    ]
}

/// Everything the outbound request must carry: the rewritten path and the
/// four headers set on the way upstream. The request body passes through
/// untouched.
pub struct RewrittenRequest {
    /// The path with one leading prefix occurrence stripped.
    pub path: Vec<u8>,
    /// `Host`: the upstream's port-stripped host.
    pub host: Vec<u8>,
    /// `X-Forwarded-Host`: the inbound `Host` value, empty when absent.
    pub x_forwarded_host: Vec<u8>,
    /// `Accept-Encoding`: always `identity`.
    pub accept_encoding: Vec<u8>,
    /// `X-Forwarded-Path`: the resolved route prefix.
    pub x_forwarded_path: Vec<u8>,
}

/// Compute the outbound request for a resolved prefix and upstream target.
pub fn rewrite_request(
    path: &Vec<u8>,
    prefix: &Vec<u8>,
    target: &UpstreamTarget,
    original_host: Option<&Vec<u8>>,
) -> (r: RewrittenRequest)
    ensures
        r.path@ == spec_rewrite_path(path@, prefix@),
        r.host@ == target.host_header@,
        match original_host {
            Some(h) => r.x_forwarded_host@ == h@,
            None => r.x_forwarded_host@ == Seq::<u8>::empty(),
        },
        r.accept_encoding@ == spec_identity(),
        r.x_forwarded_path@ == prefix@,
{
    let new_path = rewrite_path(path, prefix);
    let mut host: Vec<u8> = Vec::new();
    push_all(&mut host, &target.host_header);
    let mut x_forwarded_host: Vec<u8> = Vec::new();
    match original_host {
        Some(h) => push_all(&mut x_forwarded_host, h),
        None => (),
    }
    let mut accept_encoding: Vec<u8> = Vec::new();
    accept_encoding.push('i' as u8);
    accept_encoding.push('d' as u8);
    accept_encoding.push('e' as u8);
    accept_encoding.push('n' as u8);
    accept_encoding.push('t' as u8);
    accept_encoding.push('i' as u8);
    accept_encoding.push('t' as u8);
    accept_encoding.push('y' as u8);
    assert(accept_encoding@ =~= spec_identity());
    let mut x_forwarded_path: Vec<u8> = Vec::new();
    push_all(&mut x_forwarded_path, prefix);
    RewrittenRequest {
        path: new_path,
        host,
        x_forwarded_host,
        accept_encoding,
        x_forwarded_path,
    }
}

} // verus!
