//! Response rewriting: headers on arrival, the buffered body at its end.
//!
//! Headers: the fixed length is dropped, chunked framing is forced, the
//! content type is recorded, and a redirect's `Location` is pointed back
//! at the gateway. Body: chunks are buffered per prefix and, once the
//! stream ends, textual payloads get their root-relative references
//! prefixed; anything else is emitted byte for byte.

use vstd::prelude::*;

use crate::context::{entry_or_empty, ProxyCtx};
use crate::errors::GatewayError;
use crate::prefix::SLASH;
use crate::textops::{
    opt_ref_view, opt_view, push_all, replace_all, spec_replace_all, spec_replace_first,
    spec_starts_with, starts_with, replace_first,
};

verus! {

/// The byte `=`.
pub const EQUALS: u8 = 61;

/// The byte `"`.
pub const QUOTE: u8 = 34;

/// Are all bytes of `b` ASCII?
pub open spec fn spec_all_ascii(b: Seq<u8>) -> bool {
    forall|i: int| 0 <= i < b.len() ==> #[trigger] b[i] < 128
}

/// The UTF-8 re-encoding of the lossy decode of `b`: invalid sequences
/// become replacement characters, valid ones stay; a function of the
/// bytes alone.
pub uninterp spec fn lossy_utf8(b: Seq<u8>) -> Seq<u8>;

/// Relies on `String::from_utf8_lossy`: decodes bytes as UTF-8, mapping
/// each invalid sequence to the replacement character and leaving valid
/// UTF-8 — in particular plain ASCII — unchanged.
#[verifier::external_body]
fn lossy_sanitize(b: &Vec<u8>) -> (r: Vec<u8>)
    ensures
        r@ == lossy_utf8(b@),
        spec_all_ascii(b@) ==> r@ == b@,
{
    String::from_utf8_lossy(b.as_slice()).into_owned().into_bytes()
}

/// The literal `text/`.
pub open spec fn spec_text_slash() -> Seq<u8> {
    seq!['t' as u8, 'e' as u8, 'x' as u8, 't' as u8, '/' as u8]
}

/// The literal `application/`.
pub open spec fn spec_application_slash() -> Seq<u8> {
    seq![
        'a' as u8, 'p' as u8, 'p' as u8, 'l' as u8, 'i' as u8, 'c' as u8, 'a' as u8,
        't' as u8, 'i' as u8, 'o' as u8, 'n' as u8, '/' as u8,
    ]
}

/// Is a payload of this content type rewritten (`text/*`, `application/*`)?
pub open spec fn spec_rewritable_type(ct: Option<Seq<u8>>) -> bool {
    match ct {
        Some(c) => spec_starts_with(c, spec_text_slash())
            || spec_starts_with(c, spec_application_slash()),
        None => false,
    }
}

fn lit_text_slash() -> (v: Vec<u8>)
    ensures
        v@ == spec_text_slash(),
{
    let mut v: Vec<u8> = Vec::new();
    v.push('t' as u8);
    v.push('e' as u8);
    v.push('x' as u8);
    v.push('t' as u8);
    v.push('/' as u8);
    proof {
        assert(v@ =~= spec_text_slash());
    }
    v
}

fn lit_application_slash() -> (v: Vec<u8>)
    ensures
        v@ == spec_application_slash(),
{
    let mut v: Vec<u8> = Vec::new();
    v.push('a' as u8);
    v.push('p' as u8);
    v.push('p' as u8);
    v.push('l' as u8);
    v.push('i' as u8);
    v.push('c' as u8);
    v.push('a' as u8);
    v.push('t' as u8);
    v.push('i' as u8);
    v.push('o' as u8);
    v.push('n' as u8);
    v.push('/' as u8);
    proof {
        assert(v@ =~= spec_application_slash());
    }
    v
}

/// Is a payload of this content type rewritten (`text/*`, `application/*`)?
pub fn is_rewritable_type(ct: &Option<Vec<u8>>) -> (r: bool)
    ensures
        r == spec_rewritable_type(opt_view(*ct)),
{
    match ct {
        None => false,
        Some(c) => {
            let text = lit_text_slash();
            if starts_with(c, &text) {
                return true;
            }
            let app = lit_application_slash();
            starts_with(c, &app)
        },
    }
}

/// `text` with every root-relative reference re-rooted under `prefix`:
/// each `=/` becomes `=` + prefix + `/` and, in what that leaves, each
/// `"/` becomes `"` + prefix + `/`.
pub open spec fn spec_rewrite_body(text: Seq<u8>, prefix: Seq<u8>) -> Seq<u8> {
    spec_replace_all(
        spec_replace_all(text, seq![EQUALS, SLASH], seq![EQUALS] + prefix + seq![SLASH]),
        seq![QUOTE, SLASH],
        seq![QUOTE] + prefix + seq![SLASH],
    )
}

/// Re-root every root-relative reference of `text` under `prefix`.
pub fn rewrite_body(text: &Vec<u8>, prefix: &Vec<u8>) -> (r: Vec<u8>)
    ensures
        r@ == spec_rewrite_body(text@, prefix@),
{
    let mut pat_eq: Vec<u8> = Vec::new();
    pat_eq.push(EQUALS);
    pat_eq.push(SLASH);
    assert(pat_eq@ =~= seq![EQUALS, SLASH]);
    let mut rep_eq: Vec<u8> = Vec::new();
    rep_eq.push(EQUALS);
    push_all(&mut rep_eq, prefix);
    rep_eq.push(SLASH);
    assert(rep_eq@ =~= seq![EQUALS] + prefix@ + seq![SLASH]);
    let pass1 = replace_all(text, &pat_eq, &rep_eq);
    let mut pat_quote: Vec<u8> = Vec::new();
    pat_quote.push(QUOTE);
    pat_quote.push(SLASH);
    assert(pat_quote@ =~= seq![QUOTE, SLASH]);
    let mut rep_quote: Vec<u8> = Vec::new();
    rep_quote.push(QUOTE);
    push_all(&mut rep_quote, prefix);
    rep_quote.push(SLASH);
    assert(rep_quote@ =~= seq![QUOTE] + prefix@ + seq![SLASH]);
    replace_all(&pass1, &pat_quote, &rep_quote)
}

/// What a redirect's host is replaced with: the gateway host joined to
/// the route prefix by exactly one `/`.
pub open spec fn spec_redirect_replacement(forwarded_host: Seq<u8>, prefix: Seq<u8>) -> Seq<u8> {
    if prefix.len() > 0 && prefix[0] == SLASH {
        forwarded_host + prefix
    } else {
        forwarded_host + seq![SLASH] + prefix
    }
}

/// The rewritten `Location` value, when one is owed: on a 301 or 302
/// whose upstream host, gateway host and route prefix are all known, the
/// first occurrence of the upstream host in the location (an absent
/// location counts as empty) gives way to the gateway host and prefix.
pub open spec fn spec_new_location(
    status: u16,
    upstream_host: Option<Seq<u8>>,
    forwarded_host: Option<Seq<u8>>,
    forwarded_path: Option<Seq<u8>>,
    location: Option<Seq<u8>>,
) -> Option<Seq<u8>> {
    match (upstream_host, forwarded_host, forwarded_path) {
        (Some(uh), Some(fh), Some(fp)) => if status == 301 || status == 302 {
            let loc = match location {
                Some(l) => l,
                None => Seq::empty(),
            };
            Some(spec_replace_first(loc, uh, spec_redirect_replacement(fh, fp)))
        } else {
            None
        },
        _ => None,
    }
}

/// What the caller must do to the response headers.
pub struct HeaderDirectives {
    /// Drop `Content-Length`: the rewritten body's length is unknown.
    pub strip_content_length: bool,
    /// Set `Transfer-Encoding: chunked`.
    pub chunked: bool,
    /// Set `Location` to this value, when present.
    pub new_location: Option<Vec<u8>>,
}

/// Handle one response's headers: record the content type for the
/// prefix's buffer entry and say how the headers must change. The
/// redirect rewrite is best-effort: a missing header skips it without
/// failing the response.
pub fn process_response_headers(
    ctx: &mut ProxyCtx,
    prefix_key: &Vec<u8>,
    content_type: Option<Vec<u8>>,
    status: u16,
    upstream_host: Option<&Vec<u8>>,
    forwarded_host: Option<&Vec<u8>>,
    forwarded_path: Option<&Vec<u8>>,
    location: Option<&Vec<u8>>,
) -> (r: HeaderDirectives)
    ensures
        r.strip_content_length,
        r.chunked,
        final(ctx)@ == old(ctx)@.insert(
            prefix_key@,
            (entry_or_empty(old(ctx)@, prefix_key@).0, opt_view(content_type)),
        ),
        opt_view(r.new_location) == spec_new_location(
            status,
            opt_ref_view(upstream_host),
            opt_ref_view(forwarded_host),
            opt_ref_view(forwarded_path),
            opt_ref_view(location),
        ),
{
    ctx.set_content_type(prefix_key, content_type);
    let new_location = match (upstream_host, forwarded_host, forwarded_path) {
        (Some(uh), Some(fh), Some(fp)) => {
            if status == 301 || status == 302 {
                let mut replacement: Vec<u8> = Vec::new();
                push_all(&mut replacement, fh);
                if !(fp.len() > 0 && fp[0] == SLASH) {
                    replacement.push(SLASH);
                }
                push_all(&mut replacement, fp);
                assert(replacement@ =~= spec_redirect_replacement(fh@, fp@));
                let mut loc: Vec<u8> = Vec::new();
                match location {
                    Some(l) => push_all(&mut loc, l),
                    None => (),
                }
                Some(replace_first(&loc, uh, &replacement))
            } else {
                None
            }
        },
        _ => None,
    };
    HeaderDirectives { strip_content_length: true, chunked: true, new_location }
}

/// The bytes emitted for a finished response: textual payloads are
/// re-rooted under the prefix after a lossy text decode, all others pass
/// through byte for byte.
pub open spec fn spec_final_body(entry: (Seq<u8>, Option<Seq<u8>>), prefix: Seq<u8>) -> Seq<u8> {
    if spec_rewritable_type(entry.1) {
        spec_rewrite_body(lossy_utf8(entry.0), prefix)
    } else {
        entry.0
    }
}

/// Law: a payload whose content type is not textual — no `text/*` or
/// `application/*` — is emitted byte for byte, whatever the prefix.
pub proof fn lemma_binary_passthrough(entry: (Seq<u8>, Option<Seq<u8>>), prefix: Seq<u8>)
    requires
        !spec_rewritable_type(entry.1),
    ensures
        spec_final_body(entry, prefix) == entry.0,
{
}

/// Finish a buffered response at end-of-stream: emit the (possibly
/// rewritten) body and drop the prefix's buffer entry.
///
/// `forwarded_path` is the route prefix recorded on the request; its
/// absence breaks the request rewriter's guarantee and fails the
/// response rather than rewriting with an invented prefix.
pub fn finish_body(
    ctx: &mut ProxyCtx,
    prefix_key: &Vec<u8>,
    forwarded_path: Option<&Vec<u8>>,
) -> (r: Result<Vec<u8>, GatewayError>)
    ensures
        forwarded_path is None ==> (r matches Err(e) && e is ForwardedPathMissing)
            && final(ctx)@ == old(ctx)@,
        forwarded_path matches Some(p) ==> (r matches Ok(body)
            && body@ == spec_final_body(entry_or_empty(old(ctx)@, prefix_key@), p@)
            && final(ctx)@ == old(ctx)@.remove(prefix_key@)),
{
    let p = match forwarded_path {
        None => {
            return Err(GatewayError::ForwardedPathMissing);
        },
        Some(p) => p,
    };
    let entry = match ctx.take_entry(prefix_key) {
        Some(e) => e,
        None => crate::context::UpstreamResCtx { buffer: Vec::new(), content_type: None },
    };
    if is_rewritable_type(&entry.content_type) {
        let text = lossy_sanitize(&entry.buffer);
        Ok(rewrite_body(&text, p))
    } else {
        Ok(entry.buffer)
    }
}

} // verus!
