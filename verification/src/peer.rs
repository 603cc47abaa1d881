//! Upstream target derivation: scheme detection, default ports, SNI.
//!
//! A stored target such as `https://api.internal/` becomes a dial address
//! (`api.internal:443`), an SNI flag (`true`) and a port-stripped host
//! header (`api.internal`).

use vstd::prelude::*;

use crate::errors::GatewayError;
use crate::prefix::SLASH;
use crate::textops::{push_all, push_tail, spec_starts_with, starts_with};

verus! {

/// The byte `:`, which separates a host from its port.
pub const COLON: u8 = 58;

/// Is `b` an ASCII decimal digit?
pub open spec fn is_digit(b: u8) -> bool {
    48 <= b <= 57
}

/// Does `s` hold a `:` immediately followed by a digit (an explicit port)?
pub open spec fn spec_has_port(s: Seq<u8>) -> bool {
    exists|i: int| 0 <= i < s.len() - 1 && #[trigger] s[i] == COLON && is_digit(s[i + 1])
}

/// Does `s` hold a `:` immediately followed by a digit (an explicit port)?
pub fn has_port(s: &Vec<u8>) -> (r: bool)
    ensures
        r == spec_has_port(s@),
{
    if s.len() < 2 {
        return false;
    }
    let mut i: usize = 0;
    while i < s.len() - 1
        invariant
            s.len() >= 2,
            i <= s.len() - 1,
            forall|k: int| 0 <= k < i ==> !(#[trigger] s@[k] == COLON && is_digit(s@[k + 1])),
        decreases s.len() - i,
    {
        if s[i] == COLON && 48 <= s[i + 1] && s[i + 1] <= 57 {
            return true;
        }
        i = i + 1;
    }
    false
}

/// `s` with every `:`-plus-digit-run port marker removed.
pub open spec fn spec_strip_ports(s: Seq<u8>) -> Seq<u8>
    decreases s.len(), 0int,
{
    if s.len() == 0 {
        s
    } else if s[0] == COLON && s.len() >= 2 && is_digit(s[1]) {
        spec_skip_digits(s.skip(1))
    } else {
        seq![s[0]] + spec_strip_ports(s.skip(1))
    }
}

/// Helper of [`spec_strip_ports`]: drop the leading digit run, then strip on.
pub open spec fn spec_skip_digits(s: Seq<u8>) -> Seq<u8>
    decreases s.len(), 1int,
{
    if s.len() > 0 && is_digit(s[0]) {
        spec_skip_digits(s.skip(1))
    } else {
        spec_strip_ports(s)
    }
}

/// `s` with every `:`-plus-digit-run port marker removed.
pub fn strip_ports(s: &Vec<u8>) -> (r: Vec<u8>)
    ensures
        r@ == spec_strip_ports(s@),
{
    let mut out: Vec<u8> = Vec::new();
    let mut i: usize = 0;
    assert(s@.skip(0) =~= s@);
    assert(out@ + spec_strip_ports(s@) =~= spec_strip_ports(s@));
    while i < s.len()
        invariant
            i <= s.len(),
            out@ + spec_strip_ports(s@.skip(i as int)) == spec_strip_ports(s@),
        decreases s.len() - i,
    {
        let ghost t = s@.skip(i as int);
        let ghost out0 = out@;
        proof {
            assert(t[0] == s@[i as int]);
            assert(t.skip(1) =~= s@.skip(i + 1));
            if t.len() >= 2 {
                assert(t[1] == s@[i + 1]);
            }
        }
        if s[i] == COLON && i + 1 < s.len() && 48 <= s[i + 1] && s[i + 1] <= 57 {
            let mut j: usize = i + 1;
            proof {
                assert(spec_strip_ports(t) == spec_skip_digits(t.skip(1)));
            }
            while j < s.len() && 48 <= s[j] && s[j] <= 57
                invariant
                    i + 1 <= j <= s.len(),
                    out@ == out0,
                    out0 + spec_skip_digits(s@.skip(j as int)) == spec_strip_ports(s@),
                decreases s.len() - j,
            {
                proof {
                    assert(s@.skip(j as int)[0] == s@[j as int]);
                    assert(s@.skip(j as int).skip(1) =~= s@.skip(j + 1));
                }
                j = j + 1;
            }
            proof {
                let u = s@.skip(j as int);
                assert(!(u.len() > 0 && is_digit(u[0]))) by {
                    if u.len() > 0 {
                        assert(u[0] == s@[j as int]);
                    }
                }
                assert(spec_skip_digits(u) == spec_strip_ports(u));
            }
            i = j;
        } else {
            out.push(s[i]);
            proof {
                assert(out@ + spec_strip_ports(s@.skip(i + 1))
                    =~= out0 + spec_strip_ports(t));
            }
            i = i + 1;
        }
    }
    assert(s@.skip(s@.len() as int) =~= Seq::<u8>::empty());
    assert(out@ =~= out@ + Seq::<u8>::empty());
    out
}

/// The schemes the gateway understands in a stored target.
#[derive(Clone, Copy, Debug, PartialEq, Eq, Structural)]
pub enum Scheme {
    Http,
    Https,
    Ws,
    Wss,
}

/// The literal `scheme://` bytes of each scheme.
pub open spec fn scheme_bytes(sch: Scheme) -> Seq<u8> {
    match sch {
        Scheme::Http => seq![
            'h' as u8, 't' as u8, 't' as u8, 'p' as u8, ':' as u8, '/' as u8, '/' as u8,
        ],
        Scheme::Https => seq![
            'h' as u8, 't' as u8, 't' as u8, 'p' as u8, 's' as u8, ':' as u8, '/' as u8,
            '/' as u8,
        ],
        Scheme::Ws => seq!['w' as u8, 's' as u8, ':' as u8, '/' as u8, '/' as u8],
        Scheme::Wss => seq![
            'w' as u8, 's' as u8, 's' as u8, ':' as u8, '/' as u8, '/' as u8,
        ],
    }
}

/// Does the scheme call for TLS server-name indication on the dial?
pub open spec fn scheme_sni(sch: Scheme) -> bool {
    match sch {
        Scheme::Http => false,
        Scheme::Https => true,
        Scheme::Ws => false,
        Scheme::Wss => true,
    }
}

/// The default port digits appended when the address carries none.
/// `ws`/`wss` targets get no default: the reference behavior leaves their
/// port inference open, so none is invented here.
pub open spec fn scheme_default_port(sch: Scheme) -> Option<Seq<u8>> {
    match sch {
        Scheme::Http => Some(seq!['8' as u8, '0' as u8]),
        Scheme::Https => Some(seq!['4' as u8, '4' as u8, '3' as u8]),
        Scheme::Ws => None,
        Scheme::Wss => None,
    }
}

/// The leading scheme of `s`, if any.
pub open spec fn spec_detect_scheme(s: Seq<u8>) -> Option<Scheme> {
    if spec_starts_with(s, scheme_bytes(Scheme::Https)) {
        Some(Scheme::Https)
    } else if spec_starts_with(s, scheme_bytes(Scheme::Http)) {
        Some(Scheme::Http)
    } else if spec_starts_with(s, scheme_bytes(Scheme::Wss)) {
        Some(Scheme::Wss)
    } else if spec_starts_with(s, scheme_bytes(Scheme::Ws)) {
        Some(Scheme::Ws)
    } else {
        None
    }
}

/// Build the `scheme://` literal of `sch`.
fn scheme_literal(sch: Scheme) -> (v: Vec<u8>)
    ensures
        v@ == scheme_bytes(sch),
{
    let mut v: Vec<u8> = Vec::new();
    match sch {
        Scheme::Http => {
            v.push('h' as u8);
            v.push('t' as u8);
            v.push('t' as u8);
            v.push('p' as u8);
            v.push(':' as u8);
            v.push('/' as u8);
            v.push('/' as u8);
        },
        Scheme::Https => {
            v.push('h' as u8);
            v.push('t' as u8);
            v.push('t' as u8);
            v.push('p' as u8);
            v.push('s' as u8);
            v.push(':' as u8);
            v.push('/' as u8);
            v.push('/' as u8);
        },
        Scheme::Ws => {
            v.push('w' as u8);
            v.push('s' as u8);
            v.push(':' as u8);
            v.push('/' as u8);
            v.push('/' as u8);
        },
        Scheme::Wss => {
            v.push('w' as u8);
            v.push('s' as u8);
            v.push('s' as u8);
            v.push(':' as u8);
            v.push('/' as u8);
            v.push('/' as u8);
        },
    }
    proof {
        assert(v@ =~= scheme_bytes(sch));
    }
    v
}

/// The leading scheme of `t`, if any.
pub fn detect_scheme(t: &Vec<u8>) -> (r: Option<Scheme>)
    ensures
        r == spec_detect_scheme(t@),
{
    let https = scheme_literal(Scheme::Https);
    if starts_with(t, &https) {
        return Some(Scheme::Https);
    }
    let http = scheme_literal(Scheme::Http);
    if starts_with(t, &http) {
        return Some(Scheme::Http);
    }
    let wss = scheme_literal(Scheme::Wss);
    if starts_with(t, &wss) {
        return Some(Scheme::Wss);
    }
    let ws = scheme_literal(Scheme::Ws);
    if starts_with(t, &ws) {
        return Some(Scheme::Ws);
    }
    None
}

/// Where to dial, whether to present SNI, and which host header to send.
pub struct UpstreamTarget {
    pub dial_address: Vec<u8>,
    pub sni: bool,
    pub host_header: Vec<u8>,
}

/// `a` with one trailing `/` — the empty path of a URL-shaped target —
/// dropped.
pub open spec fn spec_drop_trailing_slash(a: Seq<u8>) -> Seq<u8> {
    if a.len() > 0 && a[a.len() - 1] == SLASH {
        a.take(a.len() - 1)
    } else {
        a
    }
}

/// The target with its leading scheme (if any) stripped, and — when a
/// scheme marked it as URL-shaped — one trailing `/` dropped with it.
pub open spec fn spec_addr_after_scheme(t: Seq<u8>) -> Seq<u8> {
    match spec_detect_scheme(t) {
        Some(sch) => spec_drop_trailing_slash(t.skip(scheme_bytes(sch).len() as int)),
        None => t,
    }
}

/// The address dialed for target `t`: the scheme-stripped address, with the
/// scheme's default port appended when no explicit port is present; the
/// stored bytes verbatim when no scheme is detected.
pub open spec fn spec_dial_address(t: Seq<u8>) -> Seq<u8> {
    match spec_detect_scheme(t) {
        None => t,
        Some(sch) => {
            let a = spec_addr_after_scheme(t);
            match scheme_default_port(sch) {
                Some(p) => if spec_has_port(a) {
                    a
                } else {
                    a + seq![COLON] + p
                },
                None => a,
            }
        },
    }
}

/// Is the dial made with TLS server-name indication?
pub open spec fn spec_sni(t: Seq<u8>) -> bool {
    match spec_detect_scheme(t) {
        Some(sch) => scheme_sni(sch),
        None => false,
    }
}

/// The host header sent upstream: the scheme-stripped address with every
/// port marker removed.
pub open spec fn spec_host_header(t: Seq<u8>) -> Seq<u8> {
    spec_strip_ports(spec_addr_after_scheme(t))
}

/// Parse a stored target descriptor into an upstream target.
///
/// An empty target is malformed; any other byte string yields a target
/// whose fields follow the scheme/port/SNI derivation rules.
pub fn select_peer(target: &Vec<u8>) -> (r: Result<UpstreamTarget, GatewayError>)
    ensures
        target@.len() == 0 ==> (r matches Err(e)
            && e matches GatewayError::UpstreamTargetMalformed),
        target@.len() > 0 ==> (r matches Ok(t)
            && t.dial_address@ == spec_dial_address(target@)
            && t.sni == spec_sni(target@)
            && t.host_header@ == spec_host_header(target@)),
{
    if target.len() == 0 {
        return Err(GatewayError::UpstreamTargetMalformed);
    }
    let sch = detect_scheme(target);
    let mut addr: Vec<u8> = Vec::new();
    match sch {
        Some(s) => {
            let lit = scheme_literal(s);
            push_tail(&mut addr, target, lit.len());
            if addr.len() > 0 && addr[addr.len() - 1] == SLASH {
                let ghost before = addr@;
                addr.pop();
                proof {
                    assert(addr@ =~= spec_drop_trailing_slash(before));
                }
            }
        },
        None => {
            push_all(&mut addr, target);
        },
    }
    assert(addr@ =~= spec_addr_after_scheme(target@));
    let host_header = strip_ports(&addr);
    let sni = match sch {
        Some(Scheme::Https) | Some(Scheme::Wss) => true,
        _ => false,
    };
    let mut dial = addr;
    match sch {
        Some(Scheme::Http) => {
            if !has_port(&dial) {
                dial.push(COLON);
                dial.push('8' as u8);
                dial.push('0' as u8);
            }
        },
        Some(Scheme::Https) => {
            if !has_port(&dial) {
                dial.push(COLON);
                dial.push('4' as u8);
                dial.push('4' as u8);
                dial.push('3' as u8);
            }
        },
        _ => {},
    }
    assert(dial@ =~= spec_dial_address(target@));
    Ok(UpstreamTarget { dial_address: dial, sni, host_header })
}

} // verus!
