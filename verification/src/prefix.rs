//! Routing-key resolution: the first two non-empty path segments.
//!
//! A request path such as `/svc/v1/assets/app.js` yields the route prefix
//! `/svc/v1`; a path with fewer than two non-empty segments yields
//! [`GatewayError::ClientRequestMalformed`].

use vstd::prelude::*;

use crate::errors::GatewayError;
use crate::textops::push_all;

verus! {

/// The path separator, `/`.
pub const SLASH: u8 = 47;

/// The views of a sequence of byte vectors.
pub open spec fn seg_views(v: Seq<Vec<u8>>) -> Seq<Seq<u8>> {
    v.map_values(|e: Vec<u8>| e@)
}

/// The non-empty `/`-separated segments of `s`, in order.
pub open spec fn spec_segments(s: Seq<u8>) -> Seq<Seq<u8>>
    decreases s.len(),
{
    if s.len() == 0 {
        Seq::empty()
    } else {
        let rest = spec_segments(s.skip(1));
        if s[0] == SLASH {
            rest
        } else if s.len() >= 2 && s[1] != SLASH {
            seq![seq![s[0]] + rest[0]] + rest.skip(1)
        } else {
            seq![seq![s[0]]] + rest
        }
    }
}

/// The segments of `cur + s` when `cur` is a partial segment already read
/// (empty when the scan sits on a segment boundary).
spec fn glue(cur: Seq<u8>, s: Seq<u8>) -> Seq<Seq<u8>> {
    if cur.len() == 0 {
        spec_segments(s)
    } else if s.len() > 0 && s[0] != SLASH {
        seq![cur + spec_segments(s)[0]] + spec_segments(s).skip(1)
    } else {
        seq![cur] + spec_segments(s)
    }
}

proof fn lemma_segments_nonslash(s: Seq<u8>)
    requires
        s.len() > 0,
        s[0] != SLASH,
    ensures
        spec_segments(s).len() >= 1,
        spec_segments(s)[0].len() >= 1,
    decreases s.len(),
{
    if s.len() >= 2 && s[1] != SLASH {
        assert(s.skip(1)[0] == s[1]);
        lemma_segments_nonslash(s.skip(1));
    }
}

/// Split `path` into its non-empty `/`-separated segments.
pub fn split_segments(path: &Vec<u8>) -> (segs: Vec<Vec<u8>>)
    ensures
        seg_views(segs@) == spec_segments(path@),
{
    let mut segs: Vec<Vec<u8>> = Vec::new();
    let mut cur: Vec<u8> = Vec::new();
    let mut i: usize = 0;
    assert(path@.skip(0) =~= path@);
    assert(seg_views(segs@) + glue(cur@, path@) =~~= glue(cur@, path@));
    while i < path.len()
        invariant
            i <= path.len(),
            seg_views(segs@) + glue(cur@, path@.skip(i as int)) == spec_segments(path@),
        decreases path.len() - i,
    {
        let ghost s = path@.skip(i as int);
        let ghost cur0 = cur@;
        let ghost segs0 = segs@;
        proof {
            assert(s.len() == path@.len() - i);
            assert(s[0] == path@[i as int]);
            assert(s.skip(1) =~= path@.skip(i + 1));
        }
        let b = path[i];
        if b == SLASH {
            if cur.len() > 0 {
                segs.push(cur);
                cur = Vec::new();
                proof {
                    assert(seg_views(segs@) =~~= seg_views(segs0).push(cur0));
                    assert(seg_views(segs@) + glue(cur@, path@.skip(i + 1))
                        =~~= seg_views(segs0) + glue(cur0, s));
                }
            }
        } else {
            proof {
                lemma_segments_nonslash(s);
                if s.len() >= 2 && s[1] != SLASH {
                    assert(s.skip(1)[0] == s[1]);
                    lemma_segments_nonslash(s.skip(1));
                    assert(glue(cur0.push(b), s.skip(1))
                        =~~= glue(cur0, s));
                } else {
                    assert(glue(cur0.push(b), s.skip(1))
                        =~~= glue(cur0, s));
                }
            }
            cur.push(b);
        }
        i = i + 1;
    }
    proof {
        assert(path@.skip(path@.len() as int) =~= Seq::<u8>::empty());
    }
    if cur.len() > 0 {
        let ghost segs0 = segs@;
        let ghost cur0 = cur@;
        segs.push(cur);
        proof {
            assert(seg_views(segs@) =~~= seg_views(segs0).push(cur0));
            assert(seg_views(segs0).push(cur0) =~~= seg_views(segs0) + glue(cur0, Seq::<u8>::empty()));
        }
    } else {
        proof {
            assert(seg_views(segs@) + glue(cur@, Seq::<u8>::empty()) =~~= seg_views(segs@));
        }
    }
    segs
}

/// Law: every segment a path splits into is non-empty and free of `/`.
pub proof fn lemma_segments_wellformed(s: Seq<u8>)
    ensures
        forall|i: int| 0 <= i < spec_segments(s).len()
            ==> (#[trigger] spec_segments(s)[i]).len() >= 1,
        forall|i: int, j: int|
            0 <= i < spec_segments(s).len() && 0 <= j < spec_segments(s)[i].len()
            ==> #[trigger] spec_segments(s)[i][j] != SLASH,
    decreases s.len(),
{
    if s.len() == 0 {
    } else {
        lemma_segments_wellformed(s.skip(1));
        let rest = spec_segments(s.skip(1));
        if s[0] == SLASH {
        } else if s.len() >= 2 && s[1] != SLASH {
            assert(s.skip(1)[0] == s[1]);
            lemma_segments_nonslash(s.skip(1));
            let whole = spec_segments(s);
            assert(whole[0] == seq![s[0]] + rest[0]);
            assert forall|i: int| 0 <= i < whole.len() implies
                (#[trigger] whole[i]).len() >= 1 by {
                if i > 0 {
                    assert(whole[i] == rest.skip(1)[i - 1]);
                    assert(rest.skip(1)[i - 1] == rest[i]);
                }
            }
            assert forall|i: int, j: int|
                0 <= i < whole.len() && 0 <= j < whole[i].len() implies
                #[trigger] whole[i][j] != SLASH by {
                if i == 0 {
                    if j == 0 {
                        assert(whole[0][0] == s[0]);
                    } else {
                        assert(whole[0][j] == rest[0][j - 1]);
                    }
                } else {
                    assert(whole[i] == rest.skip(1)[i - 1]);
                    assert(rest.skip(1)[i - 1] == rest[i]);
                }
            }
        } else {
            let whole = spec_segments(s);
            assert(whole[0] == seq![s[0]]);
            assert forall|i: int, j: int|
                0 <= i < whole.len() && 0 <= j < whole[i].len() implies
                #[trigger] whole[i][j] != SLASH by {
                if i == 0 {
                    assert(whole[0][0] == s[0]);
                } else {
                    assert(whole[i] == rest[i - 1]);
                }
            }
        }
    }
}

/// The route prefix of a path with at least two non-empty segments:
/// `/` + first segment + `/` + second segment.
pub open spec fn spec_route_prefix(path: Seq<u8>) -> Seq<u8> {
    seq![SLASH] + spec_segments(path)[0] + seq![SLASH] + spec_segments(path)[1]
}

proof fn lemma_segments_of_run_concat(a: Seq<u8>, x: Seq<u8>)
    requires
        a.len() >= 1,
        forall|j: int| 0 <= j < a.len() ==> #[trigger] a[j] != SLASH,
        x.len() == 0 || x[0] == SLASH,
    ensures
        spec_segments(a + x) == seq![a] + spec_segments(x),
    decreases a.len(),
{
    let s = a + x;
    assert(s[0] == a[0]);
    if a.len() == 1 {
        assert(s.skip(1) =~= x);
        if x.len() == 0 {
            assert(spec_segments(s) =~~= seq![a] + spec_segments(x));
        } else {
            assert(s[1] == x[0]);
            assert(seq![s[0]] =~= a);
            assert(spec_segments(s) =~~= seq![a] + spec_segments(x));
        }
    } else {
        assert(s[1] == a[1]);
        assert(s.skip(1) =~= a.skip(1) + x);
        assert(a.skip(1).len() >= 1);
        lemma_segments_of_run_concat(a.skip(1), x);
        let rest = spec_segments(s.skip(1));
        assert(rest == seq![a.skip(1)] + spec_segments(x));
        assert(rest[0] == a.skip(1));
        assert(seq![s[0]] + rest[0] =~= a);
        assert(rest.skip(1) =~~= spec_segments(x));
        assert(spec_segments(s) =~~= seq![a] + spec_segments(x));
    }
}

/// Law: the route prefix derived from a path is itself a path of exactly
/// the first two non-empty segments — it begins with `/`, and splitting
/// it again gives back those two segments and nothing else.
pub proof fn lemma_route_prefix_has_two_segments(path: Seq<u8>)
    requires
        spec_segments(path).len() >= 2,
    ensures
        spec_route_prefix(path)[0] == SLASH,
        spec_segments(spec_route_prefix(path))
            == seq![spec_segments(path)[0], spec_segments(path)[1]],
{
    lemma_segments_wellformed(path);
    let s0 = spec_segments(path)[0];
    let s1 = spec_segments(path)[1];
    let p = spec_route_prefix(path);
    assert(p[0] == SLASH);
    assert(p.skip(1) =~= s0 + (seq![SLASH] + s1));
    assert(spec_segments(p) == spec_segments(s0 + (seq![SLASH] + s1)));
    lemma_segments_of_run_concat(s0, seq![SLASH] + s1);
    assert((seq![SLASH] + s1).skip(1) =~= s1);
    lemma_segments_of_run_concat(s1, Seq::empty());
    assert(s1 + Seq::<u8>::empty() =~= s1);
    assert(spec_segments(s1) =~~= seq![s1]);
    assert(spec_segments(seq![SLASH] + s1) =~~= seq![s1]);
    assert(spec_segments(p) =~~= seq![s0, s1]);
}

/// Derive the two-segment routing key from a request path.
///
/// Returns the prefix `/seg0/seg1` built from the first two non-empty
/// segments, or `ClientRequestMalformed` carrying the observed segments
/// when fewer than two exist.
pub fn parse_prefix(path: &Vec<u8>) -> (r: Result<Vec<u8>, GatewayError>)
    ensures
        spec_segments(path@).len() >= 2 ==> (r matches Ok(p)
            && p@ == spec_route_prefix(path@)),
        spec_segments(path@).len() < 2 ==> (r matches Err(e)
            && e matches GatewayError::ClientRequestMalformed { segments }
            && seg_views(segments@) == spec_segments(path@)),
{
    let segs = split_segments(path);
    if segs.len() < 2 {
        return Err(GatewayError::ClientRequestMalformed { segments: segs });
    }
    let mut out: Vec<u8> = Vec::new();
    out.push(SLASH);
    push_all(&mut out, &segs[0]);
    out.push(SLASH);
    push_all(&mut out, &segs[1]);
    proof {
        assert(segs@[0]@ == seg_views(segs@)[0]);
        assert(segs@[1]@ == seg_views(segs@)[1]);
        assert(out@ =~= spec_route_prefix(path@));
    }
    Ok(out)
}

} // verus!
