//! Byte-string operations the rewriters are built on.
//!
//! Every exec function here is specified against a recursive spec function
//! over `Seq<u8>`; the rewriters state their contracts in terms of these
//! spec functions.

use vstd::prelude::*;

verus! {

/// The view of an optional byte vector.
pub open spec fn opt_view(o: Option<Vec<u8>>) -> Option<Seq<u8>> {
    match o {
        Some(v) => Some(v@),
        None => None,
    }
}

/// The view of an optional borrowed byte vector.
pub open spec fn opt_ref_view(o: Option<&Vec<u8>>) -> Option<Seq<u8>> {
    match o {
        Some(v) => Some(v@),
        None => None,
    }
}

/// Does `pat` occur in `text` starting at index `i`?
pub open spec fn matches_at(text: Seq<u8>, pat: Seq<u8>, i: int) -> bool {
    &&& 0 <= i
    &&& i + pat.len() <= text.len()
    &&& text.subrange(i, i + pat.len() as int) == pat
}

/// Does `pat` occur anywhere in `text`?
pub open spec fn spec_contains(text: Seq<u8>, pat: Seq<u8>) -> bool {
    exists|i: int| matches_at(text, pat, i)
}

/// `text` with the first occurrence of `pat` replaced by `rep`, scanning
/// left to right; `text` unchanged when `pat` is absent or empty.
pub open spec fn spec_replace_first(text: Seq<u8>, pat: Seq<u8>, rep: Seq<u8>) -> Seq<u8>
    decreases text.len(),
{
    if pat.len() == 0 || text.len() < pat.len() {
        text
    } else if text.take(pat.len() as int) == pat {
        rep + text.skip(pat.len() as int)
    } else {
        seq![text[0]] + spec_replace_first(text.skip(1), pat, rep)
    }
}

/// `text` with every occurrence of `pat` replaced by `rep`, scanning left
/// to right without revisiting replaced text; `text` unchanged when `pat`
/// is empty.
pub open spec fn spec_replace_all(text: Seq<u8>, pat: Seq<u8>, rep: Seq<u8>) -> Seq<u8>
    decreases text.len(),
{
    if pat.len() == 0 || text.len() == 0 {
        text
    } else if pat.len() <= text.len() && text.take(pat.len() as int) == pat {
        rep + spec_replace_all(text.skip(pat.len() as int), pat, rep)
    } else {
        seq![text[0]] + spec_replace_all(text.skip(1), pat, rep)
    }
}

/// Append every byte of `src` to `out`.
pub fn push_all(out: &mut Vec<u8>, src: &Vec<u8>)
    ensures
        final(out)@ == old(out)@ + src@,
{
    let mut i: usize = 0;
    while i < src.len()
        invariant
            i <= src.len(),
            out@ == old(out)@ + src@.take(i as int),
        decreases src.len() - i,
    {
        out.push(src[i]);
        assert(old(out)@ + src@.take(i as int) + seq![src@[i as int]]
            == old(out)@ + src@.take(i + 1));
        i = i + 1;
    }
    assert(src@.take(src@.len() as int) == src@);
}

/// Does `pat` occur in `text` starting at `i`?
pub fn match_at(text: &Vec<u8>, pat: &Vec<u8>, i: usize) -> (r: bool)
    requires
        i + pat@.len() <= text@.len(),
    ensures
        r == matches_at(text@, pat@, i as int),
{
    let mut j: usize = 0;
    while j < pat.len()
        invariant
            i + pat.len() <= text.len(),
            j <= pat.len(),
            text@.subrange(i as int, i + j) == pat@.take(j as int),
        decreases pat.len() - j,
    {
        if text[i + j] != pat[j] {
            assert(text@.subrange(i as int, i + pat@.len() as int)[j as int] == text@[i + j]);
            return false;
        }
        assert(text@.subrange(i as int, i + j) + seq![text@[i + j]]
            == text@.subrange(i as int, i + j + 1));
        assert(pat@.take(j as int) + seq![pat@[j as int]] == pat@.take(j + 1));
        j = j + 1;
    }
    assert(text@.subrange(i as int, i + pat@.len() as int) == pat@.take(pat@.len() as int));
    assert(pat@.take(pat@.len() as int) == pat@);
    true
}

/// Does `pat` occur anywhere in `text`?
pub fn contains(text: &Vec<u8>, pat: &Vec<u8>) -> (r: bool)
    ensures
        r == spec_contains(text@, pat@),
{
    if pat.len() > text.len() {
        assert(forall|i: int| !matches_at(text@, pat@, i));
        return false;
    }
    if pat.len() == 0 {
        assert(text@.subrange(0, 0) =~= pat@);
        assert(matches_at(text@, pat@, 0));
        return true;
    }
    let mut i: usize = 0;
    let last = text.len() - pat.len();
    while i <= last
        invariant
            1 <= pat.len() <= text.len(),
            last == text.len() - pat.len(),
            i <= last + 1,
            forall|k: int| 0 <= k < i ==> !matches_at(text@, pat@, k),
        decreases last + 1 - i,
    {
        if match_at(text, pat, i) {
            return true;
        }
        i = i + 1;
    }
    assert(forall|k: int| matches_at(text@, pat@, k) ==> 0 <= k <= last);
    false
}

/// Does `s` begin with `pre`?
pub open spec fn spec_starts_with(s: Seq<u8>, pre: Seq<u8>) -> bool {
    pre.len() <= s.len() && s.take(pre.len() as int) == pre
}

/// Does `s` begin with `pre`?
pub fn starts_with(s: &Vec<u8>, pre: &Vec<u8>) -> (r: bool)
    ensures
        r == spec_starts_with(s@, pre@),
{
    if pre.len() > s.len() {
        false
    } else {
        let m = match_at(s, pre, 0);
        assert(s@.subrange(0, pre@.len() as int) =~= s@.take(pre@.len() as int));
        m
    }
}

/// Append `src[from..]` to `out`.
pub fn push_tail(out: &mut Vec<u8>, src: &Vec<u8>, from: usize)
    requires
        from <= src@.len(),
    ensures
        final(out)@ == old(out)@ + src@.skip(from as int),
{
    let mut k: usize = from;
    while k < src.len()
        invariant
            from <= k <= src.len(),
            out@ == old(out)@ + src@.subrange(from as int, k as int),
        decreases src.len() - k,
    {
        out.push(src[k]);
        assert(old(out)@ + src@.subrange(from as int, k as int) + seq![src@[k as int]]
            =~= old(out)@ + src@.subrange(from as int, k + 1));
        k = k + 1;
    }
    assert(src@.subrange(from as int, src@.len() as int) =~= src@.skip(from as int));
}

proof fn lemma_replace_first_step(s: Seq<u8>, pat: Seq<u8>, rep: Seq<u8>)
    requires
        pat.len() >= 1,
        s.len() >= 1,
        !(pat.len() <= s.len() && s.take(pat.len() as int) == pat),
    ensures
        spec_replace_first(s, pat, rep) == seq![s[0]] + spec_replace_first(s.skip(1), pat, rep),
{
    if s.len() < pat.len() {
        assert(s.skip(1).len() < pat.len());
        assert(seq![s[0]] + s.skip(1) =~= s);
    }
}

proof fn lemma_replace_all_step(s: Seq<u8>, pat: Seq<u8>, rep: Seq<u8>)
    requires
        pat.len() >= 1,
        s.len() >= 1,
        !(pat.len() <= s.len() && s.take(pat.len() as int) == pat),
    ensures
        spec_replace_all(s, pat, rep) == seq![s[0]] + spec_replace_all(s.skip(1), pat, rep),
{
}

/// `text` with the first occurrence of `pat` (if any) replaced by `rep`.
pub fn replace_first(text: &Vec<u8>, pat: &Vec<u8>, rep: &Vec<u8>) -> (r: Vec<u8>)
    ensures
        r@ == spec_replace_first(text@, pat@, rep@),
{
    let mut out: Vec<u8> = Vec::new();
    if pat.len() == 0 {
        push_all(&mut out, text);
        return out;
    }
    let mut i: usize = 0;
    assert(text@.skip(0) =~= text@);
    assert(out@ + spec_replace_first(text@, pat@, rep@)
        =~= spec_replace_first(text@, pat@, rep@));
    while i < text.len()
        invariant
            pat.len() >= 1,
            i <= text.len(),
            out@ + spec_replace_first(text@.skip(i as int), pat@, rep@)
                == spec_replace_first(text@, pat@, rep@),
        decreases text.len() - i,
    {
        let ghost s = text@.skip(i as int);
        let ghost out0 = out@;
        if pat.len() <= text.len() - i && match_at(text, pat, i) {
            proof {
                assert(s.take(pat@.len() as int)
                    =~= text@.subrange(i as int, i + pat@.len() as int));
                assert(spec_replace_first(s, pat@, rep@) == rep@ + s.skip(pat@.len() as int));
                assert(s.skip(pat@.len() as int) =~= text@.skip(i + pat@.len() as int));
            }
            push_all(&mut out, rep);
            push_tail(&mut out, text, i + pat.len());
            assert(out@ =~= out0 + spec_replace_first(s, pat@, rep@));
            return out;
        } else {
            proof {
                if pat@.len() <= s.len() {
                    assert(s.take(pat@.len() as int)
                        =~= text@.subrange(i as int, i + pat@.len() as int));
                }
                lemma_replace_first_step(s, pat@, rep@);
                assert(s[0] == text@[i as int]);
                assert(s.skip(1) =~= text@.skip(i + 1));
            }
            out.push(text[i]);
            i = i + 1;
        }
    }
    assert(text@.skip(text@.len() as int) =~= Seq::<u8>::empty());
    assert(out@ =~= out@ + Seq::<u8>::empty());
    out
}

/// `text` with every occurrence of `pat` (if any) replaced by `rep`,
/// scanning left to right without revisiting replaced text.
pub fn replace_all(text: &Vec<u8>, pat: &Vec<u8>, rep: &Vec<u8>) -> (r: Vec<u8>)
    ensures
        r@ == spec_replace_all(text@, pat@, rep@),
{
    let mut out: Vec<u8> = Vec::new();
    if pat.len() == 0 {
        push_all(&mut out, text);
        return out;
    }
    let mut i: usize = 0;
    assert(text@.skip(0) =~= text@);
    assert(out@ + spec_replace_all(text@, pat@, rep@)
        =~= spec_replace_all(text@, pat@, rep@));
    while i < text.len()
        invariant
            pat.len() >= 1,
            i <= text.len(),
            out@ + spec_replace_all(text@.skip(i as int), pat@, rep@)
                == spec_replace_all(text@, pat@, rep@),
        decreases text.len() - i,
    {
        let ghost s = text@.skip(i as int);
        let ghost out0 = out@;
        if pat.len() <= text.len() - i && match_at(text, pat, i) {
            proof {
                assert(s.take(pat@.len() as int)
                    =~= text@.subrange(i as int, i + pat@.len() as int));
                assert(spec_replace_all(s, pat@, rep@)
                    == rep@ + spec_replace_all(s.skip(pat@.len() as int), pat@, rep@));
                assert(s.skip(pat@.len() as int) =~= text@.skip(i + pat@.len() as int));
            }
            push_all(&mut out, rep);
            proof {
                assert(out@ + spec_replace_all(text@.skip(i + pat@.len() as int), pat@, rep@)
                    =~= out0 + spec_replace_all(s, pat@, rep@));
            }
            i = i + pat.len();
        } else {
            proof {
                if pat@.len() <= s.len() {
                    assert(s.take(pat@.len() as int)
                        =~= text@.subrange(i as int, i + pat@.len() as int));
                }
                lemma_replace_all_step(s, pat@, rep@);
                assert(s[0] == text@[i as int]);
                assert(s.skip(1) =~= text@.skip(i + 1));
            }
            out.push(text[i]);
            proof {
                assert(out@ + spec_replace_all(text@.skip(i + 1), pat@, rep@)
                    =~= out0 + spec_replace_all(s, pat@, rep@));
            }
            i = i + 1;
        }
    }
    assert(text@.skip(text@.len() as int) =~= Seq::<u8>::empty());
    assert(out@ =~= out@ + Seq::<u8>::empty());
    out
}

} // verus!
