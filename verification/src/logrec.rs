//! The one completion record emitted per request.
//!
//! After a request's pipeline completes — success, error or disconnect —
//! exactly one record is emitted: the request summary and the final
//! response status, 0 when no response was written. Composing the record
//! happens here; handing it to the logger is the caller's I/O.

use vstd::prelude::*;

verus! {

/// The decimal digits of `n`.
pub open spec fn spec_decimal(n: nat) -> Seq<u8>
    decreases n,
{
    if n < 10 {
        seq![(48 + n) as u8]
    } else {
        spec_decimal(n / 10) + seq![(48 + n % 10) as u8]
    }
}

/// Render `n` in decimal.
pub fn decimal_digits(n: u16) -> (r: Vec<u8>)
    ensures
        r@ == spec_decimal(n as nat),
    decreases n,
{
    if n < 10 {
        let mut v: Vec<u8> = Vec::new();
        v.push(48 + n as u8);
        assert(v@ =~= spec_decimal(n as nat));
        v
    } else {
        let mut v = decimal_digits(n / 10);
        v.push(48 + (n % 10) as u8);
        assert(v@ =~= spec_decimal(n as nat));
        v
    }
}

/// The status recorded for a request: the written response's status, or
/// 0 when none was written.
pub fn final_status(written: Option<u16>) -> (code: u16)
    ensures
        code == (match written {
            Some(c) => c,
            None => 0u16,
        }),
{
    match written {
        Some(c) => c,
        None => 0,
    }
}

/// The literal ` response code: `.
pub open spec fn spec_code_label() -> Seq<u8> {
    seq![
        ' ' as u8, 'r' as u8, 'e' as u8, 's' as u8, 'p' as u8, 'o' as u8, 'n' as u8,
        's' as u8, 'e' as u8, ' ' as u8, 'c' as u8, 'o' as u8, 'd' as u8, 'e' as u8,
        ':' as u8, ' ' as u8,
    ]
}

/// The completion record for a request: its summary, then the final
/// status in decimal.
pub open spec fn spec_log_record(summary: Seq<u8>, code: u16) -> Seq<u8> {
    summary + spec_code_label() + spec_decimal(code as nat)
}

/// Compose the completion record for a request.
pub fn format_log_record(summary: &Vec<u8>, code: u16) -> (r: Vec<u8>)
    ensures
        r@ == spec_log_record(summary@, code),
{
    let mut out: Vec<u8> = Vec::new();
    crate::textops::push_all(&mut out, summary);
    out.push(' ' as u8);
    out.push('r' as u8);
    out.push('e' as u8);
    out.push('s' as u8);
    out.push('p' as u8);
    out.push('o' as u8);
    out.push('n' as u8);
    out.push('s' as u8);
    out.push('e' as u8);
    out.push(' ' as u8);
    out.push('c' as u8);
    out.push('o' as u8);
    out.push('d' as u8);
    out.push('e' as u8);
    out.push(':' as u8);
    out.push(' ' as u8);
    let digits = decimal_digits(code);
    crate::textops::push_all(&mut out, &digits);
    assert(out@ =~= spec_log_record(summary@, code));
    out
}

} // verus!
