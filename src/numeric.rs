//! Reading the verified number out of the verifier's free-form text: a strict
//! parse first, then a parse of the digits alone.
use crate::body::{get_http_response_body, http_body};
use crate::error::VerifyError;
use crate::text::{chars_of, trim_range, trimmed};
use vstd::prelude::*;
use vstd::slice::slice_subrange;

verus! {

/// An ASCII decimal digit.
pub open spec fn is_digit(c: char) -> bool {
    48 <= c as u32 <= 57
}

/// The value of the digit `c`.
pub open spec fn digit_value(c: char) -> nat {
    (c as u32 - 48) as nat
}

/// Every character of `s` is a digit.
pub open spec fn all_digits(s: Seq<char>) -> bool {
    forall|i: int| 0 <= i < s.len() ==> is_digit(#[trigger] s[i])
}

/// The number that the digits `s` write in base ten.
pub open spec fn decimal_value(s: Seq<char>) -> nat
    decreases s.len(),
{
    if s.len() == 0 {
        0
    } else {
        decimal_value(s.drop_last()) * 10 + digit_value(s.last())
    }
}

/// What `str::parse::<u64>` accepts: an optional `+`, then one or more
/// digits whose value fits in a `u64`.
pub open spec fn parse_u64(s: Seq<char>) -> Option<u64> {
    let d = if s.len() > 0 && s[0] == '+' {
        s.drop_first()
    } else {
        s
    };
    if d.len() > 0 && all_digits(d) && decimal_value(d) <= u64::MAX {
        Some(decimal_value(d) as u64)
    } else {
        None
    }
}

/// The digits of `s`, in their order.
pub open spec fn digits_of(s: Seq<char>) -> Seq<char>
    decreases s.len(),
{
    if s.len() == 0 {
        Seq::empty()
    } else if is_digit(s.last()) {
        digits_of(s.drop_last()).push(s.last())
    } else {
        digits_of(s.drop_last())
    }
}

/// The number that verified text states: its body parsed strictly once
/// trimmed, or failing that the digits of its body parsed together.
pub open spec fn numeric_value(text: Seq<char>) -> Option<u64> {
    let b = http_body(text);
    match parse_u64(trimmed(b)) {
        Some(v) => Some(v),
        None => parse_u64(digits_of(b)),
    }
}

/// Appending a digit never lowers the value.
proof fn lemma_decimal_value_grows(s: Seq<char>, k: int)
    requires
        0 <= k <= s.len(),
    ensures
        decimal_value(s.subrange(0, k)) <= decimal_value(s),
    decreases s.len() - k,
{
    if k < s.len() {
        lemma_decimal_value_grows(s, k + 1);
        assert(s.subrange(0, k + 1).drop_last() =~= s.subrange(0, k));
    } else {
        assert(s.subrange(0, k) =~= s);
    }
}

/// Parses `s` as `str::parse::<u64>` does.
pub fn parse_decimal(s: &[char]) -> (r: Option<u64>)
    ensures
        r == parse_u64(s@),
{
    let n = s.len();
    let start: usize = if n > 0 && s[0] == '+' {
        1
    } else {
        0
    };
    let ghost d = if n > 0 && s@[0] == '+' {
        s@.drop_first()
    } else {
        s@
    };
    assert(d =~= s@.subrange(start as int, n as int));
    if start == n {
        return None;
    }
    let mut i = start;
    let mut v: u64 = 0;
    while i < n
        invariant
            start <= i <= n == s@.len(),
            d == s@.subrange(start as int, n as int),
            d.len() > 0,
            parse_u64(s@) == (if all_digits(d) && decimal_value(d) <= u64::MAX {
                Some(decimal_value(d) as u64)
            } else {
                None
            }),
            all_digits(s@.subrange(start as int, i as int)),
            v == decimal_value(s@.subrange(start as int, i as int)),
        decreases n - i,
    {
        let c = s[i];
        let ghost prefix = s@.subrange(start as int, i + 1);
        assert(prefix.drop_last() =~= s@.subrange(start as int, i as int));
        assert(d.subrange(0, i + 1 - start) =~= prefix);
        if !(48 <= c as u32 && c as u32 <= 57) {
            assert(d[i - start] == c);
            assert(!is_digit(d[i - start]));
            assert(!all_digits(d));
            return None;
        }
        let dv = (c as u32 - 48) as u64;
        if v > (u64::MAX - dv) / 10 {
            assert(v * 10 + dv > u64::MAX) by (nonlinear_arith)
                requires
                    v > (u64::MAX - dv) / 10,
                    dv <= 9,
            ;
            proof {
                lemma_decimal_value_grows(d, i + 1 - start);
            }
            assert(decimal_value(d) > u64::MAX);
            return None;
        }
        assert(v * 10 + dv <= u64::MAX) by (nonlinear_arith)
            requires
                v <= (u64::MAX - dv) / 10,
                dv <= 9,
        ;
        v = v * 10 + dv;
        i = i + 1;
    }
    Some(v)
}

/// The digits of `s`, in their order.
pub fn digits_only(s: &[char]) -> (r: Vec<char>)
    ensures
        r@ == digits_of(s@),
{
    let mut r: Vec<char> = Vec::new();
    let mut i: usize = 0;
    while i < s.len()
        invariant
            i <= s@.len(),
            r@ == digits_of(s@.subrange(0, i as int)),
        decreases s@.len() - i,
    {
        assert(s@.subrange(0, i + 1).drop_last() =~= s@.subrange(0, i as int));
        let c = s[i];
        if 48 <= c as u32 && c as u32 <= 57 {
            r.push(c);
        }
        i = i + 1;
    }
    assert(s@.subrange(0, s@.len() as int) =~= s@);
    r
}

/// Reads the number that `proof_text` states; see `numeric_value`. Fails,
/// carrying the body of the text, exactly when it states none.
pub fn extract_numeric(proof_text: &str) -> (r: Result<u64, VerifyError>)
    ensures
        r matches Ok(v) ==> numeric_value(proof_text@) == Some(v),
        r is Err ==> numeric_value(proof_text@) is None,
        r matches Err(e) ==> e matches VerifyError::NumericExtraction(t) && t@ == http_body(
            proof_text@,
        ),
{
    let body = get_http_response_body(String::from_str(proof_text));
    let cs = chars_of(body.as_str());
    let (lo, hi) = trim_range(cs.as_slice(), 0, cs.len());
    assert(cs@.subrange(0, cs@.len() as int) =~= cs@);
    if let Some(v) = parse_decimal(slice_subrange(cs.as_slice(), lo, hi)) {
        return Ok(v);
    }
    let digits = digits_only(cs.as_slice());
    match parse_decimal(digits.as_slice()) {
        Some(v) => Ok(v),
        None => Err(VerifyError::NumericExtraction(body)),
    }
}

} // verus!
