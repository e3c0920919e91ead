//! Isolating the body of HTTP-shaped text.
//!
//! The text may carry a header block ended by a blank line, may be a bare
//! object, or may wrap an object in noise; the extractor copes with all three
//! and never fails.
use crate::text::{
    chars_of, find_char, find_last, find_last_char, first_index_of, is_white, last_index_of,
    last_occurrence, lemma_first_index, lemma_first_index_found, lemma_last_index,
    lemma_last_index_found, lemma_last_occurrence_found, lemma_trimmed_bounds, lemma_trimmed_white, string_from_chars,
    trim_range, trimmed,
};
use vstd::prelude::*;
use vstd::slice::slice_subrange;

verus! {

/// The blank line that ends a header block written with CR LF.
pub open spec fn crlf_separator() -> Seq<char> {
    seq!['\r', '\n', '\r', '\n']
}

/// The blank line that ends a header block written with bare LF.
pub open spec fn lf_separator() -> Seq<char> {
    seq!['\n', '\n']
}

/// Where the body starts: after the last CR LF blank line, or failing
/// that after the last LF blank line.
pub open spec fn body_start(s: Seq<char>) -> Option<int> {
    match last_occurrence(s, crlf_separator()) {
        Some(i) => Some(i + 4),
        None => match last_occurrence(s, lf_separator()) {
            Some(i) => Some(i + 2),
            None => None,
        },
    }
}

/// The trimmed text after the separator; the whole text trimmed where there
/// is no separator or nothing but whitespace follows it.
pub open spec fn framed_body(s: Seq<char>) -> Seq<char> {
    let after = match body_start(s) {
        Some(k) => s.subrange(k, s.len() as int),
        None => s,
    };
    if trimmed(after).len() == 0 {
        trimmed(s)
    } else {
        trimmed(after)
    }
}

/// From the first `{` through the last `}`, where a `}` follows a `{`;
/// otherwise `b` itself.
pub open spec fn object_span(b: Seq<char>) -> Seq<char> {
    match (first_index_of(b, '{'), last_index_of(b, '}')) {
        (Some(a), Some(z)) => if a < z {
            b.subrange(a, z + 1)
        } else {
            b
        },
        _ => b,
    }
}

/// The body of HTTP-shaped text `s`.
pub open spec fn http_body(s: Seq<char>) -> Seq<char> {
    object_span(framed_body(s))
}

/// Extracts the body of HTTP-shaped `text`; see `http_body`.
pub fn get_http_response_body(text: String) -> (r: String)
    ensures
        r@ == http_body(text@),
{
    let cs = chars_of(text.as_str());
    let n = cs.len();
    let crlf = vec!['\r', '\n', '\r', '\n'];
    let lf = vec!['\n', '\n'];
    assert(crlf@ =~= crlf_separator());
    assert(lf@ =~= lf_separator());
    let start: Option<usize> = match find_last(cs.as_slice(), crlf.as_slice()) {
        Some(i) => Some(i + 4),
        None => match find_last(cs.as_slice(), lf.as_slice()) {
            Some(i) => Some(i + 2),
            None => None,
        },
    };
    let from: usize = match start {
        Some(k) => k,
        None => 0,
    };
    assert(cs@.subrange(0, cs@.len() as int) =~= cs@);
    let (mut lo, mut hi) = trim_range(cs.as_slice(), from, n);
    if lo == hi {
        let (a, b) = trim_range(cs.as_slice(), 0, n);
        lo = a;
        hi = b;
    }
    let body = slice_subrange(cs.as_slice(), lo, hi);
    assert(body@ == framed_body(text@));
    if let Some(a) = find_char(body, '{') {
        if let Some(z) = find_last_char(body, '}') {
            if a < z {
                return string_from_chars(slice_subrange(body, a, z + 1));
            }
        }
    }
    string_from_chars(body)
}

/// A body that is already an object `{...}` is kept whole.
proof fn lemma_object_span_whole(t: Seq<char>)
    requires
        t.len() > 0,
        t[0] == '{',
        t.last() == '}',
    ensures
        object_span(t) == t,
{
    lemma_first_index(t, '{', 0);
    lemma_last_index(t, '}', t.len() - 1);
    assert(t.subrange(0, t.len() as int) =~= t);
}

/// After a header block ended by CR LF CR LF, where that blank line is the
/// last one and what follows it, trimmed, is an object `{...}`, the body is
/// exactly that trimmed text.
pub proof fn lemma_crlf_framed_object(head: Seq<char>, tail: Seq<char>)
    requires
        last_occurrence(head + crlf_separator() + tail, crlf_separator()) == Some(
            head.len() as int,
        ),
        trimmed(tail).len() > 0,
        trimmed(tail)[0] == '{',
        trimmed(tail).last() == '}',
    ensures
        http_body(head + crlf_separator() + tail) == trimmed(tail),
{
    let s = head + crlf_separator() + tail;
    assert(s.subrange(head.len() + 4int, s.len() as int) =~= tail);
    lemma_object_span_whole(trimmed(tail));
}

/// After a header block ended by LF LF, where the text holds no CR LF CR LF,
/// that blank line is the last one and what follows it, trimmed, is an
/// object `{...}`, the body is exactly that trimmed text.
pub proof fn lemma_lf_framed_object(head: Seq<char>, tail: Seq<char>)
    requires
        last_occurrence(head + lf_separator() + tail, crlf_separator()) is None,
        last_occurrence(head + lf_separator() + tail, lf_separator()) == Some(head.len() as int),
        trimmed(tail).len() > 0,
        trimmed(tail)[0] == '{',
        trimmed(tail).last() == '}',
    ensures
        http_body(head + lf_separator() + tail) == trimmed(tail),
{
    let s = head + lf_separator() + tail;
    assert(s.subrange(head.len() + 2int, s.len() as int) =~= tail);
    lemma_object_span_whole(trimmed(tail));
}

/// Text with no blank line, in which a `}` follows the first `{`, gives
/// exactly the span from its first `{` through its last `}`.
pub proof fn lemma_unframed_object(s: Seq<char>)
    requires
        body_start(s) is None,
        first_index_of(s, '{') is Some,
        last_index_of(s, '}') is Some,
        first_index_of(s, '{')->0 < last_index_of(s, '}')->0,
    ensures
        http_body(s) == s.subrange(first_index_of(s, '{')->0, last_index_of(s, '}')->0 + 1),
{
    let a = first_index_of(s, '{')->0;
    let z = last_index_of(s, '}')->0;
    lemma_first_index_found(s, '{');
    lemma_last_index_found(s, '}');
    let (p, q) = lemma_trimmed_bounds(s);
    assert(!is_white('{') && !is_white('}'));
    assert(p <= a) by {
        if a < p {
            assert(is_white(s[a]));
        }
    }
    assert(z < q) by {
        if q <= z {
            assert(is_white(s[z]));
        }
    }
    let t = trimmed(s);
    assert(framed_body(s) == t);
    assert(t[a - p] == s[a]);
    assert(t[z - p] == s[z]);
    lemma_first_index(t, '{', a - p);
    lemma_last_index(t, '}', z - p);
    assert(t.subrange(a - p, z - p + 1) =~= s.subrange(a, z + 1));
}

/// Text made only of whitespace, or empty, gives itself trimmed: nothing.
pub proof fn lemma_white_text(s: Seq<char>)
    requires
        forall|i: int| 0 <= i < s.len() ==> is_white(#[trigger] s[i]),
    ensures
        http_body(s) == trimmed(s),
        http_body(s).len() == 0,
{
    lemma_trimmed_white(s);
    lemma_last_occurrence_found(s, crlf_separator());
    lemma_last_occurrence_found(s, lf_separator());
    match body_start(s) {
        Some(k) => {
            {
                let after = s.subrange(k, s.len() as int);
                assert forall|i: int| 0 <= i < after.len() implies is_white(#[trigger] after[i]) by {
                    assert(after[i] == s[k + i]);
                }
                lemma_trimmed_white(after);
            }
        },
        None => {},
    }
    assert(first_index_of(trimmed(s), '{') is None);
    assert(object_span(trimmed(s)) == trimmed(s));
}

} // verus!
