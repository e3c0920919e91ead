//! The claim that a fetch delivers: a value and the proof that it is authentic.
use vstd::prelude::*;
use vstd::utf8::{decode_utf8, valid_utf8};

verus! {

/// A claimed value with its proof blob, as the fetched service states them.
#[derive(Debug, PartialEq, Eq)]
pub struct Claim {
    /// The value claimed.
    pub data: u64,
    /// A proof of authenticity, meaningful only to the verifier.
    pub proof: String,
}

/// Relies on `String::from_utf8`: it succeeds exactly on valid UTF-8, and the
/// string then holds the characters that the bytes encode.
#[verifier::external_body]
pub(crate) fn utf8_text(bytes: Vec<u8>) -> (r: Option<String>)
    ensures
        r is Some <==> valid_utf8(bytes@),
        r matches Some(t) ==> t@ == decode_utf8(bytes@),
{
    String::from_utf8(bytes).ok()
}

} // verus!
