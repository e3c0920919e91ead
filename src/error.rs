//! The ways one verification run can fail.
use vstd::prelude::*;

verus! {

/// Why a verification run stopped; each run fails with the first of these
/// that it meets.
#[derive(Debug, PartialEq, Eq)]
pub enum VerifyError {
    /// The fetch of the claim could not be completed; the transport's message.
    Fetch(String),
    /// The fetched body is not UTF-8 text, or not a well-formed claim; the reason.
    Decode(String),
    /// The verifier could not be reached, refused the call, or sent a reply
    /// of the wrong shape; the reason.
    Gateway(String),
    /// The verifier replied with no verified proof at all.
    EmptyReply,
    /// No number could be read from the verified text; that text.
    NumericExtraction(String),
    /// The claimed value and the verified value differ.
    Mismatch { claimed: u64, verified: u64 },
}

} // verus!
