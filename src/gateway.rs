//! The exchange with the verifier: what is sent to it and what is made of
//! its reply.
use crate::error::VerifyError;
use vstd::prelude::*;

verus! {

/// One proof as the verifier returns it, decoded and checked. Both shapes
/// carry the same kind of text and are treated alike.
#[derive(Debug, PartialEq, Eq)]
pub enum VerifiedProof {
    SessionProof(String),
    FullProof(String),
}

impl VerifiedProof {
    /// The text that the proof carries, whatever its shape.
    pub open spec fn payload(&self) -> Seq<char> {
        match self {
            VerifiedProof::SessionProof(t) => t@,
            VerifiedProof::FullProof(t) => t@,
        }
    }

    /// The text that the proof carries.
    pub fn text(&self) -> (r: &String)
        ensures
            r@ == self.payload(),
    {
        match self {
            VerifiedProof::SessionProof(t) => t,
            VerifiedProof::FullProof(t) => t,
        }
    }
}

/// A request to the verifier: the proofs to check, the notary key that must
/// have signed them, and the budget attached to the call.
#[derive(Debug, PartialEq, Eq)]
pub struct VerifyCall {
    /// The verifier's service address.
    pub verifier: String,
    /// The proof blobs, in order.
    pub proofs: Vec<String>,
    /// The notary's public key.
    pub notary_key: String,
    /// The fixed budget of the call.
    pub budget: u128,
}

/// The text of the first verified proof of a reply; later ones are ignored.
/// A failed call gives `Gateway` with its message, an empty reply `EmptyReply`.
pub fn first_verified_text(reply: &Result<Vec<VerifiedProof>, String>) -> (r: Result<
    &String,
    VerifyError,
>)
    ensures
        reply matches Err(m) ==> r matches Err(VerifyError::Gateway(e)) && e@ == m@,
        reply matches Ok(v) ==> (v.len() == 0 <==> r matches Err(VerifyError::EmptyReply)),
        reply matches Ok(v) ==> (v.len() > 0 ==> (r matches Ok(t) && t@ == v[0].payload())),
{
    match reply {
        Err(m) => Err(VerifyError::Gateway(m.clone())),
        Ok(v) => {
            if v.len() == 0 {
                Err(VerifyError::EmptyReply)
            } else {
                Ok(v[0].text())
            }
        },
    }
}

/// Accepts only when the claimed and the verified value are equal; otherwise
/// `Mismatch` with both.
pub fn check_consistency(claimed: u64, verified: u64) -> (r: Result<(), VerifyError>)
    ensures
        r is Ok <==> claimed == verified,
        r is Err ==> r == Err::<(), VerifyError>(VerifyError::Mismatch { claimed, verified }),
{
    if claimed == verified {
        Ok(())
    } else {
        Err(VerifyError::Mismatch { claimed, verified })
    }
}

} // verus!
