//! Verification flow for a notarised numeric claim: the claim is fetched,
//! its proof is checked by an independent verifier, the verifier's text is
//! reduced to a number, and only an exact match is accepted.

pub mod codec;
pub mod text;
pub mod body;
pub mod error;
pub mod numeric;
pub mod claim;
pub mod gateway;
pub mod flow;
