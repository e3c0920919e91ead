//! One verification run as a state machine.
//!
//! The run goes `Fetching`, `Decoding`, `Verifying`, then `Completed` or
//! `Failed`, and never back. Each step takes what the outside world answered
//! (an `Event`) and gives the next stage and, where the run goes on, the next
//! thing to ask of the outside world (an `Action`). The caller performs the
//! actions: the fetch, the decoding of the claim's structured text, and the
//! call to the verifier.
use crate::body::http_body;
use crate::claim::{utf8_text, Claim};
use crate::codec::encode_value;
use crate::error::VerifyError;
use crate::gateway::{check_consistency, first_verified_text, VerifiedProof, VerifyCall};
use crate::numeric::{extract_numeric, numeric_value};
use candid::Nat;
use vstd::bytes::{lemma_auto_spec_u64_to_from_le_bytes, spec_u64_from_le_bytes, spec_u64_to_le_bytes};
use vstd::prelude::*;
use vstd::utf8::{decode_utf8, valid_utf8};

verus! {

/// An HTTP status as the host reports it, an unbounded natural number; the
/// run carries it through unread.
#[verifier::external_type_specification]
#[verifier::external_body]
pub struct ExNat(candid::Nat);

/// What a run is configured with; fixed for the life of the process.
#[derive(Debug, PartialEq, Eq)]
pub struct Config {
    /// Where the claim is fetched from.
    pub target_url: String,
    /// The verifier's service address.
    pub verifier: String,
    /// The public key of the notary whose signature the verifier checks.
    pub notary_key: String,
    /// The budget attached to each call of the verifier.
    pub budget: u128,
}

/// A GET request for the claim.
#[derive(Debug, PartialEq, Eq)]
pub struct FetchRequest {
    pub url: String,
    /// The cap on the response's size; `None` for none.
    pub max_response_bytes: Option<u64>,
    pub headers: Vec<(String, String)>,
    pub body: Option<Vec<u8>>,
    /// Whether every replica makes the request.
    pub replicated: bool,
}

/// What the fetch returned.
pub struct FetchResponse {
    pub status: Nat,
    pub headers: Vec<(String, String)>,
    pub body: Vec<u8>,
}

/// The accepted outcome of a run: the fetch's status and headers, with the
/// body replaced by the verified value in eight little-endian bytes.
pub struct VerificationResult {
    pub status: Nat,
    pub headers: Vec<(String, String)>,
    pub body: Vec<u8>,
}

/// Where a run stands.
pub enum Stage {
    /// Waiting for the fetch.
    Fetching,
    /// Waiting for the fetched text to be read as a claim.
    Decoding { status: Nat, headers: Vec<(String, String)> },
    /// Waiting for the verifier's reply on the claim's proof.
    Verifying { claim: Claim, status: Nat, headers: Vec<(String, String)> },
    /// Accepted.
    Completed(VerificationResult),
    /// Stopped at the first failure.
    Failed(VerifyError),
}

/// What the outside world answered.
pub enum Event {
    /// The fetch's response, or the transport's message.
    Fetched(Result<FetchResponse, String>),
    /// The claim read from the fetched text, or why it could not be read.
    ClaimRead(Result<Claim, String>),
    /// The verifier's reply, or why the call failed.
    Replied(Result<Vec<VerifiedProof>, String>),
}

/// What the run asks of the outside world next.
pub enum Action {
    Fetch(FetchRequest),
    /// Read this text as a claim: an object with a numeric `data` and a
    /// string `proof`.
    ReadClaim(String),
    Verify(VerifyCall),
}

/// The value that a reply verifies: the number stated by its first proof.
pub open spec fn verified_value(reply: Result<Vec<VerifiedProof>, String>) -> Option<u64> {
    match reply {
        Ok(v) => if v.len() > 0 {
            numeric_value(v[0].payload())
        } else {
            None
        },
        Err(_) => None,
    }
}

/// `e` is the failure that `reply` gives against the claimed value `data`.
pub open spec fn reply_error(
    data: u64,
    reply: Result<Vec<VerifiedProof>, String>,
    e: VerifyError,
) -> bool {
    match reply {
        Err(m) => e matches VerifyError::Gateway(g) && g@ == m@,
        Ok(v) => if v.len() == 0 {
            e == VerifyError::EmptyReply
        } else {
            match numeric_value(v[0].payload()) {
                None => e matches VerifyError::NumericExtraction(t) && t@ == http_body(
                    v[0].payload(),
                ),
                Some(n) => n != data && e == (VerifyError::Mismatch { claimed: data, verified: n }),
            }
        },
    }
}

/// The request that starts a run: a plain GET of the target, with no
/// headers, no body, no size cap, made by one replica.
pub open spec fn is_claim_request(config: Config, req: FetchRequest) -> bool {
    &&& req.url@ == config.target_url@
    &&& req.max_response_bytes is None
    &&& req.headers@.len() == 0
    &&& req.body is None
    &&& !req.replicated
}

/// The call that checks `claim`: its proof alone, with the configured key,
/// address and budget.
pub open spec fn is_claim_check(config: Config, claim: Claim, call: VerifyCall) -> bool {
    &&& call.verifier@ == config.verifier@
    &&& call.proofs@.len() == 1
    &&& call.proofs@[0]@ == claim.proof@
    &&& call.notary_key@ == config.notary_key@
    &&& call.budget == config.budget
}

/// How `step` moves from `stage` on `event` to `next` and `action`.
pub open spec fn steps_to(
    stage: Stage,
    config: Config,
    event: Event,
    next: Stage,
    action: Option<Action>,
) -> bool {
    match (stage, event) {
        (Stage::Fetching, Event::Fetched(Err(m))) => {
            &&& action is None
            &&& next matches Stage::Failed(VerifyError::Fetch(e)) && e@ == m@
        },
        (Stage::Fetching, Event::Fetched(Ok(resp))) => if valid_utf8(resp.body@) {
            &&& next == (Stage::Decoding { status: resp.status, headers: resp.headers })
            &&& action matches Some(Action::ReadClaim(t))
            &&& t@ == decode_utf8(resp.body@)
        } else {
            action is None && next matches Stage::Failed(VerifyError::Decode(_))
        },
        (Stage::Decoding { status: _, headers: _ }, Event::ClaimRead(Err(m))) => {
            &&& action is None
            &&& next matches Stage::Failed(VerifyError::Decode(e)) && e@ == m@
        },
        (Stage::Decoding { status, headers }, Event::ClaimRead(Ok(claim))) => {
            &&& next == (Stage::Verifying { claim, status, headers })
            &&& action matches Some(Action::Verify(call))
            &&& is_claim_check(config, claim, call)
        },
        (Stage::Verifying { claim, status, headers }, Event::Replied(reply)) => {
            &&& action is None
            &&& (next is Completed <==> verified_value(reply) == Some(claim.data))
            &&& next matches Stage::Completed(res) ==> {
                &&& res.status == status
                &&& res.headers == headers
                &&& res.body@ == spec_u64_to_le_bytes(claim.data)
            }
            &&& next matches Stage::Failed(e) ==> reply_error(claim.data, reply, e)
            &&& next is Completed || next is Failed
        },
        _ => next == stage && action is None,
    }
}

/// A run reaches `Completed` only from `Verifying`, on a reply whose first
/// proof states exactly the claimed value, and the result's body then
/// decodes to that value.
pub proof fn lemma_completion_is_verified(
    stage: Stage,
    config: Config,
    event: Event,
    next: Stage,
    action: Option<Action>,
)
    requires
        steps_to(stage, config, event, next, action),
        !(stage is Completed),
        next is Completed,
    ensures
        match (stage, event, next) {
            (
                Stage::Verifying { claim, status: _, headers: _ },
                Event::Replied(reply),
                Stage::Completed(res),
            ) => {
                &&& verified_value(reply) == Some(claim.data)
                &&& spec_u64_from_le_bytes(res.body@) == claim.data
            },
            _ => false,
        },
{
    lemma_auto_spec_u64_to_from_le_bytes();
}

/// Starts a run: the stage is `Fetching` and the action the claim's fetch.
pub fn start(config: &Config) -> (r: (Stage, Action))
    ensures
        r.0 is Fetching,
        r.1 matches Action::Fetch(req) && is_claim_request(*config, req),
{
    let req = FetchRequest {
        url: config.target_url.clone(),
        max_response_bytes: None,
        headers: Vec::new(),
        body: None,
        replicated: false,
    };
    (Stage::Fetching, Action::Fetch(req))
}

/// The value that `reply` verifies, accepted only where it equals `data`;
/// otherwise the first failure met.
pub fn settle(data: u64, reply: &Result<Vec<VerifiedProof>, String>) -> (r: Result<
    u64,
    VerifyError,
>)
    ensures
        r is Ok <==> verified_value(*reply) == Some(data),
        r matches Ok(n) ==> n == data,
        r matches Err(e) ==> reply_error(data, *reply, e),
{
    let text = first_verified_text(reply)?;
    let value = extract_numeric(text.as_str())?;
    check_consistency(data, value)?;
    Ok(value)
}

/// Moves a run on by one event; see `steps_to`. An event that the stage does
/// not wait for leaves it as it is.
pub fn step(stage: Stage, config: &Config, event: Event) -> (r: (Stage, Option<Action>))
    ensures
        steps_to(stage, *config, event, r.0, r.1),
{
    match (stage, event) {
        (Stage::Fetching, Event::Fetched(Err(m))) => (Stage::Failed(VerifyError::Fetch(m)), None),
        (Stage::Fetching, Event::Fetched(Ok(resp))) => {
            let FetchResponse { status, headers, body } = resp;
            match utf8_text(body) {
                Some(t) => (Stage::Decoding { status, headers }, Some(Action::ReadClaim(t))),
                None => (
                    Stage::Failed(
                        VerifyError::Decode(String::from_str("response body is not UTF-8 text")),
                    ),
                    None,
                ),
            }
        },
        (Stage::Decoding { status: _, headers: _ }, Event::ClaimRead(Err(m))) => (
            Stage::Failed(VerifyError::Decode(m)),
            None,
        ),
        (Stage::Decoding { status, headers }, Event::ClaimRead(Ok(claim))) => {
            let call = VerifyCall {
                verifier: config.verifier.clone(),
                proofs: vec![claim.proof.clone()],
                notary_key: config.notary_key.clone(),
                budget: config.budget,
            };
            (Stage::Verifying { claim, status, headers }, Some(Action::Verify(call)))
        },
        (Stage::Verifying { claim, status, headers }, Event::Replied(reply)) => {
            match settle(claim.data, &reply) {
                Ok(value) => {
                    let body = encode_value(value);
                    (Stage::Completed(VerificationResult { status, headers, body }), None)
                },
                Err(e) => (Stage::Failed(e), None),
            }
        },
        (stage, _) => (stage, None),
    }
}

} // verus!
