use candid::Nat;
use verity_canister::claim::Claim;
use verity_canister::codec::decode_value;
use verity_canister::error::VerifyError;
use verity_canister::flow::{start, step, Action, Config, Event, FetchResponse, Stage};
use verity_canister::gateway::{check_consistency, first_verified_text, VerifiedProof};

fn config() -> Config {
    Config {
        target_url: "https://claims.example".to_string(),
        verifier: "aaaaa-aa".to_string(),
        notary_key: "notary-key".to_string(),
        budget: 100_000_000_000,
    }
}

fn headers() -> Vec<(String, String)> {
    vec![("content-type".to_string(), "application/json".to_string())]
}

/// Runs a claim of `data` up to the verifier's reply.
fn verifying(config: &Config, data: u64) -> Stage {
    let (stage, action) = start(config);
    assert!(matches!(action, Action::Fetch(_)));
    let body = format!("{{\"data\":{},\"proof\":\"blob\"}}", data).into_bytes();
    let resp = FetchResponse { status: Nat::from(200u32), headers: headers(), body };
    let (stage, action) = step(stage, config, Event::Fetched(Ok(resp)));
    match action {
        Some(Action::ReadClaim(t)) => {
            assert_eq!(t, format!("{{\"data\":{},\"proof\":\"blob\"}}", data))
        }
        _ => panic!("expected the claim's text"),
    }
    let claim = Claim { data, proof: "blob".to_string() };
    let (stage, action) = step(stage, config, Event::ClaimRead(Ok(claim)));
    match action {
        Some(Action::Verify(call)) => {
            assert_eq!(call.proofs, vec!["blob".to_string()]);
            assert_eq!(call.notary_key, "notary-key");
            assert_eq!(call.verifier, "aaaaa-aa");
            assert_eq!(call.budget, 100_000_000_000);
        }
        _ => panic!("expected the verifier call"),
    }
    assert!(matches!(stage, Stage::Verifying { .. }));
    stage
}

#[test]
fn start_requests_plain_get() {
    let c = config();
    let (stage, action) = start(&c);
    assert!(matches!(stage, Stage::Fetching));
    match action {
        Action::Fetch(req) => {
            assert_eq!(req.url, "https://claims.example");
            assert_eq!(req.max_response_bytes, None);
            assert!(req.headers.is_empty());
            assert_eq!(req.body, None);
            assert!(!req.replicated);
        }
        _ => panic!("expected a fetch"),
    }
}

#[test]
fn matching_value_completes() {
    let c = config();
    let stage = verifying(&c, 1234);
    let reply = vec![VerifiedProof::SessionProof("HTTP/1.1 200 OK\r\n\r\n1234".to_string())];
    let (stage, action) = step(stage, &c, Event::Replied(Ok(reply)));
    assert!(action.is_none());
    match stage {
        Stage::Completed(res) => {
            assert_eq!(decode_value(&res.body), Some(1234));
            assert_eq!(res.status, Nat::from(200u32));
            assert_eq!(res.headers, headers());
        }
        _ => panic!("expected completion"),
    }
}

#[test]
fn full_proof_and_extra_replies() {
    let c = config();
    let stage = verifying(&c, 7);
    let reply = vec![
        VerifiedProof::FullProof("value: 7".to_string()),
        VerifiedProof::SessionProof("8".to_string()),
    ];
    let (stage, _) = step(stage, &c, Event::Replied(Ok(reply)));
    assert!(matches!(stage, Stage::Completed(_)));
}

#[test]
fn mismatch_fails() {
    let c = config();
    let stage = verifying(&c, 1234);
    let reply = vec![VerifiedProof::FullProof("1235".to_string())];
    let (stage, action) = step(stage, &c, Event::Replied(Ok(reply)));
    assert!(action.is_none());
    match stage {
        Stage::Failed(e) => {
            assert_eq!(e, VerifyError::Mismatch { claimed: 1234, verified: 1235 })
        }
        _ => panic!("expected a mismatch"),
    }
}

#[test]
fn empty_reply_differs_from_gateway_error() {
    let c = config();
    let (stage, _) = step(verifying(&c, 1), &c, Event::Replied(Ok(vec![])));
    assert!(matches!(stage, Stage::Failed(VerifyError::EmptyReply)));
    let (stage, _) = step(verifying(&c, 1), &c, Event::Replied(Err("rejected".to_string())));
    match stage {
        Stage::Failed(e) => assert_eq!(e, VerifyError::Gateway("rejected".to_string())),
        _ => panic!("expected a gateway error"),
    }
}

#[test]
fn unreadable_number_fails() {
    let c = config();
    let reply = vec![VerifiedProof::SessionProof("h\n\nnothing".to_string())];
    let (stage, _) = step(verifying(&c, 1), &c, Event::Replied(Ok(reply)));
    match stage {
        Stage::Failed(e) => {
            assert_eq!(e, VerifyError::NumericExtraction("nothing".to_string()))
        }
        _ => panic!("expected an extraction error"),
    }
}

#[test]
fn fetch_error_fails() {
    let c = config();
    let (stage, _) = start(&c);
    let (stage, action) = step(stage, &c, Event::Fetched(Err("timeout".to_string())));
    assert!(action.is_none());
    match stage {
        Stage::Failed(e) => assert_eq!(e, VerifyError::Fetch("timeout".to_string())),
        _ => panic!("expected a fetch error"),
    }
}

#[test]
fn non_utf8_body_fails_to_decode() {
    let c = config();
    let (stage, _) = start(&c);
    let resp = FetchResponse { status: Nat::from(200u32), headers: vec![], body: vec![0xff, 0xfe] };
    let (stage, action) = step(stage, &c, Event::Fetched(Ok(resp)));
    assert!(action.is_none());
    assert!(matches!(stage, Stage::Failed(VerifyError::Decode(_))));
}

#[test]
fn multibyte_body_is_decoded() {
    let c = config();
    let (stage, _) = start(&c);
    let resp = FetchResponse {
        status: Nat::from(200u32),
        headers: vec![],
        body: "{\"proof\":\"é\"}".as_bytes().to_vec(),
    };
    let (_, action) = step(stage, &c, Event::Fetched(Ok(resp)));
    match action {
        Some(Action::ReadClaim(t)) => assert_eq!(t, "{\"proof\":\"é\"}"),
        _ => panic!("expected the claim's text"),
    }
}

#[test]
fn malformed_claim_fails_to_decode() {
    let c = config();
    let (stage, _) = start(&c);
    let resp = FetchResponse { status: Nat::from(200u32), headers: vec![], body: b"oops".to_vec() };
    let (stage, _) = step(stage, &c, Event::Fetched(Ok(resp)));
    let (stage, action) = step(stage, &c, Event::ClaimRead(Err("expected value".to_string())));
    assert!(action.is_none());
    match stage {
        Stage::Failed(e) => assert_eq!(e, VerifyError::Decode("expected value".to_string())),
        _ => panic!("expected a decode error"),
    }
}

#[test]
fn unexpected_event_leaves_stage() {
    let c = config();
    let (stage, _) = start(&c);
    let (stage, action) = step(stage, &c, Event::Replied(Ok(vec![])));
    assert!(action.is_none());
    assert!(matches!(stage, Stage::Fetching));
}

#[test]
fn reply_handling_and_consistency() {
    let reply: Result<Vec<VerifiedProof>, String> =
        Ok(vec![VerifiedProof::FullProof("x".to_string())]);
    assert_eq!(first_verified_text(&reply), Ok(&"x".to_string()));
    assert_eq!(first_verified_text(&Ok(vec![])), Err(VerifyError::EmptyReply));
    assert_eq!(check_consistency(5, 5), Ok(()));
    assert_eq!(
        check_consistency(5, 6),
        Err(VerifyError::Mismatch { claimed: 5, verified: 6 })
    );
}
