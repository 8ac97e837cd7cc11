use adventskalender_backend::guard::{AuthenticatedUser, AuthorizationError, extract_bearer_token};
use adventskalender_backend::keys::{load_or_generate_keypair, KeyMaterial};
use adventskalender_backend::token::{
    build_claims, get_token_for_user, validate_claims, verify_token, TOKEN_LIFETIME_IN_SECONDS,
};

fn fresh_document() -> Vec<u8> {
    let rng = ring::rand::SystemRandom::new();
    ring::signature::Ed25519KeyPair::generate_pkcs8(&rng).unwrap().as_ref().to_vec()
}

fn fresh_keys() -> KeyMaterial {
    KeyMaterial::from_document(&fresh_document()).unwrap()
}

fn audience() -> Vec<String> {
    vec!["svc".to_string()]
}

const ISSUER: &str = "https://api.example";
const ISSUED_AT: u64 = 1_700_000_000;

#[test]
fn token_round_trip_yields_the_subject() {
    let keys = fresh_keys();
    let aud = audience();
    let token = get_token_for_user("alice", &aud, ISSUER, ISSUED_AT, &keys.encoding_key).unwrap();
    let claims = verify_token(&token, &keys.decoding_key, &aud, ISSUER, ISSUED_AT + 2).unwrap();
    assert_eq!(claims.sub, "alice");
    assert_eq!(claims.iss, ISSUER);
    assert_eq!(claims.iat, ISSUED_AT);
    assert_eq!(claims.nbf, ISSUED_AT + 1);
    assert_eq!(claims.exp, ISSUED_AT + TOKEN_LIFETIME_IN_SECONDS);
}

#[test]
fn tampered_signature_fails_verification() {
    let keys = fresh_keys();
    let aud = audience();
    let token = get_token_for_user("alice", &aud, ISSUER, ISSUED_AT, &keys.encoding_key).unwrap();
    let dot = token.rfind('.').unwrap();
    let mut bytes = token.into_bytes();
    let target = dot + 3;
    bytes[target] = if bytes[target] == b'A' { b'B' } else { b'A' };
    let tampered = String::from_utf8(bytes).unwrap();
    assert!(verify_token(&tampered, &keys.decoding_key, &aud, ISSUER, ISSUED_AT + 2).is_none());
}

#[test]
fn foreign_key_fails_verification() {
    let keys = fresh_keys();
    let other = fresh_keys();
    let aud = audience();
    let token = get_token_for_user("alice", &aud, ISSUER, ISSUED_AT, &keys.encoding_key).unwrap();
    assert!(verify_token(&token, &other.decoding_key, &aud, ISSUER, ISSUED_AT + 2).is_none());
}

#[test]
fn expiry_leeway_is_symmetric_and_five_seconds() {
    let keys = fresh_keys();
    let aud = audience();

    // Expired ten seconds ago: rejected even with the leeway.
    let now = ISSUED_AT + TOKEN_LIFETIME_IN_SECONDS + 10;
    let token = get_token_for_user("alice", &aud, ISSUER, ISSUED_AT, &keys.encoding_key).unwrap();
    assert!(verify_token(&token, &keys.decoding_key, &aud, ISSUER, now).is_none());

    // Expired three seconds ago: the five-second leeway still admits it.
    let barely = ISSUED_AT + TOKEN_LIFETIME_IN_SECONDS + 3;
    assert!(verify_token(&token, &keys.decoding_key, &aud, ISSUER, barely).is_some());
}

#[test]
fn claim_validation_applies_the_leeway_on_both_bounds() {
    let aud = audience();
    let claims = build_claims("alice", &aud, ISSUER, ISSUED_AT, 100).unwrap();
    assert_eq!(claims.nbf, ISSUED_AT + 1);
    assert_eq!(claims.exp, ISSUED_AT + 100);

    // Expiry: three seconds past still passes with the five-second
    // leeway, ten seconds past does not.
    assert!(validate_claims(&claims, &aud, ISSUER, claims.exp + 3, 5));
    assert!(!validate_claims(&claims, &aud, ISSUER, claims.exp + 10, 5));

    // Not-before: three seconds early still passes, ten seconds early
    // does not.
    assert!(validate_claims(&claims, &aud, ISSUER, claims.nbf - 3, 5));
    assert!(!validate_claims(&claims, &aud, ISSUER, claims.nbf - 10, 5));

    // Audience and issuer are checked too.
    assert!(!validate_claims(&claims, &vec!["other".to_string()], ISSUER, claims.nbf + 1, 5));
    assert!(!validate_claims(&claims, &aud, "https://other.example", claims.nbf + 1, 5));
}

#[test]
fn tokens_not_yet_valid_are_rejected() {
    let keys = fresh_keys();
    let aud = audience();
    let token = get_token_for_user("alice", &aud, ISSUER, ISSUED_AT, &keys.encoding_key).unwrap();
    // The token's not-before is one second after issuance; nine seconds
    // before issuance even the leeway does not admit it.
    assert!(verify_token(&token, &keys.decoding_key, &aud, ISSUER, ISSUED_AT - 9).is_none());
    assert!(verify_token(&token, &keys.decoding_key, &aud, ISSUER, ISSUED_AT).is_some());
}

#[test]
fn audience_and_issuer_must_match() {
    let keys = fresh_keys();
    let aud = audience();
    let token = get_token_for_user("alice", &aud, ISSUER, ISSUED_AT, &keys.encoding_key).unwrap();
    let other_aud = vec!["elsewhere".to_string()];
    assert!(verify_token(&token, &keys.decoding_key, &other_aud, ISSUER, ISSUED_AT + 2).is_none());
    assert!(
        verify_token(&token, &keys.decoding_key, &aud, "https://other.example", ISSUED_AT + 2)
            .is_none()
    );
}

#[test]
fn guard_accepts_cookie_and_bearer_header() {
    let keys = fresh_keys();
    let aud = audience();
    let token = get_token_for_user("alice", &aud, ISSUER, ISSUED_AT, &keys.encoding_key).unwrap();
    let now = ISSUED_AT + 2;

    let via_cookie = AuthenticatedUser::from_request(
        Some(&token),
        None,
        &keys.decoding_key,
        &aud,
        ISSUER,
        now,
    )
    .unwrap();
    assert_eq!(via_cookie.username, "alice");

    let header = format!("Bearer {}", token);
    let via_header = AuthenticatedUser::from_request(
        None,
        Some(&header),
        &keys.decoding_key,
        &aud,
        ISSUER,
        now,
    )
    .unwrap();
    assert_eq!(via_header.username, "alice");

    let upper = format!("BEARER {}", token);
    let via_upper = AuthenticatedUser::from_request(
        None,
        Some(&upper),
        &keys.decoding_key,
        &aud,
        ISSUER,
        now,
    )
    .unwrap();
    assert_eq!(via_upper.username, "alice");
}

#[test]
fn guard_classifies_missing_and_malformed_credentials() {
    let keys = fresh_keys();
    let aud = audience();
    let now = ISSUED_AT + 2;

    let missing =
        AuthenticatedUser::from_request(None, None, &keys.decoding_key, &aud, ISSUER, now);
    assert_eq!(missing.unwrap_err(), AuthorizationError::MissingAuthorizationHeader);

    for bad in ["Token abc", "Bearer", "Bearer a b", "bearer  x"] {
        let r = AuthenticatedUser::from_request(
            None,
            Some(bad),
            &keys.decoding_key,
            &aud,
            ISSUER,
            now,
        );
        assert_eq!(r.unwrap_err(), AuthorizationError::MalformedAuthorizationHeader);
    }

    let garbage = AuthenticatedUser::from_request(
        None,
        Some("Bearer not.a.token"),
        &keys.decoding_key,
        &aud,
        ISSUER,
        now,
    );
    assert_eq!(garbage.unwrap_err(), AuthorizationError::InvalidToken);
}

#[test]
fn cookie_takes_precedence_over_header() {
    let r = extract_bearer_token(Some("from-cookie"), Some("Bearer from-header"));
    assert_eq!(r.unwrap(), "from-cookie");
    let r2 = extract_bearer_token(None, Some("Bearer from-header"));
    assert_eq!(r2.unwrap(), "from-header");
}

#[test]
fn key_material_rejects_garbage_documents() {
    assert!(KeyMaterial::from_document(&vec![1, 2, 3, 4]).is_none());
}

#[test]
fn persisted_key_is_reused_and_corrupt_key_is_replaced() {
    let document = fresh_document();
    let (kept, fresh) = load_or_generate_keypair(Some(document.clone())).unwrap();
    assert_eq!(kept, document);
    assert!(!fresh);

    let (regenerated, fresh2) = load_or_generate_keypair(Some(vec![0, 1, 2])).unwrap();
    assert!(fresh2);
    assert!(KeyMaterial::from_document(&regenerated).is_some());

    let (generated, fresh3) = load_or_generate_keypair(None).unwrap();
    assert!(fresh3);
    assert!(KeyMaterial::from_document(&generated).is_some());
}
