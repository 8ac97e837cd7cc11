//! Signed bearer tokens: claims are built for a subject, signed with the
//! process's Ed25519 key, and verified against the configured audience
//! and issuer with a symmetric clock-skew leeway. The signature itself is
//! the token library's work; every rule about the claims is decided here.

use vstd::prelude::*;
use jsonwebtoken::{Algorithm, Validation};

verus! {

/// How long a token stays valid, in seconds.
pub const TOKEN_LIFETIME_IN_SECONDS: u64 = 3600;

/// The clock-skew leeway applied on both time bounds, in seconds.
pub const TOKEN_LEEWAY_SECONDS: u64 = 5;

/// The claims a token carries. Times are seconds.
#[derive(Debug)]
pub struct TokenClaims {
    /// The subject: the authenticated username.
    pub sub: String,
    /// The issuing authority, the API host string.
    pub iss: String,
    /// The recipients that may accept the token.
    pub aud: Vec<String>,
    /// When the token was issued.
    pub iat: u64,
    /// Not valid before this time.
    pub nbf: u64,
    /// Not valid at or after this time.
    pub exp: u64,
}

/// Two audience lists share at least one entry, compared by characters.
pub open spec fn aud_intersects(aud: Seq<String>, accepted: Seq<String>) -> bool {
    exists|i: int, j: int|
        0 <= i < aud.len() && 0 <= j < accepted.len() && aud[i]@ == accepted[j]@
}

/// When claims pass verification at `now`: not yet expired and already
/// valid, each with `leeway` seconds of grace; the issuer equal to the
/// configured one; the audiences intersecting the accepted set.
pub open spec fn claims_valid(
    c: TokenClaims,
    accepted_audience: Seq<String>,
    issuer: Seq<char>,
    now: u64,
    leeway: u64,
) -> bool {
    &&& c.exp + leeway >= now
    &&& c.nbf <= now + leeway
    &&& c.iss@ == issuer
    &&& aud_intersects(c.aud@, accepted_audience)
}

/// Build the claims for a fresh token: not-before one second after
/// issuance, expiry a full lifetime after issuance; fails only when the
/// expiry would not fit the clock's type.
pub fn build_claims(
    subject: &str,
    audience: &Vec<String>,
    issuer: &str,
    issued_at: u64,
    lifetime_seconds: u64,
) -> (r: Option<TokenClaims>)
    requires
        lifetime_seconds >= 2,
    ensures
        r is Some <==> issued_at + lifetime_seconds <= u64::MAX,
        r matches Some(c) ==> {
            &&& c.sub@ == subject@
            &&& c.iss@ == issuer@
            &&& c.aud@.len() == audience@.len()
            &&& forall|i: int| 0 <= i < audience@.len() ==> c.aud@[i]@ == audience@[i]@
            &&& c.iat == issued_at
            &&& c.nbf == issued_at + 1
            &&& c.exp == issued_at + lifetime_seconds
            &&& c.nbf < c.exp
        },
{
    if issued_at > u64::MAX - lifetime_seconds {
        return None;
    }
    let mut aud: Vec<String> = Vec::new();
    let n: usize = audience.len();
    let mut i: usize = 0;
    while i < n
        invariant
            i <= n,
            n == audience@.len(),
            aud@.len() == i,
            forall|k: int| 0 <= k < i ==> aud@[k]@ == audience@[k]@,
        decreases n - i,
    {
        aud.push(audience[i].clone());
        i += 1;
    }
    Some(
        TokenClaims {
            sub: subject.to_owned(),
            iss: issuer.to_owned(),
            aud,
            iat: issued_at,
            nbf: issued_at + 1,
            exp: issued_at + lifetime_seconds,
        },
    )
}

/// The token that signing the given claims with the key yields, or
/// nothing where the signer fails on them — a function of the claims and
/// the key alone, since Ed25519 signing is deterministic.
pub uninterp spec fn token_of(sub: Seq<char>, iss: Seq<char>, aud: Seq<Seq<char>>, iat: u64, nbf: u64, exp: u64, key: jsonwebtoken::EncodingKey) -> Option<Seq<char>>;

/// The claims a token decodes to under the key, or nothing where the
/// signature does not verify or the claims JSON lacks one of the six
/// fields — a function of the token and the key alone.
pub uninterp spec fn claims_of(token: Seq<char>, key: jsonwebtoken::DecodingKey) -> Option<TokenClaims>;

/// Relies on jsonwebtoken::encode with algorithm EdDSA: the claims JSON
/// carries exactly the given fields and is signed with the key. The
/// signature is derived deterministically from key and message, so the
/// result is the named function of the arguments.
#[verifier::external_body]
fn sign_claims(
    sub: &str,
    iss: &str,
    aud: &Vec<String>,
    iat: u64,
    nbf: u64,
    exp: u64,
    key: &jsonwebtoken::EncodingKey,
) -> (r: Option<String>)
    ensures
        r is Some <==> token_of(sub@, iss@, aud.deep_view(), iat, nbf, exp, *key) is Some,
        r matches Some(t) ==> token_of(sub@, iss@, aud.deep_view(), iat, nbf, exp, *key) == Some(
            t@,
        ),
{
    let mut payload = serde_json::Map::new();
    payload.insert("sub".to_string(), serde_json::Value::from(sub));
    payload.insert("iss".to_string(), serde_json::Value::from(iss));
    payload.insert("aud".to_string(), serde_json::Value::from(aud.clone()));
    payload.insert("iat".to_string(), serde_json::Value::from(iat));
    payload.insert("nbf".to_string(), serde_json::Value::from(nbf));
    payload.insert("exp".to_string(), serde_json::Value::from(exp));
    let header = jsonwebtoken::Header::new(Algorithm::EdDSA);
    jsonwebtoken::encode(&header, &serde_json::Value::Object(payload), key).ok()
}

/// Relies on jsonwebtoken::decode with algorithm EdDSA and the time and
/// audience checks turned off: the claims come back exactly when the
/// token's signature verifies against the key and the six fields can be
/// read from the claims JSON (the decoder's spec-claim presence check
/// still wants an exp claim, which the field read would demand anyway).
/// Decoding is deterministic, so the result is the named function of
/// token and key; all claim validation happens in this crate.
#[verifier::external_body]
fn decode_signed_claims(token: &str, key: &jsonwebtoken::DecodingKey) -> (r: Option<TokenClaims>)
    ensures
        r == claims_of(token@, *key),
{
    let mut v = Validation::new(Algorithm::EdDSA);
    v.validate_exp = false;
    v.validate_nbf = false;
    v.validate_aud = false;
    let c = jsonwebtoken::decode::<serde_json::Value>(token, key, &v).ok()?.claims;
    let aud = c.get("aud")?.as_array()?.iter().map(|x| x.as_str().map(str::to_string)).collect::<Option<Vec<String>>>()?;
    Some(TokenClaims {
        sub: c.get("sub")?.as_str()?.to_string(),
        iss: c.get("iss")?.as_str()?.to_string(),
        aud,
        iat: c.get("iat")?.as_u64()?,
        nbf: c.get("nbf")?.as_u64()?,
        exp: c.get("exp")?.as_u64()?,
    })
}

/// Check the claims against the configuration and the clock, exactly as
/// `claims_valid` states it.
pub fn validate_claims(
    claims: &TokenClaims,
    accepted_audience: &Vec<String>,
    issuer: &str,
    now: u64,
    leeway: u64,
) -> (r: bool)
    ensures
        r == claims_valid(*claims, accepted_audience@, issuer@, now, leeway),
{
    let exp_ok: bool = claims.exp >= now || now - claims.exp <= leeway;
    let nbf_ok: bool = claims.nbf <= now || claims.nbf - now <= leeway;
    let iss_ok: bool = claims.iss.eq(&issuer.to_owned());
    let mut aud_ok: bool = false;
    let an: usize = claims.aud.len();
    let cn: usize = accepted_audience.len();
    let mut i: usize = 0;
    while i < an
        invariant
            an == claims.aud@.len(),
            cn == accepted_audience@.len(),
            i <= an,
            aud_ok ==> aud_intersects(claims.aud@, accepted_audience@),
            !aud_ok ==> forall|a: int, b: int|
                0 <= a < i && 0 <= b < cn ==> claims.aud@[a]@ != accepted_audience@[b]@,
        decreases an - i,
    {
        let mut j: usize = 0;
        while j < cn
            invariant
                an == claims.aud@.len(),
                cn == accepted_audience@.len(),
                i < an,
                j <= cn,
                aud_ok ==> aud_intersects(claims.aud@, accepted_audience@),
                !aud_ok ==> forall|a: int, b: int|
                    0 <= a < i && 0 <= b < cn ==> claims.aud@[a]@ != accepted_audience@[b]@,
                !aud_ok ==> forall|b: int| 0 <= b < j ==> claims.aud@[i as int]@
                    != accepted_audience@[b]@,
            decreases cn - j,
        {
            if claims.aud[i].eq(&accepted_audience[j]) {
                aud_ok = true;
            }
            j += 1;
        }
        i += 1;
    }
    exp_ok && nbf_ok && iss_ok && aud_ok
}

/// Law: the claims built for a subject pass validation against the same
/// audience and issuer at any time between not-before and expiry, the
/// leeway included, whenever the audience is not empty — the round trip
/// from issuance to verification can only fail at the signature, never
/// in the claims themselves.
pub proof fn lemma_claims_round_trip(
    c: TokenClaims,
    audience: Seq<String>,
    issuer: Seq<char>,
    now: u64,
    leeway: u64,
)
    requires
        c.iss@ == issuer,
        c.aud@.len() == audience.len(),
        forall|i: int| 0 <= i < audience.len() ==> c.aud@[i]@ == audience[i]@,
        audience.len() > 0,
        c.nbf <= now + leeway,
        c.exp + leeway >= now,
    ensures
        claims_valid(c, audience, issuer, now, leeway),
{
    assert(c.aud@[0]@ == audience[0]@);
    assert(aud_intersects(c.aud@, audience));
}

/// Mint a signed token for the subject: the claims exactly as
/// `build_claims` makes them, signed with the process key. Fails only
/// when the expiry would overflow the clock's type or the signer fails
/// on these claims; otherwise the result is exactly the named signed
/// token.
pub fn get_token_for_user(
    subject: &str,
    audience: &Vec<String>,
    issuer: &str,
    issued_at: u64,
    encoding_key: &jsonwebtoken::EncodingKey,
) -> (r: Option<String>)
    ensures
        issued_at + TOKEN_LIFETIME_IN_SECONDS > u64::MAX ==> r is None,
        issued_at + TOKEN_LIFETIME_IN_SECONDS <= u64::MAX ==> ({
            let minted = token_of(
                subject@,
                issuer@,
                audience.deep_view(),
                issued_at,
                (issued_at + 1) as u64,
                (issued_at + TOKEN_LIFETIME_IN_SECONDS) as u64,
                *encoding_key,
            );
            &&& r is Some <==> minted is Some
            &&& r matches Some(t) ==> minted == Some(t@)
        }),
{
    let claims = match build_claims(subject, audience, issuer, issued_at, TOKEN_LIFETIME_IN_SECONDS) {
        Some(c) => c,
        None => {
            return None;
        },
    };
    proof {
        assert(claims.aud.deep_view() =~= audience.deep_view()) by {
            assert forall|i: int| 0 <= i < audience@.len() implies claims.aud.deep_view()[i]
                == audience.deep_view()[i] by {
                assert(claims.aud@[i]@ == audience@[i]@);
            }
        }
    }
    sign_claims(
        claims.sub.as_str(),
        claims.iss.as_str(),
        &claims.aud,
        claims.iat,
        claims.nbf,
        claims.exp,
        encoding_key,
    )
}

/// What verifying a token must yield: the claims it decodes to under
/// the key, exactly when they pass validation at `now`.
pub open spec fn verified_claims(
    token: Seq<char>,
    key: jsonwebtoken::DecodingKey,
    accepted_audience: Seq<String>,
    issuer: Seq<char>,
    now: u64,
) -> Option<TokenClaims> {
    match claims_of(token, key) {
        Some(c) => if claims_valid(c, accepted_audience, issuer, now, TOKEN_LEEWAY_SECONDS) {
            Some(c)
        } else {
            None
        },
        None => None,
    }
}

/// Verify a bearer token: the signature against the process key, then
/// the claims against audience, issuer and the clock with the configured
/// leeway. The result is exactly `verified_claims` of token and
/// configuration.
pub fn verify_token(
    token: &str,
    decoding_key: &jsonwebtoken::DecodingKey,
    accepted_audience: &Vec<String>,
    issuer: &str,
    now: u64,
) -> (r: Option<TokenClaims>)
    ensures
        r == verified_claims(token@, *decoding_key, accepted_audience@, issuer@, now),
{
    let claims = match decode_signed_claims(token, decoding_key) {
        Some(c) => c,
        None => {
            return None;
        },
    };
    if validate_claims(&claims, accepted_audience, issuer, now, TOKEN_LEEWAY_SECONDS) {
        Some(claims)
    } else {
        None
    }
}

} // verus!
