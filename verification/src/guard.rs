//! The guard in front of protected routes: turn an inbound credential — a
//! cookie value, or an `Authorization` header of the shape
//! `<scheme> <token>` with the scheme case-insensitively `bearer` — into
//! a verified principal or a classified failure.

use vstd::prelude::*;
use vstd::string::StrSliceExecFns;
use crate::token::{verified_claims, verify_token};

verus! {

/// The authenticated principal: the verified token's subject.
#[derive(Debug)]
pub struct AuthenticatedUser {
    pub username: String,
}

/// Why an inbound credential was rejected.
#[derive(Debug, Clone, Copy, PartialEq, Eq, Structural)]
pub enum AuthorizationError {
    /// No credential in the cookie and no authorization header.
    MissingAuthorizationHeader,
    /// The authorization header is not two tokens with a bearer scheme.
    MalformedAuthorizationHeader,
    /// The supplied token failed verification.
    InvalidToken,
    /// The token could not be checked at all.
    CannotValidateToken,
}

/// The one space of the header sits at `p`: the split into exactly two
/// parts exists and is unique.
pub open spec fn single_space_at(h: Seq<char>, p: int) -> bool {
    &&& 0 <= p < h.len()
    &&& h[p] == ' '
    &&& forall|i: int| 0 <= i < h.len() && i != p ==> h[i] != ' '
}

/// The scheme spells `bearer`, each letter in either case.
pub open spec fn bearer_scheme(s: Seq<char>) -> bool {
    &&& s.len() == 6
    &&& (s[0] == 'b' || s[0] == 'B')
    &&& (s[1] == 'e' || s[1] == 'E')
    &&& (s[2] == 'a' || s[2] == 'A')
    &&& (s[3] == 'r' || s[3] == 'R')
    &&& (s[4] == 'e' || s[4] == 'E')
    &&& (s[5] == 'r' || s[5] == 'R')
}

/// A well-formed bearer header: one space, bearer scheme before it.
pub open spec fn well_formed_header(h: Seq<char>) -> bool {
    exists|p: int| single_space_at(h, p) && bearer_scheme(h.subrange(0, p))
}

/// The token part of a well-formed header split at `p`.
pub open spec fn header_token(h: Seq<char>, p: int) -> Seq<char> {
    h.subrange(p + 1, h.len() as int)
}

/// The split point of a well-formed header: its one space.
pub open spec fn the_split_point(h: Seq<char>) -> int {
    choose|p: int| single_space_at(h, p) && bearer_scheme(h.subrange(0, p))
}

/// The token a well-formed header carries.
pub open spec fn the_header_token(h: Seq<char>) -> Seq<char> {
    header_token(h, the_split_point(h))
}

/// What authorizing a located credential must yield: the principal named
/// by the token's verified subject, or `InvalidToken`.
pub open spec fn authorization_outcome(
    token: Seq<char>,
    key: jsonwebtoken::DecodingKey,
    accepted_audience: Seq<String>,
    issuer: Seq<char>,
    now: u64,
) -> Result<AuthenticatedUser, AuthorizationError> {
    match verified_claims(token, key, accepted_audience, issuer, now) {
        Some(c) => Ok(AuthenticatedUser { username: c.sub }),
        None => Err(AuthorizationError::InvalidToken),
    }
}

/// The first space at or after `start`, scanning left to right.
fn first_space_from(h: &str, start: usize) -> (r: Option<usize>)
    requires
        start <= h@.len(),
    ensures
        r matches Some(p) ==> start <= p < h@.len() && h@[p as int] == ' ' && forall|q: int|
            start <= q < p ==> h@[q] != ' ',
        r is None ==> forall|q: int| start <= q < h@.len() ==> h@[q] != ' ',
{
    let n: usize = h.unicode_len();
    let mut i: usize = start;
    while i < n
        invariant
            start <= i <= n,
            n == h@.len(),
            forall|q: int| start <= q < i ==> h@[q] != ' ',
        decreases n - i,
    {
        if h.get_char(i) == ' ' {
            return Some(i);
        }
        i += 1;
    }
    None
}

/// The position of the header's only space, if it has exactly one.
fn find_single_space(h: &str) -> (r: Option<usize>)
    ensures
        r matches Some(p) ==> single_space_at(h@, p as int),
        r is None ==> forall|p: int| !single_space_at(h@, p),
{
    match first_space_from(h, 0) {
        None => {
            proof {
                assert forall|p: int| !single_space_at(h@, p) by {
                    if 0 <= p < h@.len() {
                        assert(h@[p] != ' ');
                    }
                }
            }
            None
        },
        Some(fp) => {
            let n: usize = h.unicode_len();
            proof {
                assert(fp < n);
            }
            match first_space_from(h, fp + 1) {
                None => Some(fp),
                Some(sp) => {
                    proof {
                        assert forall|p: int| !single_space_at(h@, p) by {
                            if single_space_at(h@, p) {
                                if p != fp as int {
                                    assert(h@[fp as int] != ' ');
                                } else {
                                    assert(h@[sp as int] != ' ');
                                }
                            }
                        }
                    }
                    None
                },
            }
        },
    }
}

/// Whether the part before the space spells `bearer`, case-insensitively.
fn is_bearer_scheme(h: &str, p: usize) -> (r: bool)
    requires
        p < h@.len(),
    ensures
        r == bearer_scheme(h@.subrange(0, p as int)),
{
    if p != 6 {
        return false;
    }
    let c0 = h.get_char(0);
    let c1 = h.get_char(1);
    let c2 = h.get_char(2);
    let c3 = h.get_char(3);
    let c4 = h.get_char(4);
    let c5 = h.get_char(5);
    let r = (c0 == 'b' || c0 == 'B') && (c1 == 'e' || c1 == 'E') && (c2 == 'a' || c2 == 'A') && (c3
        == 'r' || c3 == 'R') && (c4 == 'e' || c4 == 'E') && (c5 == 'r' || c5 == 'R');
    proof {
        assert(h@.subrange(0, 6)[0] == h@[0]);
        assert(h@.subrange(0, 6)[1] == h@[1]);
        assert(h@.subrange(0, 6)[2] == h@[2]);
        assert(h@.subrange(0, 6)[3] == h@[3]);
        assert(h@.subrange(0, 6)[4] == h@[4]);
        assert(h@.subrange(0, 6)[5] == h@[5]);
    }
    r
}

/// Locate the credential: the cookie first, the authorization header as
/// the fallback; a header must split into exactly two parts at its one
/// space, with the scheme case-insensitively `bearer`.
pub fn extract_bearer_token(cookie_token: Option<&str>, authorization_header: Option<&str>) -> (r:
    Result<String, AuthorizationError>)
    ensures
        cookie_token matches Some(c) ==> r matches Ok(t) && t@ == c@,
        cookie_token is None && authorization_header is None ==> r == Err::<
            String,
            AuthorizationError,
        >(AuthorizationError::MissingAuthorizationHeader),
        cookie_token is None ==> (authorization_header matches Some(h) ==> match r {
            Ok(t) => exists|p: int|
                single_space_at(h@, p) && bearer_scheme(h@.subrange(0, p)) && t@ == header_token(
                    h@,
                    p,
                ),
            Err(e) => e == AuthorizationError::MalformedAuthorizationHeader && !well_formed_header(
                h@,
            ),
        }),
{
    match cookie_token {
        Some(c) => Ok(c.to_owned()),
        None => {
            match authorization_header {
                None => Err(AuthorizationError::MissingAuthorizationHeader),
                Some(h) => {
                    let n: usize = h.unicode_len();
                    match find_single_space(h) {
                        None => {
                            proof {
                                if well_formed_header(h@) {
                                    let p = choose|p: int|
                                        single_space_at(h@, p) && bearer_scheme(
                                            h@.subrange(0, p),
                                        );
                                    assert(!single_space_at(h@, p));
                                }
                            }
                            Err(AuthorizationError::MalformedAuthorizationHeader)
                        },
                        Some(p) => {
                            if is_bearer_scheme(h, p) {
                                let token = h.substring_char(p + 1, n).to_owned();
                                Ok(token)
                            } else {
                                proof {
                                    if well_formed_header(h@) {
                                        let q = choose|q: int|
                                            single_space_at(h@, q) && bearer_scheme(
                                                h@.subrange(0, q),
                                            );
                                        if q != p as int {
                                            assert(h@[q] != ' ');
                                        }
                                    }
                                }
                                Err(AuthorizationError::MalformedAuthorizationHeader)
                            }
                        },
                    }
                },
            }
        },
    }
}

impl AuthenticatedUser {
    /// The whole gate: locate the credential, verify the token's
    /// signature against the process key and its claims against the
    /// accepted audience, the API host as issuer, and the clock; the
    /// result is exactly the authorization outcome of the located token,
    /// whose principal is the verified subject.
    pub fn from_request(
        cookie_token: Option<&str>,
        authorization_header: Option<&str>,
        decoding_key: &jsonwebtoken::DecodingKey,
        accepted_audience: &Vec<String>,
        api_host: &str,
        now: u64,
    ) -> (r: Result<AuthenticatedUser, AuthorizationError>)
        ensures
            cookie_token is None && authorization_header is None ==> r == Err::<
                AuthenticatedUser,
                AuthorizationError,
            >(AuthorizationError::MissingAuthorizationHeader),
            cookie_token is None ==> (authorization_header matches Some(h)
                ==> (!well_formed_header(h@) ==> r == Err::<AuthenticatedUser, AuthorizationError>(
                AuthorizationError::MalformedAuthorizationHeader,
            ))),
            cookie_token matches Some(ck) ==> r == authorization_outcome(
                ck@,
                *decoding_key,
                accepted_audience@,
                api_host@,
                now,
            ),
            cookie_token is None ==> (authorization_header matches Some(h)
                ==> (well_formed_header(h@) ==> r == authorization_outcome(
                the_header_token(h@),
                *decoding_key,
                accepted_audience@,
                api_host@,
                now,
            ))),
    {
        let token = match extract_bearer_token(cookie_token, authorization_header) {
            Ok(t) => t,
            Err(e) => {
                return Err(e);
            },
        };
        proof {
            if cookie_token is None {
                if let Some(h) = authorization_header {
                    let p = choose|p: int|
                        single_space_at(h@, p) && bearer_scheme(h@.subrange(0, p)) && token@
                            == header_token(h@, p);
                    assert(well_formed_header(h@));
                    let p2 = the_split_point(h@);
                    assert(single_space_at(h@, p2) && bearer_scheme(h@.subrange(0, p2)));
                    if p != p2 {
                        // Two distinct positions cannot both be the one space.
                        assert(h@[p2] != ' ');
                        assert(false);
                    }
                    assert(token@ == the_header_token(h@));
                }
            }
        }
        match verify_token(token.as_str(), decoding_key, accepted_audience, api_host, now) {
            Some(claims) => Ok(AuthenticatedUser { username: claims.sub }),
            None => Err(AuthorizationError::InvalidToken),
        }
    }
}

} // verus!
