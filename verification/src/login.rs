//! Authentication: check a username/password pair against the user
//! table, throttled per username by the rate limiter, and mint a signed
//! token on success; and the password change of an authenticated user.
//! Every attempt, failed or successful, lands in the audit trail.

use vstd::prelude::*;
use crate::audit::{log_action, user_attribution, Action, AuditEntry, AuditLog};
use crate::participants::User;
use crate::rate_limit::{rate_limit_rejects, rate_limit_updated_entry, RateLimitConfig, RateLimiter};
use crate::token::{get_token_for_user, token_of, TOKEN_LIFETIME_IN_SECONDS};

verus! {

/// The credentials of a login request.
#[derive(Debug)]
pub struct LoginInformation {
    /// The username of the user.
    pub username: String,
    /// The password for the login request.
    pub password: String,
}

/// The minted access token, as the login endpoint returns it.
#[derive(Debug)]
pub struct TokenResponse {
    /// The access token to use for API requests.
    pub access_token: String,
}

/// A requested password change: the new password, typed twice.
#[derive(Debug)]
pub struct NewPassword {
    /// The new password the user wants to set.
    pub first_time: String,
    /// The repeated password, which must equal `first_time`.
    pub second_time: String,
}

/// Why a login was rejected.
#[derive(Debug, Clone, Copy, PartialEq, Eq, Structural)]
pub enum LoginError {
    /// Too many attempts for this username inside the window.
    RateLimitExceeded,
    /// Unknown username or wrong password; the two are not told apart.
    Unauthorized,
    /// Hashing or signing failed; nothing to do with the credentials.
    InternalError,
}

/// Why a password change was rejected.
#[derive(Debug, Clone, Copy, PartialEq, Eq, Structural)]
pub enum PasswordError {
    /// The two copies of the new password differ.
    PasswordsDoNotMatch,
    /// The hashing library failed on the new password.
    HashingFailed,
    /// The username does not name exactly one user row.
    UserNotFound,
}

/// Whether a password matches a bcrypt hash — a function of the two
/// arguments alone; `None` stands for a hash the library cannot parse.
pub uninterp spec fn bcrypt_matches(password: Seq<char>, hash: Seq<char>) -> Option<bool>;

/// Relies on bcrypt::verify: whether the password matches the hash is
/// computed from the two arguments alone; an unparsable hash errors.
#[verifier::external_body]
fn bcrypt_verify(password: &str, hash: &str) -> (r: Option<bool>)
    ensures
        r == bcrypt_matches(password@, hash@),
{
    bcrypt::verify(password, hash).ok()
}

/// Relies on bcrypt::hash: a fresh hash, salted from system randomness,
/// verifies against the password it was made from.
#[verifier::external_body]
fn bcrypt_hash(password: &str, cost: u32) -> (r: Option<String>)
    ensures
        r matches Some(h) ==> bcrypt_matches(password@, h@) == Some(true),
{
    bcrypt::hash(password, cost).ok()
}

/// The fixed hash against which an unknown user's password is compared,
/// so that the response time does not betray whether the username
/// exists.
const DUMMY_PASSWORD_HASH: &'static str =
    "$2y$12$7xMzqvnHyizkumZYpIRXheGMAqDKVo8HKtpmQSn51JUfY0N2VN4ua";

/// How many user rows carry the name.
pub open spec fn count_users_named(users: Seq<User>, name: Seq<char>) -> nat
    decreases users.len(),
{
    if users.len() == 0 {
        0
    } else {
        count_users_named(users.drop_last(), name) + if users.last().username@ == name {
            1nat
        } else {
            0nat
        }
    }
}

/// A row carrying the name makes the count positive.
proof fn lemma_count_users_named_pos(users: Seq<User>, name: Seq<char>, i: int)
    requires
        0 <= i < users.len(),
        users[i].username@ == name,
    ensures
        count_users_named(users, name) >= 1,
    decreases users.len(),
{
    if i < users.len() - 1 {
        assert(users.drop_last()[i] == users[i]);
        lemma_count_users_named_pos(users.drop_last(), name, i);
    }
}

/// Two distinct rows carrying the name make the count at least two.
proof fn lemma_count_users_named_two(users: Seq<User>, name: Seq<char>, i: int, j: int)
    requires
        0 <= i < j < users.len(),
        users[i].username@ == name,
        users[j].username@ == name,
    ensures
        count_users_named(users, name) >= 2,
    decreases users.len(),
{
    if j == users.len() - 1 {
        assert(users.drop_last()[i] == users[i]);
        lemma_count_users_named_pos(users.drop_last(), name, i);
    } else {
        assert(users.drop_last()[i] == users[i]);
        assert(users.drop_last()[j] == users[j]);
        lemma_count_users_named_two(users.drop_last(), name, i, j);
    }
}

/// One fresh audit row for a login-related action: appended at the end,
/// attributed by the name, with the given description.
pub open spec fn logged_one(
    pre: Seq<AuditEntry>,
    post: Seq<AuditEntry>,
    users: Seq<User>,
    name: Seq<char>,
    action: Action,
    description: Option<Seq<char>>,
    now: u64,
) -> bool {
    &&& post.len() == pre.len() + 1
    &&& post.subrange(0, pre.len() as int) == pre
    &&& post.last().time_of_action == now
    &&& post.last().action == action
    &&& post.last().participant_id is None
    &&& user_attribution(users, name, post.last().user_id)
    &&& match (post.last().description, description) {
        (Some(d), Some(s)) => d@ == s,
        (None, None) => true,
        _ => false,
    }
}

/// Authenticate a login request and mint a token. The attempt is
/// throttled per username; an unknown username (or one naming more than
/// one row) is rejected exactly like a wrong password, after a dummy
/// hash comparison that keeps the timing flat; a correct password gets
/// a signed token. Failed and successful attempts are audited; a
/// rate-limited or internally failed one is not.
pub fn get_login_token(
    users: &Vec<User>,
    login_information: &LoginInformation,
    limiter: &mut RateLimiter,
    rate_config: &RateLimitConfig,
    audit: &mut AuditLog,
    encoding_key: &jsonwebtoken::EncodingKey,
    token_audience: &Vec<String>,
    api_host: &str,
    now: u64,
) -> (r: Result<TokenResponse, LoginError>)
    requires
        rate_config.wf(),
    ensures
        ({
            let name = login_information.username@;
            let pw = login_information.password@;
            let entry = if old(limiter)@.dom().contains(name) {
                Some(old(limiter)@[name])
            } else {
                None
            };
            let window_seconds = (rate_config.window_minutes * 60) as u64;
            let limited = rate_limit_rejects(entry, rate_config.max_attempts, window_seconds, now);
            &&& final(limiter)@ == match rate_limit_updated_entry(
                entry,
                rate_config.max_attempts,
                window_seconds,
                now,
            ) {
                Some(e) => old(limiter)@.insert(name, e),
                None => old(limiter)@,
            }
            &&& limited ==> r == Err::<TokenResponse, LoginError>(LoginError::RateLimitExceeded)
                && final(audit)@ == old(audit)@
            &&& !limited ==> {
                &&& count_users_named(users@, name) != 1 ==> r == Err::<
                    TokenResponse,
                    LoginError,
                >(LoginError::Unauthorized) && logged_one(
                    old(audit)@,
                    final(audit)@,
                    users@,
                    name,
                    Action::FailedLogin,
                    Some(name),
                    now,
                )
                &&& count_users_named(users@, name) == 1 ==> forall|i: int|
                    (0 <= i < users@.len() && (#[trigger] users@[i]).username@ == name) ==> {
                        let checked = bcrypt_matches(pw, users@[i].password_hash@);
                        &&& checked is None ==> r == Err::<TokenResponse, LoginError>(
                            LoginError::InternalError,
                        ) && final(audit)@ == old(audit)@
                        &&& checked == Some(false) ==> r == Err::<TokenResponse, LoginError>(
                            LoginError::Unauthorized,
                        ) && logged_one(
                            old(audit)@,
                            final(audit)@,
                            users@,
                            name,
                            Action::FailedLogin,
                            Some(name),
                            now,
                        )
                        &&& checked == Some(true) ==> ({
                            let minted = token_of(
                                name,
                                api_host@,
                                token_audience.deep_view(),
                                now,
                                (now + 1) as u64,
                                (now + TOKEN_LIFETIME_IN_SECONDS) as u64,
                                *encoding_key,
                            );
                            let signable = now + TOKEN_LIFETIME_IN_SECONDS <= u64::MAX
                                && minted is Some;
                            &&& signable ==> (r matches Ok(t) && minted == Some(t.access_token@)
                                && logged_one(
                                old(audit)@,
                                final(audit)@,
                                users@,
                                name,
                                Action::SuccessfulLogin,
                                Some(name),
                                now,
                            ))
                            &&& !signable ==> r == Err::<TokenResponse, LoginError>(
                                LoginError::InternalError,
                            ) && final(audit)@ == old(audit)@
                        })
                    }
            }
        }),
{
    if limiter.is_rate_limited(login_information.username.as_str(), rate_config, now) {
        return Err(LoginError::RateLimitExceeded);
    }

    // Exactly one row must carry the username; zero or several are
    // treated alike, so the response does not betray which it was.
    let n: usize = users.len();
    let mut matching: usize = 0;
    let mut found: usize = 0;
    let mut i: usize = 0;
    while i < n
        invariant
            i <= n,
            n == users@.len(),
            matching == count_users_named(
                users@.take(i as int),
                login_information.username@,
            ),
            matching <= i,
            matching > 0 ==> found < i && users@[found as int].username@
                == login_information.username@,
        decreases n - i,
    {
        proof {
            assert(users@.take(i as int + 1).drop_last() =~= users@.take(i as int));
        }
        if users[i].username.eq(&login_information.username) {
            matching += 1;
            found = i;
        }
        i += 1;
    }
    proof {
        assert(users@.take(n as int) =~= users@);
    }

    if matching != 1 {
        // Keep the timing flat between "unknown user" and "wrong
        // password" before rejecting.
        let _ = bcrypt_verify("some_password", DUMMY_PASSWORD_HASH);
        log_action(
            audit,
            users,
            Some(login_information.username.as_str()),
            Action::FailedLogin,
            Some(login_information.username.clone()),
            now,
        );
        return Err(LoginError::Unauthorized);
    }

    proof {
        assert forall|q: int|
            (0 <= q < users@.len() && (#[trigger] users@[q]).username@
                == login_information.username@) implies q == found as int by {
            if q != found as int {
                if q < found as int {
                    lemma_count_users_named_two(
                        users@,
                        login_information.username@,
                        q,
                        found as int,
                    );
                } else {
                    lemma_count_users_named_two(
                        users@,
                        login_information.username@,
                        found as int,
                        q,
                    );
                }
            }
        }
    }

    match bcrypt_verify(
        login_information.password.as_str(),
        users[found].password_hash.as_str(),
    ) {
        None => Err(LoginError::InternalError),
        Some(false) => {
            log_action(
                audit,
                users,
                Some(login_information.username.as_str()),
                Action::FailedLogin,
                Some(login_information.username.clone()),
                now,
            );
            Err(LoginError::Unauthorized)
        },
        Some(true) => {
            match get_token_for_user(
                login_information.username.as_str(),
                token_audience,
                api_host,
                now,
                encoding_key,
            ) {
                None => Err(LoginError::InternalError),
                Some(token) => {
                    log_action(
                        audit,
                        users,
                        Some(login_information.username.as_str()),
                        Action::SuccessfulLogin,
                        Some(login_information.username.clone()),
                        now,
                    );
                    Ok(TokenResponse { access_token: token })
                },
            }
        },
    }
}

/// Change an authenticated user's password: the two copies must agree,
/// the name must belong to exactly one row, and on success that row
/// carries a fresh hash of the new password and one `PasswordChanged`
/// audit row is appended. On any failure nothing changes.
pub fn update_user_password(
    users: &mut Vec<User>,
    audit: &mut AuditLog,
    username: &str,
    new_password: &NewPassword,
    now: u64,
) -> (r: Result<(), PasswordError>)
    ensures
        r is Err ==> final(users)@ == old(users)@ && final(audit)@ == old(audit)@,
        new_password.first_time@ != new_password.second_time@ ==> r == Err::<(), PasswordError>(
            PasswordError::PasswordsDoNotMatch,
        ),
        new_password.first_time@ == new_password.second_time@ && count_users_named(
            old(users)@,
            username@,
        ) != 1 ==> r == Err::<(), PasswordError>(PasswordError::UserNotFound),
        new_password.first_time@ == new_password.second_time@ && count_users_named(
            old(users)@,
            username@,
        ) == 1 ==> (r is Ok || r == Err::<(), PasswordError>(PasswordError::HashingFailed)),
        r is Ok ==> ({
            &&& final(users)@.len() == old(users)@.len()
            &&& forall|i: int|
                0 <= i < old(users)@.len() && (#[trigger] old(users)@[i]).username@ != username@
                    ==> final(users)@[i] == old(users)@[i]
            &&& forall|i: int|
                0 <= i < old(users)@.len() && (#[trigger] old(users)@[i]).username@ == username@
                    ==> final(users)@[i].id == old(users)@[i].id && final(users)@[i].username
                    == old(users)@[i].username && bcrypt_matches(
                    new_password.first_time@,
                    final(users)@[i].password_hash@,
                ) == Some(true)
            &&& logged_one(
                old(audit)@,
                final(audit)@,
                final(users)@,
                username@,
                Action::PasswordChanged,
                None,
                now,
            )
        }),
{
    if !new_password.first_time.eq(&new_password.second_time) {
        return Err(PasswordError::PasswordsDoNotMatch);
    }

    let ghost pre = users@;
    let n: usize = users.len();
    let mut matching: usize = 0;
    let mut found: usize = 0;
    let mut i: usize = 0;
    while i < n
        invariant
            users@ == pre,
            i <= n,
            n == users@.len(),
            matching == count_users_named(users@.take(i as int), username@),
            matching <= i,
            matching > 0 ==> found < i && users@[found as int].username@ == username@,
        decreases n - i,
    {
        proof {
            assert(users@.take(i as int + 1).drop_last() =~= users@.take(i as int));
        }
        if users[i].username.eq(&username.to_owned()) {
            matching += 1;
            found = i;
        }
        i += 1;
    }
    proof {
        assert(users@.take(n as int) =~= users@);
    }
    if matching != 1 {
        return Err(PasswordError::UserNotFound);
    }

    let hashed = match bcrypt_hash(new_password.first_time.as_str(), 10) {
        None => {
            return Err(PasswordError::HashingFailed);
        },
        Some(h) => h,
    };

    proof {
        assert forall|q: int|
            (0 <= q < users@.len() && (#[trigger] users@[q]).username@ == username@) implies q
            == found as int by {
            if q != found as int {
                if q < found as int {
                    lemma_count_users_named_two(users@, username@, q, found as int);
                } else {
                    lemma_count_users_named_two(users@, username@, found as int, q);
                }
            }
        }
    }

    let row = &mut users[found];
    row.password_hash = hashed;
    log_action(audit, users, Some(username), Action::PasswordChanged, None, now);
    Ok(())
}

} // verus!
