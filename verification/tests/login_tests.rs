use adventskalender_backend::audit::{get_audit_event_count, log_action, Action, AuditLog};
use adventskalender_backend::keys::KeyMaterial;
use adventskalender_backend::login::{
    get_login_token, update_user_password, LoginError, LoginInformation, NewPassword,
    PasswordError,
};
use adventskalender_backend::participants::{lookup_user_by_name, User};
use adventskalender_backend::rate_limit::{RateLimitConfig, RateLimiter};
use adventskalender_backend::token::verify_token;

fn fresh_keys() -> KeyMaterial {
    let rng = ring::rand::SystemRandom::new();
    let document = ring::signature::Ed25519KeyPair::generate_pkcs8(&rng).unwrap().as_ref().to_vec();
    KeyMaterial::from_document(&document).unwrap()
}

fn user_table() -> Vec<User> {
    vec![User {
        id: 1,
        username: "alice".to_string(),
        password_hash: bcrypt::hash("secret", 4).unwrap(),
    }]
}

fn login(username: &str, password: &str) -> LoginInformation {
    LoginInformation { username: username.to_string(), password: password.to_string() }
}

const HOST: &str = "https://api.example";

#[test]
fn correct_password_mints_a_verifiable_token() {
    let users = user_table();
    let keys = fresh_keys();
    let mut limiter = RateLimiter::new();
    let mut audit = AuditLog::new();
    let config = RateLimitConfig::default();
    let aud = vec!["svc".to_string()];
    let now: u64 = 1_700_000_000;

    let response = get_login_token(
        &users,
        &login("alice", "secret"),
        &mut limiter,
        &config,
        &mut audit,
        &keys.encoding_key,
        &aud,
        HOST,
        now,
    )
    .unwrap();

    let claims = verify_token(&response.access_token, &keys.decoding_key, &aud, HOST, now + 2)
        .unwrap();
    assert_eq!(claims.sub, "alice");

    assert_eq!(audit.len(), 1);
    let entry = audit.entry_at(0);
    assert!(matches!(entry.action, Action::SuccessfulLogin));
    assert_eq!(entry.user_id, Some(1));
    assert_eq!(entry.description, Some("alice".to_string()));
}

#[test]
fn wrong_password_is_unauthorized_and_audited() {
    let users = user_table();
    let keys = fresh_keys();
    let mut limiter = RateLimiter::new();
    let mut audit = AuditLog::new();
    let config = RateLimitConfig::default();
    let aud = vec!["svc".to_string()];

    let r = get_login_token(
        &users,
        &login("alice", "wrong"),
        &mut limiter,
        &config,
        &mut audit,
        &keys.encoding_key,
        &aud,
        HOST,
        1000,
    );
    assert_eq!(r.unwrap_err(), LoginError::Unauthorized);
    let entry = audit.entry_at(0);
    assert!(matches!(entry.action, Action::FailedLogin));
    assert_eq!(entry.user_id, Some(1));
}

#[test]
fn unknown_username_is_unauthorized_without_attribution() {
    let users = user_table();
    let keys = fresh_keys();
    let mut limiter = RateLimiter::new();
    let mut audit = AuditLog::new();
    let config = RateLimitConfig::default();
    let aud = vec!["svc".to_string()];

    let r = get_login_token(
        &users,
        &login("bob", "whatever"),
        &mut limiter,
        &config,
        &mut audit,
        &keys.encoding_key,
        &aud,
        HOST,
        1000,
    );
    assert_eq!(r.unwrap_err(), LoginError::Unauthorized);
    let entry = audit.entry_at(0);
    assert!(matches!(entry.action, Action::FailedLogin));
    assert_eq!(entry.user_id, None);
    assert_eq!(entry.description, Some("bob".to_string()));
}

#[test]
fn sixth_attempt_in_the_window_is_rate_limited() {
    let users = user_table();
    let keys = fresh_keys();
    let mut limiter = RateLimiter::new();
    let mut audit = AuditLog::new();
    let config = RateLimitConfig::default();
    let aud = vec!["svc".to_string()];

    for n in 0..5u64 {
        let r = get_login_token(
            &users,
            &login("alice", "wrong"),
            &mut limiter,
            &config,
            &mut audit,
            &keys.encoding_key,
            &aud,
            HOST,
            1000 + n,
        );
        assert_eq!(r.unwrap_err(), LoginError::Unauthorized);
    }
    assert_eq!(audit.len(), 5);

    let r = get_login_token(
        &users,
        &login("alice", "secret"),
        &mut limiter,
        &config,
        &mut audit,
        &keys.encoding_key,
        &aud,
        HOST,
        1006,
    );
    assert_eq!(r.unwrap_err(), LoginError::RateLimitExceeded);
    // A rate-limited attempt mutates nothing and is not audited.
    assert_eq!(audit.len(), 5);
}

#[test]
fn password_change_validates_and_rehashes() {
    let mut users = user_table();
    let mut audit = AuditLog::new();

    let mismatch = NewPassword {
        first_time: "newpw".to_string(),
        second_time: "other".to_string(),
    };
    let r = update_user_password(&mut users, &mut audit, "alice", &mismatch, 2000);
    assert_eq!(r.unwrap_err(), PasswordError::PasswordsDoNotMatch);

    let matching = NewPassword {
        first_time: "newpw".to_string(),
        second_time: "newpw".to_string(),
    };
    let unknown = update_user_password(&mut users, &mut audit, "bob", &matching, 2001);
    assert_eq!(unknown.unwrap_err(), PasswordError::UserNotFound);
    assert_eq!(audit.len(), 0);

    update_user_password(&mut users, &mut audit, "alice", &matching, 2002).unwrap();
    assert!(bcrypt::verify("newpw", &users[0].password_hash).unwrap());
    assert!(!bcrypt::verify("secret", &users[0].password_hash).unwrap());
    let entry = audit.entry_at(0);
    assert!(matches!(entry.action, Action::PasswordChanged));
    assert_eq!(entry.user_id, Some(1));
}

#[test]
fn audit_log_attributes_by_name_and_counts() {
    let users = user_table();
    let mut audit = AuditLog::new();
    log_action(&mut audit, &users, None, Action::ServerStarted, None, 10);
    log_action(&mut audit, &users, Some("alice"), Action::PickedWinner, None, 11);
    log_action(&mut audit, &users, Some("ghost"), Action::FailedLogin, None, 12);

    assert_eq!(audit.entry_at(0).user_id, None);
    assert_eq!(audit.entry_at(1).user_id, Some(1));
    assert_eq!(audit.entry_at(2).user_id, None);
    assert_eq!(get_audit_event_count(&audit).count, 3);
}

#[test]
fn action_names_are_stable() {
    assert_eq!(Action::SuccessfulLogin.name(), "successful_login");
    assert_eq!(Action::FailedLogin.name(), "failed_login");
    assert_eq!(Action::PickedWinner.name(), "picked_winner");
    assert_eq!(Action::RemovedWinner.name(), "removed_winner");
    assert_eq!(Action::PackageSelected.name(), "package_selected");
    assert_eq!(Action::PackageChanged.name(), "package_changed");
    assert_eq!(Action::PasswordChanged.name(), "password_changed");
    assert_eq!(Action::ServerStarted.name(), "server_started");
    assert_eq!(Action::ServerTerminated.name(), "server_terminated");
}

#[test]
fn user_lookup_finds_first_match() {
    let users = user_table();
    let found = lookup_user_by_name(&users, "alice").unwrap();
    assert_eq!(found.id, 1);
    assert!(lookup_user_by_name(&users, "bob").is_err());
}
