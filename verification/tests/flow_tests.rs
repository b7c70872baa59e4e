use gateway_auth::middleware::authorize;
use gateway_auth::codec::Role;
use gateway_auth::session::AuthCore;
use gateway_auth::session::now_secs;
use gateway_auth::session::ACCESS_TTL_SECS;
use gateway_auth::AuthError;
use gateway_auth::ConfigError;

const T0: u64 = 1_700_000_000;

fn core_with_user() -> AuthCore {
    let mut core = AuthCore::new(b"flow-test-key".to_vec(), 0).unwrap();
    core.signup("a@x.com".to_string(), b"p".to_vec(), T0).unwrap();
    core
}

#[test]
fn core_requires_a_signing_key() {
    assert!(matches!(AuthCore::new(Vec::new(), 0), Err(ConfigError::MissingKey)));
}

#[test]
fn login_mints_a_decodable_pair() {
    let mut core = core_with_user();
    let t1 = core.login(&"a@x.com".to_string(), &b"p".to_vec(), T0 + 10).unwrap();
    let claims = authorize(core.codec(), &t1.access, T0 + 10, Role::User).unwrap();
    assert_eq!(claims.email, "a@x.com");
    assert!(matches!(claims.role, Role::User));
    assert_eq!(claims.expiry_time - claims.issued_at, ACCESS_TTL_SECS);
    assert_eq!(claims.issued_at, T0 + 10);
}

#[test]
fn login_is_case_insensitive_on_email() {
    let mut core = core_with_user();
    assert!(core.login(&"A@X.COM".to_string(), &b"p".to_vec(), T0 + 10).is_ok());
}

#[test]
fn bad_credentials_fail_with_one_uniform_error() {
    let mut core = core_with_user();
    let wrong_password =
        core.login(&"a@x.com".to_string(), &b"wrong".to_vec(), T0 + 10).unwrap_err();
    let unknown_email = core.login(&"b@x.com".to_string(), &b"p".to_vec(), T0 + 10).unwrap_err();
    assert_eq!(wrong_password, AuthError::InvalidCredentials);
    assert_eq!(unknown_email, AuthError::InvalidCredentials);
    assert_eq!(wrong_password, unknown_email);
}

#[test]
fn signup_rejects_a_taken_email_even_up_to_case() {
    let mut core = core_with_user();
    let e = core.signup("A@X.com".to_string(), b"q".to_vec(), T0 + 1).unwrap_err();
    assert_eq!(e, AuthError::EmailTaken);
}

#[test]
fn refresh_rotates_into_a_fresh_pair() {
    let mut core = core_with_user();
    let t1 = core.login(&"a@x.com".to_string(), &b"p".to_vec(), T0 + 10).unwrap();
    let t2 = core.refresh(t1.refresh, T0 + 20).unwrap();
    assert_ne!(t1.refresh, t2.refresh);
    let claims = authorize(core.codec(), &t2.access, T0 + 20, Role::User).unwrap();
    assert_eq!(claims.email, "a@x.com");
    assert_eq!(claims.issued_at, T0 + 20);
}

#[test]
fn refresh_of_an_unknown_token_is_not_found() {
    let mut core = core_with_user();
    assert_eq!(core.refresh(12345, T0 + 10).unwrap_err(), AuthError::NotFound);
}

#[test]
fn replaying_a_rotated_token_tears_down_the_chain() {
    let mut core = core_with_user();
    let t1 = core.login(&"a@x.com".to_string(), &b"p".to_vec(), T0 + 10).unwrap();
    let t2 = core.refresh(t1.refresh, T0 + 20).unwrap();
    // Presenting the already-rotated token is the replay signal.
    assert_eq!(core.refresh(t1.refresh, T0 + 30).unwrap_err(), AuthError::AlreadyRevoked);
    // The successor is revoked with the rest of the chain.
    assert_eq!(core.refresh(t2.refresh, T0 + 40).unwrap_err(), AuthError::AlreadyRevoked);
    // The outstanding access token stays self-contained and short-lived:
    // it is not revocable server-side and remains accepted until expiry.
    assert!(authorize(core.codec(), &t2.access, T0 + 40, Role::User).is_ok());
    assert!(authorize(core.codec(), &t2.access, T0 + 20 + ACCESS_TTL_SECS, Role::User).is_err());
}

#[test]
fn logout_is_idempotent_and_never_errors() {
    let mut core = core_with_user();
    let t1 = core.login(&"a@x.com".to_string(), &b"p".to_vec(), T0 + 10).unwrap();
    core.logout(t1.refresh);
    core.logout(t1.refresh);
    assert_eq!(core.refresh(t1.refresh, T0 + 20).unwrap_err(), AuthError::AlreadyRevoked);
}

#[test]
fn logout_of_an_unknown_token_is_a_no_op() {
    let mut core = core_with_user();
    core.logout(999);
    core.logout(999);
}

#[test]
fn independent_sessions_get_distinct_refresh_tokens() {
    let mut core = core_with_user();
    let t1 = core.login(&"a@x.com".to_string(), &b"p".to_vec(), T0 + 10).unwrap();
    let t2 = core.login(&"a@x.com".to_string(), &b"p".to_vec(), T0 + 11).unwrap();
    assert_ne!(t1.refresh, t2.refresh);
    // Logging out one session leaves the other alone.
    core.logout(t1.refresh);
    assert!(core.refresh(t2.refresh, T0 + 20).is_ok());
}

#[test]
fn forgot_password_answers_only_known_emails() {
    let core = core_with_user();
    assert!(core.forgot_password(&"a@x.com".to_string(), T0 + 10).is_some());
    assert!(core.forgot_password(&"b@x.com".to_string(), T0 + 10).is_none());
}

#[test]
fn reset_revokes_every_outstanding_session() {
    let mut core = core_with_user();
    let t1 = core.login(&"a@x.com".to_string(), &b"p".to_vec(), T0 + 10).unwrap();
    let t2 = core.login(&"a@x.com".to_string(), &b"p".to_vec(), T0 + 11).unwrap();
    let reset = core.forgot_password(&"a@x.com".to_string(), T0 + 20).unwrap();
    core.reset_password(&reset, b"new-p".to_vec(), T0 + 30).unwrap();
    assert_eq!(core.refresh(t1.refresh, T0 + 40).unwrap_err(), AuthError::AlreadyRevoked);
    assert_eq!(core.refresh(t2.refresh, T0 + 40).unwrap_err(), AuthError::AlreadyRevoked);
    // The old password is gone, the new one works.
    assert_eq!(
        core.login(&"a@x.com".to_string(), &b"p".to_vec(), T0 + 50).unwrap_err(),
        AuthError::InvalidCredentials
    );
    assert!(core.login(&"a@x.com".to_string(), &b"new-p".to_vec(), T0 + 50).is_ok());
}

#[test]
fn a_reset_token_is_single_use() {
    let mut core = core_with_user();
    let reset = core.forgot_password(&"a@x.com".to_string(), T0 + 20).unwrap();
    core.reset_password(&reset, b"new-p".to_vec(), T0 + 30).unwrap();
    let e = core.reset_password(&reset, b"newer-p".to_vec(), T0 + 40).unwrap_err();
    assert_eq!(e, AuthError::InvalidCredentials);
    // The first reset still stands.
    assert!(core.login(&"a@x.com".to_string(), &b"new-p".to_vec(), T0 + 50).is_ok());
}

#[test]
fn an_access_token_is_never_a_reset_token() {
    let mut core = core_with_user();
    let t1 = core.login(&"a@x.com".to_string(), &b"p".to_vec(), T0 + 10).unwrap();
    let e = core.reset_password(&t1.access, b"new-p".to_vec(), T0 + 20).unwrap_err();
    assert_eq!(e, AuthError::InvalidCredentials);
    assert!(core.login(&"a@x.com".to_string(), &b"p".to_vec(), T0 + 30).is_ok());
}

#[test]
fn an_expired_reset_token_is_rejected() {
    let mut core = core_with_user();
    let reset = core.forgot_password(&"a@x.com".to_string(), T0 + 20).unwrap();
    let e = core.reset_password(&reset, b"new-p".to_vec(), T0 + 20 + 600).unwrap_err();
    assert_eq!(e, AuthError::InvalidCredentials);
    assert!(core.login(&"a@x.com".to_string(), &b"p".to_vec(), T0 + 1000).is_ok());
}

#[test]
fn end_to_end_login_refresh_replay() {
    let mut core = AuthCore::new(b"e2e-key".to_vec(), 0).unwrap();
    core.signup("a@x.com".to_string(), b"p".to_vec(), T0).unwrap();
    let t1 = core.login(&"a@x.com".to_string(), &b"p".to_vec(), T0 + 1).unwrap();
    let t2 = core.refresh(t1.refresh, T0 + 2).unwrap();
    assert_eq!(core.refresh(t1.refresh, T0 + 3).unwrap_err(), AuthError::AlreadyRevoked);
    assert_eq!(core.refresh(t2.refresh, T0 + 4).unwrap_err(), AuthError::AlreadyRevoked);
    // Recovery after the teardown is a fresh login.
    let t3 = core.login(&"a@x.com".to_string(), &b"p".to_vec(), T0 + 5).unwrap();
    assert!(authorize(core.codec(), &t3.access, T0 + 5, Role::User).is_ok());
    assert!(core.refresh(t3.refresh, T0 + 6).is_ok());
}

#[test]
fn the_clock_reads_after_the_epoch() {
    assert!(now_secs() > 0);
}
