use gateway_auth::codec::Claims;
use gateway_auth::codec::Codec;
use gateway_auth::codec::Role;
use gateway_auth::codec::TokenKind;
use gateway_auth::email::emails_match;
use gateway_auth::middleware::authorize;
use gateway_auth::middleware::AuthzError;
use gateway_auth::users::fixed_time_eq;
use gateway_auth::ConfigError;
use gateway_auth::TokenError;

fn codec(key: &[u8]) -> Codec {
    Codec::new(key.to_vec(), 0).unwrap()
}

fn claims(kind: TokenKind, email: &str, role: Role, iat: u64, exp: u64) -> Claims {
    Claims { kind, email: email.to_string(), role, issued_at: iat, expiry_time: exp }
}

#[test]
fn empty_key_is_a_config_error() {
    assert!(matches!(Codec::new(Vec::new(), 0), Err(ConfigError::MissingKey)));
}

#[test]
fn mint_decode_round_trip() {
    let c = codec(b"round-trip-key");
    let cl = claims(TokenKind::Access, "a@x.com", Role::User, 100, 1000);
    let tok = c.mint(&cl);
    let d = c.decode(&tok, 500).unwrap();
    assert!(matches!(d.kind, TokenKind::Access));
    assert_eq!(d.email, "a@x.com");
    assert!(matches!(d.role, Role::User));
    assert_eq!(d.issued_at, 100);
    assert_eq!(d.expiry_time, 1000);
}

#[test]
fn reset_claims_round_trip_keeps_kind_and_role() {
    let c = codec(b"round-trip-key");
    let cl = claims(TokenKind::Reset, "Root@X.com", Role::Admin, 7, 8);
    let d = c.decode(&c.mint(&cl), 7).unwrap();
    assert!(matches!(d.kind, TokenKind::Reset));
    assert!(matches!(d.role, Role::Admin));
    assert_eq!(d.email, "Root@X.com");
}

#[test]
fn expiry_boundary_is_exclusive() {
    let c = codec(b"boundary-key");
    let tok = c.mint(&claims(TokenKind::Access, "a@x.com", Role::User, 100, 1000));
    assert!(c.decode(&tok, 999).is_ok());
    assert_eq!(c.decode(&tok, 1000).unwrap_err(), TokenError::Expired);
    assert_eq!(c.decode(&tok, 5000).unwrap_err(), TokenError::Expired);
}

#[test]
fn issue_instant_is_valid() {
    let c = codec(b"boundary-key");
    let tok = c.mint(&claims(TokenKind::Access, "a@x.com", Role::User, 100, 1000));
    assert!(c.decode(&tok, 100).is_ok());
}

#[test]
fn leeway_extends_the_window() {
    let c = Codec::new(b"leeway-key".to_vec(), 5).unwrap();
    let tok = c.mint(&claims(TokenKind::Access, "a@x.com", Role::User, 100, 1000));
    assert!(c.decode(&tok, 1000).is_ok());
    assert!(c.decode(&tok, 1004).is_ok());
    assert_eq!(c.decode(&tok, 1005).unwrap_err(), TokenError::Expired);
}

#[test]
fn garbage_is_malformed() {
    let c = codec(b"some-key");
    let e = c.decode(&"not.a.token".to_string(), 0).unwrap_err();
    assert_eq!(e, TokenError::Malformed);
}

#[test]
fn wrong_key_is_a_signature_failure() {
    let minter = codec(b"key-one");
    let wrong_key = codec(b"key-two");
    let tok = minter.mint(&claims(TokenKind::Access, "a@x.com", Role::User, 100, 1000));
    assert_eq!(wrong_key.decode(&tok, 500).unwrap_err(), TokenError::SignatureInvalid);
}

#[test]
fn authorize_admits_matching_role() {
    let c = codec(b"mw-key");
    let tok = c.mint(&claims(TokenKind::Access, "a@x.com", Role::User, 100, 1000));
    let d = authorize(&c, &tok, 500, Role::User).unwrap();
    assert_eq!(d.email, "a@x.com");
}

#[test]
fn authorize_admits_admin_anywhere() {
    let c = codec(b"mw-key");
    let tok = c.mint(&claims(TokenKind::Access, "root@x.com", Role::Admin, 100, 1000));
    assert!(authorize(&c, &tok, 500, Role::User).is_ok());
    assert!(authorize(&c, &tok, 500, Role::Admin).is_ok());
}

#[test]
fn authorize_rejects_role_mismatch_with_forbidden() {
    let c = codec(b"mw-key");
    let tok = c.mint(&claims(TokenKind::Access, "a@x.com", Role::User, 100, 1000));
    assert_eq!(authorize(&c, &tok, 500, Role::Admin).unwrap_err(), AuthzError::Forbidden);
}

#[test]
fn authorize_rejects_expired_and_forged_uniformly() {
    let c = codec(b"mw-key");
    let tok = c.mint(&claims(TokenKind::Access, "a@x.com", Role::User, 100, 1000));
    assert_eq!(authorize(&c, &tok, 1000, Role::User).unwrap_err(), AuthzError::Unauthorized);
    let other = codec(b"other-key");
    let forged = other.mint(&claims(TokenKind::Access, "a@x.com", Role::Admin, 100, 1000));
    assert_eq!(authorize(&c, &forged, 500, Role::User).unwrap_err(), AuthzError::Unauthorized);
    assert_eq!(
        authorize(&c, &"???".to_string(), 500, Role::User).unwrap_err(),
        AuthzError::Unauthorized
    );
}

#[test]
fn authorize_never_accepts_a_reset_token() {
    let c = codec(b"mw-key");
    let tok = c.mint(&claims(TokenKind::Reset, "a@x.com", Role::Admin, 100, 1000));
    assert_eq!(authorize(&c, &tok, 500, Role::User).unwrap_err(), AuthzError::Unauthorized);
}

#[test]
fn emails_match_folds_ascii_case_only() {
    assert!(emails_match(&"A@X.com".to_string(), &"a@x.COM".to_string()));
    assert!(!emails_match(&"a@x.com".to_string(), &"b@x.com".to_string()));
    assert!(!emails_match(&"a@x.com".to_string(), &"a@x.com.".to_string()));
}

#[test]
fn fixed_time_eq_compares_whole_secrets() {
    assert!(fixed_time_eq(&b"secret".to_vec(), &b"secret".to_vec()));
    assert!(!fixed_time_eq(&b"secret".to_vec(), &b"secret!".to_vec()));
    assert!(!fixed_time_eq(&b"secreu".to_vec(), &b"secret".to_vec()));
    assert!(fixed_time_eq(&Vec::new(), &Vec::new()));
}
