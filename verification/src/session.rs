//! Session issuer: orchestrates login, refresh, logout, signup and password
//! reset over the credential verifier, the token codec and the refresh store.
//! Access tokens are short-lived and stateless; only refresh records carry
//! server-side state.

use vstd::prelude::*;
use crate::codec::Claims;
use crate::codec::Codec;
use crate::codec::Role;
use crate::codec::TokenKind;
use crate::codec::spec_payload;
use crate::codec::token_of;
use crate::email::same_email;
use crate::store::RefreshRecord;
use crate::store::RefreshStore;
use crate::store::record_for;
use crate::store::spec_has;
use crate::store::spec_issued;
use crate::store::spec_revoke_email;
use crate::store::spec_revoke_id;
use crate::store::spec_revoke_session;
use crate::store::spec_rotated;
use crate::users::UserStore;
use crate::AuthError;
use crate::ConfigError;

verus! {

/// Lifetime of an access token, in seconds.
pub const ACCESS_TTL_SECS: u64 = 900;

/// Lifetime of a password-reset token, in seconds.
pub const RESET_TTL_SECS: u64 = 600;

/// What a successful login or refresh hands back: the signed access token,
/// and the opaque identifier of the refresh record.
#[derive(Debug)]
pub struct TokenPair {
    pub access: String,
    pub refresh: u128,
}

/// Relies on chrono::Utc::now: the system clock read as whole seconds since
/// the Unix epoch (negative before it). Nothing is assumed about the value.
#[verifier::external_body]
fn current_timestamp() -> (r: i64) {
    chrono::Utc::now().timestamp()
}

/// The current time as epoch seconds, clamped below at zero.
pub fn now_secs() -> u64 {
    let t = current_timestamp();
    if t < 0 {
        0
    } else {
        t as u64
    }
}

/// The authentication core: the codec configuration, the user store and the
/// refresh store.
pub struct AuthCore {
    codec: Codec,
    users: UserStore,
    refresh: RefreshStore,
}

impl AuthCore {
    /// The codec configuration (signing key and leeway).
    pub closed spec fn codec_of(self) -> Codec {
        self.codec
    }

    /// The user store.
    pub closed spec fn user_store(self) -> UserStore {
        self.users
    }

    /// The refresh records.
    pub closed spec fn records(self) -> Seq<RefreshRecord> {
        self.refresh.records()
    }

    /// The refresh store.
    pub closed spec fn refresh_store(self) -> RefreshStore {
        self.refresh
    }

    /// Core invariant: both stores are well-formed.
    pub open spec fn wf(self) -> bool {
        self.user_store().wf() && self.refresh_store().wf()
    }

    /// A core over the given signing key, with empty stores. An absent
    /// (empty) key is a fatal configuration error, never a default.
    pub fn new(key: Vec<u8>, leeway: u64) -> (r: Result<AuthCore, ConfigError>)
        ensures
            (key@.len() == 0) <==> (r matches Err(e) && e == ConfigError::MissingKey),
            r matches Ok(c) ==> c.wf() && c.codec_of().key_view() == key@ && c.codec_of().leeway_of()
                == leeway && c.user_store().entries().len() == 0 && c.records().len() == 0,
    {
        let codec = match Codec::new(key, leeway) {
            Ok(c) => c,
            Err(e) => {
                return Err(e);
            },
        };
        Ok(AuthCore { codec, users: UserStore::new(), refresh: RefreshStore::new() })
    }

    /// The codec, for gating protected routes against this core's signing
    /// key and leeway.
    pub fn codec(&self) -> (r: &Codec)
        ensures
            *r == self.codec_of(),
    {
        &self.codec
    }

    /// Create an identity with the User role; rejected when the email is
    /// already taken (up to ASCII case). No tokens are issued.
    pub fn signup(&mut self, email: String, password: Vec<u8>, now: u64) -> (r: Result<
        (),
        AuthError,
    >)
        requires
            old(self).wf(),
        ensures
            final(self).wf(),
            final(self).codec_of() == old(self).codec_of(),
            final(self).records() == old(self).records(),
            old(self).user_store().spec_has(email@) ==> r == Result::<(), AuthError>::Err(
                AuthError::EmailTaken,
            ) && final(self).user_store().entries() == old(self).user_store().entries(),
            !old(self).user_store().spec_has(email@) ==> r is Ok
                && final(self).user_store().entries().len() == old(self).user_store().entries().len()
                + 1 && final(self).user_store().entries().drop_last() == old(self).user_store().entries() && ({
                let e = final(self).user_store().entries().last();
                e.email@ == email@ && e.password@ == password@ && e.role == Role::User
                    && e.pwd_changed_at == now
            }),
    {
        self.users.create(email, password, Role::User, now)
    }

    /// Log in: verify the credentials; on success mint an access token for
    /// the stored identity, valid from `now` for `ACCESS_TTL_SECS` seconds,
    /// and issue a fresh refresh record. Invalid credentials — unknown email
    /// and wrong password alike — fail with the one same error and no state
    /// change.
    pub fn login(&mut self, email: &String, password: &Vec<u8>, now: u64) -> (r: Result<
        TokenPair,
        AuthError,
    >)
        requires
            old(self).wf(),
            now + ACCESS_TTL_SECS <= u64::MAX,
        ensures
            final(self).wf(),
            final(self).codec_of() == old(self).codec_of(),
            final(self).user_store() == old(self).user_store(),
            r is Ok <==> old(self).user_store().spec_match(email@, password@),
            r matches Err(e) ==> e == AuthError::InvalidCredentials && final(self).records() == old(
                self,
            ).records(),
            r matches Ok(pair) ==> ({
                let u = old(self).user_store().entry_for(email@);
                pair.access@ == token_of(
                    spec_payload(TokenKind::Access, u.role, u.email@),
                    now,
                    (now + ACCESS_TTL_SECS) as u64,
                    old(self).codec_of().key_view(),
                ) && spec_issued(old(self).records(), final(self).records(), pair.refresh, u.email@, now)
            }),
    {
        let ident = match self.users.verify(email, password) {
            Ok(id) => id,
            Err(e) => {
                return Err(e);
            },
        };
        let claims = Claims {
            kind: TokenKind::Access,
            email: ident.email.clone(),
            role: ident.role,
            issued_at: now,
            expiry_time: now + ACCESS_TTL_SECS,
        };
        let access = self.codec.mint(&claims);
        let refresh = self.refresh.issue(ident.email, now);
        Ok(TokenPair { access, refresh })
    }

    /// Rotate a refresh token: on success the old record is revoked and
    /// points at a fresh one, and a new access token is minted for the bound
    /// email. An unknown identifier is rejected without a state change. An
    /// already-revoked one is treated as replay: the whole chain it belongs
    /// to is revoked and the caller must log in again.
    pub fn refresh(&mut self, token_id: u128, now: u64) -> (r: Result<TokenPair, AuthError>)
        requires
            old(self).wf(),
            now + ACCESS_TTL_SECS <= u64::MAX,
        ensures
            final(self).wf(),
            final(self).codec_of() == old(self).codec_of(),
            final(self).user_store() == old(self).user_store(),
            !spec_has(old(self).records(), token_id) ==> r == Result::<TokenPair, AuthError>::Err(
                AuthError::NotFound,
            ) && final(self).records() == old(self).records(),
            spec_has(old(self).records(), token_id) && record_for(
                old(self).records(),
                token_id,
            ).revoked ==> r == Result::<TokenPair, AuthError>::Err(AuthError::AlreadyRevoked)
                && final(self).records() == spec_revoke_session(
                old(self).records(),
                record_for(old(self).records(), token_id).session,
            ),
            spec_has(old(self).records(), token_id) && !record_for(
                old(self).records(),
                token_id,
            ).revoked && !old(self).user_store().spec_has(
                record_for(old(self).records(), token_id).email@,
            ) ==> r == Result::<TokenPair, AuthError>::Err(AuthError::NotFound) && final(self).records() == old(self).records(),
            spec_has(old(self).records(), token_id) && !record_for(
                old(self).records(),
                token_id,
            ).revoked && old(self).user_store().spec_has(
                record_for(old(self).records(), token_id).email@,
            ) ==> (r matches Ok(pair) && ({
                let u = old(self).user_store().entry_for(
                    record_for(old(self).records(), token_id).email@,
                );
                pair.access@ == token_of(
                    spec_payload(TokenKind::Access, u.role, u.email@),
                    now,
                    (now + ACCESS_TTL_SECS) as u64,
                    old(self).codec_of().key_view(),
                ) && spec_rotated(
                    old(self).records(),
                    final(self).records(),
                    token_id,
                    pair.refresh,
                    now,
                )
            })),
    {
        let (revoked, email) = match self.refresh.status_of(token_id) {
            Some(s) => s,
            None => {
                return Err(AuthError::NotFound);
            },
        };
        if revoked {
            // A revoked record is the replay signal: rotating it can only
            // report AlreadyRevoked, after tearing the whole chain down.
            return match self.refresh.rotate(token_id, now) {
                Err(e) => Err(e),
                Ok(_) => Err(AuthError::NotFound),
            };
        }
        let ident = match self.users.identity_of(&email) {
            Some(id) => id,
            None => {
                return Err(AuthError::NotFound);
            },
        };
        let new_id = match self.refresh.rotate(token_id, now) {
            Ok(n) => n,
            Err(e) => {
                return Err(e);
            },
        };
        let claims = Claims {
            kind: TokenKind::Access,
            email: ident.email,
            role: ident.role,
            issued_at: now,
            expiry_time: now + ACCESS_TTL_SECS,
        };
        let access = self.codec.mint(&claims);
        Ok(TokenPair { access, refresh: new_id })
    }

    /// Log out: idempotently revoke the record carrying `token_id`. Never an
    /// error; revoking an unknown or already-revoked identifier is a no-op.
    pub fn logout(&mut self, token_id: u128)
        requires
            old(self).wf(),
        ensures
            final(self).wf(),
            final(self).codec_of() == old(self).codec_of(),
            final(self).user_store() == old(self).user_store(),
            final(self).records() == spec_revoke_id(old(self).records(), token_id),
    {
        self.refresh.revoke(token_id);
    }

    /// Issue a single-use, short-lived password-reset token for a known
    /// email; `None` for an unknown one (the transport layer answers the
    /// same either way, to avoid account enumeration). The token carries the
    /// Reset purpose and is never accepted as an access token.
    pub fn forgot_password(&self, email: &String, now: u64) -> (r: Option<String>)
        requires
            self.wf(),
            now + RESET_TTL_SECS <= u64::MAX,
        ensures
            r is Some <==> self.user_store().spec_has(email@),
            r matches Some(tok) ==> ({
                let u = self.user_store().entry_for(email@);
                tok@ == token_of(
                    spec_payload(TokenKind::Reset, u.role, u.email@),
                    now,
                    (now + RESET_TTL_SECS) as u64,
                    self.codec_of().key_view(),
                )
            }),
    {
        let ident = match self.users.identity_of(email) {
            Some(id) => id,
            None => {
                return None;
            },
        };
        let claims = Claims {
            kind: TokenKind::Reset,
            email: ident.email,
            role: ident.role,
            issued_at: now,
            expiry_time: now + RESET_TTL_SECS,
        };
        Some(self.codec.mint(&claims))
    }

    /// A decoded reset token is accepted when it carries the Reset purpose,
    /// names a known email, and was issued strictly after that identity's
    /// last password change — which makes each reset token single-use.
    pub open spec fn spec_reset_ok(self, kind: TokenKind, email: Seq<char>, issued_at: u64) -> bool {
        kind == TokenKind::Reset && self.user_store().spec_has(email) && issued_at
            > self.user_store().entry_for(email).pwd_changed_at
    }

    /// Apply an already-decoded reset token: when it is accepted, store the
    /// new secret, record `now` as the moment of the change (spending the
    /// token and any older one), and revoke every refresh record bound to
    /// the email; otherwise reject with the uniform credential error and no
    /// state change.
    pub fn apply_reset(&mut self, claims: &Claims, new_password: Vec<u8>, now: u64) -> (r: Result<
        (),
        AuthError,
    >)
        requires
            old(self).wf(),
        ensures
            final(self).wf(),
            final(self).codec_of() == old(self).codec_of(),
            !old(self).spec_reset_ok(claims.kind, claims.email@, claims.issued_at) ==> r == Result::<
                (),
                AuthError,
            >::Err(
                AuthError::InvalidCredentials,
            ) && final(self).user_store().entries() == old(self).user_store().entries() && final(self).records() == old(self).records(),
            old(self).spec_reset_ok(claims.kind, claims.email@, claims.issued_at) ==> r is Ok
                && final(self).records()
                == spec_revoke_email(old(self).records(), claims.email@) && final(self).user_store().entries().len() == old(self).user_store().entries().len() && (forall|j: int|
                #![trigger final(self).user_store().entries()[j]]
                0 <= j < final(self).user_store().entries().len() ==> ({
                    let e = final(self).user_store().entries()[j];
                    let o = old(self).user_store().entries()[j];
                    if same_email(o.email@, claims.email@) {
                        e.email@ == o.email@ && e.password@ == new_password@ && e.role == o.role
                            && e.pwd_changed_at == now
                    } else {
                        e == o
                    }
                })),
    {
        let is_reset = match claims.kind {
            TokenKind::Reset => true,
            TokenKind::Access => false,
        };
        if !is_reset {
            return Err(AuthError::InvalidCredentials);
        }
        let changed = match self.users.changed_at(&claims.email) {
            Some(t) => t,
            None => {
                return Err(AuthError::InvalidCredentials);
            },
        };
        if claims.issued_at <= changed {
            return Err(AuthError::InvalidCredentials);
        }
        let known = self.users.update_password(&claims.email, new_password, now);
        proof {
            assert(known);
        }
        self.refresh.revoke_all_for_email(&claims.email);
        Ok(())
    }

    /// Reset a password with a signed reset token presented at time `now`:
    /// decode and validate the token, then apply it as `apply_reset` says.
    /// Every failure — bad signature, expired or malformed token, wrong
    /// purpose, unknown email, spent token — is the one same credential
    /// error, with no state change.
    pub fn reset_password(&mut self, token: &String, new_password: Vec<u8>, now: u64) -> (r: Result<
        (),
        AuthError,
    >)
        requires
            old(self).wf(),
        ensures
            final(self).wf(),
            final(self).codec_of() == old(self).codec_of(),
            r matches Err(e) ==> e == AuthError::InvalidCredentials,
            forall|k: TokenKind, ro: Role, em: Seq<char>, i: u64, x: u64|
                token@ == #[trigger] token_of(
                    spec_payload(k, ro, em),
                    i,
                    x,
                    old(self).codec_of().key_view(),
                ) ==> (if Codec::spec_window_ok(now, old(self).codec_of().leeway_of(), x) && old(
                    self,
                ).spec_reset_ok(k, em, i) {
                    r is Ok && final(self).records() == spec_revoke_email(
                        old(self).records(),
                        em,
                    ) && final(self).user_store().entries().len() == old(
                        self,
                    ).user_store().entries().len() && (forall|j: int|
                        #![trigger final(self).user_store().entries()[j]]
                        0 <= j < final(self).user_store().entries().len() ==> ({
                            let e = final(self).user_store().entries()[j];
                            let o = old(self).user_store().entries()[j];
                            if same_email(o.email@, em) {
                                e.email@ == o.email@ && e.password@ == new_password@ && e.role
                                    == o.role && e.pwd_changed_at == now
                            } else {
                                e == o
                            }
                        }))
                } else {
                    r == Result::<(), AuthError>::Err(AuthError::InvalidCredentials) && final(self).user_store().entries() == old(self).user_store().entries() && final(self).records() == old(self).records()
                }),
    {
        let claims = match self.codec.decode(token, now) {
            Ok(c) => c,
            Err(_) => {
                return Err(AuthError::InvalidCredentials);
            },
        };
        self.apply_reset(&claims, new_password, now)
    }
}

} // verus!
