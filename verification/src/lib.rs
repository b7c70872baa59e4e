//! Authentication core for an API gateway: credential verification, a signed
//! access-token codec, a refresh-token store with one-time-use rotation and
//! replay detection, and the session flows (login, refresh, logout, signup,
//! password reset) built on top of them.

use vstd::prelude::*;

pub mod codec;
pub mod email;
pub mod middleware;
pub mod session;
pub mod store;
pub mod users;

verus! {

/// Fatal configuration errors found at process start.
#[derive(Clone, Copy, PartialEq, Eq, Structural, Debug)]
pub enum ConfigError {
    /// No signing key was supplied. The key is never defaulted.
    MissingKey,
}

/// Errors surfaced by the authentication flows.
#[derive(Clone, Copy, PartialEq, Eq, Structural, Debug)]
pub enum AuthError {
    /// Unknown email or wrong password; the two are indistinguishable.
    InvalidCredentials,
    /// The presented refresh token has no record.
    NotFound,
    /// The presented refresh token was already rotated or revoked:
    /// the replay-detection signal.
    AlreadyRevoked,
    /// Signup for an email that already has an identity.
    EmailTaken,
}

/// Errors surfaced when decoding or validating an access token.
#[derive(Clone, Copy, PartialEq, Eq, Structural, Debug)]
pub enum TokenError {
    /// Not a well-formed signed token.
    Malformed,
    /// Well-formed but the signature does not verify under the key.
    SignatureInvalid,
    /// Signature fine, but the validity window has passed.
    Expired,
}

} // verus!
