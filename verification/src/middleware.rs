//! Authorization middleware: validates the bearer token of a request against
//! the codec alone (never the refresh store — access tokens are
//! self-contained) and checks the decoded role against what the route
//! requires. Every token failure maps to the one same rejection, so a caller
//! cannot probe which sub-case failed.

use vstd::prelude::*;
use crate::codec::Claims;
use crate::codec::Codec;
use crate::codec::Role;
use crate::codec::TokenKind;
use crate::codec::spec_payload;
use crate::codec::token_of;

verus! {

/// Why a request was rejected: no acceptable token (the transport layer
/// answers 401, uniformly), or a valid identity whose role the route does
/// not admit (403).
#[derive(Clone, Copy, PartialEq, Eq, Structural, Debug)]
pub enum AuthzError {
    Unauthorized,
    Forbidden,
}

/// Whether an identity holding `have` may use a route that requires `need`:
/// the exact role, or Admin anywhere.
pub open spec fn role_allows(have: Role, need: Role) -> bool {
    have == need || have == Role::Admin
}

/// Gate a protected route: decode and validate the bearer token at time
/// `now`; reject any token failure, and any token that is not an access
/// token, with the one uniform `Unauthorized`; then admit the identity only
/// if its role satisfies the route's required role, else `Forbidden`. On
/// success the decoded claims are handed to the route.
pub fn authorize(codec: &Codec, token: &String, now: u64, required: Role) -> (r: Result<
    Claims,
    AuthzError,
>)
    ensures
        forall|k: TokenKind, ro: Role, e: Seq<char>, i: u64, x: u64|
            token@ == #[trigger] token_of(spec_payload(k, ro, e), i, x, codec.key_view()) ==> (
            if !Codec::spec_window_ok(now, codec.leeway_of(), x) || k != TokenKind::Access {
                r == Result::<Claims, AuthzError>::Err(AuthzError::Unauthorized)
            } else if !role_allows(ro, required) {
                r == Result::<Claims, AuthzError>::Err(AuthzError::Forbidden)
            } else {
                r matches Ok(d) && d.kind == k && d.email@ == e && d.role == ro && d.issued_at == i
                    && d.expiry_time == x
            }),
        r matches Ok(d) ==> d.kind == TokenKind::Access && Codec::spec_window_ok(
            now,
            codec.leeway_of(),
            d.expiry_time,
        ) && role_allows(d.role, required),
{
    let d = match codec.decode(token, now) {
        Ok(d) => d,
        Err(_) => {
            return Err(AuthzError::Unauthorized);
        },
    };
    let is_access = match d.kind {
        TokenKind::Access => true,
        TokenKind::Reset => false,
    };
    if !is_access {
        return Err(AuthzError::Unauthorized);
    }
    if d.role == required || d.role == Role::Admin {
        Ok(d)
    } else {
        Err(AuthzError::Forbidden)
    }
}

} // verus!
