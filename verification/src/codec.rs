//! Token codec: mints and decodes signed claim tokens. A token is a
//! self-describing signed structure (header, payload, signature) under a
//! symmetric key fixed at construction; validity is determined purely by the
//! signature and the expiry window, with no server-side record. The payload
//! carries the validity window as two numeric fields, and the purpose, role
//! and email packed into one text field whose first two characters tag the
//! purpose and the role.

use vstd::prelude::*;
use vstd::string::StrSliceExecFns;
use vstd::string::StringExecFns;
use jsonwebtoken::DecodingKey;
use jsonwebtoken::EncodingKey;
use jsonwebtoken::Header;
use jsonwebtoken::Validation;
use jsonwebtoken::Algorithm;
use jsonwebtoken::errors::ErrorKind;
use serde_json::Value;
use std::collections::HashSet;
use crate::ConfigError;
use crate::TokenError;

verus! {

/// The closed set of roles an identity can hold.
#[derive(Clone, Copy, PartialEq, Eq, Structural, Debug)]
pub enum Role {
    Admin,
    User,
}

/// What a signed token is for. A reset token must never be accepted where an
/// access token is expected, so the purpose is part of the signed payload.
#[derive(Clone, Copy, PartialEq, Eq, Structural, Debug)]
pub enum TokenKind {
    Access,
    Reset,
}

/// The character tagging this purpose in a payload.
pub open spec fn kind_char(k: TokenKind) -> char {
    match k {
        TokenKind::Access => 'a',
        TokenKind::Reset => 'r',
    }
}

/// The character tagging this role in a payload.
pub open spec fn role_char(ro: Role) -> char {
    match ro {
        Role::Admin => 'A',
        Role::User => 'U',
    }
}

/// The two-character tag opening a payload: purpose, then role.
pub open spec fn spec_duo(k: TokenKind, ro: Role) -> Seq<char> {
    match (k, ro) {
        (TokenKind::Access, Role::Admin) => "aA"@,
        (TokenKind::Access, Role::User) => "aU"@,
        (TokenKind::Reset, Role::Admin) => "rA"@,
        (TokenKind::Reset, Role::User) => "rU"@,
    }
}

/// The text field of a signed payload: the two tag characters, then the
/// email verbatim.
pub open spec fn spec_payload(k: TokenKind, ro: Role, email: Seq<char>) -> Seq<char> {
    spec_duo(k, ro) + email
}

/// Each tag is its purpose character followed by its role character.
pub proof fn lemma_duo_chars()
    ensures
        forall|k: TokenKind, ro: Role| (#[trigger] spec_duo(k, ro)).len() == 2,
        forall|k: TokenKind, ro: Role| (#[trigger] spec_duo(k, ro))[0] == kind_char(k),
        forall|k: TokenKind, ro: Role| (#[trigger] spec_duo(k, ro))[1] == role_char(ro),
{
    reveal_strlit("aA");
    reveal_strlit("aU");
    reveal_strlit("rA");
    reveal_strlit("rU");
    assert forall|k: TokenKind, ro: Role|
        (#[trigger] spec_duo(k, ro)).len() == 2 && (#[trigger] spec_duo(k, ro))[0] == kind_char(k)
            && (#[trigger] spec_duo(k, ro))[1] == role_char(ro) by {
        match (k, ro) {
            (TokenKind::Access, Role::Admin) => assert(spec_duo(k, ro) == "aA"@),
            (TokenKind::Access, Role::User) => assert(spec_duo(k, ro) == "aU"@),
            (TokenKind::Reset, Role::Admin) => assert(spec_duo(k, ro) == "rA"@),
            (TokenKind::Reset, Role::User) => assert(spec_duo(k, ro) == "rU"@),
        }
    }
}

/// A payload determines its purpose, role and email: no two distinct claim
/// triples share a payload.
pub proof fn lemma_payload_injective(
    k1: TokenKind,
    ro1: Role,
    e1: Seq<char>,
    k2: TokenKind,
    ro2: Role,
    e2: Seq<char>,
)
    requires
        spec_payload(k1, ro1, e1) == spec_payload(k2, ro2, e2),
    ensures
        k1 == k2,
        ro1 == ro2,
        e1 == e2,
{
    lemma_duo_chars();
    let p = spec_payload(k1, ro1, e1);
    assert(spec_duo(k1, ro1).len() == 2);
    assert(spec_duo(k2, ro2).len() == 2);
    assert(p[0] == kind_char(k1) && p[0] == kind_char(k2));
    assert(p[1] == role_char(ro1) && p[1] == role_char(ro2));
    assert(spec_payload(k1, ro1, e1).len() == 2 + e1.len());
    assert(spec_payload(k2, ro2, e2).len() == 2 + e2.len());
    assert(e1.len() == e2.len());
    assert forall|i: int| 0 <= i < e1.len() implies e1[i] == e2[i] by {
        assert(e1[i] == p[i + 2]);
        assert(e2[i] == p[i + 2]);
    }
    assert(e1 =~= e2);
}

/// The claims carried inside a signed token: who, with which role, for which
/// purpose, and the validity window in epoch seconds. Never persisted
/// server-side; immutable once minted.
#[derive(Debug)]
pub struct Claims {
    pub kind: TokenKind,
    pub email: String,
    pub role: Role,
    pub issued_at: u64,
    pub expiry_time: u64,
}

impl Claims {
    /// The claims invariant: the window is non-empty.
    pub open spec fn wf(self) -> bool {
        self.issued_at < self.expiry_time
    }
}

/// The signed token that the underlying signing primitive produces from this
/// payload text and window under this key. Distinct inputs give distinct
/// tokens.
pub uninterp spec fn token_of(
    payload: Seq<char>,
    issued_at: u64,
    expiry_time: u64,
    key: Seq<u8>,
) -> Seq<char>;

/// The signed token carrying exactly these claims under this key.
pub open spec fn spec_token(c: Claims, key: Seq<u8>) -> Seq<char> {
    token_of(spec_payload(c.kind, c.role, c.email@), c.issued_at, c.expiry_time, key)
}

/// Build the payload text for these claims: the two tag characters, then
/// the email.
fn compose_payload(kind: TokenKind, role: Role, email: &String) -> (r: String)
    ensures
        r@ == spec_payload(kind, role, email@),
{
    let mut s: String = match (kind, role) {
        (TokenKind::Access, Role::Admin) => "aA".to_owned(),
        (TokenKind::Access, Role::User) => "aU".to_owned(),
        (TokenKind::Reset, Role::Admin) => "rA".to_owned(),
        (TokenKind::Reset, Role::User) => "rU".to_owned(),
    };
    s.append(email.as_str());
    s
}

/// Read a payload text back into its purpose, role and email; `None` for
/// text that no claim triple produces.
fn parse_payload(p: &String) -> (r: Option<(TokenKind, Role, String)>)
    ensures
        r matches Some(t) ==> p@ == spec_payload(t.0, t.1, t.2@),
        r is None ==> forall|k: TokenKind, ro: Role, e: Seq<char>| p@ != spec_payload(k, ro, e),
{
    proof {
        lemma_duo_chars();
    }
    let n = p.as_str().unicode_len();
    if n < 2 {
        return None;
    }
    let c0 = p.as_str().get_char(0);
    let c1 = p.as_str().get_char(1);
    let kind = if c0 == 'a' {
        TokenKind::Access
    } else if c0 == 'r' {
        TokenKind::Reset
    } else {
        return None;
    };
    let role = if c1 == 'A' {
        Role::Admin
    } else if c1 == 'U' {
        Role::User
    } else {
        return None;
    };
    let email = p.as_str().substring_char(2, n).to_owned();
    proof {
        assert(p@ =~= spec_duo(kind, role) + email@);
    }
    Some((kind, role, email))
}

/// Relies on jsonwebtoken::encode with the default HS256 header: under an
/// HMAC secret the token is a deterministic function of the three payload
/// fields and the key alone, injective in them; with the rust_crypto
/// backend, signing a JSON object of these fields cannot fail.
#[verifier::external_body]
fn encode_signed(payload: &String, iat: u64, exp: u64, key: &Vec<u8>) -> (r: String)
    ensures
        r@ == token_of(payload@, iat, exp, key@),
{
    let mut m = serde_json::Map::new();
    m.insert("p".to_owned(), Value::String(payload.clone()));
    m.insert("iat".to_owned(), Value::from(iat));
    m.insert("exp".to_owned(), Value::from(exp));
    let k = EncodingKey::from_secret(key.as_slice());
    jsonwebtoken::encode(&Header::default(), &Value::Object(m), &k).unwrap()
}

/// Relies on jsonwebtoken::decode restricted to HS256, with its own claim
/// checks turned off so that the expiry check stays in verified code: a
/// token that jsonwebtoken::encode produced from these fields under the same
/// key decodes back to exactly those fields; InvalidSignature is reported as
/// SignatureInvalid and every other failure as Malformed.
#[verifier::external_body]
fn decode_signed(token: &String, key: &Vec<u8>) -> (r: Result<(String, u64, u64), TokenError>)
    ensures
        r matches Ok(t) ==> forall|p: Seq<char>, i: u64, x: u64|
            token@ == #[trigger] token_of(p, i, x, key@) ==> (t.0@ == p && t.1 == i && t.2 == x),
        r matches Err(_) ==> forall|p: Seq<char>, i: u64, x: u64|
            token@ != #[trigger] token_of(p, i, x, key@),
        r matches Err(e) ==> (e == TokenError::Malformed || e == TokenError::SignatureInvalid),
{
    let mut v = Validation::new(Algorithm::HS256);
    v.validate_exp = false;
    v.required_spec_claims = HashSet::new();
    let dk = DecodingKey::from_secret(key.as_slice());
    let d = match jsonwebtoken::decode::<Value>(token, &dk, &v) {
        Ok(t) => t.claims,
        Err(e) if matches!(e.kind(), ErrorKind::InvalidSignature) => { return Err(TokenError::SignatureInvalid) },
        Err(_) => { return Err(TokenError::Malformed) },
    };
    match (d["p"].as_str(), d["iat"].as_u64(), d["exp"].as_u64()) {
        (Some(p), Some(i), Some(x)) => Ok((p.to_owned(), i, x)),
        _ => Err(TokenError::Malformed),
    }
}

/// The codec configuration: the signing key, fixed at process start, and the
/// clock-skew leeway in seconds granted past the declared expiry.
pub struct Codec {
    key: Vec<u8>,
    leeway: u64,
}

impl Codec {
    /// The signing key.
    pub closed spec fn key_view(self) -> Seq<u8> {
        self.key@
    }

    /// The clock-skew leeway in seconds.
    pub closed spec fn leeway_of(self) -> u64 {
        self.leeway
    }

    /// A codec over the given signing key. An absent (empty) key is a fatal
    /// configuration error, never a default.
    pub fn new(key: Vec<u8>, leeway: u64) -> (r: Result<Codec, ConfigError>)
        ensures
            key@.len() == 0 <==> (r matches Err(e) && e == ConfigError::MissingKey),
            r matches Ok(c) ==> c.key_view() == key@ && c.leeway_of() == leeway,
    {
        if key.len() == 0 {
            Err(ConfigError::MissingKey)
        } else {
            Ok(Codec { key, leeway })
        }
    }

    /// Mint the signed token carrying exactly these claims.
    pub fn mint(&self, claims: &Claims) -> (r: String)
        requires
            claims.wf(),
        ensures
            r@ == spec_token(*claims, self.key_view()),
    {
        let payload = compose_payload(claims.kind, claims.role, &claims.email);
        encode_signed(&payload, claims.issued_at, claims.expiry_time, &self.key)
    }

    /// Whether a token whose window ends at `expiry_time` is still acceptable
    /// at `now` under `leeway` seconds of clock skew. The boundary is
    /// exclusive: with no leeway, `now == expiry_time` is already expired.
    pub open spec fn spec_window_ok(now: u64, leeway: u64, expiry_time: u64) -> bool {
        now < expiry_time + leeway
    }

    /// Decode and validate a signed token at time `now`: verify the signature
    /// first, then check the expiry window. A token minted from claims under
    /// this key comes back as exactly those claims while the window is open,
    /// and as `Expired` once it has closed.
    pub fn decode(&self, token: &String, now: u64) -> (r: Result<Claims, TokenError>)
        ensures
            forall|k: TokenKind, ro: Role, e: Seq<char>, i: u64, x: u64|
                token@ == #[trigger] token_of(spec_payload(k, ro, e), i, x, self.key_view()) ==> (
                if Self::spec_window_ok(now, self.leeway_of(), x) {
                    r matches Ok(d) && d.kind == k && d.email@ == e && d.role == ro && d.issued_at
                        == i && d.expiry_time == x
                } else {
                    r == Result::<Claims, TokenError>::Err(TokenError::Expired)
                }),
            r matches Ok(d) ==> Self::spec_window_ok(now, self.leeway_of(), d.expiry_time),
    {
        let (p, iat, exp) = match decode_signed(token, &self.key) {
            Ok(t) => t,
            Err(e) => {
                return Err(e);
            },
        };
        if !(now < exp || now - exp < self.leeway) {
            return Err(TokenError::Expired);
        }
        let (kind, role, email) = match parse_payload(&p) {
            Some(t) => t,
            None => {
                return Err(TokenError::Malformed);
            },
        };
        proof {
            assert forall|k: TokenKind, ro: Role, e: Seq<char>, i: u64, x: u64|
                token@ == #[trigger] token_of(spec_payload(k, ro, e), i, x, self.key_view()) implies (
            kind == k && email@ == e && role == ro && iat == i && exp == x) by {
                lemma_payload_injective(kind, role, email@, k, ro, e);
            }
        }
        Ok(Claims { kind, email, role, issued_at: iat, expiry_time: exp })
    }
}

} // verus!
