//! Session Token Issuer and Auth Gate.
//!
//! A session token is a signed, time-bounded bearer credential asserting a
//! (user id, device id) pair. Minting and signature checking go through
//! jsonwebtoken behind trusted wrappers; the expiry comparison itself is
//! verified code, so validity is exact with respect to the caller's clock.

use vstd::prelude::*;
use jsonwebtoken::encode;
use jsonwebtoken::decode;
use jsonwebtoken::Header;
use jsonwebtoken::EncodingKey;
use jsonwebtoken::DecodingKey;
use jsonwebtoken::Validation;

verus! {

/// Claims carried by a session token: subject user id, device id, and the
/// expiry as unix seconds.
pub struct Claims {
    pub sub: u128,
    pub device: u128,
    pub exp: u64,
}

/// What decoding a token under a secret yields: `Some((sub, device, exp))`
/// when the signature checks out and the claims parse, `None` otherwise.
/// Expiry is not part of this: it is checked by verified code. The outcome
/// is a function of the token and the secret alone.
pub uninterp spec fn jwt_claims_of(token: Seq<u8>, secret: Seq<u8>) -> Option<(u128, u128, u64)>;

/// The HS256 session token over the given claims and secret. jsonwebtoken's
/// `encode` is deterministic in them: the claims map serializes with sorted
/// keys and the default header is fixed.
pub uninterp spec fn jwt_token_of(sub: u128, device: u128, exp: u64, secret: Seq<u8>) -> Seq<u8>;

/// Relies on jsonwebtoken's `encode` with the default (HS256) header and a
/// symmetric secret. For an HMAC key and this flat string/number claims map
/// encoding has no failing path (HMAC-SHA256 accepts any key length and the
/// map serializes without error), and decoding the result with the same
/// secret yields the same claims.
#[verifier::external_body]
fn jwt_encode(sub: u128, device: u128, exp: u64, secret: &[u8]) -> (r: Vec<u8>)
    ensures
        r@ == jwt_token_of(sub, device, exp, secret@),
        jwt_claims_of(r@, secret@) == Some((sub, device, exp)),
{
    let mut claims = serde_json::Map::new();
    claims.insert("sub".to_string(), serde_json::Value::from(uuid::Uuid::from_u128(sub).to_string()));
    claims.insert("device".to_string(), serde_json::Value::from(uuid::Uuid::from_u128(device).to_string()));
    claims.insert("exp".to_string(), serde_json::Value::from(exp));
    let token = encode(&Header::default(), &claims, &EncodingKey::from_secret(secret));
    token.expect("HS256 encoding of flat claims has no failing path").into_bytes()
}

/// Relies on jsonwebtoken's `decode` (HS256, signature checked; the expiry
/// claim is handed back for the caller to judge).
#[verifier::external_body]
fn jwt_decode(token: &[u8], secret: &[u8]) -> (r: Option<(u128, u128, u64)>)
    ensures
        r == jwt_claims_of(token@, secret@),
{
    let mut validation = Validation::default();
    validation.validate_exp = false;
    validation.required_spec_claims = std::collections::HashSet::new();
    let data = decode::<serde_json::Value>(token, &DecodingKey::from_secret(secret), &validation).ok()?;
    let sub = uuid::Uuid::parse_str(data.claims.get("sub")?.as_str()?).ok()?;
    let device = uuid::Uuid::parse_str(data.claims.get("device")?.as_str()?).ok()?;
    Some((sub.as_u128(), device.as_u128(), data.claims.get("exp")?.as_u64()?))
}

/// What a validity check at time `now` yields for a token under a secret:
/// the asserted identity while the claims parse and `now` has not passed
/// the expiry, `None` otherwise.
pub open spec fn validate_spec(token: Seq<u8>, secret: Seq<u8>, now: u64) -> Option<(u128, u128)> {
    match jwt_claims_of(token, secret) {
        Some(c) => if now <= c.2 {
            Some((c.0, c.1))
        } else {
            None
        },
        None => None,
    }
}

/// Mints the token over `{user_id, device_id, exp = now + ttl_secs}`: the
/// result is exactly the HS256 token of those claims under the secret.
pub fn mint_token(user_id: u128, device_id: u128, now: u64, ttl_secs: u64, secret: &[u8]) -> (r: Vec<u8>)
    requires
        now + ttl_secs <= u64::MAX,
    ensures
        r@ == jwt_token_of(user_id, device_id, (now + ttl_secs) as u64, secret@),
        jwt_claims_of(r@, secret@) == Some((user_id, device_id, (now + ttl_secs) as u64)),
{
    jwt_encode(user_id, device_id, now + ttl_secs, secret)
}

/// Validates a token at time `now`: returns the claims exactly when the
/// signature checks out and the expiry has not passed.
pub fn validate_token(token: &[u8], secret: &[u8], now: u64) -> (r: Option<Claims>)
    ensures
        match r {
            Some(c) => {
                &&& jwt_claims_of(token@, secret@) == Some((c.sub, c.device, c.exp))
                &&& now <= c.exp
                &&& validate_spec(token@, secret@, now) == Some((c.sub, c.device))
            },
            None => validate_spec(token@, secret@, now) is None,
        },
{
    match jwt_decode(token, secret) {
        Some((sub, device, exp)) => {
            if now <= exp {
                Some(Claims { sub, device, exp })
            } else {
                None
            }
        },
        None => None,
    }
}

/// The identity derived from a validated bearer token.
pub struct AuthUser {
    pub user_id: u128,
    pub device_id: u128,
}

/// The `Bearer ` prefix of an Authorization header value.
pub open spec fn has_bearer_prefix(h: Seq<u8>) -> bool {
    h.len() >= 7 && h[0] == 66 && h[1] == 101 && h[2] == 97 && h[3] == 114 && h[4] == 101
        && h[5] == 114 && h[6] == 32
}

/// The Auth Gate: derives the authenticated identity from an Authorization
/// header, or nothing if the header is missing, malformed, or the token
/// fails validation at time `now`. A pure derivation with no side effects.
pub fn authenticate(header: Option<&[u8]>, secret: &[u8], now: u64) -> (r: Option<AuthUser>)
    ensures
        match r {
            Some(a) => {
                &&& header matches Some(h)
                &&& has_bearer_prefix(header.unwrap()@)
                &&& validate_spec(header.unwrap()@.skip(7), secret@, now) == Some(
                    (a.user_id, a.device_id),
                )
            },
            None => match header {
                Some(h) => !has_bearer_prefix(h@) || validate_spec(h@.skip(7), secret@, now)
                    is None,
                None => true,
            },
        },
{
    match header {
        Some(h) => {
            let ok = h.len() >= 7 && h[0] == 66 && h[1] == 101 && h[2] == 97 && h[3] == 114
                && h[4] == 101 && h[5] == 114 && h[6] == 32;
            if ok {
                let tok = vstd::slice::slice_subrange(h, 7, h.len());
                proof {
                    assert(tok@ =~= h@.skip(7));
                }
                match validate_token(tok, secret, now) {
                    Some(c) => Some(AuthUser { user_id: c.sub, device_id: c.device }),
                    None => None,
                }
            } else {
                None
            }
        },
        None => None,
    }
}

/// Law: a token whose claims expire at `issued + ttl` validates as the
/// minted identity for any check at or before that instant, and is rejected
/// by any check after it.
pub proof fn lemma_token_ttl(
    token: Seq<u8>,
    secret: Seq<u8>,
    user_id: u128,
    device_id: u128,
    issued: u64,
    ttl: u64,
    now: u64,
)
    requires
        issued + ttl <= u64::MAX,
        jwt_claims_of(token, secret) == Some((user_id, device_id, (issued + ttl) as u64)),
    ensures
        now <= issued + ttl ==> validate_spec(token, secret, now) == Some((user_id, device_id)),
        now > issued + ttl ==> validate_spec(token, secret, now) is None,
{
}

} // verus!
