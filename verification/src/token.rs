//! Minting and decoding of the signed bearer token.
//!
//! The token is a compact signed structure carrying `{sub, exp}` claims,
//! signed with an HMAC secret the caller supplies explicitly — the secret
//! is configuration, constructed once at startup and passed in, never read
//! from ambient state here.
//!
//! What the signing library computes is named, not restated:
//! [`decoded_claims`] stands for the claims that signature-checked decoding
//! recovers from a token under a given secret. Minting always succeeds —
//! HMAC signing of two integer claims has no failure path — and promises
//! the round trip: decoding what was minted, under the same secret, yields
//! the claims that went in. Expiry is *not* checked by the decoding
//! wrapper; the middleware compares `exp` against the caller's clock in
//! verified code, so that rejection of stale tokens is proved rather than
//! assumed.

use std::collections::BTreeMap;
use std::collections::HashSet;
use vstd::prelude::*;
use crate::errors::Error;

verus! {

/// Seconds a freshly minted token stays valid: one hour.
pub const TOKEN_LIFETIME_SECS: i64 = 3600;

/// The claims `(sub, exp)` that signature-checked decoding recovers from
/// `token` under `secret`, or nothing where the token is malformed, is not
/// signed with `secret`, or does not carry integer `sub` and `exp` claims.
/// The result depends on the two arguments alone.
pub uninterp spec fn decoded_claims(token: Seq<char>, secret: Seq<char>) -> Option<(int, int)>;

/// Relies on jsonwebtoken::encode (HS256, default header): signing
/// `{sub, exp}` with `secret` yields a token that jsonwebtoken::decode,
/// checking the signature against the same secret, decodes back to exactly
/// those claims. Signing itself cannot fail: the key family matches the
/// default header, serializing a two-entry map of integers cannot error,
/// and the HS256 arm of the signer always returns a value.
#[verifier::external_body]
fn jwt_sign(sub: i64, exp: i64, secret: &str) -> (r: Option<String>)
    ensures
        r is Some,
        r matches Some(t) ==> decoded_claims(t@, secret@) == Some((sub as int, exp as int)),
{
    let mut claims: BTreeMap<&str, i64> = BTreeMap::new();
    claims.insert("sub", sub);
    claims.insert("exp", exp);
    let key = jsonwebtoken::EncodingKey::from_secret(secret.as_bytes());
    jsonwebtoken::encode(&jsonwebtoken::Header::default(), &claims, &key).ok()
}

/// Relies on jsonwebtoken::decode (HS256): verifies the signature against
/// `secret` and deserializes the claims; expiry validation is switched off,
/// so the result is a function of the token and the secret alone. Returns
/// the integer `sub` and `exp` claims, or nothing where verification or
/// deserialization fails.
#[verifier::external_body]
fn jwt_decode(token: &str, secret: &str) -> (r: Option<(i64, i64)>)
    ensures
        match r {
            Some(c) => decoded_claims(token@, secret@) == Some((c.0 as int, c.1 as int)),
            None => decoded_claims(token@, secret@) is None,
        },
{
    let mut validation = jsonwebtoken::Validation::default();
    validation.validate_exp = false;
    validation.required_spec_claims = HashSet::new();
    let key = jsonwebtoken::DecodingKey::from_secret(secret.as_bytes());
    match jsonwebtoken::decode::<BTreeMap<String, i64>>(token, &key, &validation) {
        Ok(data) => match (data.claims.get("sub"), data.claims.get("exp")) {
            (Some(s), Some(e)) => Some((*s, *e)),
            _ => None,
        },
        Err(_) => None,
    }
}

/// Relies on chrono::Utc::now for the current unix time; nothing is
/// assumed of the value.
#[verifier::external_body]
pub(crate) fn now_unix() -> i64 {
    chrono::Utc::now().timestamp()
}

/// Decode a bearer token under `secret`: the signature-checked claims
/// `(sub, exp)`, or nothing for a token not signed with `secret`.
pub fn decode_token(token: &str, secret: &str) -> (r: Option<(i64, i64)>)
    ensures
        match r {
            Some(c) => decoded_claims(token@, secret@) == Some((c.0 as int, c.1 as int)),
            None => decoded_claims(token@, secret@) is None,
        },
{
    jwt_decode(token, secret)
}

/// Mint a token for `user_id` that expires [`TOKEN_LIFETIME_SECS`] after
/// `now`: the call succeeds, and the token's claims decode back to
/// `(user_id, now + TOKEN_LIFETIME_SECS)` under the same secret.
pub fn create_token(user_id: i64, now: i64, secret: &str) -> (r: Result<String, Error>)
    requires
        now + TOKEN_LIFETIME_SECS <= i64::MAX,
    ensures
        r matches Ok(t) && decoded_claims(t@, secret@) == Some(
            (user_id as int, now + TOKEN_LIFETIME_SECS),
        ),
{
    let exp = now + TOKEN_LIFETIME_SECS;
    Ok(jwt_sign(user_id, exp, secret).unwrap())
}

/// Mint a token for `user_id` expiring one hour from the current clock
/// reading. Whatever the clock returned, a minted token's claims decode to
/// `user_id` and some expiry; only a clock reading so late that the expiry
/// would not be representable fails, as [`Error::AuthFail`].
pub fn issue_token(user_id: i64, secret: &str) -> (r: Result<String, Error>)
    ensures
        r matches Ok(t) ==> (exists|e: int|
            decoded_claims(t@, secret@) == Some((user_id as int, e))),
        r matches Err(e) ==> e == Error::AuthFail,
{
    let now = now_unix();
    if now <= i64::MAX - TOKEN_LIFETIME_SECS {
        let r = create_token(user_id, now, secret);
        proof {
            if r is Ok {
                assert(decoded_claims(r->Ok_0@, secret@) == Some(
                    (user_id as int, now + TOKEN_LIFETIME_SECS),
                ));
            }
        }
        r
    } else {
        Err(Error::AuthFail)
    }
}

} // verus!
