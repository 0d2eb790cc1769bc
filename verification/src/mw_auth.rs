//! The context middleware and the principal extractor.
//!
//! Per protected request the middleware runs a two-outcome state machine:
//! the request either becomes *authenticated* — carrying a principal — or
//! is *rejected* with [`Error::AuthFail`] before any handler runs. The
//! steps, each of which fails closed:
//!
//! 1. the `Authorization` header must be present and carry a `"Bearer "`
//!    prefix;
//! 2. the token's signature must check out against the configured secret;
//! 3. the token's `exp` must lie strictly after the caller's clock
//!    reading — an expired token is rejected however valid its signature;
//! 4. the subject must still exist in the credential table — the
//!    principal is reloaded on every request, never cached, so a deleted
//!    account loses access immediately.
//!
//! [`spec_authenticate`] is that decision in full; [`authenticate`] is
//! held to it.

use vstd::prelude::*;
use vstd::string::StrSliceExecFns;
use crate::errors::Error;
use crate::lookup::{find_idx, lemma_find_idx_ext};
use crate::store::{by_user_id, user_idx_by_id, Store};
use crate::token::decoded_claims;
use crate::user::User;

verus! {

/// The authenticated context the middleware attaches to a request: the
/// credential row the token's subject was reloaded from. Lives for one
/// request.
#[derive(Debug, Clone)]
pub struct Ctx {
    pub user: User,
}

/// Matches the user row whose id equals the token subject `sub`.
pub open spec fn by_subject(sub: int) -> spec_fn(User) -> bool {
    |u: User| u.id as int == sub
}

/// The index of the user row with id `sub`, or -1.
pub open spec fn user_idx_by_subject(users: Seq<User>, sub: int) -> int {
    find_idx(users, by_subject(sub))
}

/// The token part of an `Authorization` header value: what follows the
/// `"Bearer "` prefix, or nothing where the prefix is absent.
pub open spec fn spec_bearer_token(header: Seq<char>) -> Option<Seq<char>> {
    if header.len() >= 7 && header.subrange(0, 7) == "Bearer "@ {
        Option::Some(header.subrange(7, header.len() as int))
    } else {
        Option::None
    }
}

/// The view of an optional header value.
pub open spec fn opt_str_view(header: Option<&str>) -> Option<Seq<char>> {
    match header {
        Option::Some(h) => Option::Some(h@),
        Option::None => Option::None,
    }
}

/// The middleware's decision: the credential row the request
/// authenticates as, or [`Error::AuthFail`]. Every failure — missing or
/// malformed header, bad signature, stale `exp`, vanished subject — is
/// the same error: a rejected request learns nothing about which step
/// failed.
pub open spec fn spec_authenticate(
    users: Seq<User>,
    header: Option<Seq<char>>,
    secret: Seq<char>,
    now: int,
) -> Result<User, Error> {
    match header {
        Option::None => Err(Error::AuthFail),
        Option::Some(h) => match spec_bearer_token(h) {
            Option::None => Err(Error::AuthFail),
            Option::Some(tok) => match decoded_claims(tok, secret) {
                Option::None => Err(Error::AuthFail),
                Option::Some(claims) => if claims.1 <= now {
                    Err(Error::AuthFail)
                } else {
                    let i = user_idx_by_subject(users, claims.0);
                    if i < 0 {
                        Err(Error::AuthFail)
                    } else {
                        Ok(users[i])
                    }
                },
            },
        },
    }
}

/// Split a `"Bearer "`-prefixed header value into its token part.
pub fn parse_bearer(header: &str) -> (r: Option<&str>)
    ensures
        match r {
            Option::Some(t) => spec_bearer_token(header@) == Option::Some(t@),
            Option::None => spec_bearer_token(header@) is None,
        },
{
    proof {
        reveal_strlit("Bearer ");
    }
    let n = header.unicode_len();
    if n < 7 {
        return Option::None;
    }
    let prefix = "Bearer ";
    let mut i: usize = 0;
    while i < 7
        invariant
            n == header@.len(),
            n >= 7,
            i <= 7,
            prefix@ == "Bearer "@,
            prefix@.len() == 7,
            forall|j: int| 0 <= j < i ==> header@[j] == "Bearer "@[j],
        decreases 7 - i,
    {
        if header.get_char(i) != prefix.get_char(i) {
            proof {
                assert(header@.subrange(0, 7)[i as int] == header@[i as int]);
            }
            return Option::None;
        }
        i += 1;
    }
    proof {
        assert(header@.subrange(0, 7) =~= "Bearer "@);
    }
    Option::Some(header.substring_char(7, n))
}

/// Validate the request's `Authorization` header against the secret and
/// the clock reading `now`, and reload the principal from the store:
/// exactly the decision [`spec_authenticate`] describes.
pub fn authenticate(store: &Store, header: Option<&str>, secret: &str, now: i64) -> (r: Result<
    Ctx,
    Error,
>)
    ensures
        match r {
            Ok(c) => spec_authenticate(store.users@, opt_str_view(header), secret@, now as int)
                matches Ok(u) && c.user.id == u.id && c.user.username@ == u.username@
                && c.user.spec_hash_or_empty() == u.spec_hash_or_empty(),
            Err(e) => spec_authenticate(store.users@, opt_str_view(header), secret@, now as int)
                == Err::<User, Error>(e),
        },
{
    let h = match header {
        Option::Some(h) => h,
        Option::None => {
            return Err(Error::AuthFail);
        },
    };
    let tok = match parse_bearer(h) {
        Option::Some(t) => t,
        Option::None => {
            return Err(Error::AuthFail);
        },
    };
    let claims = match crate::token::decode_token(tok, secret) {
        Option::Some(c) => c,
        Option::None => {
            return Err(Error::AuthFail);
        },
    };
    let (sub, exp) = claims;
    if exp <= now {
        return Err(Error::AuthFail);
    }
    proof {
        lemma_find_idx_ext(store.users@, by_user_id(sub), by_subject(sub as int));
    }
    match store.find_user_by_id(sub) {
        Option::None => Err(Error::AuthFail),
        Option::Some(i) => {
            let u = &store.users[i];
            let user = User {
                id: u.id,
                username: u.username.clone(),
                password: match &u.password {
                    Option::Some(p) => Option::Some(p.clone()),
                    Option::None => Option::None,
                },
            };
            Ok(Ctx { user })
        },
    }
}

/// The fail-closed accessor handlers use to obtain the principal the
/// middleware attached: the context where one is present,
/// [`Error::AuthFail`] where the middleware never ran.
pub fn extract_ctx(ctx: Option<Ctx>) -> (r: Result<Ctx, Error>)
    ensures
        match ctx {
            Option::Some(c) => r == Ok::<Ctx, Error>(c),
            Option::None => r == Err::<Ctx, Error>(Error::AuthFail),
        },
{
    match ctx {
        Option::Some(c) => Ok(c),
        Option::None => Err(Error::AuthFail),
    }
}

/// The identity endpoint: the authenticated principal's own id and
/// username, straight from the attached context.
pub fn me(ctx: &Ctx) -> (r: (i64, String))
    ensures
        r.0 == ctx.user.id,
        r.1@ == ctx.user.username@,
{
    (ctx.user.id, ctx.user.username.clone())
}

} // verus!
