//! The credential issuer: account registration and login.
//!
//! Registration hashes the password with a memory-hard, per-call-salted
//! algorithm and inserts the credential; a taken username surfaces as a
//! generic database error. Login looks the credential up by username,
//! verifies the password against the stored hash, and mints a signed
//! token. An unknown username and a wrong password fail with the *same*
//! [`Error::LoginFail`], so a login response carries no signal that would
//! let a client probe which usernames exist; [`spec_login`] states that
//! collapse exactly, and [`login`]'s contract holds the implementation to
//! it. A stored hash that cannot even be parsed is no statement about the
//! client's credentials but a hashing failure on the server's side, which
//! the error taxonomy files under [`Error::Internal`].
//!
//! What the hashing library computes is named, not restated:
//! [`password_matches`] stands for the verifier's verdict on a
//! `(password, hash)` pair, and [`is_password_hash`] for whether a string
//! parses as a well-formed hash. Hashing promises that the fresh hash is
//! well-formed and verifies against the password that produced it — the
//! salt is random, so nothing more is claimed of the hash string itself.

use argon2::password_hash::SaltString;
use argon2::{Argon2, PasswordHash, PasswordHasher, PasswordVerifier};
use rand::rngs::OsRng;
use vstd::prelude::*;
use vstd::string::StringSliceAdditionalSpecFns;
use crate::errors::Error;
use crate::store::{user_idx_by_name, lemma_username_lookup, Store};
use crate::token::{create_token, decoded_claims, TOKEN_LIFETIME_SECS};
use crate::user::{User, UserForList};

verus! {

/// Whether `hash` is a well-formed password-hash string: what
/// argon2::PasswordHash::new accepts. A function of the string alone.
pub uninterp spec fn is_password_hash(hash: Seq<char>) -> bool;

/// The verifier's verdict on `password` against the well-formed `hash`:
/// what Argon2::verify_password returns. The hash string carries its own
/// salt and parameters, so the verdict is a function of the two strings
/// alone.
pub uninterp spec fn password_matches(password: Seq<char>, hash: Seq<char>) -> bool;

/// Relies on Argon2::hash_password with a salt drawn fresh from the
/// operating system's randomness: the resulting hash string is well-formed
/// and verifies against the password that produced it (the verifier
/// recomputes the hash from the salt and parameters the string carries).
/// The salt is random, so no two calls need agree on the string. With the
/// generated salt and the default parameters, the one reachable failure is
/// a password whose byte encoding exceeds the algorithm's input cap.
#[verifier::external_body]
fn argon2_hash(password: &str) -> (r: Option<String>)
    ensures
        password.spec_bytes().len() <= 0xffff_ffff ==> r is Some,
        r matches Some(h) ==> is_password_hash(h@) && password_matches(password@, h@),
{
    let salt = SaltString::generate(&mut OsRng);
    match Argon2::default().hash_password(password.as_bytes(), &salt) {
        Ok(h) => Some(h.to_string()),
        Err(_) => None,
    }
}

/// Relies on argon2::PasswordHash::new and Argon2::verify_password: the
/// parse accepts exactly the well-formed hash strings, and the verdict on
/// a parsed hash is deterministic in the password and the hash string.
#[verifier::external_body]
fn argon2_verify(password: &str, hash: &str) -> (r: Option<bool>)
    ensures
        r is Some <==> is_password_hash(hash@),
        r matches Some(b) ==> b == password_matches(password@, hash@),
{
    match PasswordHash::new(hash) {
        Ok(parsed) => Some(
            Argon2::default().verify_password(password.as_bytes(), &parsed).is_ok(),
        ),
        Err(_) => None,
    }
}

/// Whether the pair is the demo route's one built-in credential.
pub open spec fn spec_api_login(username: Seq<char>, password: Seq<char>) -> bool {
    username == "admin"@ && password == "password"@
}

/// The standalone demo login route's check, kept apart from the credential
/// store: exactly the one built-in pair succeeds, anything else is the
/// same [`Error::LoginFail`] a real bad login gets.
pub fn api_login(username: &str, password: &str) -> (r: Result<(), Error>)
    ensures
        r == (if spec_api_login(username@, password@) {
            Ok::<(), Error>(())
        } else {
            Err::<(), Error>(Error::LoginFail)
        }),
{
    if crate::text::str_eq(username, "admin") && crate::text::str_eq(password, "password") {
        Ok(())
    } else {
        Err(Error::LoginFail)
    }
}

/// The login decision on the credential table: who `username`/`password`
/// authenticate as, or which error the attempt fails with.
///
/// An unknown username and a wrong password both yield
/// [`Error::LoginFail`]. A stored hash that does not parse — a corrupt or
/// absent password column — is a server-side hashing failure, not a
/// statement about the credentials, and yields [`Error::Internal`].
pub open spec fn spec_login(users: Seq<User>, username: Seq<char>, password: Seq<char>) -> Result<
    i64,
    Error,
> {
    let i = user_idx_by_name(users, username);
    if i < 0 {
        Err(Error::LoginFail)
    } else {
        let h = users[i].spec_hash_or_empty();
        if !is_password_hash(h) {
            Err(Error::Internal)
        } else if !password_matches(password, h) {
            Err(Error::LoginFail)
        } else {
            Ok(users[i].id)
        }
    }
}

/// Authenticate `username`/`password` against the store and mint a token
/// expiring one hour after `now`.
///
/// Exactly the decision of [`spec_login`]: every failure it decides is
/// returned as decided, and on verified credentials a token *is* returned
/// whose claims decode to the credential's user id and the expiry.
pub fn login(store: &Store, username: &str, password: &str, now: i64, secret: &str) -> (r: Result<
    String,
    Error,
>)
    requires
        now + TOKEN_LIFETIME_SECS <= i64::MAX,
    ensures
        spec_login(store.users@, username@, password@) matches Err(e) ==> r == Err::<
            String,
            Error,
        >(e),
        spec_login(store.users@, username@, password@) matches Ok(uid) ==> r matches Ok(t)
            && decoded_claims(t@, secret@) == Some((uid as int, now + TOKEN_LIFETIME_SECS)),
{
    let idx = match store.find_user_by_name(username) {
        Option::Some(i) => i,
        Option::None => {
            return Err(Error::LoginFail);
        },
    };
    let user = &store.users[idx];
    let hash: &str = match &user.password {
        Option::Some(h) => h.as_str(),
        Option::None => "",
    };
    proof {
        if user.password is None {
            reveal_strlit("");
            assert(""@ =~= Seq::<char>::empty());
        }
        assert(hash@ == user.spec_hash_or_empty());
    }
    match argon2_verify(password, hash) {
        Option::None => Err(Error::Internal),
        Option::Some(false) => Err(Error::LoginFail),
        Option::Some(true) => create_token(user.id, now, secret),
    }
}

/// Register a new account: hash the password, insert the credential under
/// a fresh id, and return the new row's id and username.
///
/// A taken username is rejected as [`Error::DbError`], and the one
/// password the hashing algorithm refuses — an input over its byte cap —
/// as [`Error::Internal`], both leaving the store untouched. Any other
/// registration succeeds: the one new row carries the fresh id, the given
/// username, and a well-formed hash that verifies against the given
/// password — which is what makes a later login with the same pair
/// succeed.
pub fn register(store: &mut Store, username: String, password: &str) -> (r: Result<
    UserForList,
    Error,
>)
    requires
        old(store).wf(),
        old(store).next_user_id < i64::MAX,
    ensures
        final(store).wf(),
        user_idx_by_name(old(store).users@, username@) >= 0 ==> r == Err::<UserForList, Error>(
            Error::DbError,
        ) && crate::store::store_unchanged(*final(store), *old(store)),
        user_idx_by_name(old(store).users@, username@) < 0 ==> match r {
            Ok(u) => {
                &&& u.id == old(store).next_user_id
                &&& u.username@ == username@
                &&& final(store).users@.len() == old(store).users@.len() + 1
                &&& final(store).users@ == old(store).users@.push(
                    final(store).users@.last(),
                )
                &&& final(store).users@.last().id == old(store).next_user_id
                &&& final(store).users@.last().username@ == username@
                &&& final(store).users@.last().password matches Some(h) && is_password_hash(h@)
                    && password_matches(password@, h@)
                &&& final(store).next_user_id == old(store).next_user_id + 1
                &&& final(store).projects@ == old(store).projects@
                &&& final(store).tasks@ == old(store).tasks@
                &&& final(store).next_project_id == old(store).next_project_id
                &&& final(store).next_task_id == old(store).next_task_id
            },
            Err(e) => e == Error::Internal && password.spec_bytes().len() > 0xffff_ffff
                && crate::store::store_unchanged(*final(store), *old(store)),
        },
{
    match store.find_user_by_name(username.as_str()) {
        Option::Some(_) => Err(Error::DbError),
        Option::None => {
            proof {
                lemma_username_lookup(store.users@, username@);
            }
            match argon2_hash(password) {
                Option::None => Err(Error::Internal),
                Option::Some(h) => {
                    let id = store.next_user_id;
                    store.users.push(
                        User { id, username: username.clone(), password: Option::Some(h) },
                    );
                    store.next_user_id = id + 1;
                    proof {
                        let us0 = old(store).users@;
                        let us1 = store.users@;
                        assert forall|i: int| 0 <= i < us1.len() implies 1 <= (
                        #[trigger] us1[i]).id < store.next_user_id by {
                            if i < us0.len() {
                                assert(us1[i] == us0[i]);
                            }
                        }
                        assert forall|i: int, j: int| 0 <= i < j < us1.len() implies (
                        #[trigger] us1[i]).id != (#[trigger] us1[j]).id by {
                            if j < us0.len() {
                                assert(us1[i] == us0[i] && us1[j] == us0[j]);
                            } else {
                                assert(us1[i] == us0[i] && us1[j].id == id);
                            }
                        }
                        assert forall|i: int, j: int| 0 <= i < j < us1.len() implies (
                        #[trigger] us1[i]).username@ != (#[trigger] us1[j]).username@ by {
                            if j < us0.len() {
                                assert(us1[i] == us0[i] && us1[j] == us0[j]);
                            } else {
                                assert(us1[i] == us0[i] && us1[j].username@ == username@);
                            }
                        }
                    }
                    Ok(UserForList { id, username })
                },
            }
        },
    }
}

} // verus!
