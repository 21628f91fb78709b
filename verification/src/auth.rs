//! Admin authentication: the login check and the bearer-token check that guards
//! the admin API.

use vstd::prelude::*;

use crate::api::ApiError;
use crate::crypto::bytes_ct_eq;
use crate::jwt::{create_jwt, jwt_split, jwt_subject, minted_parts, minted_token, verify_jwt, TOKEN_LIFETIME_SECS};
use crate::text::{chars_of, has_prefix, opt_chars};

verus! {

/// The scheme that prefixes a token in the `Authorization` header.
pub open spec fn bearer_prefix() -> Seq<char> {
    "Bearer "@
}

/// The token carried by an `Authorization` header value: what follows
/// `"Bearer "`, if the value starts with it.
pub open spec fn bearer_token(header: Seq<char>) -> Option<Seq<char>> {
    if bearer_prefix().is_prefix_of(header) {
        Some(header.skip(bearer_prefix().len() as int))
    } else {
        None
    }
}

/// Why an admin request could not be checked: the token secret is not configured.
#[derive(Debug, Clone, Copy, PartialEq, Eq, Structural)]
pub enum AuthError {
    MissingJwtSecret,
}

/// What checking a request's `Authorization` header gives.
pub open spec fn auth_outcome(
    authorization: Option<Seq<char>>,
    jwt_secret: Option<Seq<char>>,
    now: u64,
) -> Result<Option<Seq<char>>, AuthError> {
    match authorization {
        None => Ok(None),
        Some(h) => match bearer_token(h) {
            None => Ok(None),
            Some(t) => match jwt_secret {
                None => Err(AuthError::MissingJwtSecret),
                Some(s) => Ok(jwt_subject(t, s, now)),
            },
        },
    }
}

/// The optional text behind an optional string slice.
pub open spec fn opt_str(o: Option<&str>) -> Option<Seq<char>> {
    match o {
        Some(s) => Some(s@),
        None => None,
    }
}

/// The user an admin request is made for: `Ok(None)` without a bearer token or
/// with a token that is not accepted at `now`, `Ok(Some(user))` with an accepted
/// one; the secret is needed (and its absence an error) only when a bearer
/// token is present.
pub fn check_auth(authorization: Option<&str>, jwt_secret: Option<&str>, now: u64) -> (out: Result<
    Option<String>,
    AuthError,
>)
    ensures
        (match out {
            Ok(u) => Ok(opt_chars(u)),
            Err(e) => Err(e),
        }) == auth_outcome(opt_str(authorization), opt_str(jwt_secret), now),
        forall|user: Seq<char>, secret: Seq<char>, issued: u64|
            authorization matches Some(h) && bearer_token(h@) matches Some(t) && jwt_split(t)
                == Some(#[trigger] minted_parts(user, secret, issued)) && opt_str(jwt_secret)
                == Some(secret) && issued <= u64::MAX - TOKEN_LIFETIME_SECS ==> (out matches Ok(u)
                && opt_chars(u) == (if now <= issued + TOKEN_LIFETIME_SECS {
                Some(user)
            } else {
                None
            })),
{
    let header = match authorization {
        Some(h) => h,
        None => return Ok(None),
    };
    let cs = chars_of(header);
    let prefix = chars_of("Bearer ");
    proof {
        reveal_strlit("Bearer ");
    }
    if !has_prefix(&cs, &prefix) {
        return Ok(None);
    }
    let token = header.substring_char(7, cs.len());
    assert(token@ =~= header@.skip(7));
    let secret = match jwt_secret {
        Some(s) => s,
        None => return Err(AuthError::MissingJwtSecret),
    };
    Ok(verify_jwt(token, secret, now))
}

/// What a login attempt gives: a token for `username` issued at `now` when the
/// credentials match the configured ones, or the error answered otherwise. The
/// admin user name defaults to `admin`; a missing admin password or token secret
/// is a configuration error, reported before the credentials are compared.
pub open spec fn login_outcome(
    username: Seq<char>,
    password: Seq<char>,
    admin_username: Option<Seq<char>>,
    admin_password: Option<Seq<char>>,
    jwt_secret: Option<Seq<char>>,
    now: u64,
) -> Result<Seq<char>, ApiError> {
    let expected_user = match admin_username {
        Some(u) => u,
        None => "admin"@,
    };
    match admin_password {
        None => Err(ApiError::AdminNotConfigured),
        Some(pw) => match jwt_secret {
            None => Err(ApiError::ServerConfiguration),
            Some(secret) => if username != expected_user || password != pw {
                Err(ApiError::InvalidCredentials)
            } else {
                Ok(minted_token(username, secret, now))
            },
        },
    }
}

/// Matching credentials always give a token: when the admin password and the
/// token secret are configured, the right user name with the right password
/// (of any length) logs in and receives the token minted for that user at `now`.
pub proof fn lemma_matching_credentials_give_token(
    username: Seq<char>,
    password: Seq<char>,
    admin_username: Option<Seq<char>>,
    secret: Seq<char>,
    now: u64,
)
    requires
        username == (match admin_username {
            Some(u) => u,
            None => "admin"@,
        }),
    ensures
        login_outcome(username, password, admin_username, Some(password), Some(secret), now) == Ok::<
            Seq<char>,
            ApiError,
        >(minted_token(username, secret, now)),
{
}

/// A login gives a token only to the configured user with the configured
/// password, and a wrong user name or password is answered as invalid
/// credentials once the service is configured.
pub proof fn lemma_token_only_for_matching_credentials(
    username: Seq<char>,
    password: Seq<char>,
    admin_username: Option<Seq<char>>,
    admin_password: Option<Seq<char>>,
    jwt_secret: Option<Seq<char>>,
    now: u64,
)
    ensures
        login_outcome(username, password, admin_username, admin_password, jwt_secret, now) is Ok
            ==> admin_password == Some(password) && jwt_secret is Some && username == (
        match admin_username {
            Some(u) => u,
            None => "admin"@,
        }),
        admin_password is Some && jwt_secret is Some && (admin_password != Some(password)
            || username != (match admin_username {
            Some(u) => u,
            None => "admin"@,
        })) ==> login_outcome(username, password, admin_username, admin_password, jwt_secret, now)
            == Err::<Seq<char>, ApiError>(ApiError::InvalidCredentials),
{
}

/// Checks admin credentials and, when they match, issues a token.
pub fn admin_login(
    username: &str,
    password: &str,
    admin_username: Option<&str>,
    admin_password: Option<&str>,
    jwt_secret: Option<&str>,
    now: u64,
) -> (out: Result<String, ApiError>)
    requires
        now <= u64::MAX - TOKEN_LIFETIME_SECS,
    ensures
        (match out {
            Ok(t) => Ok(t@),
            Err(e) => Err(e),
        }) == login_outcome(
            username@,
            password@,
            opt_str(admin_username),
            opt_str(admin_password),
            opt_str(jwt_secret),
            now,
        ),
        out matches Ok(t) ==> jwt_split(t@) == Some(
            minted_parts(username@, jwt_secret->0@, now),
        ),
{
    let expected_user = match admin_username {
        Some(u) => u.to_owned(),
        None => "admin".to_owned(),
    };
    let expected_password = match admin_password {
        Some(p) => p,
        None => return Err(ApiError::AdminNotConfigured),
    };
    let secret = match jwt_secret {
        Some(s) => s,
        None => return Err(ApiError::ServerConfiguration),
    };
    if username.to_owned() != expected_user {
        return Err(ApiError::InvalidCredentials);
    }
    if !bytes_ct_eq(password.as_bytes(), expected_password.as_bytes()) {
        proof {
            vstd::utf8::encode_utf8_decode_utf8(password@);
            vstd::utf8::encode_utf8_decode_utf8(expected_password@);
        }
        return Err(ApiError::InvalidCredentials);
    }
    proof {
        vstd::utf8::encode_utf8_decode_utf8(password@);
        vstd::utf8::encode_utf8_decode_utf8(expected_password@);
    }
    Ok(create_jwt(username, secret, now))
}

} // verus!
