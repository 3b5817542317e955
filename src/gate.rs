//! The authentication gate: which requests may pass, decided from the path,
//! the `Authorization` header and, in stateful mode, the token store.
use vstd::prelude::*;
use crate::state::auth::{AuthState, valid_at};
use crate::text::{has_prefix, same_text, strip_prefix};

verus! {

/// Why a request was turned away.
#[derive(Clone, Copy, Debug, PartialEq, Eq, Structural)]
pub enum AuthFailure {
    /// No `Authorization: Bearer <token>` header.
    MissingCredentials,
    /// A bearer token that the token store does not accept.
    InvalidToken,
}

#[derive(Clone, Copy, Debug, PartialEq, Eq, Structural)]
pub enum AuthDecision {
    Allow,
    Reject(AuthFailure),
}

impl AuthFailure {
    /// The `developerMessage` of the 401 body.
    pub fn developer_message(&self) -> (r: &'static str)
        ensures
            r@ == match *self {
                AuthFailure::MissingCredentials => "Missing or malformed Authorization header. Expected: Bearer <token>"@,
                AuthFailure::InvalidToken => "The access token provided is invalid or has expired."@,
            },
    {
        match self {
            AuthFailure::MissingCredentials => "Missing or malformed Authorization header. Expected: Bearer <token>",
            AuthFailure::InvalidToken => "The access token provided is invalid or has expired.",
        }
    }

    /// The `errorCode` of the 401 body.
    pub fn error_code(&self) -> (r: &'static str)
        ensures
            r@ == "AUTH-001"@,
    {
        "AUTH-001"
    }
}

/// The path of the token endpoint, which needs no token.
pub open spec fn token_endpoint() -> Seq<char> {
    "/authentication/v2/token"@
}

/// The token of an `Authorization` header value of the form `Bearer <token>`.
pub open spec fn bearer_token(header: Seq<char>) -> Option<Seq<char>> {
    if has_prefix(header, "Bearer "@) {
        Some(header.subrange("Bearer "@.len() as int, header.len() as int))
    } else {
        None
    }
}

/// The decision on one request.
pub open spec fn decision(path: Seq<char>, header: Option<Seq<char>>, tokens: Option<AuthState>, now: u64) -> AuthDecision {
    if path == token_endpoint() {
        AuthDecision::Allow
    } else {
        match header {
            Some(h) => match bearer_token(h) {
                Some(t) => match tokens {
                    Some(s) => if valid_at(s, t, now) {
                        AuthDecision::Allow
                    } else {
                        AuthDecision::Reject(AuthFailure::InvalidToken)
                    },
                    None => AuthDecision::Allow,
                },
                None => AuthDecision::Reject(AuthFailure::MissingCredentials),
            },
            None => AuthDecision::Reject(AuthFailure::MissingCredentials),
        }
    }
}

/// Decides whether a request to `path`, carrying the `Authorization` header
/// value `authorization`, may pass at time `now` (seconds since the epoch).
pub fn authorize(path: &str, authorization: Option<&str>, tokens: Option<&AuthState>, now: u64) -> (r: AuthDecision)
    ensures
        r == decision(
            path@,
            match authorization {
                Some(h) => Some(h@),
                None => None,
            },
            match tokens {
                Some(s) => Some(*s),
                None => None,
            },
            now,
        ),
{
    if same_text(path, "/authentication/v2/token") {
        return AuthDecision::Allow;
    }
    let header = match authorization {
        Some(h) => h,
        None => return AuthDecision::Reject(AuthFailure::MissingCredentials),
    };
    match strip_prefix(header, "Bearer ") {
        Some(token) => match tokens {
            Some(s) => if s.validate_token_at(token, now) {
                AuthDecision::Allow
            } else {
                AuthDecision::Reject(AuthFailure::InvalidToken)
            },
            None => AuthDecision::Allow,
        },
        None => AuthDecision::Reject(AuthFailure::MissingCredentials),
    }
}

} // verus!
