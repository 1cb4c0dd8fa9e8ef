//! Tokens: what they claim, and where a request carries one.

use crate::error::Error;
use crate::text::{split, split_whitespace};
use vstd::prelude::*;

verus! {

/// The roles that a token can claim.
#[derive(Debug, Clone, Copy, PartialEq, Eq, Structural)]
pub enum Role {
    UserToken,
}

/// What a token claims: a role, a user, and the second at which it expires.
#[derive(Debug, Clone, Copy, PartialEq, Eq)]
pub struct Claims {
    role: Role,
    user: i64,
    exp: u64,
}

/// What a [`Claims`] says.
pub struct ClaimsView {
    pub role: Role,
    pub user: i64,
    pub exp: u64,
}

impl View for Claims {
    type V = ClaimsView;

    closed spec fn view(&self) -> ClaimsView {
        ClaimsView { role: self.role, user: self.user, exp: self.exp }
    }
}

/// The seconds for which a token is valid: 365 days.
pub const TOKEN_LIFETIME: i64 = 31_536_000;

/// What issuing a token for a user at the second `now` yields: the claims
/// of a user token that expires 365 days later, or nothing where that
/// second cannot be written.
pub open spec fn issued(user: i64, now: i64) -> Option<ClaimsView> {
    if now + TOKEN_LIFETIME > i64::MAX || now + TOKEN_LIFETIME < 0 {
        None
    } else {
        Some(ClaimsView { role: Role::UserToken, user, exp: (now + TOKEN_LIFETIME) as u64 })
    }
}

impl Claims {
    /// The claims of a token for a user that is issued at the second `now`.
    pub fn issue(user: i64, now: i64) -> (claims: Option<Claims>)
        ensures
            match claims {
                Some(c) => issued(user, now) == Some(c@),
                None => issued(user, now) is None,
            },
    {
        match now.checked_add(TOKEN_LIFETIME) {
            Some(exp) => if exp < 0 {
                None
            } else {
                Some(Claims { role: Role::UserToken, user, exp: exp as u64 })
            },
            None => None,
        }
    }

    /// The role.
    pub fn role(&self) -> (role: Role)
        ensures
            role == self@.role,
    {
        self.role
    }

    /// The user.
    pub fn user(&self) -> (user: i64)
        ensures
            user == self@.user,
    {
        self.user
    }

    /// The second at which the token expires.
    pub fn exp(&self) -> (exp: u64)
        ensures
            exp == self@.exp,
    {
        self.exp
    }
}

/// A token that a request carried and that was found valid.
#[derive(Debug, Clone, Copy, PartialEq, Eq)]
pub struct JSONWebToken(pub Claims);

impl JSONWebToken {
    /// The user that the token was issued for.
    pub fn user_id(&self) -> (user: i64)
        ensures
            user == self.0@.user,
    {
        self.0.user()
    }
}

/// The token that a query carries: the value of its `jwt` parameter, if it
/// has one that could be read.
pub fn extract_jwt_query(jwt: Option<Result<String, Error>>) -> (token: Option<String>)
    ensures
        token == match jwt {
            Some(Ok(t)) => Some(t),
            _ => None::<String>,
        },
{
    if let Some(Ok(jwt)) = jwt {
        Some(jwt)
    } else {
        None
    }
}

/// The token that the `Authorization` headers carry: there must be exactly
/// one header, its first word must be `Bearer`, and its second word is the
/// token.
pub open spec fn bearer(values: Seq<Seq<char>>) -> Option<Seq<char>> {
    if values.len() != 1 {
        None
    } else {
        let parts = split(values[0], true);
        if parts.len() < 2 || parts[0] != "Bearer"@ {
            None
        } else {
            Some(parts[1])
        }
    }
}

/// The views of some texts.
pub open spec fn texts(values: Seq<String>) -> Seq<Seq<char>> {
    Seq::new(values.len(), |i: int| values[i]@)
}

/// The view of a text that may be absent.
pub open spec fn text(value: Option<String>) -> Option<Seq<char>> {
    match value {
        Some(t) => Some(t@),
        None => None,
    }
}

/// The token that the `Authorization` headers of a request carry.
pub fn extract_jwt_header(values: &Vec<String>) -> (token: Option<String>)
    ensures
        text(token) == bearer(texts(values@)),
{
    if values.len() != 1 {
        return None;
    }
    let mut parts = split_whitespace(values[0].as_str());
    if parts.len() < 2 {
        return None;
    }
    let bearer = "Bearer".to_owned();
    if parts[0] != bearer {
        return None;
    }
    Some(parts.remove(1))
}

/// The token that a request carries: the one of its `Authorization`
/// header, and where there is none the one of its query.
pub fn extract_jwt(values: &Vec<String>, jwt: Option<Result<String, Error>>) -> (token: Option<
    String,
>)
    ensures
        text(token) == match bearer(texts(values@)) {
            Some(t) => Some(t),
            None => match jwt {
                Some(Ok(t)) => Some(t@),
                _ => None::<Seq<char>>,
            },
        },
{
    if let Some(token) = extract_jwt_header(values) {
        return Some(token);
    }
    if let Some(token) = extract_jwt_query(jwt) {
        return Some(token);
    }
    None
}

} // verus!
