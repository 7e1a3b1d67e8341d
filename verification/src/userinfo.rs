//! Reading a provider's userinfo response: standard OpenID Connect claims
//! first, plain OAuth2 user JSON (such as GitHub's) second.

use vstd::prelude::*;
use crate::oidc::{map_oauth_user_json, UserClaims};
use crate::text::{int_to_decimal, opt_string_view};

verus! {

/// The claims as (sub, name, nickname, preferred_username, email).
pub type ClaimsView = (
    Option<Seq<char>>,
    Option<Seq<char>>,
    Option<Seq<char>>,
    Option<Seq<char>>,
    Option<Seq<char>>,
);

/// The fields of plain OAuth2 user JSON as (id, sub, login, name, email).
pub type OauthFieldsView = (
    Option<int>,
    Option<Seq<char>>,
    Option<Seq<char>>,
    Option<Seq<char>>,
    Option<Seq<char>>,
);

/// The claims of `c` as plain values.
pub open spec fn claims_view(c: UserClaims) -> ClaimsView {
    (
        opt_string_view(c.sub),
        opt_string_view(c.name),
        opt_string_view(c.nickname),
        opt_string_view(c.preferred_username),
        opt_string_view(c.email),
    )
}

/// What `serde_json` reads from `text` as `openid::Userinfo`, by its claims
/// (sub, name, nickname, preferred_username, email); `None` when the text
/// does not parse as that type.
pub uninterp spec fn standard_userinfo(text: Seq<char>) -> Option<ClaimsView>;

/// What `serde_json` reads from `text` as a JSON value, by the fields `id`
/// (when an `i64`), `sub`, `login`, `name` and `email` (each when a
/// string); `None` when the text is not JSON.
pub uninterp spec fn oauth_fields(text: Seq<char>) -> Option<OauthFieldsView>;

/// The view of parsed OAuth2 fields.
pub open spec fn oauth_view(
    r: Option<(Option<i64>, Option<String>, Option<String>, Option<String>, Option<String>)>,
) -> Option<OauthFieldsView> {
    match r {
        Some((id, sub, login, name, email)) => Some(
            (
                match id {
                    Some(n) => Some(n as int),
                    None => None,
                },
                opt_string_view(sub),
                opt_string_view(login),
                opt_string_view(name),
                opt_string_view(email),
            ),
        ),
        None => None,
    }
}

/// Calls `serde_json::from_str::<openid::Userinfo>` on `text` and copies
/// the claims the login reads.
#[verifier::external_body]
fn parse_standard_userinfo(text: &str) -> (r: Option<UserClaims>)
    ensures
        match standard_userinfo(text@) {
            Some(v) => r matches Some(c) && claims_view(c) == v,
            None => r is None,
        },
{
    serde_json::from_str::<openid::Userinfo>(text).ok().map(
        |u| UserClaims {
            sub: u.sub,
            name: u.name,
            nickname: u.nickname,
            preferred_username: u.preferred_username,
            email: u.email,
        },
    )
}

/// Calls `serde_json::from_str::<serde_json::Value>` on `text` and picks
/// `id` as an `i64` and `sub`, `login`, `name`, `email` as strings.
#[verifier::external_body]
fn parse_oauth_fields(text: &str) -> (r: Option<
    (Option<i64>, Option<String>, Option<String>, Option<String>, Option<String>),
>)
    ensures
        oauth_view(r) == oauth_fields(text@),
{
    serde_json::from_str::<serde_json::Value>(text).ok().map(
        |j| (
            j.get("id").and_then(|v| v.as_i64()),
            j.get("sub").and_then(|v| v.as_str()).map(|s| s.to_string()),
            j.get("login").and_then(|v| v.as_str()).map(|s| s.to_string()),
            j.get("name").and_then(|v| v.as_str()).map(|s| s.to_string()),
            j.get("email").and_then(|v| v.as_str()).map(|s| s.to_string()),
        ),
    )
}

/// The claims a userinfo response gives: its standard claims when it reads
/// as standard userinfo; else, when it is JSON, the OAuth2 fields (the
/// decimal `id` as subject, else `sub`; `login` as preferred user name;
/// `name`; `email`); else none.
pub open spec fn userinfo_from_text_spec(text: Seq<char>) -> Option<ClaimsView> {
    match standard_userinfo(text) {
        Some(v) => Some(v),
        None => match oauth_fields(text) {
            Some((id, sub, login, name, email)) => Some(
                (
                    match id {
                        Some(n) => Some(int_to_decimal(n)),
                        None => sub,
                    },
                    name,
                    None,
                    login,
                    email,
                ),
            ),
            None => None,
        },
    }
}

/// The claims of a userinfo response body.
pub fn userinfo_from_text(text: &str) -> (r: Option<UserClaims>)
    ensures
        match userinfo_from_text_spec(text@) {
            Some(v) => r matches Some(c) && claims_view(c) == v,
            None => r is None,
        },
{
    match parse_standard_userinfo(text) {
        Some(c) => Some(c),
        None => match parse_oauth_fields(text) {
            Some((id, sub, login, name, email)) => Some(
                map_oauth_user_json(id, sub, login, name, email),
            ),
            None => None,
        },
    }
}

} // verus!
