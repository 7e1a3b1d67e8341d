//! The decisions of OpenID Connect login: provider setup, claim mapping,
//! and user names.

use rand::Rng;
use vstd::prelude::*;
use crate::auth::hex_encode;
use crate::config::{OidcFieldMapping, OidcProviderConfig};
use crate::store_path::{byte_len, take_bytes, take_bytes_exec};
use crate::text::{
    before_first, chars_of, clone_opt_string, trim_end_char, trim_end_matches_char, opt_str_view, opt_string_view, owned, push_char, push_str, push_u64_decimal, nat_to_decimal, str_eq,
    string_from_chars, text_before,
};

verus! {

/// The error text of `url::Url::parse` on `s`, or `None` when it parses.
pub uninterp spec fn url_parse_failure(s: Seq<char>) -> Option<Seq<char>>;

/// Calls `url::Url::parse` and keeps only whether it failed, with the
/// error's display text. Parsing depends on the input alone, so the result
/// is named as a function of it.
#[verifier::external_body]
fn url_parse_error(s: &str) -> (r: Option<String>)
    ensures
        match url_parse_failure(s@) {
            Some(m) => r matches Some(e) && e@ == m,
            None => r is None,
        },
{
    match url::Url::parse(s) {
        Ok(_) => None,
        Err(e) => Some(e.to_string()),
    }
}

/// `char::is_alphanumeric`: alphabetic or numeric in Unicode.
pub uninterp spec fn unicode_alphanumeric(c: char) -> bool;

/// Calls `char::is_alphanumeric`. Its result is named; for ASCII the
/// documentation's definition (alphabetic or numeric) is the letters and
/// digits, which the contract states.
#[verifier::external_body]
fn is_alphanumeric(c: char) -> (b: bool)
    ensures
        b == unicode_alphanumeric(c),
        (c as u32) < 128 ==> (b <==> (('a' <= c && c <= 'z') || ('A' <= c && c <= 'Z') || ('0' <= c
            && c <= '9'))),
{
    c.is_alphanumeric()
}

/// Calls `rand::thread_rng().gen::<[u8; 32]>()`: 32 random bytes. Nothing
/// but the length is stated.
#[verifier::external_body]
fn random_bytes_32() -> (v: Vec<u8>)
    ensures
        v@.len() == 32,
{
    let bytes: [u8; 32] = rand::thread_rng().gen();
    bytes.to_vec()
}

/// Calls `rand::thread_rng().gen_range(0..n)`: a random index below `n`.
/// The crate panics on an empty range, which `requires` rules out.
#[verifier::external_body]
fn random_below(n: usize) -> (i: usize)
    requires
        n > 0,
    ensures
        i < n,
{
    rand::thread_rng().gen_range(0..n)
}

/// A random session token: 32 random bytes as 64 lower-case hex digits.
pub fn generate_random_token() -> (t: String)
    ensures
        exists|b: Seq<u8>| b.len() == 32 && t@ == crate::auth::hex_spec(b),
        t@.len() == 64,
{
    let bytes = random_bytes_32();
    hex_encode(bytes.as_slice())
}

/// Days a login session lasts.
pub const SESSION_DAYS: i64 = 7;
/// Minutes a started login may take to come back.
pub const LOGIN_STATE_MINUTES: i64 = 10;
/// Length of the state and nonce of a login.
pub const STATE_LEN: usize = 32;

/// Letters and digits from which state and nonce values are drawn.
pub const STATE_CHARSET: [char; 62] = [
    'A', 'B', 'C', 'D', 'E', 'F', 'G', 'H', 'I', 'J', 'K', 'L', 'M', 'N', 'O', 'P', 'Q', 'R', 'S',
    'T', 'U', 'V', 'W', 'X', 'Y', 'Z', 'a', 'b', 'c', 'd', 'e', 'f', 'g', 'h', 'i', 'j', 'k', 'l',
    'm', 'n', 'o', 'p', 'q', 'r', 's', 't', 'u', 'v', 'w', 'x', 'y', 'z', '0', '1', '2', '3', '4',
    '5', '6', '7', '8', '9',
];

/// A random string of `len` ASCII letters and digits, for state and nonce.
pub fn generate_random_string(len: usize) -> (s: String)
    ensures
        s@.len() == len,
        forall|i: int| 0 <= i < len ==> STATE_CHARSET@.contains(#[trigger] s@[i]),
{
    let mut s = String::new();
    let mut i: usize = 0;
    while i < len
        invariant
            i <= len,
            s@.len() == i,
            forall|k: int| 0 <= k < i ==> STATE_CHARSET@.contains(#[trigger] s@[k]),
        decreases len - i,
    {
        let idx = random_below(62);
        let c = STATE_CHARSET[idx];
        proof {
            assert(STATE_CHARSET@[idx as int] == c);
        }
        let ghost before = s@;
        push_char(&mut s, c);
        proof {
            assert forall|k: int| 0 <= k < i + 1 implies STATE_CHARSET@.contains(#[trigger] s@[k]) by {
                if k < i {
                    assert(s@[k] == before[k]);
                }
            }
        }
        i += 1;
    }
    s
}

/// The callback URL registered with a provider:
/// `{external URL without trailing /}/auth/oidc/{id}/callback`, with
/// `http://localhost:17788` when no external URL is configured.
pub open spec fn redirect_url_spec(external_url: Option<Seq<char>>, provider_id: Seq<char>) -> Seq<
    char,
> {
    let base = match external_url {
        Some(u) => trim_end_char(u, '/'),
        None => "http://localhost:17788"@,
    };
    base + "/auth/oidc/"@ + provider_id + "/callback"@
}

/// The callback URL for a provider.
pub fn redirect_url(external_url: Option<&str>, provider_id: &str) -> (s: String)
    ensures
        s@ == redirect_url_spec(
            match external_url {
                Some(u) => Some(u@),
                None => None,
            },
            provider_id@,
        ),
{
    let mut s = match external_url {
        Some(u) => trim_end_matches_char(u, '/'),
        None => owned("http://localhost:17788"),
    };
    push_str(&mut s, "/auth/oidc/");
    push_str(&mut s, provider_id);
    push_str(&mut s, "/callback");
    s
}

/// The endpoints of a provider configured without discovery.
#[derive(Debug)]
pub struct ManualEndpoints {
    pub authorization_endpoint: String,
    pub token_endpoint: String,
    pub userinfo_endpoint: Option<String>,
    pub jwks_uri: Option<String>,
}

/// How to set up a provider's client.
#[derive(Debug)]
pub struct ProviderPlan {
    pub redirect_url: String,
    /// `None` when the provider's metadata is discovered from the issuer.
    pub manual: Option<ManualEndpoints>,
}

/// `"{what} for {id}: {error}"`
pub open spec fn invalid_msg(what: Seq<char>, id: Seq<char>, err: Seq<char>) -> Seq<char> {
    what + " for "@ + id + ": "@ + err
}

/// The error of a provider's configuration, if any, in the order it is
/// checked: the issuer URL; then, without discovery, the presence of the
/// authorization and token endpoints, and whether they, the JWKS URI and
/// the userinfo endpoint parse as URLs.
pub open spec fn provider_error_spec(c: OidcProviderConfig) -> Option<Seq<char>> {
    let id = c.id@;
    if url_parse_failure(c.issuer_url@) is Some {
        Some(invalid_msg("Invalid issuer URL"@, id, url_parse_failure(c.issuer_url@)->0))
    } else if c.discover {
        None
    } else if c.authorization_endpoint is None {
        Some("authorization_endpoint required when discover=false for "@ + id)
    } else if c.token_endpoint is None {
        Some("token_endpoint required when discover=false for "@ + id)
    } else if url_parse_failure(c.authorization_endpoint->0@) is Some {
        Some(
            invalid_msg(
                "Invalid authorization_endpoint"@,
                id,
                url_parse_failure(c.authorization_endpoint->0@)->0,
            ),
        )
    } else if url_parse_failure(c.token_endpoint->0@) is Some {
        Some(invalid_msg("Invalid token_endpoint"@, id, url_parse_failure(c.token_endpoint->0@)->0))
    } else if c.jwks_uri is Some && url_parse_failure(c.jwks_uri->0@) is Some {
        Some(invalid_msg("Invalid jwks_uri"@, id, url_parse_failure(c.jwks_uri->0@)->0))
    } else if c.userinfo_endpoint is Some && url_parse_failure(c.userinfo_endpoint->0@) is Some {
        Some(
            invalid_msg(
                "Invalid userinfo_endpoint"@,
                id,
                url_parse_failure(c.userinfo_endpoint->0@)->0,
            ),
        )
    } else {
        None
    }
}

fn invalid(what: &str, id: &str, err: &str) -> (s: String)
    ensures
        s@ == invalid_msg(what@, id@, err@),
{
    let mut s = owned(what);
    push_str(&mut s, " for ");
    push_str(&mut s, id);
    push_str(&mut s, ": ");
    push_str(&mut s, err);
    s
}

/// Checks a provider's configuration and plans its client: the callback URL,
/// and the endpoints when discovery is off.
pub fn plan_provider(c: &OidcProviderConfig, external_url: Option<&str>) -> (r: Result<
    ProviderPlan,
    String,
>)
    ensures
        match provider_error_spec(*c) {
            Some(m) => r matches Err(e) && e@ == m,
            None => r matches Ok(p) && p.redirect_url@ == redirect_url_spec(
                match external_url {
                    Some(u) => Some(u@),
                    None => None,
                },
                c.id@,
            ) && (c.discover <==> p.manual is None) && (!c.discover ==> (p.manual matches Some(m)
                && m.authorization_endpoint@ == c.authorization_endpoint->0@ && m.token_endpoint@
                == c.token_endpoint->0@ && m.userinfo_endpoint == c.userinfo_endpoint && m.jwks_uri
                == c.jwks_uri)),
        },
{
    let id = c.id.as_str();
    let url = redirect_url(external_url, id);
    if let Some(e) = url_parse_error(c.issuer_url.as_str()) {
        return Err(invalid("Invalid issuer URL", id, e.as_str()));
    }
    if c.discover {
        return Ok(ProviderPlan { redirect_url: url, manual: None });
    }
    let auth = match &c.authorization_endpoint {
        Some(a) => a,
        None => {
            let mut m = owned("authorization_endpoint required when discover=false for ");
            push_str(&mut m, id);
            return Err(m);
        },
    };
    let token = match &c.token_endpoint {
        Some(t) => t,
        None => {
            let mut m = owned("token_endpoint required when discover=false for ");
            push_str(&mut m, id);
            return Err(m);
        },
    };
    if let Some(e) = url_parse_error(auth.as_str()) {
        return Err(invalid("Invalid authorization_endpoint", id, e.as_str()));
    }
    if let Some(e) = url_parse_error(token.as_str()) {
        return Err(invalid("Invalid token_endpoint", id, e.as_str()));
    }
    if let Some(j) = &c.jwks_uri {
        if let Some(e) = url_parse_error(j.as_str()) {
            return Err(invalid("Invalid jwks_uri", id, e.as_str()));
        }
    }
    if let Some(u) = &c.userinfo_endpoint {
        if let Some(e) = url_parse_error(u.as_str()) {
            return Err(invalid("Invalid userinfo_endpoint", id, e.as_str()));
        }
    }
    Ok(
        ProviderPlan {
            redirect_url: url,
            manual: Some(
                ManualEndpoints {
                    authorization_endpoint: auth.clone(),
                    token_endpoint: token.clone(),
                    userinfo_endpoint: c.userinfo_endpoint.clone(),
                    jwks_uri: c.jwks_uri.clone(),
                },
            ),
        },
    )
}

} // verus!

verus! {

/// The user claims a provider returned (the standard claims the login reads).
#[derive(Debug, Clone)]
pub struct UserClaims {
    pub sub: Option<String>,
    pub name: Option<String>,
    pub nickname: Option<String>,
    pub preferred_username: Option<String>,
    pub email: Option<String>,
}

/// The local part of an email address: the text before the first `@`.
pub open spec fn email_local_part(email: Seq<char>) -> Seq<char> {
    before_first(email, '@')
}

/// The email the login takes: the `email` claim when the mapping names it;
/// no email for any other mapping or without claims.
pub open spec fn extract_email_spec(u: Option<UserClaims>, email_claim: Seq<char>) -> Option<
    Seq<char>,
> {
    match u {
        None => None,
        Some(c) => if email_claim == "email"@ {
            opt_string_view(c.email)
        } else {
            None
        },
    }
}

/// The claim a name mapping names, if it is a supported one.
pub open spec fn configured_name_claim(c: UserClaims, claim: Seq<char>) -> Option<Seq<char>> {
    if claim == "preferred_username"@ {
        opt_string_view(c.preferred_username)
    } else if claim == "name"@ {
        opt_string_view(c.name)
    } else if claim == "nickname"@ {
        opt_string_view(c.nickname)
    } else if claim == "email"@ {
        match c.email {
            Some(e) => Some(email_local_part(e@)),
            None => None,
        }
    } else if claim == "sub"@ {
        opt_string_view(c.sub)
    } else {
        None
    }
}

/// The name the login takes: the configured claim, else the first present
/// of preferred username, name, nickname, the email's local part, and the
/// subject.
pub open spec fn extract_name_spec(u: Option<UserClaims>, name_claim: Seq<char>) -> Option<
    Seq<char>,
> {
    match u {
        None => None,
        Some(c) => match configured_name_claim(c, name_claim) {
            Some(n) => Some(n),
            None => if c.preferred_username is Some {
                opt_string_view(c.preferred_username)
            } else if c.name is Some {
                opt_string_view(c.name)
            } else if c.nickname is Some {
                opt_string_view(c.nickname)
            } else if c.email is Some {
                Some(email_local_part(c.email->0@))
            } else {
                opt_string_view(c.sub)
            },
        },
    }
}

/// With the name mapped to the `email` claim and an email present, the name
/// is the email's local part: the text before its first `@` (all of it when
/// there is none). It holds no `@`, begins the address, and is followed in
/// the address by `@` or by nothing.
pub proof fn law_email_name_is_local_part(c: UserClaims)
    requires
        c.email is Some,
    ensures
        ({
            let e = c.email->0@;
            extract_name_spec(Some(c), "email"@) matches Some(n) && {
                &&& n.len() <= e.len()
                &&& e.take(n.len() as int) == n
                &&& forall|k: int| 0 <= k < n.len() ==> n[k] != '@'
                &&& n.len() == e.len() || e[n.len() as int] == '@'
            }
        }),
{
    let e = c.email->0@;
    crate::text::lemma_find_char(e, '@');
    reveal_strlit("email");
    reveal_strlit("preferred_username");
    reveal_strlit("name");
    reveal_strlit("nickname");
    assert("email"@ != "preferred_username"@) by {
        assert("email"@.len() != "preferred_username"@.len());
    }
    assert("email"@ != "name"@) by {
        assert("email"@.len() != "name"@.len());
    }
    assert("email"@ != "nickname"@) by {
        assert("email"@.len() != "nickname"@.len());
    }
    match crate::text::find_char_spec(e, '@') {
        Some(k) => {
            assert(e.take(k as int).len() == k);
        },
        None => {
            assert(e.take(e.len() as int) =~= e);
        },
    }
}

/// Extract the email from the claims using the configured mapping.
pub fn extract_email_from_userinfo(userinfo: Option<&UserClaims>, mapping: &OidcFieldMapping) -> (r:
    Option<String>)
    ensures
        opt_string_view(r) == extract_email_spec(
            match userinfo {
                Some(u) => Some(*u),
                None => None,
            },
            mapping.email_claim@,
        ),
{
    match userinfo {
        None => None,
        Some(u) => if str_eq(mapping.email_claim.as_str(), "email") {
            u.email.clone()
        } else {
            None
        },
    }
}

/// Extract the name from the claims using the configured mapping, falling
/// back to preferred username, name, nickname, the email's local part, and
/// the subject.
pub fn extract_name_from_userinfo(userinfo: Option<&UserClaims>, mapping: &OidcFieldMapping) -> (r:
    Option<String>)
    ensures
        opt_string_view(r) == extract_name_spec(
            match userinfo {
                Some(u) => Some(*u),
                None => None,
            },
            mapping.name_claim@,
        ),
{
    let u = match userinfo {
        None => return None,
        Some(u) => u,
    };
    let claim = mapping.name_claim.as_str();
    let configured: Option<String> = if str_eq(claim, "preferred_username") {
        clone_opt_string(&u.preferred_username)
    } else if str_eq(claim, "name") {
        clone_opt_string(&u.name)
    } else if str_eq(claim, "nickname") {
        clone_opt_string(&u.nickname)
    } else if str_eq(claim, "email") {
        match &u.email {
            Some(e) => Some(text_before(e.as_str(), '@')),
            None => None,
        }
    } else if str_eq(claim, "sub") {
        clone_opt_string(&u.sub)
    } else {
        None
    };
    if configured.is_some() {
        return configured;
    }
    if let Some(n) = &u.preferred_username {
        return Some(n.clone());
    }
    if let Some(n) = &u.name {
        return Some(n.clone());
    }
    if let Some(n) = &u.nickname {
        return Some(n.clone());
    }
    if let Some(e) = &u.email {
        return Some(text_before(e.as_str(), '@'));
    }
    clone_opt_string(&u.sub)
}

/// The subject of a login: the `sub` claim, or `unknown`.
pub fn subject_or_unknown(userinfo: Option<&UserClaims>) -> (s: String)
    ensures
        s@ == match userinfo {
            Some(u) => match u.sub {
                Some(x) => x@,
                None => "unknown"@,
            },
            None => "unknown"@,
        },
{
    match userinfo {
        Some(u) => match &u.sub {
            Some(x) => x.clone(),
            None => owned("unknown"),
        },
        None => owned("unknown"),
    }
}

/// The claims of a provider answering with plain OAuth2 user JSON (such as
/// GitHub): the numeric `id` as subject (else a `sub` string), `login` as
/// preferred user name, and `name` and `email`.
pub fn map_oauth_user_json(
    id: Option<i64>,
    sub: Option<String>,
    login: Option<String>,
    name: Option<String>,
    email: Option<String>,
) -> (c: UserClaims)
    ensures
        opt_string_view(c.sub) == match id {
            Some(n) => Some(crate::text::int_to_decimal(n as int)),
            None => opt_string_view(sub),
        },
        c.preferred_username == login,
        c.name == name,
        c.email == email,
        c.nickname is None,
{
    let s = match id {
        Some(n) => Some(crate::text::i64_to_string(n)),
        None => sub,
    };
    UserClaims { sub: s, name, nickname: None, preferred_username: login, email }
}

/// The checks of a provider's callback: an error the provider reports, and
/// the presence of the code and the state. Gives (code, state).
pub fn check_callback_params(
    code: Option<String>,
    state: Option<String>,
    error: Option<String>,
    error_description: Option<String>,
) -> (r: Result<(String, String), (u16, String)>)
    ensures
        error is Some ==> (r matches Err((400, m)) && m@ == "OIDC error: "@ + error->0@ + " - "@
            + match error_description {
            Some(d) => d@,
            None => "Unknown error"@,
        }),
        error is None && code is None ==> (r matches Err((400, m)) && m@
            == "Missing authorization code"@),
        error is None && code is Some && state is None ==> (r matches Err((400, m)) && m@
            == "Missing state parameter"@),
        error is None && code is Some && state is Some ==> r == Ok::<
            (String, String),
            (u16, String),
        >((code->0, state->0)),
{
    if let Some(err) = error {
        let mut m = owned("OIDC error: ");
        push_str(&mut m, err.as_str());
        push_str(&mut m, " - ");
        match error_description {
            Some(d) => push_str(&mut m, d.as_str()),
            None => push_str(&mut m, "Unknown error"),
        }
        return Err((400, m));
    }
    let code = match code {
        Some(c) => c,
        None => return Err((400, owned("Missing authorization code"))),
    };
    let state = match state {
        Some(s) => s,
        None => return Err((400, owned("Missing state parameter"))),
    };
    Ok((code, state))
}

/// Without a name and without an email no user can be identified: the
/// error names the configured claims.
pub fn check_identity(
    name: &Option<String>,
    email: &Option<String>,
    mapping: &OidcFieldMapping,
) -> (r: Result<(), (u16, String)>)
    ensures
        name is None && email is None ==> (r matches Err((400, m)) && m@
            == "Cannot establish user identity: no name or email available from provider. Check that the provider returns the configured claims ("@
            + mapping.name_claim@ + ", "@ + mapping.email_claim@ + ")."@),
        !(name is None && email is None) ==> r is Ok,
{
    if name.is_none() && email.is_none() {
        let mut m = owned(
            "Cannot establish user identity: no name or email available from provider. Check that the provider returns the configured claims (",
        );
        push_str(&mut m, mapping.name_claim.as_str());
        push_str(&mut m, ", ");
        push_str(&mut m, mapping.email_claim.as_str());
        push_str(&mut m, ").");
        return Err((400, m));
    }
    Ok(())
}

/// Where the browser goes after login: the requested URL, or `/`.
pub fn login_redirect_target(redirect_url: Option<String>) -> (s: String)
    ensures
        s@ == match redirect_url {
            Some(u) => u@,
            None => "/"@,
        },
{
    match redirect_url {
        Some(u) => u,
        None => owned("/"),
    }
}


/// A character that may stand in a user name: alphanumeric, `_`, `-` or `.`.
pub open spec fn username_char(c: char) -> bool {
    unicode_alphanumeric(c) || c == '_' || c == '-' || c == '.'
}

/// `username_char` as a predicate on characters.
pub open spec fn username_filter() -> spec_fn(char) -> bool {
    |c: char| username_char(c)
}

/// At most the first 64 characters of `s`.
pub open spec fn at_most_64(s: Seq<char>) -> Seq<char> {
    if s.len() <= 64 {
        s
    } else {
        s.take(64)
    }
}

/// The allowed characters of `name`, in order, cut after the 64th.
pub open spec fn sanitize_username_spec(name: Seq<char>) -> Seq<char> {
    at_most_64(name.filter(username_filter()))
}

/// Keep the characters allowed in a user name, at most 64 of them.
pub fn sanitize_username(name: &str) -> (s: String)
    ensures
        s@ == sanitize_username_spec(name@),
{
    let v = sanitize_username_chars(name);
    string_from_chars(&v)
}

fn sanitize_username_chars(name: &str) -> (out: Vec<char>)
    ensures
        out@ == sanitize_username_spec(name@),
{
    let v = chars_of(name);
    let mut out: Vec<char> = Vec::new();
    let mut i: usize = 0;
    proof {
        reveal(Seq::filter);
        assert(v@.take(0).filter(username_filter()) =~= Seq::<char>::empty());
    }
    while i < v.len()
        invariant
            i <= v.len(),
            v@ == name@,
            out@ == at_most_64(v@.take(i as int).filter(username_filter())),
        decreases v.len() - i,
    {
        let c = v[i];
        let ok = is_alphanumeric(c) || c == '_' || c == '-' || c == '.';
        let ghost before = v@.take(i as int).filter(username_filter());
        proof {
            reveal(Seq::filter);
            let t = v@.take(i as int + 1);
            assert(t.drop_last() =~= v@.take(i as int));
            assert(t.last() == c);
            assert(ok == username_filter()(c));
            if ok {
                assert(t.filter(username_filter()) == before.push(c));
                if before.len() >= 64 {
                    assert(before.push(c).take(64) =~= before.take(64));
                }
            } else {
                assert(t.filter(username_filter()) == before);
            }
        }
        if ok && out.len() < 64 {
            proof {
                if before.len() > 64 {
                    assert(out@.len() == 64);
                }
            }
            out.push(c);
        } else {
            proof {
                if ok {
                    if before.len() < 64 {
                        assert(out@.len() == before.len());
                    }
                }
            }
        }
        i += 1;
    }
    proof {
        assert(v@.take(v@.len() as int) =~= v@);
    }
    out
}

/// A sanitized user name has at most 64 characters, each of them allowed.
pub proof fn law_sanitized_username_allowed(name: Seq<char>)
    ensures
        sanitize_username_spec(name).len() <= 64,
        forall|i: int|
            0 <= i < sanitize_username_spec(name).len() ==> username_char(
                #[trigger] sanitize_username_spec(name)[i],
            ),
{
    let kept = name.filter(username_filter());
    assert forall|i: int| 0 <= i < sanitize_username_spec(name).len() implies username_char(
        #[trigger] sanitize_username_spec(name)[i],
    ) by {
        assert(sanitize_username_spec(name)[i] == kept[i]);
        name.lemma_filter_pred(username_filter(), i);
    }
}

/// The name a new user is given before any clash is resolved: the sanitized
/// preferred name when it is not empty, else `user_` and the first eight
/// bytes of the subject (all of it when it is shorter).
pub open spec fn base_username_spec(preferred: Option<Seq<char>>, subject: Seq<char>) -> Seq<char> {
    if preferred is Some && sanitize_username_spec(preferred->0).len() > 0 {
        sanitize_username_spec(preferred->0)
    } else if byte_len(subject) <= 8 {
        "user_"@ + subject
    } else {
        "user_"@ + take_bytes(subject, 8)->0
    }
}

/// Whether the base name can be formed: slicing the subject at byte eight
/// panics unless that byte starts a character.
pub open spec fn base_username_defined(preferred: Option<Seq<char>>, subject: Seq<char>) -> bool {
    (preferred is Some && sanitize_username_spec(preferred->0).len() > 0) || byte_len(subject) <= 8
        || take_bytes(subject, 8) is Some
}

/// Whether the base name can be formed (see `base_username_defined`).
pub fn base_username_ok(preferred: Option<&str>, subject: &str) -> (b: bool)
    ensures
        b == base_username_defined(opt_str_view(preferred), subject@),
{
    if let Some(p) = preferred {
        let cleaned = sanitize_username_chars(p);
        if cleaned.len() > 0 {
            return true;
        }
    }
    let v = chars_of(subject);
    if !crate::store_path::byte_len_exceeds(&v, 8) {
        return true;
    }
    match take_bytes_exec(&v, 8) {
        Some(_) => true,
        None => false,
    }
}

/// The first user name to try for a new user.
pub fn base_username(preferred: Option<&str>, subject: &str) -> (s: String)
    requires
        base_username_defined(opt_str_view(preferred), subject@),
    ensures
        s@ == base_username_spec(opt_str_view(preferred), subject@),
{
    if let Some(p) = preferred {
        let cleaned = sanitize_username_chars(p);
        if cleaned.len() > 0 {
            return string_from_chars(&cleaned);
        }
    }
    let v = chars_of(subject);
    let mut s = owned("user_");
    proof {
        reveal_strlit("user_");
    }
    if !crate::store_path::byte_len_exceeds(&v, 8) {
        push_str(&mut s, subject);
    } else {
        match take_bytes_exec(&v, 8) {
            Some(w) => {
                let head = string_from_chars(&w);
                push_str(&mut s, head.as_str());
            },
            None => {
                proof {
                    assert(false);
                }
            },
        }
    }
    s
}

/// Attempts at a free user name: the base name, then the base name with
/// `_1` up to `_999`.
pub const USERNAME_ATTEMPTS: u32 = 1000;

/// The user name tried at `attempt`, or the error once every attempt is used.
pub open spec fn username_candidate_spec(base: Seq<char>, attempt: nat) -> Result<Seq<char>, Seq<char>> {
    if attempt == 0 {
        Ok(base)
    } else if attempt < USERNAME_ATTEMPTS {
        Ok(base + "_"@ + nat_to_decimal(attempt))
    } else {
        Err("Could not generate unique username"@)
    }
}

/// The user name to try at `attempt` (counting from zero); the caller moves
/// to the next attempt while the name is taken.
pub fn username_candidate(base: &str, attempt: u32) -> (r: Result<String, String>)
    ensures
        match username_candidate_spec(base@, attempt as nat) {
            Ok(n) => r matches Ok(s) && s@ == n,
            Err(e) => r matches Err(s) && s@ == e,
        },
{
    if attempt == 0 {
        Ok(owned(base))
    } else if attempt < USERNAME_ATTEMPTS {
        let mut s = owned(base);
        push_char(&mut s, '_');
        push_u64_decimal(&mut s, attempt as u64);
        proof {
            reveal_strlit("_");
        }
        Ok(s)
    } else {
        Err(owned("Could not generate unique username"))
    }
}

/// Different attempts propose different user names, so the search tries
/// each candidate once.
pub proof fn law_username_candidates_distinct(base: Seq<char>, a1: nat, a2: nat)
    requires
        a1 < USERNAME_ATTEMPTS,
        a2 < USERNAME_ATTEMPTS,
        a1 != a2,
    ensures
        username_candidate_spec(base, a1)->Ok_0 != username_candidate_spec(base, a2)->Ok_0,
{
    reveal_strlit("_");
    crate::text::lemma_decimal_roundtrip(a1);
    crate::text::lemma_decimal_roundtrip(a2);
    let c1 = username_candidate_spec(base, a1)->Ok_0;
    let c2 = username_candidate_spec(base, a2)->Ok_0;
    if a1 > 0 && a2 > 0 {
        if c1 == c2 {
            let d1 = nat_to_decimal(a1);
            let d2 = nat_to_decimal(a2);
            assert(c1.skip(base.len() as int + 1) =~= d1);
            assert(c2.skip(base.len() as int + 1) =~= d2);
        }
    } else if a1 == 0 {
        assert(c2.len() > c1.len());
    } else {
        assert(c1.len() > c2.len());
    }
}

/// What a login does with the identity found for the provider and subject:
/// `Ok(Some(id))` loads user `id`; `Ok(None)` links or creates a user.
/// `identity` is `None` when no identity exists, else the user it points to.
pub open spec fn resolve_identity_spec(identity: Option<Option<i32>>, auto_create_user: bool) -> Result<
    Option<i32>,
    Seq<char>,
> {
    match identity {
        Some(Some(id)) => Ok(Some(id)),
        Some(None) => Err("Identity exists but has no associated user"@),
        None => if auto_create_user {
            Ok(None)
        } else {
            Err("User not found and auto-creation is disabled"@)
        },
    }
}

/// Decide how a login proceeds from the stored identity.
pub fn resolve_identity(identity: Option<Option<i32>>, auto_create_user: bool) -> (r: Result<
    Option<i32>,
    String,
>)
    ensures
        match resolve_identity_spec(identity, auto_create_user) {
            Ok(u) => r == Ok::<Option<i32>, String>(u),
            Err(e) => r matches Err(s) && s@ == e,
        },
{
    match identity {
        Some(Some(id)) => Ok(Some(id)),
        Some(None) => Err(owned("Identity exists but has no associated user")),
        None => if auto_create_user {
            Ok(None)
        } else {
            Err(owned("User not found and auto-creation is disabled"))
        },
    }
}

/// The `scope` parameter of an authorization request: the configured
/// scopes joined with spaces.
pub fn scope_param(scopes: &Vec<String>) -> (s: String)
    ensures
        s@ == crate::narinfo::join_spaces(crate::sorting::str_views(scopes@)),
{
    let ghost v = crate::sorting::str_views(scopes@);
    let mut s = String::new();
    let mut i: usize = 0;
    proof {
        assert(v.take(0) =~= Seq::<Seq<char>>::empty());
    }
    while i < scopes.len()
        invariant
            i <= scopes.len(),
            v == crate::sorting::str_views(scopes@),
            s@ == crate::narinfo::join_spaces(v.take(i as int)),
        decreases scopes.len() - i,
    {
        proof {
            assert(v.take(i as int + 1).drop_last() =~= v.take(i as int));
            assert(v[i as int] == scopes@[i as int]@);
        }
        if i > 0 {
            push_char(&mut s, ' ');
        }
        push_str(&mut s, scopes[i].as_str());
        proof {
            if i == 0 {
                assert(v.take(1) =~= seq![v[0]]);
            }
            assert(s@ =~= crate::narinfo::join_spaces(v.take(i as int + 1)));
        }
        i += 1;
    }
    proof {
        assert(v.take(scopes@.len() as int) =~= v);
    }
    s
}

} // verus!
