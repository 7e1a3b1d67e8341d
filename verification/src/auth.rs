//! Token hashing and the decisions of request authentication.

use sha2::Digest;
use vstd::prelude::*;
use crate::models::{AuthenticatedEntity, Token, User};
use crate::sorting::str_views;
use crate::text::{
    chars_of, has_prefix, owned, push_char, starts_with, str_eq, string_from_chars, sub_chars,
};

verus! {

/// The SHA-512 digest of `data`.
pub uninterp spec fn sha512(data: Seq<u8>) -> Seq<u8>;

/// Calls `sha2::Sha512` (`new`, `update`, `finalize`) on `data` and returns
/// the 64-byte digest, named as a function of the input.
#[verifier::external_body]
pub(crate) fn sha512_digest(data: &[u8]) -> (digest: Vec<u8>)
    ensures
        digest@ == sha512(data@),
        digest@.len() == 64,
{
    let mut hasher = sha2::Sha512::new();
    hasher.update(data);
    hasher.finalize().to_vec()
}

/// Lower-case hexadecimal digits.
pub const HEX_CHARS: [char; 16] = [
    '0', '1', '2', '3', '4', '5', '6', '7', '8', '9', 'a', 'b', 'c', 'd', 'e', 'f',
];

/// Lower-case hexadecimal text of `bytes`: two digits per byte, high nibble first.
pub open spec fn hex_spec(bytes: Seq<u8>) -> Seq<char> {
    Seq::new(
        2 * bytes.len(),
        |k: int|
            if k % 2 == 0 {
                HEX_CHARS@[(bytes[k / 2] / 16) as int]
            } else {
                HEX_CHARS@[(bytes[k / 2] % 16) as int]
            },
    )
}

/// Lower-case hexadecimal encoding of `bytes`.
pub fn hex_encode(bytes: &[u8]) -> (s: String)
    ensures
        s@ == hex_spec(bytes@),
{
    let mut hex = String::new();
    let mut i: usize = 0;
    while i < bytes.len()
        invariant
            i <= bytes@.len(),
            hex@ == hex_spec(bytes@).take(2 * i),
        decreases bytes@.len() - i,
    {
        let byte = bytes[i];
        let hi = byte >> 4;
        let lo = byte & 0x0f;
        proof {
            assert(hi == byte / 16 && lo == byte % 16) by (bit_vector)
                requires
                    hi == byte >> 4,
                    lo == byte & 0x0f,
            ;
        }
        push_char(&mut hex, HEX_CHARS[hi as usize]);
        push_char(&mut hex, HEX_CHARS[lo as usize]);
        proof {
            let h = hex_spec(bytes@);
            assert(h.take(2 * i + 2) =~= h.take(2 * i).push(h[2 * i]).push(h[2 * i + 1]));
            assert((2 * i) / 2 == i as int);
            assert((2 * i + 1) / 2 == i as int);
        }
        i += 1;
    }
    proof {
        assert(hex_spec(bytes@).take(2 * bytes@.len() as int) == hex_spec(bytes@));
    }
    hex
}

/// The stored hash of a raw token: hex of the SHA-512 of its UTF-8 bytes.
pub open spec fn hash_token_spec(token: Seq<char>) -> Seq<char> {
    hex_spec(sha512(vstd::utf8::encode_utf8(token)))
}

/// Hash a raw token using SHA-512.
pub fn hash_token(token: &str) -> (h: String)
    ensures
        h@ == hash_token_spec(token@),
        h@.len() == 128,
{
    let digest = sha512_digest(token.as_bytes());
    hex_encode(digest.as_slice())
}

} // verus!

verus! {

/// The token of an `Authorization: Bearer <token>` header.
pub open spec fn bearer_token_spec(header: Seq<char>) -> Option<Seq<char>> {
    if has_prefix(header, "Bearer "@) {
        Some(header.skip(7))
    } else {
        None
    }
}

/// The token of an `Authorization` header value, if it is a bearer token.
pub fn bearer_token(header: &str) -> (r: Option<String>)
    ensures
        match bearer_token_spec(header@) {
            Some(t) => r matches Some(s) && s@ == t,
            None => r is None,
        },
{
    let v = chars_of(header);
    if starts_with(&v, "Bearer ") {
        proof {
            reveal_strlit("Bearer ");
        }
        let t = sub_chars(&v, 7, v.len());
        Some(string_from_chars(&t))
    } else {
        None
    }
}

/// The credential a request presents.
#[derive(Debug, Clone, PartialEq, Eq)]
pub enum Credential {
    /// An xzar token (from the `Authorization` header or the `xzar_token` cookie).
    Token(String),
    /// An OpenID Connect session token (from the `xzar_session` cookie).
    Session(String),
    /// No credential.
    Anonymous,
}

/// The credential chosen from a request: the `Authorization` bearer token,
/// else the `xzar_token` cookie, else the `xzar_session` cookie.
pub open spec fn select_credential_spec(
    header: Option<Seq<char>>,
    token_cookie: Option<Seq<char>>,
    session_cookie: Option<Seq<char>>,
) -> (bool, Option<Seq<char>>) {
    let from_header = match header {
        Some(h) => bearer_token_spec(h),
        None => None,
    };
    match from_header {
        Some(t) => (true, Some(t)),
        None => match token_cookie {
            Some(t) => (true, Some(t)),
            None => match session_cookie {
                Some(t) => (false, Some(t)),
                None => (false, None),
            },
        },
    }
}

/// The credential of a request, by priority: `Authorization` header, then
/// `xzar_token` cookie, then `xzar_session` cookie.
pub fn select_credential(
    header: Option<&str>,
    token_cookie: Option<&str>,
    session_cookie: Option<&str>,
) -> (c: Credential)
    ensures
        ({
            let sel = select_credential_spec(
                opt_view(header),
                opt_view(token_cookie),
                opt_view(session_cookie),
            );
            match c {
                Credential::Token(t) => sel.0 && sel.1 == Some(t@),
                Credential::Session(t) => !sel.0 && sel.1 == Some(t@),
                Credential::Anonymous => !sel.0 && sel.1 is None,
            }
        }),
{
    let from_header = match header {
        Some(h) => bearer_token(h),
        None => None,
    };
    match from_header {
        Some(t) => Credential::Token(t),
        None => match token_cookie {
            Some(t) => Credential::Token(owned(t)),
            None => match session_cookie {
                Some(t) => Credential::Session(owned(t)),
                None => Credential::Anonymous,
            },
        },
    }
}

/// A request carrying `Authorization: Bearer <raw>` is authenticated as the
/// token `raw`, whatever cookies it also carries; its lookup then uses the
/// hash that `new_token` stores for `raw`.
pub proof fn law_bearer_header_selects_token(
    raw: Seq<char>,
    token_cookie: Option<Seq<char>>,
    session_cookie: Option<Seq<char>>,
)
    ensures
        select_credential_spec(Some("Bearer "@ + raw), token_cookie, session_cookie) == (
            true,
            Some(raw),
        ),
{
    reveal_strlit("Bearer ");
    let h = "Bearer "@ + raw;
    assert(h.take(7) =~= "Bearer "@);
    assert(h.skip(7) =~= raw);
}

/// The view of an optional string.
pub open spec fn opt_view(s: Option<&str>) -> Option<Seq<char>> {
    match s {
        Some(x) => Some(x@),
        None => None,
    }
}

/// The entity a stored token stands for: a system token without a user, or
/// a user token with its user, each with the token's permissions; any other
/// combination is rejected.
pub fn token_entity(token: Token, user: Option<User>) -> (r: Option<AuthenticatedEntity>)
    ensures
        match (token.is_system, user) {
            (true, None) => r == Some(
                AuthenticatedEntity::System {
                    token_id: token.id,
                    can_read: token.can_read,
                    can_write: token.can_write,
                },
            ),
            (false, Some(u)) => r == Some(
                AuthenticatedEntity::User {
                    token_id: token.id,
                    user: u,
                    can_read: token.can_read,
                    can_write: token.can_write,
                },
            ),
            _ => r is None,
        },
{
    match user {
        None => if token.is_system {
            Some(
                AuthenticatedEntity::System {
                    token_id: token.id,
                    can_read: token.can_read,
                    can_write: token.can_write,
                },
            )
        } else {
            None
        },
        Some(u) => if !token.is_system {
            Some(
                AuthenticatedEntity::User {
                    token_id: token.id,
                    user: u,
                    can_read: token.can_read,
                    can_write: token.can_write,
                },
            )
        } else {
            None
        },
    }
}

/// The outcome of authenticating a request.
#[derive(Debug, Clone)]
pub enum AuthOutcome {
    Success(AuthenticatedEntity),
    /// Rejected with this HTTP status.
    Failure(u16),
}

/// The hashes of the upload tokens set in the configuration.
#[derive(Debug, Clone)]
pub struct TokenStore {
    hashes: Vec<String>,
}

impl View for TokenStore {
    type V = Seq<Seq<char>>;

    closed spec fn view(&self) -> Seq<Seq<char>> {
        str_views(self.hashes@)
    }
}

impl TokenStore {
    /// A store holding these token hashes.
    pub fn new(hashes: Vec<String>) -> (s: TokenStore)
        ensures
            s@ == str_views(hashes@),
    {
        TokenStore { hashes }
    }

    /// Whether `hash` is one of the configured token hashes.
    pub fn contains(&self, hash: &str) -> (b: bool)
        ensures
            b == self@.contains(hash@),
    {
        let mut i: usize = 0;
        while i < self.hashes.len()
            invariant
                i <= self.hashes@.len(),
                forall|j: int| 0 <= j < i ==> self.hashes@[j]@ != hash@,
            decreases self.hashes@.len() - i,
        {
            if str_eq(self.hashes[i].as_str(), hash) {
                proof {
                    assert(self@[i as int] == hash@);
                }
                return true;
            }
            i += 1;
        }
        proof {
            if self@.contains(hash@) {
                let k = choose|k: int| 0 <= k < self@.len() && self@[k] == hash@;
                assert(self.hashes@[k]@ == hash@);
            }
        }
        false
    }

    /// Whether no token is configured.
    pub fn is_empty(&self) -> (b: bool)
        ensures
            b == (self@.len() == 0),
    {
        self.hashes.len() == 0
    }
}

/// The entity of a request let in by a configured upload token, and of an
/// anonymous request in development mode: a system entity with token 0 and
/// read and write permission.
pub open spec fn configured_system() -> AuthenticatedEntity {
    AuthenticatedEntity::System { token_id: 0, can_read: true, can_write: true }
}

/// The request presents a token whose hash is among the configured ones.
pub open spec fn presents_configured_token(c: Credential, configured: Seq<Seq<char>>) -> bool {
    c matches Credential::Token(t) && configured.contains(hash_token_spec(t@))
}

/// What the authentication of a request does next.
#[derive(Debug, Clone)]
pub enum AuthPlan {
    /// Let the request in as this entity.
    Accept(AuthenticatedEntity),
    /// Answer with this status.
    Fail(u16),
    /// Look up the token whose stored hash is given.
    LookUpToken(String),
    /// Look up the unexpired session whose stored hash is given.
    LookUpSession(String),
    /// No credential: count the tokens to decide on development mode.
    CountTokens,
}

/// The first step of authentication. A token whose hash is configured lets
/// the request in as a system entity, with or without a database. Otherwise,
/// without a database the request fails with 500, without a connection with
/// 503; a presented token or session is looked up by its hash; without a
/// credential the tokens are counted.
pub fn auth_plan(
    database_configured: bool,
    connection_ok: bool,
    credential: &Credential,
    configured: &TokenStore,
) -> (p: AuthPlan)
    ensures
        presents_configured_token(*credential, configured@) ==> p == AuthPlan::Accept(
            configured_system(),
        ),
        !presents_configured_token(*credential, configured@) ==> {
            &&& !database_configured ==> p == AuthPlan::Fail(500)
            &&& database_configured && !connection_ok ==> p == AuthPlan::Fail(503)
            &&& database_configured && connection_ok ==> match *credential {
                Credential::Token(t) => p matches AuthPlan::LookUpToken(h) && h@ == hash_token_spec(
                    t@,
                ),
                Credential::Session(t) => p matches AuthPlan::LookUpSession(h) && h@
                    == hash_token_spec(t@),
                Credential::Anonymous => p matches AuthPlan::CountTokens,
            }
        },
{
    if let Credential::Token(t) = credential {
        let h = hash_token(t.as_str());
        if configured.contains(h.as_str()) {
            return AuthPlan::Accept(
                AuthenticatedEntity::System { token_id: 0, can_read: true, can_write: true },
            );
        }
    }
    if !database_configured {
        return AuthPlan::Fail(500);
    }
    if !connection_ok {
        return AuthPlan::Fail(503);
    }
    match credential {
        Credential::Token(t) => AuthPlan::LookUpToken(hash_token(t.as_str())),
        Credential::Session(t) => AuthPlan::LookUpSession(hash_token(t.as_str())),
        Credential::Anonymous => AuthPlan::CountTokens,
    }
}

/// After a token or session lookup: the found entity, or 401.
pub fn lookup_outcome(found: Option<AuthenticatedEntity>) -> (o: AuthOutcome)
    ensures
        match found {
            Some(e) => o matches AuthOutcome::Success(x) && x == e,
            None => o == AuthOutcome::Failure(401),
        },
{
    match found {
        Some(e) => AuthOutcome::Success(e),
        None => AuthOutcome::Failure(401),
    }
}

/// Without a credential: when an upload token is configured, or the
/// database holds a token, the request is rejected with 401. Otherwise
/// (no configured token, and no token in the database or counting failed)
/// it is let through as the development-mode system entity with token 0 and
/// read and write permission.
pub fn anonymous_outcome(tokens_configured: bool, token_count: Option<i64>) -> (o: AuthOutcome)
    ensures
        (tokens_configured || (token_count matches Some(n) && n > 0)) ==> o
            == AuthOutcome::Failure(401),
        !(tokens_configured || (token_count matches Some(n) && n > 0)) ==> o
            == AuthOutcome::Success(configured_system()),
{
    let any = match token_count {
        Some(n) => n > 0,
        None => false,
    };
    if tokens_configured || any {
        AuthOutcome::Failure(401)
    } else {
        AuthOutcome::Success(
            AuthenticatedEntity::System { token_id: 0, can_read: true, can_write: true },
        )
    }
}

/// The admin guard: an authenticated non-admin is rejected with 403; other
/// outcomes pass through.
pub fn admin_outcome(o: AuthOutcome) -> (r: AuthOutcome)
    ensures
        match o {
            AuthOutcome::Success(e) => if e.is_admin_spec() {
                r == AuthOutcome::Success(e)
            } else {
                r == AuthOutcome::Failure(403)
            },
            AuthOutcome::Failure(s) => r == AuthOutcome::Failure(s),
        },
{
    match o {
        AuthOutcome::Success(e) => if e.is_admin() {
            AuthOutcome::Success(e)
        } else {
            AuthOutcome::Failure(403)
        },
        AuthOutcome::Failure(s) => AuthOutcome::Failure(s),
    }
}

/// The read guard: an authenticated entity without read permission is
/// rejected with 403; other outcomes pass through.
pub fn read_outcome(o: AuthOutcome) -> (r: AuthOutcome)
    ensures
        match o {
            AuthOutcome::Success(e) => if e.can_read_spec() {
                r == AuthOutcome::Success(e)
            } else {
                r == AuthOutcome::Failure(403)
            },
            AuthOutcome::Failure(s) => r == AuthOutcome::Failure(s),
        },
{
    match o {
        AuthOutcome::Success(e) => if e.can_read() {
            AuthOutcome::Success(e)
        } else {
            AuthOutcome::Failure(403)
        },
        AuthOutcome::Failure(s) => AuthOutcome::Failure(s),
    }
}

/// The write guard: an authenticated entity without write permission is
/// rejected with 403; other outcomes pass through.
pub fn write_outcome(o: AuthOutcome) -> (r: AuthOutcome)
    ensures
        match o {
            AuthOutcome::Success(e) => if e.can_write_spec() {
                r == AuthOutcome::Success(e)
            } else {
                r == AuthOutcome::Failure(403)
            },
            AuthOutcome::Failure(s) => r == AuthOutcome::Failure(s),
        },
{
    match o {
        AuthOutcome::Success(e) => if e.can_write() {
            AuthOutcome::Success(e)
        } else {
            AuthOutcome::Failure(403)
        },
        AuthOutcome::Failure(s) => AuthOutcome::Failure(s),
    }
}

} // verus!
