//! The server's configuration, its defaults, and the environment overrides.

use vstd::prelude::*;
use crate::auth::{hash_token, hash_token_spec, presents_configured_token, Credential};
use crate::text::{chars_of, owned, parse_u16_chars, parse_unsigned_spec};

verus! {

/// Server configuration.
#[derive(Debug, Clone)]
pub struct Config {
    pub rocket: RocketConfig,
    pub cors: CorsConfig,
    /// Directory holding NAR files.
    pub storage: String,
    /// Signing key in `keyname:base64privatekey` form.
    pub signing_key: Option<String>,
    pub signing_pub_key: Option<String>,
    /// URL under which the server is reached from outside.
    pub external_url: Option<String>,
    pub db: DbConfig,
    /// Upload tokens, each given hashed (SHA-512, hex) or in plain text.
    pub tokens: Vec<TokenConfig>,
    pub sentry_dsn: Option<String>,
    /// OpenID Connect providers.
    pub oidc: Vec<OidcProviderConfig>,
}

/// An upload token of the configuration.
#[derive(Debug, Clone)]
pub enum TokenConfig {
    /// The hex SHA-512 hash of the token.
    Hashed { hashed: String },
    /// The token itself.
    Plain { plain: String },
}

/// The stored hash of a configured token: as given, or the hash of the
/// plain token.
pub open spec fn configured_token_hash(t: TokenConfig) -> Seq<char> {
    match t {
        TokenConfig::Hashed { hashed } => hashed@,
        TokenConfig::Plain { plain } => hash_token_spec(plain@),
    }
}

/// Listening address and port.
#[derive(Debug, Clone)]
pub struct RocketConfig {
    pub host: String,
    pub port: u16,
}

/// Cross-origin settings.
#[derive(Debug, Clone)]
pub struct CorsConfig {
    /// Enable CORS (default: false).
    pub enabled: bool,
    /// Allowed origins (all when empty).
    pub origins: Vec<String>,
}

/// Database settings.
#[derive(Debug, Clone)]
pub struct DbConfig {
    pub client: String,
    pub connection: String,
}

/// Configuration for a single OpenID Connect provider.
#[derive(Debug, Clone)]
pub struct OidcProviderConfig {
    /// Unique identifier for this provider (used in URLs and database).
    pub id: String,
    /// Display name for the provider.
    pub name: String,
    /// OpenID Connect issuer URL.
    pub issuer_url: String,
    pub client_id: String,
    pub client_secret: String,
    /// Whether to use OIDC discovery (default: true).
    pub discover: bool,
    pub authorization_endpoint: Option<String>,
    pub token_endpoint: Option<String>,
    pub userinfo_endpoint: Option<String>,
    pub jwks_uri: Option<String>,
    /// OAuth2 scopes to request.
    pub scopes: Vec<String>,
    pub mapping: OidcFieldMapping,
    /// Whether to create users that do not exist yet.
    pub auto_create_user: bool,
    /// Whether newly created users are admins.
    pub new_users_admin: bool,
}

/// Which claims give a user's identity, name and email.
#[derive(Debug, Clone)]
pub struct OidcFieldMapping {
    pub subject_claim: String,
    pub name_claim: String,
    pub email_claim: String,
}

/// Default listening host: all IPv6 (and IPv4) addresses.
pub fn default_host() -> (s: String)
    ensures
        s@ == "::"@,
{
    owned("::")
}

/// Default listening port.
pub fn default_port() -> (p: u16)
    ensures
        p == 17788,
{
    17788
}

/// Default database client.
pub fn default_client() -> (s: String)
    ensures
        s@ == "pg"@,
{
    owned("pg")
}

/// Default for flags that are on unless configured.
pub fn default_true() -> (b: bool)
    ensures
        b,
{
    true
}

/// Default OAuth2 scopes: `openid`, `email`, `profile`.
pub fn default_scopes() -> (v: Vec<String>)
    ensures
        v@.len() == 3,
        v@[0]@ == "openid"@,
        v@[1]@ == "email"@,
        v@[2]@ == "profile"@,
{
    let mut v: Vec<String> = Vec::new();
    v.push(owned("openid"));
    v.push(owned("email"));
    v.push(owned("profile"));
    v
}

/// Default subject claim.
pub fn default_subject_claim() -> (s: String)
    ensures
        s@ == "sub"@,
{
    owned("sub")
}

/// Default name claim.
pub fn default_name_claim() -> (s: String)
    ensures
        s@ == "preferred_username"@,
{
    owned("preferred_username")
}

/// Default email claim.
pub fn default_email_claim() -> (s: String)
    ensures
        s@ == "email"@,
{
    owned("email")
}

impl Default for RocketConfig {
    /// The default listening address and port.
    fn default() -> (c: RocketConfig)
        ensures
            c.host@ == "::"@,
            c.port == 17788,
    {
        RocketConfig { host: default_host(), port: default_port() }
    }
}

impl Default for CorsConfig {
    /// CORS disabled, no origins.
    fn default() -> (c: CorsConfig)
        ensures
            !c.enabled,
            c.origins@.len() == 0,
    {
        CorsConfig { enabled: false, origins: Vec::new() }
    }
}

impl Default for OidcFieldMapping {
    /// The default claims: `sub`, `preferred_username`, `email`.
    fn default() -> (m: OidcFieldMapping)
        ensures
            m.subject_claim@ == "sub"@,
            m.name_claim@ == "preferred_username"@,
            m.email_claim@ == "email"@,
    {
        OidcFieldMapping {
            subject_claim: default_subject_claim(),
            name_claim: default_name_claim(),
            email_claim: default_email_claim(),
        }
    }
}

/// Values of the environment variables that override the configuration file.
#[derive(Debug, Clone)]
pub struct EnvOverrides {
    /// `DATABASE_URL`
    pub database_url: Option<String>,
    /// `XZAR_STORAGE`
    pub storage: Option<String>,
    /// `XZAR_SIGNING_KEY`
    pub signing_key: Option<String>,
    /// `XZAR_SIGNING_PUB_KEY`
    pub signing_pub_key: Option<String>,
    /// `XZAR_EXTERNAL_URL`
    pub external_url: Option<String>,
    /// `SENTRY_DSN`
    pub sentry_dsn: Option<String>,
    /// `ROCKET_ADDRESS`
    pub rocket_address: Option<String>,
    /// `ROCKET_PORT`
    pub rocket_port: Option<String>,
}

/// `v` if present, else `d`.
pub open spec fn or_keep<T>(v: Option<T>, d: T) -> T {
    match v {
        Some(x) => x,
        None => d,
    }
}

/// `v` if present, else `d` (for optional settings).
pub open spec fn or_keep_opt<T>(v: Option<T>, d: Option<T>) -> Option<T> {
    match v {
        Some(x) => Some(x),
        None => d,
    }
}

impl Config {
    /// Applies the environment overrides: each variable that is set replaces
    /// its setting; `ROCKET_PORT` only when it parses as a port number.
    pub fn apply_env_overrides(&mut self, env: EnvOverrides)
        ensures
            final(self).db.connection == or_keep(env.database_url, old(self).db.connection),
            final(self).db.client == old(self).db.client,
            final(self).storage == or_keep(env.storage, old(self).storage),
            final(self).signing_key == or_keep_opt(env.signing_key, old(self).signing_key),
            final(self).signing_pub_key == or_keep_opt(env.signing_pub_key, old(self).signing_pub_key),
            final(self).external_url == or_keep_opt(env.external_url, old(self).external_url),
            final(self).sentry_dsn == or_keep_opt(env.sentry_dsn, old(self).sentry_dsn),
            final(self).rocket.host == or_keep(env.rocket_address, old(self).rocket.host),
            final(self).rocket.port == match env.rocket_port {
                Some(p) => match parse_unsigned_spec(p@, u16::MAX as nat) {
                    Some(v) => v as u16,
                    None => old(self).rocket.port,
                },
                None => old(self).rocket.port,
            },
            final(self).cors == old(self).cors,
            final(self).oidc == old(self).oidc,
            final(self).tokens == old(self).tokens,
    {
        if let Some(db_url) = env.database_url {
            self.db.connection = db_url;
        }
        if let Some(storage) = env.storage {
            self.storage = storage;
        }
        if let Some(k) = env.signing_key {
            self.signing_key = Some(k);
        }
        if let Some(k) = env.signing_pub_key {
            self.signing_pub_key = Some(k);
        }
        if let Some(u) = env.external_url {
            self.external_url = Some(u);
        }
        if let Some(d) = env.sentry_dsn {
            self.sentry_dsn = Some(d);
        }
        if let Some(h) = env.rocket_address {
            self.rocket.host = h;
        }
        if let Some(p) = env.rocket_port {
            if let Some(v) = parse_u16_chars(&chars_of(p.as_str())) {
                self.rocket.port = v;
            }
        }
    }
}

impl Config {
    /// The hashes of the configured upload tokens, in order: a hashed
    /// token as given, a plain one hashed.
    pub fn get_token_hashes(&self) -> (v: Vec<String>)
        ensures
            v@.len() == self.tokens@.len(),
            forall|i: int|
                0 <= i < v@.len() ==> #[trigger] v@[i]@ == configured_token_hash(self.tokens@[i]),
    {
        let mut v: Vec<String> = Vec::new();
        let mut i: usize = 0;
        while i < self.tokens.len()
            invariant
                i <= self.tokens@.len(),
                v@.len() == i,
                forall|j: int| 0 <= j < i ==> #[trigger] v@[j]@ == configured_token_hash(self.tokens@[j]),
            decreases self.tokens@.len() - i,
        {
            let h = match &self.tokens[i] {
                TokenConfig::Hashed { hashed } => hashed.clone(),
                TokenConfig::Plain { plain } => hash_token(plain.as_str()),
            };
            v.push(h);
            i += 1;
        }
        v
    }
}

/// Hashes listed as `get_token_hashes` lists them accept every configured
/// token: a plain token `p` is accepted by presenting `p` itself (its
/// SHA-512 hex hash is listed), so `auth_plan` lets a request with bearer
/// `p` in as the system entity; a hashed token is listed as given.
pub proof fn law_configured_tokens_are_accepted(
    tokens: Seq<TokenConfig>,
    hashes: Seq<Seq<char>>,
    i: int,
)
    requires
        0 <= i < tokens.len(),
        hashes.len() == tokens.len(),
        forall|j: int| 0 <= j < hashes.len() ==> #[trigger] hashes[j] == configured_token_hash(tokens[j]),
    ensures
        match tokens[i] {
            TokenConfig::Plain { plain } => hashes.contains(hash_token_spec(plain@))
                && presents_configured_token(Credential::Token(plain), hashes),
            TokenConfig::Hashed { hashed } => hashes.contains(hashed@),
        },
{
    assert(hashes[i] == configured_token_hash(tokens[i]));
}

/// The database pool's settings taken from the configuration.
#[derive(Debug)]
pub struct DbFairing {
    pub database_url: String,
}

impl DbFairing {
    /// Takes the database connection string from the configuration.
    pub fn new(config: &Config) -> (f: DbFairing)
        ensures
            f.database_url@ == config.db.connection@,
    {
        DbFairing { database_url: config.db.connection.clone() }
    }
}

/// Which origins cross-origin requests may come from.
#[derive(Debug, Clone)]
pub enum AllowedOrigins {
    /// Any origin.
    All,
    /// Exactly these origins.
    Exact(Vec<String>),
}

impl CorsConfig {
    /// The allowed origins: all when none are configured, else exactly the
    /// configured ones.
    pub fn allowed_origins(&self) -> (a: AllowedOrigins)
        ensures
            self.origins@.len() == 0 ==> a is All,
            self.origins@.len() > 0 ==> (a matches AllowedOrigins::Exact(v)
                && crate::sorting::str_views(v@) == crate::sorting::str_views(self.origins@)),
    {
        if self.origins.len() == 0 {
            AllowedOrigins::All
        } else {
            let mut v: Vec<String> = Vec::new();
            let mut i: usize = 0;
            while i < self.origins.len()
                invariant
                    i <= self.origins.len(),
                    crate::sorting::str_views(v@) == crate::sorting::str_views(self.origins@).take(
                        i as int,
                    ),
                decreases self.origins.len() - i,
            {
                let ghost before = crate::sorting::str_views(v@);
                v.push(self.origins[i].clone());
                proof {
                    assert(crate::sorting::str_views(v@) =~= before.push(self.origins@[i as int]@));
                    assert(crate::sorting::str_views(self.origins@).take(i as int + 1)
                        =~= crate::sorting::str_views(self.origins@).take(i as int).push(
                        self.origins@[i as int]@,
                    ));
                }
                i += 1;
            }
            proof {
                assert(crate::sorting::str_views(self.origins@).take(self.origins@.len() as int)
                    =~= crate::sorting::str_views(self.origins@));
            }
            AllowedOrigins::Exact(v)
        }
    }
}

} // verus!
