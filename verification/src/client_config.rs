//! The client's configuration: known servers with their keys, and a default.

use vstd::prelude::*;
use crate::storage::{join_path, join_path_spec};
use crate::text::{opt_str_view, opt_string_view, owned, push_str, str_eq};

verus! {

/// Configuration for a single server.
#[derive(Debug)]
pub struct ServerConfig {
    /// Server name (used as identifier).
    pub name: String,
    /// Server URL.
    pub url: String,
    /// API key for this server.
    pub key: String,
}

/// Configuration of the client.
#[derive(Debug)]
pub struct Config {
    /// Default server name to use when no `--server` is specified.
    pub default_server: Option<String>,
    /// Configured servers.
    pub servers: Vec<ServerConfig>,
}

/// A server as (name, url, key).
pub type ServerView = (Seq<char>, Seq<char>, Seq<char>);

impl ServerConfig {
    /// The server as (name, url, key).
    pub open spec fn view_of(&self) -> ServerView {
        (self.name@, self.url@, self.key@)
    }

    /// A copy of this server entry.
    pub fn duplicate(&self) -> (r: ServerConfig)
        ensures
            r.view_of() == self.view_of(),
    {
        ServerConfig { name: self.name.clone(), url: self.url.clone(), key: self.key.clone() }
    }
}

/// The servers as (name, url, key) triples.
pub open spec fn servers_view(v: Seq<ServerConfig>) -> Seq<ServerView> {
    v.map_values(|s: ServerConfig| s.view_of())
}

/// Position of the first server whose name or URL is `x`.
pub open spec fn find_server_index(servers: Seq<ServerView>, x: Seq<char>) -> Option<nat>
    decreases servers.len(),
{
    if servers.len() == 0 {
        None
    } else if servers[0].0 == x || servers[0].1 == x {
        Some(0)
    } else {
        match find_server_index(servers.drop_first(), x) {
            Some(k) => Some(k + 1),
            None => None,
        }
    }
}

/// The first server whose name or URL is `x` is at position `k`.
pub open spec fn first_server_at(servers: Seq<ServerView>, x: Seq<char>, k: int) -> bool {
    &&& 0 <= k < servers.len()
    &&& (servers[k].0 == x || servers[k].1 == x)
    &&& forall|j: int| 0 <= j < k ==> servers[j].0 != x && servers[j].1 != x
}

/// `find_server_index` reports the first matching server, and only when there is one.
pub proof fn lemma_find_server_index(servers: Seq<ServerView>, x: Seq<char>)
    ensures
        match find_server_index(servers, x) {
            Some(k) => first_server_at(servers, x, k as int),
            None => forall|j: int| 0 <= j < servers.len() ==> servers[j].0 != x && servers[j].1 != x,
        },
    decreases servers.len(),
{
    if servers.len() > 0 && !(servers[0].0 == x || servers[0].1 == x) {
        let t = servers.drop_first();
        lemma_find_server_index(t, x);
        assert forall|j: int| 0 < j < servers.len() implies servers[j] == t[j - 1] by {}
    }
}

/// A first match at `k` is what `find_server_index` reports.
pub proof fn lemma_find_server_index_at(servers: Seq<ServerView>, x: Seq<char>, k: int)
    requires
        first_server_at(servers, x, k),
    ensures
        find_server_index(servers, x) == Some(k as nat),
{
    lemma_find_server_index(servers, x);
}

/// The servers without those named `name`, in order.
pub open spec fn without_name(servers: Seq<ServerView>, name: Seq<char>) -> Seq<ServerView> {
    servers.filter(not_named(name))
}

/// The predicate "the server is not named `name`".
pub open spec fn not_named(name: Seq<char>) -> spec_fn(ServerView) -> bool {
    |s: ServerView| s.0 != name
}

/// The servers after `add_server(name, url, key)`.
pub open spec fn add_server_spec(
    servers: Seq<ServerView>,
    name: Seq<char>,
    url: Seq<char>,
    key: Seq<char>,
) -> Seq<ServerView> {
    without_name(servers, name).push((name, url, key))
}

/// Some server is named `name`.
pub open spec fn has_server_named(servers: Seq<ServerView>, name: Seq<char>) -> bool {
    exists|j: int| 0 <= j < servers.len() && servers[j].0 == name
}

proof fn lemma_filter_step(s: Seq<ServerView>, name: Seq<char>, i: int)
    requires
        0 <= i < s.len(),
    ensures
        without_name(s.take(i + 1), name) == if s[i].0 != name {
            without_name(s.take(i), name).push(s[i])
        } else {
            without_name(s.take(i), name)
        },
{
    reveal_with_fuel(Seq::<_>::filter, 1);
    assert(s.take(i + 1).drop_last() == s.take(i));
}

impl Config {
    /// An empty configuration.
    pub fn new() -> (c: Config)
        ensures
            c.default_server is None,
            c.servers@.len() == 0,
    {
        Config { default_server: None, servers: Vec::new() }
    }

    /// Find a server by name or URL: the first whose name or URL matches.
    pub fn find_server(&self, name_or_url: &str) -> (r: Option<&ServerConfig>)
        ensures
            match find_server_index(servers_view(self.servers@), name_or_url@) {
                Some(k) => r == Some(&self.servers@[k as int]),
                None => r is None,
            },
    {
        let ghost sv = servers_view(self.servers@);
        let mut i: usize = 0;
        while i < self.servers.len()
            invariant
                i <= self.servers@.len(),
                sv == servers_view(self.servers@),
                forall|j: int| 0 <= j < i ==> sv[j].0 != name_or_url@ && sv[j].1 != name_or_url@,
            decreases self.servers@.len() - i,
        {
            let s = &self.servers[i];
            if str_eq(s.name.as_str(), name_or_url) || str_eq(s.url.as_str(), name_or_url) {
                proof {
                    lemma_find_server_index_at(sv, name_or_url@, i as int);
                }
                return Some(s);
            }
            i += 1;
        }
        proof {
            lemma_find_server_index(sv, name_or_url@);
            if find_server_index(sv, name_or_url@) is Some {
                let k = find_server_index(sv, name_or_url@)->0;
                assert(sv[k as int].0 == name_or_url@ || sv[k as int].1 == name_or_url@);
            }
        }
        None
    }

    /// The default server's configuration: the server found by the default name.
    pub fn default_server(&self) -> (r: Option<&ServerConfig>)
        ensures
            match self.default_server {
                None => r is None,
                Some(d) => match find_server_index(servers_view(self.servers@), d@) {
                    Some(k) => r == Some(&self.servers@[k as int]),
                    None => r is None,
                },
            },
    {
        match &self.default_server {
            Some(d) => self.find_server(d.as_str()),
            None => None,
        }
    }

    /// Keeps only the servers not named `name`.
    fn drop_named(&mut self, name: &str)
        ensures
            servers_view(final(self).servers@) == without_name(servers_view(old(self).servers@), name@),
            final(self).default_server == old(self).default_server,
    {
        let ghost sv = servers_view(self.servers@);
        let mut kept: Vec<ServerConfig> = Vec::new();
        let mut i: usize = 0;
        while i < self.servers.len()
            invariant
                i <= self.servers@.len(),
                sv == servers_view(self.servers@),
                servers_view(kept@) == without_name(sv.take(i as int), name@),
            decreases self.servers@.len() - i,
        {
            proof {
                lemma_filter_step(sv, name@, i as int);
            }
            if !str_eq(self.servers[i].name.as_str(), name) {
                let copy = self.servers[i].duplicate();
                kept.push(copy);
                proof {
                    assert(servers_view(kept@) =~= servers_view(kept@).drop_last().push(copy.view_of()));
                }
            }
            i += 1;
        }
        proof {
            assert(sv.take(self.servers@.len() as int) == sv);
        }
        self.servers = kept;
    }

    /// Add or update a server: any server with the same name is replaced by
    /// the new entry, which goes last.
    pub fn add_server(&mut self, name: String, url: String, key: String)
        ensures
            servers_view(final(self).servers@) == add_server_spec(
                servers_view(old(self).servers@),
                name@,
                url@,
                key@,
            ),
            final(self).default_server == old(self).default_server,
    {
        self.drop_named(name.as_str());
        let entry = ServerConfig { name, url, key };
        let ghost before = self.servers@;
        self.servers.push(entry);
        proof {
            assert(servers_view(self.servers@) =~= servers_view(before).push(entry.view_of()));
        }
    }

    /// Set the default server.
    pub fn set_default_server(&mut self, name: Option<String>)
        ensures
            final(self).default_server == name,
            final(self).servers@ == old(self).servers@,
    {
        self.default_server = name;
    }

    /// Remove the servers named `name`; the default is cleared when it was
    /// that name. Returns whether a server was removed.
    pub fn remove_server(&mut self, name: &str) -> (removed: bool)
        ensures
            servers_view(final(self).servers@) == without_name(servers_view(old(self).servers@), name@),
            final(self).default_server == (if opt_string_view(old(self).default_server) == Some(
                name@,
            ) {
                None
            } else {
                old(self).default_server
            }),
            removed == has_server_named(servers_view(old(self).servers@), name@),
    {
        let ghost sv = servers_view(self.servers@);
        let len_before = self.servers.len();
        self.drop_named(name);
        let clear = match &self.default_server {
            Some(d) => str_eq(d.as_str(), name),
            None => false,
        };
        if clear {
            self.default_server = None;
        }
        proof {
            lemma_without_name_len(sv, name@);
        }
        self.servers.len() < len_before
    }
}

/// Filtering out a name shortens the list exactly when the name occurs.
pub proof fn lemma_without_name_len(servers: Seq<ServerView>, name: Seq<char>)
    ensures
        without_name(servers, name).len() <= servers.len(),
        without_name(servers, name).len() < servers.len() <==> has_server_named(servers, name),
    decreases servers.len(),
{
    reveal_with_fuel(Seq::<_>::filter, 1);
    if servers.len() > 0 {
        let t = servers.drop_last();
        lemma_without_name_len(t, name);
        if has_server_named(t, name) {
            let j = choose|j: int| 0 <= j < t.len() && t[j].0 == name;
            assert(servers[j].0 == name);
        }
        if servers.last().0 != name && has_server_named(servers, name) {
            let j = choose|j: int| 0 <= j < servers.len() && servers[j].0 == name;
            assert(j < t.len());
            assert(t[j].0 == name);
        }
    }
}

} // verus!

verus! {

/// Calls `dirs::config_dir` and returns the directory's display text. The
/// result depends on the environment, so nothing is stated of it.
#[verifier::external_body]
fn config_dir_text() -> (d: Option<String>) {
    dirs::config_dir().map(|p| p.display().to_string())
}

/// The configuration file's path for a configuration directory:
/// `xzar.toml` joined onto it.
pub open spec fn config_path_spec(dir: Option<Seq<char>>) -> Option<Seq<char>> {
    match dir {
        Some(d) => Some(join_path_spec(d, "xzar.toml"@)),
        None => None,
    }
}

/// The configuration file's path in the configuration directory `dir`.
pub fn config_path_in(dir: Option<&str>) -> (p: Option<String>)
    ensures
        opt_string_view(p) == config_path_spec(opt_str_view(dir)),
{
    match dir {
        Some(d) => Some(join_path(d, "xzar.toml")),
        None => None,
    }
}

/// The configuration file's path: `xzar.toml` in the user's configuration
/// directory, which depends on the environment; none when there is no such
/// directory.
pub fn config_file_path() -> (p: Option<String>)
    ensures
        exists|dir: Option<Seq<char>>| opt_string_view(p) == #[trigger] config_path_spec(dir),
{
    let d = config_dir_text();
    let p = match &d {
        Some(s) => config_path_in(Some(s.as_str())),
        None => config_path_in(None),
    };
    proof {
        assert(opt_string_view(p) == config_path_spec(opt_string_view(d)));
    }
    p
}

/// Where the configuration file lives, as named in error messages.
pub open spec fn config_location(path: Option<Seq<char>>) -> Seq<char> {
    match path {
        Some(p) => p,
        None => "config file"@,
    }
}

/// What `resolve_server_and_key` gives when the configuration file's path
/// displays as `path`: both arguments as given; a server looked up by name
/// or URL; or the default server; else the error message.
pub open spec fn resolve_spec(
    servers: Seq<ServerView>,
    default_server: Option<Seq<char>>,
    server_arg: Option<Seq<char>>,
    key_arg: Option<Seq<char>>,
    path: Option<Seq<char>>,
) -> Result<(Seq<char>, Seq<char>), Seq<char>> {
    match (server_arg, key_arg) {
        (Some(server), Some(key)) => Ok((server, key)),
        (Some(server), None) => match find_server_index(servers, server) {
            Some(k) => Ok((servers[k as int].1, servers[k as int].2)),
            None => Err(
                "Server '"@ + server + "' not found in config. Specify --key or add server to "@
                    + config_location(path),
            ),
        },
        (None, Some(_)) => Err("--server is required when --key is specified"@),
        (None, None) => match default_server {
            Some(d) => match find_server_index(servers, d) {
                Some(k) => Ok((servers[k as int].1, servers[k as int].2)),
                None => Err("Default server '"@ + d + "' not found in config"@),
            },
            None => Err(
                "No --server specified and no default_server in config. Specify --server and --key, or configure servers in "@
                    + config_location(path),
            ),
        },
    }
}

/// The result `r` is the specified result `spec`.
pub open spec fn resolve_result_is(
    r: Result<(String, String), String>,
    spec: Result<(Seq<char>, Seq<char>), Seq<char>>,
) -> bool {
    match spec {
        Ok((u, k)) => r matches Ok((x, y)) && x@ == u && y@ == k,
        Err(m) => r matches Err(e) && e@ == m,
    }
}


impl Config {
    /// Resolve the server URL and key from the command-line arguments and
    /// the configuration, naming the configuration file as `path` in errors.
    pub fn resolve_server_and_key_at(
        &self,
        server_arg: Option<&str>,
        key_arg: Option<&str>,
        path: Option<&str>,
    ) -> (r: Result<(String, String), String>)
        ensures
            resolve_result_is(
                r,
                resolve_spec(
                    servers_view(self.servers@),
                    opt_string_view(self.default_server),
                    opt_str_view(server_arg),
                    opt_str_view(key_arg),
                    opt_str_view(path),
                ),
            ),
    {
        match (server_arg, key_arg) {
            (Some(server), Some(key)) => Ok((owned(server), owned(key))),
            (Some(server), None) => match self.find_server(server) {
                Some(sc) => {
                    proof {
                        lemma_find_server_index(servers_view(self.servers@), server@);
                        let k = find_server_index(servers_view(self.servers@), server@)->0;
                        assert(servers_view(self.servers@)[k as int] == self.servers@[k as int].view_of());
                    }
                    Ok((sc.url.clone(), sc.key.clone()))
                },
                None => {
                    let mut m = owned("Server '");
                    push_str(&mut m, server);
                    push_str(&mut m, "' not found in config. Specify --key or add server to ");
                    match path {
                        Some(p) => push_str(&mut m, p),
                        None => push_str(&mut m, "config file"),
                    }
                    Err(m)
                },
            },
            (None, Some(_)) => Err(owned("--server is required when --key is specified")),
            (None, None) => match self.default_server() {
                Some(sc) => {
                    proof {
                        let d = opt_string_view(self.default_server)->0;
                        lemma_find_server_index(servers_view(self.servers@), d);
                        let k = find_server_index(servers_view(self.servers@), d)->0;
                        assert(servers_view(self.servers@)[k as int] == self.servers@[k as int].view_of());
                    }
                    Ok((sc.url.clone(), sc.key.clone()))
                },
                None => match &self.default_server {
                    Some(d) => {
                        let mut m = owned("Default server '");
                        push_str(&mut m, d.as_str());
                        push_str(&mut m, "' not found in config");
                        Err(m)
                    },
                    None => {
                        let mut m = owned(
                            "No --server specified and no default_server in config. Specify --server and --key, or configure servers in ",
                        );
                        match path {
                            Some(p) => push_str(&mut m, p),
                            None => push_str(&mut m, "config file"),
                        }
                        Err(m)
                    },
                },
            },
        }
    }

    /// Resolve the server URL and key from the command-line arguments and
    /// the configuration. Error messages name the configuration file's path,
    /// `xzar.toml` in the user's configuration directory, which depends on
    /// the environment.
    pub fn resolve_server_and_key(&self, server_arg: Option<&str>, key_arg: Option<&str>) -> (r:
        Result<(String, String), String>)
        ensures
            exists|dir: Option<Seq<char>>|
                resolve_result_is(
                    r,
                    resolve_spec(
                        servers_view(self.servers@),
                        opt_string_view(self.default_server),
                        opt_str_view(server_arg),
                        opt_str_view(key_arg),
                        #[trigger] config_path_spec(dir),
                    ),
                ),
    {
        let path = config_file_path();
        let ghost dir = choose|dir: Option<Seq<char>>| opt_string_view(path) == config_path_spec(dir);
        let r = match &path {
            Some(p) => self.resolve_server_and_key_at(server_arg, key_arg, Some(p.as_str())),
            None => self.resolve_server_and_key_at(server_arg, key_arg, None),
        };
        proof {
            assert(resolve_result_is(
                r,
                resolve_spec(
                    servers_view(self.servers@),
                    opt_string_view(self.default_server),
                    opt_str_view(server_arg),
                    opt_str_view(key_arg),
                    config_path_spec(dir),
                ),
            ));
        }
        r
    }
}

} // verus!

verus! {

/// Every server kept by `without_name` is not named `name`.
proof fn lemma_without_name_members(servers: Seq<ServerView>, name: Seq<char>)
    ensures
        forall|j: int|
            0 <= j < without_name(servers, name).len() ==> (#[trigger] without_name(
                servers,
                name,
            )[j]).0 != name,
{
    let f = not_named(name);
    assert forall|j: int| 0 <= j < without_name(servers, name).len() implies (#[trigger] without_name(
        servers,
        name,
    )[j]).0 != name by {
        servers.lemma_filter_pred(f, j);
    }
}

/// After `add_server(name, url, key)`, exactly one server is named `name`:
/// the new entry, which is last.
pub proof fn law_add_server_unique_name(
    servers: Seq<ServerView>,
    name: Seq<char>,
    url: Seq<char>,
    key: Seq<char>,
)
    ensures
        ({
            let after = add_server_spec(servers, name, url, key);
            &&& after.last() == (name, url, key)
            &&& forall|j: int| 0 <= j < after.len() ==> (after[j].0 == name <==> j == after.len() - 1)
        }),
{
    lemma_without_name_members(servers, name);
}

/// No two servers share a name.
pub open spec fn names_distinct(servers: Seq<ServerView>) -> bool {
    forall|i: int, j: int| 0 <= i < j < servers.len() ==> #[trigger] servers[i].0 != #[trigger] servers[j].0
}

/// Removing a name from servers with distinct names keeps them distinct,
/// keeps only servers that were there, and removes at most that one server.
proof fn lemma_without_name_distinct(s: Seq<ServerView>, name: Seq<char>)
    requires
        names_distinct(s),
    ensures
        names_distinct(without_name(s, name)),
        forall|j: int|
            0 <= j < without_name(s, name).len() ==> exists|k: int|
                0 <= k < s.len() && s[k] == #[trigger] without_name(s, name)[j],
        without_name(s, name).len() + (if has_server_named(s, name) {
            1int
        } else {
            0int
        }) == s.len(),
    decreases s.len(),
{
    reveal_with_fuel(Seq::<_>::filter, 1);
    if s.len() > 0 {
        let t = s.drop_last();
        let x = s.last();
        assert(names_distinct(t)) by {
            assert forall|i: int, j: int| 0 <= i < j < t.len() implies #[trigger] t[i].0
                != #[trigger] t[j].0 by {
                assert(t[i] == s[i] && t[j] == s[j]);
            }
        }
        lemma_without_name_distinct(t, name);
        let wt = without_name(t, name);
        let ws = without_name(s, name);
        if x.0 == name {
            assert(ws == wt);
            assert(!has_server_named(t, name)) by {
                if has_server_named(t, name) {
                    let j = choose|j: int| 0 <= j < t.len() && t[j].0 == name;
                    assert(s[j].0 != s[s.len() - 1].0);
                }
            }
            assert(has_server_named(s, name)) by {
                assert(s[s.len() - 1].0 == name);
            }
            assert(wt.len() == t.len()) by {
                lemma_without_name_len(t, name);
                lemma_without_absent_name(t, name);
            }
        } else {
            assert(ws == wt.push(x));
            assert(has_server_named(s, name) == has_server_named(t, name)) by {
                if has_server_named(s, name) {
                    let j = choose|j: int| 0 <= j < s.len() && s[j].0 == name;
                    assert(t[j].0 == name);
                }
                if has_server_named(t, name) {
                    let j = choose|j: int| 0 <= j < t.len() && t[j].0 == name;
                    assert(s[j].0 == name);
                }
            }
            assert forall|j: int| 0 <= j < ws.len() implies exists|k: int|
                0 <= k < s.len() && s[k] == #[trigger] ws[j] by {
                if j < wt.len() {
                    assert(ws[j] == wt[j]);
                    let k = choose|k: int| 0 <= k < t.len() && t[k] == wt[j];
                    assert(s[k] == ws[j]);
                } else {
                    assert(s[s.len() - 1] == ws[j]);
                }
            }
            assert forall|i: int, j: int| 0 <= i < j < ws.len() implies #[trigger] ws[i].0
                != #[trigger] ws[j].0 by {
                if j < wt.len() {
                    assert(ws[i] == wt[i] && ws[j] == wt[j]);
                } else {
                    assert(ws[i] == wt[i]);
                    let k = choose|k: int| 0 <= k < t.len() && t[k] == wt[i];
                    assert(s[k] == ws[i]);
                    assert(s[k].0 != s[s.len() - 1].0);
                }
            }
        }
    }
}

/// Without any server named `name`, removing that name keeps every server.
proof fn lemma_without_absent_name(s: Seq<ServerView>, name: Seq<char>)
    requires
        !has_server_named(s, name),
    ensures
        without_name(s, name).len() == s.len(),
{
    assert forall|j: int| 0 <= j < s.len() implies (#[trigger] s[j]).0 != name by {
        if s[j].0 == name {
            assert(has_server_named(s, name));
        }
    }
    lemma_filter_keeps_all(s, name);
}

/// `add_server` keeps server names pairwise distinct; the new name occurs
/// once, last; and the list grows by one only when the name is new (an
/// existing server of that name is replaced).
pub proof fn law_add_server_keeps_names_distinct(
    servers: Seq<ServerView>,
    name: Seq<char>,
    url: Seq<char>,
    key: Seq<char>,
)
    requires
        names_distinct(servers),
    ensures
        ({
            let after = add_server_spec(servers, name, url, key);
            &&& names_distinct(after)
            &&& after.last() == (name, url, key)
            &&& after.len() == servers.len() + (if has_server_named(servers, name) {
                0int
            } else {
                1int
            })
        }),
{
    lemma_without_name_distinct(servers, name);
    lemma_without_name_members(servers, name);
    let w = without_name(servers, name);
    let after = w.push((name, url, key));
    assert forall|i: int, j: int| 0 <= i < j < after.len() implies #[trigger] after[i].0
        != #[trigger] after[j].0 by {
        if j < w.len() {
            assert(after[i] == w[i] && after[j] == w[j]);
        } else {
            assert(after[i] == w[i]);
        }
    }
}

/// After `add_server(name, url, key)`, looking the name up finds the new
/// entry, unless a kept server has `name` as its URL.
pub proof fn law_add_then_find(
    servers: Seq<ServerView>,
    name: Seq<char>,
    url: Seq<char>,
    key: Seq<char>,
)
    requires
        forall|j: int|
            0 <= j < without_name(servers, name).len() ==> (#[trigger] without_name(
                servers,
                name,
            )[j]).1 != name,
    ensures
        ({
            let after = add_server_spec(servers, name, url, key);
            &&& find_server_index(after, name) == Some((after.len() - 1) as nat)
            &&& after[after.len() - 1] == (name, url, key)
        }),
{
    lemma_without_name_members(servers, name);
    let after = add_server_spec(servers, name, url, key);
    lemma_find_server_index_at(after, name, after.len() - 1);
}

/// Removing a name undoes adding it: the other servers are back, in order.
pub proof fn law_remove_undoes_add(
    servers: Seq<ServerView>,
    name: Seq<char>,
    url: Seq<char>,
    key: Seq<char>,
)
    ensures
        without_name(add_server_spec(servers, name, url, key), name) == without_name(servers, name),
{
    let w = without_name(servers, name);
    reveal_with_fuel(Seq::<_>::filter, 1);
    assert(w.push((name, url, key)).drop_last() == w);
    lemma_without_name_members(servers, name);
    lemma_filter_keeps_all(w, name);
}

proof fn lemma_filter_keeps_all(s: Seq<ServerView>, name: Seq<char>)
    requires
        forall|j: int| 0 <= j < s.len() ==> (#[trigger] s[j]).0 != name,
    ensures
        without_name(s, name) == s,
    decreases s.len(),
{
    reveal_with_fuel(Seq::<_>::filter, 1);
    if s.len() > 0 {
        lemma_filter_keeps_all(s.drop_last(), name);
        assert(s.drop_last().push(s.last()) == s);
    }
}

/// After `remove_server(name)` no server is named `name`.
pub proof fn law_remove_clears_name(servers: Seq<ServerView>, name: Seq<char>)
    ensures
        !has_server_named(without_name(servers, name), name),
{
    lemma_without_name_members(servers, name);
}

/// A server and key given on the command line are used as they are.
pub proof fn law_resolve_explicit(
    servers: Seq<ServerView>,
    default_server: Option<Seq<char>>,
    server: Seq<char>,
    key: Seq<char>,
    path: Option<Seq<char>>,
)
    ensures
        resolve_spec(servers, default_server, Some(server), Some(key), path) == Ok::<
            (Seq<char>, Seq<char>),
            Seq<char>,
        >((server, key)),
{
}

/// With neither argument, the default server's URL and key are used once it
/// has been added and made the default (unless a kept server has the default
/// name as its URL).
pub proof fn law_resolve_default_after_add(
    servers: Seq<ServerView>,
    name: Seq<char>,
    url: Seq<char>,
    key: Seq<char>,
    path: Option<Seq<char>>,
)
    requires
        forall|j: int|
            0 <= j < without_name(servers, name).len() ==> (#[trigger] without_name(
                servers,
                name,
            )[j]).1 != name,
    ensures
        resolve_spec(add_server_spec(servers, name, url, key), Some(name), None, None, path) == Ok::<
            (Seq<char>, Seq<char>),
            Seq<char>,
        >((url, key)),
{
    law_add_then_find(servers, name, url, key);
}

} // verus!
