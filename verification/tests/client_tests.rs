use xzar::api_types::{PinResponse, PinRoot, PinStatus};
use xzar::client::{
    bearer_header, choose_parallelism, endpoint_url, normalize_base_url, pin_listing, pin_url,
    pins_url, server_error, stdin_paths, upload_failed_message, upload_form_fields, ErrorBody,
};
use xzar::client_config::{config_path_in, Config, ServerConfig};
use xzar::config::{AllowedOrigins, CorsConfig, OidcFieldMapping, OidcProviderConfig};
use xzar::nix_query::{closure_paths, deriver_name, parse_size, query_answer, reference_names};
use xzar::oidc::{
    base_username, check_callback_params, check_identity, extract_email_from_userinfo,
    extract_name_from_userinfo, generate_random_string, generate_random_token,
    login_redirect_target, plan_provider, redirect_url, resolve_identity, sanitize_username, scope_param,
    username_candidate, UserClaims, STATE_CHARSET,
};
use xzar::pin_tree::{build_pin_tree, child_path, count_label, leaf_name, pin_leaf_view, PinFilter};
use xzar::retry::{after_attempt, first_error, retry_delay_secs, UploadNext};
use xzar::userinfo::userinfo_from_text;
use xzar::sorting::sort_strings;

fn pin(id: i32, name: &str, abandoned: bool, expires: Option<&str>, roots: &[&str]) -> PinResponse {
    PinResponse {
        id,
        name: name.to_string(),
        description: None,
        created: "2024-05-06T07:08:09".to_string(),
        expires: expires.map(|s| s.to_string()),
        abandoned,
        leave_after_abandon: None,
        roots: roots
            .iter()
            .map(|r| PinRoot { drv_id: r[..3].to_string(), drv_full: r.to_string() })
            .collect(),
    }
}

fn config_with_servers() -> Config {
    let mut c = Config::new();
    c.add_server("prod".to_string(), "https://cache.example".to_string(), "k1".to_string());
    c.add_server("dev".to_string(), "http://localhost:8000".to_string(), "k2".to_string());
    c
}

#[test]
fn client_config_servers() {
    let mut c = config_with_servers();
    assert_eq!(c.find_server("prod").map(|s| s.key.as_str()), Some("k1"));
    assert_eq!(c.find_server("http://localhost:8000").map(|s| s.name.as_str()), Some("dev"));
    assert!(c.find_server("nope").is_none());
    c.add_server("prod".to_string(), "https://new.example".to_string(), "k3".to_string());
    assert_eq!(c.servers.len(), 2);
    assert_eq!(c.servers[1].name, "prod");
    assert_eq!(c.find_server("prod").map(|s| s.url.as_str()), Some("https://new.example"));
    c.set_default_server(Some("dev".to_string()));
    assert_eq!(c.default_server().map(|s| s.key.as_str()), Some("k2"));
    assert!(c.remove_server("dev"));
    assert!(c.default_server.is_none());
    assert!(!c.remove_server("dev"));
    let dup: ServerConfig = c.servers[0].duplicate();
    assert_eq!(dup.name, c.servers[0].name);
}

#[test]
fn client_config_resolution() {
    let mut c = config_with_servers();
    assert_eq!(
        c.resolve_server_and_key_at(Some("x"), Some("y"), None),
        Ok(("x".to_string(), "y".to_string()))
    );
    assert_eq!(
        c.resolve_server_and_key_at(Some("prod"), None, None),
        Ok(("https://cache.example".to_string(), "k1".to_string()))
    );
    assert_eq!(
        c.resolve_server_and_key_at(Some("qa"), None, Some("/home/u/.config/xzar.toml")),
        Err("Server 'qa' not found in config. Specify --key or add server to /home/u/.config/xzar.toml".to_string())
    );
    assert_eq!(
        c.resolve_server_and_key_at(None, Some("k"), None),
        Err("--server is required when --key is specified".to_string())
    );
    assert_eq!(
        c.resolve_server_and_key_at(None, None, None),
        Err("No --server specified and no default_server in config. Specify --server and --key, or configure servers in config file".to_string())
    );
    c.set_default_server(Some("gone".to_string()));
    assert_eq!(
        c.resolve_server_and_key_at(None, None, None),
        Err("Default server 'gone' not found in config".to_string())
    );
    c.set_default_server(Some("dev".to_string()));
    assert_eq!(
        c.resolve_server_and_key(None, None),
        Ok(("http://localhost:8000".to_string(), "k2".to_string()))
    );
}

#[test]
fn client_requests() {
    assert_eq!(normalize_base_url("https://c.example///"), "https://c.example");
    assert_eq!(endpoint_url("https://c.example", "/check"), "https://c.example/check");
    assert_eq!(pins_url("http://h:1/"), "http://h:1/pins");
    assert_eq!(pin_url("http://h:1", -3), "http://h:1/pins/-3");
    assert_eq!(bearer_header("k"), "Bearer k");
    let e = ErrorBody { error: Some("Not Found".to_string()), message: Some("gone".to_string()) };
    assert_eq!(server_error("404 Not Found", Some(&e), "{}"), "Server error (404 Not Found): gone");
    let e = ErrorBody { error: Some("Not Found".to_string()), message: None };
    assert_eq!(server_error("404 Not Found", Some(&e), "{}"), "Server error (404 Not Found): Not Found");
    let e = ErrorBody { error: None, message: None };
    assert_eq!(server_error("500 x", Some(&e), "{}"), "Server error (500 x): Unknown error");
    assert_eq!(server_error("502 Bad Gateway", None, "oops"), "Server error (502 Bad Gateway): oops");
    assert_eq!(upload_failed_message("400 Bad Request", "no"), "Upload failed (400 Bad Request): no");
    let refs = vec!["r1".to_string(), "r2".to_string()];
    let fields = upload_form_fields(-1, "abc-x", "sha256-h", 99, "d.drv", &refs);
    let expected: Vec<(String, String)> = [
        ("lock", "-1"),
        ("drvFull", "abc-x"),
        ("hash", "sha256-h"),
        ("size", "99"),
        ("deriver", "d.drv"),
        ("compression", "xz"),
        ("references[]", "r1"),
        ("references[]", "r2"),
    ]
    .iter()
    .map(|(a, b)| (a.to_string(), b.to_string()))
    .collect();
    assert_eq!(fields, expected);
}

#[test]
fn client_cli_input() {
    let lines = vec![" /nix/store/a ".to_string(), "".to_string(), "\t".to_string(), "/nix/store/b\r".to_string()];
    assert_eq!(stdin_paths(&lines), vec!["/nix/store/a".to_string(), "/nix/store/b".to_string()]);
    assert_eq!(choose_parallelism(true, 8), 8);
    assert_eq!(choose_parallelism(false, 8), 1);
}

#[test]
fn pin_listing_output() {
    assert_eq!(pin_listing(&vec![]), "No pins found.\n");
    let mut p = pin(4, "ci/main", false, Some("2024-06-01"), &["aaa-x", "bbb-y"]);
    p.description = Some("nightly".to_string());
    let q = pin(5, "old", true, None, &[]);
    assert_eq!(p.status(), PinStatus::Expiring);
    assert_eq!(q.status().label(), "abandoned");
    assert_eq!(
        pin_listing(&vec![p, q]),
        "ci/main (4) - 2 roots [expiring]\n  Description: nightly\n  Created: 2024-05-06T07:08:09\n  Expires: 2024-06-01\n    /nix/store/aaa-x\n    /nix/store/bbb-y\n\nold (5) - 0 roots [abandoned]\n  Created: 2024-05-06T07:08:09\n\n"
    );
    let mut kept = pin(6, "test-hello", false, None, &["ccc-hello"]);
    kept.leave_after_abandon = Some(604_800_000);
    let text = pin_listing(&vec![kept]);
    assert!(text.contains("  Leave after abandon: 1w\n"), "{}", text);
    assert_eq!(
        text,
        "test-hello (6) - 1 roots [active]\n  Created: 2024-05-06T07:08:09\n  Leave after abandon: 1w\n    /nix/store/ccc-hello\n\n"
    );
}

#[test]
fn nix_store_query_output() {
    assert_eq!(
        closure_paths("/nix/store/a\n\n  /nix/store/b  \r\n"),
        vec!["/nix/store/a".to_string(), "/nix/store/b".to_string()]
    );
    assert_eq!(closure_paths(""), Vec::<String>::new());
    assert_eq!(
        reference_names("/nix/store/aaa-x\n/nix/store/bbb-y\n/\n"),
        vec!["aaa-x".to_string(), "bbb-y".to_string()]
    );
    assert_eq!(deriver_name("/nix/store/ccc-x.drv"), "ccc-x.drv");
    assert_eq!(deriver_name("unknown-deriver"), "");
    assert_eq!(deriver_name(""), "");
    assert_eq!(parse_size("12345"), Ok(12345));
    assert_eq!(parse_size("12k"), Err("Failed to parse size".to_string()));
    assert_eq!(query_answer("  sha256:x\n", 0), Some("sha256:x".to_string()));
    assert_eq!(query_answer(" \n", 0), None);
    assert_eq!(query_answer(" \n", 1), None);
    assert_eq!(query_answer(" \n", 2), Some(String::new()));
}

#[test]
fn upload_retries() {
    assert_eq!(retry_delay_secs(0), 0);
    assert_eq!(retry_delay_secs(1), 5);
    assert_eq!(retry_delay_secs(2), 10);
    assert_eq!(retry_delay_secs(3), 20);
    assert_eq!(after_attempt("p", 0, None), UploadNext::Uploaded);
    assert_eq!(
        after_attempt("p", 0, Some("boom".to_string())),
        UploadNext::Retry { attempt: 1, delay_secs: 5 }
    );
    assert_eq!(
        after_attempt("p", 2, Some("boom".to_string())),
        UploadNext::Retry { attempt: 3, delay_secs: 20 }
    );
    assert_eq!(
        after_attempt("/nix/store/p", 3, Some("boom".to_string())),
        UploadNext::GiveUp {
            message: "Failed to upload /nix/store/p after 4 attempts".to_string(),
            cause: "boom".to_string()
        }
    );
    assert_eq!(first_error(&vec![Ok(()), Err("a".to_string()), Err("b".to_string())]), Some("a".to_string()));
    assert_eq!(first_error(&vec![Ok(()), Ok(())]), None);
}

#[test]
fn pin_tree_counts() {
    let pins = vec![
        pin(1, "ci/main", false, None, &["aaa"]),
        pin(2, "ci/main", true, None, &["aaa"]),
        pin(3, "ci/dev/x", false, Some("e"), &["aaa"]),
        pin(4, "top", true, None, &[]),
    ];
    let tree = build_pin_tree(pins);
    let root: Vec<String> = vec![];
    let ci = vec!["ci".to_string()];
    assert_eq!(tree.total_pins(&root), 4);
    assert_eq!(tree.active_pins(&root), 2);
    assert_eq!(tree.abandoned_pins(&root), 2);
    assert_eq!(tree.count_pins(&ci, PinFilter::All), 3);
    assert!(tree.has_active_pins(&ci));
    assert!(!tree.has_active_pins(&vec!["top".to_string()]));
    assert_eq!(tree.child_names(&root), vec!["ci".to_string(), "top".to_string()]);
    assert_eq!(tree.child_names(&ci), vec!["dev".to_string(), "main".to_string()]);
    assert_eq!(tree.pins_at(&vec!["ci".to_string(), "main".to_string()]).len(), 2);
    assert_eq!(leaf_name("ci/dev/x"), "x");
    assert_eq!(leaf_name("plain"), "plain");
    assert_eq!(child_path("", "ci"), "ci");
    assert_eq!(child_path("ci", "dev"), "ci/dev");
    assert_eq!(count_label(1, "root"), "1 root");
    assert_eq!(count_label(3, "store path"), "3 store paths");
    assert_eq!(count_label(0, "root"), "0 roots");
}

#[test]
fn sorting_strings() {
    let v = vec!["b".to_string(), "a".to_string(), "ab".to_string(), "B".to_string()];
    assert_eq!(sort_strings(&v), vec!["B", "a", "ab", "b"]);
}

#[test]
fn oidc_random_values() {
    let t = generate_random_token();
    assert_eq!(t.len(), 64);
    assert!(t.chars().all(|c| c.is_ascii_hexdigit() && !c.is_ascii_uppercase()));
    assert_ne!(generate_random_token(), t);
    let s = generate_random_string(32);
    assert_eq!(s.chars().count(), 32);
    assert!(s.chars().all(|c| STATE_CHARSET.contains(&c)));
    assert_eq!(generate_random_string(0), "");
}

#[test]
fn oidc_user_names() {
    assert_eq!(sanitize_username("J\u{f6}rg M\u{fc}ller!"), "J\u{f6}rgM\u{fc}ller");
    assert_eq!(sanitize_username("a.b-c_d e@f"), "a.b-c_def");
    assert_eq!(sanitize_username(&"x".repeat(70)), "x".repeat(64));
    assert_eq!(base_username(Some("Alice Smith"), "sub123"), "AliceSmith");
    assert_eq!(base_username(Some("!!!"), "0123456789"), "user_01234567");
    assert_eq!(base_username(None, "abc"), "user_abc");
    assert_eq!(username_candidate("alice", 0), Ok("alice".to_string()));
    assert_eq!(username_candidate("alice", 7), Ok("alice_7".to_string()));
    assert_eq!(username_candidate("alice", 999), Ok("alice_999".to_string()));
    assert_eq!(username_candidate("alice", 1000), Err("Could not generate unique username".to_string()));
    assert_eq!(resolve_identity(Some(Some(3)), false), Ok(Some(3)));
    assert_eq!(
        resolve_identity(Some(None), true),
        Err("Identity exists but has no associated user".to_string())
    );
    assert_eq!(resolve_identity(None, true), Ok(None));
    assert_eq!(
        resolve_identity(None, false),
        Err("User not found and auto-creation is disabled".to_string())
    );
}

#[test]
fn oidc_login_steps() {
    assert_eq!(
        redirect_url(Some("https://cache.example/"), "gh"),
        "https://cache.example/auth/oidc/gh/callback"
    );
    assert_eq!(redirect_url(None, "gh"), "http://localhost:17788/auth/oidc/gh/callback");
    assert_eq!(scope_param(&vec!["openid".to_string(), "email".to_string()]), "openid email");
    assert_eq!(scope_param(&vec![]), "");
    assert_eq!(
        check_callback_params(Some("c".to_string()), Some("s".to_string()), None, None),
        Ok(("c".to_string(), "s".to_string()))
    );
    assert_eq!(
        check_callback_params(None, None, Some("access_denied".to_string()), None),
        Err((400, "OIDC error: access_denied - Unknown error".to_string()))
    );
    assert_eq!(
        check_callback_params(None, Some("s".to_string()), None, None),
        Err((400, "Missing authorization code".to_string()))
    );
    assert_eq!(
        check_callback_params(Some("c".to_string()), None, None, None),
        Err((400, "Missing state parameter".to_string()))
    );
    assert_eq!(login_redirect_target(None), "/");
    assert_eq!(login_redirect_target(Some("/ui".to_string())), "/ui");
    let mapping = OidcFieldMapping::default();
    let claims = UserClaims {
        sub: Some("s-1".to_string()),
        name: Some("Full Name".to_string()),
        nickname: None,
        preferred_username: None,
        email: Some("jo@example.org".to_string()),
    };
    assert_eq!(extract_email_from_userinfo(Some(&claims), &mapping), Some("jo@example.org".to_string()));
    assert_eq!(extract_name_from_userinfo(Some(&claims), &mapping), Some("Full Name".to_string()));
    let only_email = UserClaims { name: None, ..claims.clone() };
    assert_eq!(extract_name_from_userinfo(Some(&only_email), &mapping), Some("jo".to_string()));
    assert_eq!(extract_name_from_userinfo(None, &mapping), None);
    let by_name = OidcFieldMapping {
        subject_claim: "sub".to_string(),
        name_claim: "name".to_string(),
        email_claim: "mail".to_string(),
    };
    let preferred_only = UserClaims {
        sub: Some("s".to_string()),
        name: None,
        nickname: Some("nick".to_string()),
        preferred_username: Some("pref".to_string()),
        email: None,
    };
    assert_eq!(extract_name_from_userinfo(Some(&preferred_only), &by_name), Some("pref".to_string()));
    assert_eq!(extract_email_from_userinfo(Some(&claims), &by_name), None);
    assert!(check_identity(&None, &Some("e".to_string()), &mapping).is_ok());
    assert_eq!(
        check_identity(&None, &None, &mapping),
        Err((400, "Cannot establish user identity: no name or email available from provider. Check that the provider returns the configured claims (preferred_username, email).".to_string()))
    );
}

#[test]
fn cors_origins() {
    let all = CorsConfig { enabled: true, origins: vec![] };
    assert!(matches!(all.allowed_origins(), AllowedOrigins::All));
    let some = CorsConfig { enabled: true, origins: vec!["https://a".to_string()] };
    match some.allowed_origins() {
        AllowedOrigins::Exact(v) => assert_eq!(v, vec!["https://a".to_string()]),
        AllowedOrigins::All => panic!("expected exact origins"),
    }
}

fn provider(discover: bool) -> OidcProviderConfig {
    OidcProviderConfig {
        id: "gh".to_string(),
        name: "GitHub".to_string(),
        issuer_url: "https://github.com".to_string(),
        client_id: "cid".to_string(),
        client_secret: "secret".to_string(),
        discover,
        authorization_endpoint: None,
        token_endpoint: None,
        userinfo_endpoint: None,
        jwks_uri: None,
        scopes: vec!["openid".to_string()],
        mapping: OidcFieldMapping::default(),
        auto_create_user: true,
        new_users_admin: false,
    }
}

#[test]
fn oidc_provider_plans() {
    let plan = plan_provider(&provider(true), Some("https://cache.example")).unwrap();
    assert_eq!(plan.redirect_url, "https://cache.example/auth/oidc/gh/callback");
    assert!(plan.manual.is_none());

    assert_eq!(
        plan_provider(&provider(false), None).unwrap_err(),
        "authorization_endpoint required when discover=false for gh"
    );
    let mut p = provider(false);
    p.authorization_endpoint = Some("https://github.com/login/oauth/authorize".to_string());
    assert_eq!(plan_provider(&p, None).unwrap_err(), "token_endpoint required when discover=false for gh");
    p.token_endpoint = Some("https://github.com/login/oauth/access_token".to_string());
    p.userinfo_endpoint = Some("https://api.github.com/user".to_string());
    let plan = plan_provider(&p, None).unwrap();
    let manual = plan.manual.unwrap();
    assert_eq!(manual.token_endpoint, "https://github.com/login/oauth/access_token");
    assert_eq!(manual.userinfo_endpoint.as_deref(), Some("https://api.github.com/user"));
    assert_eq!(plan.redirect_url, "http://localhost:17788/auth/oidc/gh/callback");

    let mut bad = provider(true);
    bad.issuer_url = "not a url".to_string();
    let expected = format!("Invalid issuer URL for gh: {}", url::Url::parse("not a url").unwrap_err());
    assert_eq!(plan_provider(&bad, None).unwrap_err(), expected);
    let mut bad_jwks = p;
    bad_jwks.jwks_uri = Some("::".to_string());
    let expected = format!("Invalid jwks_uri for gh: {}", url::Url::parse("::").unwrap_err());
    assert_eq!(plan_provider(&bad_jwks, None).unwrap_err(), expected);
}

#[test]
fn client_config_file_location() {
    assert_eq!(config_path_in(Some("/home/u/.config")).as_deref(), Some("/home/u/.config/xzar.toml"));
    assert_eq!(config_path_in(Some("/home/u/.config/")).as_deref(), Some("/home/u/.config/xzar.toml"));
    assert_eq!(config_path_in(None), None);
}

#[test]
fn add_server_keeps_names_distinct() {
    let mut c = config_with_servers();
    c.add_server("stage".to_string(), "https://stage".to_string(), "k4".to_string());
    assert_eq!(c.servers.len(), 3);
    c.add_server("dev".to_string(), "https://dev2".to_string(), "k5".to_string());
    assert_eq!(c.servers.len(), 3);
    let names: Vec<&str> = c.servers.iter().map(|s| s.name.as_str()).collect();
    assert_eq!(names, vec!["prod", "stage", "dev"]);
    assert_eq!(c.servers[2].url, "https://dev2");
}

#[test]
fn userinfo_responses_are_read() {
    let std = userinfo_from_text(r#"{"sub":"u-1","preferred_username":"alice","email":"a@x","nickname":"al"}"#).unwrap();
    assert_eq!(std.sub.as_deref(), Some("u-1"));
    assert_eq!(std.preferred_username.as_deref(), Some("alice"));
    assert_eq!(std.nickname.as_deref(), Some("al"));
    assert_eq!(std.email.as_deref(), Some("a@x"));
    // GitHub-style user JSON: `updated_at` is not a number, so the standard
    // claims do not parse and the OAuth2 fields are read.
    let gh = userinfo_from_text(
        r#"{"id":42,"login":"octo","name":"Octo Cat","email":null,"updated_at":"2011-01-25T18:44:36Z"}"#,
    )
    .unwrap();
    assert_eq!(gh.sub.as_deref(), Some("42"));
    assert_eq!(gh.preferred_username.as_deref(), Some("octo"));
    assert_eq!(gh.name.as_deref(), Some("Octo Cat"));
    assert_eq!(gh.email, None);
    assert_eq!(gh.nickname, None);
    let by_sub = userinfo_from_text(r#"{"sub":"s-9","updated_at":"x"}"#).unwrap();
    assert_eq!(by_sub.sub.as_deref(), Some("s-9"));
    assert!(userinfo_from_text("not json").is_none());
}

#[test]
fn pin_leaves_show_status_and_actions() {
    let mut p = pin(7, "ci/main/nightly", false, None, &["aaa-x"]);
    p.leave_after_abandon = Some(604_800_000);
    let v = pin_leaf_view(&p);
    assert_eq!(v.status, PinStatus::Active);
    assert_eq!(v.badge, "\u{2713}");
    assert_eq!(v.icon, "\u{1f4cc}");
    assert_eq!(v.title, "nightly");
    assert_eq!(v.roots_label, "1 root");
    assert_eq!(v.paths_label.as_deref(), Some("1 store path"));
    assert!(v.can_abandon);
    assert_eq!(v.leave_after_abandon.as_deref(), Some("1w"));

    let q = pin(8, "old", true, Some("2024-06-01"), &[]);
    let w = pin_leaf_view(&q);
    assert_eq!(w.status, PinStatus::Abandoned);
    assert_eq!(w.badge, "\u{1f5d1}\u{fe0f}");
    assert_eq!(w.icon, "\u{1f4e6}");
    assert_eq!(w.roots_label, "0 roots");
    assert_eq!(w.paths_label, None);
    assert!(!w.can_abandon);
    assert_eq!(w.leave_after_abandon, None);

    let e = pin_leaf_view(&pin(9, "exp", false, Some("2024-06-01"), &["a-1", "b-2"]));
    assert_eq!(e.badge, "\u{23f3}");
    assert_eq!(e.roots_label, "2 roots");
}
