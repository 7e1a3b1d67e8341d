use xzar::admin::{
    admin_token_response, admin_user_response, check_user_update, new_token, new_user,
    plan_token, require_token, require_token_user, self_response, token_permission_update,
    validate_user_name, CreateTokenRequest, CreateUserRequest, TokenGrant, UpdateTokenRequest,
    UpdateUserRequest,
};
use xzar::admin_cli::{
    check_token_target, revoke_message, token_created_message, token_table, unknown_user_message,
    user_change_message, user_created_message, user_table, TokenListRow, UserChange,
};
use xzar::auth::{
    admin_outcome, anonymous_outcome, auth_plan, bearer_token, hash_token, lookup_outcome,
    read_outcome, select_credential, token_entity, write_outcome, AuthOutcome, AuthPlan,
    Credential, TokenStore,
};
use xzar::config::TokenConfig;
use xzar::error::{status_reason, AppError};
use xzar::gc::{gc_next, gc_start, GcReport, GcStep};
use xzar::models::{AuthenticatedEntity, Token, User};
use xzar::narinfo::{
    derivation_not_found, nar_content_type, nar_missing, nar_not_found, narinfo_drv_id,
    nix_cache_info, render_narinfo, stored_file_not_found, Drv, NarContentType,
};
use xzar::pins::{
    abandon_expiry, lock_deadline, pin_expiry, time_after,
    check_request_ids, check_roots_present, paths_needing_upload, require_affected,
    require_lock_cleared, validate_finalize, FinalizePinRequest,
};
use xzar::storage::{join_path, FileStorage, Storage, WriteGuard};
use xzar::store_path::{basename, extract_drv_id};
use xzar::ui::{content_type_for_path, get_embedded_file, get_index_html, is_ui_embedded, UiContentType};
use xzar::upload::nar_file_name;

fn user(id: i32, name: &str, is_admin: bool) -> User {
    User {
        id,
        name: name.to_string(),
        is_admin,
        created: "2024-01-02 03:04:05".to_string(),
        email: None,
    }
}

fn token(id: i32, user_id: Option<i32>, is_system: bool, can_read: bool, can_write: bool) -> Token {
    Token {
        id,
        user_id,
        token_hash: "h".to_string(),
        is_system,
        description: Some("ci".to_string()),
        created: "2024-01-02 03:04:05".to_string(),
        can_read,
        can_write,
    }
}

fn bad_request(r: Result<(), AppError>) -> String {
    match r {
        Err(AppError::BadRequest(m)) => m,
        other => panic!("expected a bad request, got {:?}", other),
    }
}

#[test]
fn user_names_are_checked_by_bytes() {
    assert!(validate_user_name("alice").is_ok());
    assert!(validate_user_name(&"a".repeat(128)).is_ok());
    assert_eq!(bad_request(validate_user_name("")), "Name must be 1-128 characters");
    assert_eq!(bad_request(validate_user_name(&"a".repeat(129))), "Name must be 1-128 characters");
    assert_eq!(bad_request(validate_user_name(&"\u{e9}".repeat(65))), "Name must be 1-128 characters");
    let u = new_user(&CreateUserRequest { name: "bob".to_string(), is_admin: true }).unwrap();
    assert_eq!(u.name, "bob");
    assert!(u.is_admin);
}

#[test]
fn user_updates_are_checked_in_order() {
    let ok = UpdateUserRequest { name: Some("x".to_string()), is_admin: None, email: Some(None) };
    assert!(check_user_update(true, &ok).is_ok());
    match check_user_update(false, &ok) {
        Err(AppError::NotFound(m)) => assert_eq!(m, "User not found"),
        other => panic!("unexpected {:?}", other),
    }
    let bad_name = UpdateUserRequest { name: Some(String::new()), is_admin: None, email: None };
    assert_eq!(bad_request(check_user_update(true, &bad_name)), "Name must be 1-128 characters");
    let bad_email = UpdateUserRequest {
        name: None,
        is_admin: Some(true),
        email: Some(Some("e".repeat(257))),
    };
    assert_eq!(
        bad_request(check_user_update(true, &bad_email)),
        "Email must be at most 256 characters"
    );
}

#[test]
fn token_grants_default_to_full_access() {
    let req = CreateTokenRequest { user_id: None, description: None, can_read: None, can_write: None };
    assert_eq!(
        plan_token(&req).unwrap(),
        TokenGrant { is_system: true, can_read: true, can_write: true }
    );
    let req = CreateTokenRequest {
        user_id: Some(4),
        description: Some("d".to_string()),
        can_read: Some(true),
        can_write: Some(false),
    };
    let grant = plan_token(&req).unwrap();
    assert_eq!(grant, TokenGrant { is_system: false, can_read: true, can_write: false });
    let t = new_token(&req, grant, "abc");
    assert_eq!(t.user_id, Some(4));
    assert_eq!(t.token_hash, hash_token("abc"));
    assert_ne!(t.token_hash, "abc");
    assert_eq!(t.description.as_deref(), Some("d"));
    assert!(t.can_read && !t.can_write && !t.is_system);
    let none = CreateTokenRequest {
        user_id: None,
        description: None,
        can_read: Some(false),
        can_write: Some(false),
    };
    match plan_token(&none) {
        Err(AppError::BadRequest(m)) => {
            assert_eq!(m, "Token must have at least one of can_read or can_write")
        }
        other => panic!("unexpected {:?}", other),
    }
    assert!(require_token_user(true).is_ok());
    assert_eq!(bad_request(require_token_user(false)), "User not found");
}

#[test]
fn token_permission_updates_keep_unset_values() {
    let existing = token(1, None, true, true, false);
    let nothing = UpdateTokenRequest { description: Some("x".to_string()), can_read: None, can_write: None };
    assert_eq!(token_permission_update(&existing, &nothing).unwrap(), None);
    let write = UpdateTokenRequest { description: None, can_read: None, can_write: Some(true) };
    assert_eq!(token_permission_update(&existing, &write).unwrap(), Some((true, true)));
    let revoke_read = UpdateTokenRequest { description: None, can_read: Some(false), can_write: None };
    match token_permission_update(&existing, &revoke_read) {
        Err(AppError::BadRequest(m)) => {
            assert_eq!(m, "Token must have at least one of can_read or can_write")
        }
        other => panic!("unexpected {:?}", other),
    }
    assert_eq!(require_token(Some(5)).unwrap(), 5);
    match require_token::<i32>(None) {
        Err(AppError::NotFound(m)) => assert_eq!(m, "Token not found"),
        other => panic!("unexpected {:?}", other),
    }
}

#[test]
fn admin_responses_copy_the_records() {
    let u = user(3, "carol", false);
    let r = admin_user_response(&u);
    assert_eq!((r.id, r.name.as_str(), r.is_admin), (3, "carol", false));
    assert_eq!(r.created, "2024-01-02 03:04:05");
    let t = token(9, Some(3), false, true, true);
    let tr = admin_token_response(&t, Some(&u));
    assert_eq!(tr.user_name.as_deref(), Some("carol"));
    assert_eq!(tr.description.as_deref(), Some("ci"));
    assert_eq!((tr.id, tr.user_id, tr.is_system), (9, Some(3), false));
    let sys = admin_token_response(&token(1, None, true, true, false), None);
    assert_eq!(sys.user_name, None);
    assert!(!sys.can_write);
}

#[test]
fn self_response_describes_the_credential() {
    let sys = AuthenticatedEntity::System { token_id: 0, can_read: true, can_write: false };
    let r = self_response(&sys);
    assert_eq!(r.credential_type, "system");
    assert!(r.is_admin && r.can_read && !r.can_write && r.user.is_none());
    let sess = AuthenticatedEntity::Session { session_id: 2, user: user(8, "dan", false) };
    let r = self_response(&sess);
    assert_eq!(r.credential_type, "session");
    assert!(!r.is_admin && r.can_read && r.can_write);
    let info = r.user.unwrap();
    assert_eq!((info.id, info.name.as_str()), (8, "dan"));
    let tok = AuthenticatedEntity::User {
        token_id: 4,
        user: user(9, "eve", true),
        can_read: false,
        can_write: true,
    };
    let r = self_response(&tok);
    assert_eq!(r.credential_type, "user");
    assert!(r.is_admin && !r.can_read && r.can_write);
    assert_eq!(tok.token_id(), Some(4));
    assert_eq!(sess.token_id(), None);
}

#[test]
fn credentials_are_taken_by_priority() {
    assert_eq!(bearer_token("Bearer abc"), Some("abc".to_string()));
    assert_eq!(bearer_token("Basic abc"), None);
    assert_eq!(
        select_credential(Some("Bearer h"), Some("c"), Some("s")),
        Credential::Token("h".to_string())
    );
    assert_eq!(
        select_credential(Some("Basic h"), Some("c"), Some("s")),
        Credential::Token("c".to_string())
    );
    assert_eq!(select_credential(None, None, Some("s")), Credential::Session("s".to_string()));
    assert_eq!(select_credential(None, None, None), Credential::Anonymous);
}

#[test]
fn authentication_steps() {
    let none = TokenStore::new(Vec::new());
    assert!(matches!(auth_plan(false, true, &Credential::Anonymous, &none), AuthPlan::Fail(500)));
    assert!(matches!(auth_plan(true, false, &Credential::Anonymous, &none), AuthPlan::Fail(503)));
    match auth_plan(true, true, &Credential::Token("t".to_string()), &none) {
        AuthPlan::LookUpToken(h) => assert_eq!(h, hash_token("t")),
        other => panic!("unexpected {:?}", other),
    }
    match auth_plan(true, true, &Credential::Session("s".to_string()), &none) {
        AuthPlan::LookUpSession(h) => assert_eq!(h, hash_token("s")),
        other => panic!("unexpected {:?}", other),
    }
    assert!(matches!(auth_plan(true, true, &Credential::Anonymous, &none), AuthPlan::CountTokens));
    assert!(matches!(lookup_outcome(None), AuthOutcome::Failure(401)));
    assert!(matches!(anonymous_outcome(false, Some(3)), AuthOutcome::Failure(401)));
    match anonymous_outcome(false, Some(0)) {
        AuthOutcome::Success(AuthenticatedEntity::System { token_id: 0, can_read: true, can_write: true }) => {}
        other => panic!("unexpected {:?}", other),
    }
    assert!(matches!(anonymous_outcome(false, None), AuthOutcome::Success(_)));
}

#[test]
fn configured_upload_tokens_authenticate() {
    let config_tokens = vec![
        TokenConfig::Hashed { hashed: hash_token("secret-upload") },
        TokenConfig::Plain { plain: "plain-upload".to_string() },
    ];
    let hashes: Vec<String> = config_tokens
        .iter()
        .map(|t| match t {
            TokenConfig::Hashed { hashed } => hashed.clone(),
            TokenConfig::Plain { plain } => hash_token(plain),
        })
        .collect();
    let store = TokenStore::new(hashes);
    assert!(store.contains(&hash_token("plain-upload")));
    assert!(!store.contains(&hash_token("other")));
    assert!(!store.is_empty());
    for raw in ["secret-upload", "plain-upload"] {
        match auth_plan(false, false, &Credential::Token(raw.to_string()), &store) {
            AuthPlan::Accept(AuthenticatedEntity::System { token_id: 0, can_read: true, can_write: true }) => {}
            other => panic!("unexpected {:?}", other),
        }
    }
    match auth_plan(true, true, &Credential::Token("wrong-token".to_string()), &store) {
        AuthPlan::LookUpToken(h) => assert_eq!(h, hash_token("wrong-token")),
        other => panic!("unexpected {:?}", other),
    }
    // With an upload token configured, an anonymous request is refused even
    // when the database holds no token.
    assert!(matches!(anonymous_outcome(!store.is_empty(), Some(0)), AuthOutcome::Failure(401)));
    assert!(matches!(anonymous_outcome(true, None), AuthOutcome::Failure(401)));
}

#[test]
fn stored_tokens_become_entities() {
    let sys = token_entity(token(1, None, true, true, false), None).unwrap();
    assert!(matches!(sys, AuthenticatedEntity::System { token_id: 1, can_read: true, can_write: false }));
    let u = token_entity(token(2, Some(5), false, false, true), Some(user(5, "f", false))).unwrap();
    assert!(!u.can_read() && u.can_write() && !u.is_admin());
    assert!(token_entity(token(3, None, false, true, true), None).is_none());
    assert!(token_entity(token(4, Some(5), true, true, true), Some(user(5, "f", false))).is_none());
}

#[test]
fn guards_forbid_missing_rights() {
    let reader = AuthenticatedEntity::System { token_id: 1, can_read: true, can_write: false };
    let plain = AuthenticatedEntity::User {
        token_id: 2,
        user: user(1, "g", false),
        can_read: false,
        can_write: true,
    };
    assert!(matches!(write_outcome(AuthOutcome::Success(reader.clone())), AuthOutcome::Failure(403)));
    assert!(matches!(read_outcome(AuthOutcome::Success(reader.clone())), AuthOutcome::Success(_)));
    assert!(matches!(read_outcome(AuthOutcome::Success(plain.clone())), AuthOutcome::Failure(403)));
    assert!(matches!(admin_outcome(AuthOutcome::Success(plain)), AuthOutcome::Failure(403)));
    assert!(matches!(admin_outcome(AuthOutcome::Success(reader)), AuthOutcome::Success(_)));
    assert!(matches!(admin_outcome(AuthOutcome::Failure(401)), AuthOutcome::Failure(401)));
}

#[test]
fn errors_are_answered_with_status_and_message() {
    let (s, body) = AppError::NotFound("x".to_string()).respond();
    assert_eq!(s, 404);
    assert_eq!(body.error, "Not Found");
    assert_eq!(body.message.as_deref(), Some("x"));
    let (s, body) = AppError::Database("secret detail".to_string()).respond();
    assert_eq!(s, 500);
    assert_eq!(body.message.as_deref(), Some("Database error"));
    assert_eq!(AppError::LockNotFound.status_and_message(), (404, "Lock not found or expired".to_string()));
    assert_eq!(AppError::Unauthorized.status_and_message(), (401, "Unauthorized".to_string()));
    assert_eq!(AppError::Multipart("m".to_string()).status_and_message().0, 400);
    assert_eq!(status_reason(503), "Service Unavailable");
    assert_eq!(status_reason(418), "Error");
}

#[test]
fn admin_cli_tables() {
    let users = vec![user(1, "root", true), user(22, "bob", false)];
    let expected = format!(
        "{:<6} {:<30} {:<8} {}\n{}\n{:<6} {:<30} {:<8} {}\n{:<6} {:<30} {:<8} {}\n",
        "ID", "Name", "Admin", "Created", "-".repeat(60),
        1, "root", true, "2024-01-02 03:04:05",
        22, "bob", false, "2024-01-02 03:04:05"
    );
    assert_eq!(user_table(&users), expected);
    let rows = vec![
        TokenListRow {
            id: 5,
            user_name: None,
            is_system: true,
            created: "2024-01-02 03:04".to_string(),
            description: Some("deploy".to_string()),
        },
        TokenListRow {
            id: 6,
            user_name: Some("bob".to_string()),
            is_system: false,
            created: "2024-02-03 04:05".to_string(),
            description: None,
        },
    ];
    let expected = format!(
        "{:<6} {:<20} {:<8} {:<20} {}\n{}\n{:<6} {:<20} {:<8} {:<20} {}\n{:<6} {:<20} {:<8} {:<20} {}\n",
        "ID", "User", "System", "Created", "Description", "-".repeat(80),
        5, "-", true, "2024-01-02 03:04", "deploy",
        6, "bob", false, "2024-02-03 04:05", ""
    );
    assert_eq!(token_table(&rows), expected);
}

#[test]
fn admin_cli_messages() {
    assert_eq!(user_created_message(&user(3, "ann", true)), "Created user 'ann' (id: 3, admin: true)");
    assert_eq!(user_change_message(UserChange::Delete, "ann", 1), Ok("Deleted user 'ann'".to_string()));
    assert_eq!(user_change_message(UserChange::Promote, "ann", 1), Ok("Promoted 'ann' to admin".to_string()));
    assert_eq!(user_change_message(UserChange::Demote, "ann", 2), Ok("Demoted 'ann' from admin".to_string()));
    assert_eq!(user_change_message(UserChange::Demote, "zed", 0), Err("User 'zed' not found".to_string()));
    assert_eq!(check_token_target(Some("a"), true), Err("Cannot specify both --user and --system".to_string()));
    assert_eq!(check_token_target(None, false), Err("Must specify either --user or --system".to_string()));
    assert_eq!(check_token_target(Some("a"), false), Ok(()));
    assert_eq!(check_token_target(None, true), Ok(()));
    assert_eq!(unknown_user_message("q"), "User 'q' not found");
    assert_eq!(
        token_created_message(12, "tok"),
        "Created token (id: 12)\nToken: tok\n\nSave this token - it cannot be recovered!"
    );
    assert_eq!(revoke_message(7, 1), Ok("Revoked token 7".to_string()));
    assert_eq!(revoke_message(-7, 0), Err("Token -7 not found".to_string()));
}

#[test]
fn garbage_collection_steps() {
    let mut step = gc_start();
    assert_eq!(step, GcStep::DeleteExpiredLocks);
    let mut seen = vec![step];
    let reports = [
        GcReport::Completed,
        GcReport::Completed,
        GcReport::Completed,
        GcReport::Completed,
        GcReport::Completed,
        GcReport::Completed,
        GcReport::NoOrphan,
    ];
    for r in reports {
        step = gc_next(step, r);
        seen.push(step);
    }
    assert_eq!(
        seen,
        vec![
            GcStep::DeleteExpiredLocks,
            GcStep::DeleteExpiredPins,
            GcStep::FindOrphan,
            GcStep::RemoveOrphan,
            GcStep::FindOrphan,
            GcStep::RemoveOrphan,
            GcStep::FindOrphan,
            GcStep::Done,
        ]
    );
    assert_eq!(gc_next(GcStep::DeleteExpiredPins, GcReport::Failed), GcStep::Done);
}

#[test]
fn narinfo_documents() {
    assert_eq!(nix_cache_info(), "StoreDir: /nix/store\nWantMassQuery: 1\nPriority: 30\n");
    let d = Drv {
        drv_id: "abc".to_string(),
        drv_full: "abc-hello-2.12".to_string(),
        nar_hash: "sha256:nh".to_string(),
        nar_size: 1000,
        file_hash: "sha256:fh".to_string(),
        file_size: 400,
        deriver: Some("def-hello.drv".to_string()),
        sig: Some("k:sig".to_string()),
        refs: vec![Some("r1".to_string()), None, Some("r2".to_string())],
        nar_comp: Some("xz".to_string()),
        nar_file: "abc.nar.xz".to_string(),
        nar_file_storage: "stored".to_string(),
        gc: false,
        created: "t".to_string(),
        last_fetched: None,
    };
    assert_eq!(
        render_narinfo(&d),
        "StorePath: /nix/store/abc-hello-2.12\nURL: nar/abc.nar.xz\nCompression: xz\nFileHash: sha256:fh\nFileSize: 400\nNarHash: sha256:nh\nNarSize: 1000\nReferences: r1 r2\nDeriver: def-hello.drv\nSig: k:sig\n"
    );
    let bare = Drv { deriver: Some(String::new()), sig: None, refs: vec![], nar_comp: None, ..d };
    assert_eq!(
        render_narinfo(&bare),
        "StorePath: /nix/store/abc-hello-2.12\nURL: nar/abc.nar.xz\nFileHash: sha256:fh\nFileSize: 400\nNarHash: sha256:nh\nNarSize: 1000\n"
    );
    assert_eq!(narinfo_drv_id("abc.narinfo").unwrap(), "abc");
    assert!(matches!(narinfo_drv_id("abc.nar"), Err(AppError::NotFound(m)) if m == "Invalid narinfo path"));
    assert!(matches!(derivation_not_found("q"), AppError::NotFound(m) if m == "Derivation not found: q"));
    assert!(matches!(nar_not_found("f.nar"), AppError::NotFound(m) if m == "NAR file not found: f.nar"));
    assert!(matches!(nar_missing("f.nar"), AppError::NotFound(m) if m == "NAR file missing from storage: f.nar"));
    assert!(matches!(stored_file_not_found("f"), AppError::NotFound(m) if m == "File not found: f"));
}

#[test]
fn nar_content_types() {
    assert_eq!(nar_content_type(Some("xz")), NarContentType::Xz);
    assert_eq!(nar_content_type(Some("gz")), NarContentType::Gzip);
    assert_eq!(nar_content_type(Some("zst")), NarContentType::Zstd);
    assert_eq!(nar_content_type(Some("bz2")), NarContentType::Bzip2);
    assert_eq!(nar_content_type(Some("lz4")), NarContentType::Binary);
    assert_eq!(nar_content_type(None), NarContentType::Binary);
    assert_eq!(NarContentType::Gzip.mime(), "application/gzip");
    assert_eq!(nar_file_name("abc", Some("xz")), "abc.nar.xz");
    assert_eq!(nar_file_name("abc", None), "abc.nar");
}

#[test]
fn check_and_pin_requests() {
    let p = "/nix/store/0123456789abcdfghijklmnpqrsvwxyz-hello".to_string();
    assert_eq!(extract_drv_id(&p), "0123456789abcdfghijklmnpqrsvwxyz");
    assert_eq!(basename("/nix/store/abc-x/"), "abc-x");
    assert_eq!(basename("/"), "/");
    let ids = check_request_ids(&vec![p.clone()]).unwrap();
    assert_eq!(ids, vec!["0123456789abcdfghijklmnpqrsvwxyz".to_string()]);
    let many = vec![p.clone(); 10001];
    assert!(matches!(check_request_ids(&many), Err(AppError::BadRequest(m)) if m == "Maximum 10,000 paths allowed"));
    let q = "/nix/store/aaaaaaaaaaaaaaaaaaaaaaaaaaaaaaaa-dep".to_string();
    assert_eq!(
        paths_needing_upload(&vec![p.clone(), q.clone()], &vec!["0123456789abcdfghijklmnpqrsvwxyz".to_string()]),
        vec![q.clone()]
    );
    let req = FinalizePinRequest {
        roots: vec!["0123456789abcdfghijklmnpqrsvwxyz-hello".to_string()],
        name: "ci/main".to_string(),
        desc: None,
        expires: None,
        leave_after_abandon: None,
    };
    assert_eq!(validate_finalize(&req).unwrap(), vec!["0123456789abcdfghijklmnpqrsvwxyz".to_string()]);
    let empty = FinalizePinRequest { roots: vec![], ..req };
    assert!(matches!(validate_finalize(&empty), Err(AppError::BadRequest(m)) if m == "At least one root required"));
    assert!(check_roots_present(2, 2).is_ok());
    assert!(matches!(check_roots_present(1, 2), Err(AppError::BadRequest(m)) if m == "Some roots are not in the cache"));
    assert!(matches!(require_affected(0, "Pin not found"), Err(AppError::NotFound(m)) if m == "Pin not found"));
    assert!(require_affected(1, "Pin not found").is_ok());
    assert_eq!(require_lock_cleared(0), Err(AppError::LockNotFound));
}

#[test]
fn storage_paths_and_guards() {
    assert_eq!(join_path("/var/lib/xzar", "a.nar"), "/var/lib/xzar/a.nar");
    assert_eq!(join_path("/var/lib/xzar/", "a.nar"), "/var/lib/xzar/a.nar");
    assert_eq!(join_path("", "a.nar"), "a.nar");
    assert_eq!(join_path("/var", "/etc/x"), "/etc/x");
    let fs = FileStorage { base_path: "data".to_string() };
    assert_eq!(fs.file_path("x"), std::path::Path::new("data").join("x").to_string_lossy());
    let st = Storage { base_path: "/srv/".to_string() };
    assert_eq!(st.file_path("y"), "/srv/y");
    let mut g = WriteGuard::new("/tmp/f".to_string());
    assert!(g.is_armed());
    assert_eq!(g.path(), "/tmp/f");
    g.disarm();
    assert!(!g.is_armed());
    assert_eq!(g.path(), "/tmp/f");
}

#[test]
fn ui_content_types() {
    assert_eq!(content_type_for_path("index.html"), UiContentType::Html);
    assert_eq!(content_type_for_path("app.js"), UiContentType::JavaScript);
    assert_eq!(content_type_for_path("app_bg.wasm"), UiContentType::Wasm);
    assert_eq!(content_type_for_path("a/b.css"), UiContentType::Css);
    assert_eq!(content_type_for_path("m.json"), UiContentType::Json);
    assert_eq!(content_type_for_path("logo.png"), UiContentType::Png);
    assert_eq!(content_type_for_path("logo.svg"), UiContentType::Svg);
    assert_eq!(content_type_for_path("favicon.ico"), UiContentType::Icon);
    assert_eq!(content_type_for_path("blob"), UiContentType::Binary);
    assert_eq!(UiContentType::Html.media_type(), ("text", "html", Some("utf-8")));
    assert_eq!(UiContentType::Svg.media_type(), ("image", "svg+xml", None));
    assert!(get_embedded_file("index.html").is_none());
    assert!(get_index_html().is_none());
    assert!(!is_ui_embedded());
}

#[test]
fn abandoned_pins_are_kept_for_their_leave_after_abandon() {
    let now = 1_700_000_000_000i64;
    assert_eq!(abandon_expiry(now, Some(604_800_000)), now + 604_800_000);
    assert_eq!(abandon_expiry(now, None), now);
    assert_eq!(abandon_expiry(i64::MAX - 5, Some(10)), i64::MAX);
    assert_eq!(pin_expiry(now, Some(1000)), Some(now + 1000));
    assert_eq!(pin_expiry(now, None), None);
    assert_eq!(time_after(i64::MIN + 1, -5), i64::MIN);
    assert_eq!(lock_deadline(now), now + 2 * 86_400_000);
}

#[test]
fn basename_taken_twice_is_the_basename() {
    for p in ["", "/", "..", "a/..", "/nix/store/abc-x/", "abc-x", "/nix/store/abc-x/.", "./b"] {
        let once = basename(p);
        assert_eq!(basename(&once), once, "{}", p);
    }
    assert_eq!(basename("a/.."), "a/..");
}
