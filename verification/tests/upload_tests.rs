use base64::Engine;
use xzar::crypto::{fingerprint, parse_hash, NixSigningKey};
use xzar::error::AppError;
use xzar::nar_hash::NarHasher;
use xzar::pin_tree::build_pin_tree;
use xzar::api_types::{PinResponse, PinRoot};
use xzar::upload::{
    field_kind, plan_upload_record, require_boundary, require_upload_lock, upload_fits, FieldKind,
    StoredFile, UploadFields,
};

fn bad(e: AppError) -> String {
    match e {
        AppError::BadRequest(m) => m,
        other => panic!("expected a bad request, got {:?}", other),
    }
}

fn filled_form() -> UploadFields {
    let mut f = UploadFields::new();
    f.accept_text("lock", "7".to_string()).unwrap();
    f.accept_text("drvFull", "abcdefghijklmnopqrstuvwxyz012345-hello-2.12".to_string()).unwrap();
    f.accept_text("hash", "sha256-47DEQpj8HBSa+/TImW+5JCeuQeRkm5NMpJWZG3hSuFU=".to_string()).unwrap();
    f.accept_text("size", "1234".to_string()).unwrap();
    f.accept_text("deriver", "xyz-hello.drv".to_string()).unwrap();
    f.accept_text("compression", "xz".to_string()).unwrap();
    f.accept_text("references[]", "zzz-b".to_string()).unwrap();
    f.accept_text("references", "aaa-a".to_string()).unwrap();
    f.accept_text("unknown", "ignored".to_string()).unwrap();
    let name = f.storage_name_for_file().unwrap();
    assert_eq!(name, "abcdefghijklmnopqrstuvwxyz012345-hello-2.12");
    f.accept_file(StoredFile { size: 400, sha256: vec![0u8; 32], storage_name: name });
    f
}

#[test]
fn upload_form_fields_are_collected() {
    assert!(matches!(field_kind("file"), FieldKind::File));
    assert!(matches!(field_kind("references"), FieldKind::Reference));
    assert!(matches!(field_kind("other"), FieldKind::Ignored));
    let f = filled_form();
    assert_eq!(f.lock, Some(7));
    assert_eq!(f.size, Some(1234));
    assert_eq!(f.references, vec!["zzz-b".to_string(), "aaa-a".to_string()]);
    let mut g = UploadFields::new();
    g.accept_text("deriver", String::new()).unwrap();
    assert_eq!(g.deriver, None);
    assert_eq!(bad(g.accept_text("size", "12x".to_string()).unwrap_err()), "Invalid size");
    assert_eq!(bad(g.accept_text("lock", "99999999999".to_string()).unwrap_err()), "Invalid lock");
    assert_eq!(
        bad(g.storage_name_for_file().unwrap_err()),
        "drvFull must come before file in multipart form"
    );
}

#[test]
fn upload_form_reports_the_first_missing_field() {
    assert_eq!(bad(UploadFields::new().finish().unwrap_err()), "Missing file");
    let mut f = UploadFields::new();
    f.accept_file(StoredFile { size: 1, sha256: vec![], storage_name: "n".to_string() });
    assert_eq!(bad(f.finish().unwrap_err()), "Missing hash");
    let mut f = UploadFields::new();
    f.accept_file(StoredFile { size: 1, sha256: vec![], storage_name: "n".to_string() });
    f.accept_text("hash", "h".to_string()).unwrap();
    f.accept_text("size", "3".to_string()).unwrap();
    assert_eq!(bad(f.finish().unwrap_err()), "Missing lock");
    let c = filled_form().finish().unwrap();
    assert_eq!(c.lock, 7);
    assert_eq!(c.drv_full, "abcdefghijklmnopqrstuvwxyz012345-hello-2.12");
}

#[test]
fn upload_records_are_planned() {
    let upload = filled_form().finish().unwrap();
    assert!(upload_fits(&upload));
    let d = plan_upload_record(upload, None).unwrap();
    assert_eq!(d.drv_id, "abcdefghijklmnopqrstuvwxyz012345");
    assert_eq!(d.nar_hash, "sha256:0mdqa9w1p6cmli6976v4wi0sw9r4p5prkj7lzfd1877wk11c9c73");
    assert_eq!(d.file_hash, format!("sha256:{}", "0".repeat(52)));
    assert_eq!(d.file_size, 400);
    assert_eq!(d.nar_size, 1234);
    assert_eq!(d.refs, vec!["aaa-a".to_string(), "zzz-b".to_string()]);
    assert_eq!(d.nar_file, "abcdefghijklmnopqrstuvwxyz012345.nar.xz");
    assert_eq!(d.nar_file_storage, "abcdefghijklmnopqrstuvwxyz012345-hello-2.12");
    assert_eq!(d.deriver.as_deref(), Some("xyz-hello.drv"));
    assert_eq!(d.sig, None);

    let key_text = format!("cache-1:{}", base64::engine::general_purpose::STANDARD.encode([9u8; 32]));
    let signed = plan_upload_record(filled_form().finish().unwrap(), Some(&key_text)).unwrap();
    let key = NixSigningKey::from_config(&key_text).unwrap();
    let refs = vec!["aaa-a".to_string(), "zzz-b".to_string()];
    assert_eq!(
        signed.sig.as_deref(),
        Some(key.sign(&fingerprint(&signed.drv_full, &signed.nar_hash, 1234, &refs)).as_str())
    );

    match plan_upload_record(filled_form().finish().unwrap(), Some("broken")) {
        Err(AppError::Crypto(m)) => assert_eq!(m, "Invalid signing key format"),
        other => panic!("unexpected {:?}", other.map(|d| d.drv_id)),
    }
    let mut f = filled_form();
    f.accept_text("hash", "md5-AAAA".to_string()).unwrap();
    match plan_upload_record(f.finish().unwrap(), None) {
        Err(AppError::Crypto(m)) => assert_eq!(m, "Unsupported hash algorithm: md5"),
        other => panic!("unexpected {:?}", other.map(|d| d.drv_id)),
    }
}

#[test]
fn upload_accepts_nix_format_hashes() {
    let nix = "sha256:0mdqa9w1p6cmli6976v4wi0sw9r4p5prkj7lzfd1877wk11c9c73";
    let mut f = filled_form();
    f.accept_text("hash", nix.to_string()).unwrap();
    let d = plan_upload_record(f.finish().unwrap(), None).unwrap();
    assert_eq!(d.nar_hash, nix);
    assert_eq!(parse_hash(nix).unwrap(), ("sha256".to_string(), nix[7..].to_string()));
    match parse_hash("sha256:0mdqe") {
        Err(AppError::Crypto(m)) => assert_eq!(m, "Invalid Nix hash: sha256:0mdqe"),
        other => panic!("unexpected {:?}", other),
    }
    match parse_hash("md5:0000") {
        Err(AppError::Crypto(m)) => assert_eq!(m, "Unsupported hash algorithm: md5"),
        other => panic!("unexpected {:?}", other),
    }
    match parse_hash("sha256:") {
        Err(AppError::Crypto(m)) => assert_eq!(m, "Invalid Nix hash: sha256:"),
        other => panic!("unexpected {:?}", other),
    }
}

#[test]
fn upload_preconditions() {
    assert_eq!(require_boundary(Some("xyz")).unwrap(), "xyz");
    assert_eq!(bad(require_boundary(None).unwrap_err()), "Missing multipart boundary");
    assert!(require_upload_lock(true).is_ok());
    assert_eq!(bad(require_upload_lock(false).unwrap_err()), "Invalid lock");
}

#[test]
fn pin_tree_orders_children_with_active_first() {
    let mk = |id: i32, name: &str, abandoned: bool| PinResponse {
        id,
        name: name.to_string(),
        description: None,
        created: "c".to_string(),
        expires: None,
        abandoned,
        leave_after_abandon: None,
        roots: vec![PinRoot { drv_id: "a".to_string(), drv_full: "a-x".to_string() }],
    };
    let tree = build_pin_tree(vec![mk(1, "alpha/x", true), mk(2, "beta/y", false), mk(3, "gamma", true)]);
    let root: Vec<String> = vec![];
    let order = tree.ordered_children(&root);
    assert_eq!(order, vec!["beta".to_string(), "alpha".to_string(), "gamma".to_string()]);
}

#[test]
fn stored_files_carry_the_sha256_of_their_bytes() {
    let mut h = NarHasher::new();
    h.absorb(b"a");
    h.absorb(b"");
    h.absorb(b"bc");
    let f = StoredFile::from_hasher(3, h, "x-abc".to_string());
    assert_eq!(f.size, 3);
    assert_eq!(f.storage_name, "x-abc");
    let hex: String = f.sha256.iter().map(|b| format!("{:02x}", b)).collect();
    assert_eq!(hex, "ba7816bf8f01cfea414140de5dae2223b00361a396177a9cb410ff61f20015ad");
    let empty = NarHasher::new().finish();
    let hex: String = empty.iter().map(|b| format!("{:02x}", b)).collect();
    assert_eq!(hex, "e3b0c44298fc1c149afbf4c8996fb92427ae41e4649b934ca495991b7852b855");
}
