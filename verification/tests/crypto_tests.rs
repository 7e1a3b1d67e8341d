use base64::Engine;
use ed25519_dalek::{Signature, SigningKey, Verifier};
use rand::RngCore;
use sha2::{Digest, Sha512};
use xzar::auth::{hash_token, hex_encode};
use xzar::crypto::{
    base64_to_nix_base32, fingerprint, print_store_path, sri_to_nix_hash, NixSigningKey,
};
use xzar::error::AppError;
use xzar::nix_base32::{bytes_to_nix_base32, nix_base32_len};

struct TestCredentials {
    upload_token: String,
    token_hash: String,
    signing_key: String,
    key_name: String,
}

fn sha512_hex(data: &[u8]) -> String {
    let mut hasher = Sha512::new();
    hasher.update(data);
    hasher.finalize().iter().map(|b| format!("{:02x}", b)).collect()
}

fn generate_credentials() -> TestCredentials {
    let mut rng = rand::thread_rng();
    let mut token_bytes = [0u8; 32];
    rng.fill_bytes(&mut token_bytes);
    let upload_token = base64::engine::general_purpose::STANDARD.encode(token_bytes);
    let token_hash = sha512_hex(upload_token.as_bytes());
    let mut secret = [0u8; 32];
    rng.fill_bytes(&mut secret);
    let key_b64 = base64::engine::general_purpose::STANDARD.encode(secret);
    let key_name = "test-cache-1".to_string();
    let signing_key = format!("{}:{}", key_name, key_b64);
    TestCredentials { upload_token, token_hash, signing_key, key_name }
}

#[test]
fn test_nix_base32() {
    let bytes = [0u8; 32];
    let result = bytes_to_nix_base32(&bytes);
    assert_eq!(result.len(), 52);
}

#[test]
fn test_sri_to_nix_hash() {
    let (algo, hash) =
        sri_to_nix_hash("sha256-AAAAAAAAAAAAAAAAAAAAAAAAAAAAAAAAAAAAAAAAAAA=").unwrap();
    assert_eq!(algo, "sha256");
    assert_eq!(hash.len(), 52);
}

#[test]
fn server_test_credentials_signing() {
    let creds = generate_credentials();
    let signing_key = NixSigningKey::from_config(&creds.signing_key).unwrap();
    let signature = signing_key.sign("test fingerprint");
    assert!(signature.starts_with(&format!("{}:", creds.key_name)));
}

#[test]
fn integration_test_test_credentials_signing() {
    let creds = generate_credentials();
    let signing_key = NixSigningKey::from_config(&creds.signing_key).unwrap();
    let signature = signing_key.sign("test fingerprint");
    assert!(signature.starts_with(&format!("{}:", creds.key_name)));
}

#[test]
fn test_credentials_generation() {
    let creds = generate_credentials();
    assert!(!creds.upload_token.is_empty());
    assert_eq!(creds.token_hash.len(), 128);
    assert!(creds.signing_key.contains(':'));
    assert!(NixSigningKey::from_config(&creds.signing_key).is_ok());
}

#[test]
fn test_token_hash_verification() {
    let creds = generate_credentials();
    assert_eq!(hash_token(&creds.upload_token), creds.token_hash);
}

#[test]
fn nix_base32_known_vectors() {
    let empty_sha256 = Sha256Empty::digest();
    assert_eq!(
        bytes_to_nix_base32(&empty_sha256),
        "0mdqa9w1p6cmli6976v4wi0sw9r4p5prkj7lzfd1877wk11c9c73"
    );
    assert_eq!(bytes_to_nix_base32(&[0u8; 32]), "0".repeat(52));
    assert_eq!(bytes_to_nix_base32(&[0xff]), "7z");
    assert_eq!(bytes_to_nix_base32(&[1, 2, 3]), "060h1");
    assert_eq!(bytes_to_nix_base32(&[]), "");
    assert_eq!(nix_base32_len(32), 52);
    assert_eq!(nix_base32_len(64), 103);
}

struct Sha256Empty;

impl Sha256Empty {
    fn digest() -> Vec<u8> {
        let mut h = sha2::Sha256::new();
        h.update(b"");
        h.finalize().to_vec()
    }
}

#[test]
fn sri_hash_of_empty_input() {
    let (algo, hash) =
        sri_to_nix_hash("sha256-47DEQpj8HBSa+/TImW+5JCeuQeRkm5NMpJWZG3hSuFU=").unwrap();
    assert_eq!(algo, "sha256");
    assert_eq!(hash, "0mdqa9w1p6cmli6976v4wi0sw9r4p5prkj7lzfd1877wk11c9c73");
    assert_eq!(
        base64_to_nix_base32("47DEQpj8HBSa+/TImW+5JCeuQeRkm5NMpJWZG3hSuFU=").unwrap(),
        "0mdqa9w1p6cmli6976v4wi0sw9r4p5prkj7lzfd1877wk11c9c73"
    );
}

#[test]
fn sri_errors() {
    match sri_to_nix_hash("nodash") {
        Err(AppError::Crypto(m)) => assert_eq!(m, "Invalid SRI hash: nodash"),
        other => panic!("unexpected {:?}", other),
    }
    match sri_to_nix_hash("md5-AAAA") {
        Err(AppError::Crypto(m)) => assert_eq!(m, "Unsupported hash algorithm: md5"),
        other => panic!("unexpected {:?}", other),
    }
    match sri_to_nix_hash("sha256-!!!") {
        Err(AppError::Crypto(m)) => assert!(m.starts_with("Invalid base64: ")),
        other => panic!("unexpected {:?}", other),
    }
    match base64_to_nix_base32("***") {
        Err(AppError::Crypto(m)) => assert!(m.starts_with("Invalid base64: ")),
        other => panic!("unexpected {:?}", other),
    }
}

#[test]
fn token_hash_known_vector() {
    assert_eq!(
        hash_token("abc"),
        "ddaf35a193617abacc417349ae20413112e6fa4e89a97ea20a9eeee64b55d39a2192992a274fc1a836ba3c23a3feebbd454d4423643ce80e2a9ac94fa54ca49f"
    );
    assert_eq!(hash_token(""), sha512_hex(b""));
    assert_eq!(hex_encode(&[0x00, 0x0f, 0xa5, 0xff]), "000fa5ff");
}

#[test]
fn fingerprint_and_store_paths() {
    assert_eq!(print_store_path("abc-hello"), "/nix/store/abc-hello");
    let refs = vec!["aaa-dep".to_string(), "bbb-lib".to_string()];
    assert_eq!(
        fingerprint("xyz-pkg", "sha256:0abc", 1234, &refs),
        "1;/nix/store/xyz-pkg;sha256:0abc;1234;/nix/store/aaa-dep,/nix/store/bbb-lib"
    );
    assert_eq!(fingerprint("xyz-pkg", "sha256:0abc", 7, &[]), "1;/nix/store/xyz-pkg;sha256:0abc;7;");
}

#[test]
fn signatures_verify_with_the_public_key() {
    let secret = [7u8; 32];
    let key_text = format!(
        "cache.example-1:{}",
        base64::engine::general_purpose::STANDARD.encode(secret)
    );
    let key = NixSigningKey::from_config(&key_text).unwrap();
    assert_eq!(key.name, "cache.example-1");
    let sig = key.sign("hello");
    let (name, b64) = sig.split_once(':').unwrap();
    assert_eq!(name, "cache.example-1");
    let bytes = base64::engine::general_purpose::STANDARD.decode(b64).unwrap();
    assert_eq!(bytes.len(), 64);
    let signature = Signature::from_slice(&bytes).unwrap();
    let verifying = SigningKey::from_bytes(&secret).verifying_key();
    assert!(verifying.verify(b"hello", &signature).is_ok());
    let refs = vec!["r1".to_string()];
    assert_eq!(
        key.sign_drv("p-1", "sha256:x", 3, &refs),
        key.sign(&fingerprint("p-1", "sha256:x", 3, &refs))
    );
}

#[test]
fn signing_key_errors() {
    match NixSigningKey::from_config("no-colon") {
        Err(AppError::Crypto(m)) => assert_eq!(m, "Invalid signing key format"),
        _ => panic!("expected an error"),
    }
    match NixSigningKey::from_config("k:AAAA") {
        Err(AppError::Crypto(m)) => assert_eq!(m, "Signing key too short"),
        _ => panic!("expected an error"),
    }
    match NixSigningKey::from_config("k:@@@") {
        Err(AppError::Crypto(m)) => assert!(m.starts_with("Invalid key base64: ")),
        _ => panic!("expected an error"),
    }
}

#[test]
fn nix_base32_alphabet_and_injectivity() {
    let inputs: Vec<Vec<u8>> = vec![
        vec![0u8; 32],
        vec![0xffu8; 32],
        (0u8..32).collect(),
        {
            let mut v = vec![0u8; 32];
            v[31] = 1;
            v
        },
        {
            let mut v = vec![0u8; 32];
            v[0] = 0x80;
            v
        },
    ];
    let outs: Vec<String> = inputs.iter().map(|b| bytes_to_nix_base32(b)).collect();
    for o in &outs {
        assert_eq!(o.len(), 52);
        assert!(o.chars().all(|c| "0123456789abcdfghijklmnpqrsvwxyz".contains(c)), "{}", o);
    }
    for i in 0..outs.len() {
        for j in 0..outs.len() {
            assert_eq!(outs[i] == outs[j], i == j);
        }
    }
}
