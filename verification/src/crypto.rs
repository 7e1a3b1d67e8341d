//! Hash conversions and narinfo signing.

use base64::Engine;
use ed25519_dalek::Signer;
use vstd::prelude::*;
use crate::error::AppError;
use crate::nix_base32::{bytes_to_nix_base32, is_nix32_char, nix32_char, nix_base32_spec};
use crate::sorting::str_views;
use crate::text::{
    chars_of, int_to_decimal, owned, push_char, push_i64_decimal, push_str, split_once, split_once_spec,
    str_eq,
};

verus! {

/// What the `base64` crate's `STANDARD` engine encodes `bytes` to (RFC 4648
/// alphabet, with padding).
pub uninterp spec fn base64_standard_encode(bytes: Seq<u8>) -> Seq<char>;

/// What the `base64` crate's `STANDARD` engine decodes `text` to, or the
/// text of its `DecodeError`.
pub uninterp spec fn base64_standard_decode(text: Seq<char>) -> Result<Seq<u8>, Seq<char>>;

/// The Ed25519 signature (RFC 8032) of `message` under the 32-byte secret key `secret`.
pub uninterp spec fn ed25519_signature(secret: Seq<u8>, message: Seq<u8>) -> Seq<u8>;

/// A successful decoding result carrying `bytes`.
pub open spec fn base64_decoded_ok(bytes: Seq<u8>) -> Result<Seq<u8>, Seq<char>> {
    Ok(bytes)
}

/// Calls `base64::Engine::encode` on the `STANDARD` engine. The contract
/// names the result, and states its padded length (four characters per
/// started group of three bytes) and that decoding it gives back the input:
/// the crate encodes and decodes the same alphabet and padding. The crate panics
/// when the encoded length overflows `usize`, which `requires` rules out.
#[verifier::external_body]
pub(crate) fn base64_encode(bytes: &[u8]) -> (encoded: String)
    requires
        bytes@.len() <= usize::MAX / 2,
    ensures
        encoded@ == base64_standard_encode(bytes@),
        encoded@.len() == 4 * ((bytes@.len() + 2) / 3),
        base64_standard_decode(encoded@) == base64_decoded_ok(bytes@),
{
    base64::prelude::BASE64_STANDARD.encode(bytes)
}

/// Calls `base64::Engine::decode` on the `STANDARD` engine, with the error
/// turned into its display text. The contract names the result, and states
/// that a decoded value is never longer than its input (every input symbol
/// stands for six bits).
#[verifier::external_body]
pub(crate) fn base64_decode(text: &str) -> (r: Result<Vec<u8>, String>)
    ensures
        match base64_standard_decode(text@) {
            Ok(v) => r matches Ok(w) && w@ == v,
            Err(m) => r matches Err(e) && e@ == m,
        },
        r matches Ok(w) ==> w@.len() <= text@.len(),
{
    match base64::prelude::BASE64_STANDARD.decode(text) {
        Ok(v) => Ok(v),
        Err(e) => Err(e.to_string()),
    }
}

/// Calls `ed25519_dalek::SigningKey::from_bytes` on the 32-byte secret and
/// signs `message` with it (`Signer::sign`), returning the signature's 64
/// bytes. Ed25519 signing is deterministic, so the result is named as a
/// function of key and message.
#[verifier::external_body]
pub(crate) fn ed25519_sign(secret: &[u8], message: &[u8]) -> (sig: Vec<u8>)
    requires
        secret@.len() == 32,
    ensures
        sig@ == ed25519_signature(secret@, message@),
        sig@.len() == 64,
{
    let key: [u8; 32] = secret.try_into().unwrap();
    let signing_key = ed25519_dalek::SigningKey::from_bytes(&key);
    signing_key.sign(message).to_bytes().to_vec()
}

/// `"/nix/store/"` followed by `drv_full`.
pub open spec fn store_path_spec(drv_full: Seq<char>) -> Seq<char> {
    "/nix/store/"@ + drv_full
}

/// Format a Nix store path.
pub fn print_store_path(drv_full: &str) -> (s: String)
    ensures
        s@ == store_path_spec(drv_full@),
{
    let mut s = owned("/nix/store/");
    push_str(&mut s, drv_full);
    s
}

/// The store paths of `refs`, separated by commas.
pub open spec fn store_path_list(refs: Seq<Seq<char>>) -> Seq<char>
    decreases refs.len(),
{
    if refs.len() == 0 {
        Seq::empty()
    } else if refs.len() == 1 {
        store_path_spec(refs[0])
    } else {
        store_path_list(refs.drop_last()) + seq![','] + store_path_spec(refs.last())
    }
}

/// The signed fingerprint of a store path:
/// `1;/nix/store/{drvFull};{narHash};{narSize};{comma-separated store paths of the references}`.
pub open spec fn fingerprint_spec(
    drv_full: Seq<char>,
    nar_hash: Seq<char>,
    nar_size: int,
    refs: Seq<Seq<char>>,
) -> Seq<char> {
    "1;"@ + store_path_spec(drv_full) + seq![';'] + nar_hash + seq![';'] + int_to_decimal(nar_size)
        + seq![';'] + store_path_list(refs)
}

/// Create a fingerprint string for signing.
pub fn fingerprint(drv_full: &str, nar_hash: &str, nar_size: i64, references: &[String]) -> (s:
    String)
    ensures
        s@ == fingerprint_spec(drv_full@, nar_hash@, nar_size as int, str_views(references@)),
{
    let mut s = owned("1;");
    let p = print_store_path(drv_full);
    push_str(&mut s, p.as_str());
    push_char(&mut s, ';');
    push_str(&mut s, nar_hash);
    push_char(&mut s, ';');
    push_i64_decimal(&mut s, nar_size);
    push_char(&mut s, ';');
    let ghost head = s@;
    let mut i: usize = 0;
    while i < references.len()
        invariant
            i <= references@.len(),
            s@ == head + store_path_list(str_views(references@).take(i as int)),
        decreases references@.len() - i,
    {
        let ghost before = s@;
        if i > 0 {
            push_char(&mut s, ',');
        }
        let rp = print_store_path(references[i].as_str());
        push_str(&mut s, rp.as_str());
        proof {
            let v = str_views(references@);
            let t = v.take(i + 1);
            assert(t.drop_last() == v.take(i as int));
            assert(t.last() == references@[i as int]@);
            if i == 0 {
                assert(v.take(0).len() == 0);
                assert(store_path_list(v.take(0)) == Seq::<char>::empty());
                assert(s@ =~= head + store_path_list(t));
            } else {
                assert(s@ =~= head + store_path_list(t));
            }
        }
        i += 1;
    }
    proof {
        assert(str_views(references@).take(references@.len() as int) == str_views(
            references@,
        ));
    }
    s
}

/// The hash algorithms accepted in SRI hashes.
pub open spec fn supported_hash_algo(algo: Seq<char>) -> bool {
    algo == "sha256"@ || algo == "sha512"@ || algo == "sha1"@
}

/// What `sri_to_nix_hash` gives: the algorithm before the first `-`, and the
/// Nix base32 form of the base64 text after it; or the error on a missing
/// `-`, an unsupported algorithm, or invalid base64.
pub open spec fn sri_to_nix_hash_spec(integrity: Seq<char>) -> Result<
    (Seq<char>, Seq<char>),
    AppError,
> {
    match split_once_spec(integrity, '-') {
        None => Err(AppError::Crypto(arbitrary())),
        Some((algo, b64)) => if !supported_hash_algo(algo) {
            Err(AppError::Crypto(arbitrary()))
        } else {
            match base64_standard_decode(b64) {
                Ok(bytes) => Ok((algo, nix_base32_spec(bytes))),
                Err(_) => Err(AppError::Crypto(arbitrary())),
            }
        },
    }
}

/// The error message of `sri_to_nix_hash` on `integrity`, where it fails.
pub open spec fn sri_error_message(integrity: Seq<char>) -> Seq<char> {
    match split_once_spec(integrity, '-') {
        None => "Invalid SRI hash: "@ + integrity,
        Some((algo, b64)) => if !supported_hash_algo(algo) {
            "Unsupported hash algorithm: "@ + algo
        } else {
            match base64_standard_decode(b64) {
                Err(m) => "Invalid base64: "@ + m,
                Ok(_) => Seq::empty(),
            }
        },
    }
}

/// `r` is a `Crypto` error with message `m`.
pub open spec fn is_crypto_error(r: AppError, m: Seq<char>) -> bool {
    r matches AppError::Crypto(msg) && msg@ == m
}

/// Convert SRI hash (sha256-base64) to Nix format (sha256:base32).
pub fn sri_to_nix_hash(integrity: &str) -> (r: Result<(String, String), AppError>)
    requires
        integrity@.len() * 8 + 4 <= usize::MAX,
    ensures
        match sri_to_nix_hash_spec(integrity@) {
            Ok((a, h)) => r matches Ok((x, y)) && x@ == a && y@ == h,
            Err(_) => r matches Err(e) && is_crypto_error(e, sri_error_message(integrity@)),
        },
{
    let parts = split_once(integrity, '-');
    proof {
        crate::text::lemma_find_char(integrity@, '-');
    }
    let (algo, b64_hash) = match parts {
        Some(p) => p,
        None => {
            let mut m = owned("Invalid SRI hash: ");
            push_str(&mut m, integrity);
            return Err(AppError::Crypto(m));
        },
    };
    if !str_eq(algo.as_str(), "sha256") && !str_eq(algo.as_str(), "sha512") && !str_eq(
        algo.as_str(),
        "sha1",
    ) {
        let mut m = owned("Unsupported hash algorithm: ");
        push_str(&mut m, algo.as_str());
        return Err(AppError::Crypto(m));
    }
    let hash_bytes = match base64_decode(b64_hash.as_str()) {
        Ok(v) => v,
        Err(e) => {
            let mut m = owned("Invalid base64: ");
            push_str(&mut m, e.as_str());
            return Err(AppError::Crypto(m));
        },
    };
    let nix_hash = bytes_to_nix_base32(hash_bytes.as_slice());
    Ok((algo, nix_hash))
}

/// Convert base64 to Nix base32.
pub fn base64_to_nix_base32(b64: &str) -> (r: Result<String, AppError>)
    requires
        b64@.len() * 8 + 4 <= usize::MAX,
    ensures
        match base64_standard_decode(b64@) {
            Ok(bytes) => r matches Ok(s) && s@ == nix_base32_spec(bytes),
            Err(m) => r matches Err(e) && is_crypto_error(e, "Invalid base64: "@ + m),
        },
{
    let bytes = match base64_decode(b64) {
        Ok(v) => v,
        Err(e) => {
            let mut m = owned("Invalid base64: ");
            push_str(&mut m, e.as_str());
            return Err(AppError::Crypto(m));
        },
    };
    Ok(bytes_to_nix_base32(bytes.as_slice()))
}

/// A Nix-format digest: an algorithm accepted in SRI hashes and a non-empty
/// text over the Nix base32 alphabet.
pub open spec fn nix_format_hash_ok(algo: Seq<char>, digest: Seq<char>) -> bool {
    &&& supported_hash_algo(algo)
    &&& digest.len() > 0
    &&& forall|i: int| 0 <= i < digest.len() ==> nix32_char(#[trigger] digest[i])
}

/// What `parse_hash` gives: a hash with a `:` is in Nix format,
/// `{algo}:{base32}`, and is taken as it is when valid; any other hash is
/// read as an SRI hash.
pub open spec fn parse_hash_spec(hash: Seq<char>) -> Result<(Seq<char>, Seq<char>), AppError> {
    match split_once_spec(hash, ':') {
        Some((algo, digest)) => if nix_format_hash_ok(algo, digest) {
            Ok((algo, digest))
        } else {
            Err(AppError::Crypto(arbitrary()))
        },
        None => sri_to_nix_hash_spec(hash),
    }
}

/// The error message of `parse_hash` on `hash`, where it fails.
pub open spec fn parse_hash_error(hash: Seq<char>) -> Seq<char> {
    match split_once_spec(hash, ':') {
        Some((algo, _)) => if !supported_hash_algo(algo) {
            "Unsupported hash algorithm: "@ + algo
        } else {
            "Invalid Nix hash: "@ + hash
        },
        None => sri_error_message(hash),
    }
}

/// Whether every character of `s` is in the Nix base32 alphabet.
fn all_nix32(s: &str) -> (b: bool)
    ensures
        b == forall|i: int| 0 <= i < s@.len() ==> nix32_char(#[trigger] s@[i]),
{
    let v = chars_of(s);
    let mut i: usize = 0;
    while i < v.len()
        invariant
            v@ == s@,
            i <= v.len(),
            forall|j: int| 0 <= j < i ==> nix32_char(#[trigger] v@[j]),
        decreases v.len() - i,
    {
        if !is_nix32_char(v[i]) {
            return false;
        }
        i += 1;
    }
    true
}

/// Parse the NAR hash of an upload, given in SRI format (`sha256-base64`)
/// or in Nix format (`sha256:base32`, as `nix-store --query --hash`
/// prints it), into the algorithm and the Nix base32 digest.
pub fn parse_hash(hash: &str) -> (r: Result<(String, String), AppError>)
    requires
        hash@.len() * 8 + 4 <= usize::MAX,
    ensures
        match parse_hash_spec(hash@) {
            Ok((a, h)) => r matches Ok((x, y)) && x@ == a && y@ == h,
            Err(_) => r matches Err(e) && is_crypto_error(e, parse_hash_error(hash@)),
        },
{
    match split_once(hash, ':') {
        Some((algo, digest)) => {
            if !str_eq(algo.as_str(), "sha256") && !str_eq(algo.as_str(), "sha512") && !str_eq(
                algo.as_str(),
                "sha1",
            ) {
                let mut m = owned("Unsupported hash algorithm: ");
                push_str(&mut m, algo.as_str());
                return Err(AppError::Crypto(m));
            }
            if digest.as_str().is_empty() || !all_nix32(digest.as_str()) {
                let mut m = owned("Invalid Nix hash: ");
                push_str(&mut m, hash);
                return Err(AppError::Crypto(m));
            }
            Ok((algo, digest))
        },
        None => sri_to_nix_hash(hash),
    }
}

} // verus!

verus! {

/// Signing key parsed from config format `keyname:base64privatekey`.
pub struct NixSigningKey {
    pub name: String,
    secret: Vec<u8>,
}

/// What `NixSigningKey::from_config` reads from `key_string`: the name before
/// the first `:`, and the first 32 bytes of the base64 text after it; `None`
/// when there is no `:`, the base64 is invalid, or it holds fewer than 32 bytes.
pub open spec fn signing_key_parts(key_string: Seq<char>) -> Option<(Seq<char>, Seq<u8>)> {
    match split_once_spec(key_string, ':') {
        None => None,
        Some((name, b64)) => match base64_standard_decode(b64) {
            Ok(bytes) => if bytes.len() >= 32 {
                Some((name, bytes.take(32)))
            } else {
                None
            },
            Err(_) => None,
        },
    }
}

/// The error message of `NixSigningKey::from_config` on `key_string`, where it fails.
pub open spec fn signing_key_error_message(key_string: Seq<char>) -> Seq<char> {
    match split_once_spec(key_string, ':') {
        None => "Invalid signing key format"@,
        Some((name, b64)) => match base64_standard_decode(b64) {
            Ok(bytes) => "Signing key too short"@,
            Err(m) => "Invalid key base64: "@ + m,
        },
    }
}

/// The signature text `{keyname}:{base64 of the Ed25519 signature of message}`.
pub open spec fn signature_spec(name: Seq<char>, secret: Seq<u8>, message: Seq<char>) -> Seq<char> {
    name + seq![':'] + base64_standard_encode(
        ed25519_signature(secret, vstd::utf8::encode_utf8(message)),
    )
}

/// A key written as `{name}:{b64}`, with no `:` in the name and base64 that
/// decodes to at least 32 bytes, is read as that name and the first 32
/// decoded bytes; a message it signs is written as the name, `:`, and the
/// base64 of the Ed25519 signature made with those bytes, so the signature
/// starts with `{name}:` and depends only on the key and the message.
pub proof fn law_signature_from_key_text(
    name: Seq<char>,
    b64: Seq<char>,
    bytes: Seq<u8>,
    message: Seq<char>,
)
    requires
        forall|i: int| 0 <= i < name.len() ==> name[i] != ':',
        base64_standard_decode(b64) == Ok::<Seq<u8>, Seq<char>>(bytes),
        bytes.len() >= 32,
    ensures
        signing_key_parts(name + seq![':'] + b64) == Some((name, bytes.take(32))),
        signature_spec(name, bytes.take(32), message) == name + seq![':'] + base64_standard_encode(
            ed25519_signature(bytes.take(32), vstd::utf8::encode_utf8(message)),
        ),
        signature_spec(name, bytes.take(32), message).take(name.len() as int + 1) == name + seq![':'],
{
    let s = name + seq![':'] + b64;
    assert(crate::text::first_at(s, ':', name.len() as int)) by {
        assert forall|j: int| 0 <= j < name.len() implies s[j] != ':' by {
            assert(s[j] == name[j]);
        }
    }
    crate::text::lemma_find_char_at(s, ':', name.len() as int);
    assert(s.take(name.len() as int) =~= name);
    assert(s.skip(name.len() as int + 1) =~= b64);
    let sig = signature_spec(name, bytes.take(32), message);
    assert(sig.take(name.len() as int + 1) =~= name + seq![':']);
}

impl NixSigningKey {
    /// The key's name.
    pub closed spec fn key_name(&self) -> Seq<char> {
        self.name@
    }

    /// The secret key bytes.
    pub closed spec fn secret_spec(&self) -> Seq<u8> {
        self.secret@
    }

    /// The key holds a 32-byte secret.
    pub closed spec fn wf(&self) -> bool {
        self.secret@.len() == 32
    }

    /// Parse a signing key in the `keyname:base64privatekey` format. Only the
    /// first 32 bytes of the decoded key are used.
    pub fn from_config(key_string: &str) -> (r: Result<NixSigningKey, AppError>)
        ensures
            match signing_key_parts(key_string@) {
                Some((name, secret)) => r matches Ok(k) && k.key_name() == name && k.secret_spec()
                    == secret && k.wf(),
                None => r matches Err(e) && is_crypto_error(
                    e,
                    signing_key_error_message(key_string@),
                ),
            },
    {
        let (name, b64) = match split_once(key_string, ':') {
            Some(p) => p,
            None => {
                return Err(AppError::Crypto(owned("Invalid signing key format")));
            },
        };
        let key_bytes = match base64_decode(b64.as_str()) {
            Ok(v) => v,
            Err(e) => {
                let mut m = owned("Invalid key base64: ");
                push_str(&mut m, e.as_str());
                return Err(AppError::Crypto(m));
            },
        };
        if key_bytes.len() < 32 {
            return Err(AppError::Crypto(owned("Signing key too short")));
        }
        let mut secret: Vec<u8> = Vec::new();
        let mut i: usize = 0;
        while i < 32
            invariant
                i <= 32,
                key_bytes@.len() >= 32,
                secret@ == key_bytes@.take(i as int),
            decreases 32 - i,
        {
            secret.push(key_bytes[i]);
            proof {
                assert(key_bytes@.take(i + 1) == key_bytes@.take(i as int).push(key_bytes@[i as int]));
            }
            i += 1;
        }
        Ok(NixSigningKey { name, secret })
    }

    /// Sign a message and return `{keyname}:{base64signature}`.
    pub fn sign(&self, message: &str) -> (s: String)
        requires
            self.wf(),
        ensures
            s@ == signature_spec(self.key_name(), self.secret_spec(), message@),
    {
        let sig = ed25519_sign(self.secret.as_slice(), message.as_bytes());
        let sig_base64 = base64_encode(sig.as_slice());
        let mut s = self.name.clone();
        push_char(&mut s, ':');
        push_str(&mut s, sig_base64.as_str());
        s
    }

    /// Sign a derivation and return the full signature.
    pub fn sign_drv(&self, drv_full: &str, nar_hash: &str, nar_size: i64, references: &[String]) -> (s:
        String)
        requires
            self.wf(),
        ensures
            s@ == signature_spec(
                self.key_name(),
                self.secret_spec(),
                fingerprint_spec(drv_full@, nar_hash@, nar_size as int, str_views(references@)),
            ),
    {
        let fp = fingerprint(drv_full, nar_hash, nar_size, references);
        self.sign(fp.as_str())
    }
}

} // verus!
