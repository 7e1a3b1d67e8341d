//! The NAR upload: collecting the multipart form's fields, checking them,
//! and deriving the derivation record that is stored.

use vstd::prelude::*;
use crate::crypto::{
    base64_encode, base64_to_nix_base32, fingerprint_spec, is_crypto_error, parse_hash,
    parse_hash_error, parse_hash_spec, signature_spec, signing_key_error_message,
    signing_key_parts, NixSigningKey,
};
use crate::error::AppError;
use crate::nar_hash::{sha256, NarHasher};
use crate::nix_base32::nix_base32_spec;
use crate::sorting::{sort_strings, sorted_strs, str_views};
use crate::text::{
    before_first, chars_of, owned, parse_i32_chars, parse_i64_chars, parse_signed_spec, push_str,
    str_eq, text_before,
};

verus! {

/// The stored file of an upload: its size, its SHA-256 digest, and the name
/// under which storage keeps it.
#[derive(Debug)]
pub struct StoredFile {
    pub size: u64,
    pub sha256: Vec<u8>,
    pub storage_name: String,
}

impl StoredFile {
    /// The stored file whose `size` bytes were fed to `hasher` as they were
    /// written under `storage_name`: its digest is the SHA-256 of those bytes.
    pub fn from_hasher(size: u64, hasher: NarHasher, storage_name: String) -> (f: StoredFile)
        ensures
            f.size == size,
            f.sha256@ == sha256(hasher.absorbed()),
            f.sha256@.len() == 32,
            f.storage_name == storage_name,
    {
        StoredFile { size, sha256: hasher.finish(), storage_name }
    }
}

/// The fields of an upload form collected so far.
#[derive(Debug)]
pub struct UploadFields {
    pub hash: Option<String>,
    pub deriver: Option<String>,
    pub size: Option<i64>,
    pub lock: Option<i32>,
    pub drv_full: Option<String>,
    pub compression: Option<String>,
    pub references: Vec<String>,
    pub file: Option<StoredFile>,
}

/// Which text field a form field name denotes.
pub enum FieldKind {
    Hash,
    Deriver,
    Size,
    Lock,
    DrvFull,
    Compression,
    Reference,
    File,
    Ignored,
}

/// The kind of a form field, by its name.
pub open spec fn field_kind_spec(name: Seq<char>) -> FieldKind {
    if name == "file"@ {
        FieldKind::File
    } else if name == "hash"@ {
        FieldKind::Hash
    } else if name == "deriver"@ {
        FieldKind::Deriver
    } else if name == "size"@ {
        FieldKind::Size
    } else if name == "lock"@ {
        FieldKind::Lock
    } else if name == "drvFull"@ {
        FieldKind::DrvFull
    } else if name == "compression"@ {
        FieldKind::Compression
    } else if name == "references[]"@ || name == "references"@ {
        FieldKind::Reference
    } else {
        FieldKind::Ignored
    }
}

/// The kind of a form field, by its name.
pub fn field_kind(name: &str) -> (k: FieldKind)
    ensures
        k == field_kind_spec(name@),
{
    if str_eq(name, "file") {
        FieldKind::File
    } else if str_eq(name, "hash") {
        FieldKind::Hash
    } else if str_eq(name, "deriver") {
        FieldKind::Deriver
    } else if str_eq(name, "size") {
        FieldKind::Size
    } else if str_eq(name, "lock") {
        FieldKind::Lock
    } else if str_eq(name, "drvFull") {
        FieldKind::DrvFull
    } else if str_eq(name, "compression") {
        FieldKind::Compression
    } else if str_eq(name, "references[]") || str_eq(name, "references") {
        FieldKind::Reference
    } else {
        FieldKind::Ignored
    }
}

/// `e` is a `BadRequest` with message `m`.
pub open spec fn is_bad_request(e: AppError, m: Seq<char>) -> bool {
    e matches AppError::BadRequest(msg) && msg@ == m
}

/// The view of an optional string.
pub open spec fn opt_seq(o: Option<String>) -> Option<Seq<char>> {
    match o {
        Some(s) => Some(s@),
        None => None,
    }
}

impl UploadFields {
    /// No field seen yet.
    pub fn new() -> (f: UploadFields)
        ensures
            f.hash is None,
            f.deriver is None,
            f.size is None,
            f.lock is None,
            f.drv_full is None,
            f.compression is None,
            f.references@.len() == 0,
            f.file is None,
    {
        UploadFields {
            hash: None,
            deriver: None,
            size: None,
            lock: None,
            drv_full: None,
            compression: None,
            references: Vec::new(),
            file: None,
        }
    }

    /// Records a text field of the form. A later field of the same name
    /// replaces an earlier one, except references, which accumulate; an
    /// empty deriver is ignored; a size or lock that does not parse as an
    /// integer is refused; unknown names (and `file`) leave the fields as
    /// they are.
    pub fn accept_text(&mut self, name: &str, value: String) -> (r: Result<(), AppError>)
        ensures
            match field_kind_spec(name@) {
                FieldKind::Size => match parse_signed_spec(value@, i64::MAX as nat) {
                    Some(v) => r is Ok && final(self).size == Some(v as i64) && final(self).unchanged_but_size(*old(self)),
                    None => r matches Err(e) && is_bad_request(e, "Invalid size"@),
                },
                FieldKind::Lock => match parse_signed_spec(value@, i32::MAX as nat) {
                    Some(v) => r is Ok && final(self).lock == Some(v as i32) && final(self).unchanged_but_lock(*old(self)),
                    None => r matches Err(e) && is_bad_request(e, "Invalid lock"@),
                },
                FieldKind::Hash => r is Ok && opt_seq(final(self).hash) == Some(value@)
                    && final(self).unchanged_but_hash(*old(self)),
                FieldKind::Deriver => r is Ok && (if value@.len() == 0 {
                    final(self).same_as(*old(self))
                } else {
                    opt_seq(final(self).deriver) == Some(value@) && final(self).unchanged_but_deriver(*old(self))
                }),
                FieldKind::DrvFull => r is Ok && opt_seq(final(self).drv_full) == Some(value@)
                    && final(self).unchanged_but_drv_full(*old(self)),
                FieldKind::Compression => r is Ok && opt_seq(final(self).compression) == Some(
                    value@,
                ) && final(self).unchanged_but_compression(*old(self)),
                FieldKind::Reference => r is Ok && str_views(final(self).references@) == str_views(
                    old(self).references@,
                ).push(value@) && final(self).unchanged_but_references(*old(self)),
                _ => r is Ok && final(self).same_as(*old(self)),
            },
    {
        match field_kind(name) {
            FieldKind::Hash => {
                self.hash = Some(value);
                Ok(())
            },
            FieldKind::Deriver => {
                if !value.as_str().is_empty() {
                    self.deriver = Some(value);
                }
                Ok(())
            },
            FieldKind::Size => {
                match parse_i64_chars(&chars_of(value.as_str())) {
                    Some(v) => {
                        self.size = Some(v);
                        Ok(())
                    },
                    None => Err(AppError::BadRequest(owned("Invalid size"))),
                }
            },
            FieldKind::Lock => {
                match parse_i32_chars(&chars_of(value.as_str())) {
                    Some(v) => {
                        self.lock = Some(v);
                        Ok(())
                    },
                    None => Err(AppError::BadRequest(owned("Invalid lock"))),
                }
            },
            FieldKind::DrvFull => {
                self.drv_full = Some(value);
                Ok(())
            },
            FieldKind::Compression => {
                self.compression = Some(value);
                Ok(())
            },
            FieldKind::Reference => {
                let ghost before = self.references@;
                self.references.push(value);
                proof {
                    assert(str_views(self.references@) =~= str_views(before).push(value@));
                }
                Ok(())
            },
            _ => Ok(()),
        }
    }

    /// The fields other than `size` are as in `o`.
    pub open spec fn unchanged_but_size(&self, o: UploadFields) -> bool {
        &&& self.hash == o.hash
        &&& self.deriver == o.deriver
        &&& self.lock == o.lock
        &&& self.drv_full == o.drv_full
        &&& self.compression == o.compression
        &&& self.references@ == o.references@
        &&& self.file == o.file
    }

    /// The fields other than `lock` are as in `o`.
    pub open spec fn unchanged_but_lock(&self, o: UploadFields) -> bool {
        &&& self.hash == o.hash
        &&& self.deriver == o.deriver
        &&& self.size == o.size
        &&& self.drv_full == o.drv_full
        &&& self.compression == o.compression
        &&& self.references@ == o.references@
        &&& self.file == o.file
    }

    /// The fields other than `hash` are as in `o`.
    pub open spec fn unchanged_but_hash(&self, o: UploadFields) -> bool {
        &&& self.deriver == o.deriver
        &&& self.size == o.size
        &&& self.lock == o.lock
        &&& self.drv_full == o.drv_full
        &&& self.compression == o.compression
        &&& self.references@ == o.references@
        &&& self.file == o.file
    }

    /// The fields other than `deriver` are as in `o`.
    pub open spec fn unchanged_but_deriver(&self, o: UploadFields) -> bool {
        &&& self.hash == o.hash
        &&& self.size == o.size
        &&& self.lock == o.lock
        &&& self.drv_full == o.drv_full
        &&& self.compression == o.compression
        &&& self.references@ == o.references@
        &&& self.file == o.file
    }

    /// The fields other than `drv_full` are as in `o`.
    pub open spec fn unchanged_but_drv_full(&self, o: UploadFields) -> bool {
        &&& self.hash == o.hash
        &&& self.deriver == o.deriver
        &&& self.size == o.size
        &&& self.lock == o.lock
        &&& self.compression == o.compression
        &&& self.references@ == o.references@
        &&& self.file == o.file
    }

    /// The fields other than `compression` are as in `o`.
    pub open spec fn unchanged_but_compression(&self, o: UploadFields) -> bool {
        &&& self.hash == o.hash
        &&& self.deriver == o.deriver
        &&& self.size == o.size
        &&& self.lock == o.lock
        &&& self.drv_full == o.drv_full
        &&& self.references@ == o.references@
        &&& self.file == o.file
    }

    /// The fields other than the references are as in `o`.
    pub open spec fn unchanged_but_references(&self, o: UploadFields) -> bool {
        &&& self.hash == o.hash
        &&& self.deriver == o.deriver
        &&& self.size == o.size
        &&& self.lock == o.lock
        &&& self.drv_full == o.drv_full
        &&& self.compression == o.compression
        &&& self.file == o.file
    }

    /// All fields are as in `o`.
    pub open spec fn same_as(&self, o: UploadFields) -> bool {
        &&& self.unchanged_but_hash(o)
        &&& self.hash == o.hash
    }

    /// Where the file field goes in storage: under the full derivation name,
    /// which must have come earlier in the form.
    pub fn storage_name_for_file(&self) -> (r: Result<String, AppError>)
        ensures
            match self.drv_full {
                Some(d) => r matches Ok(n) && n@ == d@,
                None => r matches Err(e) && is_bad_request(
                    e,
                    "drvFull must come before file in multipart form"@,
                ),
            },
    {
        match &self.drv_full {
            Some(d) => Ok(d.clone()),
            None => Err(AppError::BadRequest(owned("drvFull must come before file in multipart form"))),
        }
    }

    /// Records the stored file.
    pub fn accept_file(&mut self, file: StoredFile)
        ensures
            final(self).file == Some(file),
            final(self).hash == old(self).hash,
            final(self).deriver == old(self).deriver,
            final(self).size == old(self).size,
            final(self).lock == old(self).lock,
            final(self).drv_full == old(self).drv_full,
            final(self).compression == old(self).compression,
            final(self).references@ == old(self).references@,
    {
        self.file = Some(file);
    }
}

} // verus!

verus! {

/// An upload form with all required fields present.
#[derive(Debug)]
pub struct CompleteUpload {
    pub file: StoredFile,
    pub hash: String,
    pub size: i64,
    pub lock: i32,
    pub drv_full: String,
    pub deriver: Option<String>,
    pub compression: Option<String>,
    pub references: Vec<String>,
}

impl UploadFields {
    /// Checks that the required fields are present, in the order file, hash,
    /// size, lock, drvFull; the first missing one is reported.
    pub fn finish(self) -> (r: Result<CompleteUpload, AppError>)
        ensures
            match (self.file, self.hash, self.size, self.lock, self.drv_full) {
                (None, _, _, _, _) => r matches Err(e) && is_bad_request(e, "Missing file"@),
                (Some(_), None, _, _, _) => r matches Err(e) && is_bad_request(e, "Missing hash"@),
                (Some(_), Some(_), None, _, _) => r matches Err(e) && is_bad_request(
                    e,
                    "Missing size"@,
                ),
                (Some(_), Some(_), Some(_), None, _) => r matches Err(e) && is_bad_request(
                    e,
                    "Missing lock"@,
                ),
                (Some(_), Some(_), Some(_), Some(_), None) => r matches Err(e) && is_bad_request(
                    e,
                    "Missing drvFull"@,
                ),
                (Some(f), Some(h), Some(s), Some(l), Some(d)) => r matches Ok(c) && c.file == f
                    && c.hash == h && c.size == s && c.lock == l && c.drv_full == d && c.deriver
                    == self.deriver && c.compression == self.compression && c.references@
                    == self.references@,
            },
    {
        let file = match self.file {
            Some(f) => f,
            None => return Err(AppError::BadRequest(owned("Missing file"))),
        };
        let hash = match self.hash {
            Some(h) => h,
            None => return Err(AppError::BadRequest(owned("Missing hash"))),
        };
        let size = match self.size {
            Some(s) => s,
            None => return Err(AppError::BadRequest(owned("Missing size"))),
        };
        let lock = match self.lock {
            Some(l) => l,
            None => return Err(AppError::BadRequest(owned("Missing lock"))),
        };
        let drv_full = match self.drv_full {
            Some(d) => d,
            None => return Err(AppError::BadRequest(owned("Missing drvFull"))),
        };
        Ok(CompleteUpload {
            file,
            hash,
            size,
            lock,
            drv_full,
            deriver: self.deriver,
            compression: self.compression,
            references: self.references,
        })
    }
}

/// A derivation record to store.
#[derive(Debug)]
pub struct NewDrv {
    pub drv_id: String,
    pub drv_full: String,
    pub nar_hash: String,
    pub nar_size: i64,
    pub file_hash: String,
    pub file_size: i64,
    pub deriver: Option<String>,
    pub sig: Option<String>,
    pub refs: Vec<String>,
    pub nar_comp: Option<String>,
    pub nar_file: String,
    pub nar_file_storage: String,
}

/// The name under which a NAR is served: `{drvId}.nar` or `{drvId}.nar.{compression}`.
pub open spec fn nar_file_spec(drv_id: Seq<char>, compression: Option<Seq<char>>) -> Seq<char> {
    match compression {
        Some(c) => drv_id + ".nar."@ + c,
        None => drv_id + ".nar"@,
    }
}

/// The NAR file name for a derivation id and compression.
pub fn nar_file_name(drv_id: &str, compression: Option<&str>) -> (s: String)
    ensures
        s@ == nar_file_spec(
            drv_id@,
            match compression {
                Some(c) => Some(c@),
                None => None,
            },
        ),
{
    let mut s = owned(drv_id);
    match compression {
        Some(c) => {
            push_str(&mut s, ".nar.");
            push_str(&mut s, c);
        },
        None => push_str(&mut s, ".nar"),
    }
    s
}

/// The upload's inputs are small enough for the hash conversions.
pub open spec fn upload_within_limits(u: CompleteUpload) -> bool {
    &&& u.hash@.len() * 8 + 4 <= usize::MAX
    &&& u.file.sha256@.len() <= usize::MAX / 2
    &&& (4 * ((u.file.sha256@.len() + 2) / 3)) * 8 + 4 <= usize::MAX
}

/// Whether the upload's inputs are small enough for the hash conversions.
pub fn upload_fits(u: &CompleteUpload) -> (b: bool)
    ensures
        b == upload_within_limits(*u),
{
    let h = chars_of(u.hash.as_str()).len() as u128;
    let f = u.file.sha256.len() as u128;
    let max = usize::MAX as u128;
    if h > max || f > max / 2 {
        return false;
    }
    let enc: u128 = 4 * ((f + 2) / 3);
    h * 8 + 4 <= max && enc * 8 + 4 <= max
}

/// The record stored for a complete upload, when the NAR hash and the
/// signing key (if one is configured) parse. The derivation id is the full
/// name up to the first `-`; references are sorted; the file hash is
/// `sha256:` and the Nix base32 of the stored file's digest; the NAR hash is
/// `{algo}:{base32}`; the signature covers the sorted references.
pub open spec fn upload_record_ok(
    u: CompleteUpload,
    signing_key: Option<Seq<char>>,
    d: NewDrv,
) -> bool {
    let drv_id = before_first(u.drv_full@, '-');
    let (algo, nix_hash) = parse_hash_spec(u.hash@)->Ok_0;
    let nar_hash = algo + seq![':'] + nix_hash;
    &&& d.drv_id@ == drv_id
    &&& d.drv_full@ == u.drv_full@
    &&& d.nar_hash@ == nar_hash
    &&& d.nar_size == u.size
    &&& d.file_hash@ == "sha256:"@ + nix_base32_spec(u.file.sha256@)
    &&& d.file_size == u.file.size as i64
    &&& d.deriver == u.deriver
    &&& str_views(d.refs@).to_multiset() == str_views(u.references@).to_multiset()
    &&& sorted_strs(str_views(d.refs@))
    &&& d.nar_comp == u.compression
    &&& d.nar_file@ == nar_file_spec(drv_id, opt_seq(u.compression))
    &&& d.nar_file_storage == u.file.storage_name
    &&& match signing_key {
        None => d.sig is None,
        Some(k) => {
            let (name, secret) = signing_key_parts(k)->0;
            d.sig matches Some(s) && s@ == signature_spec(
                name,
                secret,
                fingerprint_spec(u.drv_full@, nar_hash, u.size as int, str_views(d.refs@)),
            )
        },
    }
}

/// The derivation record for a complete upload, signed with the configured
/// key. The NAR hash may be in SRI format (`sha256-base64`) or in Nix format
/// (`sha256:base32`, passed through as it is). Fails when the NAR hash is
/// neither or the signing key does not parse.
pub fn plan_upload_record(u: CompleteUpload, signing_key: Option<&str>) -> (r: Result<
    NewDrv,
    AppError,
>)
    requires
        upload_within_limits(u),
    ensures
        parse_hash_spec(u.hash@) is Err ==> (r matches Err(e) && is_crypto_error(
            e,
            parse_hash_error(u.hash@),
        )),
        parse_hash_spec(u.hash@) is Ok ==> match signing_key {
            Some(k) => match signing_key_parts(k@) {
                None => r matches Err(e) && is_crypto_error(e, signing_key_error_message(k@)),
                Some(_) => r matches Ok(d) && upload_record_ok(u, Some(k@), d),
            },
            None => r matches Ok(d) && upload_record_ok(u, None, d),
        },
{
    let drv_id = text_before(u.drv_full.as_str(), '-');
    let refs = sort_strings(&u.references);
    let file_hash_base64 = base64_encode(u.file.sha256.as_slice());
    let file_hash_nix = match base64_to_nix_base32(file_hash_base64.as_str()) {
        Ok(h) => h,
        Err(e) => return Err(e),
    };
    let mut file_hash = owned("sha256:");
    push_str(&mut file_hash, file_hash_nix.as_str());
    let (algo, nar_hash_nix) = match parse_hash(u.hash.as_str()) {
        Ok(p) => p,
        Err(e) => return Err(e),
    };
    let mut nar_hash = algo;
    push_str(&mut nar_hash, ":");
    push_str(&mut nar_hash, nar_hash_nix.as_str());
    proof {
        reveal_strlit(":");
    }
    let sig = match signing_key {
        Some(k) => {
            let key = match NixSigningKey::from_config(k) {
                Ok(key) => key,
                Err(e) => return Err(e),
            };
            Some(key.sign_drv(u.drv_full.as_str(), nar_hash.as_str(), u.size, refs.as_slice()))
        },
        None => None,
    };
    let nar_file = match &u.compression {
        Some(c) => nar_file_name(drv_id.as_str(), Some(c.as_str())),
        None => nar_file_name(drv_id.as_str(), None),
    };
    let ghost sri = parse_hash_spec(u.hash@)->Ok_0;
    proof {
        assert(nar_hash@ == sri.0 + seq![':'] + sri.1);
        assert(file_hash@ == "sha256:"@ + nix_base32_spec(u.file.sha256@));
        assert(drv_id@ == before_first(u.drv_full@, '-'));
        assert(nar_file@ == nar_file_spec(drv_id@, opt_seq(u.compression)));
    }
    Ok(NewDrv {
        drv_id,
        drv_full: u.drv_full,
        nar_hash,
        nar_size: u.size,
        file_hash,
        file_size: u.file.size as i64,
        deriver: u.deriver,
        sig,
        refs,
        nar_comp: u.compression,
        nar_file,
        nar_file_storage: u.file.storage_name,
    })
}

/// The multipart boundary of an upload's content type, or the error that
/// it is missing.
pub fn require_boundary(boundary: Option<&str>) -> (r: Result<String, AppError>)
    ensures
        match boundary {
            Some(b) => r matches Ok(s) && s@ == b@,
            None => r matches Err(e) && is_bad_request(e, "Missing multipart boundary"@),
        },
{
    match boundary {
        Some(b) => Ok(owned(b)),
        None => Err(AppError::BadRequest(owned("Missing multipart boundary"))),
    }
}

/// An upload must name a lock that exists; otherwise its stored file is to
/// be deleted and the upload refused.
pub fn require_upload_lock(lock_exists: bool) -> (r: Result<(), AppError>)
    ensures
        lock_exists ==> r is Ok,
        !lock_exists ==> (r matches Err(e) && is_bad_request(e, "Invalid lock"@)),
{
    if lock_exists {
        Ok(())
    } else {
        Err(AppError::BadRequest(owned("Invalid lock")))
    }
}

/// Largest upload body accepted, in bytes (2 GiB).
pub const MAX_UPLOAD_BYTES: u64 = 2147483648;

} // verus!
