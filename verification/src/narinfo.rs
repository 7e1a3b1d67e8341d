//! The binary cache's read side: `nix-cache-info`, narinfo documents, and
//! the content type of NAR files.

use vstd::prelude::*;
use crate::error::AppError;
use crate::text::{
    chars_of, ends_with, has_suffix, int_to_decimal, owned, push_char, push_i64_decimal, push_str,
    str_eq, string_from_chars, sub_chars,
};

verus! {

/// A stored derivation, as the database row holds it (times as display text).
#[derive(Debug)]
pub struct Drv {
    pub drv_id: String,
    pub drv_full: String,
    pub nar_hash: String,
    pub nar_size: i64,
    pub file_hash: String,
    pub file_size: i64,
    pub deriver: Option<String>,
    pub sig: Option<String>,
    pub refs: Vec<Option<String>>,
    pub nar_comp: Option<String>,
    pub nar_file: String,
    pub nar_file_storage: String,
    pub gc: bool,
    pub created: String,
    pub last_fetched: Option<String>,
}

/// The cache's metadata document.
pub open spec fn nix_cache_info_spec() -> Seq<char> {
    "StoreDir: /nix/store\nWantMassQuery: 1\nPriority: 30\n"@
}

/// Returns cache metadata in Nix's key-value format.
pub fn nix_cache_info() -> (s: String)
    ensures
        s@ == nix_cache_info_spec(),
{
    owned("StoreDir: /nix/store\nWantMassQuery: 1\nPriority: 30\n")
}

/// The present references of a row (null entries dropped), in order.
pub open spec fn present_refs(refs: Seq<Option<String>>) -> Seq<Seq<char>>
    decreases refs.len(),
{
    if refs.len() == 0 {
        Seq::empty()
    } else {
        match refs.last() {
            Some(r) => present_refs(refs.drop_last()).push(r@),
            None => present_refs(refs.drop_last()),
        }
    }
}

/// `parts` joined with single spaces.
pub open spec fn join_spaces(parts: Seq<Seq<char>>) -> Seq<char>
    decreases parts.len(),
{
    if parts.len() == 0 {
        Seq::empty()
    } else if parts.len() == 1 {
        parts[0]
    } else {
        join_spaces(parts.drop_last()) + seq![' '] + parts.last()
    }
}

/// `label` and `value` as a line: `{label}{value}\n`.
pub open spec fn line(label: Seq<char>, value: Seq<char>) -> Seq<char> {
    label + value + seq!['\n']
}

/// The narinfo document of a derivation: store path, URL, compression (if
/// any), file hash and size, NAR hash and size, references (if any),
/// deriver (if present and non-empty) and signature (if any), one field per
/// line.
pub open spec fn narinfo_spec(d: Drv) -> Seq<char> {
    let refs = present_refs(d.refs@);
    line("StorePath: /nix/store/"@, d.drv_full@) + line("URL: nar/"@, d.nar_file@) + (match d.nar_comp {
        Some(c) => line("Compression: "@, c@),
        None => Seq::empty(),
    }) + line("FileHash: "@, d.file_hash@) + line("FileSize: "@, int_to_decimal(d.file_size as int))
        + line("NarHash: "@, d.nar_hash@) + line("NarSize: "@, int_to_decimal(d.nar_size as int)) + (
    if refs.len() > 0 {
        line("References: "@, join_spaces(refs))
    } else {
        Seq::empty()
    }) + (match d.deriver {
        Some(dv) => if dv@.len() > 0 {
            line("Deriver: "@, dv@)
        } else {
            Seq::empty()
        },
        None => Seq::empty(),
    }) + (match d.sig {
        Some(s) => line("Sig: "@, s@),
        None => Seq::empty(),
    })
}

fn push_line(s: &mut String, label: &str, value: &str)
    ensures
        final(s)@ == old(s)@ + line(label@, value@),
{
    push_str(s, label);
    push_str(s, value);
    push_char(s, '\n');
    proof {
        assert(final(s)@ =~= old(s)@ + line(label@, value@));
    }
}

/// The present references joined with spaces.
fn joined_refs(refs: &Vec<Option<String>>) -> (r: (String, usize))
    ensures
        r.0@ == join_spaces(present_refs(refs@)),
        r.1 == present_refs(refs@).len(),
{
    let mut s = String::new();
    let mut count: usize = 0;
    let mut i: usize = 0;
    proof {
        assert(refs@.take(0).len() == 0);
    }
    while i < refs.len()
        invariant
            i <= refs@.len(),
            s@ == join_spaces(present_refs(refs@.take(i as int))),
            count == present_refs(refs@.take(i as int)).len(),
            count <= i,
        decreases refs@.len() - i,
    {
        proof {
            assert(refs@.take(i + 1).drop_last() == refs@.take(i as int));
        }
        match &refs[i] {
            Some(r) => {
                if count > 0 {
                    push_char(&mut s, ' ');
                }
                push_str(&mut s, r.as_str());
                count += 1;
                proof {
                    let p = present_refs(refs@.take(i + 1));
                    assert(p == present_refs(refs@.take(i as int)).push(r@));
                    assert(p.drop_last() == present_refs(refs@.take(i as int)));
                    if p.len() == 1 {
                        assert(s@ =~= join_spaces(p));
                    } else {
                        assert(s@ =~= join_spaces(p));
                    }
                }
            },
            None => {},
        }
        i += 1;
    }
    proof {
        assert(refs@.take(refs@.len() as int) == refs@);
    }
    (s, count)
}

/// Renders the narinfo document of a derivation.
pub fn render_narinfo(d: &Drv) -> (s: String)
    ensures
        s@ == narinfo_spec(*d),
{
    let mut s = String::new();
    push_line(&mut s, "StorePath: /nix/store/", d.drv_full.as_str());
    push_line(&mut s, "URL: nar/", d.nar_file.as_str());
    let ghost a = s@;
    match &d.nar_comp {
        Some(c) => push_line(&mut s, "Compression: ", c.as_str()),
        None => {},
    }
    let ghost b = s@;
    push_line(&mut s, "FileHash: ", d.file_hash.as_str());
    push_str(&mut s, "FileSize: ");
    push_i64_decimal(&mut s, d.file_size);
    push_char(&mut s, '\n');
    push_line(&mut s, "NarHash: ", d.nar_hash.as_str());
    push_str(&mut s, "NarSize: ");
    push_i64_decimal(&mut s, d.nar_size);
    push_char(&mut s, '\n');
    let ghost c = s@;
    let (joined, count) = joined_refs(&d.refs);
    if count > 0 {
        push_line(&mut s, "References: ", joined.as_str());
    }
    let ghost e = s@;
    match &d.deriver {
        Some(dv) => {
            if !dv.as_str().is_empty() {
                push_line(&mut s, "Deriver: ", dv.as_str());
            }
        },
        None => {},
    }
    let ghost f = s@;
    match &d.sig {
        Some(sig) => push_line(&mut s, "Sig: ", sig.as_str()),
        None => {},
    }
    proof {
        assert(s@ =~= narinfo_spec(*d));
    }
    s
}

/// The derivation id in a `{drvId}.narinfo` request path.
pub open spec fn narinfo_drv_id_spec(path: Seq<char>) -> Option<Seq<char>> {
    if has_suffix(path, ".narinfo"@) {
        Some(path.take(path.len() - 8))
    } else {
        None
    }
}

/// The derivation id of a narinfo request, or `NotFound("Invalid narinfo path")`.
pub fn narinfo_drv_id(path: &str) -> (r: Result<String, AppError>)
    ensures
        match narinfo_drv_id_spec(path@) {
            Some(id) => r matches Ok(s) && s@ == id,
            None => r matches Err(AppError::NotFound(m)) && m@ == "Invalid narinfo path"@,
        },
{
    let v = chars_of(path);
    if ends_with(&v, ".narinfo") {
        proof {
            reveal_strlit(".narinfo");
        }
        let id = sub_chars(&v, 0, v.len() - 8);
        proof {
            assert(id@ == v@.take(v@.len() - 8));
        }
        Ok(string_from_chars(&id))
    } else {
        Err(AppError::NotFound(owned("Invalid narinfo path")))
    }
}

/// The error for an unknown derivation id.
pub fn derivation_not_found(drv_id: &str) -> (e: AppError)
    ensures
        e matches AppError::NotFound(m) && m@ == "Derivation not found: "@ + drv_id@,
{
    let mut m = owned("Derivation not found: ");
    push_str(&mut m, drv_id);
    AppError::NotFound(m)
}

/// The error for a NAR file name no derivation has.
pub fn nar_not_found(filename: &str) -> (e: AppError)
    ensures
        e matches AppError::NotFound(m) && m@ == "NAR file not found: "@ + filename@,
{
    let mut m = owned("NAR file not found: ");
    push_str(&mut m, filename);
    AppError::NotFound(m)
}

/// The error for a NAR file the database knows but storage lacks.
pub fn nar_missing(filename: &str) -> (e: AppError)
    ensures
        e matches AppError::NotFound(m) && m@ == "NAR file missing from storage: "@ + filename@,
{
    let mut m = owned("NAR file missing from storage: ");
    push_str(&mut m, filename);
    AppError::NotFound(m)
}

/// The error for reading a stored file that is not there.
pub fn stored_file_not_found(filename: &str) -> (e: AppError)
    ensures
        e matches AppError::NotFound(m) && m@ == "File not found: "@ + filename@,
{
    let mut m = owned("File not found: ");
    push_str(&mut m, filename);
    AppError::NotFound(m)
}

/// The content type of a NAR file, by its compression.
#[derive(Debug, Clone, Copy, PartialEq, Eq)]
pub enum NarContentType {
    Xz,
    Gzip,
    Zstd,
    Bzip2,
    Binary,
}

/// The content type for a compression: `xz`, `gzip`/`gz`, `zstd`/`zst`,
/// `bzip2`/`bz2`, anything else binary.
pub open spec fn nar_content_type_spec(comp: Option<Seq<char>>) -> NarContentType {
    match comp {
        Some(c) => if c == "xz"@ {
            NarContentType::Xz
        } else if c == "gzip"@ || c == "gz"@ {
            NarContentType::Gzip
        } else if c == "zstd"@ || c == "zst"@ {
            NarContentType::Zstd
        } else if c == "bzip2"@ || c == "bz2"@ {
            NarContentType::Bzip2
        } else {
            NarContentType::Binary
        },
        None => NarContentType::Binary,
    }
}

/// The content type for a NAR's compression.
pub fn nar_content_type(comp: Option<&str>) -> (t: NarContentType)
    ensures
        t == nar_content_type_spec(
            match comp {
                Some(c) => Some(c@),
                None => None,
            },
        ),
{
    match comp {
        Some(c) => if str_eq(c, "xz") {
            NarContentType::Xz
        } else if str_eq(c, "gzip") || str_eq(c, "gz") {
            NarContentType::Gzip
        } else if str_eq(c, "zstd") || str_eq(c, "zst") {
            NarContentType::Zstd
        } else if str_eq(c, "bzip2") || str_eq(c, "bz2") {
            NarContentType::Bzip2
        } else {
            NarContentType::Binary
        },
        None => NarContentType::Binary,
    }
}

impl NarContentType {
    /// The MIME type text.
    pub fn mime(&self) -> (s: String)
        ensures
            s@ == match *self {
                NarContentType::Xz => "application/x-xz"@,
                NarContentType::Gzip => "application/gzip"@,
                NarContentType::Zstd => "application/zstd"@,
                NarContentType::Bzip2 => "application/x-bzip2"@,
                NarContentType::Binary => "application/octet-stream"@,
            },
    {
        match self {
            NarContentType::Xz => owned("application/x-xz"),
            NarContentType::Gzip => owned("application/gzip"),
            NarContentType::Zstd => owned("application/zstd"),
            NarContentType::Bzip2 => owned("application/x-bzip2"),
            NarContentType::Binary => owned("application/octet-stream"),
        }
    }
}

/// A stored row's references, each present.
pub open spec fn stored_refs(refs: Seq<String>) -> Seq<Option<String>> {
    refs.map_values(|r: String| Some(r))
}

/// The narinfo of a derivation stored by an upload lists every reference
/// the upload stored, in the stored order (which is sorted), none dropped.
pub proof fn law_narinfo_lists_stored_refs(refs: Seq<String>)
    ensures
        present_refs(stored_refs(refs)) == crate::sorting::str_views(refs),
    decreases refs.len(),
{
    if refs.len() > 0 {
        let init = refs.drop_last();
        law_narinfo_lists_stored_refs(init);
        assert(stored_refs(refs).drop_last() =~= stored_refs(init));
        assert(crate::sorting::str_views(refs) =~= crate::sorting::str_views(init).push(
            refs.last()@,
        ));
    } else {
        assert(crate::sorting::str_views(refs) =~= Seq::<Seq<char>>::empty());
    }
}

/// `t` occurs in `s`.
pub open spec fn has_substring(s: Seq<char>, t: Seq<char>) -> bool {
    exists|k: int| 0 <= k && k + t.len() <= s.len() && #[trigger] s.subrange(k, k + t.len()) == t
}

/// A row's present references are its non-null entries, in order.
pub proof fn law_present_refs_are_the_non_null(refs: Seq<Option<String>>)
    ensures
        present_refs(refs) == refs.filter(|o: Option<String>| o is Some).map_values(
            |o: Option<String>| o->0@,
        ),
    decreases refs.len(),
{
    reveal_with_fuel(Seq::<_>::filter, 1);
    if refs.len() > 0 {
        law_present_refs_are_the_non_null(refs.drop_last());
        let f = refs.drop_last().filter(|o: Option<String>| o is Some);
        if refs.last() is Some {
            assert(f.push(refs.last()).map_values(|o: Option<String>| o->0@) =~= f.map_values(
                |o: Option<String>| o->0@,
            ).push(refs.last()->0@));
        }
    } else {
        assert(refs.filter(|o: Option<String>| o is Some).map_values(|o: Option<String>| o->0@)
            =~= Seq::<Seq<char>>::empty());
    }
}

/// A row with a non-null reference has at least one present reference.
proof fn lemma_some_ref_present(refs: Seq<Option<String>>, i: int)
    requires
        0 <= i < refs.len(),
        refs[i] is Some,
    ensures
        present_refs(refs).len() > 0,
    decreases refs.len(),
{
    if i < refs.len() - 1 {
        lemma_some_ref_present(refs.drop_last(), i);
    }
}

/// One part joined with spaces is that part.
pub proof fn law_join_single(r: Seq<char>)
    ensures
        join_spaces(seq![r]) == r,
{
}

/// Whenever a row has a non-null reference, its narinfo holds the line
/// `References: ` followed by the present references joined with single
/// spaces; with one present reference `r`, that line is `References: {r}`.
pub proof fn law_narinfo_lists_references(d: Drv)
    ensures
        (exists|i: int| 0 <= i < d.refs@.len() && d.refs@[i] is Some) ==> has_substring(
            narinfo_spec(d),
            "References: "@ + join_spaces(present_refs(d.refs@)) + "\n"@,
        ),
        present_refs(d.refs@).len() == 1 ==> has_substring(
            narinfo_spec(d),
            "References: "@ + present_refs(d.refs@)[0] + "\n"@,
        ),
{
    let refs = present_refs(d.refs@);
    if exists|i: int| 0 <= i < d.refs@.len() && d.refs@[i] is Some {
        let i = choose|i: int| 0 <= i < d.refs@.len() && d.refs@[i] is Some;
        lemma_some_ref_present(d.refs@, i);
    }
    if refs.len() > 0 {
        let l = line("References: "@, join_spaces(refs));
        let pre = line("StorePath: /nix/store/"@, d.drv_full@) + line("URL: nar/"@, d.nar_file@) + (
        match d.nar_comp {
            Some(c) => line("Compression: "@, c@),
            None => Seq::empty(),
        }) + line("FileHash: "@, d.file_hash@) + line(
            "FileSize: "@,
            int_to_decimal(d.file_size as int),
        ) + line("NarHash: "@, d.nar_hash@) + line("NarSize: "@, int_to_decimal(d.nar_size as int));
        let post = (match d.deriver {
            Some(dv) => if dv@.len() > 0 {
                line("Deriver: "@, dv@)
            } else {
                Seq::empty()
            },
            None => Seq::empty(),
        }) + (match d.sig {
            Some(s) => line("Sig: "@, s@),
            None => Seq::empty(),
        });
        let doc = narinfo_spec(d);
        reveal_strlit("\n");
        assert(doc =~= pre + l + post);
        assert(l =~= "References: "@ + join_spaces(refs) + "\n"@);
        assert(doc.subrange(pre.len() as int, pre.len() as int + l.len() as int) =~= l);
        if refs.len() == 1 {
            assert(refs =~= seq![refs[0]]);
        }
    }
}

} // verus!
