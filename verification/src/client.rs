//! The command-line client's own logic: how it addresses the server, what
//! an upload sends, how server errors read, and how pins are listed.

use vstd::prelude::*;
use crate::api_types::{PinResponse, PinRoot};
use crate::duration::{format_duration, format_duration_spec};
use crate::sorting::str_views;
use crate::text::{
    int_to_decimal, nat_to_decimal, owned, push_i64_decimal, push_str, push_u64_decimal, trim,
    trim_chars, chars_of, string_from_chars, trim_end_char, trim_end_matches_char,
};

verus! {

/// The server's base URL without trailing slashes.
pub fn normalize_base_url(base_url: &str) -> (s: String)
    ensures
        s@ == trim_end_char(base_url@, '/'),
{
    trim_end_matches_char(base_url, '/')
}

/// The URL of an endpoint: the base URL followed by the endpoint's path.
pub fn endpoint_url(base_url: &str, path: &str) -> (s: String)
    ensures
        s@ == base_url@ + path@,
{
    let mut s = owned(base_url);
    push_str(&mut s, path);
    s
}

/// The pin list URL of a server.
pub fn pins_url(server_url: &str) -> (s: String)
    ensures
        s@ == trim_end_char(server_url@, '/') + "/pins"@,
{
    let mut s = trim_end_matches_char(server_url, '/');
    push_str(&mut s, "/pins");
    s
}

/// The URL of one pin of a server.
pub fn pin_url(server_url: &str, pin_id: i32) -> (s: String)
    ensures
        s@ == trim_end_char(server_url@, '/') + "/pins/"@ + int_to_decimal(pin_id as int),
{
    let mut s = trim_end_matches_char(server_url, '/');
    push_str(&mut s, "/pins/");
    push_i64_decimal(&mut s, pin_id as i64);
    s
}

/// The `Authorization` header value for an API key.
pub fn bearer_header(key: &str) -> (s: String)
    ensures
        s@ == "Bearer "@ + key@,
{
    let mut s = owned("Bearer ");
    push_str(&mut s, key);
    s
}

/// The error body the server answers with.
#[derive(Debug, Clone)]
pub struct ErrorBody {
    pub error: Option<String>,
    pub message: Option<String>,
}

/// The message shown for a failed request: the body's `message`, else its
/// `error`, else `Unknown error` when the body is an error body; the raw
/// body otherwise.
pub open spec fn server_error_spec(status: Seq<char>, parsed: Option<ErrorBody>, body: Seq<char>) -> Seq<
    char,
> {
    let msg = match parsed {
        Some(e) => match e.message {
            Some(m) => m@,
            None => match e.error {
                Some(x) => x@,
                None => "Unknown error"@,
            },
        },
        None => body,
    };
    "Server error ("@ + status + "): "@ + msg
}

/// The error for a response with a failure status (`status` as displayed,
/// such as `404 Not Found`).
pub fn server_error(status: &str, parsed: Option<&ErrorBody>, body: &str) -> (s: String)
    ensures
        s@ == server_error_spec(
            status@,
            match parsed {
                Some(e) => Some(*e),
                None => None,
            },
            body@,
        ),
{
    let mut s = owned("Server error (");
    push_str(&mut s, status);
    push_str(&mut s, "): ");
    match parsed {
        Some(e) => match &e.message {
            Some(m) => push_str(&mut s, m.as_str()),
            None => match &e.error {
                Some(x) => push_str(&mut s, x.as_str()),
                None => push_str(&mut s, "Unknown error"),
            },
        },
        None => push_str(&mut s, body),
    }
    s
}

/// The views of (name, value) pairs.
pub open spec fn pair_views(v: Seq<(String, String)>) -> Seq<(Seq<char>, Seq<char>)> {
    v.map_values(|p: (String, String)| (p.0@, p.1@))
}

/// The text fields of a NAR upload, in order: the lock, the path's base
/// name, its NAR hash and size, its deriver, the compression (`xz`), and
/// one `references[]` field per reference.
pub open spec fn upload_fields_spec(
    lock_id: i32,
    drv_full: Seq<char>,
    hash: Seq<char>,
    size: u64,
    deriver: Seq<char>,
    references: Seq<Seq<char>>,
) -> Seq<(Seq<char>, Seq<char>)> {
    seq![
        ("lock"@, int_to_decimal(lock_id as int)),
        ("drvFull"@, drv_full),
        ("hash"@, hash),
        ("size"@, nat_to_decimal(size as nat)),
        ("deriver"@, deriver),
        ("compression"@, "xz"@),
    ] + references.map_values(|r: Seq<char>| ("references[]"@, r))
}

/// The text fields sent with a NAR upload.
pub fn upload_form_fields(
    lock_id: i32,
    drv_full: &str,
    hash: &str,
    size: u64,
    deriver: &str,
    references: &Vec<String>,
) -> (f: Vec<(String, String)>)
    ensures
        pair_views(f@) == upload_fields_spec(
            lock_id,
            drv_full@,
            hash@,
            size,
            deriver@,
            str_views(references@),
        ),
{
    let mut lock = String::new();
    push_i64_decimal(&mut lock, lock_id as i64);
    let mut sz = String::new();
    push_u64_decimal(&mut sz, size);
    let mut f: Vec<(String, String)> = Vec::new();
    f.push((owned("lock"), lock));
    f.push((owned("drvFull"), owned(drv_full)));
    f.push((owned("hash"), owned(hash)));
    f.push((owned("size"), sz));
    f.push((owned("deriver"), owned(deriver)));
    f.push((owned("compression"), owned("xz")));
    let ghost head = pair_views(f@);
    proof {
        assert(head =~= upload_fields_spec(lock_id, drv_full@, hash@, size, deriver@, seq![]));
    }
    let mut i: usize = 0;
    while i < references.len()
        invariant
            i <= references.len(),
            f@.len() == 6 + i,
            pair_views(f@) == head + str_views(references@).take(i as int).map_values(
                |r: Seq<char>| ("references[]"@, r),
            ),
        decreases references.len() - i,
    {
        let ghost before = pair_views(f@);
        f.push((owned("references[]"), references[i].clone()));
        proof {
            assert(pair_views(f@) =~= before.push(("references[]"@, references@[i as int]@)));
            assert(str_views(references@).take(i as int + 1).map_values(
                |r: Seq<char>| ("references[]"@, r),
            ) =~= str_views(references@).take(i as int).map_values(
                |r: Seq<char>| ("references[]"@, r),
            ).push(("references[]"@, references@[i as int]@)));
        }
        i += 1;
    }
    proof {
        assert(str_views(references@).take(references@.len() as int) =~= str_views(references@));
    }
    f
}

/// The message for a failed upload.
pub fn upload_failed_message(status: &str, body: &str) -> (s: String)
    ensures
        s@ == "Upload failed ("@ + status@ + "): "@ + body@,
{
    let mut s = owned("Upload failed (");
    push_str(&mut s, status);
    push_str(&mut s, "): ");
    push_str(&mut s, body);
    s
}

/// The lock is extended every hour while uploads run.
pub const LOCK_RENEWAL_SECS: u64 = 3600;

/// The lines given on standard input, trimmed, without the empty ones.
pub open spec fn trimmed_nonempty(lines: Seq<Seq<char>>) -> Seq<Seq<char>>
    decreases lines.len(),
{
    if lines.len() == 0 {
        Seq::empty()
    } else {
        let rest = trimmed_nonempty(lines.drop_last());
        let t = trim(lines.last());
        if t.len() > 0 {
            rest.push(t)
        } else {
            rest
        }
    }
}

/// Paths given on standard input, one per line.
pub fn stdin_paths(lines: &Vec<String>) -> (paths: Vec<String>)
    ensures
        str_views(paths@) == trimmed_nonempty(str_views(lines@)),
{
    let ghost ls = str_views(lines@);
    let mut out: Vec<String> = Vec::new();
    let mut i: usize = 0;
    proof {
        assert(ls.take(0) =~= Seq::<Seq<char>>::empty());
        assert(str_views(out@) =~= Seq::<Seq<char>>::empty());
    }
    while i < lines.len()
        invariant
            i <= lines.len(),
            ls == str_views(lines@),
            str_views(out@) == trimmed_nonempty(ls.take(i as int)),
        decreases lines.len() - i,
    {
        let t = trim_chars(&chars_of(lines[i].as_str()));
        proof {
            assert(ls.take(i as int + 1).drop_last() =~= ls.take(i as int));
            assert(ls.take(i as int + 1).last() == lines@[i as int]@);
        }
        if t.len() > 0 {
            let ghost old_out = str_views(out@);
            out.push(string_from_chars(&t));
            proof {
                assert(str_views(out@) =~= old_out.push(t@));
            }
        }
        i += 1;
    }
    proof {
        assert(ls.take(lines@.len() as int) =~= ls);
    }
    out
}

/// Uploads run on every CPU when aggressive, else one at a time.
pub fn choose_parallelism(aggressive: bool, cpus: usize) -> (n: usize)
    ensures
        n == (if aggressive {
            cpus
        } else {
            1
        }),
{
    if aggressive {
        cpus
    } else {
        1
    }
}

/// The lines listing a pin's roots.
pub open spec fn root_lines(roots: Seq<PinRoot>) -> Seq<char>
    decreases roots.len(),
{
    if roots.len() == 0 {
        Seq::empty()
    } else {
        root_lines(roots.drop_last()) + "    /nix/store/"@ + roots.last().drv_full@ + "\n"@
    }
}

/// The status word of a pin.
pub open spec fn status_word(abandoned: bool, has_expiry: bool) -> Seq<char> {
    if abandoned {
        "abandoned"@
    } else if has_expiry {
        "expiring"@
    } else {
        "active"@
    }
}

/// The title line of a pin in `list`: name, id, root count and status.
pub open spec fn pin_title(p: PinResponse) -> Seq<char> {
    p.name@ + " ("@ + int_to_decimal(p.id as int) + ") - "@ + nat_to_decimal(p.roots@.len())
        + " roots ["@ + status_word(p.abandoned, p.expires is Some) + "]\n"@
}

/// The description, creation, expiry and keep-after-abandon lines of a pin
/// in `list`.
pub open spec fn pin_details(p: PinResponse) -> Seq<char> {
    (match p.description {
        Some(d) => "  Description: "@ + d@ + "\n"@,
        None => Seq::empty(),
    }) + "  Created: "@ + p.created@ + "\n"@ + (match p.expires {
        Some(e) => "  Expires: "@ + e@ + "\n"@,
        None => Seq::empty(),
    }) + (match p.leave_after_abandon {
        Some(ms) => "  Leave after abandon: "@ + format_duration_spec(ms as int) + "\n"@,
        None => Seq::empty(),
    })
}

/// How `list` shows one pin: the title, the details, each root, and an
/// empty line.
pub open spec fn pin_block(p: PinResponse) -> Seq<char> {
    pin_title(p) + pin_details(p) + root_lines(p.roots@) + "\n"@
}

/// The blocks of several pins, in order.
pub open spec fn pin_blocks(pins: Seq<PinResponse>) -> Seq<char>
    decreases pins.len(),
{
    if pins.len() == 0 {
        Seq::empty()
    } else {
        pin_blocks(pins.drop_last()) + pin_block(pins.last())
    }
}

/// What `list` prints.
pub open spec fn pin_listing_spec(pins: Seq<PinResponse>) -> Seq<char> {
    if pins.len() == 0 {
        "No pins found.\n"@
    } else {
        pin_blocks(pins)
    }
}

fn push_pin_title(s: &mut String, p: &PinResponse)
    ensures
        final(s)@ == old(s)@ + pin_title(*p),
{
    let ghost start = s@;
    push_str(s, p.name.as_str());
    push_str(s, " (");
    push_i64_decimal(s, p.id as i64);
    push_str(s, ") - ");
    push_u64_decimal(s, p.roots.len() as u64);
    push_str(s, " roots [");
    let label = p.status().label();
    push_str(s, label.as_str());
    push_str(s, "]\n");
    proof {
        assert(s@ =~= start + pin_title(*p));
    }
}

fn push_pin_details(s: &mut String, p: &PinResponse)
    ensures
        final(s)@ == old(s)@ + pin_details(*p),
{
    let ghost start = s@;
    match &p.description {
        Some(d) => {
            push_str(s, "  Description: ");
            push_str(s, d.as_str());
            push_str(s, "\n");
        },
        None => {},
    }
    push_str(s, "  Created: ");
    push_str(s, p.created.as_str());
    push_str(s, "\n");
    match &p.expires {
        Some(e) => {
            push_str(s, "  Expires: ");
            push_str(s, e.as_str());
            push_str(s, "\n");
        },
        None => {},
    }
    match p.leave_after_abandon {
        Some(ms) => {
            push_str(s, "  Leave after abandon: ");
            let d = format_duration(ms);
            push_str(s, d.as_str());
            push_str(s, "\n");
        },
        None => {},
    }
    proof {
        assert(s@ =~= start + pin_details(*p));
    }
}

fn push_root_lines(s: &mut String, roots: &Vec<PinRoot>)
    ensures
        final(s)@ == old(s)@ + root_lines(roots@),
{
    let ghost start = s@;
    let mut i: usize = 0;
    proof {
        assert(roots@.take(0) =~= Seq::<PinRoot>::empty());
        assert(s@ =~= start + root_lines(roots@.take(0)));
    }
    while i < roots.len()
        invariant
            i <= roots.len(),
            s@ == start + root_lines(roots@.take(i as int)),
        decreases roots.len() - i,
    {
        proof {
            assert(roots@.take(i as int + 1).drop_last() =~= roots@.take(i as int));
        }
        push_str(s, "    /nix/store/");
        push_str(s, roots[i].drv_full.as_str());
        push_str(s, "\n");
        proof {
            assert(s@ =~= start + root_lines(roots@.take(i as int + 1)));
        }
        i += 1;
    }
    proof {
        assert(roots@.take(roots@.len() as int) =~= roots@);
    }
}

fn push_pin_block(s: &mut String, p: &PinResponse)
    ensures
        final(s)@ == old(s)@ + pin_block(*p),
{
    let ghost start = s@;
    push_pin_title(s, p);
    push_pin_details(s, p);
    push_root_lines(s, &p.roots);
    push_str(s, "\n");
    proof {
        assert(s@ =~= start + pin_block(*p));
    }
}

/// The text `list` prints for `pins`.
pub fn pin_listing(pins: &Vec<PinResponse>) -> (s: String)
    ensures
        s@ == pin_listing_spec(pins@),
{
    if pins.len() == 0 {
        return owned("No pins found.\n");
    }
    let mut s = String::new();
    let mut i: usize = 0;
    proof {
        assert(pins@.take(0) =~= Seq::<PinResponse>::empty());
    }
    while i < pins.len()
        invariant
            i <= pins.len(),
            pins.len() > 0,
            s@ == pin_blocks(pins@.take(i as int)),
        decreases pins.len() - i,
    {
        proof {
            assert(pins@.take(i as int + 1).drop_last() =~= pins@.take(i as int));
        }
        push_pin_block(&mut s, &pins[i]);
        i += 1;
    }
    proof {
        assert(pins@.take(pins@.len() as int) =~= pins@);
    }
    s
}

} // verus!
