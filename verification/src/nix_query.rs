//! Reading the output of `nix-store --query`: closures, references,
//! derivers, sizes, and when an empty answer is asked again.

use vstd::prelude::*;
use crate::sorting::str_views;
use crate::store_path::{file_name_chars, file_name_spec};
use crate::text::{
    chars_of, parse_u64_chars, parse_unsigned_spec, split_chars, split_spec, str_eq,
    string_from_chars, trim, trim_chars,
};

verus! {

/// Trimming, as a function on lines.
pub open spec fn trimmed() -> spec_fn(Seq<char>) -> Seq<char> {
    |l: Seq<char>| trim(l)
}

/// Non-emptiness, as a predicate on lines.
pub open spec fn non_empty() -> spec_fn(Seq<char>) -> bool {
    |l: Seq<char>| l.len() > 0
}

/// The lines of a command's output, trimmed, without the empty ones. (Taking
/// `str::lines` instead of splitting at `\n` gives the same: it only drops a
/// `\r` before the `\n` and a last empty line, which trimming and dropping
/// empty lines remove anyway.)
pub open spec fn output_lines(out: Seq<char>) -> Seq<Seq<char>> {
    split_spec(out, '\n').map_values(trimmed()).filter(non_empty())
}

/// The store paths printed by `nix-store --query --requisites`, one per line.
pub fn closure_paths(stdout: &str) -> (paths: Vec<String>)
    ensures
        str_views(paths@) == output_lines(stdout@),
{
    let parts = split_chars(stdout, '\n');
    let ghost ps = str_views(parts@);
    let mut out: Vec<String> = Vec::new();
    let mut i: usize = 0;
    proof {
        reveal(Seq::filter);
        assert(ps.take(0).map_values(trimmed()).filter(non_empty()) =~= Seq::<Seq<char>>::empty());
        assert(str_views(out@) =~= Seq::<Seq<char>>::empty());
    }
    while i < parts.len()
        invariant
            i <= parts.len(),
            ps == str_views(parts@),
            ps == split_spec(stdout@, '\n'),
            str_views(out@) == ps.take(i as int).map_values(trimmed()).filter(non_empty()),
        decreases parts.len() - i,
    {
        let t = trim_chars(&chars_of(parts[i].as_str()));
        let ghost before = ps.take(i as int).map_values(trimmed()).filter(non_empty());
        proof {
            reveal(Seq::filter);
            let m = ps.take(i as int + 1).map_values(trimmed());
            assert(ps[i as int] == parts@[i as int]@);
            assert(m.drop_last() =~= ps.take(i as int).map_values(trimmed()));
            assert(m.last() == t@);
        }
        if t.len() > 0 {
            let ghost old_out = str_views(out@);
            out.push(string_from_chars(&t));
            proof {
                assert(str_views(out@) =~= old_out.push(t@));
            }
        }
        i += 1;
    }
    proof {
        assert(ps.take(parts@.len() as int) =~= ps);
    }
    out
}

/// The file names of `lines`, skipping lines that have none.
pub open spec fn file_names(lines: Seq<Seq<char>>) -> Seq<Seq<char>>
    decreases lines.len(),
{
    if lines.len() == 0 {
        Seq::empty()
    } else {
        let rest = file_names(lines.drop_last());
        match file_name_spec(lines.last()) {
            Some(n) => rest.push(n),
            None => rest,
        }
    }
}

/// The references printed by `nix-store --query --references`, as base names.
pub fn reference_names(stdout: &str) -> (refs: Vec<String>)
    ensures
        str_views(refs@) == file_names(output_lines(stdout@)),
{
    let lines = closure_paths(stdout);
    let ghost ls = str_views(lines@);
    let mut out: Vec<String> = Vec::new();
    let mut i: usize = 0;
    proof {
        assert(ls.take(0) =~= Seq::<Seq<char>>::empty());
        assert(str_views(out@) =~= Seq::<Seq<char>>::empty());
    }
    while i < lines.len()
        invariant
            i <= lines.len(),
            ls == str_views(lines@),
            str_views(out@) == file_names(ls.take(i as int)),
        decreases lines.len() - i,
    {
        let v = chars_of(lines[i].as_str());
        proof {
            assert(ls.take(i as int + 1).drop_last() =~= ls.take(i as int));
            assert(ls.take(i as int + 1).last() == v@);
        }
        match file_name_chars(&v) {
            Some(w) => {
                let ghost old_out = str_views(out@);
                out.push(string_from_chars(&w));
                proof {
                    assert(str_views(out@) =~= old_out.push(w@));
                }
            },
            None => {},
        }
        i += 1;
    }
    proof {
        assert(ls.take(lines@.len() as int) =~= ls);
    }
    out
}

/// The deriver's base name from `nix-store --query --deriver`: empty when
/// the store reports `unknown-deriver` or nothing, or when the path has no
/// file name.
pub open spec fn deriver_spec(result: Seq<char>) -> Seq<char> {
    if result == "unknown-deriver"@ || result.len() == 0 {
        Seq::empty()
    } else {
        match file_name_spec(result) {
            Some(n) => n,
            None => Seq::empty(),
        }
    }
}

/// The deriver's base name from the (trimmed) query result.
pub fn deriver_name(result: &str) -> (d: String)
    ensures
        d@ == deriver_spec(result@),
{
    let v = chars_of(result);
    if str_eq(result, "unknown-deriver") || v.len() == 0 {
        return String::new();
    }
    match file_name_chars(&v) {
        Some(w) => string_from_chars(&w),
        None => String::new(),
    }
}

/// The size from `nix-store --query --size`, or the error that it is not a
/// number.
pub fn parse_size(output: &str) -> (r: Result<u64, String>)
    ensures
        match parse_unsigned_spec(output@, u64::MAX as nat) {
            Some(n) => r == Ok::<u64, String>(n as u64),
            None => r matches Err(e) && e@ == "Failed to parse size"@,
        },
{
    match parse_u64_chars(&chars_of(output)) {
        Some(n) => Ok(n),
        None => Err(crate::text::owned("Failed to parse size")),
    }
}

/// Attempts at a query whose answer comes back empty.
pub const QUERY_ATTEMPTS: u32 = 3;

/// The answer of attempt `attempt` (from zero) at a query with output
/// `stdout`: the trimmed output, unless it is empty and attempts remain,
/// in which case `None` asks for another attempt.
pub fn query_answer(stdout: &str, attempt: u32) -> (r: Option<String>)
    ensures
        (trim(stdout@).len() > 0 || attempt + 1 >= QUERY_ATTEMPTS) ==> (r matches Some(s) && s@
            == trim(stdout@)),
        !(trim(stdout@).len() > 0 || attempt + 1 >= QUERY_ATTEMPTS) ==> r is None,
{
    let t = trim_chars(&chars_of(stdout));
    if t.len() > 0 || attempt >= QUERY_ATTEMPTS - 1 {
        Some(string_from_chars(&t))
    } else {
        None
    }
}

} // verus!
