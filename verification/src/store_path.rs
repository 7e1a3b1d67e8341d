//! Store path names: base names, derivation ids, and byte-length rules.

use vstd::prelude::*;
use crate::text::{chars_of, string_from_chars, sub_chars};

verus! {

/// Number of bytes in the UTF-8 encoding of `c`.
pub open spec fn utf8_width(c: char) -> nat {
    let u = c as u32;
    if u < 0x80 {
        1
    } else if u < 0x800 {
        2
    } else if u < 0x10000 {
        3
    } else {
        4
    }
}

/// Number of bytes in the UTF-8 encoding of `s`: what `str::len` returns.
pub open spec fn byte_len(s: Seq<char>) -> nat
    decreases s.len(),
{
    if s.len() == 0 {
        0
    } else {
        utf8_width(s[0]) + byte_len(s.drop_first())
    }
}

/// `byte_len` is the length of vstd's UTF-8 encoding.
pub proof fn lemma_byte_len_encode_utf8(s: Seq<char>)
    ensures
        byte_len(s) == vstd::utf8::encode_utf8(s).len(),
    decreases s.len(),
{
    if s.len() > 0 {
        vstd::utf8::char_is_scalar(s[0]);
        lemma_byte_len_encode_utf8(s.drop_first());
    }
}

/// The first `n` bytes of `s` as characters, when byte `n` falls on a
/// character boundary; `None` otherwise (or when `s` is shorter).
pub open spec fn take_bytes(s: Seq<char>, n: nat) -> Option<Seq<char>>
    decreases s.len(),
{
    if n == 0 {
        Some(Seq::empty())
    } else if s.len() == 0 {
        None
    } else if utf8_width(s[0]) > n {
        None
    } else {
        match take_bytes(s.drop_first(), (n - utf8_width(s[0])) as nat) {
            Some(t) => Some(seq![s[0]] + t),
            None => None,
        }
    }
}

fn char_width(c: char) -> (w: usize)
    ensures
        w == utf8_width(c),
{
    let u = c as u32;
    if u < 0x80 {
        1
    } else if u < 0x800 {
        2
    } else if u < 0x10000 {
        3
    } else {
        4
    }
}

proof fn lemma_take_bytes_step(s: Seq<char>, k: int, n: nat)
    requires
        0 <= k < s.len(),
    ensures
        byte_len(s.take(k + 1)) == byte_len(s.take(k)) + utf8_width(s[k]),
    decreases k,
{
    if k == 0 {
        assert(s.take(1).drop_first() =~= Seq::<char>::empty());
        assert(s.take(0) =~= Seq::<char>::empty());
    } else {
        let t = s.drop_first();
        lemma_take_bytes_step(t, k - 1, n);
        assert(s.take(k + 1).drop_first() =~= t.take(k));
        assert(s.take(k).drop_first() =~= t.take(k - 1));
    }
}

/// `take_bytes` at a prefix's byte length gives that prefix.
proof fn lemma_take_bytes_prefix(s: Seq<char>, k: int)
    requires
        0 <= k <= s.len(),
    ensures
        take_bytes(s, byte_len(s.take(k))) == Some(s.take(k)),
    decreases k,
{
    if k > 0 {
        let t = s.drop_first();
        assert(s.take(k).drop_first() =~= t.take(k - 1));
        lemma_take_bytes_prefix(t, k - 1);
        assert(seq![s[0]] + t.take(k - 1) =~= s.take(k));
    } else {
        assert(s.take(0).len() == 0);
    }
}

/// `take_bytes` fails exactly when `n` falls inside a character (between the
/// byte lengths of two consecutive prefixes).
proof fn lemma_take_bytes_inside(s: Seq<char>, k: int, n: nat)
    requires
        0 <= k < s.len(),
        byte_len(s.take(k)) < n < byte_len(s.take(k + 1)),
    ensures
        take_bytes(s, n) is None,
    decreases k,
{
    lemma_take_bytes_step(s, k, n);
    let t = s.drop_first();
    if k == 0 {
        assert(s.take(0).len() == 0);
    } else {
        assert(s.take(k).drop_first() =~= t.take(k - 1));
        assert(s.take(k + 1).drop_first() =~= t.take(k));
        lemma_take_bytes_inside(t, k - 1, (n - utf8_width(s[0])) as nat);
    }
}

/// The first `n` bytes of `v` as characters, or `None` when byte `n` is not
/// on a character boundary of `v` or lies past its end.
pub fn take_bytes_exec(v: &Vec<char>, n: usize) -> (r: Option<Vec<char>>)
    ensures
        match take_bytes(v@, n as nat) {
            Some(t) => r matches Some(w) && w@ == t,
            None => r is None,
        },
{
    let mut i: usize = 0;
    let mut count: usize = 0;
    proof {
        assert(v@.take(0).len() == 0);
    }
    while i < v.len() && count < n
        invariant
            i <= v.len(),
            count <= n,
            count == byte_len(v@.take(i as int)),
        decreases v.len() - i,
    {
        let w = char_width(v[i]);
        proof {
            lemma_take_bytes_step(v@, i as int, n as nat);
        }
        if w > n - count {
            proof {
                lemma_take_bytes_inside(v@, i as int, n as nat);
            }
            return None;
        }
        count = count + w;
        i += 1;
    }
    if count < n {
        proof {
            assert(v@.take(v@.len() as int) == v@);
            lemma_take_bytes_past_end(v@, n as nat);
        }
        return None;
    }
    proof {
        lemma_take_bytes_prefix(v@, i as int);
    }
    Some(sub_chars(v, 0, i))
}

proof fn lemma_take_bytes_past_end(s: Seq<char>, n: nat)
    requires
        byte_len(s) < n,
    ensures
        take_bytes(s, n) is None,
    decreases s.len(),
{
    if s.len() > 0 {
        lemma_take_bytes_past_end(s.drop_first(), (n - utf8_width(s[0])) as nat);
    }
}

proof fn lemma_byte_len_prefix_le(s: Seq<char>, k: int)
    requires
        0 <= k <= s.len(),
    ensures
        byte_len(s.take(k)) <= byte_len(s),
    decreases k,
{
    if k > 0 {
        let t = s.drop_first();
        assert(s.take(k).drop_first() =~= t.take(k - 1));
        lemma_byte_len_prefix_le(t, k - 1);
    }
}

} // verus!

verus! {

/// Position of the last `c` in `s`, if any.
pub open spec fn rfind_char_spec(s: Seq<char>, c: char) -> Option<nat>
    decreases s.len(),
{
    if s.len() == 0 {
        None
    } else if s.last() == c {
        Some((s.len() - 1) as nat)
    } else {
        rfind_char_spec(s.drop_last(), c)
    }
}

pub proof fn lemma_rfind_bound(s: Seq<char>, c: char)
    ensures
        rfind_char_spec(s, c) matches Some(p) ==> p < s.len() && s[p as int] == c,
    decreases s.len(),
{
    if s.len() > 0 && s.last() != c {
        lemma_rfind_bound(s.drop_last(), c);
    }
}

/// A path segment that `Path::components` drops: empty or `.`.
pub open spec fn is_skipped_segment(seg: Seq<char>) -> bool {
    seg.len() == 0 || seg == seq!['.']
}

/// The last component of a path: the last `/`-separated segment that is
/// neither empty nor `.`.
pub open spec fn last_component(s: Seq<char>) -> Option<Seq<char>>
    decreases s.len(),
{
    match rfind_char_spec(s, '/') {
        None => if is_skipped_segment(s) {
            None
        } else {
            Some(s)
        },
        Some(p) => {
            proof {
                lemma_rfind_bound(s, '/');
            }
            if is_skipped_segment(s.skip(p as int + 1)) {
                last_component(s.take(p as int))
            } else {
                Some(s.skip(p as int + 1))
            }
        },
    }
}

/// What `Path::file_name` gives: the last component, unless it is `..`.
pub open spec fn file_name_spec(s: Seq<char>) -> Option<Seq<char>> {
    match last_component(s) {
        Some(seg) => if seg == seq!['.', '.'] {
            None
        } else {
            Some(seg)
        },
        None => None,
    }
}

/// The base name of a path: its file name, or the path itself when it has none.
pub open spec fn basename_spec(s: Seq<char>) -> Seq<char> {
    match file_name_spec(s) {
        Some(n) => n,
        None => s,
    }
}

/// Without any `c`, `rfind_char_spec` finds none.
proof fn lemma_rfind_absent(s: Seq<char>, c: char)
    requires
        forall|i: int| 0 <= i < s.len() ==> s[i] != c,
    ensures
        rfind_char_spec(s, c) is None,
    decreases s.len(),
{
    if s.len() > 0 {
        lemma_rfind_absent(s.drop_last(), c);
    }
}

/// After the position `rfind_char_spec` reports, no `c` follows.
proof fn lemma_rfind_is_last(s: Seq<char>, c: char)
    ensures
        rfind_char_spec(s, c) matches Some(p) ==> forall|i: int| p < i < s.len() ==> s[i] != c,
        rfind_char_spec(s, c) is None ==> forall|i: int| 0 <= i < s.len() ==> s[i] != c,
    decreases s.len(),
{
    if s.len() > 0 && s.last() != c {
        lemma_rfind_is_last(s.drop_last(), c);
        assert forall|i: int| 0 <= i < s.len() - 1 implies s[i] == s.drop_last()[i] by {}
    }
}

/// A last component is a segment without `/` that is neither empty nor `.`.
proof fn lemma_last_component_plain(s: Seq<char>)
    ensures
        last_component(s) matches Some(seg) ==> !is_skipped_segment(seg) && forall|i: int|
            0 <= i < seg.len() ==> seg[i] != '/',
    decreases s.len(),
{
    lemma_rfind_bound(s, '/');
    lemma_rfind_is_last(s, '/');
    match rfind_char_spec(s, '/') {
        None => {},
        Some(p) => {
            let rest = s.skip(p as int + 1);
            if is_skipped_segment(rest) {
                lemma_last_component_plain(s.take(p as int));
            } else {
                assert forall|i: int| 0 <= i < rest.len() implies rest[i] != '/' by {
                    assert(rest[i] == s[p + 1 + i]);
                }
            }
        },
    }
}

/// Taking the base name twice gives the base name: a path's base name is
/// either the path itself (when it has no final normal component, such as
/// `""`, `/`, `..` or `a/..`) or that component, which holds no `/`.
pub proof fn law_basename_idempotent(p: Seq<char>)
    ensures
        basename_spec(basename_spec(p)) == basename_spec(p),
        file_name_spec(p) is None ==> basename_spec(p) == p,
        file_name_spec(p) is Some ==> forall|i: int|
            0 <= i < basename_spec(p).len() ==> basename_spec(p)[i] != '/',
{
    lemma_last_component_plain(p);
    match file_name_spec(p) {
        Some(n) => {
            lemma_rfind_absent(n, '/');
            assert(last_component(n) == Some(n));
        },
        None => {},
    }
}

fn rfind_before(v: &Vec<char>, j: usize, c: char) -> (r: Option<usize>)
    requires
        j <= v.len(),
    ensures
        match rfind_char_spec(v@.take(j as int), c) {
            Some(p) => r == Some(p as usize),
            None => r is None,
        },
{
    let mut k: usize = j;
    while k > 0
        invariant
            k <= j <= v.len(),
            rfind_char_spec(v@.take(j as int), c) == rfind_char_spec(v@.take(k as int), c),
        decreases k,
    {
        proof {
            assert(v@.take(k as int).drop_last() == v@.take(k - 1));
        }
        if v[k - 1] == c {
            return Some(k - 1);
        }
        k -= 1;
    }
    None
}

fn is_skipped(v: &Vec<char>, lo: usize, hi: usize) -> (b: bool)
    requires
        lo <= hi <= v.len(),
    ensures
        b == is_skipped_segment(v@.subrange(lo as int, hi as int)),
{
    if lo == hi {
        true
    } else if hi - lo == 1 && v[lo] == '.' {
        proof {
            assert(v@.subrange(lo as int, hi as int) =~= seq!['.']);
        }
        true
    } else {
        proof {
            let sub = v@.subrange(lo as int, hi as int);
            assert(seq!['.'].len() == 1);
            if hi - lo == 1 {
                assert(sub[0] != '.');
                assert(seq!['.'][0] == '.');
            }
            if sub == seq!['.'] {
                assert(sub.len() == 1);
            }
        }
        false
    }
}

/// The file name of the path `v` (see `file_name_spec`).
pub fn file_name_chars(v: &Vec<char>) -> (r: Option<Vec<char>>)
    ensures
        match file_name_spec(v@) {
            Some(n) => r matches Some(w) && w@ == n,
            None => r is None,
        },
{
    let mut j: usize = v.len();
    proof {
        assert(v@.take(j as int) == v@);
    }
    let mut seg: Option<(usize, usize)> = None;
    loop
        invariant_except_break
            j <= v.len(),
            last_component(v@) == last_component(v@.take(j as int)),
            seg is None,
        ensures
            match seg {
                Some((lo, hi)) => lo <= hi <= v.len() && last_component(v@) == Some(
                    v@.subrange(lo as int, hi as int),
                ),
                None => last_component(v@) is None,
            },
        decreases j,
    {
        let p = rfind_before(v, j, '/');
        proof {
            lemma_rfind_bound(v@.take(j as int), '/');
        }
        match p {
            None => {
                if is_skipped(v, 0, j) {
                    proof {
                        assert(v@.subrange(0, j as int) == v@.take(j as int));
                    }
                    break;
                } else {
                    proof {
                        assert(v@.subrange(0, j as int) == v@.take(j as int));
                    }
                    seg = Some((0, j));
                    break;
                }
            },
            Some(p) => {
                proof {
                    assert(v@.take(j as int).skip(p + 1) == v@.subrange(p + 1, j as int));
                    assert(v@.take(j as int).take(p as int) == v@.take(p as int));
                }
                if is_skipped(v, p + 1, j) {
                    j = p;
                } else {
                    seg = Some((p + 1, j));
                    break;
                }
            },
        }
    }
    match seg {
        None => None,
        Some((lo, hi)) => {
            let w = sub_chars(v, lo, hi);
            if w.len() == 2 && w[0] == '.' && w[1] == '.' {
                proof {
                    assert(w@ =~= seq!['.', '.']);
                }
                None
            } else {
                proof {
                    if w@.len() == 2 {
                        assert(w@ != seq!['.', '.']) by {
                            if w@ == seq!['.', '.'] {
                                assert(w@[0] == '.' && w@[1] == '.');
                            }
                        }
                    }
                }
                Some(w)
            }
        },
    }
}

/// Get basename of a path: its file name, or the whole path when it has none.
pub fn basename(path: &str) -> (s: String)
    ensures
        s@ == basename_spec(path@),
{
    let v = chars_of(path);
    match file_name_chars(&v) {
        Some(w) => string_from_chars(&w),
        None => string_from_chars(&v),
    }
}

/// The first 32 bytes of a name, or the whole name when it is shorter:
/// the derivation id of a store path's base name.
pub open spec fn drv_id_prefix_spec(s: Seq<char>) -> Seq<char> {
    if byte_len(s) >= 32 {
        take_bytes(s, 32)->0
    } else {
        s
    }
}

/// Taking the first 32 bytes of `s` does not split a character.
pub open spec fn drv_id_prefix_defined(s: Seq<char>) -> bool {
    byte_len(s) >= 32 ==> take_bytes(s, 32) is Some
}

/// Whether the first 32 bytes of `name` can be taken without splitting a
/// character (slicing there panics otherwise).
pub fn drv_id_prefix_ok(name: &str) -> (b: bool)
    ensures
        b == drv_id_prefix_defined(name@),
{
    let v = chars_of(name);
    if !byte_len_exceeds(&v, 31) {
        return true;
    }
    match take_bytes_exec(&v, 32) {
        Some(_) => true,
        None => false,
    }
}

/// The derivation id of a store path's base name: its first 32 bytes.
pub fn drv_id_prefix(name: &str) -> (id: String)
    requires
        drv_id_prefix_defined(name@),
    ensures
        id@ == drv_id_prefix_spec(name@),
{
    let v = chars_of(name);
    proof {
        lemma_byte_len_encode_utf8(name@);
    }
    match take_bytes_exec(&v, 32) {
        Some(w) => {
            proof {
                lemma_take_bytes_some_len(v@, 32);
            }
            string_from_chars(&w)
        },
        None => {
            proof {
                if byte_len(v@) >= 32 {
                    assert(take_bytes(v@, 32) is Some);
                }
            }
            string_from_chars(&v)
        },
    }
}

proof fn lemma_take_bytes_some_len(s: Seq<char>, n: nat)
    ensures
        take_bytes(s, n) is Some ==> byte_len(s) >= n,
    decreases s.len(),
{
    if n > 0 && s.len() > 0 && utf8_width(s[0]) <= n {
        lemma_take_bytes_some_len(s.drop_first(), (n - utf8_width(s[0])) as nat);
    }
}

/// The derivation id of a path: the first 32 bytes of its base name.
pub open spec fn extract_drv_id_spec(path: Seq<char>) -> Seq<char> {
    drv_id_prefix_spec(basename_spec(path))
}

/// Extract the derivation id (first 32 bytes of the base name) from a path.
pub fn extract_drv_id(path: &str) -> (id: String)
    requires
        drv_id_prefix_defined(basename_spec(path@)),
    ensures
        id@ == extract_drv_id_spec(path@),
{
    let b = basename(path);
    drv_id_prefix(b.as_str())
}

/// Whether the UTF-8 length of `v` exceeds `limit` bytes.
pub fn byte_len_exceeds(v: &Vec<char>, limit: usize) -> (b: bool)
    requires
        limit < usize::MAX - 4,
    ensures
        b == (byte_len(v@) > limit),
{
    let mut i: usize = 0;
    let mut count: usize = 0;
    proof {
        assert(v@.take(0).len() == 0);
    }
    while i < v.len()
        invariant
            i <= v.len(),
            limit < usize::MAX - 4,
            count <= limit,
            count == byte_len(v@.take(i as int)),
        decreases v.len() - i,
    {
        proof {
            lemma_take_bytes_step(v@, i as int, 0);
        }
        count = count + char_width(v[i]);
        i += 1;
        if count > limit {
            proof {
                lemma_byte_len_prefix_le(v@, i as int);
            }
            return true;
        }
    }
    proof {
        assert(v@.take(v@.len() as int) == v@);
    }
    false
}

} // verus!
