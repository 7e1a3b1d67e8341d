//! Lexicographic order of strings and sorting of string lists.

use vstd::prelude::*;
use crate::text::chars_of;

verus! {

broadcast use vstd::seq_lib::group_to_multiset_ensures;

/// `a` sorts strictly before `b`: the order of `String`'s `Ord`, which is
/// byte-wise lexicographic on UTF-8 and hence lexicographic on code points.
pub open spec fn seq_lt(a: Seq<char>, b: Seq<char>) -> bool
    decreases a.len(),
{
    if a.len() == 0 {
        b.len() > 0
    } else if b.len() == 0 {
        false
    } else if a[0] != b[0] {
        (a[0] as u32) < (b[0] as u32)
    } else {
        seq_lt(a.drop_first(), b.drop_first())
    }
}

/// `s` is in non-decreasing order.
pub open spec fn sorted_strs(s: Seq<Seq<char>>) -> bool {
    forall|i: int, j: int| 0 <= i < j < s.len() ==> !seq_lt(#[trigger] s[j], #[trigger] s[i])
}

/// The views of a list of strings.
pub open spec fn str_views(v: Seq<String>) -> Seq<Seq<char>> {
    v.map_values(|s: String| s@)
}

/// No string sorts before itself.
pub proof fn lemma_lt_irreflexive(a: Seq<char>)
    ensures
        !seq_lt(a, a),
    decreases a.len(),
{
    if a.len() > 0 {
        lemma_lt_irreflexive(a.drop_first());
    }
}

/// The order is transitive.
pub proof fn lemma_lt_transitive(a: Seq<char>, b: Seq<char>, c: Seq<char>)
    requires
        seq_lt(a, b),
        seq_lt(b, c),
    ensures
        seq_lt(a, c),
    decreases a.len(),
{
    if a.len() > 0 && b.len() > 0 && c.len() > 0 && a[0] == b[0] && b[0] == c[0] {
        lemma_lt_transitive(a.drop_first(), b.drop_first(), c.drop_first());
    }
}

/// Of two different strings one sorts before the other.
pub proof fn lemma_lt_total(a: Seq<char>, b: Seq<char>)
    ensures
        a == b || seq_lt(a, b) || seq_lt(b, a),
    decreases a.len(),
{
    if a.len() > 0 && b.len() > 0 && a[0] == b[0] {
        lemma_lt_total(a.drop_first(), b.drop_first());
        if a.drop_first() == b.drop_first() {
            assert(a =~= seq![a[0]] + a.drop_first());
            assert(b =~= seq![b[0]] + b.drop_first());
        }
    } else if a.len() > 0 && b.len() > 0 {
        let x = a[0] as u32;
        let y = b[0] as u32;
        vstd::utf8::char_u32_cast(a[0], x);
        vstd::utf8::char_u32_cast(b[0], y);
    } else if a.len() == 0 && b.len() == 0 {
        assert(a =~= b);
    }
}

/// Whether `a` sorts strictly before `b`.
pub fn str_lt(a: &str, b: &str) -> (r: bool)
    ensures
        r == seq_lt(a@, b@),
{
    let x = chars_of(a);
    let y = chars_of(b);
    let mut i: usize = 0;
    proof {
        assert(x@.skip(0) == x@);
        assert(y@.skip(0) == y@);
    }
    while i < x.len() && i < y.len() && x[i] == y[i]
        invariant
            x@ == a@,
            y@ == b@,
            i <= x.len(),
            i <= y.len(),
            seq_lt(a@, b@) == seq_lt(x@.skip(i as int), y@.skip(i as int)),
        decreases x.len() - i,
    {
        proof {
            assert(x@.skip(i as int).drop_first() == x@.skip(i + 1));
            assert(y@.skip(i as int).drop_first() == y@.skip(i + 1));
        }
        i += 1;
    }
    if i == x.len() {
        i < y.len()
    } else if i == y.len() {
        false
    } else {
        (x[i] as u32) < (y[i] as u32)
    }
}

/// Position at which `x` goes into the sorted list `out`: before the first
/// element that `x` sorts strictly before.
fn insertion_point(out: &Vec<String>, x: &String) -> (p: usize)
    ensures
        p <= out@.len(),
        forall|j: int| 0 <= j < p ==> !seq_lt(x@, #[trigger] out@[j]@),
        p < out@.len() ==> seq_lt(x@, out@[p as int]@),
{
    let mut p: usize = 0;
    while p < out.len()
        invariant
            p <= out@.len(),
            forall|j: int| 0 <= j < p ==> !seq_lt(x@, #[trigger] out@[j]@),
        decreases out@.len() - p,
    {
        if str_lt(x.as_str(), out[p].as_str()) {
            return p;
        }
        p += 1;
    }
    p
}

/// `v` sorted into non-decreasing order: a sorted permutation of the input.
pub fn sort_strings(v: &Vec<String>) -> (r: Vec<String>)
    ensures
        str_views(r@).to_multiset() == str_views(v@).to_multiset(),
        sorted_strs(str_views(r@)),
{
    let mut out: Vec<String> = Vec::new();
    let mut i: usize = 0;
    proof {
        assert(str_views(v@).take(0) =~= str_views(out@));
    }
    while i < v.len()
        invariant
            i <= v@.len(),
            str_views(out@).to_multiset() == str_views(v@).take(i as int).to_multiset(),
            sorted_strs(str_views(out@)),
        decreases v@.len() - i,
    {
        let x = v[i].clone();
        let p = insertion_point(&out, &x);
        let ghost old_out = str_views(out@);
        out.insert(p, x);
        proof {
            let nv = str_views(out@);
            assert(nv =~= old_out.insert(p as int, x@));
            assert(nv.remove(p as int) =~= old_out);
            assert(nv[p as int] == x@);
            assert(nv.to_multiset() =~= old_out.to_multiset().insert(x@)) by {
                assert(nv.remove(p as int).to_multiset() =~= nv.to_multiset().remove(nv[p as int]));
                assert(nv.contains(x@));
            }
            let t = str_views(v@).take(i + 1);
            assert(t =~= str_views(v@).take(i as int).push(x@));
            assert forall|a: int, b: int| 0 <= a < b < nv.len() implies !seq_lt(
                #[trigger] nv[b],
                #[trigger] nv[a],
            ) by {
                if b < p {
                    assert(nv[a] == old_out[a] && nv[b] == old_out[b]);
                } else if b == p {
                    assert(nv[a] == old_out[a]);
                    assert(!seq_lt(x@, out@[a]@));
                } else if a == p {
                    assert(nv[b] == old_out[b - 1]);
                    if seq_lt(old_out[b - 1], x@) {
                        assert(seq_lt(x@, old_out[p as int]));
                        lemma_lt_transitive(old_out[b - 1], x@, old_out[p as int]);
                        if b - 1 == p {
                            lemma_lt_irreflexive(old_out[p as int]);
                        }
                    }
                } else if a < p {
                    assert(nv[a] == old_out[a] && nv[b] == old_out[b - 1]);
                } else {
                    assert(nv[a] == old_out[a - 1] && nv[b] == old_out[b - 1]);
                }
            }
        }
        i += 1;
    }
    proof {
        assert(str_views(v@).take(v@.len() as int) == str_views(v@));
    }
    out
}

} // verus!
