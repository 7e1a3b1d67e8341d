//! The tree of pins that the web interface shows: pin names are paths
//! separated by `/`, and each pin sits at the node its name leads to.

use vstd::prelude::*;
use crate::api_types::{pin_status_spec, PinResponse, PinStatus};
use crate::duration::{format_duration, format_duration_spec};
use crate::sorting::{seq_lt, str_lt, str_views};
use crate::text::{split_chars, split_spec, str_eq};

verus! {

/// A path of tree node names.
pub type NodePath = Seq<Seq<char>>;

/// Where `insert_at_path` puts a pin for the path segments `p`: the node
/// reached by following the segments, where a final empty segment stays at
/// the node before it.
pub open spec fn location_spec(p: NodePath) -> NodePath {
    if p.len() > 0 && p.last().len() == 0 {
        p.drop_last()
    } else {
        p
    }
}

/// The node a pin named `name` belongs to.
pub open spec fn pin_location(name: Seq<char>) -> NodePath {
    location_spec(split_spec(name, '/'))
}

/// A pin placed in the tree.
#[derive(Debug)]
pub struct PinTreeEntry {
    pub location: Vec<String>,
    pub pin: PinResponse,
}

/// The pins of the web interface, arranged by path. The tree is kept as the
/// pins with their node paths; a node is the set of pins whose path has the
/// node's path as prefix.
#[derive(Debug)]
pub struct PinTreeNode {
    pub entries: Vec<PinTreeEntry>,
}

/// A placed pin as (node path, abandoned).
pub type EntryView = (NodePath, bool);

impl PinTreeEntry {
    /// The entry as (node path, abandoned).
    pub open spec fn view_of(&self) -> EntryView {
        (str_views(self.location@), self.pin.abandoned)
    }
}

/// The entries as (node path, abandoned) pairs.
pub open spec fn entries_view(e: Seq<PinTreeEntry>) -> Seq<EntryView> {
    e.map_values(|x: PinTreeEntry| x.view_of())
}

/// `prefix` is a prefix of the path `p`.
pub open spec fn path_has_prefix(p: NodePath, prefix: NodePath) -> bool {
    prefix.len() <= p.len() && p.take(prefix.len() as int) == prefix
}

/// Which pins a count selects.
pub enum PinFilter {
    All,
    Active,
    Abandoned,
}

/// Whether a pin with the given abandoned flag counts under `f`.
pub open spec fn filter_accepts(f: PinFilter, abandoned: bool) -> bool {
    match f {
        PinFilter::All => true,
        PinFilter::Active => !abandoned,
        PinFilter::Abandoned => abandoned,
    }
}

/// Number of entries under `prefix` that `f` selects.
pub open spec fn count_under(es: Seq<EntryView>, prefix: NodePath, f: PinFilter) -> nat
    decreases es.len(),
{
    if es.len() == 0 {
        0
    } else {
        count_under(es.drop_last(), prefix, f) + if path_has_prefix(es.last().0, prefix)
            && filter_accepts(f, es.last().1) {
            1nat
        } else {
            0nat
        }
    }
}

fn path_prefix_exec(p: &Vec<String>, prefix: &Vec<String>) -> (b: bool)
    ensures
        b == path_has_prefix(str_views(p@), str_views(prefix@)),
{
    if prefix.len() > p.len() {
        return false;
    }
    let mut i: usize = 0;
    while i < prefix.len()
        invariant
            prefix@.len() <= p@.len(),
            i <= prefix@.len(),
            forall|j: int| 0 <= j < i ==> str_views(p@)[j] == str_views(prefix@)[j],
        decreases prefix@.len() - i,
    {
        if !str_eq(p[i].as_str(), prefix[i].as_str()) {
            proof {
                assert(str_views(p@).take(prefix@.len() as int)[i as int] == str_views(p@)[i as int]);
            }
            return false;
        }
        i += 1;
    }
    proof {
        assert(str_views(p@).take(prefix@.len() as int) =~= str_views(prefix@));
    }
    true
}

fn accepts(f: &PinFilter, abandoned: bool) -> (b: bool)
    ensures
        b == filter_accepts(*f, abandoned),
{
    match f {
        PinFilter::All => true,
        PinFilter::Active => !abandoned,
        PinFilter::Abandoned => abandoned,
    }
}

impl PinTreeNode {
    /// An empty tree.
    pub fn new() -> (t: PinTreeNode)
        ensures
            t.entries@.len() == 0,
    {
        PinTreeNode { entries: Vec::new() }
    }

    /// Insert a pin at the node given by the path segments `path`: the
    /// segments are followed from the root, and a final empty segment adds
    /// the pin to the node before it.
    pub fn insert_at_path(&mut self, path: &Vec<String>, pin: PinResponse)
        ensures
            entries_view(final(self).entries@) == entries_view(old(self).entries@).push(
                (location_spec(str_views(path@)), pin.abandoned),
            ),
            final(self).entries@.last().pin == pin,
            final(self).entries@.drop_last() == old(self).entries@,
            final(self).entries@.len() == old(self).entries@.len() + 1,
    {
        let mut location: Vec<String> = Vec::new();
        let n = path.len();
        let keep = if n > 0 && path[n - 1].as_str().is_empty() {
            n - 1
        } else {
            n
        };
        let mut i: usize = 0;
        while i < keep
            invariant
                keep <= path@.len(),
                i <= keep,
                str_views(location@) == str_views(path@).take(i as int),
            decreases keep - i,
        {
            let ghost before = location@;
            location.push(path[i].clone());
            proof {
                assert(str_views(location@) =~= str_views(before).push(path@[i as int]@));
                assert(str_views(path@).take(i + 1) =~= str_views(path@).take(i as int).push(
                    path@[i as int]@,
                ));
            }
            i += 1;
        }
        proof {
            let pv = str_views(path@);
            if n > 0 && path@[n - 1]@.len() == 0 {
                assert(pv.take(keep as int) =~= pv.drop_last());
            } else {
                assert(pv.take(keep as int) =~= pv);
            }
        }
        let entry = PinTreeEntry { location, pin };
        let ghost before = self.entries@;
        self.entries.push(entry);
        proof {
            assert(entries_view(self.entries@) =~= entries_view(before).push(entry.view_of()));
            assert(self.entries@.drop_last() =~= before);
        }
    }

    /// Insert a pin into the tree based on its name (split by `/`).
    pub fn insert(&mut self, pin: PinResponse)
        ensures
            entries_view(final(self).entries@) == entries_view(old(self).entries@).push(
                (pin_location(pin.name@), pin.abandoned),
            ),
            final(self).entries@.last().pin == pin,
            final(self).entries@.drop_last() == old(self).entries@,
            final(self).entries@.len() == old(self).entries@.len() + 1,
    {
        let parts = split_chars(pin.name.as_str(), '/');
        self.insert_at_path(&parts, pin);
    }

    /// Number of pins under the node at `prefix` that `f` selects.
    pub fn count_pins(&self, prefix: &Vec<String>, f: PinFilter) -> (n: usize)
        ensures
            n == count_under(entries_view(self.entries@), str_views(prefix@), f),
    {
        let mut n: usize = 0;
        let mut i: usize = 0;
        proof {
            assert(entries_view(self.entries@).take(0).len() == 0);
        }
        while i < self.entries.len()
            invariant
                i <= self.entries@.len(),
                n <= i,
                n == count_under(entries_view(self.entries@).take(i as int), str_views(prefix@), f),
            decreases self.entries@.len() - i,
        {
            proof {
                let ev = entries_view(self.entries@);
                assert(ev.take(i + 1).drop_last() == ev.take(i as int));
                assert(ev.take(i + 1).last() == self.entries@[i as int].view_of());
            }
            let e = &self.entries[i];
            if path_prefix_exec(&e.location, prefix) && accepts(&f, e.pin.abandoned) {
                n += 1;
            }
            i += 1;
        }
        proof {
            assert(entries_view(self.entries@).take(self.entries@.len() as int) == entries_view(
                self.entries@,
            ));
        }
        n
    }

    /// Count total pins in the subtree at `prefix`.
    pub fn total_pins(&self, prefix: &Vec<String>) -> (n: usize)
        ensures
            n == count_under(entries_view(self.entries@), str_views(prefix@), PinFilter::All),
    {
        self.count_pins(prefix, PinFilter::All)
    }

    /// Count active (not abandoned) pins in the subtree at `prefix`.
    pub fn active_pins(&self, prefix: &Vec<String>) -> (n: usize)
        ensures
            n == count_under(entries_view(self.entries@), str_views(prefix@), PinFilter::Active),
    {
        self.count_pins(prefix, PinFilter::Active)
    }

    /// Count abandoned pins in the subtree at `prefix`.
    pub fn abandoned_pins(&self, prefix: &Vec<String>) -> (n: usize)
        ensures
            n == count_under(entries_view(self.entries@), str_views(prefix@), PinFilter::Abandoned),
    {
        self.count_pins(prefix, PinFilter::Abandoned)
    }

    /// Whether the subtree at `prefix` has any active (non-abandoned) pin.
    pub fn has_active_pins(&self, prefix: &Vec<String>) -> (b: bool)
        ensures
            b == (count_under(entries_view(self.entries@), str_views(prefix@), PinFilter::Active)
                > 0),
    {
        self.active_pins(prefix) > 0
    }
}

/// The tree of a list of pins, inserted in order.
pub fn build_pin_tree(pins: Vec<PinResponse>) -> (t: PinTreeNode)
    ensures
        t.entries@.len() == pins@.len(),
        forall|i: int|
            0 <= i < pins@.len() ==> #[trigger] t.entries@[i].pin == pins@[i] && t.entries@[i].view_of()
                == (pin_location(pins@[i].name@), pins@[i].abandoned),
{
    let mut t = PinTreeNode::new();
    let mut rest = pins;
    let ghost all = rest@;
    let total = rest.len();
    let ghost n = all.len();
    let mut k: usize = 0;
    while rest.len() > 0
        invariant
            k + rest@.len() == n,
            n == total,
            all.len() == n,
            rest@ == all.skip(k as int),
            t.entries@.len() == k,
            forall|i: int|
                0 <= i < k ==> #[trigger] t.entries@[i].pin == all[i] && t.entries@[i].view_of()
                    == (pin_location(all[i].name@), all[i].abandoned),
        decreases rest@.len(),
    {
        let pin = rest.remove(0);
        proof {
            assert(pin == all[k as int]);
            assert(rest@ =~= all.skip(k + 1));
        }
        let ghost before = t.entries@;
        t.insert(pin);
        proof {
            assert forall|i: int| 0 <= i < k + 1 implies #[trigger] t.entries@[i].pin == all[i]
                && t.entries@[i].view_of() == (pin_location(all[i].name@), all[i].abandoned) by {
                if i < k {
                    assert(t.entries@[i] == t.entries@.drop_last()[i]);
                } else {
                    assert(entries_view(t.entries@)[i] == t.entries@[i].view_of());
                    assert(t.entries@[i] == t.entries@.last());
                }
            }
        }
        k += 1;
    }
    t
}

} // verus!

verus! {

/// `name` is a child of the node at `prefix`: some pin lies below
/// `prefix` followed by `name`.
pub open spec fn is_child_name(es: Seq<EntryView>, prefix: NodePath, name: Seq<char>) -> bool {
    exists|i: int|
        0 <= i < es.len() && #[trigger] es[i].0.len() > prefix.len() && path_has_prefix(
            es[i].0,
            prefix,
        ) && es[i].0[prefix.len() as int] == name
}

/// `s` is in strictly increasing order (so without repeats).
pub open spec fn strictly_sorted(s: Seq<Seq<char>>) -> bool {
    forall|i: int, j: int| 0 <= i < j < s.len() ==> seq_lt(#[trigger] s[i], #[trigger] s[j])
}

/// Inserts `x` into the strictly sorted list `out` unless it is there.
fn insert_sorted_unique(out: &mut Vec<String>, x: &String)
    requires
        strictly_sorted(str_views(old(out)@)),
    ensures
        strictly_sorted(str_views(final(out)@)),
        forall|y: Seq<char>|
            str_views(final(out)@).contains(y) <==> (str_views(old(out)@).contains(y) || y == x@),
{
    let ghost ov = str_views(out@);
    let mut p: usize = 0;
    while p < out.len()
        invariant
            p <= out@.len(),
            ov == str_views(out@),
            strictly_sorted(ov),
            forall|j: int| 0 <= j < p ==> seq_lt(#[trigger] ov[j], x@),
        ensures
            p <= out@.len(),
            ov == str_views(out@),
            forall|j: int| 0 <= j < p ==> seq_lt(#[trigger] ov[j], x@),
            p < out@.len() ==> seq_lt(x@, ov[p as int]),
        decreases out@.len() - p,
    {
        if str_eq(out[p].as_str(), x.as_str()) {
            proof {
                assert(ov[p as int] == x@);
            }
            return;
        }
        if str_lt(x.as_str(), out[p].as_str()) {
            break;
        }
        proof {
            crate::sorting::lemma_lt_total(ov[p as int], x@);
        }
        p += 1;
    }
    out.insert(p, x.clone());
    proof {
        let nv = str_views(out@);
        assert(nv =~= ov.insert(p as int, x@));
        assert forall|a: int, b: int| 0 <= a < b < nv.len() implies seq_lt(
            #[trigger] nv[a],
            #[trigger] nv[b],
        ) by {
            if b < p {
            } else if b == p {
                assert(nv[a] == ov[a]);
            } else if a == p {
                assert(nv[b] == ov[b - 1]);
                if b - 1 > p {
                    crate::sorting::lemma_lt_transitive(x@, ov[p as int], ov[b - 1]);
                }
            } else if a < p {
                assert(nv[a] == ov[a] && nv[b] == ov[b - 1]);
            } else {
                assert(nv[a] == ov[a - 1] && nv[b] == ov[b - 1]);
            }
        }
        assert forall|y: Seq<char>| nv.contains(y) <==> (ov.contains(y) || y == x@) by {
            if nv.contains(y) {
                let k = choose|k: int| 0 <= k < nv.len() && nv[k] == y;
                if k < p {
                    assert(ov[k] == y);
                } else if k > p {
                    assert(ov[k - 1] == y);
                }
            }
            if ov.contains(y) {
                let k = choose|k: int| 0 <= k < ov.len() && ov[k] == y;
                if k < p {
                    assert(nv[k] == y);
                } else {
                    assert(nv[k + 1] == y);
                }
            }
            if y == x@ {
                assert(nv[p as int] == y);
            }
        }
    }
}

impl PinTreeNode {
    /// The names of the children of the node at `prefix`, in sorted order,
    /// each once.
    pub fn child_names(&self, prefix: &Vec<String>) -> (names: Vec<String>)
        ensures
            strictly_sorted(str_views(names@)),
            forall|y: Seq<char>|
                str_views(names@).contains(y) <==> is_child_name(
                    entries_view(self.entries@),
                    str_views(prefix@),
                    y,
                ),
    {
        let ghost es = entries_view(self.entries@);
        let ghost pv = str_views(prefix@);
        let mut names: Vec<String> = Vec::new();
        let mut i: usize = 0;
        while i < self.entries.len()
            invariant
                i <= self.entries@.len(),
                es == entries_view(self.entries@),
                pv == str_views(prefix@),
                strictly_sorted(str_views(names@)),
                forall|y: Seq<char>|
                    str_views(names@).contains(y) <==> is_child_name(es.take(i as int), pv, y),
            decreases self.entries@.len() - i,
        {
            let e = &self.entries[i];
            let ghost t = es.take(i + 1);
            proof {
                assert(t[i as int] == e.view_of());
                assert forall|y: Seq<char>| is_child_name(t, pv, y) <==> (is_child_name(
                    es.take(i as int),
                    pv,
                    y,
                ) || (t[i as int].0.len() > pv.len() && path_has_prefix(t[i as int].0, pv)
                    && t[i as int].0[pv.len() as int] == y)) by {
                    if is_child_name(es.take(i as int), pv, y) {
                        let k = choose|k: int|
                            0 <= k < es.take(i as int).len() && #[trigger] es.take(
                                i as int,
                            )[k].0.len() > pv.len() && path_has_prefix(es.take(i as int)[k].0, pv)
                                && es.take(i as int)[k].0[pv.len() as int] == y;
                        assert(t[k] == es.take(i as int)[k]);
                    }
                    if is_child_name(t, pv, y) {
                        let k = choose|k: int|
                            0 <= k < t.len() && #[trigger] t[k].0.len() > pv.len() && path_has_prefix(
                                t[k].0,
                                pv,
                            ) && t[k].0[pv.len() as int] == y;
                        if k < i {
                            assert(es.take(i as int)[k] == t[k]);
                        }
                    }
                }
            }
            if e.location.len() > prefix.len() && path_prefix_exec(&e.location, prefix) {
                let c = &e.location[prefix.len()];
                proof {
                    assert(str_views(e.location@)[prefix@.len() as int] == c@);
                }
                insert_sorted_unique(&mut names, c);
            }
            i += 1;
        }
        proof {
            assert(es.take(self.entries@.len() as int) == es);
        }
        names
    }

    /// The children of the node at `prefix` in display order: those with an
    /// active pin first, each group in name order.
    pub fn ordered_children(&self, prefix: &Vec<String>) -> (names: Vec<String>)
        ensures
            ({
                let all = self.child_names_spec(str_views(prefix@));
                let es = entries_view(self.entries@);
                let pv = str_views(prefix@);
                str_views(names@) == all.filter(|c: Seq<char>| child_has_active(es, pv, c))
                    + all.filter(|c: Seq<char>| !child_has_active(es, pv, c))
            }),
    {
        let names = self.child_names(prefix);
        let ghost nv = str_views(names@);
        proof {
            self.lemma_child_names_unique(str_views(prefix@), nv);
        }
        let mut active: Vec<String> = Vec::new();
        let mut idle: Vec<String> = Vec::new();
        let mut i: usize = 0;
        while i < names.len()
            invariant
                i <= names@.len(),
                nv == str_views(names@),
                nv == self.child_names_spec(str_views(prefix@)),
                str_views(active@) == nv.take(i as int).filter(
                    |c: Seq<char>| child_has_active(entries_view(self.entries@), str_views(prefix@), c),
                ),
                str_views(idle@) == nv.take(i as int).filter(
                    |c: Seq<char>| !child_has_active(entries_view(self.entries@), str_views(prefix@), c),
                ),
            decreases names@.len() - i,
        {
            let mut child_path: Vec<String> = Vec::new();
            let mut j: usize = 0;
            while j < prefix.len()
                invariant
                    j <= prefix@.len(),
                    str_views(child_path@) == str_views(prefix@).take(j as int),
                decreases prefix@.len() - j,
            {
                let ghost before = child_path@;
                child_path.push(prefix[j].clone());
                proof {
                    assert(str_views(child_path@) =~= str_views(before).push(prefix@[j as int]@));
                    assert(str_views(prefix@).take(j + 1) =~= str_views(prefix@).take(j as int).push(
                        prefix@[j as int]@,
                    ));
                }
                j += 1;
            }
            let ghost before_path = child_path@;
            child_path.push(names[i].clone());
            proof {
                assert(str_views(prefix@).take(prefix@.len() as int) == str_views(prefix@));
                assert(str_views(child_path@) =~= str_views(prefix@).push(nv[i as int]));
            }
            let has_active = self.has_active_pins(&child_path);
            proof {
                reveal_with_fuel(Seq::<_>::filter, 1);
                assert(nv.take(i + 1).drop_last() == nv.take(i as int));
            }
            if has_active {
                let ghost b = active@;
                active.push(names[i].clone());
                proof {
                    assert(str_views(active@) =~= str_views(b).push(nv[i as int]));
                }
            } else {
                let ghost b = idle@;
                idle.push(names[i].clone());
                proof {
                    assert(str_views(idle@) =~= str_views(b).push(nv[i as int]));
                }
            }
            i += 1;
        }
        proof {
            assert(nv.take(names@.len() as int) == nv);
        }
        let ghost a = active@;
        let mut k: usize = 0;
        while k < idle.len()
            invariant
                k <= idle@.len(),
                str_views(active@) == str_views(a) + str_views(idle@).take(k as int),
            decreases idle@.len() - k,
        {
            let ghost b = active@;
            active.push(idle[k].clone());
            proof {
                assert(str_views(active@) =~= str_views(b).push(idle@[k as int]@));
                assert(str_views(idle@).take(k + 1) =~= str_views(idle@).take(k as int).push(
                    idle@[k as int]@,
                ));
                assert(str_views(a) + str_views(idle@).take(k + 1) =~= (str_views(a) + str_views(
                    idle@,
                ).take(k as int)).push(idle@[k as int]@));
            }
            k += 1;
        }
        proof {
            assert(str_views(idle@).take(idle@.len() as int) == str_views(idle@));
        }
        active
    }

    /// The child names of the node at `prefix`: the strictly sorted list of
    /// names that `is_child_name` accepts.
    pub closed spec fn child_names_spec(&self, prefix: NodePath) -> Seq<Seq<char>> {
        choose|s: Seq<Seq<char>>|
            strictly_sorted(s) && forall|y: Seq<char>|
                s.contains(y) <==> is_child_name(entries_view(self.entries@), prefix, y)
    }

    /// Any strictly sorted list of exactly the child names is `child_names_spec`.
    pub proof fn lemma_child_names_unique(&self, prefix: NodePath, s: Seq<Seq<char>>)
        requires
            strictly_sorted(s),
            forall|y: Seq<char>|
                s.contains(y) <==> is_child_name(entries_view(self.entries@), prefix, y),
        ensures
            self.child_names_spec(prefix) == s,
    {
        let c = self.child_names_spec(prefix);
        lemma_strictly_sorted_unique(c, s);
    }
}

/// The node `prefix` followed by `c` has an active pin below it.
pub open spec fn child_has_active(es: Seq<EntryView>, prefix: NodePath, c: Seq<char>) -> bool {
    count_under(es, prefix.push(c), PinFilter::Active) > 0
}

/// Two strictly sorted lists with the same elements are equal.
pub proof fn lemma_strictly_sorted_unique(a: Seq<Seq<char>>, b: Seq<Seq<char>>)
    requires
        strictly_sorted(a),
        strictly_sorted(b),
        forall|y: Seq<char>| a.contains(y) <==> b.contains(y),
    ensures
        a == b,
    decreases a.len(),
{
    if a.len() == 0 {
        if b.len() > 0 {
            assert(b.contains(b[0]));
        }
    } else if b.len() == 0 {
        assert(a.contains(a[0]));
    } else {
        // The first elements are the smallest of each, hence equal.
        assert(a.contains(a[0]));
        assert(b.contains(b[0]));
        let i = choose|i: int| 0 <= i < b.len() && b[i] == a[0];
        let j = choose|j: int| 0 <= j < a.len() && a[j] == b[0];
        if i > 0 {
            assert(seq_lt(b[0], b[i]));
            if j > 0 {
                assert(seq_lt(a[0], a[j]));
                crate::sorting::lemma_lt_transitive(b[0], a[0], b[0]);
                crate::sorting::lemma_lt_irreflexive(b[0]);
            }
        }
        if j > 0 {
            assert(seq_lt(a[0], a[j]));
            if i > 0 {
            } else {
                crate::sorting::lemma_lt_irreflexive(a[0]);
            }
        }
        assert(a[0] == b[0]);
        let ta = a.drop_first();
        let tb = b.drop_first();
        assert forall|y: Seq<char>| ta.contains(y) <==> tb.contains(y) by {
            if ta.contains(y) {
                let k = choose|k: int| 0 <= k < ta.len() && ta[k] == y;
                assert(a[k + 1] == y);
                assert(seq_lt(a[0], y));
                crate::sorting::lemma_lt_irreflexive(y);
                assert(b.contains(y));
                let m = choose|m: int| 0 <= m < b.len() && b[m] == y;
                assert(m != 0);
                assert(tb[m - 1] == y);
            }
            if tb.contains(y) {
                let k = choose|k: int| 0 <= k < tb.len() && tb[k] == y;
                assert(b[k + 1] == y);
                assert(seq_lt(b[0], y));
                crate::sorting::lemma_lt_irreflexive(y);
                assert(a.contains(y));
                let m = choose|m: int| 0 <= m < a.len() && a[m] == y;
                assert(m != 0);
                assert(ta[m - 1] == y);
            }
        }
        assert forall|p: int, q: int| 0 <= p < q < ta.len() implies seq_lt(
            #[trigger] ta[p],
            #[trigger] ta[q],
        ) by {
            assert(ta[p] == a[p + 1] && ta[q] == a[q + 1]);
        }
        assert forall|p: int, q: int| 0 <= p < q < tb.len() implies seq_lt(
            #[trigger] tb[p],
            #[trigger] tb[q],
        ) by {
            assert(tb[p] == b[p + 1] && tb[q] == b[q + 1]);
        }
        lemma_strictly_sorted_unique(ta, tb);
        assert(a =~= seq![a[0]] + ta);
        assert(b =~= seq![b[0]] + tb);
    }
}

} // verus!

verus! {

/// The pins exactly at the node `prefix`, in insertion order.
pub open spec fn pins_at_spec(es: Seq<PinTreeEntry>, prefix: NodePath) -> Seq<PinResponse>
    decreases es.len(),
{
    if es.len() == 0 {
        Seq::empty()
    } else if str_views(es.last().location@) == prefix {
        pins_at_spec(es.drop_last(), prefix).push(es.last().pin)
    } else {
        pins_at_spec(es.drop_last(), prefix)
    }
}

/// The pins at a node are the pins of exactly the entries located at that
/// node, in insertion order: an entry whose location only extends the node
/// (a pin further down the tree) is not among them.
pub proof fn law_pins_at_exact_node(es: Seq<PinTreeEntry>, prefix: NodePath)
    ensures
        pins_at_spec(es, prefix) == es.filter(
            |e: PinTreeEntry| str_views(e.location@) == prefix,
        ).map_values(|e: PinTreeEntry| e.pin),
        forall|i: int|
            0 <= i < es.len() && str_views(es[i].location@) != prefix ==> !es.filter(
                |e: PinTreeEntry| str_views(e.location@) == prefix,
            ).contains(#[trigger] es[i]),
    decreases es.len(),
{
    reveal_with_fuel(Seq::<_>::filter, 1);
    let at = |e: PinTreeEntry| str_views(e.location@) == prefix;
    es.filter_lemma(at);
    if es.len() > 0 {
        law_pins_at_exact_node(es.drop_last(), prefix);
        let f = es.drop_last().filter(at);
        if at(es.last()) {
            assert(f.push(es.last()).map_values(|e: PinTreeEntry| e.pin) =~= f.map_values(
                |e: PinTreeEntry| e.pin,
            ).push(es.last().pin));
        }
    } else {
        assert(es.filter(at).map_values(|e: PinTreeEntry| e.pin) =~= Seq::<PinResponse>::empty());
    }
    assert forall|i: int|
        0 <= i < es.len() && str_views(es[i].location@) != prefix implies !es.filter(at).contains(
        #[trigger] es[i]) by {
        if es.filter(at).contains(es[i]) {
            let k = choose|k: int| 0 <= k < es.filter(at).len() && es.filter(at)[k] == es[i];
            assert(at(es.filter(at)[k]));
        }
    }
}

fn path_eq_exec(a: &Vec<String>, b: &Vec<String>) -> (r: bool)
    ensures
        r == (str_views(a@) == str_views(b@)),
{
    if a.len() != b.len() {
        return false;
    }
    let r = path_prefix_exec(a, b);
    proof {
        if str_views(a@) == str_views(b@) {
            assert(str_views(a@).take(str_views(b@).len() as int) =~= str_views(a@));
        }
        if r {
            assert(str_views(a@).take(str_views(b@).len() as int) =~= str_views(a@));
        }
    }
    r
}

impl PinTreeNode {
    /// The pins at exactly the node `prefix`.
    pub fn pins_at(&self, prefix: &Vec<String>) -> (r: Vec<&PinResponse>)
        ensures
            r@.len() == pins_at_spec(self.entries@, str_views(prefix@)).len(),
            forall|i: int|
                0 <= i < r@.len() ==> *r@[i] == #[trigger] pins_at_spec(
                    self.entries@,
                    str_views(prefix@),
                )[i],
    {
        let mut r: Vec<&PinResponse> = Vec::new();
        let mut i: usize = 0;
        proof {
            assert(self.entries@.take(0).len() == 0);
        }
        while i < self.entries.len()
            invariant
                i <= self.entries@.len(),
                r@.len() == pins_at_spec(self.entries@.take(i as int), str_views(prefix@)).len(),
                forall|k: int|
                    0 <= k < r@.len() ==> *r@[k] == #[trigger] pins_at_spec(
                        self.entries@.take(i as int),
                        str_views(prefix@),
                    )[k],
            decreases self.entries@.len() - i,
        {
            proof {
                assert(self.entries@.take(i + 1).drop_last() == self.entries@.take(i as int));
            }
            let e = &self.entries[i];
            if path_eq_exec(&e.location, prefix) {
                r.push(&e.pin);
            }
            i += 1;
        }
        proof {
            assert(self.entries@.take(self.entries@.len() as int) == self.entries@);
        }
        r
    }
}

/// The last part of a pin's name after `/`: the name shown for a leaf.
pub fn leaf_name(name: &str) -> (s: String)
    ensures
        s@ == crate::text::last_part(name@, '/'),
{
    let mut parts = split_chars(name, '/');
    proof {
        crate::text::lemma_split_nonempty(name@, '/');
    }
    let last = parts.pop();
    match last {
        Some(s) => s,
        None => crate::text::owned(name),
    }
}

/// The path of a child node shown under `path`: its name alone at the top,
/// else the parent's path, `/`, and the name.
pub fn child_path(path: &str, name: &str) -> (s: String)
    ensures
        s@ == (if path@.len() == 0 {
            name@
        } else {
            path@ + "/"@ + name@
        }),
{
    let v = crate::text::chars_of(path);
    if v.len() == 0 {
        return crate::text::owned(name);
    }
    let mut s = crate::text::owned(path);
    crate::text::push_str(&mut s, "/");
    crate::text::push_str(&mut s, name);
    s
}

/// `n` and a noun, with `s` unless there is exactly one (`3 roots`,
/// `1 root`).
pub fn count_label(n: usize, noun: &str) -> (s: String)
    ensures
        s@ == count_label_spec(n as nat, noun@),
{
    let mut s = String::new();
    crate::text::push_u64_decimal(&mut s, n as u64);
    crate::text::push_str(&mut s, " ");
    crate::text::push_str(&mut s, noun);
    if n != 1 {
        crate::text::push_str(&mut s, "s");
    }
    s
}

/// Every pin of a built tree is counted at the root.
pub proof fn law_build_counts_all(es: Seq<EntryView>)
    ensures
        count_under(es, Seq::empty(), PinFilter::All) == es.len(),
    decreases es.len(),
{
    if es.len() > 0 {
        law_build_counts_all(es.drop_last());
        assert(es.last().0.take(0) =~= Seq::<Seq<char>>::empty());
    }
}

/// Under any node, the active and the abandoned pins together are all pins.
pub proof fn law_active_plus_abandoned(es: Seq<EntryView>, prefix: NodePath)
    ensures
        count_under(es, prefix, PinFilter::Active) + count_under(es, prefix, PinFilter::Abandoned)
            == count_under(es, prefix, PinFilter::All),
    decreases es.len(),
{
    if es.len() > 0 {
        law_active_plus_abandoned(es.drop_last(), prefix);
    }
}

/// A pin is counted under every node on the way to its location, and the
/// count under a node never exceeds the count under its parent.
pub proof fn law_subtree_counts_nested(es: Seq<EntryView>, prefix: NodePath, c: Seq<char>, f: PinFilter)
    ensures
        count_under(es, prefix.push(c), f) <= count_under(es, prefix, f),
    decreases es.len(),
{
    if es.len() > 0 {
        law_subtree_counts_nested(es.drop_last(), prefix, c, f);
        let p = es.last().0;
        if path_has_prefix(p, prefix.push(c)) {
            assert(p.take(prefix.len() as int) =~= p.take(prefix.len() as int + 1).take(prefix.len() as int));
            assert(prefix.push(c).take(prefix.len() as int) =~= prefix);
        }
    }
}

/// How the web interface shows one pin of the tree.
#[derive(Debug)]
pub struct PinLeafView {
    /// The pin's status, which picks the badge's colours.
    pub status: PinStatus,
    /// The badge: a bin for an abandoned pin, an hourglass for an expiring
    /// one, a check mark otherwise.
    pub badge: String,
    /// A box for an abandoned pin, a pushpin otherwise.
    pub icon: String,
    /// The last `/`-separated part of the pin's name.
    pub title: String,
    /// `N root` or `N roots`.
    pub roots_label: String,
    /// `N store path` or `N store paths`, shown above the roots when there
    /// are any.
    pub paths_label: Option<String>,
    /// Whether the abandon button is shown: only for a pin not abandoned.
    pub can_abandon: bool,
    /// The keep-after-abandon row, when the pin has that setting.
    pub leave_after_abandon: Option<String>,
}

/// The badge of a pin status.
pub open spec fn badge_spec(s: PinStatus) -> Seq<char> {
    match s {
        PinStatus::Abandoned => "\u{1f5d1}\u{fe0f}"@,
        PinStatus::Expiring => "\u{23f3}"@,
        PinStatus::Active => "\u{2713}"@,
    }
}

/// The pin's label with its count (`N noun` or `N nouns`).
pub open spec fn count_label_spec(n: nat, noun: Seq<char>) -> Seq<char> {
    crate::text::nat_to_decimal(n) + " "@ + noun + (if n != 1 {
        "s"@
    } else {
        Seq::empty()
    })
}

/// What the web interface shows of a pin.
pub fn pin_leaf_view(p: &PinResponse) -> (v: PinLeafView)
    ensures
        v.status == pin_status_spec(p.abandoned, p.expires is Some),
        v.badge@ == badge_spec(v.status),
        v.icon@ == (if p.abandoned {
            "\u{1f4e6}"@
        } else {
            "\u{1f4cc}"@
        }),
        v.title@ == crate::text::last_part(p.name@, '/'),
        v.roots_label@ == count_label_spec(p.roots@.len(), "root"@),
        p.roots@.len() == 0 ==> v.paths_label is None,
        p.roots@.len() > 0 ==> (v.paths_label matches Some(l) && l@ == count_label_spec(
            p.roots@.len(),
            "store path"@,
        )),
        v.can_abandon == !p.abandoned,
        match p.leave_after_abandon {
            Some(ms) => v.leave_after_abandon matches Some(s) && s@ == format_duration_spec(
                ms as int,
            ),
            None => v.leave_after_abandon is None,
        },
{
    let status = p.status();
    let badge = match status {
        PinStatus::Abandoned => crate::text::owned("\u{1f5d1}\u{fe0f}"),
        PinStatus::Expiring => crate::text::owned("\u{23f3}"),
        PinStatus::Active => crate::text::owned("\u{2713}"),
    };
    let icon = if p.abandoned {
        crate::text::owned("\u{1f4e6}")
    } else {
        crate::text::owned("\u{1f4cc}")
    };
    let n = p.roots.len();
    let paths_label = if n > 0 {
        Some(count_label(n, "store path"))
    } else {
        None
    };
    let leave_after_abandon = match p.leave_after_abandon {
        Some(ms) => Some(format_duration(ms)),
        None => None,
    };
    PinLeafView {
        status,
        badge,
        icon,
        title: leaf_name(p.name.as_str()),
        roots_label: count_label(n, "root"),
        paths_label,
        can_abandon: !p.abandoned,
        leave_after_abandon,
    }
}

} // verus!
