//! The published tree does not depend on the order in which the walker
//! reported its entries.
use super::{
    all_fit, applied, chain, dir_node_paths, is_dir_node, is_leaf_node, keys_after,
    lemma_applied_kids, lemma_apply_consistent, lemma_keys_after, lemma_publish_consistent,
    present_kids, published, EntryDelta, EntryKind, IncrementalTree,
};
use crate::path::{names_apart, spec_leaf_name, spec_parent};
use crate::tree::{
    all_apart, lemma_apart_same, lemma_names_ordered, lemma_same_shape_intro, lemma_same_sizes_sum,
    lemma_sort_ignores_arrival_order, lemma_sort_is_permutation, lemma_sort_keeps_size,
    lemma_sort_same, pointwise_same, precedes, same_shape, sort_children, Node,
};
use std::sync::Arc;
use vstd::multiset::Multiset;
use vstd::prelude::*;

verus! {

/// Selecting from two lists one after the other selects from each in turn.
proof fn lemma_present_kids_concat(
    a: Seq<Seq<char>>,
    b: Seq<Seq<char>>,
    m: Map<Seq<char>, Arc<Node>>,
)
    ensures
        present_kids(a + b, m) == present_kids(a, m) + present_kids(b, m),
    decreases b.len(),
{
    if b.len() == 0 {
        assert(a + b =~= a);
        assert(present_kids(a, m) + present_kids(b, m) =~= present_kids(a, m));
    } else {
        lemma_present_kids_concat(a, b.drop_last(), m);
        assert((a + b).drop_last() =~= a + b.drop_last());
        assert((a + b).last() == b.last());
        if m.contains_key(b.last()) {
            assert((present_kids(a, m) + present_kids(b.drop_last(), m)).push(m[b.last()])
                =~= present_kids(a, m) + present_kids(b.drop_last(), m).push(m[b.last()]));
        }
    }
}

/// Names with the same members select nodes with the same members.
proof fn lemma_present_kids_perm(
    n1: Seq<Seq<char>>,
    n2: Seq<Seq<char>>,
    m: Map<Seq<char>, Arc<Node>>,
)
    requires
        n1.to_multiset() =~= n2.to_multiset(),
    ensures
        present_kids(n1, m).to_multiset() =~= present_kids(n2, m).to_multiset(),
    decreases n1.len(),
{
    broadcast use vstd::seq_lib::group_to_multiset_ensures;
    broadcast use vstd::multiset::group_multiset_axioms;

    assert(n1.to_multiset().len() == n1.len());
    assert(n2.to_multiset().len() == n2.len());
    if n1.len() == 0 {
        assert(n2.len() == 0);
    } else {
        let x = n1.last();
        let n1r = n1.drop_last();
        assert(n1 =~= n1r.push(x));
        assert(n1.contains(x)) by {
            assert(n1[n1.len() - 1] == x);
        }
        assert(n1.to_multiset().count(x) > 0);
        assert(n2.contains(x));
        let j = choose|j: int| 0 <= j < n2.len() && n2[j] == x;
        let n2r = n2.remove(j);
        assert(n2r.to_multiset() =~= n2.to_multiset().remove(x));
        assert(n1.to_multiset() =~= n1r.to_multiset().insert(x));
        assert(n1r.to_multiset() =~= n2r.to_multiset());
        lemma_present_kids_perm(n1r, n2r, m);
        let pre = n2.take(j);
        let post = n2.skip(j + 1);
        assert(n2 =~= pre + (seq![x] + post));
        assert(n2r =~= pre + post);
        lemma_present_kids_concat(pre, seq![x] + post, m);
        lemma_present_kids_concat(seq![x], post, m);
        lemma_present_kids_concat(pre, post, m);
        let one = present_kids(seq![x], m);
        assert(seq![x].drop_last() =~= Seq::<Seq<char>>::empty());
        assert(seq![x].last() == x);
        assert(present_kids(Seq::<Seq<char>>::empty(), m) == Seq::<Arc<Node>>::empty());
        assert(present_kids(seq![x].drop_last(), m) == Seq::<Arc<Node>>::empty());
        vstd::seq_lib::lemma_multiset_commutative(present_kids(pre, m), one + present_kids(post, m));
        vstd::seq_lib::lemma_multiset_commutative(one, present_kids(post, m));
        vstd::seq_lib::lemma_multiset_commutative(present_kids(pre, m), present_kids(post, m));
        if m.contains_key(x) {
            assert(one =~= seq![m[x]]);
            assert(present_kids(n1, m) =~= present_kids(n1r, m).push(m[x]));
        } else {
            assert(one =~= Seq::<Arc<Node>>::empty());
            assert(present_kids(n1, m) =~= present_kids(n1r, m));
        }
    }
}

/// Maps that hold nodes showing the same at the same names select lists
/// that show the same.
proof fn lemma_present_kids_pointwise(
    names: Seq<Seq<char>>,
    m1: Map<Seq<char>, Arc<Node>>,
    m2: Map<Seq<char>, Arc<Node>>,
)
    requires
        forall|i: int|
            0 <= i < names.len() ==> (m1.contains_key(#[trigger] names[i]) == m2.contains_key(
                names[i],
            ) && (m1.contains_key(names[i]) ==> same_shape(*m1[names[i]], *m2[names[i]]))),
    ensures
        pointwise_same(present_kids(names, m1), present_kids(names, m2)),
    decreases names.len(),
{
    if names.len() > 0 {
        let init = names.drop_last();
        assert forall|i: int| 0 <= i < init.len() implies (m1.contains_key(#[trigger] init[i])
            == m2.contains_key(init[i]) && (m1.contains_key(init[i]) ==> same_shape(
            *m1[init[i]],
            *m2[init[i]],
        ))) by {
            assert(init[i] == names[i]);
        }
        lemma_present_kids_pointwise(init, m1, m2);
        let x = names.last();
        assert(x == names[names.len() - 1]);
        let p1 = present_kids(init, m1);
        let p2 = present_kids(init, m2);
        if m1.contains_key(x) {
            assert forall|i: int| 0 <= i < p1.push(m1[x]).len() implies #[trigger] same_shape(
                *p1.push(m1[x])[i],
                *p2.push(m2[x])[i],
            ) by {
                if i < p1.len() {
                    assert(same_shape(*p1[i], *p2[i]));
                }
            }
        }
    }
}

/// A name that a map holds puts its node among those selected.
proof fn lemma_present_kids_contains(names: Seq<Seq<char>>, m: Map<Seq<char>, Arc<Node>>, i: int)
    requires
        0 <= i < names.len(),
        m.contains_key(names[i]),
    ensures
        present_kids(names, m).contains(m[names[i]]),
    decreases names.len(),
{
    let p = present_kids(names, m);
    if i == names.len() - 1 {
        assert(names.last() == names[i]);
        assert(p[p.len() - 1] == m[names[i]]);
    } else {
        let init = names.drop_last();
        assert(init[i] == names[i]);
        lemma_present_kids_contains(init, m, i);
        let q = present_kids(init, m);
        let k = choose|k: int| 0 <= k < q.len() && q[k] == m[names[i]];
        if m.contains_key(names.last()) {
            assert(p[k] == q[k]);
        }
    }
}

/// The two trees record the same: the same root, the same paths holding
/// nodes and child lists, the same children for each directory (though
/// perhaps in another order), and nodes that show the same at the paths
/// without a child list.
pub open spec fn same_record(s: IncrementalTree, t: IncrementalTree) -> bool {
    &&& s.root_path() == t.root_path()
    &&& s.node_map().dom() == t.node_map().dom()
    &&& s.child_lists().dom() == t.child_lists().dom()
    &&& forall|d: Seq<char>|
        #[trigger] s.child_lists().contains_key(d) ==> s.kids_of(d).to_multiset()
            == t.kids_of(d).to_multiset()
    &&& forall|k: Seq<char>|
        #[trigger] s.node_map().contains_key(k) && !s.child_lists().contains_key(k) ==> same_shape(
            *s.node_map()[k],
            *t.node_map()[k],
        )
}

/// No two children of a directory tie on both size and name.
pub open spec fn siblings_apart(s: IncrementalTree) -> bool {
    forall|d: Seq<char>|
        #[trigger] s.child_lists().contains_key(d) ==> all_apart(
            present_kids(s.kids_of(d), s.node_map()),
        )
}

/// Two up-to-date trees that record the same entries, whatever order the
/// entries arrived in, hold nodes that show the same at every path: the
/// published tree does not depend on arrival order, as long as no two
/// siblings tie on both size and name.
pub proof fn lemma_arrival_order_irrelevant(s: IncrementalTree, t: IncrementalTree, d: Seq<char>)
    requires
        s.wf(),
        t.wf(),
        s.consistent(),
        t.consistent(),
        s.dirty_paths() == Set::<Seq<char>>::empty(),
        t.dirty_paths() == Set::<Seq<char>>::empty(),
        same_record(s, t),
        siblings_apart(s),
        s.node_map().contains_key(d),
    ensures
        same_shape(*s.node_map()[d], *t.node_map()[d]),
    decreases *s.node_map()[d],
{
    broadcast use vstd::seq_lib::group_to_multiset_ensures;

    let ms = s.node_map();
    let mt = t.node_map();
    assert(mt.contains_key(d));
    if s.child_lists().contains_key(d) {
        assert(t.child_lists().contains_key(d));
        let ks = s.kids_of(d);
        let kt = t.kids_of(d);
        let ps = present_kids(ks, ms);
        let pt2 = present_kids(ks, mt);
        let pt = present_kids(kt, mt);
        assert(is_dir_node(*ms[d], d, ps));
        assert(is_dir_node(*mt[d], d, pt));
        lemma_sort_is_permutation(ps);
        assert forall|i: int| 0 <= i < ks.len() implies (ms.contains_key(#[trigger] ks[i])
            == mt.contains_key(ks[i]) && (ms.contains_key(ks[i]) ==> same_shape(
            *ms[ks[i]],
            *mt[ks[i]],
        ))) by {
            assert(ms.dom().contains(ks[i]) == mt.dom().contains(ks[i]));
            if ms.contains_key(ks[i]) {
                lemma_present_kids_contains(ks, ms, i);
                assert(ps.to_multiset().count(ms[ks[i]]) > 0);
                assert(sort_children(ps).contains(ms[ks[i]]));
                let j = choose|j: int|
                    0 <= j < sort_children(ps).len() && sort_children(ps)[j] == ms[ks[i]];
                assert(ms[d].children@[j] == ms[ks[i]]);
                lemma_arrival_order_irrelevant(s, t, ks[i]);
            }
        }
        lemma_present_kids_pointwise(ks, ms, mt);
        lemma_sort_same(ps, pt2);
        lemma_apart_same(ps, pt2);
        lemma_present_kids_perm(ks, kt, mt);
        lemma_sort_ignores_arrival_order(pt2, pt);
        lemma_same_sizes_sum(ps, pt2);
        lemma_sort_keeps_size(pt2);
        lemma_sort_keeps_size(pt);
        lemma_same_shape_intro(ms[d], mt[d]);
    }
}

/// The entries of `ds` name different paths.
pub open spec fn paths_distinct(ds: Seq<EntryDelta>) -> bool {
    forall|i: int, j: int|
        0 <= i < ds.len() && 0 <= j < ds.len() && i != j ==> (#[trigger] ds[i]).path@ != (
        #[trigger] ds[j]).path@
}

/// Taking an entry for `p` marks `x` out of date.
pub open spec fn marks(p: Seq<char>, root: Seq<char>, x: Seq<char>) -> bool {
    if p == root {
        x == root
    } else {
        match spec_parent(p) {
            Some(q) => chain(q, root).contains(x),
            None => false,
        }
    }
}

/// The entry `d` gives `p` a child list.
pub open spec fn lists_for(d: EntryDelta, root: Seq<char>, p: Seq<char>) -> bool {
    (d.kind == EntryKind::Dir && d.path@ == p) || (d.path@ != root && spec_parent(d.path@) == Some(
        p,
    ))
}

/// The entry `d` is a file or symlink at `p`.
pub open spec fn leaf_for(d: EntryDelta, p: Seq<char>) -> bool {
    d.kind != EntryKind::Dir && d.path@ == p
}

/// `m` with `p` added when `p` is filed under `q`.
pub open spec fn file_under(
    m: Multiset<Seq<char>>,
    p: Seq<char>,
    root: Seq<char>,
    q: Seq<char>,
) -> Multiset<Seq<char>> {
    if p != root && spec_parent(p) == Some(q) {
        m.insert(p)
    } else {
        m
    }
}

/// The paths of the entries of `ds` that are filed under `q`.
pub open spec fn filed(ds: Seq<EntryDelta>, root: Seq<char>, q: Seq<char>) -> Multiset<Seq<char>>
    decreases ds.len(),
{
    if ds.len() == 0 {
        Multiset::empty()
    } else {
        file_under(filed(ds.drop_last(), root, q), ds.last().path@, root, q)
    }
}

/// `t` is a fresh tree for `root` (as `IncrementalTree::new` makes it).
pub open spec fn fresh(t: IncrementalTree, root: Seq<char>) -> bool {
    &&& t.wf()
    &&& t.consistent()
    &&& t.root_path() == root
    &&& t.node_map() == Map::<Seq<char>, Arc<Node>>::empty()
    &&& t.child_lists() == Map::<Seq<char>, Seq<Seq<char>>>::empty().insert(root, Seq::empty())
    &&& t.dirty_paths() == set![root]
}

/// `run` holds a fresh tree for `root` and the trees after taking each
/// entry of `ds` in turn.
pub open spec fn ran(run: Seq<IncrementalTree>, root: Seq<char>, ds: Seq<EntryDelta>) -> bool {
    &&& run.len() == ds.len() + 1
    &&& fresh(run[0], root)
    &&& forall|i: int| 0 <= i <= ds.len() ==> (#[trigger] run[i]).wf()
    &&& forall|i: int|
        #![trigger run[i], ds[i]]
        0 <= i < ds.len() ==> applied(run[i], run[i + 1], ds[i])
}

/// `t` is what a fresh tree for `root` becomes after taking the entries
/// `ds`: its file and symlink nodes, child lists, children and
/// out-of-date directories are those the entries give.
pub open spec fn records(t: IncrementalTree, root: Seq<char>, ds: Seq<EntryDelta>) -> bool {
    &&& t.root_path() == root
    &&& forall|p: Seq<char>|
        #![trigger t.node_map().contains_key(p)]
        t.node_map().contains_key(p) <==> exists|i: int|
            0 <= i < ds.len() && #[trigger] leaf_for(ds[i], p)
    &&& forall|p: Seq<char>|
        #[trigger] t.node_map().contains_key(p) ==> exists|i: int|
            0 <= i < ds.len() && #[trigger] leaf_for(ds[i], p) && is_leaf_node(
                *t.node_map()[p],
                p,
                ds[i].size,
                ds[i].kind == EntryKind::Link,
            )
    &&& forall|p: Seq<char>|
        #![trigger t.child_lists().contains_key(p)]
        t.child_lists().contains_key(p) <==> (p == root || exists|i: int|
            0 <= i < ds.len() && #[trigger] lists_for(ds[i], root, p))
    &&& forall|q: Seq<char>| #[trigger] t.kids_of(q).to_multiset() == filed(ds, root, q)
    &&& forall|x: Seq<char>|
        #![trigger t.dirty_paths().contains(x)]
        t.dirty_paths().contains(x) <==> (x == root || exists|i: int|
            0 <= i < ds.len() && #[trigger] marks(ds[i].path@, root, x))
}

/// A fresh tree records no entries.
proof fn lemma_records_fresh(t: IncrementalTree, root: Seq<char>)
    requires
        fresh(t, root),
    ensures
        records(t, root, Seq::empty()),
{
    broadcast use vstd::seq_lib::group_to_multiset_ensures;

    assert forall|q: Seq<char>| #[trigger] t.kids_of(q).to_multiset() == filed(
        Seq::<EntryDelta>::empty(),
        root,
        q,
    ) by {
        assert(t.kids_of(q) =~= Seq::<Seq<char>>::empty());
        assert(t.kids_of(q).to_multiset() =~= Multiset::empty()) by {
            broadcast use vstd::multiset::group_multiset_axioms;

            assert(t.kids_of(q).to_multiset().len() == 0);
        }
    }
}

/// Taking one more entry (for a new path) records it.
proof fn lemma_records_step(
    s: IncrementalTree,
    t: IncrementalTree,
    root: Seq<char>,
    ds: Seq<EntryDelta>,
    d: EntryDelta,
)
    requires
        s.wf(),
        records(s, root, ds),
        applied(s, t, d),
        forall|i: int| 0 <= i < ds.len() ==> (#[trigger] ds[i]).path@ != d.path@,
    ensures
        records(t, root, ds.push(d)),
{
    broadcast use vstd::seq_lib::group_to_multiset_ensures;

    let ds2 = ds.push(d);
    let p = d.path@;
    assert(ds2.drop_last() =~= ds);
    assert(ds2.last() == d);
    assert(ds2[ds.len() as int] == d);
    assert forall|i: int| 0 <= i < ds.len() implies ds2[i] == ds[i] by {}
    assert forall|k: Seq<char>|
        #![trigger t.node_map().contains_key(k)]
        t.node_map().contains_key(k) <==> exists|i: int|
            0 <= i < ds2.len() && #[trigger] leaf_for(ds2[i], k) by {
        if t.node_map().contains_key(k) {
            if d.kind != EntryKind::Dir && k == p {
                assert(leaf_for(ds2[ds.len() as int], k));
            } else {
                assert(s.node_map().contains_key(k));
                let i = choose|i: int| 0 <= i < ds.len() && #[trigger] leaf_for(ds[i], k);
                assert(leaf_for(ds2[i], k));
            }
        }
        if exists|i: int| 0 <= i < ds2.len() && #[trigger] leaf_for(ds2[i], k) {
            let i = choose|i: int| 0 <= i < ds2.len() && #[trigger] leaf_for(ds2[i], k);
            if i < ds.len() {
                assert(leaf_for(ds[i], k));
                assert(s.node_map().contains_key(k));
            }
        }
    }
    assert forall|k: Seq<char>| #[trigger] t.node_map().contains_key(k) implies exists|i: int|
        0 <= i < ds2.len() && #[trigger] leaf_for(ds2[i], k) && is_leaf_node(
            *t.node_map()[k],
            k,
            ds2[i].size,
            ds2[i].kind == EntryKind::Link,
        ) by {
        if d.kind != EntryKind::Dir && k == p {
            assert(leaf_for(ds2[ds.len() as int], k));
        } else {
            assert(s.node_map().contains_key(k));
            assert(t.node_map()[k] == s.node_map()[k]);
            let i = choose|i: int|
                0 <= i < ds.len() && #[trigger] leaf_for(ds[i], k) && is_leaf_node(
                    *s.node_map()[k],
                    k,
                    ds[i].size,
                    ds[i].kind == EntryKind::Link,
                );
            assert(leaf_for(ds2[i], k));
        }
    }
    assert forall|k: Seq<char>|
        #![trigger t.child_lists().contains_key(k)]
        t.child_lists().contains_key(k) <==> (k == root || exists|i: int|
            0 <= i < ds2.len() && #[trigger] lists_for(ds2[i], root, k)) by {
        if t.child_lists().contains_key(k) && k != root {
            if lists_for(d, root, k) {
                assert(lists_for(ds2[ds.len() as int], root, k));
            } else {
                assert(s.child_lists().contains_key(k));
                let i = choose|i: int| 0 <= i < ds.len() && #[trigger] lists_for(ds[i], root, k);
                assert(lists_for(ds2[i], root, k));
            }
        }
        if exists|i: int| 0 <= i < ds2.len() && #[trigger] lists_for(ds2[i], root, k) {
            let i = choose|i: int| 0 <= i < ds2.len() && #[trigger] lists_for(ds2[i], root, k);
            if i < ds.len() {
                assert(lists_for(ds[i], root, k));
                assert(s.child_lists().contains_key(k));
            }
        }
    }
    assert forall|q: Seq<char>| #[trigger] t.kids_of(q).to_multiset() == filed(ds2, root, q) by {
        lemma_applied_kids(s, t, d, q);
        assert(s.kids_of(q).to_multiset() == filed(ds, root, q));
    }
    assert forall|x: Seq<char>|
        #![trigger t.dirty_paths().contains(x)]
        t.dirty_paths().contains(x) <==> (x == root || exists|i: int|
            0 <= i < ds2.len() && #[trigger] marks(ds2[i].path@, root, x)) by {
        if t.dirty_paths().contains(x) && x != root {
            if marks(p, root, x) {
                assert(marks(ds2[ds.len() as int].path@, root, x));
            } else {
                assert(s.dirty_paths().contains(x));
                let i = choose|i: int| 0 <= i < ds.len() && #[trigger] marks(ds[i].path@, root, x);
                assert(marks(ds2[i].path@, root, x));
            }
        }
        if exists|i: int| 0 <= i < ds2.len() && #[trigger] marks(ds2[i].path@, root, x) {
            let i = choose|i: int| 0 <= i < ds2.len() && #[trigger] marks(ds2[i].path@, root, x);
            if i < ds.len() {
                assert(marks(ds[i].path@, root, x));
                assert(s.dirty_paths().contains(x));
            }
        }
    }
}

/// Every tree of a run records the entries taken so far.
pub(crate) proof fn lemma_run_records(run: Seq<IncrementalTree>, root: Seq<char>, ds: Seq<EntryDelta>, k: int)
    requires
        ran(run, root, ds),
        paths_distinct(ds),
        0 <= k <= ds.len(),
    ensures
        records(run[k], root, ds.take(k)),
    decreases k,
{
    if k == 0 {
        assert(ds.take(0) =~= Seq::<EntryDelta>::empty());
        lemma_records_fresh(run[0], root);
    } else {
        lemma_run_records(run, root, ds, k - 1);
        assert(ds.take(k) =~= ds.take(k - 1).push(ds[k - 1]));
        assert forall|i: int| 0 <= i < ds.take(k - 1).len() implies (
        #[trigger] ds.take(k - 1)[i]).path@ != ds[k - 1].path@ by {
            assert(ds.take(k - 1)[i] == ds[i]);
        }
        assert(run[k - 1].wf());
        assert(applied(run[k - 1], run[k], ds[k - 1]));
        lemma_records_step(run[k - 1], run[k], root, ds.take(k - 1), ds[k - 1]);
    }
}

/// Every tree of a run is consistent when each entry fits at its turn.
pub(crate) proof fn lemma_run_consistent(run: Seq<IncrementalTree>, root: Seq<char>, ds: Seq<EntryDelta>, k: int)
    requires
        ran(run, root, ds),
        all_fit(Set::empty(), Set::empty(), set![root], root, ds),
        0 <= k <= ds.len(),
    ensures
        run[k].root_path() == root,
        run[k].consistent(),
        all_fit(
            run[k].node_map().dom(),
            dir_node_paths(run[k].node_map()),
            run[k].child_lists().dom(),
            root,
            ds.skip(k),
        ),
    decreases k,
{
    if k == 0 {
        assert(ds.skip(0) =~= ds);
        assert(run[0].node_map().dom() =~= Set::<Seq<char>>::empty());
        assert(dir_node_paths(run[0].node_map()) =~= Set::<Seq<char>>::empty());
        assert(run[0].child_lists().dom() =~= set![root]);
    } else {
        lemma_run_consistent(run, root, ds, k - 1);
        let s = run[k - 1];
        let t = run[k];
        let d = ds[k - 1];
        assert(s.wf());
        assert(t.wf());
        assert(applied(s, t, d));
        assert(ds.skip(k - 1)[0] == d);
        assert(ds.skip(k - 1).drop_first() =~= ds.skip(k));
        lemma_fit_step(s, t, d, root, ds.skip(k - 1), ds.skip(k));
    }
}

/// One step of a run keeps it consistent and the rest of the entries
/// fitting.
proof fn lemma_fit_step(
    s: IncrementalTree,
    t: IncrementalTree,
    d: EntryDelta,
    root: Seq<char>,
    rest: Seq<EntryDelta>,
    after: Seq<EntryDelta>,
)
    requires
        s.wf(),
        t.wf(),
        applied(s, t, d),
        s.root_path() == root,
        s.consistent(),
        rest.len() > 0,
        rest[0] == d,
        rest.drop_first() == after,
        all_fit(s.node_map().dom(), dir_node_paths(s.node_map()), s.child_lists().dom(), root, rest),
    ensures
        t.root_path() == root,
        t.consistent(),
        all_fit(t.node_map().dom(), dir_node_paths(t.node_map()), t.child_lists().dom(), root, after),
{
    lemma_keys_after(s, t, d);
    assert(s.fits(d));
    lemma_apply_consistent(s, t, d);
}

/// A sequence with the same members as another holds the same entries.
proof fn lemma_same_members(ds1: Seq<EntryDelta>, ds2: Seq<EntryDelta>, i: int) -> (j: int)
    requires
        ds1.to_multiset() =~= ds2.to_multiset(),
        0 <= i < ds1.len(),
    ensures
        0 <= j < ds2.len(),
        ds2[j] == ds1[i],
{
    broadcast use vstd::seq_lib::group_to_multiset_ensures;

    assert(ds1.contains(ds1[i]));
    assert(ds1.to_multiset().count(ds1[i]) > 0);
    assert(ds2.contains(ds1[i]));
    choose|j: int| 0 <= j < ds2.len() && ds2[j] == ds1[i]
}

/// Leaving out one entry leaves out its own filing only.
proof fn lemma_filed_remove(ds: Seq<EntryDelta>, root: Seq<char>, q: Seq<char>, k: int)
    requires
        0 <= k < ds.len(),
    ensures
        filed(ds, root, q) =~= file_under(filed(ds.remove(k), root, q), ds[k].path@, root, q),
    decreases ds.len(),
{
    broadcast use vstd::multiset::group_multiset_axioms;

    if k == ds.len() - 1 {
        assert(ds.remove(k) =~= ds.drop_last());
    } else {
        let init = ds.drop_last();
        lemma_filed_remove(init, root, q, k);
        assert(ds.remove(k).drop_last() =~= init.remove(k));
        assert(ds.remove(k).last() == ds.last());
        assert(init[k] == ds[k]);
    }
}

/// Sequences with the same members file the same paths under `q`.
proof fn lemma_filed_perm(ds1: Seq<EntryDelta>, ds2: Seq<EntryDelta>, root: Seq<char>, q: Seq<char>)
    requires
        ds1.to_multiset() =~= ds2.to_multiset(),
    ensures
        filed(ds1, root, q) =~= filed(ds2, root, q),
    decreases ds1.len(),
{
    broadcast use vstd::seq_lib::group_to_multiset_ensures;
    broadcast use vstd::multiset::group_multiset_axioms;

    assert(ds1.to_multiset().len() == ds1.len());
    assert(ds2.to_multiset().len() == ds2.len());
    if ds1.len() == 0 {
        assert(ds2.len() == 0);
        assert(ds2 =~= Seq::<EntryDelta>::empty());
        assert(ds1 =~= Seq::<EntryDelta>::empty());
    } else {
        let x = ds1.last();
        let j = lemma_same_members(ds1, ds2, ds1.len() - 1);
        let r1 = ds1.drop_last();
        let r2 = ds2.remove(j);
        assert(ds1 =~= r1.push(x));
        assert(r2.to_multiset() =~= ds2.to_multiset().remove(x));
        assert(ds1.to_multiset() =~= r1.to_multiset().insert(x));
        assert(r1.to_multiset() =~= r2.to_multiset());
        lemma_filed_perm(r1, r2, root, q);
        lemma_filed_remove(ds2, root, q, j);
    }
}

/// Two runs over the same entries, in whatever order, reach trees with the
/// same record: the same nodes (showing the same), child lists, children
/// and out-of-date directories.
proof fn lemma_records_agree(
    s: IncrementalTree,
    t: IncrementalTree,
    root: Seq<char>,
    ds1: Seq<EntryDelta>,
    ds2: Seq<EntryDelta>,
)
    requires
        records(s, root, ds1),
        records(t, root, ds2),
        ds1.to_multiset() =~= ds2.to_multiset(),
        paths_distinct(ds2),
    ensures
        s.node_map().dom() == t.node_map().dom(),
        s.child_lists().dom() == t.child_lists().dom(),
        s.dirty_paths() == t.dirty_paths(),
        forall|q: Seq<char>| #[trigger] s.kids_of(q).to_multiset() == t.kids_of(q).to_multiset(),
        forall|k: Seq<char>|
            #[trigger] s.node_map().contains_key(k) ==> !s.node_map()[k].is_dir && same_shape(
                *s.node_map()[k],
                *t.node_map()[k],
            ),
{
    assert(ds2.to_multiset() =~= ds1.to_multiset());
    assert forall|k: Seq<char>| s.node_map().dom().contains(k) == t.node_map().dom().contains(k) by {
        if s.node_map().contains_key(k) {
            let i = choose|i: int| 0 <= i < ds1.len() && #[trigger] leaf_for(ds1[i], k);
            let j = lemma_same_members(ds1, ds2, i);
            assert(leaf_for(ds2[j], k));
        }
        if t.node_map().contains_key(k) {
            let j = choose|j: int| 0 <= j < ds2.len() && #[trigger] leaf_for(ds2[j], k);
            let i = lemma_same_members(ds2, ds1, j);
            assert(leaf_for(ds1[i], k));
        }
    }
    assert(s.node_map().dom() =~= t.node_map().dom());
    assert forall|k: Seq<char>| s.child_lists().dom().contains(k) == t.child_lists().dom().contains(
        k,
    ) by {
        if s.child_lists().contains_key(k) && k != root {
            let i = choose|i: int| 0 <= i < ds1.len() && #[trigger] lists_for(ds1[i], root, k);
            let j = lemma_same_members(ds1, ds2, i);
            assert(lists_for(ds2[j], root, k));
        }
        if t.child_lists().contains_key(k) && k != root {
            let j = choose|j: int| 0 <= j < ds2.len() && #[trigger] lists_for(ds2[j], root, k);
            let i = lemma_same_members(ds2, ds1, j);
            assert(lists_for(ds1[i], root, k));
        }
    }
    assert(s.child_lists().dom() =~= t.child_lists().dom());
    assert forall|x: Seq<char>| s.dirty_paths().contains(x) == t.dirty_paths().contains(x) by {
        if s.dirty_paths().contains(x) && x != root {
            let i = choose|i: int| 0 <= i < ds1.len() && #[trigger] marks(ds1[i].path@, root, x);
            let j = lemma_same_members(ds1, ds2, i);
            assert(marks(ds2[j].path@, root, x));
        }
        if t.dirty_paths().contains(x) && x != root {
            let j = choose|j: int| 0 <= j < ds2.len() && #[trigger] marks(ds2[j].path@, root, x);
            let i = lemma_same_members(ds2, ds1, j);
            assert(marks(ds1[i].path@, root, x));
        }
    }
    assert(s.dirty_paths() =~= t.dirty_paths());
    assert forall|q: Seq<char>| #[trigger] s.kids_of(q).to_multiset() == t.kids_of(q).to_multiset() by {
        lemma_filed_perm(ds1, ds2, root, q);
    }
    assert forall|k: Seq<char>| #[trigger] s.node_map().contains_key(k) implies !s.node_map()[k].is_dir
        && same_shape(*s.node_map()[k], *t.node_map()[k]) by {
        let i = choose|i: int|
            0 <= i < ds1.len() && #[trigger] leaf_for(ds1[i], k) && is_leaf_node(
                *s.node_map()[k],
                k,
                ds1[i].size,
                ds1[i].kind == EntryKind::Link,
            );
        assert(t.node_map().contains_key(k));
        let j = choose|j: int|
            0 <= j < ds2.len() && #[trigger] leaf_for(ds2[j], k) && is_leaf_node(
                *t.node_map()[k],
                k,
                ds2[j].size,
                ds2[j].kind == EntryKind::Link,
            );
        let j2 = lemma_same_members(ds1, ds2, i);
        if j2 != j {
            assert(ds2[j2].path@ == ds2[j].path@);
        }
        assert(ds2[j] == ds1[i]);
        assert(pointwise_same(s.node_map()[k].children@, t.node_map()[k].children@));
        lemma_same_shape_intro(s.node_map()[k], t.node_map()[k]);
    }
}

/// A path filed under `q` is the path of one of the entries, with `q` as
/// its parent; with distinct paths, it is filed once.
proof fn lemma_filed_member(ds: Seq<EntryDelta>, root: Seq<char>, q: Seq<char>, x: Seq<char>)
    requires
        paths_distinct(ds),
    ensures
        filed(ds, root, q).count(x) <= 1,
        filed(ds, root, q).count(x) > 0 ==> exists|i: int|
            0 <= i < ds.len() && (#[trigger] ds[i]).path@ == x && x != root && spec_parent(x)
                == Some(q),
    decreases ds.len(),
{
    if ds.len() > 0 {
        let init = ds.drop_last();
        assert forall|i: int, j: int|
            0 <= i < init.len() && 0 <= j < init.len() && i != j implies (#[trigger] init[i]).path@
            != (#[trigger] init[j]).path@ by {
            assert(init[i] == ds[i] && init[j] == ds[j]);
        }
        lemma_filed_member(init, root, q, x);
        let p = ds.last().path@;
        if filed(init, root, q).count(x) > 0 {
            let i = choose|i: int|
                0 <= i < init.len() && (#[trigger] init[i]).path@ == x && x != root && spec_parent(
                    x,
                ) == Some(q);
            assert(ds[i] == init[i]);
            if p == x {
                assert(ds[ds.len() - 1] == ds.last());
                assert(ds[i].path@ == ds[ds.len() - 1].path@);
            }
        }
        if p == x && p != root && spec_parent(p) == Some(q) {
            assert(ds[ds.len() - 1] == ds.last());
        }
    }
}

/// A list whose multiset counts each member at most once holds no member
/// twice.
proof fn lemma_single_counts(s: Seq<Seq<char>>, i: int, j: int)
    requires
        forall|x: Seq<char>| s.to_multiset().count(x) <= 1,
        0 <= i < j < s.len(),
    ensures
        s[i] != s[j],
    decreases s.len(),
{
    broadcast use vstd::seq_lib::group_to_multiset_ensures;

    let init = s.drop_last();
    assert(s =~= init.push(s.last()));
    if j == s.len() - 1 {
        if s[i] == s[j] {
            assert(init[i] == s[i]);
            assert(init.contains(s.last()));
            assert(init.to_multiset().count(s.last()) > 0);
            assert(s.to_multiset().count(s.last()) == init.to_multiset().count(s.last()) + 1);
        }
    } else {
        assert forall|x: Seq<char>| init.to_multiset().count(x) <= 1 by {
            assert(s.to_multiset().count(x) == init.to_multiset().count(x) + (if x == s.last() {
                1int
            } else {
                0
            }));
        }
        lemma_single_counts(init, i, j);
        assert(init[i] == s[i] && init[j] == s[j]);
    }
}

/// Each node selected by `names` is the node of one of them.
proof fn lemma_present_kids_source(names: Seq<Seq<char>>, m: Map<Seq<char>, Arc<Node>>, a: int)
    requires
        0 <= a < present_kids(names, m).len(),
    ensures
        exists|i: int|
            0 <= i < names.len() && m.contains_key(#[trigger] names[i]) && present_kids(names, m)[a]
                == m[names[i]],
    decreases names.len(),
{
    let init = names.drop_last();
    let rest = present_kids(init, m);
    let x = names.last();
    assert(x == names[names.len() - 1]);
    if m.contains_key(x) && a == rest.len() {
        assert(present_kids(names, m) == rest.push(m[x]));
    } else {
        assert(a < rest.len());
        lemma_present_kids_source(init, m, a);
        let i = choose|i: int|
            0 <= i < init.len() && m.contains_key(#[trigger] init[i]) && rest[a] == m[init[i]];
        assert(names[i] == init[i]);
        if m.contains_key(x) {
            assert(present_kids(names, m) == rest.push(m[x]));
        } else {
            assert(present_kids(names, m) == rest);
        }
    }
}

/// Nodes selected by names of pairwise different final names, each node
/// named for its path, are pairwise apart.
proof fn lemma_present_kids_apart(names: Seq<Seq<char>>, m: Map<Seq<char>, Arc<Node>>)
    requires
        forall|i: int, j: int|
            0 <= i < j < names.len() ==> spec_leaf_name(#[trigger] names[i]) != spec_leaf_name(
                #[trigger] names[j],
            ),
        forall|k: Seq<char>| #[trigger] m.contains_key(k) ==> m[k].name@ == spec_leaf_name(k),
    ensures
        all_apart(present_kids(names, m)),
    decreases names.len(),
{
    if names.len() > 0 {
        let init = names.drop_last();
        assert forall|i: int, j: int| 0 <= i < j < init.len() implies spec_leaf_name(
            #[trigger] init[i],
        ) != spec_leaf_name(#[trigger] init[j]) by {
            assert(init[i] == names[i] && init[j] == names[j]);
        }
        lemma_present_kids_apart(init, m);
        let rest = present_kids(init, m);
        let x = names.last();
        assert(x == names[names.len() - 1]);
        if m.contains_key(x) {
            let all = rest.push(m[x]);
            assert(present_kids(names, m) == all);
            assert forall|a: int, b: int|
                0 <= a < all.len() && 0 <= b < all.len() && a != b implies precedes(
                #[trigger] all[a],
                #[trigger] all[b],
            ) || precedes(all[b], all[a]) by {
                if a < rest.len() && b < rest.len() {
                    assert(all[a] == rest[a] && all[b] == rest[b]);
                } else {
                    let c = if a < rest.len() {
                        a
                    } else {
                        b
                    };
                    lemma_present_kids_source(init, m, c);
                    let i = choose|i: int|
                        0 <= i < init.len() && m.contains_key(#[trigger] init[i]) && rest[c]
                            == m[init[i]];
                    assert(names[i] == init[i]);
                    assert(spec_leaf_name(names[i]) != spec_leaf_name(names[names.len() - 1]));
                    assert(rest[c].name@ == spec_leaf_name(init[i]));
                    assert(m[x].name@ == spec_leaf_name(x));
                    lemma_names_ordered(rest[c], m[x]);
                }
            }
        } else {
            assert(present_kids(names, m) == rest);
        }
    }
}

/// When no two entries filed under one directory share a name, publishing
/// the tree that records them keeps every directory's children apart.
pub(crate) proof fn lemma_named_apart_siblings(
    s: IncrementalTree,
    end: IncrementalTree,
    tree: Arc<Node>,
    root: Seq<char>,
    ds: Seq<EntryDelta>,
)
    requires
        records(s, root, ds),
        paths_distinct(ds),
        names_apart(ds.map_values(|d: EntryDelta| d.path@)),
        published(s, end, tree),
    ensures
        siblings_apart(end),
{
    broadcast use vstd::seq_lib::group_to_multiset_ensures;

    let ps = ds.map_values(|d: EntryDelta| d.path@);
    let m = end.node_map();
    assert forall|k: Seq<char>| #[trigger] m.contains_key(k) implies m[k].name@ == spec_leaf_name(
        k,
    ) by {
        if !s.dirty_paths().contains(k) {
            assert(s.node_map().contains_key(k));
            let i = choose|i: int|
                0 <= i < ds.len() && #[trigger] leaf_for(ds[i], k) && is_leaf_node(
                    *s.node_map()[k],
                    k,
                    ds[i].size,
                    ds[i].kind == EntryKind::Link,
                );
        }
    }
    assert forall|d: Seq<char>| #[trigger] end.child_lists().contains_key(d) implies all_apart(
        present_kids(end.kids_of(d), m),
    ) by {
        let kids = end.kids_of(d);
        assert(kids == s.kids_of(d));
        assert(kids.to_multiset() == filed(ds, root, d));
        assert forall|x: Seq<char>| kids.to_multiset().count(x) <= 1 by {
            lemma_filed_member(ds, root, d, x);
        }
        assert forall|i: int, j: int| 0 <= i < j < kids.len() implies spec_leaf_name(
            #[trigger] kids[i],
        ) != spec_leaf_name(#[trigger] kids[j]) by {
            lemma_single_counts(kids, i, j);
            assert(kids.contains(kids[i]));
            assert(kids.contains(kids[j]));
            lemma_filed_member(ds, root, d, kids[i]);
            lemma_filed_member(ds, root, d, kids[j]);
            let a = choose|a: int|
                0 <= a < ds.len() && (#[trigger] ds[a]).path@ == kids[i] && kids[i] != root
                    && spec_parent(kids[i]) == Some(d);
            let b = choose|b: int|
                0 <= b < ds.len() && (#[trigger] ds[b]).path@ == kids[j] && kids[j] != root
                    && spec_parent(kids[j]) == Some(d);
            assert(ps[a] == kids[i]);
            assert(ps[b] == kids[j]);
        }
        lemma_present_kids_apart(kids, m);
    }
}

/// Only directory entries hold entries: no file or symlink entry is the
/// root, or the parent of another entry.
pub open spec fn leaves_hold_nothing(ds: Seq<EntryDelta>, root: Seq<char>) -> bool {
    forall|i: int, j: int|
        0 <= i < ds.len() && 0 <= j < ds.len() && (#[trigger] ds[i]).kind != EntryKind::Dir ==> ds[i].path@
            != root && !((#[trigger] ds[j]).path@ != root && spec_parent(ds[j].path@) == Some(
            ds[i].path@,
        ))
}

/// Entries with their own paths, of which only directories hold entries,
/// fit the tree at every turn, whatever order they come in, as long as none
/// names a path already holding a node and no file or symlink among them
/// names a path that already has a child list.
pub(crate) proof fn lemma_fit_all(nodes: Set<Seq<char>>, lists: Set<Seq<char>>, root: Seq<char>, ds: Seq<EntryDelta>)
    requires
        paths_distinct(ds),
        leaves_hold_nothing(ds, root),
        forall|i: int| 0 <= i < ds.len() ==> !nodes.contains((#[trigger] ds[i]).path@),
        forall|i: int|
            0 <= i < ds.len() && (#[trigger] ds[i]).kind != EntryKind::Dir ==> !lists.contains(
                ds[i].path@,
            ),
    ensures
        all_fit(nodes, Set::empty(), lists, root, ds),
    decreases ds.len(),
{
    if ds.len() > 0 {
        let d = ds[0];
        let p = d.path@;
        let (nodes2, dirs2, lists2) = keys_after(nodes, Set::empty(), lists, root, d);
        assert(dirs2 =~= Set::<Seq<char>>::empty());
        let rest = ds.drop_first();
        assert forall|i: int, j: int|
            0 <= i < rest.len() && 0 <= j < rest.len() && i != j implies (#[trigger] rest[i]).path@
            != (#[trigger] rest[j]).path@ by {
            assert(rest[i] == ds[i + 1] && rest[j] == ds[j + 1]);
        }
        assert forall|i: int, j: int|
            0 <= i < rest.len() && 0 <= j < rest.len() && (#[trigger] rest[i]).kind != EntryKind::Dir
                implies rest[i].path@ != root && !((#[trigger] rest[j]).path@ != root && spec_parent(
            rest[j].path@,
        ) == Some(rest[i].path@)) by {
            assert(rest[i] == ds[i + 1] && rest[j] == ds[j + 1]);
        }
        assert forall|i: int| 0 <= i < rest.len() implies !nodes2.contains(
            (#[trigger] rest[i]).path@,
        ) by {
            assert(rest[i] == ds[i + 1]);
            assert(ds[i + 1].path@ != ds[0].path@);
        }
        assert forall|i: int|
            0 <= i < rest.len() && (#[trigger] rest[i]).kind != EntryKind::Dir implies !lists2.contains(
            rest[i].path@,
        ) by {
            assert(rest[i] == ds[i + 1]);
            assert(ds[i + 1].path@ != ds[0].path@);
            assert(!(ds[0].path@ != root && spec_parent(ds[0].path@) == Some(ds[i + 1].path@)));
        }
        lemma_fit_all(nodes2, lists2, root, rest);
    }
}

/// Only directory entries hold entries in any order of the same entries.
proof fn lemma_leaves_hold_nothing_perm(ds1: Seq<EntryDelta>, ds2: Seq<EntryDelta>, root: Seq<char>)
    requires
        ds1.to_multiset() =~= ds2.to_multiset(),
        leaves_hold_nothing(ds1, root),
    ensures
        leaves_hold_nothing(ds2, root),
{
    assert forall|i: int, j: int|
        0 <= i < ds2.len() && 0 <= j < ds2.len() && (#[trigger] ds2[i]).kind != EntryKind::Dir
            implies ds2[i].path@ != root && !((#[trigger] ds2[j]).path@ != root && spec_parent(
        ds2[j].path@,
    ) == Some(ds2[i].path@)) by {
        let a = lemma_same_members(ds2, ds1, i);
        let b = lemma_same_members(ds2, ds1, j);
        assert(ds1[a].kind != EntryKind::Dir);
    }
}

/// Taking the same entries in any two orders, starting from fresh trees,
/// and publishing gives trees that show the same, as long as each entry
/// names its own path, only directory entries hold entries, and no two
/// entries filed under one directory share a name.
pub proof fn lemma_any_arrival_order_same_tree(
    root: Seq<char>,
    ds1: Seq<EntryDelta>,
    ds2: Seq<EntryDelta>,
    run1: Seq<IncrementalTree>,
    run2: Seq<IncrementalTree>,
    end1: IncrementalTree,
    end2: IncrementalTree,
    tree1: Arc<Node>,
    tree2: Arc<Node>,
)
    requires
        ds1.to_multiset() =~= ds2.to_multiset(),
        paths_distinct(ds1),
        paths_distinct(ds2),
        ran(run1, root, ds1),
        ran(run2, root, ds2),
        leaves_hold_nothing(ds1, root),
        end1.wf(),
        end2.wf(),
        published(run1.last(), end1, tree1),
        published(run2.last(), end2, tree2),
        names_apart(ds1.map_values(|d: EntryDelta| d.path@)),
    ensures
        same_shape(*tree1, *tree2),
{
    lemma_leaves_hold_nothing_perm(ds1, ds2, root);
    lemma_fit_all(Set::empty(), set![root], root, ds1);
    lemma_fit_all(Set::empty(), set![root], root, ds2);
    let n1 = ds1.len() as int;
    let n2 = ds2.len() as int;
    let s = run1[n1];
    let t = run2[n2];
    assert(run1.last() == s);
    assert(run2.last() == t);
    lemma_run_records(run1, root, ds1, n1);
    lemma_run_records(run2, root, ds2, n2);
    assert(ds1.take(n1) =~= ds1);
    assert(ds2.take(n2) =~= ds2);
    lemma_run_consistent(run1, root, ds1, n1);
    lemma_run_consistent(run2, root, ds2, n2);
    assert(s.wf());
    assert(t.wf());
    lemma_records_agree(s, t, root, ds1, ds2);
    lemma_publish_consistent(s, end1, tree1);
    lemma_named_apart_siblings(s, end1, tree1, root, ds1);
    lemma_publish_consistent(t, end2, tree2);
    // The root was out of date from the start, so both publishes build it.
    assert(s.dirty_paths().contains(root));
    assert(end1.node_map().contains_key(root));
    assert(end2.node_map().contains_key(root));
    assert forall|k: Seq<char>| end1.node_map().dom().contains(k) == end2.node_map().dom().contains(k) by {
        if s.dirty_paths().contains(k) {
            assert(end1.node_map().contains_key(k));
            assert(end2.node_map().contains_key(k));
        } else {
            assert(s.node_map().dom().contains(k) == t.node_map().dom().contains(k));
        }
    }
    assert(end1.node_map().dom() =~= end2.node_map().dom());
    assert forall|k: Seq<char>|
        #[trigger] end1.node_map().contains_key(k) && !end1.child_lists().contains_key(k) implies same_shape(
        *end1.node_map()[k],
        *end2.node_map()[k],
    ) by {
        if s.dirty_paths().contains(k) {
            assert(s.kids_of(k) == Seq::<Seq<char>>::empty());
            assert(t.kids_of(k) == Seq::<Seq<char>>::empty());
            assert(present_kids(Seq::<Seq<char>>::empty(), end1.node_map()) == Seq::<Arc<Node>>::empty());
            assert(present_kids(Seq::<Seq<char>>::empty(), end2.node_map()) == Seq::<Arc<Node>>::empty());
            assert(pointwise_same(end1.node_map()[k].children@, end2.node_map()[k].children@));
            lemma_same_shape_intro(end1.node_map()[k], end2.node_map()[k]);
        } else {
            assert(s.node_map().contains_key(k));
            assert(end1.node_map()[k] == s.node_map()[k]);
            assert(end2.node_map()[k] == t.node_map()[k]);
        }
    }
    assert(end1.root_path() == end2.root_path());
    assert(end1.child_lists().dom() =~= end2.child_lists().dom()) by {
        assert(end1.child_lists() == s.child_lists());
        assert(end2.child_lists() == t.child_lists());
    }
    assert forall|q: Seq<char>| #[trigger] end1.child_lists().contains_key(q) implies end1.kids_of(
        q,
    ).to_multiset() == end2.kids_of(q).to_multiset() by {
        assert(end1.kids_of(q) == s.kids_of(q));
        assert(end2.kids_of(q) == t.kids_of(q));
        assert(s.kids_of(q).to_multiset() == t.kids_of(q).to_multiset());
    }
    assert(same_record(end1, end2));
    lemma_arrival_order_irrelevant(end1, end2, root);
}

} // verus!
