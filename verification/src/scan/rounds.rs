//! What the builder's rounds add up to over a whole scan.
use super::arrival::{
    fresh, leaves_hold_nothing, lemma_arrival_order_irrelevant, lemma_fit_all,
    lemma_named_apart_siblings, lemma_run_consistent, lemma_run_records, leaf_for, lists_for,
    marks, paths_distinct, ran, records, same_record, filed,
};
use super::{
    all_fit, applied, dir_node_paths, is_dir_node, is_leaf_node, lemma_apply_consistent,
    lemma_keys_after, lemma_publish_consistent, present_kids, published, recorded, ticked, took,
    EntryDelta, EntryKind, IncrementalTree, ScanShared,
};
use crate::path::{names_apart, spec_parent};
use crate::tree::{
    in_sibling_order, lemma_same_shape_intro, lemma_sort_is_ordered, pointwise_same, same_shape,
    sort_children, Node,
};
use std::sync::Arc;
use vstd::prelude::*;

verus! {

/// The builder's rounds over a scan. From the builder `bs[0]` and the
/// shared state `shs[0]`, round `i` takes the batch `batches[i]` in the
/// order the walker pushed it, publishes the tree `trees[i]`, and records it
/// with the walker's last path `seen[i]`; the walker has finished by the
/// last round and not before.
pub open spec fn builder_rounds(
    bs: Seq<IncrementalTree>,
    shs: Seq<ScanShared>,
    trees: Seq<Arc<Node>>,
    batches: Seq<Seq<EntryDelta>>,
    seen: Seq<Option<String>>,
) -> bool {
    let m = batches.len();
    &&& m > 0
    &&& bs.len() == m + 1
    &&& shs.len() == m + 1
    &&& trees.len() == m
    &&& seen.len() == m
    &&& forall|i: int|
        #![trigger batches[i]]
        0 <= i < m ==> ticked(bs[i], batches[i], bs[i + 1], trees[i])
    &&& forall|i: int|
        #![trigger seen[i]]
        0 <= i < m ==> recorded(shs[i], shs[i + 1], trees[i], seen[i], i == m - 1)
}

/// Each batch fits the tree as it stands when the batch is taken.
pub open spec fn batches_fit(bs: Seq<IncrementalTree>, batches: Seq<Seq<EntryDelta>>) -> bool {
    forall|i: int|
        #![trigger batches[i]]
        0 <= i < batches.len() ==> all_fit(
            bs[i].node_map().dom(),
            dir_node_paths(bs[i].node_map()),
            bs[i].child_lists().dom(),
            bs[i].root_path(),
            batches[i],
        )
}

/// A round from a consistent tree whose entries fit it at their turn
/// leaves a consistent tree.
proof fn lemma_round_consistent(
    s: IncrementalTree,
    ds: Seq<EntryDelta>,
    t: IncrementalTree,
    tree: Arc<Node>,
)
    requires
        ticked(s, ds, t, tree),
        s.consistent(),
        all_fit(s.node_map().dom(), dir_node_paths(s.node_map()), s.child_lists().dom(), s.root_path(), ds),
    ensures
        t.consistent(),
        t.root_path() == s.root_path(),
{
    let run = choose|run: Seq<IncrementalTree>|
        #[trigger] took(run, ds) && run[0] == s && published(run.last(), t, tree);
    lemma_run_steps(run, ds, s.root_path(), ds.len() as int);
    assert(run.last() == run[ds.len() as int]);
    lemma_publish_consistent(run.last(), t, tree);
}

/// Each tree of a round's run is consistent, and the rest of the round's
/// entries fit it.
proof fn lemma_run_steps(run: Seq<IncrementalTree>, ds: Seq<EntryDelta>, root: Seq<char>, k: int)
    requires
        took(run, ds),
        run[0].root_path() == root,
        run[0].consistent(),
        all_fit(
            run[0].node_map().dom(),
            dir_node_paths(run[0].node_map()),
            run[0].child_lists().dom(),
            root,
            ds,
        ),
        0 <= k <= ds.len(),
    ensures
        run[k].root_path() == root,
        run[k].consistent(),
        all_fit(
            run[k].node_map().dom(),
            dir_node_paths(run[k].node_map()),
            run[k].child_lists().dom(),
            root,
            ds.skip(k),
        ),
    decreases k,
{
    if k == 0 {
        assert(ds.skip(0) =~= ds);
    } else {
        lemma_run_steps(run, ds, root, k - 1);
        let s = run[k - 1];
        let t = run[k];
        let d = ds[k - 1];
        assert(s.wf() && t.wf());
        assert(applied(s, t, d));
        assert(ds.skip(k - 1)[0] == d);
        assert(ds.skip(k - 1).drop_first() =~= ds.skip(k));
        lemma_keys_after(s, t, d);
        assert(s.fits(d));
        lemma_apply_consistent(s, t, d);
    }
}

/// Over the builder's rounds, each taking its batch in push order and
/// publishing: while the walker runs, each round shows its tree with the
/// walker's last path and the scan not done; the round after the walker
/// finishes shows its tree, which follows every entry of every batch, with
/// no current path, the scan done and its end time taken. The builder is
/// then up to date with the same root, the shown tree is its root's node,
/// and when the builder started consistent and each batch fit at its turn,
/// it ends consistent.
pub proof fn lemma_builder_rounds(
    bs: Seq<IncrementalTree>,
    shs: Seq<ScanShared>,
    trees: Seq<Arc<Node>>,
    batches: Seq<Seq<EntryDelta>>,
    seen: Seq<Option<String>>,
)
    requires
        builder_rounds(bs, shs, trees, batches, seen),
        !shs[0].done,
    ensures
        ({
            let m = batches.len() as int;
            &&& forall|i: int|
                #![trigger shs[i]]
                1 <= i < m ==> !shs[i].done && shs[i].current_path == seen[i - 1] && shs[i].tree
                    == trees[i - 1]
            &&& shs[m].done
            &&& shs[m].current_path is None
            &&& shs[m].finished_at is Some
            &&& shs[m].tree == trees[m - 1]
            &&& shs[m].counters == shs[0].counters
            &&& bs[m].root_path() == bs[0].root_path()
            &&& bs[m].dirty_paths() == Set::<Seq<char>>::empty()
            &&& bs[m].node_map().contains_key(bs[m].root_path()) ==> shs[m].tree == bs[m].node_map()[bs[m].root_path()]
            &&& (bs[0].consistent() && batches_fit(bs, batches) ==> bs[m].consistent())
        }),
{
    let m = batches.len() as int;
    assert forall|i: int| #![trigger shs[i]] 1 <= i <= m implies shs[i].done == (i == m)
        && shs[i].counters == shs[0].counters && bs[i].root_path() == bs[0].root_path() by {
        lemma_rounds_prefix(bs, shs, trees, batches, seen, i);
    }
    assert forall|i: int| #![trigger shs[i]] 1 <= i < m implies !shs[i].done && shs[i].current_path
        == seen[i - 1] && shs[i].tree == trees[i - 1] by {
        assert(recorded(shs[i - 1], shs[i], trees[i - 1], seen[i - 1], i - 1 == m - 1));
    }
    assert(recorded(shs[m - 1], shs[m], trees[m - 1], seen[m - 1], true));
    assert(ticked(bs[m - 1], batches[m - 1], bs[m], trees[m - 1]));
    let run = choose|run: Seq<IncrementalTree>|
        #[trigger] took(run, batches[m - 1]) && run[0] == bs[m - 1] && published(run.last(), bs[m], trees[m - 1]);
    if bs[0].consistent() && batches_fit(bs, batches) {
        lemma_rounds_consistent(bs, shs, trees, batches, seen, m);
    }
}

/// After `k` rounds the scan is done exactly when the walker finished in
/// one of them, the counters are the same, and the root has not moved.
proof fn lemma_rounds_prefix(
    bs: Seq<IncrementalTree>,
    shs: Seq<ScanShared>,
    trees: Seq<Arc<Node>>,
    batches: Seq<Seq<EntryDelta>>,
    seen: Seq<Option<String>>,
    k: int,
)
    requires
        builder_rounds(bs, shs, trees, batches, seen),
        !shs[0].done,
        0 <= k <= batches.len(),
    ensures
        shs[k].done == (k == batches.len()),
        shs[k].counters == shs[0].counters,
        bs[k].root_path() == bs[0].root_path(),
    decreases k,
{
    if k > 0 {
        lemma_rounds_prefix(bs, shs, trees, batches, seen, k - 1);
        let m = batches.len() as int;
        assert(recorded(shs[k - 1], shs[k], trees[k - 1], seen[k - 1], k - 1 == m - 1));
        assert(ticked(bs[k - 1], batches[k - 1], bs[k], trees[k - 1]));
        let run = choose|run: Seq<IncrementalTree>|
            #[trigger] took(run, batches[k - 1]) && run[0] == bs[k - 1] && published(run.last(), bs[k], trees[k - 1]);
        lemma_run_root(run, batches[k - 1], batches[k - 1].len() as int);
        assert(run.last() == run[batches[k - 1].len() as int]);
    }
}

/// The trees of a run keep their root.
proof fn lemma_run_root(run: Seq<IncrementalTree>, ds: Seq<EntryDelta>, k: int)
    requires
        took(run, ds),
        0 <= k <= ds.len(),
    ensures
        run[k].root_path() == run[0].root_path(),
    decreases k,
{
    if k > 0 {
        lemma_run_root(run, ds, k - 1);
        assert(applied(run[k - 1], run[k], ds[k - 1]));
    }
}

/// Rounds from a consistent tree, each batch fitting at its turn, keep the
/// tree consistent.
proof fn lemma_rounds_consistent(
    bs: Seq<IncrementalTree>,
    shs: Seq<ScanShared>,
    trees: Seq<Arc<Node>>,
    batches: Seq<Seq<EntryDelta>>,
    seen: Seq<Option<String>>,
    k: int,
)
    requires
        builder_rounds(bs, shs, trees, batches, seen),
        bs[0].consistent(),
        batches_fit(bs, batches),
        0 <= k <= batches.len(),
    ensures
        bs[k].consistent(),
    decreases k,
{
    if k > 0 {
        lemma_rounds_consistent(bs, shs, trees, batches, seen, k - 1);
        assert(ticked(bs[k - 1], batches[k - 1], bs[k], trees[k - 1]));
        assert(all_fit(
            bs[k - 1].node_map().dom(),
            dir_node_paths(bs[k - 1].node_map()),
            bs[k - 1].child_lists().dom(),
            bs[k - 1].root_path(),
            batches[k - 1],
        ));
        lemma_round_consistent(bs[k - 1], batches[k - 1], bs[k], trees[k - 1]);
    }
}

/// No file or symlink entry is marked out of date by taking any entry: none
/// is the root or a directory above another entry.
pub open spec fn leaves_unmarked(ds: Seq<EntryDelta>, root: Seq<char>) -> bool {
    forall|i: int, j: int|
        0 <= i < ds.len() && 0 <= j < ds.len() && (#[trigger] ds[i]).kind != EntryKind::Dir
            ==> !marks((#[trigger] ds[j]).path@, root, ds[i].path@)
}

/// The builder `b`, which has published along the way, holds what the
/// unpublished tree `a` that took the same entries holds: the same root and
/// child lists, no directory out of date that `a` does not have out of date,
/// the file and symlink nodes of `a` (showing the same), and besides them
/// only directory nodes, at every directory `a` has out of date and `b` no
/// longer has.
spec fn shadows(b: IncrementalTree, a: IncrementalTree) -> bool {
    &&& b.root_path() == a.root_path()
    &&& b.child_lists() == a.child_lists()
    &&& b.dirty_paths().subset_of(a.dirty_paths())
    &&& forall|k: Seq<char>|
        #[trigger] a.node_map().contains_key(k) ==> b.node_map().contains_key(k) && same_shape(
            *a.node_map()[k],
            *b.node_map()[k],
        )
    &&& forall|k: Seq<char>|
        #[trigger] b.node_map().contains_key(k) ==> (a.node_map().contains_key(k)
            || a.dirty_paths().contains(k)) && (!a.node_map().contains_key(k)
            ==> b.node_map()[k].is_dir)
    &&& forall|k: Seq<char>|
        #[trigger] a.dirty_paths().contains(k) && !b.dirty_paths().contains(k)
            ==> b.node_map().contains_key(k)
}

/// Two nodes of one file or symlink entry show the same.
proof fn lemma_leaf_nodes_same(x: Arc<Node>, y: Arc<Node>, p: Seq<char>, size: u64, link: bool)
    requires
        is_leaf_node(*x, p, size, link),
        is_leaf_node(*y, p, size, link),
    ensures
        same_shape(*x, *y),
{
    assert(pointwise_same(x.children@, y.children@));
    lemma_same_shape_intro(x, y);
}

/// Taking the same entry keeps the builder shadowing the unpublished tree.
proof fn lemma_shadow_apply(
    b: IncrementalTree,
    b2: IncrementalTree,
    a: IncrementalTree,
    a2: IncrementalTree,
    d: EntryDelta,
)
    requires
        shadows(b, a),
        applied(b, b2, d),
        applied(a, a2, d),
    ensures
        shadows(b2, a2),
{
    let p = d.path@;
    if d.kind != EntryKind::Dir {
        lemma_leaf_nodes_same(
            a2.node_map()[p],
            b2.node_map()[p],
            p,
            d.size,
            d.kind == EntryKind::Link,
        );
    }
    assert forall|k: Seq<char>| #[trigger] a2.node_map().contains_key(k) implies b2.node_map().contains_key(
        k,
    ) && same_shape(*a2.node_map()[k], *b2.node_map()[k]) by {
        if d.kind == EntryKind::Dir || k != p {
            assert(a.node_map().contains_key(k));
        }
    }
    assert forall|k: Seq<char>| #[trigger] b2.node_map().contains_key(k) implies (
    a2.node_map().contains_key(k) || a2.dirty_paths().contains(k)) && (
    !a2.node_map().contains_key(k) ==> b2.node_map()[k].is_dir) by {
        if d.kind == EntryKind::Dir || k != p {
            assert(b.node_map().contains_key(k));
        }
    }
    assert(b2.dirty_paths().subset_of(a2.dirty_paths()));
}

/// Publishing keeps the builder shadowing the unpublished tree, whose file
/// and symlink nodes are never out of date.
proof fn lemma_shadow_publish(b: IncrementalTree, b2: IncrementalTree, tree: Arc<Node>, a: IncrementalTree)
    requires
        shadows(b, a),
        published(b, b2, tree),
        forall|k: Seq<char>| #[trigger] a.node_map().contains_key(k) ==> !a.dirty_paths().contains(k),
    ensures
        shadows(b2, a),
{
    assert forall|k: Seq<char>| #[trigger] a.node_map().contains_key(k) implies b2.node_map().contains_key(
        k,
    ) && same_shape(*a.node_map()[k], *b2.node_map()[k]) by {
        assert(!b.dirty_paths().contains(k));
    }
    assert forall|k: Seq<char>| #[trigger] b2.node_map().contains_key(k) implies (
    a.node_map().contains_key(k) || a.dirty_paths().contains(k)) && (!a.node_map().contains_key(k)
        ==> b2.node_map()[k].is_dir) by {
        if !b.dirty_paths().contains(k) {
            assert(b.node_map().contains_key(k));
        }
    }
    assert forall|k: Seq<char>| #[trigger] a.dirty_paths().contains(k) && !b2.dirty_paths().contains(
        k,
    ) implies b2.node_map().contains_key(k) by {
        if !b.dirty_paths().contains(k) {
            assert(b.node_map().contains_key(k));
        }
    }
    assert(b2.dirty_paths().subset_of(a.dirty_paths()));
}

/// What the unpublished tree after the first `g` entries holds: its file
/// and symlink nodes are never out of date, and the next entry fits the
/// builder that shadows it.
proof fn lemma_shadow_fits(b: IncrementalTree, a: IncrementalTree, root: Seq<char>, ds: Seq<EntryDelta>, g: int)
    requires
        shadows(b, a),
        records(a, root, ds.take(g)),
        paths_distinct(ds),
        leaves_hold_nothing(ds, root),
        leaves_unmarked(ds, root),
        0 <= g <= ds.len(),
    ensures
        forall|k: Seq<char>| #[trigger] a.node_map().contains_key(k) ==> !a.dirty_paths().contains(k),
        g < ds.len() ==> b.fits(ds[g]),
{
    let pre = ds.take(g);
    assert forall|k: Seq<char>| #[trigger] a.node_map().contains_key(k) implies !a.dirty_paths().contains(
        k,
    ) by {
        let i = choose|i: int| 0 <= i < pre.len() && #[trigger] leaf_for(pre[i], k);
        assert(pre[i] == ds[i]);
        assert(k != root);
        if a.dirty_paths().contains(k) {
            let j = choose|j: int| 0 <= j < pre.len() && #[trigger] marks(pre[j].path@, root, k);
            assert(pre[j] == ds[j]);
        }
    }
    if g < ds.len() {
        let d = ds[g];
        let p = d.path@;
        if d.kind == EntryKind::Dir {
            if b.node_map().contains_key(p) && a.node_map().contains_key(p) {
                let i = choose|i: int| 0 <= i < pre.len() && #[trigger] leaf_for(pre[i], p);
                assert(pre[i] == ds[i]);
            }
        } else {
            assert(p != root);
            if a.child_lists().contains_key(p) {
                let i = choose|i: int| 0 <= i < pre.len() && #[trigger] lists_for(pre[i], root, p);
                assert(pre[i] == ds[i]);
            }
        }
    }
}

/// `batches` are `ds` cut at the positions `cuts`, in order.
pub open spec fn cut_into(batches: Seq<Seq<EntryDelta>>, ds: Seq<EntryDelta>, cuts: Seq<int>) -> bool {
    &&& cuts.len() == batches.len() + 1
    &&& cuts[0] == 0
    &&& cuts[batches.len() as int] == ds.len()
    &&& forall|i: int|
        #![trigger batches[i]]
        0 <= i < batches.len() ==> 0 <= cuts[i] <= cuts[i + 1] <= ds.len() && batches[i]
            == ds.subrange(cuts[i], cuts[i + 1])
}

/// Rounds that take the entries `ds` batch by batch, publishing after each,
/// end with a tree that shows the same as one round taking all of `ds`,
/// as long as each entry names its own path, only directory entries hold
/// entries, no file or symlink entry is marked out of date by another, and
/// no two entries filed under one directory share a name.
pub proof fn lemma_rounds_as_one(
    bs: Seq<IncrementalTree>,
    shs: Seq<ScanShared>,
    trees: Seq<Arc<Node>>,
    batches: Seq<Seq<EntryDelta>>,
    seen: Seq<Option<String>>,
    ds: Seq<EntryDelta>,
    cuts: Seq<int>,
    one: Seq<IncrementalTree>,
    end: IncrementalTree,
    tree: Arc<Node>,
)
    requires
        builder_rounds(bs, shs, trees, batches, seen),
        fresh(bs[0], bs[0].root_path()),
        cut_into(batches, ds, cuts),
        paths_distinct(ds),
        leaves_hold_nothing(ds, bs[0].root_path()),
        leaves_unmarked(ds, bs[0].root_path()),
        names_apart(ds.map_values(|d: EntryDelta| d.path@)),
        ran(one, bs[0].root_path(), ds),
        end.wf(),
        published(one.last(), end, tree),
    ensures
        same_shape(*tree, *trees[batches.len() - 1]),
{
    let root = bs[0].root_path();
    let m = batches.len() as int;
    let n = ds.len() as int;
    lemma_rounds_shadow(bs, shs, trees, batches, seen, ds, cuts, one, root, m);
    let a = one[n];
    let b = bs[m];
    assert(one.last() == a);
    assert(ticked(bs[m - 1], batches[m - 1], bs[m], trees[m - 1]));
    let run = choose|run: Seq<IncrementalTree>|
        #[trigger] took(run, batches[m - 1]) && run[0] == bs[m - 1] && published(run.last(), bs[m], trees[m - 1]);
    assert(b.dirty_paths() == Set::<Seq<char>>::empty());
    lemma_run_records(one, root, ds, n);
    assert(ds.take(n) =~= ds);
    lemma_fit_all(Set::empty(), set![root], root, ds);
    lemma_run_consistent(one, root, ds, n);
    lemma_publish_consistent(a, end, tree);
    lemma_named_apart_siblings(a, end, tree, root, ds);
    lemma_shadow_fits(b, a, root, ds, n);
    // Both hold a node at every path that has one in the unpublished tree
    // or that it has out of date.
    assert forall|k: Seq<char>| end.node_map().dom().contains(k) == b.node_map().dom().contains(k) by {
        if a.dirty_paths().contains(k) {
            assert(end.node_map().contains_key(k));
        } else if a.node_map().contains_key(k) {
            assert(end.node_map().contains_key(k));
        } else {
            assert(!end.node_map().contains_key(k));
            assert(!b.node_map().contains_key(k));
        }
    }
    assert(end.node_map().dom() =~= b.node_map().dom());
    assert(end.child_lists() == a.child_lists());
    assert(end.child_lists().dom() =~= b.child_lists().dom());
    assert forall|q: Seq<char>| #[trigger] end.child_lists().contains_key(q) implies end.kids_of(
        q,
    ).to_multiset() == b.kids_of(q).to_multiset() by {
        assert(end.kids_of(q) == b.kids_of(q));
    }
    assert forall|k: Seq<char>|
        #[trigger] end.node_map().contains_key(k) && !end.child_lists().contains_key(k) implies same_shape(
        *end.node_map()[k],
        *b.node_map()[k],
    ) by {
        if a.dirty_paths().contains(k) {
            assert(a.kids_of(k) == Seq::<Seq<char>>::empty());
            assert(present_kids(Seq::<Seq<char>>::empty(), end.node_map()) == Seq::<Arc<Node>>::empty());
            assert(is_dir_node(*end.node_map()[k], k, Seq::empty()));
            assert(!a.node_map().contains_key(k));
            assert(b.node_map()[k].is_dir);
            assert(!b.child_lists().contains_key(k));
            assert(is_dir_node(*b.node_map()[k], k, Seq::empty()));
            assert(pointwise_same(end.node_map()[k].children@, b.node_map()[k].children@)) by {
                assert(end.node_map()[k].children@ == b.node_map()[k].children@);
                lemma_sort_empty();
            }
            lemma_same_shape_intro(end.node_map()[k], b.node_map()[k]);
        } else {
            assert(end.node_map()[k] == a.node_map()[k]);
        }
    }
    assert(same_record(end, b));
    assert(a.dirty_paths().contains(root));
    assert(end.node_map().contains_key(root));
    lemma_arrival_order_irrelevant(end, b, root);
}

/// Sorting no children gives no children.
proof fn lemma_sort_empty()
    ensures
        crate::tree::sort_children(Seq::<Arc<Node>>::empty()) == Seq::<Arc<Node>>::empty(),
{
}

/// After `r` rounds the builder is well formed, consistent, and shadows the
/// unpublished tree that took the first `cuts[r]` entries.
proof fn lemma_rounds_shadow(
    bs: Seq<IncrementalTree>,
    shs: Seq<ScanShared>,
    trees: Seq<Arc<Node>>,
    batches: Seq<Seq<EntryDelta>>,
    seen: Seq<Option<String>>,
    ds: Seq<EntryDelta>,
    cuts: Seq<int>,
    one: Seq<IncrementalTree>,
    root: Seq<char>,
    r: int,
)
    requires
        builder_rounds(bs, shs, trees, batches, seen),
        root == bs[0].root_path(),
        fresh(bs[0], root),
        cut_into(batches, ds, cuts),
        paths_distinct(ds),
        leaves_hold_nothing(ds, root),
        leaves_unmarked(ds, root),
        ran(one, root, ds),
        0 <= r <= batches.len(),
    ensures
        bs[r].wf(),
        bs[r].consistent(),
        shadows(bs[r], one[if r == 0 { 0 } else { cuts[r] }]),
        r > 0 ==> 0 <= cuts[r] <= ds.len(),
    decreases r,
{
    if r == 0 {
        assert(one[0].node_map() == bs[0].node_map());
        assert(one[0].dirty_paths() == bs[0].dirty_paths());
    } else {
        lemma_rounds_shadow(bs, shs, trees, batches, seen, ds, cuts, one, root, r - 1);
        let batch = batches[r - 1];
        let o = cuts[r - 1];
        assert(0 <= o <= cuts[r] <= ds.len() && batch == ds.subrange(o, cuts[r]));
        assert(r - 1 == 0 ==> o == 0);
        assert(ticked(bs[r - 1], batch, bs[r], trees[r - 1]));
        let run = choose|run: Seq<IncrementalTree>|
            #[trigger] took(run, batch) && run[0] == bs[r - 1] && published(run.last(), bs[r], trees[r - 1]);
        lemma_round_shadow(run, batch, ds, o, one, root, batch.len() as int);
        let k = batch.len() as int;
        assert(run.last() == run[k]);
        lemma_run_records(one, root, ds, o + k);
        lemma_shadow_fits(run[k], one[o + k], root, ds, o + k);
        lemma_shadow_publish(run[k], bs[r], trees[r - 1], one[o + k]);
        lemma_publish_consistent(run[k], bs[r], trees[r - 1]);
    }
}

/// Within a round, the builder's run shadows the unpublished tree entry by
/// entry and stays consistent.
proof fn lemma_round_shadow(
    run: Seq<IncrementalTree>,
    batch: Seq<EntryDelta>,
    ds: Seq<EntryDelta>,
    o: int,
    one: Seq<IncrementalTree>,
    root: Seq<char>,
    j: int,
)
    requires
        took(run, batch),
        0 <= o,
        o + batch.len() <= ds.len(),
        batch == ds.subrange(o, o + batch.len()),
        run[0].consistent(),
        shadows(run[0], one[o]),
        paths_distinct(ds),
        leaves_hold_nothing(ds, root),
        leaves_unmarked(ds, root),
        ran(one, root, ds),
        0 <= j <= batch.len(),
    ensures
        run[j].consistent(),
        shadows(run[j], one[o + j]),
    decreases j,
{
    if j > 0 {
        lemma_round_shadow(run, batch, ds, o, one, root, j - 1);
        let g = o + j - 1;
        let d = batch[j - 1];
        assert(d == ds[g]);
        assert(applied(run[j - 1], run[j], batch[j - 1]));
        assert(applied(one[g], one[g + 1], ds[g]));
        assert(run[j - 1].wf() && run[j].wf());
        lemma_run_records(one, root, ds, g);
        lemma_shadow_fits(run[j - 1], one[g], root, ds, g);
        lemma_apply_consistent(run[j - 1], run[j], d);
        lemma_shadow_apply(run[j - 1], run[j], one[g], one[g + 1], d);
    }
}

/// A whole scan: over the builder's rounds, from a fresh tree, with the
/// entries `ds` cut into the rounds' batches in push order, each round shows
/// its tree with the walker's last path while the walker runs; the round
/// after it finishes shows the scan done, with no current path and its end
/// time taken, and a tree that shows the same as the one published after a
/// single round taking all of `ds`.
pub proof fn lemma_scan_shows_all_entries(
    bs: Seq<IncrementalTree>,
    shs: Seq<ScanShared>,
    trees: Seq<Arc<Node>>,
    batches: Seq<Seq<EntryDelta>>,
    seen: Seq<Option<String>>,
    ds: Seq<EntryDelta>,
    cuts: Seq<int>,
    one: Seq<IncrementalTree>,
    end: IncrementalTree,
    tree: Arc<Node>,
)
    requires
        builder_rounds(bs, shs, trees, batches, seen),
        !shs[0].done,
        fresh(bs[0], bs[0].root_path()),
        cut_into(batches, ds, cuts),
        paths_distinct(ds),
        leaves_hold_nothing(ds, bs[0].root_path()),
        leaves_unmarked(ds, bs[0].root_path()),
        names_apart(ds.map_values(|d: EntryDelta| d.path@)),
        ran(one, bs[0].root_path(), ds),
        end.wf(),
        published(one.last(), end, tree),
    ensures
        ({
            let m = batches.len() as int;
            &&& forall|i: int|
                #![trigger shs[i]]
                1 <= i < m ==> !shs[i].done && shs[i].current_path == seen[i - 1]
            &&& shs[m].done
            &&& shs[m].current_path is None
            &&& shs[m].finished_at is Some
            &&& same_shape(*tree, *shs[m].tree)
        }),
{
    lemma_builder_rounds(bs, shs, trees, batches, seen);
    lemma_rounds_as_one(bs, shs, trees, batches, seen, ds, cuts, one, end, tree);
}

/// What one round from a fresh tree publishes, for entries with their own
/// paths of which only directories hold entries: the root's directory
/// node; at every directory with a child list and a node, the directory
/// node of its recorded children, which are the entries filed under it,
/// sorted largest first with ties by name, its size their total; and at
/// every other path with a node, the node of the file or symlink entry at
/// that path, or an empty directory.
pub proof fn lemma_published_tree(
    one: Seq<IncrementalTree>,
    root: Seq<char>,
    ds: Seq<EntryDelta>,
    end: IncrementalTree,
    tree: Arc<Node>,
)
    requires
        ran(one, root, ds),
        paths_distinct(ds),
        leaves_hold_nothing(ds, root),
        end.wf(),
        published(one.last(), end, tree),
    ensures
        end.node_map().contains_key(root),
        tree == end.node_map()[root],
        is_dir_node(*tree, root, present_kids(end.kids_of(root), end.node_map())),
        forall|d: Seq<char>|
            #[trigger] end.child_lists().contains_key(d) && end.node_map().contains_key(d) ==> {
                &&& is_dir_node(*end.node_map()[d], d, present_kids(end.kids_of(d), end.node_map()))
                &&& end.kids_of(d).to_multiset() == filed(ds, root, d)
                &&& in_sibling_order(end.node_map()[d].children@)
                &&& end.node_map()[d].children@ == sort_children(
                    present_kids(end.kids_of(d), end.node_map()),
                )
            },
        forall|k: Seq<char>|
            #[trigger] end.node_map().contains_key(k) && !end.child_lists().contains_key(k) ==> (
            exists|i: int|
                0 <= i < ds.len() && #[trigger] leaf_for(ds[i], k) && is_leaf_node(
                    *end.node_map()[k],
                    k,
                    ds[i].size,
                    ds[i].kind == EntryKind::Link,
                )) || is_dir_node(*end.node_map()[k], k, Seq::empty()),
{
    let n = ds.len() as int;
    let a = one[n];
    assert(one.last() == a);
    lemma_run_records(one, root, ds, n);
    assert(ds.take(n) =~= ds);
    lemma_fit_all(Set::empty(), set![root], root, ds);
    lemma_run_consistent(one, root, ds, n);
    lemma_publish_consistent(a, end, tree);
    assert(a.dirty_paths().contains(root));
    assert(end.child_lists().contains_key(root));
    assert forall|d: Seq<char>|
        #[trigger] end.child_lists().contains_key(d) && end.node_map().contains_key(d) implies {
        &&& is_dir_node(*end.node_map()[d], d, present_kids(end.kids_of(d), end.node_map()))
        &&& end.kids_of(d).to_multiset() == filed(ds, root, d)
        &&& in_sibling_order(end.node_map()[d].children@)
        &&& end.node_map()[d].children@ == sort_children(
            present_kids(end.kids_of(d), end.node_map()),
        )
    } by {
        assert(end.kids_of(d) == a.kids_of(d));
        lemma_sort_is_ordered(present_kids(end.kids_of(d), end.node_map()));
    }
    assert forall|k: Seq<char>|
        #[trigger] end.node_map().contains_key(k) && !end.child_lists().contains_key(k) implies (
        exists|i: int|
            0 <= i < ds.len() && #[trigger] leaf_for(ds[i], k) && is_leaf_node(
                *end.node_map()[k],
                k,
                ds[i].size,
                ds[i].kind == EntryKind::Link,
            )) || is_dir_node(*end.node_map()[k], k, Seq::empty()) by {
        if a.dirty_paths().contains(k) {
            assert(a.kids_of(k) == Seq::<Seq<char>>::empty());
            assert(present_kids(Seq::<Seq<char>>::empty(), end.node_map()) == Seq::<Arc<Node>>::empty());
        } else {
            assert(end.node_map()[k] == a.node_map()[k]);
            assert(a.node_map().contains_key(k));
        }
    }
}

} // verus!
