//! The scanned directory tree.
use crate::path::{leaf_name, spec_leaf_name};
use std::sync::Arc;
use vstd::prelude::*;
use vstd::utf8::encode_utf8;

verus! {

/// One entry of the tree. Paths are Unix path strings.
#[derive(Debug, Clone)]
pub struct Node {
    pub name: String,
    /// Absolute path on disk. Used by tile-color hashing.
    pub path: String,
    pub size: u64,
    pub is_dir: bool,
    /// True when this entry is a symlink. Symlinks are never followed: the
    /// node is leaf-like (no children, tiny size = the link inode's
    /// footprint) and the renderer marks it with an arrow.
    pub is_link: bool,
    /// Children are shared (`Arc`) so that the incremental scan builder can
    /// rebuild a single directory without copying every descendant.
    pub children: Vec<Arc<Node>>,
}

/// `a` sorts strictly before `b`, byte by byte.
pub open spec fn bytes_lt(a: Seq<u8>, b: Seq<u8>) -> bool
    decreases a.len(),
{
    if a.len() == 0 {
        b.len() > 0
    } else if b.len() == 0 {
        false
    } else if a[0] != b[0] {
        a[0] < b[0]
    } else {
        bytes_lt(a.drop_first(), b.drop_first())
    }
}

/// The UTF-8 bytes of a node's name, the order `String`'s `cmp` uses.
pub open spec fn name_bytes(n: Node) -> Seq<u8> {
    encode_utf8(n.name@)
}

/// Among siblings, `a` comes before `b`: bigger first, then by name.
pub open spec fn goes_before(a: Node, b: Node) -> bool {
    a.size > b.size || (a.size == b.size && bytes_lt(name_bytes(a), name_bytes(b)))
}

/// `goes_before` on shared nodes.
pub open spec fn precedes(a: Arc<Node>, b: Arc<Node>) -> bool {
    goes_before(*a, *b)
}

/// Stable merge of two child lists.
pub open spec fn merge(a: Seq<Arc<Node>>, b: Seq<Arc<Node>>) -> Seq<Arc<Node>>
    decreases a.len() + b.len(),
{
    if a.len() == 0 {
        b
    } else if b.len() == 0 {
        a
    } else if precedes(b[0], a[0]) {
        seq![b[0]] + merge(a, b.drop_first())
    } else {
        seq![a[0]] + merge(a.drop_first(), b)
    }
}

/// The children in sibling order (a stable merge sort).
pub open spec fn sort_children(s: Seq<Arc<Node>>) -> Seq<Arc<Node>>
    decreases s.len(),
{
    if s.len() <= 1 {
        s
    } else {
        merge(sort_children(s.take((s.len() / 2) as int)), sort_children(s.skip((s.len() / 2) as int)))
    }
}

/// Total size of a list of nodes.
pub open spec fn sizes_sum(s: Seq<Arc<Node>>) -> int
    decreases s.len(),
{
    if s.len() == 0 {
        0
    } else {
        s[0].size + sizes_sum(s.drop_first())
    }
}

/// A total held at `u64::MAX` when it does not fit.
pub open spec fn capped_size(total: int) -> u64 {
    if total <= u64::MAX {
        total as u64
    } else {
        u64::MAX
    }
}

/// Number of nodes in the tree rooted at `n`, `n` included.
pub open spec fn tree_count(n: Node) -> nat
    decreases n, n.children@.len() + 1,
{
    1 + children_count(n, n.children@.len() as int)
}

/// Number of nodes under the first `k` children of `n`.
pub open spec fn children_count(n: Node, k: int) -> nat
    decreases n, k,
{
    if k <= 0 || k > n.children@.len() {
        0
    } else {
        children_count(n, k - 1) + tree_count(*n.children@[k - 1])
    }
}

/// Number of nodes in the trees of a list, one after the other (a subtree
/// that occurs twice counts twice).
pub open spec fn counts_sum(kids: Seq<Arc<Node>>) -> nat
    decreases kids.len(),
{
    if kids.len() == 0 {
        0
    } else {
        counts_sum(kids.drop_last()) + tree_count(*kids.last())
    }
}

proof fn lemma_children_count_prefix(n: Node, k: int)
    requires
        0 <= k <= n.children@.len(),
    ensures
        children_count(n, k) == counts_sum(n.children@.take(k)),
    decreases k,
{
    if k > 0 {
        lemma_children_count_prefix(n, k - 1);
        assert(n.children@.take(k).drop_last() =~= n.children@.take(k - 1));
    } else {
        assert(n.children@.take(0) =~= Seq::<Arc<Node>>::empty());
    }
}

/// A tree holds its root and the nodes of each child's tree: its node count
/// is one more than the sum of its children's, and one for a node without
/// children.
pub proof fn lemma_tree_count_children(n: Node)
    ensures
        tree_count(n) == 1 + counts_sum(n.children@),
        n.children@.len() == 0 ==> tree_count(n) == 1,
{
    lemma_children_count_prefix(n, n.children@.len() as int);
    assert(n.children@.take(n.children@.len() as int) =~= n.children@);
}

/// Shares a child (`Arc::clone`): the result points to the same node.
#[verifier::external_body]
pub fn share(a: &Arc<Node>) -> (r: Arc<Node>)
    ensures
        r == *a,
{
    Arc::clone(a)
}

/// The total size of two lists one after the other is the sum of theirs.
pub proof fn lemma_sizes_sum_concat(a: Seq<Arc<Node>>, b: Seq<Arc<Node>>)
    ensures
        sizes_sum(a + b) == sizes_sum(a) + sizes_sum(b),
    decreases a.len(),
{
    if a.len() > 0 {
        assert((a + b).drop_first() =~= a.drop_first() + b);
        lemma_sizes_sum_concat(a.drop_first(), b);
    } else {
        assert(a + b =~= b);
    }
}

proof fn lemma_sizes_sum_merge(a: Seq<Arc<Node>>, b: Seq<Arc<Node>>)
    ensures
        sizes_sum(merge(a, b)) == sizes_sum(a) + sizes_sum(b),
    decreases a.len() + b.len(),
{
    if a.len() > 0 && b.len() > 0 {
        if precedes(b[0], a[0]) {
            lemma_sizes_sum_merge(a, b.drop_first());
            lemma_sizes_sum_concat(seq![b[0]], merge(a, b.drop_first()));
            assert(seq![b[0]].drop_first() =~= Seq::<Arc<Node>>::empty());
            assert(sizes_sum(Seq::<Arc<Node>>::empty()) == 0);
            assert(sizes_sum(seq![b[0]]) == b[0].size);
        } else {
            lemma_sizes_sum_merge(a.drop_first(), b);
            lemma_sizes_sum_concat(seq![a[0]], merge(a.drop_first(), b));
            assert(seq![a[0]].drop_first() =~= Seq::<Arc<Node>>::empty());
            assert(sizes_sum(Seq::<Arc<Node>>::empty()) == 0);
            assert(sizes_sum(seq![a[0]]) == a[0].size);
        }
    }
}

/// Sorting children keeps their total size.
pub proof fn lemma_sort_keeps_size(s: Seq<Arc<Node>>)
    ensures
        sizes_sum(sort_children(s)) == sizes_sum(s),
    decreases s.len(),
{
    if s.len() > 1 {
        let m = s.len() / 2;
        lemma_sort_keeps_size(s.take(m as int));
        lemma_sort_keeps_size(s.skip(m as int));
        lemma_sizes_sum_merge(sort_children(s.take(m as int)), sort_children(s.skip(m as int)));
        assert(s.take(m as int) + s.skip(m as int) =~= s);
        lemma_sizes_sum_concat(s.take(m as int), s.skip(m as int));
    }
}

proof fn lemma_merge_multiset(a: Seq<Arc<Node>>, b: Seq<Arc<Node>>)
    ensures
        merge(a, b).to_multiset() =~= a.to_multiset().add(b.to_multiset()),
    decreases a.len() + b.len(),
{
    broadcast use vstd::seq_lib::group_to_multiset_ensures;
    broadcast use vstd::multiset::group_multiset_axioms;

    if a.len() == 0 {
        assert(a =~= Seq::<Arc<Node>>::empty());
    } else if b.len() == 0 {
        assert(b =~= Seq::<Arc<Node>>::empty());
    } else if precedes(b[0], a[0]) {
        lemma_merge_multiset(a, b.drop_first());
        vstd::seq_lib::lemma_multiset_commutative(seq![b[0]], merge(a, b.drop_first()));
        vstd::seq_lib::lemma_multiset_commutative(seq![b[0]], b.drop_first());
        assert(seq![b[0]] + b.drop_first() =~= b);
    } else {
        lemma_merge_multiset(a.drop_first(), b);
        vstd::seq_lib::lemma_multiset_commutative(seq![a[0]], merge(a.drop_first(), b));
        vstd::seq_lib::lemma_multiset_commutative(seq![a[0]], a.drop_first());
        assert(seq![a[0]] + a.drop_first() =~= a);
    }
}

/// Sorting children neither loses nor adds any: the result is a
/// permutation of the input.
pub proof fn lemma_sort_is_permutation(s: Seq<Arc<Node>>)
    ensures
        sort_children(s).to_multiset() =~= s.to_multiset(),
    decreases s.len(),
{
    if s.len() > 1 {
        let m = (s.len() / 2) as int;
        lemma_sort_is_permutation(s.take(m));
        lemma_sort_is_permutation(s.skip(m));
        lemma_merge_multiset(sort_children(s.take(m)), sort_children(s.skip(m)));
        assert(s.take(m) + s.skip(m) =~= s);
        vstd::seq_lib::lemma_multiset_commutative(s.take(m), s.skip(m));
    }
}

/// No element of `s` goes before `x`.
pub open spec fn none_before(x: Arc<Node>, s: Seq<Arc<Node>>) -> bool {
    forall|i: int| 0 <= i < s.len() ==> !precedes(#[trigger] s[i], x)
}

/// Children in sibling order: no child goes before one listed earlier.
pub open spec fn in_sibling_order(s: Seq<Arc<Node>>) -> bool {
    forall|i: int, j: int| 0 <= i < j < s.len() ==> !precedes(#[trigger] s[j], #[trigger] s[i])
}

proof fn lemma_bytes_lt_irrefl(a: Seq<u8>)
    ensures
        !bytes_lt(a, a),
    decreases a.len(),
{
    if a.len() > 0 {
        lemma_bytes_lt_irrefl(a.drop_first());
    }
}

proof fn lemma_bytes_lt_trans(a: Seq<u8>, b: Seq<u8>, c: Seq<u8>)
    requires
        bytes_lt(a, b),
        bytes_lt(b, c),
    ensures
        bytes_lt(a, c),
    decreases a.len(),
{
    if a.len() > 0 && b.len() > 0 && c.len() > 0 {
        if a[0] == b[0] && b[0] == c[0] {
            lemma_bytes_lt_trans(a.drop_first(), b.drop_first(), c.drop_first());
        }
    }
}

proof fn lemma_bytes_lt_total(a: Seq<u8>, b: Seq<u8>)
    ensures
        a =~= b || bytes_lt(a, b) || bytes_lt(b, a),
    decreases a.len(),
{
    if a.len() > 0 && b.len() > 0 && a[0] == b[0] {
        lemma_bytes_lt_total(a.drop_first(), b.drop_first());
        if a.drop_first() =~= b.drop_first() {
            assert(a =~= seq![a[0]] + a.drop_first());
            assert(b =~= seq![b[0]] + b.drop_first());
        }
    }
}

/// "Does not go before" is transitive.
proof fn lemma_not_before_trans(x: Arc<Node>, y: Arc<Node>, z: Arc<Node>)
    requires
        !precedes(y, x),
        !precedes(z, y),
    ensures
        !precedes(z, x),
{
    if precedes(z, x) {
        if z.size == x.size {
            assert(y.size == x.size);
            let bx = encode_utf8(x.name@);
            let by = encode_utf8(y.name@);
            let bz = encode_utf8(z.name@);
            lemma_bytes_lt_total(bx, by);
            lemma_bytes_lt_total(by, bz);
            if bx =~= by {
                assert(bytes_lt(bz, by));
            } else if bytes_lt(bx, by) {
                if by =~= bz {
                    assert(bytes_lt(bz, bx));
                    lemma_bytes_lt_trans(bx, by, bz);
                    assert(bytes_lt(bx, bz));
                    assert(bz =~= by);
                    lemma_bytes_lt_irrefl(by);
                } else {
                    lemma_bytes_lt_trans(bx, by, bz);
                    lemma_bytes_lt_trans(bz, bx, bz);
                    lemma_bytes_lt_irrefl(bz);
                }
            } else {
                lemma_bytes_lt_trans(bz, bx, by);
            }
        }
    }
}

/// Of two nodes, at least one does not go before the other.
/// Two nodes with different names are ordered one way or the other.
pub(crate) proof fn lemma_names_ordered(x: Arc<Node>, y: Arc<Node>)
    requires
        x.name@ != y.name@,
    ensures
        precedes(x, y) || precedes(y, x),
{
    let a = encode_utf8(x.name@);
    let b = encode_utf8(y.name@);
    lemma_bytes_lt_total(a, b);
    if a =~= b {
        vstd::utf8::encode_utf8_decode_utf8(x.name@);
        vstd::utf8::encode_utf8_decode_utf8(y.name@);
    }
}

proof fn lemma_before_total(x: Arc<Node>, y: Arc<Node>)
    ensures
        !precedes(x, y) || !precedes(y, x),
{
    if precedes(x, y) && precedes(y, x) {
        lemma_bytes_lt_trans(encode_utf8(x.name@), encode_utf8(y.name@), encode_utf8(x.name@));
        lemma_bytes_lt_irrefl(encode_utf8(x.name@));
    }
}

proof fn lemma_merge_none_before(x: Arc<Node>, a: Seq<Arc<Node>>, b: Seq<Arc<Node>>)
    requires
        none_before(x, a),
        none_before(x, b),
    ensures
        none_before(x, merge(a, b)),
    decreases a.len() + b.len(),
{
    lemma_merge_multiset(a, b);
    let m = merge(a, b);
    assert forall|i: int| 0 <= i < m.len() implies !precedes(#[trigger] m[i], x) by {
        broadcast use vstd::seq_lib::group_to_multiset_ensures;
        broadcast use vstd::multiset::group_multiset_axioms;

        assert(m.to_multiset().count(m[i]) > 0);
        assert(a.to_multiset().count(m[i]) > 0 || b.to_multiset().count(m[i]) > 0);
        if a.contains(m[i]) {
            let k = choose|k: int| 0 <= k < a.len() && a[k] == m[i];
            assert(!precedes(a[k], x));
        } else {
            assert(b.contains(m[i]));
            let k = choose|k: int| 0 <= k < b.len() && b[k] == m[i];
            assert(!precedes(b[k], x));
        }
    }
}

proof fn lemma_merge_sorted(a: Seq<Arc<Node>>, b: Seq<Arc<Node>>)
    requires
        in_sibling_order(a),
        in_sibling_order(b),
    ensures
        in_sibling_order(merge(a, b)),
    decreases a.len() + b.len(),
{
    if a.len() > 0 && b.len() > 0 {
        let m = merge(a, b);
        if precedes(b[0], a[0]) {
            let head = b[0];
            let tail = merge(a, b.drop_first());
            lemma_merge_sorted(a, b.drop_first());
            assert forall|i: int| 0 <= i < b.drop_first().len() implies !precedes(
                #[trigger] b.drop_first()[i],
                head,
            ) by {
                assert(b.drop_first()[i] == b[i + 1]);
            }
            assert forall|i: int| 0 <= i < a.len() implies !precedes(#[trigger] a[i], head) by {
                lemma_before_total(b[0], a[0]);
                if i > 0 {
                    lemma_not_before_trans(b[0], a[0], a[i]);
                }
            }
            lemma_merge_none_before(head, a, b.drop_first());
            assert(m =~= seq![head] + tail);
            assert forall|i: int, j: int| 0 <= i < j < m.len() implies !precedes(
                #[trigger] m[j],
                #[trigger] m[i],
            ) by {
                if i == 0 {
                    assert(m[j] == tail[j - 1]);
                } else {
                    assert(m[i] == tail[i - 1]);
                    assert(m[j] == tail[j - 1]);
                }
            }
        } else {
            let head = a[0];
            let tail = merge(a.drop_first(), b);
            lemma_merge_sorted(a.drop_first(), b);
            assert forall|i: int| 0 <= i < a.drop_first().len() implies !precedes(
                #[trigger] a.drop_first()[i],
                head,
            ) by {
                assert(a.drop_first()[i] == a[i + 1]);
            }
            assert forall|i: int| 0 <= i < b.len() implies !precedes(#[trigger] b[i], head) by {
                if i > 0 {
                    lemma_not_before_trans(a[0], b[0], b[i]);
                }
            }
            lemma_merge_none_before(head, a.drop_first(), b);
            assert(m =~= seq![head] + tail);
            assert forall|i: int, j: int| 0 <= i < j < m.len() implies !precedes(
                #[trigger] m[j],
                #[trigger] m[i],
            ) by {
                if i == 0 {
                    assert(m[j] == tail[j - 1]);
                } else {
                    assert(m[i] == tail[i - 1]);
                    assert(m[j] == tail[j - 1]);
                }
            }
        }
    }
}

/// The sorted children are in sibling order: no child is bigger than one
/// before it, and children of equal size are in name order.
pub proof fn lemma_sort_is_ordered(s: Seq<Arc<Node>>)
    ensures
        in_sibling_order(sort_children(s)),
    decreases s.len(),
{
    if s.len() > 1 {
        let m = (s.len() / 2) as int;
        lemma_sort_is_ordered(s.take(m));
        lemma_sort_is_ordered(s.skip(m));
        lemma_merge_sorted(sort_children(s.take(m)), sort_children(s.skip(m)));
    } else if s.len() == 1 {
        assert(in_sibling_order(s));
    }
}

/// Any two of the nodes are the same node or one goes before the other:
/// no two siblings tie on both size and name.
pub open spec fn no_ties(s: Seq<Arc<Node>>) -> bool {
    forall|i: int, j: int|
        0 <= i < s.len() && 0 <= j < s.len() ==> #[trigger] s[i] == #[trigger] s[j] || precedes(
            s[i],
            s[j],
        ) || precedes(s[j], s[i])
}

/// Two child lists in sibling order with the same members, no two of which
/// tie, are the same list.
proof fn lemma_sorted_unique(x: Seq<Arc<Node>>, y: Seq<Arc<Node>>)
    requires
        in_sibling_order(x),
        in_sibling_order(y),
        x.to_multiset() =~= y.to_multiset(),
        no_ties(x),
    ensures
        x =~= y,
    decreases x.len(),
{
    broadcast use vstd::seq_lib::group_to_multiset_ensures;

    assert(x.to_multiset().len() == x.len());
    assert(y.to_multiset().len() == y.len());
    if x.len() > 0 {
        assert(y.len() == x.len());
        let x0 = x[0];
        let y0 = y[0];
        assert(y.contains(y0));
        assert(x.to_multiset().count(y0) > 0);
        assert(x.contains(y0));
        let k = choose|k: int| 0 <= k < x.len() && x[k] == y0;
        assert(x.contains(x0));
        assert(y.to_multiset().count(x0) > 0);
        assert(y.contains(x0));
        let m = choose|m: int| 0 <= m < y.len() && y[m] == x0;
        assert(x[0] == x[k] || precedes(x[0], x[k]) || precedes(x[k], x[0]));
        if k > 0 {
            assert(!precedes(x[k], x[0]));
        }
        if m > 0 {
            assert(!precedes(y[m], y[0]));
        }
        assert(x0 == y0);
        let xs = x.drop_first();
        let ys = y.drop_first();
        assert(x.remove(0) =~= xs);
        assert(y.remove(0) =~= ys);
        assert(xs.to_multiset() =~= x.to_multiset().remove(x0));
        assert(ys.to_multiset() =~= y.to_multiset().remove(y0));
        assert forall|i: int, j: int| 0 <= i < j < xs.len() implies !precedes(
            #[trigger] xs[j],
            #[trigger] xs[i],
        ) by {
            assert(xs[i] == x[i + 1] && xs[j] == x[j + 1]);
        }
        assert forall|i: int, j: int| 0 <= i < j < ys.len() implies !precedes(
            #[trigger] ys[j],
            #[trigger] ys[i],
        ) by {
            assert(ys[i] == y[i + 1] && ys[j] == y[j + 1]);
        }
        assert forall|i: int, j: int| 0 <= i < xs.len() && 0 <= j < xs.len() implies #[trigger] xs[i]
            == #[trigger] xs[j] || precedes(xs[i], xs[j]) || precedes(xs[j], xs[i]) by {
            assert(xs[i] == x[i + 1] && xs[j] == x[j + 1]);
        }
        lemma_sorted_unique(xs, ys);
        assert(x =~= seq![x0] + xs);
        assert(y =~= seq![y0] + ys);
    } else {
        assert(y.len() == 0);
    }
}

/// A directory's children come out in the same order whatever order they
/// were handed over in, as long as no two of them tie on both size and
/// name.
pub proof fn lemma_sort_ignores_arrival_order(a: Seq<Arc<Node>>, b: Seq<Arc<Node>>)
    requires
        a.to_multiset() =~= b.to_multiset(),
        no_ties(a),
    ensures
        sort_children(a) == sort_children(b),
{
    broadcast use vstd::seq_lib::group_to_multiset_ensures;

    lemma_sort_is_permutation(a);
    lemma_sort_is_permutation(b);
    lemma_sort_is_ordered(a);
    lemma_sort_is_ordered(b);
    let sa = sort_children(a);
    assert forall|i: int, j: int| 0 <= i < sa.len() && 0 <= j < sa.len() implies #[trigger] sa[i]
        == #[trigger] sa[j] || precedes(sa[i], sa[j]) || precedes(sa[j], sa[i]) by {
        assert(sa.contains(sa[i]));
        assert(sa.contains(sa[j]));
        assert(sa.to_multiset().count(sa[i]) > 0);
        assert(sa.to_multiset().count(sa[j]) > 0);
        assert(a.contains(sa[i]));
        assert(a.contains(sa[j]));
        let i2 = choose|i2: int| 0 <= i2 < a.len() && a[i2] == sa[i];
        let j2 = choose|j2: int| 0 <= j2 < a.len() && a[j2] == sa[j];
        assert(a[i2] == a[j2] || precedes(a[i2], a[j2]) || precedes(a[j2], a[i2]));
    }
    lemma_sorted_unique(sa, sort_children(b));
}

/// Two nodes show the same: the same name, path, size and kind, and
/// children that show the same, in the same order.
pub open spec fn same_shape(a: Node, b: Node) -> bool
    decreases a, a.children@.len() + 1,
{
    &&& a.name@ == b.name@
    &&& a.path@ == b.path@
    &&& a.size == b.size
    &&& a.is_dir == b.is_dir
    &&& a.is_link == b.is_link
    &&& a.children@.len() == b.children@.len()
    &&& same_kids(a, b, a.children@.len() as int)
}

/// The first `k` children of `a` and of `b` show the same, pairwise.
pub open spec fn same_kids(a: Node, b: Node, k: int) -> bool
    decreases a, k,
{
    if k <= 0 || k > a.children@.len() || k > b.children@.len() {
        k <= 0
    } else {
        same_kids(a, b, k - 1) && same_shape(*a.children@[k - 1], *b.children@[k - 1])
    }
}

/// The two lists show the same nodes, position by position.
pub open spec fn pointwise_same(x: Seq<Arc<Node>>, y: Seq<Arc<Node>>) -> bool {
    &&& x.len() == y.len()
    &&& forall|i: int| 0 <= i < x.len() ==> #[trigger] same_shape(*x[i], *y[i])
}

/// Any two positions hold nodes one of which goes before the other.
pub open spec fn all_apart(s: Seq<Arc<Node>>) -> bool {
    forall|i: int, j: int|
        0 <= i < s.len() && 0 <= j < s.len() && i != j ==> precedes(#[trigger] s[i], #[trigger] s[j])
            || precedes(s[j], s[i])
}

proof fn lemma_same_kids_all(a: Arc<Node>, b: Arc<Node>, k: int)
    requires
        0 <= k <= a.children@.len(),
        k <= b.children@.len(),
    ensures
        same_kids(*a, *b, k) == (forall|i: int|
            0 <= i < k ==> #[trigger] same_shape(*a.children@[i], *b.children@[i])),
    decreases k,
{
    if k > 0 {
        lemma_same_kids_all(a, b, k - 1);
        assert(same_kids(*a, *b, k) == (same_kids(*a, *b, k - 1) && same_shape(
            *a.children@[k - 1],
            *b.children@[k - 1],
        )));
        assert((forall|i: int| 0 <= i < k ==> #[trigger] same_shape(*a.children@[i], *b.children@[i]))
            ==> same_shape(*a.children@[k - 1], *b.children@[k - 1]));
        assert((forall|i: int| 0 <= i < k ==> #[trigger] same_shape(*a.children@[i], *b.children@[i]))
            ==> (forall|i: int| 0 <= i < k - 1 ==> #[trigger] same_shape(*a.children@[i], *b.children@[i])));
        assert(((forall|i: int| 0 <= i < k - 1 ==> #[trigger] same_shape(*a.children@[i], *b.children@[i]))
            && same_shape(*a.children@[k - 1], *b.children@[k - 1])) ==> (forall|i: int|
            0 <= i < k ==> #[trigger] same_shape(*a.children@[i], *b.children@[i])));
    }
}

/// Two nodes with the same fields whose children show the same show the
/// same.
pub proof fn lemma_same_shape_intro(a: Arc<Node>, b: Arc<Node>)
    requires
        a.name@ == b.name@,
        a.path@ == b.path@,
        a.size == b.size,
        a.is_dir == b.is_dir,
        a.is_link == b.is_link,
        pointwise_same(a.children@, b.children@),
    ensures
        same_shape(*a, *b),
{
    lemma_same_kids_all(a, b, a.children@.len() as int);
}

/// Nodes that show the same are ordered alike among siblings.
proof fn lemma_same_precedes(a: Arc<Node>, a2: Arc<Node>, b: Arc<Node>, b2: Arc<Node>)
    requires
        same_shape(*a, *a2),
        same_shape(*b, *b2),
    ensures
        precedes(a, b) == precedes(a2, b2),
{
}

proof fn lemma_merge_same(a: Seq<Arc<Node>>, a2: Seq<Arc<Node>>, b: Seq<Arc<Node>>, b2: Seq<Arc<Node>>)
    requires
        pointwise_same(a, a2),
        pointwise_same(b, b2),
    ensures
        pointwise_same(merge(a, b), merge(a2, b2)),
    decreases a.len() + b.len(),
{
    if a.len() > 0 && b.len() > 0 {
        assert(same_shape(*a[0], *a2[0]));
        assert(same_shape(*b[0], *b2[0]));
        lemma_same_precedes(b[0], b2[0], a[0], a2[0]);
        if precedes(b[0], a[0]) {
            assert(pointwise_same(b.drop_first(), b2.drop_first())) by {
                assert forall|i: int| 0 <= i < b.drop_first().len() implies #[trigger] same_shape(
                    *b.drop_first()[i],
                    *b2.drop_first()[i],
                ) by {
                    assert(same_shape(*b[i + 1], *b2[i + 1]));
                }
            }
            lemma_merge_same(a, a2, b.drop_first(), b2.drop_first());
            let m = merge(a, b.drop_first());
            let m2 = merge(a2, b2.drop_first());
            assert forall|i: int| 0 <= i < (seq![b[0]] + m).len() implies #[trigger] same_shape(
                *(seq![b[0]] + m)[i],
                *(seq![b2[0]] + m2)[i],
            ) by {
                if i > 0 {
                    assert(same_shape(*m[i - 1], *m2[i - 1]));
                }
            }
        } else {
            assert(pointwise_same(a.drop_first(), a2.drop_first())) by {
                assert forall|i: int| 0 <= i < a.drop_first().len() implies #[trigger] same_shape(
                    *a.drop_first()[i],
                    *a2.drop_first()[i],
                ) by {
                    assert(same_shape(*a[i + 1], *a2[i + 1]));
                }
            }
            lemma_merge_same(a.drop_first(), a2.drop_first(), b, b2);
            let m = merge(a.drop_first(), b);
            let m2 = merge(a2.drop_first(), b2);
            assert forall|i: int| 0 <= i < (seq![a[0]] + m).len() implies #[trigger] same_shape(
                *(seq![a[0]] + m)[i],
                *(seq![a2[0]] + m2)[i],
            ) by {
                if i > 0 {
                    assert(same_shape(*m[i - 1], *m2[i - 1]));
                }
            }
        }
    }
}

/// Sorting lists that show the same nodes gives lists that show the same.
pub proof fn lemma_sort_same(x: Seq<Arc<Node>>, x2: Seq<Arc<Node>>)
    requires
        pointwise_same(x, x2),
    ensures
        pointwise_same(sort_children(x), sort_children(x2)),
    decreases x.len(),
{
    if x.len() > 1 {
        let m = (x.len() / 2) as int;
        assert(pointwise_same(x.take(m), x2.take(m))) by {
            assert forall|i: int| 0 <= i < x.take(m).len() implies #[trigger] same_shape(
                *x.take(m)[i],
                *x2.take(m)[i],
            ) by {
                assert(same_shape(*x[i], *x2[i]));
            }
        }
        assert(pointwise_same(x.skip(m), x2.skip(m))) by {
            assert forall|i: int| 0 <= i < x.skip(m).len() implies #[trigger] same_shape(
                *x.skip(m)[i],
                *x2.skip(m)[i],
            ) by {
                assert(same_shape(*x[i + m], *x2[i + m]));
            }
        }
        lemma_sort_same(x.take(m), x2.take(m));
        lemma_sort_same(x.skip(m), x2.skip(m));
        lemma_merge_same(
            sort_children(x.take(m)),
            sort_children(x2.take(m)),
            sort_children(x.skip(m)),
            sort_children(x2.skip(m)),
        );
    }
}

/// Lists that show the same nodes have the same total size.
pub proof fn lemma_same_sizes_sum(x: Seq<Arc<Node>>, x2: Seq<Arc<Node>>)
    requires
        pointwise_same(x, x2),
    ensures
        sizes_sum(x) == sizes_sum(x2),
    decreases x.len(),
{
    if x.len() > 0 {
        assert(same_shape(*x[0], *x2[0]));
        assert(pointwise_same(x.drop_first(), x2.drop_first())) by {
            assert forall|i: int| 0 <= i < x.drop_first().len() implies #[trigger] same_shape(
                *x.drop_first()[i],
                *x2.drop_first()[i],
            ) by {
                assert(same_shape(*x[i + 1], *x2[i + 1]));
            }
        }
        lemma_same_sizes_sum(x.drop_first(), x2.drop_first());
    }
}

/// Showing the same keeps nodes apart.
pub proof fn lemma_apart_same(x: Seq<Arc<Node>>, x2: Seq<Arc<Node>>)
    requires
        pointwise_same(x, x2),
        all_apart(x),
    ensures
        all_apart(x2),
        no_ties(x2),
{
    assert forall|i: int, j: int|
        0 <= i < x2.len() && 0 <= j < x2.len() && i != j implies precedes(
        #[trigger] x2[i],
        #[trigger] x2[j],
    ) || precedes(x2[j], x2[i]) by {
        assert(same_shape(*x[i], *x2[i]));
        assert(same_shape(*x[j], *x2[j]));
        lemma_same_precedes(x[i], x2[i], x[j], x2[j]);
        lemma_same_precedes(x[j], x2[j], x[i], x2[i]);
    }
}

/// Whether `a` goes before `b` among siblings.
fn goes_before_exec(a: &Node, b: &Node) -> (r: bool)
    ensures
        r == goes_before(*a, *b),
{
    if a.size != b.size {
        return a.size > b.size;
    }
    let x = a.name.as_str().as_bytes();
    let y = b.name.as_str().as_bytes();
    let n = x.len();
    let m = y.len();
    let mut i: usize = 0;
    proof {
        assert(x@.skip(0) =~= x@);
        assert(y@.skip(0) =~= y@);
    }
    while i < n && i < m
        invariant
            n == x@.len(),
            m == y@.len(),
            x@ == name_bytes(*a),
            y@ == name_bytes(*b),
            a.size == b.size,
            i <= n,
            i <= m,
            bytes_lt(x@, y@) == bytes_lt(x@.skip(i as int), y@.skip(i as int)),
        decreases n - i,
    {
        if x[i] != y[i] {
            proof {
                let xs = x@.skip(i as int);
                let ys = y@.skip(i as int);
                assert(xs.len() > 0 && ys.len() > 0);
                assert(xs[0] == x@[i as int]);
                assert(ys[0] == y@[i as int]);
                assert(bytes_lt(xs, ys) == (xs[0] < ys[0]));
            }
            return x[i] < y[i];
        }
        proof {
            assert(x@.skip(i as int).drop_first() =~= x@.skip(i + 1));
            assert(y@.skip(i as int).drop_first() =~= y@.skip(i + 1));
        }
        i = i + 1;
    }
    m > i
}

fn merge_exec(a: &Vec<Arc<Node>>, b: &Vec<Arc<Node>>) -> (r: Vec<Arc<Node>>)
    ensures
        r@ == merge(a@, b@),
{
    let n = a.len();
    let m = b.len();
    let mut out: Vec<Arc<Node>> = Vec::new();
    let mut i: usize = 0;
    let mut j: usize = 0;
    proof {
        assert(a@.skip(0) =~= a@);
        assert(b@.skip(0) =~= b@);
    }
    while i < n || j < m
        invariant
            n == a@.len(),
            m == b@.len(),
            i <= n,
            j <= m,
            out@ + merge(a@.skip(i as int), b@.skip(j as int)) == merge(a@, b@),
        decreases n + m - i - j,
    {
        let ghost sa = a@.skip(i as int);
        let ghost sb = b@.skip(j as int);
        if i == n {
            out.push(share(&b[j]));
            proof {
                assert(sa.len() == 0);
                assert(sb =~= seq![b@[j as int]] + b@.skip(j + 1));
                assert(merge(sa, sb) == sb);
                assert(merge(a@.skip(i as int), b@.skip(j + 1)) == b@.skip(j + 1));
                assert(out@ + merge(a@.skip(i as int), b@.skip(j + 1)) =~= merge(a@, b@));
            }
            j = j + 1;
        } else if j == m || !goes_before_exec(&b[j], &a[i]) {
            out.push(share(&a[i]));
            proof {
                assert(sa[0] == a@[i as int]);
                assert(sa.drop_first() =~= a@.skip(i + 1));
                if j == m {
                    assert(sb.len() == 0);
                    assert(merge(sa, sb) == sa);
                    assert(merge(a@.skip(i + 1), sb) == a@.skip(i + 1));
                    assert(sa =~= seq![a@[i as int]] + a@.skip(i + 1));
                } else {
                    assert(sb[0] == b@[j as int]);
                    assert(merge(sa, sb) == seq![sa[0]] + merge(sa.drop_first(), sb));
                }
                assert(out@ + merge(a@.skip(i + 1), b@.skip(j as int)) =~= merge(a@, b@));
            }
            i = i + 1;
        } else {
            out.push(share(&b[j]));
            proof {
                assert(sa[0] == a@[i as int]);
                assert(sb[0] == b@[j as int]);
                assert(sb.drop_first() =~= b@.skip(j + 1));
                assert(merge(sa, sb) == seq![sb[0]] + merge(sa, sb.drop_first()));
                assert(out@ + merge(a@.skip(i as int), b@.skip(j + 1)) =~= merge(a@, b@));
            }
            j = j + 1;
        }
    }
    proof {
        assert(a@.skip(i as int).len() == 0);
        assert(b@.skip(j as int).len() == 0);
        assert(out@ =~= merge(a@, b@));
    }
    out
}

/// Sorts `v[lo..hi]` into sibling order.
fn sort_range(v: &Vec<Arc<Node>>, lo: usize, hi: usize) -> (r: Vec<Arc<Node>>)
    requires
        lo <= hi <= v@.len(),
    ensures
        r@ == sort_children(v@.subrange(lo as int, hi as int)),
    decreases hi - lo,
{
    if hi - lo <= 1 {
        let mut out: Vec<Arc<Node>> = Vec::new();
        if hi > lo {
            out.push(share(&v[lo]));
        }
        proof {
            assert(out@ =~= v@.subrange(lo as int, hi as int));
        }
        out
    } else {
        let mid = lo + (hi - lo) / 2;
        let left = sort_range(v, lo, mid);
        let right = sort_range(v, mid, hi);
        proof {
            let s = v@.subrange(lo as int, hi as int);
            assert(s.take((s.len() / 2) as int) =~= v@.subrange(lo as int, mid as int));
            assert(s.skip((s.len() / 2) as int) =~= v@.subrange(mid as int, hi as int));
        }
        merge_exec(&left, &right)
    }
}

impl Node {
    pub fn new_file(path: String, size: u64) -> (r: Self)
        ensures
            r.name@ == spec_leaf_name(path@),
            r.path == path,
            r.size == size,
            !r.is_dir,
            !r.is_link,
            r.children@.len() == 0,
    {
        let name = leaf_name(path.as_str());
        Node { name, path, size, is_dir: false, is_link: false, children: Vec::new() }
    }

    /// Symlink that was *not* descended into. Reported size is the symlink
    /// inode's own footprint (usually under 100 bytes).
    pub fn new_link(path: String, size: u64) -> (r: Self)
        ensures
            r.name@ == spec_leaf_name(path@),
            r.path == path,
            r.size == size,
            !r.is_dir,
            r.is_link,
            r.children@.len() == 0,
    {
        let name = leaf_name(path.as_str());
        Node { name, path, size, is_dir: false, is_link: true, children: Vec::new() }
    }

    /// A directory holding `children`: its size is theirs summed (held at
    /// `u64::MAX` should the total not fit), and they are kept in sibling
    /// order (largest first, ties by name).
    pub fn new_dir(path: String, children: Vec<Arc<Node>>) -> (r: Self)
        ensures
            r.name@ == spec_leaf_name(path@),
            r.path == path,
            r.size == capped_size(sizes_sum(children@)),
            r.is_dir,
            !r.is_link,
            r.children@ == sort_children(children@),
    {
        let name = leaf_name(path.as_str());
        let n = children.len();
        let mut total: u64 = 0;
        let mut i: usize = 0;
        proof {
            assert(children@.take(0) =~= Seq::<Arc<Node>>::empty());
        }
        while i < n
            invariant
                n == children@.len(),
                i <= n,
                total == capped_size(sizes_sum(children@.take(i as int))),
            decreases n - i,
        {
            proof {
                assert(children@.take(i + 1) =~= children@.take(i as int) + seq![children@[i as int]]);
                lemma_sizes_sum_concat(children@.take(i as int), seq![children@[i as int]]);
                assert(seq![children@[i as int]].drop_first() =~= Seq::<Arc<Node>>::empty());
                assert(sizes_sum(Seq::<Arc<Node>>::empty()) == 0);
                assert(sizes_sum(seq![children@[i as int]]) == children@[i as int].size);
                lemma_sizes_sum_nonneg(children@.take(i as int));
            }
            let sz = children[i].size;
            if total > u64::MAX - sz {
                total = u64::MAX;
            } else {
                total = total + sz;
            }
            i = i + 1;
        }
        proof {
            assert(children@.take(n as int) =~= children@);
            assert(children@.subrange(0, n as int) =~= children@);
        }
        let sorted = sort_range(&children, 0, n);
        Node { name, path, size: total, is_dir: true, is_link: false, children: sorted }
    }

    /// Number of nodes in this subtree, this one included. Walks the tree
    /// with an explicit stack, so deep trees need no deep recursion.
    pub fn total_count(&self) -> (r: usize)
        requires
            tree_count(*self) <= usize::MAX,
        ensures
            r == tree_count(*self),
    {
        let mut stack: Vec<&Node> = Vec::new();
        stack.push(self);
        let mut n: usize = 0;
        proof {
            assert(stack@.drop_last() =~= Seq::<&Node>::empty());
            assert(stack@.last() == self);
            assert(stack_count(stack@) == stack_count(Seq::<&Node>::empty()) + tree_count(*self));
        }
        while stack.len() > 0
            invariant
                tree_count(*self) <= usize::MAX,
                n + stack_count(stack@) == tree_count(*self),
            decreases stack_count(stack@),
        {
            let ghost before = stack@;
            let node = stack.pop().unwrap();
            proof {
                lemma_stack_count_pos(*node);
                assert(before.drop_last() =~= stack@);
            }
            n = n + 1;
            let k = node.children.len();
            let mut j: usize = 0;
            let ghost base = stack@;
            while j < k
                invariant
                    k == node.children@.len(),
                    j <= k,
                    stack_count(stack@) == stack_count(base) + children_count(*node, j as int),
                decreases k - j,
            {
                let c: &Node = &node.children[j];
                let ghost prev = stack@;
                stack.push(c);
                proof {
                    assert(stack@.drop_last() =~= prev);
                }
                j = j + 1;
            }
        }
        n
    }
}

/// Number of nodes under the nodes on a stack.
pub open spec fn stack_count(s: Seq<&Node>) -> nat
    decreases s.len(),
{
    if s.len() == 0 {
        0
    } else {
        stack_count(s.drop_last()) + tree_count(*s.last())
    }
}

proof fn lemma_stack_count_pos(n: Node)
    ensures
        tree_count(n) == 1 + children_count(n, n.children@.len() as int),
{
}

proof fn lemma_sizes_sum_nonneg(s: Seq<Arc<Node>>)
    ensures
        sizes_sum(s) >= 0,
    decreases s.len(),
{
    if s.len() > 0 {
        lemma_sizes_sum_nonneg(s.drop_first());
    }
}

/// A directory's size is the total of its children's sizes, whatever
/// their order.
pub proof fn lemma_dir_size_is_children_total(children: Seq<Arc<Node>>)
    ensures
        sizes_sum(sort_children(children)) == sizes_sum(children),
{
    lemma_sort_keeps_size(children);
}

} // verus!
