//! Building the tree while a scan runs.
//!
//! A walker reports filesystem entries one at a time; the incremental tree
//! takes them in any order, remembers which directories they touched, and
//! on each publish rebuilds only those, deepest first, sharing every other
//! subtree with the previous snapshot.
use crate::text::views;
use crate::path::{depth, lemma_parent, parent, spec_depth, spec_leaf_name, spec_parent};
use crate::tree::{capped_size, share, sizes_sum, sort_children, Node};
use std::sync::atomic::AtomicU64;
use std::sync::atomic::Ordering;
use std::sync::Arc;
use std::time::Instant;
use vstd::hash_map::StringHashMap;
use vstd::prelude::*;

pub mod arrival;
pub mod rounds;

verus! {

/// A point in time (`std::time::Instant`), carried through unopened.
#[verifier::external_type_specification]
#[verifier::external_body]
pub struct ScanInstant(std::time::Instant);

/// The current time (`Instant::now`). Nothing is promised of the value.
#[verifier::external_body]
fn now() -> Instant {
    Instant::now()
}

/// Counters updated by the walker thread in real time. Lock-free reads from
/// the UI so the file/byte tally ticks up smoothly between tree publishes.
#[derive(Default)]
pub struct ScanCounters {
    pub files: AtomicU64,
    pub bytes: AtomicU64,
    /// Filesystem entries we couldn't read (walk error or metadata failure).
    /// Surfaced in the footer so users know the sizes are undercounting.
    pub unreadable: AtomicU64,
}

/// What one walked entry adds to the (files, bytes, unreadable) counters:
/// a file or symlink is one scanned file of its size, a directory adds
/// nothing to either, and an entry whose metadata could not be read is one
/// unreadable entry.
pub open spec fn tallied(kind: EntryKind, size: u64, had_meta_err: bool) -> (u64, u64, u64) {
    (
        if kind == EntryKind::Dir {
            0
        } else {
            1
        },
        if kind == EntryKind::Dir {
            0
        } else {
            size
        },
        if had_meta_err {
            1
        } else {
            0
        },
    )
}

/// The amounts one walked entry adds to the (files, bytes, unreadable)
/// counters.
pub fn tally(kind: EntryKind, size: u64, had_meta_err: bool) -> (r: (u64, u64, u64))
    ensures
        r == tallied(kind, size, had_meta_err),
{
    let (files, bytes) = match kind {
        EntryKind::Dir => (0, 0),
        EntryKind::File | EntryKind::Link => (1, size),
    };
    let unreadable = if had_meta_err {
        1
    } else {
        0
    };
    (files, bytes, unreadable)
}

impl ScanCounters {
    /// Tallies one walked entry: adds the three amounts of `tally` to the
    /// files, bytes and unreadable counters, and returns them. The counters
    /// are shared with other threads (and wrap on overflow), so nothing is
    /// promised of the values they hold afterwards.
    pub fn record(&self, kind: EntryKind, size: u64, had_meta_err: bool) -> (added: (u64, u64, u64))
        ensures
            added == tallied(kind, size, had_meta_err),
    {
        let added = tally(kind, size, had_meta_err);
        self.files.fetch_add(added.0, Ordering::Relaxed);
        self.bytes.fetch_add(added.1, Ordering::Relaxed);
        self.unreadable.fetch_add(added.2, Ordering::Relaxed);
        added
    }

    /// Tallies an entry the walker could not read at all: adds one to the
    /// unreadable counter and nothing to the others.
    pub fn record_unreadable(&self) {
        self.unreadable.fetch_add(1, Ordering::Relaxed);
    }
}

/// The shared state `after` is `before` with a freshly published `tree`:
/// while the walker runs, the path it reported last is the current one;
/// once it has finished, the scan is done and its end time taken.
pub open spec fn recorded(
    before: ScanShared,
    after: ScanShared,
    tree: Arc<Node>,
    last_seen: Option<String>,
    walker_finished: bool,
) -> bool {
    &&& after.tree == tree
    &&& after.counters == before.counters
    &&& after.started_at == before.started_at
    &&& after.current_path == (if walker_finished {
        None
    } else {
        last_seen
    })
    &&& after.done == (walker_finished || before.done)
    &&& walker_finished ==> after.finished_at is Some
    &&& !walker_finished ==> after.finished_at == before.finished_at
}

/// What the walker and builder share with the interface.
pub struct ScanShared {
    pub tree: Arc<Node>,
    pub counters: Arc<ScanCounters>,
    pub current_path: Option<String>,
    pub done: bool,
    pub started_at: Instant,
    pub finished_at: Option<Instant>,
}

impl ScanShared {
    /// The state before anything was scanned: an empty root directory.
    pub fn empty(root_path: String, counters: Arc<ScanCounters>) -> (s: Self)
        ensures
            is_dir_node(*s.tree, root_path@, Seq::empty()),
            s.counters == counters,
            s.current_path is None,
            !s.done,
            s.finished_at is None,
    {
        let kids: Vec<Arc<Node>> = Vec::new();
        proof {
            assert(sizes_sum(kids@) == 0);
            assert(sort_children(kids@) == kids@);
        }
        let tree = Node::new_dir(root_path, kids);
        ScanShared {
            tree: Arc::new(tree),
            counters,
            current_path: None,
            done: false,
            started_at: now(),
            finished_at: None,
        }
    }

    /// Files (and symlinks) counted so far. Read while the walker runs.
    pub fn files_scanned(&self) -> u64 {
        self.counters.files.load(Ordering::Relaxed)
    }

    /// Bytes counted so far. Read while the walker runs.
    pub fn bytes_scanned(&self) -> u64 {
        self.counters.bytes.load(Ordering::Relaxed)
    }

    /// Entries that could not be read so far. Read while the walker runs.
    pub fn unreadable(&self) -> u64 {
        self.counters.unreadable.load(Ordering::Relaxed)
    }

    /// Takes a freshly published tree. While the walker runs, the path it
    /// reported last is shown as the current one; once it has finished,
    /// the scan is marked done and its end time taken.
    pub fn record_publish(&mut self, tree: Arc<Node>, last_seen: Option<String>, walker_finished: bool)
        ensures
            recorded(*old(self), *final(self), tree, last_seen, walker_finished),
    {
        self.tree = tree;
        self.current_path = if walker_finished {
            None
        } else {
            last_seen
        };
        if walker_finished {
            self.done = true;
            self.finished_at = Some(now());
        }
    }
}

/// What the walker saw an entry to be.
#[derive(Clone, Copy, Debug, PartialEq, Eq, Structural)]
pub enum FileType {
    Dir,
    File,
    Symlink,
    Other,
}

/// What the walker records of an entry it saw as `ft`, given the length
/// read from a file's metadata (`None` when that read failed) and a
/// symlink's own length (`None` when that read failed): its size, its
/// kind, and whether its metadata could not be read. Symlinks are never
/// followed: a link is a small leaf of its own. Entries that are neither
/// directories, files nor symlinks are skipped.
pub fn describe_entry(ft: FileType, file_len: Option<u64>, link_len: Option<u64>) -> (r: Option<
    (u64, EntryKind, bool),
>)
    ensures
        r == match ft {
            FileType::Dir => Some((0u64, EntryKind::Dir, false)),
            FileType::File => match file_len {
                Some(n) => Some((n, EntryKind::File, false)),
                None => Some((0u64, EntryKind::File, true)),
            },
            FileType::Symlink => Some(
                (
                    match link_len {
                        Some(n) => n,
                        None => 0u64,
                    },
                    EntryKind::Link,
                    false,
                ),
            ),
            FileType::Other => None,
        },
{
    match ft {
        FileType::Dir => Some((0, EntryKind::Dir, false)),
        FileType::File => match file_len {
            Some(n) => Some((n, EntryKind::File, false)),
            None => Some((0, EntryKind::File, true)),
        },
        FileType::Symlink => {
            let size = match link_len {
                Some(n) => n,
                None => 0,
            };
            Some((size, EntryKind::Link, false))
        },
        FileType::Other => None,
    }
}

/// The paths whose node is a directory node.
pub open spec fn dir_node_paths(m: Map<Seq<char>, Arc<Node>>) -> Set<Seq<char>> {
    Set::new(|k: Seq<char>| m.contains_key(k) && m[k].is_dir)
}

/// The paths holding a node, those holding a directory node, and those
/// with a child list, after an entry is taken (see `applied`).
pub open spec fn keys_after(
    nodes: Set<Seq<char>>,
    dirs: Set<Seq<char>>,
    lists: Set<Seq<char>>,
    root: Seq<char>,
    d: EntryDelta,
) -> (Set<Seq<char>>, Set<Seq<char>>, Set<Seq<char>>) {
    let p = d.path@;
    let nodes2 = if d.kind == EntryKind::Dir {
        nodes
    } else {
        nodes.insert(p)
    };
    let dirs2 = if d.kind == EntryKind::Dir {
        dirs
    } else {
        dirs.remove(p)
    };
    let lists1 = if d.kind == EntryKind::Dir {
        lists.insert(p)
    } else {
        lists
    };
    let lists2 = if p != root && spec_parent(p) is Some {
        lists1.insert(spec_parent(p)->0)
    } else {
        lists1
    };
    (nodes2, dirs2, lists2)
}

/// Whether an entry fits a tree with nodes, directory nodes and child
/// lists at these paths (see `IncrementalTree::fits`).
pub open spec fn fits_keys(
    nodes: Set<Seq<char>>,
    dirs: Set<Seq<char>>,
    lists: Set<Seq<char>>,
    d: EntryDelta,
) -> bool {
    match d.kind {
        EntryKind::Dir => nodes.contains(d.path@) && !lists.contains(d.path@) ==> dirs.contains(
            d.path@,
        ),
        _ => !lists.contains(d.path@),
    }
}

/// Every entry of `ds` fits the tree as it stands when that entry is taken.
pub open spec fn all_fit(
    nodes: Set<Seq<char>>,
    dirs: Set<Seq<char>>,
    lists: Set<Seq<char>>,
    root: Seq<char>,
    ds: Seq<EntryDelta>,
) -> bool
    decreases ds.len(),
{
    if ds.len() == 0 {
        true
    } else {
        let (nodes2, dirs2, lists2) = keys_after(nodes, dirs, lists, root, ds[0]);
        fits_keys(nodes, dirs, lists, ds[0]) && all_fit(
            nodes2,
            dirs2,
            lists2,
            root,
            ds.drop_first(),
        )
    }
}

/// `run` holds a tree and the trees after taking each entry of `ds` in
/// turn.
pub open spec fn took(run: Seq<IncrementalTree>, ds: Seq<EntryDelta>) -> bool {
    &&& run.len() == ds.len() + 1
    &&& forall|i: int| 0 <= i <= ds.len() ==> (#[trigger] run[i]).wf()
    &&& forall|i: int|
        #![trigger run[i], ds[i]]
        0 <= i < ds.len() ==> applied(run[i], run[i + 1], ds[i])
}

/// A round of the builder: from `s`, the entries `ds` are taken in order,
/// then the tree is published, leaving `t` and the root's node `tree`.
pub open spec fn ticked(s: IncrementalTree, ds: Seq<EntryDelta>, t: IncrementalTree, tree: Arc<Node>) -> bool {
    &&& t.wf()
    &&& exists|run: Seq<IncrementalTree>|
        #[trigger] took(run, ds) && run[0] == s && published(run.last(), t, tree)
}

/// One round of the builder: takes every entry the walker handed over
/// since the last round, in order, and publishes. Returns the root's node;
/// nothing is out of date afterwards. When the tree was consistent and
/// each entry fits it at its turn, every directory node held is what its
/// recorded children make of it.
pub fn builder_tick(builder: &mut IncrementalTree, deltas: Vec<EntryDelta>) -> (tree: Arc<Node>)
    requires
        old(builder).wf(),
    ensures
        final(builder).wf(),
        final(builder).root_path() == old(builder).root_path(),
        final(builder).dirty_paths() == Set::<Seq<char>>::empty(),
        final(builder).node_map().contains_key(final(builder).root_path()) ==> (tree
            == final(builder).node_map()[final(builder).root_path()]),
        !final(builder).node_map().contains_key(final(builder).root_path()) ==> is_dir_node(
            *tree,
            final(builder).root_path(),
            Seq::empty(),
        ),
        ticked(*old(builder), deltas@, *final(builder), tree),
        old(builder).consistent() && all_fit(
            old(builder).node_map().dom(),
            dir_node_paths(old(builder).node_map()),
            old(builder).child_lists().dom(),
            old(builder).root_path(),
            deltas@,
        ) ==> final(builder).consistent(),
{
    broadcast use vstd::std_specs::vec::axiom_spec_into_iter;

    let ghost r = builder.root_path();
    let ghost ds = deltas@;
    let ghost good = builder.consistent() && all_fit(
        builder.node_map().dom(),
        dir_node_paths(builder.node_map()),
        builder.child_lists().dom(),
        r,
        ds,
    );
    let ghost start = *builder;
    let ghost mut run: Seq<IncrementalTree> = seq![*builder];
    proof {
        assert(ds.skip(0) =~= ds);
    }
    for d in it: deltas.into_iter()
        invariant
            builder.wf(),
            builder.root_path() == r,
            it.seq() == ds,
            run.len() == it.index() + 1,
            run[0] == start,
            run.last() == *builder,
            forall|i: int| 0 <= i <= it.index() ==> (#[trigger] run[i]).wf(),
            forall|i: int|
                #![trigger run[i], ds[i]]
                0 <= i < it.index() ==> applied(run[i], run[i + 1], ds[i]),
            good ==> builder.consistent() && all_fit(
                builder.node_map().dom(),
                dir_node_paths(builder.node_map()),
                builder.child_lists().dom(),
                r,
                ds.skip(it.index() as int),
            ),
    {
        let ghost before = *builder;
        let ghost i = it.index() as int;
        proof {
            assert(ds.skip(i)[0] == d);
            assert(ds.skip(i).drop_first() =~= ds.skip(i + 1));
        }
        builder.apply(d);
        proof {
            lemma_keys_after(before, *builder, d);
            let prev = run;
            run = run.push(*builder);
            assert forall|k: int| 0 <= k <= i + 1 implies (#[trigger] run[k]).wf() by {
                if k <= i {
                    assert(run[k] == prev[k]);
                }
            }
            assert forall|k: int| #![trigger run[k], ds[k]] 0 <= k < i + 1 implies applied(
                run[k],
                run[k + 1],
                ds[k],
            ) by {
                if k < i {
                    assert(run[k] == prev[k] && run[k + 1] == prev[k + 1]);
                    assert(applied(prev[k], prev[k + 1], ds[k]));
                } else {
                    assert(run[k] == before);
                }
            }
        }
    }
    let tree = builder.publish();
    proof {
        assert(took(run, ds));
        assert(published(run.last(), *builder, tree));
    }
    tree
}

/// The paths holding a node, a directory node or a child list move as
/// `keys_after` says.
proof fn lemma_keys_after(s: IncrementalTree, t: IncrementalTree, d: EntryDelta)
    requires
        s.wf(),
        applied(s, t, d),
    ensures
        (t.node_map().dom(), dir_node_paths(t.node_map()), t.child_lists().dom()) == keys_after(
            s.node_map().dom(),
            dir_node_paths(s.node_map()),
            s.child_lists().dom(),
            s.root_path(),
            d,
        ),
        s.fits(d) == fits_keys(
            s.node_map().dom(),
            dir_node_paths(s.node_map()),
            s.child_lists().dom(),
            d,
        ),
{
    let (n2, d2, l2) = keys_after(
        s.node_map().dom(),
        dir_node_paths(s.node_map()),
        s.child_lists().dom(),
        s.root_path(),
        d,
    );
    assert(t.node_map().dom() =~= n2);
    assert(dir_node_paths(t.node_map()) =~= d2);
    assert(t.child_lists().dom() =~= l2);
}

/// How long the builder waits for the walker between publishes, in
/// milliseconds: longer once the scan is large.
pub fn publish_interval_ms(files_so_far: u64) -> (ms: u64)
    ensures
        ms == (if files_so_far < 500_000 {
            250u64
        } else {
            500u64
        }),
{
    if files_so_far < 500_000 {
        250
    } else {
        500
    }
}

/// What a walked filesystem entry is.
#[derive(Debug, Clone, Copy, PartialEq, Eq, Structural)]
pub enum EntryKind {
    Dir,
    File,
    Link,
}

/// One filesystem entry handed from the walker to the builder.
#[derive(Debug, Clone)]
pub struct EntryDelta {
    pub path: String,
    pub size: u64,
    pub kind: EntryKind,
}

/// The scan tree kept between publishes: the latest node of every path
/// built so far, each directory's children in the order they arrived, and
/// the directories whose node is out of date.
pub struct IncrementalTree {
    root: String,
    nodes: StringHashMap<Arc<Node>>,
    children: StringHashMap<Vec<String>>,
    /// Out-of-date directories, each with its depth.
    dirty: StringHashMap<usize>,
    /// The same directories, in the order they were first marked.
    dirty_order: Vec<String>,
}

/// The directories from `q` up to `root` (or up to the top, should `q` not
/// lie under `root`).
pub open spec fn chain(q: Seq<char>, root: Seq<char>) -> Set<Seq<char>>
    decreases q.len(),
{
    if q == root {
        set![q]
    } else {
        match spec_parent(q) {
            Some(pp) => {
                proof {
                    lemma_parent(q);
                }
                set![q].union(chain(pp, root))
            },
            None => set![q],
        }
    }
}

/// The nodes of `names` that `m` holds, in the order of `names`.
pub open spec fn present_kids(names: Seq<Seq<char>>, m: Map<Seq<char>, Arc<Node>>) -> Seq<
    Arc<Node>,
>
    decreases names.len(),
{
    if names.len() == 0 {
        Seq::empty()
    } else {
        let rest = present_kids(names.drop_last(), m);
        if m.contains_key(names.last()) {
            rest.push(m[names.last()])
        } else {
            rest
        }
    }
}

/// `n` is the node of a file (or, with `link`, a symlink) at `path`.
pub open spec fn is_leaf_node(n: Node, path: Seq<char>, size: u64, link: bool) -> bool {
    &&& n.name@ == spec_leaf_name(path)
    &&& n.path@ == path
    &&& n.size == size
    &&& !n.is_dir
    &&& n.is_link == link
    &&& n.children@.len() == 0
}

/// `n` is the node of the directory at `path` holding `kids`.
pub open spec fn is_dir_node(n: Node, path: Seq<char>, kids: Seq<Arc<Node>>) -> bool {
    &&& n.name@ == spec_leaf_name(path)
    &&& n.path@ == path
    &&& n.size == capped_size(sizes_sum(kids))
    &&& n.is_dir
    &&& !n.is_link
    &&& n.children@ == sort_children(kids)
}

/// The child lists, each name as its characters.
pub open spec fn lists_view(m: Map<Seq<char>, Vec<String>>) -> Map<Seq<char>, Seq<Seq<char>>> {
    m.map_values(|v: Vec<String>| views(v@))
}

proof fn lemma_lists_view_insert(m: Map<Seq<char>, Vec<String>>, k: Seq<char>, v: Vec<String>)
    ensures
        lists_view(m.insert(k, v)) =~= lists_view(m).insert(k, views(v@)),
{
}

/// What taking one walker entry does to the tree (see `IncrementalTree::apply`).
pub open spec fn applied(s: IncrementalTree, t: IncrementalTree, delta: EntryDelta) -> bool {
    &&& t.root_path() == s.root_path()
    &&& ({
        let p = delta.path@;
        match delta.kind {
            EntryKind::Dir => t.node_map() == s.node_map(),
            _ => {
                &&& t.node_map() == s.node_map().insert(
                    p,
                    t.node_map()[p],
                )
                &&& is_leaf_node(
                    *t.node_map()[p],
                    p,
                    delta.size,
                    delta.kind == EntryKind::Link,
                )
            },
        }
    })
    &&& ({
        let p = delta.path@;
        let k1 = if delta.kind == EntryKind::Dir && !s.child_lists().contains_key(
            p,
        ) {
            s.child_lists().insert(p, Seq::empty())
        } else {
            s.child_lists()
        };
        if p == s.root_path() || spec_parent(p) is None {
            t.child_lists() == k1
        } else {
            let q = spec_parent(p)->0;
            let list = if k1.contains_key(q) {
                k1[q]
            } else {
                Seq::empty()
            };
            t.child_lists() == k1.insert(q, list.push(p))
        }
    })
    &&& ({
        let p = delta.path@;
        if p == s.root_path() {
            t.dirty_paths() == s.dirty_paths().insert(p)
        } else {
            match spec_parent(p) {
                Some(q) => t.dirty_paths() == s.dirty_paths().union(
                    chain(q, s.root_path()),
                ),
                None => t.dirty_paths() == s.dirty_paths(),
            }
        }
    })
}

/// What rebuilding the out-of-date directories does (see `IncrementalTree::publish`).
pub open spec fn published(s: IncrementalTree, t: IncrementalTree, tree: Arc<Node>) -> bool {
    &&& t.root_path() == s.root_path()
    &&& t.child_lists() == s.child_lists()
    &&& t.dirty_paths() == Set::<Seq<char>>::empty()
    &&& forall|k: Seq<char>|
        !s.dirty_paths().contains(k) ==> (t.node_map().contains_key(k)
            == s.node_map().contains_key(k) && t.node_map()[k] == s.node_map()[k])
    &&& forall|d: Seq<char>|
        #[trigger] s.dirty_paths().contains(d) ==> (t.node_map().contains_key(d) && is_dir_node(
            *t.node_map()[d],
            d,
            present_kids(s.kids_of(d), t.node_map()),
        ))
    &&& t.node_map().contains_key(t.root_path()) ==> (tree == t.node_map()[t.root_path()])
    &&& !t.node_map().contains_key(t.root_path()) ==> is_dir_node(
        *tree,
        t.root_path(),
        Seq::empty(),
    )
}

impl IncrementalTree {
    /// The path the scan started from.
    pub closed spec fn root_path(&self) -> Seq<char> {
        self.root@
    }

    /// The latest node of every path built so far.
    pub closed spec fn node_map(&self) -> Map<Seq<char>, Arc<Node>> {
        self.nodes@
    }

    /// Each directory's children, in arrival order.
    pub closed spec fn child_lists(&self) -> Map<Seq<char>, Seq<Seq<char>>> {
        lists_view(self.children@)
    }

    /// The children recorded for `d` (none if it has no list).
    pub open spec fn kids_of(&self, d: Seq<char>) -> Seq<Seq<char>> {
        if self.child_lists().contains_key(d) {
            self.child_lists()[d]
        } else {
            Seq::empty()
        }
    }

    /// The directories whose node is out of date.
    pub closed spec fn dirty_paths(&self) -> Set<Seq<char>> {
        self.dirty@.dom()
    }

    /// The tree is in step: the root has a child list and is nobody's
    /// child, a directory with an out-of-date child is out of date itself,
    /// every directory node held that is not out of date is what its
    /// recorded children make of it, and a directory node held at a path
    /// without a child list (and not out of date) is an empty directory.
    pub open spec fn consistent(&self) -> bool {
        &&& self.child_lists().contains_key(self.root_path())
        &&& forall|q: Seq<char>| !(#[trigger] self.kids_of(q)).contains(self.root_path())
        &&& forall|q: Seq<char>, c: Seq<char>|
            #[trigger] self.kids_of(q).contains(c) && #[trigger] self.dirty_paths().contains(c)
                ==> self.dirty_paths().contains(q)
        &&& forall|d: Seq<char>|
            #[trigger] self.child_lists().contains_key(d) && self.node_map().contains_key(d)
                && !self.dirty_paths().contains(d) ==> is_dir_node(
                *self.node_map()[d],
                d,
                present_kids(self.kids_of(d), self.node_map()),
            )
        &&& forall|d: Seq<char>|
            #[trigger] self.node_map().contains_key(d) && !self.child_lists().contains_key(d)
                && !self.dirty_paths().contains(d) && self.node_map()[d].is_dir ==> is_dir_node(
                *self.node_map()[d],
                d,
                Seq::empty(),
            )
    }

    /// An entry fits the tree when, as a directory, it does not name a
    /// path holding a file or symlink node, and, as a file or symlink, it
    /// does not name a path with a child list. (A walker that reports each
    /// path once, with one kind, only gives fitting entries.)
    pub open spec fn fits(&self, delta: EntryDelta) -> bool {
        match delta.kind {
            EntryKind::Dir => self.node_map().contains_key(delta.path@)
                && !self.child_lists().contains_key(delta.path@) ==> self.node_map()[delta.path@].is_dir,
            _ => !self.child_lists().contains_key(delta.path@),
        }
    }

    /// The bookkeeping agrees with itself: each out-of-date directory is
    /// listed once in marking order, with its depth, and every recorded
    /// child has the directory it is filed under as its parent.
    pub closed spec fn wf(&self) -> bool {
        &&& forall|i: int, j: int|
            0 <= i < j < self.dirty_order@.len() ==> (#[trigger] self.dirty_order@[i])@ != (
            #[trigger] self.dirty_order@[j])@
        &&& forall|i: int|
            0 <= i < self.dirty_order@.len() ==> self.dirty@.contains_key(
                (#[trigger] self.dirty_order@[i])@,
            ) && self.dirty@[self.dirty_order@[i]@] == spec_depth(self.dirty_order@[i]@)
        &&& forall|k: Seq<char>|
            #[trigger] self.dirty@.contains_key(k) ==> exists|i: int|
                0 <= i < self.dirty_order@.len() && (#[trigger] self.dirty_order@[i])@ == k
        &&& forall|q: Seq<char>, i: int|
            #[trigger] self.children@.contains_key(q) && 0 <= i < self.children@[q]@.len()
                ==> spec_parent((#[trigger] self.children@[q]@[i])@) == Some(q)
    }

    /// Every directory that is recorded as some other's child has that one
    /// as its parent.
    pub proof fn lemma_kids_have_parent(&self, q: Seq<char>, i: int)
        requires
            self.wf(),
            0 <= i < self.kids_of(q).len(),
        ensures
            spec_parent(self.kids_of(q)[i]) == Some(q),
    {
        assert(self.children@.contains_key(q));
        assert(self.kids_of(q)[i] == self.children@[q]@[i]@);
    }

    /// An empty tree for the scan of `root`, with the root marked out of
    /// date.
    pub fn new(root: String) -> (t: Self)
        ensures
            t.wf(),
            t.root_path() == root@,
            t.node_map() == Map::<Seq<char>, Arc<Node>>::empty(),
            t.child_lists() == Map::<Seq<char>, Seq<Seq<char>>>::empty().insert(
                root@,
                Seq::empty(),
            ),
            t.dirty_paths() == set![root@],
            t.consistent(),
            arrival::fresh(t, root@),
    {
        let mut children: StringHashMap<Vec<String>> = StringHashMap::new();
        children.insert(root.clone(), Vec::new());
        let mut dirty: StringHashMap<usize> = StringHashMap::new();
        let d = depth(root.as_str());
        dirty.insert(root.clone(), d);
        let mut dirty_order: Vec<String> = Vec::new();
        dirty_order.push(root.clone());
        let t = IncrementalTree { root, nodes: StringHashMap::new(), children, dirty, dirty_order };
        proof {
            lemma_lists_view_insert(Map::empty(), root@, t.children@[root@]);
            assert(t.children@[root@]@ == Seq::<String>::empty());
            assert(views(t.children@[root@]@) =~= Seq::<Seq<char>>::empty());
            assert(lists_view(Map::<Seq<char>, Vec<String>>::empty()) =~= Map::empty());
            assert(t.child_lists() =~= Map::<Seq<char>, Seq<Seq<char>>>::empty().insert(
                root@,
                Seq::empty(),
            ));
            assert(t.dirty_paths() =~= set![root@]);
            assert forall|k: Seq<char>| #[trigger] t.dirty@.contains_key(k) implies exists|i: int|
                0 <= i < t.dirty_order@.len() && (#[trigger] t.dirty_order@[i])@ == k by {
                assert(t.dirty_order@[0]@ == k);
            }
        }
        t
    }

    /// Marks `path` and its ancestors up to the root as out of date.
    fn mark_dirty(&mut self, path: &String)
        requires
            old(self).wf(),
        ensures
            final(self).wf(),
            final(self).root == old(self).root,
            final(self).nodes == old(self).nodes,
            final(self).children == old(self).children,
            final(self).dirty_paths() == old(self).dirty_paths().union(
                chain(path@, old(self).root@),
            ),
    {
        let mut p = path.clone();
        let ghost start = path@;
        let ghost old_dirty = self.dirty_paths();
        let mut done = false;
        while !done
            invariant
                self.wf(),
                self.root == old(self).root,
                self.nodes == old(self).nodes,
                self.children == old(self).children,
                done ==> self.dirty_paths() == old_dirty.union(chain(start, self.root@)),
                !done ==> self.dirty_paths().union(chain(p@, self.root@)) == old_dirty.union(
                    chain(start, self.root@),
                ),
                !done ==> chain(p@, self.root@).subset_of(chain(start, self.root@)),
            decreases p@.len() + if done {
                0int
            } else {
                1
            },
        {
            self.insert_dirty(&p);
            if p == self.root {
                proof {
                    assert(chain(p@, self.root@) == set![p@]);
                    assert(self.dirty_paths() =~= old_dirty.union(chain(start, self.root@)));
                }
                done = true;
            } else {
                match parent(p.as_str()) {
                    Some(q) => {
                        proof {
                            lemma_parent(p@);
                            assert(chain(p@, self.root@) == set![p@].union(chain(q@, self.root@)));
                            assert(self.dirty_paths().union(chain(q@, self.root@)) =~= old_dirty.union(
                                chain(start, self.root@),
                            ));
                        }
                        p = q;
                    },
                    None => {
                        proof {
                            assert(chain(p@, self.root@) == set![p@]);
                            assert(self.dirty_paths() =~= old_dirty.union(chain(start, self.root@)));
                        }
                        done = true;
                    },
                }
            }
        }
    }

    /// Adds `p` to the out-of-date directories.
    fn insert_dirty(&mut self, p: &String)
        requires
            old(self).wf(),
        ensures
            final(self).wf(),
            final(self).root == old(self).root,
            final(self).nodes == old(self).nodes,
            final(self).children == old(self).children,
            final(self).dirty_paths() == old(self).dirty_paths().insert(p@),
    {
        if self.dirty.contains_key(p.as_str()) {
            proof {
                assert(self.dirty_paths() =~= old(self).dirty_paths().insert(p@));
            }
            return;
        }
        let d = depth(p.as_str());
        let ghost before = *self;
        self.dirty.insert(p.clone(), d);
        self.dirty_order.push(p.clone());
        proof {
            let n = before.dirty_order@.len();
            assert forall|i: int, j: int|
                0 <= i < j < self.dirty_order@.len() implies (#[trigger] self.dirty_order@[i])@ != (
            #[trigger] self.dirty_order@[j])@ by {
                if j == n {
                    assert(before.dirty@.contains_key(before.dirty_order@[i]@));
                } else {
                    assert(self.dirty_order@[i] == before.dirty_order@[i]);
                    assert(self.dirty_order@[j] == before.dirty_order@[j]);
                }
            }
            assert forall|i: int| 0 <= i < self.dirty_order@.len() implies self.dirty@.contains_key(
                (#[trigger] self.dirty_order@[i])@,
            ) && self.dirty@[self.dirty_order@[i]@] == spec_depth(self.dirty_order@[i]@) by {
                if i < n {
                    assert(self.dirty_order@[i] == before.dirty_order@[i]);
                    assert(before.dirty@.contains_key(before.dirty_order@[i]@));
                }
            }
            assert forall|k: Seq<char>| #[trigger] self.dirty@.contains_key(k) implies exists|i: int|
                0 <= i < self.dirty_order@.len() && (#[trigger] self.dirty_order@[i])@ == k by {
                if k == p@ {
                    assert(self.dirty_order@[n as int]@ == k);
                } else {
                    assert(before.dirty@.contains_key(k));
                    let i = choose|i: int|
                        0 <= i < before.dirty_order@.len() && (#[trigger] before.dirty_order@[i])@
                            == k;
                    assert(self.dirty_order@[i] == before.dirty_order@[i]);
                }
            }
            assert(self.dirty_paths() =~= before.dirty_paths().insert(p@));
        }
    }

    /// Takes one entry from the walker (see `apply`).
    fn apply_entry(&mut self, delta: EntryDelta)
        requires
            old(self).wf(),
        ensures
            final(self).wf(),
            applied(*old(self), *final(self), delta),
    {
        let ghost start = *self;
        let ghost p = delta.path@;
        match delta.kind {
            EntryKind::Dir => {
                if !self.children.contains_key(delta.path.as_str()) {
                    self.children.insert(delta.path.clone(), Vec::new());
                    proof {
                        lemma_lists_view_insert(start.children@, p, self.children@[p]);
                        assert(views(self.children@[p]@) =~= Seq::<Seq<char>>::empty());
                        assert(self.children@ == start.children@.insert(p, self.children@[p]));
                    }
                }
            },
            EntryKind::File => {
                let node = Node::new_file(delta.path.clone(), delta.size);
                self.nodes.insert(delta.path.clone(), Arc::new(node));
            },
            EntryKind::Link => {
                let node = Node::new_link(delta.path.clone(), delta.size);
                self.nodes.insert(delta.path.clone(), Arc::new(node));
            },
        }
        let ghost mid = *self;
        proof {
            assert(mid.child_lists() =~= (if delta.kind == EntryKind::Dir
                && !start.child_lists().contains_key(p) {
                start.child_lists().insert(p, Seq::empty())
            } else {
                start.child_lists()
            }));
            assert(mid.children@ == start.children@ || (!start.children@.contains_key(p)
                && mid.children@ == start.children@.insert(p, mid.children@[p])
                && mid.children@[p]@.len() == 0));
            assert forall|q: Seq<char>, i: int|
                #[trigger] mid.children@.contains_key(q) && 0 <= i < mid.children@[q]@.len()
                    implies spec_parent((#[trigger] mid.children@[q]@[i])@) == Some(q) by {
                if mid.children@ != start.children@ && q == p {
                    assert(mid.children@[q]@.len() == 0);
                } else {
                    assert(mid.children@[q] == start.children@[q]);
                }
            }
            assert(mid.dirty == start.dirty);
            assert(mid.dirty_order == start.dirty_order);
            assert(mid.wf());
            if delta.kind != EntryKind::Dir {
                assert(mid.node_map() =~= start.node_map().insert(p, mid.node_map()[p]));
            }
        }
        if delta.path == self.root {
            let r = self.root.clone();
            self.insert_dirty(&r);
            return;
        }
        match parent(delta.path.as_str()) {
            Some(q) => {
                let mut list: Vec<String> = match self.children.get(q.as_str()) {
                    Some(v) => v.clone(),
                    None => Vec::new(),
                };
                let ghost old_list = list@;
                list.push(delta.path.clone());
                self.children.insert(q.clone(), list);
                proof {
                    let k1 = mid.child_lists();
                    let l0 = if k1.contains_key(q@) {
                        k1[q@]
                    } else {
                        Seq::<Seq<char>>::empty()
                    };
                    assert(views(list@) =~= l0.push(p));
                    lemma_lists_view_insert(mid.children@, q@, list);
                    assert(self.child_lists() =~= k1.insert(q@, l0.push(p)));
                    assert forall|qq: Seq<char>, i: int|
                        #[trigger] self.children@.contains_key(qq) && 0 <= i
                            < self.children@[qq]@.len() implies spec_parent(
                        (#[trigger] self.children@[qq]@[i])@,
                    ) == Some(qq) by {
                        if qq == q@ {
                            if i < old_list.len() {
                                assert(mid.children@.contains_key(q@));
                                assert(self.children@[qq]@[i] == mid.children@[q@]@[i]);
                            }
                        } else {
                            assert(self.children@[qq] == mid.children@[qq]);
                        }
                    }
                    assert(self.dirty == mid.dirty);
                    assert(self.dirty_order == mid.dirty_order);
                    assert(self.wf());
                }
                self.mark_dirty(&q);
            },
            None => {},
        }
    }

    /// Takes one entry from the walker: records a file or symlink node, or
    /// a directory's (possibly empty) child list; files the entry under its
    /// parent; and marks the parent and its ancestors out of date. The
    /// root itself is only marked out of date. An entry that fits the tree
    /// keeps every clean directory's node up to date.
    pub fn apply(&mut self, delta: EntryDelta)
        requires
            old(self).wf(),
        ensures
            final(self).wf(),
            applied(*old(self), *final(self), delta),
            old(self).consistent() && old(self).fits(delta) ==> final(self).consistent(),
    {
        let ghost s = *self;
        let ghost d = delta;
        self.apply_entry(delta);
        proof {
            if s.consistent() && s.fits(d) {
                lemma_apply_consistent(s, *self, d);
            }
        }
    }

    /// Rebuilds every out-of-date directory (see `publish`).
    fn rebuild_dirty(&mut self) -> (tree: Arc<Node>)
        requires
            old(self).wf(),
        ensures
            final(self).wf(),
            published(*old(self), *final(self), tree),
    {
        let ord = self.processing_order();
        let ghost start = *self;
        let n = ord.len();
        let mut k: usize = 0;
        let ghost mut done_set: Set<Seq<char>> = Set::empty();
        while k < n
            invariant
                n == ord@.len(),
                k <= n,
                self.wf(),
                start.wf(),
                self.root == start.root,
                self.children == start.children,
                self.dirty == start.dirty,
                self.dirty_order == start.dirty_order,
                forall|i: int| 0 <= i < n ==> start.dirty_paths().contains((#[trigger] ord@[i])@),
                forall|i: int, j: int|
                    0 <= i < j < n ==> spec_depth((#[trigger] ord@[i])@) >= spec_depth(
                        (#[trigger] ord@[j])@,
                    ),
                done_set.subset_of(start.dirty_paths()),
                forall|i: int| 0 <= i < k ==> done_set.contains((#[trigger] ord@[i])@),
                forall|key: Seq<char>|
                    !(#[trigger] done_set.contains(key)) ==> (self.nodes@.contains_key(key)
                        == start.nodes@.contains_key(key) && self.nodes@[key] == start.nodes@[key]),
                forall|key: Seq<char>|
                    #[trigger] done_set.contains(key) ==> exists|i: int|
                        0 <= i < k && (#[trigger] ord@[i])@ == key,
                forall|i: int|
                    0 <= i < k ==> self.nodes@.contains_key((#[trigger] ord@[i])@) && is_dir_node(
                        *self.nodes@[ord@[i]@],
                        ord@[i]@,
                        present_kids(start.kids_of(ord@[i]@), self.nodes@),
                    ),
            decreases n - k,
        {
            let d = &ord[k];
            let kids = self.kids_for(d);
            let node = Node::new_dir(d.clone(), kids);
            let ghost before = self.nodes@;
            let ghost dv = ord@[k as int]@;
            proof {
                assert forall|i: int| 0 <= i <= k implies !start.kids_of(
                    (#[trigger] ord@[i])@,
                ).contains(dv) by {
                    let di = ord@[i]@;
                    start.lemma_not_own_kid(di, dv, spec_depth(dv) <= spec_depth(di));
                }
            }
            let ghost pre_self = *self;
            self.nodes.insert(d.clone(), Arc::new(node));
            proof {
                lemma_wf_keeps(pre_self, *self);
                assert(self.kids_of(dv) == start.kids_of(dv));
                lemma_present_kids_insert(start.kids_of(dv), before, dv, self.nodes@[dv]);
                assert(self.nodes@ == before.insert(dv, self.nodes@[dv]));
                assert(is_dir_node(
                    *self.nodes@[dv],
                    dv,
                    present_kids(start.kids_of(dv), self.nodes@),
                ));
                assert forall|i: int| 0 <= i <= k implies self.nodes@.contains_key(
                    (#[trigger] ord@[i])@,
                ) && is_dir_node(
                    *self.nodes@[ord@[i]@],
                    ord@[i]@,
                    present_kids(start.kids_of(ord@[i]@), self.nodes@),
                ) by {
                    let di = ord@[i]@;
                    lemma_present_kids_insert(start.kids_of(di), before, dv, self.nodes@[dv]);
                }
                done_set = done_set.insert(dv);
                assert forall|key: Seq<char>| #[trigger] done_set.contains(key) implies exists|i: int|
                    0 <= i < k + 1 && (#[trigger] ord@[i])@ == key by {
                    if key != dv {
                        let i = choose|i: int| 0 <= i < k && (#[trigger] ord@[i])@ == key;
                    }
                }
            }
            k = k + 1;
        }
        proof {
            assert forall|key: Seq<char>| !start.dirty_paths().contains(key) implies (
            self.nodes@.contains_key(key) == start.nodes@.contains_key(key) && self.nodes@[key]
                == start.nodes@[key]) by {
                assert(!done_set.contains(key));
            }
            assert forall|d: Seq<char>| #[trigger] start.dirty_paths().contains(d) implies (
            self.nodes@.contains_key(d) && is_dir_node(
                *self.nodes@[d],
                d,
                present_kids(start.kids_of(d), self.nodes@),
            )) by {
                let i = choose|i: int| 0 <= i < n && (#[trigger] ord@[i])@ == d;
            }
        }
        self.clear_dirty();
        match self.nodes.get(self.root.as_str()) {
            Some(t) => share(t),
            None => {
                let empty: Vec<Arc<Node>> = Vec::new();
                proof {
                    assert(sizes_sum(empty@) == 0);
                    assert(sort_children(empty@) == empty@);
                }
                Arc::new(Node::new_dir(self.root.clone(), empty))
            },
        }
    }

    /// Rebuilds every out-of-date directory, deepest first, so that each
    /// sees its children's fresh nodes; returns the root's node. Afterwards
    /// nothing is out of date, and when every entry taken since the tree
    /// was made fitted it, every directory node held is what its recorded
    /// children make of it.
    pub fn publish(&mut self) -> (tree: Arc<Node>)
        requires
            old(self).wf(),
        ensures
            final(self).wf(),
            published(*old(self), *final(self), tree),
            old(self).consistent() ==> final(self).consistent(),
    {
        let ghost s = *self;
        let tree = self.rebuild_dirty();
        proof {
            if s.consistent() {
                lemma_publish_consistent(s, *self, tree);
            }
        }
        tree
    }

    /// A directory is never the child of itself nor of a directory at least
    /// as deep.
    proof fn lemma_not_own_kid(&self, di: Seq<char>, dv: Seq<char>, shallower: bool)
        requires
            self.wf(),
            shallower == (spec_depth(dv) <= spec_depth(di)),
            shallower || di == dv,
        ensures
            !self.kids_of(di).contains(dv),
    {
        if self.kids_of(di).contains(dv) {
            let j = choose|j: int| 0 <= j < self.kids_of(di).len() && self.kids_of(di)[j] == dv;
            self.lemma_kids_have_parent(di, j);
            lemma_parent(dv);
        }
    }

    /// The current nodes of `d`'s recorded children, in order.
    fn kids_for(&self, d: &String) -> (kids: Vec<Arc<Node>>)
        requires
            self.wf(),
        ensures
            kids@ == present_kids(self.kids_of(d@), self.nodes@),
    {
        let mut out: Vec<Arc<Node>> = Vec::new();
        match self.children.get(d.as_str()) {
            Some(list) => {
                let n = list.len();
                let mut i: usize = 0;
                proof {
                    assert(self.kids_of(d@) == views(list@));
                    assert(views(list@).take(0) =~= Seq::<Seq<char>>::empty());
                }
                while i < n
                    invariant
                        n == list@.len(),
                        i <= n,
                        self.kids_of(d@) == views(list@),
                        out@ == present_kids(views(list@).take(i as int), self.nodes@),
                    decreases n - i,
                {
                    proof {
                        assert(views(list@).take(i + 1).drop_last() =~= views(list@).take(
                            i as int,
                        ));
                        assert(views(list@).take(i + 1).last() == list@[i as int]@);
                    }
                    match self.nodes.get(list[i].as_str()) {
                        Some(c) => {
                            out.push(share(c));
                        },
                        None => {},
                    }
                    i = i + 1;
                }
                proof {
                    assert(views(list@).take(n as int) =~= views(list@));
                }
            },
            None => {
                proof {
                    assert(self.kids_of(d@) == Seq::<Seq<char>>::empty());
                }
            },
        }
        out
    }

    /// Forgets every out-of-date mark.
    fn clear_dirty(&mut self)
        requires
            old(self).wf(),
        ensures
            final(self).wf(),
            final(self).root == old(self).root,
            final(self).nodes == old(self).nodes,
            final(self).children == old(self).children,
            final(self).dirty_paths() == Set::<Seq<char>>::empty(),
    {
        self.dirty.clear();
        self.dirty_order = Vec::new();
        proof {
            assert(self.dirty_paths() =~= Set::<Seq<char>>::empty());
        }
    }

    /// The out-of-date directories, deepest first (in marking order among
    /// equally deep ones).
    fn processing_order(&self) -> (ord: Vec<String>)
        requires
            self.wf(),
        ensures
            forall|i: int| 0 <= i < ord@.len() ==> self.dirty_paths().contains((#[trigger] ord@[i])@),
            forall|d: Seq<char>| #[trigger] self.dirty_paths().contains(d) ==> exists|i: int|
                0 <= i < ord@.len() && (#[trigger] ord@[i])@ == d,
            forall|i: int, j: int|
                0 <= i < j < ord@.len() ==> spec_depth((#[trigger] ord@[i])@) >= spec_depth(
                    (#[trigger] ord@[j])@,
                ),
    {
        let n = self.dirty_order.len();
        let mut maxd: usize = 0;
        let mut i: usize = 0;
        while i < n
            invariant
                n == self.dirty_order@.len(),
                self.wf(),
                i <= n,
                forall|j: int| 0 <= j < i ==> spec_depth((#[trigger] self.dirty_order@[j])@) <= maxd,
            decreases n - i,
        {
            let d = self.depth_of(i);
            if d > maxd {
                maxd = d;
            }
            i = i + 1;
        }
        let mut ord: Vec<String> = Vec::new();
        let mut level: usize = maxd;
        let mut finished = false;
        let ghost mut low: int = maxd as int;
        while !finished
            invariant
                n == self.dirty_order@.len(),
                self.wf(),
                level <= maxd,
                forall|j: int| 0 <= j < n ==> spec_depth((#[trigger] self.dirty_order@[j])@) <= maxd,
                forall|m: int| 0 <= m < ord@.len() ==> self.dirty_paths().contains((#[trigger] ord@[m])@),
                forall|m: int| 0 <= m < ord@.len() ==> spec_depth((#[trigger] ord@[m])@) >= level,
                forall|m1: int, m2: int|
                    0 <= m1 < m2 < ord@.len() ==> spec_depth((#[trigger] ord@[m1])@) >= spec_depth(
                        (#[trigger] ord@[m2])@,
                    ),
                low == (if finished {
                    -1int
                } else {
                    level as int
                }),
                forall|j: int|
                    0 <= j < n && spec_depth((#[trigger] self.dirty_order@[j])@) > low
                        ==> exists|m: int| 0 <= m < ord@.len() && (#[trigger] ord@[m])@ == self.dirty_order@[j]@,
            decreases level + if finished {
                0int
            } else {
                1
            },
        {
            let mut j: usize = 0;
            while j < n
                invariant
                    n == self.dirty_order@.len(),
                    self.wf(),
                    j <= n,
                    level <= maxd,
                    forall|m: int| 0 <= m < ord@.len() ==> self.dirty_paths().contains((#[trigger] ord@[m])@),
                    forall|m: int| 0 <= m < ord@.len() ==> spec_depth((#[trigger] ord@[m])@) >= level,
                    forall|m1: int, m2: int|
                        0 <= m1 < m2 < ord@.len() ==> spec_depth((#[trigger] ord@[m1])@)
                            >= spec_depth((#[trigger] ord@[m2])@),
                    forall|q: int|
                        0 <= q < n && (spec_depth((#[trigger] self.dirty_order@[q])@) > level || (
                        spec_depth(self.dirty_order@[q]@) == level && q < j)) ==> exists|m: int|
                            0 <= m < ord@.len() && (#[trigger] ord@[m])@ == self.dirty_order@[q]@,
                decreases n - j,
            {
                let d = self.depth_of(j);
                if d == level {
                    let ghost before = ord@;
                    ord.push(self.dirty_order[j].clone());
                    proof {
                        assert forall|q: int|
                            0 <= q < n && (spec_depth((#[trigger] self.dirty_order@[q])@) > level || (
                            spec_depth(self.dirty_order@[q]@) == level && q < j + 1)) implies exists|
                            m: int,
                        | 0 <= m < ord@.len() && (#[trigger] ord@[m])@ == self.dirty_order@[q]@ by {
                            if q == j {
                                assert(ord@[before.len() as int]@ == self.dirty_order@[q]@);
                            } else {
                                let m = choose|m: int|
                                    0 <= m < before.len() && (#[trigger] before[m])@
                                        == self.dirty_order@[q]@;
                                assert(ord@[m] == before[m]);
                            }
                        }
                        assert forall|m1: int, m2: int|
                            0 <= m1 < m2 < ord@.len() implies spec_depth((#[trigger] ord@[m1])@)
                                >= spec_depth((#[trigger] ord@[m2])@) by {
                            if m2 < before.len() {
                                assert(ord@[m1] == before[m1]);
                                assert(ord@[m2] == before[m2]);
                            } else {
                                assert(ord@[m1] == before[m1]);
                            }
                        }
                        assert forall|m: int| 0 <= m < ord@.len() implies self.dirty_paths().contains(
                            (#[trigger] ord@[m])@,
                        ) by {
                            if m < before.len() {
                                assert(ord@[m] == before[m]);
                            }
                        }
                        assert forall|m: int| 0 <= m < ord@.len() implies spec_depth(
                            (#[trigger] ord@[m])@,
                        ) >= level by {
                            if m < before.len() {
                                assert(ord@[m] == before[m]);
                            }
                        }
                    }
                }
                j = j + 1;
            }
            proof {
                assert forall|q: int|
                    0 <= q < n && spec_depth((#[trigger] self.dirty_order@[q])@) >= level implies exists|
                    m: int,
                | 0 <= m < ord@.len() && (#[trigger] ord@[m])@ == self.dirty_order@[q]@ by {
                    if spec_depth(self.dirty_order@[q]@) == level {
                        assert(q < n);
                    }
                }
                assert forall|q: int| 0 <= q < n implies spec_depth(
                    (#[trigger] self.dirty_order@[q])@,
                ) >= 0 by {
                    assert(self.dirty@.contains_key(self.dirty_order@[q]@));
                }
            }
            if level == 0 {
                finished = true;
                proof {
                    low = -1;
                }
            } else {
                let ghost old_level = level;
                level = level - 1;
                proof {
                    low = level as int;
                    assert forall|q: int|
                        0 <= q < n && spec_depth((#[trigger] self.dirty_order@[q])@) > level implies exists|
                        m: int,
                    | 0 <= m < ord@.len() && (#[trigger] ord@[m])@ == self.dirty_order@[q]@ by {
                        assert(spec_depth(self.dirty_order@[q]@) >= old_level);
                    }
                }
            }
        }
        proof {
            assert forall|d: Seq<char>| #[trigger] self.dirty_paths().contains(d) implies exists|i: int|
                0 <= i < ord@.len() && (#[trigger] ord@[i])@ == d by {
                let j = choose|j: int|
                    0 <= j < self.dirty_order@.len() && (#[trigger] self.dirty_order@[j])@ == d;
                assert(self.dirty@.contains_key(self.dirty_order@[j]@));
                assert(spec_depth(self.dirty_order@[j]@) > low);
                let m = choose|m: int|
                    0 <= m < ord@.len() && (#[trigger] ord@[m])@ == self.dirty_order@[j]@;
            }
        }
        ord
    }

    /// Depth of the `i`th out-of-date directory.
    fn depth_of(&self, i: usize) -> (d: usize)
        requires
            self.wf(),
            i < self.dirty_order@.len(),
        ensures
            d == spec_depth(self.dirty_order@[i as int]@),
    {
        match self.dirty.get(self.dirty_order[i].as_str()) {
            Some(d) => *d,
            None => 0,
        }
    }
}

/// Well-formedness does not look at the nodes.
proof fn lemma_wf_keeps(a: IncrementalTree, b: IncrementalTree)
    requires
        a.wf(),
        a.dirty == b.dirty,
        a.dirty_order == b.dirty_order,
        a.children == b.children,
    ensures
        b.wf(),
{
}

/// Adding a node under a name that `names` does not hold leaves the
/// selection of `names` unchanged.
proof fn lemma_present_kids_insert(
    names: Seq<Seq<char>>,
    m: Map<Seq<char>, Arc<Node>>,
    k: Seq<char>,
    v: Arc<Node>,
)
    requires
        !names.contains(k),
    ensures
        present_kids(names, m.insert(k, v)) == present_kids(names, m),
    decreases names.len(),
{
    if names.len() > 0 {
        assert(names.drop_last().len() < names.len());
        assert(!names.drop_last().contains(k)) by {
            if names.drop_last().contains(k) {
                let j = choose|j: int| 0 <= j < names.drop_last().len() && names.drop_last()[j] == k;
                assert(names[j] == k);
            }
        }
        lemma_present_kids_insert(names.drop_last(), m, k, v);
        assert(names.last() != k) by {
            assert(names[names.len() - 1] == names.last());
        }
    }
}

/// The directory above a member of a chain (other than its top) is in the
/// chain too.
proof fn lemma_chain_parent(q: Seq<char>, root: Seq<char>, c: Seq<char>, d: Seq<char>)
    requires
        chain(q, root).contains(c),
        c != root,
        spec_parent(c) == Some(d),
    ensures
        chain(q, root).contains(d),
    decreases q.len(),
{
    if q != root {
        match spec_parent(q) {
            Some(pp) => {
                lemma_parent(q);
                assert(chain(q, root) == set![q].union(chain(pp, root)));
                if c == q {
                    assert(chain(pp, root).contains(pp));
                } else {
                    lemma_chain_parent(pp, root, c, d);
                }
            },
            None => {},
        }
    }
}

/// Two maps that agree on `names` select the same nodes for them.
proof fn lemma_present_kids_agree(
    names: Seq<Seq<char>>,
    m1: Map<Seq<char>, Arc<Node>>,
    m2: Map<Seq<char>, Arc<Node>>,
)
    requires
        forall|i: int|
            0 <= i < names.len() ==> (m1.contains_key(#[trigger] names[i]) == m2.contains_key(
                names[i],
            ) && (m1.contains_key(names[i]) ==> m1[names[i]] == m2[names[i]])),
    ensures
        present_kids(names, m1) == present_kids(names, m2),
    decreases names.len(),
{
    if names.len() > 0 {
        let init = names.drop_last();
        assert forall|i: int| 0 <= i < init.len() implies (m1.contains_key(#[trigger] init[i])
            == m2.contains_key(init[i]) && (m1.contains_key(init[i]) ==> m1[init[i]]
            == m2[init[i]])) by {
            assert(init[i] == names[i]);
        }
        lemma_present_kids_agree(init, m1, m2);
        assert(names.last() == names[names.len() - 1]);
    }
}

/// What an entry does to the recorded child lists: only the entry's
/// parent gains it.
proof fn lemma_applied_kids(s: IncrementalTree, t: IncrementalTree, delta: EntryDelta, x: Seq<char>)
    requires
        s.wf(),
        applied(s, t, delta),
    ensures
        t.kids_of(x) == (if delta.path@ != s.root_path() && spec_parent(delta.path@) == Some(x) {
            s.kids_of(x).push(delta.path@)
        } else {
            s.kids_of(x)
        }),
{
    let p = delta.path@;
    if spec_parent(p) is Some {
        lemma_parent(p);
    }
    if delta.kind == EntryKind::Dir && !s.child_lists().contains_key(p) {
        assert(s.kids_of(p) == Seq::<Seq<char>>::empty());
    }
}

/// Taking an entry that fits keeps the tree consistent.
proof fn lemma_apply_consistent(s: IncrementalTree, t: IncrementalTree, delta: EntryDelta)
    requires
        s.wf(),
        t.wf(),
        s.consistent(),
        s.fits(delta),
        applied(s, t, delta),
    ensures
        t.consistent(),
{
    let p = delta.path@;
    let r = s.root_path();
    let q_case = p != r && spec_parent(p) is Some;
    if spec_parent(p) is Some {
        lemma_parent(p);
    }
    assert(s.dirty_paths().subset_of(t.dirty_paths()));
    assert forall|x: Seq<char>| !(#[trigger] t.kids_of(x)).contains(r) by {
        lemma_applied_kids(s, t, delta, x);
        if t.kids_of(x).contains(r) {
            let j = choose|j: int| 0 <= j < t.kids_of(x).len() && t.kids_of(x)[j] == r;
            if q_case && spec_parent(p) == Some(x) {
                if j < s.kids_of(x).len() {
                    assert(s.kids_of(x)[j] == r);
                    assert(s.kids_of(x).contains(r));
                }
            } else {
                assert(s.kids_of(x).contains(r));
            }
        }
    }
    assert forall|x: Seq<char>, c: Seq<char>|
        #[trigger] t.kids_of(x).contains(c) && #[trigger] t.dirty_paths().contains(c) implies t.dirty_paths().contains(x) by {
        lemma_applied_kids(s, t, delta, x);
        if q_case && spec_parent(p) == Some(x) {
            assert(chain(x, r).contains(x));
        } else {
            assert(s.kids_of(x).contains(c));
            if !s.dirty_paths().contains(c) {
                let j = choose|j: int| 0 <= j < s.kids_of(x).len() && s.kids_of(x)[j] == c;
                s.lemma_kids_have_parent(x, j);
                if q_case {
                    let q = spec_parent(p)->0;
                    assert(chain(q, r).contains(c));
                    assert(c != r);
                    lemma_chain_parent(q, r, c, x);
                }
            }
        }
    }
    assert forall|d: Seq<char>|
        #[trigger] t.child_lists().contains_key(d) && t.node_map().contains_key(d)
            && !t.dirty_paths().contains(d) implies is_dir_node(
        *t.node_map()[d],
        d,
        present_kids(t.kids_of(d), t.node_map()),
    ) by {
        lemma_applied_kids(s, t, delta, d);
        if q_case && spec_parent(p) == Some(d) {
            assert(chain(d, r).contains(d));
        }
        assert(t.kids_of(d) == s.kids_of(d));
        if !s.child_lists().contains_key(d) {
            // Only a directory entry gives a path its first child list.
            assert(delta.kind == EntryKind::Dir && d == p);
            assert(s.node_map().contains_key(d));
            assert(s.node_map()[d].is_dir);
            assert(s.kids_of(d) == Seq::<Seq<char>>::empty());
            assert(present_kids(Seq::<Seq<char>>::empty(), t.node_map()) == Seq::<Arc<Node>>::empty());
        } else if delta.kind == EntryKind::Dir {
            assert(s.node_map().contains_key(d));
        } else {
            assert(d != p);
            assert(s.node_map().contains_key(d));
            assert(t.node_map()[d] == s.node_map()[d]);
            if s.kids_of(d).contains(p) {
                let j = choose|j: int| 0 <= j < s.kids_of(d).len() && s.kids_of(d)[j] == p;
                s.lemma_kids_have_parent(d, j);
            }
            lemma_present_kids_insert(s.kids_of(d), s.node_map(), p, t.node_map()[p]);
        }
    }
    assert forall|d: Seq<char>|
        #[trigger] t.node_map().contains_key(d) && !t.child_lists().contains_key(d)
            && !t.dirty_paths().contains(d) && t.node_map()[d].is_dir implies is_dir_node(
        *t.node_map()[d],
        d,
        Seq::empty(),
    ) by {
        assert(!s.child_lists().contains_key(d));
        if delta.kind != EntryKind::Dir {
            assert(d != p);
        }
        assert(s.node_map().contains_key(d));
        assert(t.node_map()[d] == s.node_map()[d]);
    }
}

/// Rebuilding the out-of-date directories of a consistent tree leaves it
/// consistent.
proof fn lemma_publish_consistent(s: IncrementalTree, t: IncrementalTree, tree: Arc<Node>)
    requires
        s.wf(),
        t.wf(),
        s.consistent(),
        published(s, t, tree),
    ensures
        t.consistent(),
{
    assert forall|x: Seq<char>| #[trigger] t.kids_of(x) == s.kids_of(x) by {}
    assert forall|d: Seq<char>|
        #[trigger] t.child_lists().contains_key(d) && t.node_map().contains_key(d)
            && !t.dirty_paths().contains(d) implies is_dir_node(
        *t.node_map()[d],
        d,
        present_kids(t.kids_of(d), t.node_map()),
    ) by {
        assert(t.kids_of(d) == s.kids_of(d));
        if !s.dirty_paths().contains(d) {
            let names = s.kids_of(d);
            assert forall|i: int| 0 <= i < names.len() implies (s.node_map().contains_key(
                #[trigger] names[i],
            ) == t.node_map().contains_key(names[i]) && (s.node_map().contains_key(names[i])
                ==> s.node_map()[names[i]] == t.node_map()[names[i]])) by {
                assert(names.contains(names[i]));
                if s.dirty_paths().contains(names[i]) {
                    assert(s.kids_of(d).contains(names[i]) && s.dirty_paths().contains(names[i]));
                }
            }
            lemma_present_kids_agree(names, s.node_map(), t.node_map());
        }
    }
    assert forall|d: Seq<char>|
        #[trigger] t.node_map().contains_key(d) && !t.child_lists().contains_key(d)
            && !t.dirty_paths().contains(d) && t.node_map()[d].is_dir implies is_dir_node(
        *t.node_map()[d],
        d,
        Seq::empty(),
    ) by {
        if s.dirty_paths().contains(d) {
            assert(s.kids_of(d) == Seq::<Seq<char>>::empty());
            assert(present_kids(Seq::<Seq<char>>::empty(), t.node_map()) == Seq::<Arc<Node>>::empty());
        } else {
            assert(s.node_map().contains_key(d));
        }
    }
}

} // verus!
