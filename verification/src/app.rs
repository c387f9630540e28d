//! The explorer's navigation state: where the user has zoomed to, which
//! child is selected, and how each key changes that.
use crate::scan::ScanShared;
use crate::text::{starts_with_char, views};
use crate::tree::{lemma_sizes_sum_concat, share, sizes_sum, Node};
use crate::ui::color::Theme;
use crate::Rect;
use std::sync::Arc;
use std::time::Instant;
use vstd::prelude::*;

verus! {

#[derive(Clone, Copy, Debug, PartialEq, Eq, Structural)]
pub enum ViewMode {
    Tile,
    List,
}

/// How tile cell areas relate to byte sizes.
/// - `Linear`: area ∝ size. Truth-faithful, but a single huge sibling
///   crushes everything else to <1 cell.
/// - `Log`: area ∝ ln(1 + size). Small files stay visible; intra-magnitude
///   differences are flattened.
/// - `Sqrt`: middle ground. Big-vs-small is still dominant; same-magnitude
///   siblings still distinguishable.
#[derive(Clone, Copy, Debug, PartialEq, Eq, Structural)]
pub enum ScaleMode {
    Linear,
    Log,
    Sqrt,
}

/// The mode after `m` in the cycle linear → log → sqrt → linear.
pub open spec fn following_mode(m: ScaleMode) -> ScaleMode {
    match m {
        ScaleMode::Linear => ScaleMode::Log,
        ScaleMode::Log => ScaleMode::Sqrt,
        ScaleMode::Sqrt => ScaleMode::Linear,
    }
}

/// The name a scale mode is shown under.
pub open spec fn mode_label(m: ScaleMode) -> Seq<char> {
    match m {
        ScaleMode::Linear => "linear"@,
        ScaleMode::Log => "log"@,
        ScaleMode::Sqrt => "sqrt"@,
    }
}

impl ScaleMode {
    pub fn next(self) -> (r: Self)
        ensures
            r == following_mode(self),
    {
        match self {
            ScaleMode::Linear => ScaleMode::Log,
            ScaleMode::Log => ScaleMode::Sqrt,
            ScaleMode::Sqrt => ScaleMode::Linear,
        }
    }

    pub fn label(self) -> (r: &'static str)
        ensures
            r@ == mode_label(self),
    {
        match self {
            ScaleMode::Linear => "linear",
            ScaleMode::Log => "log",
            ScaleMode::Sqrt => "sqrt",
        }
    }
}

/// What the interface draws from: the tree and counters at one moment.
pub struct Snapshot {
    pub tree: Arc<Node>,
    pub files_scanned: u64,
    pub bytes_scanned: u64,
    pub unreadable: u64,
    pub current_path: Option<String>,
    pub done: bool,
    pub started_at: Instant,
    pub finished_at: Option<Instant>,
}

/// Index of the first node of `kids` named `name`; `kids.len()` when none
/// is.
pub open spec fn child_index(kids: Seq<Arc<Node>>, name: Seq<char>) -> int
    decreases kids.len(),
{
    if kids.len() == 0 {
        0
    } else if kids[0].name@ == name {
        0
    } else {
        1 + child_index(kids.drop_first(), name)
    }
}

/// The node reached from `n` by following `names` child by child, stopping
/// at the last one that resolves.
pub open spec fn resolve_path(n: Node, names: Seq<Seq<char>>) -> Node
    decreases names.len(),
{
    if names.len() == 0 {
        n
    } else {
        let k = child_index(n.children@, names[0]);
        if k < n.children@.len() {
            resolve_path(*n.children@[k], names.drop_first())
        } else {
            n
        }
    }
}

/// A dotfile name.
pub open spec fn is_hidden_name(name: Seq<char>) -> bool {
    name.len() > 0 && name[0] == '.'
}

/// `c` is listed under the given `show_hidden` setting.
pub open spec fn shown(c: Arc<Node>, show_hidden: bool) -> bool {
    show_hidden || !is_hidden_name(c.name@)
}

/// The children that are listed under the given `show_hidden` setting, in
/// order.
pub open spec fn visible(kids: Seq<Arc<Node>>, show_hidden: bool) -> Seq<Arc<Node>> {
    kids.filter(|c: Arc<Node>| shown(c, show_hidden))
}

/// Total size of the hidden nodes of `kids`.
pub open spec fn hidden_total(kids: Seq<Arc<Node>>) -> int
    decreases kids.len(),
{
    if kids.len() == 0 {
        0
    } else {
        hidden_total(kids.drop_last()) + if is_hidden_name(kids.last().name@) {
            kids.last().size as int
        } else {
            0
        }
    }
}

/// The name of the first node of `vis`, if any.
pub open spec fn first_name(vis: Seq<Arc<Node>>) -> Option<String> {
    if vis.len() > 0 {
        Some(vis[0].name)
    } else {
        None
    }
}

proof fn lemma_child_index_bounds(kids: Seq<Arc<Node>>, name: Seq<char>)
    ensures
        0 <= child_index(kids, name) <= kids.len(),
        child_index(kids, name) < kids.len() ==> kids[child_index(kids, name)].name@ == name,
        forall|j: int| 0 <= j < child_index(kids, name) ==> kids[j].name@ != name,
    decreases kids.len(),
{
    if kids.len() > 0 && kids[0].name@ != name {
        lemma_child_index_bounds(kids.drop_first(), name);
        assert forall|j: int| 0 <= j < child_index(kids, name) implies kids[j].name@ != name by {
            if j > 0 {
                assert(kids[j] == kids.drop_first()[j - 1]);
            }
        }
    }
}

proof fn lemma_child_index_at(kids: Seq<Arc<Node>>, name: Seq<char>, i: int)
    requires
        0 <= i <= kids.len(),
        forall|j: int| 0 <= j < i ==> kids[j].name@ != name,
        i == kids.len() || kids[i].name@ == name,
    ensures
        child_index(kids, name) == i,
    decreases i,
{
    if i > 0 {
        assert(kids[0].name@ != name);
        assert forall|j: int| 0 <= j < i - 1 implies kids.drop_first()[j].name@ != name by {
            assert(kids.drop_first()[j] == kids[j + 1]);
        }
        if i < kids.len() {
            assert(kids.drop_first()[i - 1] == kids[i]);
        }
        lemma_child_index_at(kids.drop_first(), name, i - 1);
    }
}

proof fn lemma_visible_step(kids: Seq<Arc<Node>>, show_hidden: bool, i: int)
    requires
        0 <= i < kids.len(),
    ensures
        visible(kids.take(i + 1), show_hidden) == (if shown(kids[i], show_hidden) {
            visible(kids.take(i), show_hidden).push(kids[i])
        } else {
            visible(kids.take(i), show_hidden)
        }),
{
    let t = kids.take(i + 1);
    let f = |c: Arc<Node>| shown(c, show_hidden);
    reveal(Seq::filter);
    assert(t.drop_last() =~= kids.take(i));
    assert(t.last() == kids[i]);
    assert(visible(t, show_hidden) == t.filter(f));
    assert(visible(kids.take(i), show_hidden) == kids.take(i).filter(f));
    assert(t.filter(f) == (if f(t.last()) {
        t.drop_last().filter(f).push(t.last())
    } else {
        t.drop_last().filter(f)
    }));
}

/// Position of the first node of `kids` named `name`, or `kids.len()`.
fn find_child(kids: &Vec<Arc<Node>>, name: &String) -> (r: usize)
    ensures
        r == child_index(kids@, name@),
{
    let n = kids.len();
    let mut i: usize = 0;
    while i < n
        invariant
            n == kids@.len(),
            i <= n,
            forall|j: int| 0 <= j < i ==> kids@[j].name@ != name@,
        decreases n - i,
    {
        if kids[i].name == *name {
            proof {
                lemma_child_index_at(kids@, name@, i as int);
            }
            return i;
        }
        i = i + 1;
    }
    proof {
        lemma_child_index_at(kids@, name@, n as int);
    }
    n
}

/// The children of `kids` listed under `show_hidden`, shared.
fn visible_of(kids: &Vec<Arc<Node>>, show_hidden: bool) -> (r: Vec<Arc<Node>>)
    ensures
        r@ == visible(kids@, show_hidden),
{
    let n = kids.len();
    let mut out: Vec<Arc<Node>> = Vec::new();
    let mut i: usize = 0;
    proof {
        assert(kids@.take(0) =~= Seq::<Arc<Node>>::empty());
    }
    while i < n
        invariant
            n == kids@.len(),
            i <= n,
            out@ == visible(kids@.take(i as int), show_hidden),
        decreases n - i,
    {
        proof {
            lemma_visible_step(kids@, show_hidden, i as int);
        }
        if show_hidden || !starts_with_char(kids[i].name.as_str(), '.') {
            out.push(share(&kids[i]));
        }
        i = i + 1;
    }
    proof {
        assert(kids@.take(n as int) =~= kids@);
    }
    out
}

impl Snapshot {
    /// Walk `path_names` from the root. Stops early if a name doesn't resolve
    /// (e.g. the path points into a subtree that hasn't been scanned yet).
    pub fn resolve<'a>(&'a self, path_names: &[String]) -> (r: &'a Node)
        ensures
            *r == resolve_path(*self.tree, views(path_names@)),
    {
        let ghost names = views(path_names@);
        let mut node: &Node = &self.tree;
        let n = path_names.len();
        let mut i: usize = 0;
        proof {
            assert(names.skip(0) =~= names);
        }
        while i < n
            invariant
                n == path_names@.len(),
                names == views(path_names@),
                i <= n,
                resolve_path(*self.tree, names) == resolve_path(*node, names.skip(i as int)),
            decreases n - i,
        {
            let k = find_child(&node.children, &path_names[i]);
            proof {
                assert(names.skip(i as int)[0] == path_names@[i as int]@);
                assert(names.skip(i as int).drop_first() =~= names.skip(i + 1));
            }
            if k < node.children.len() {
                node = &node.children[k];
            } else {
                return node;
            }
            i = i + 1;
        }
        proof {
            assert(names.skip(n as int) =~= Seq::<Seq<char>>::empty());
        }
        node
    }
}

/// Which way the selection moves.
#[derive(Clone, Copy, Debug, PartialEq, Eq, Structural)]
pub enum Dir {
    Left,
    Right,
    Up,
    Down,
}

/// A key press, as far as the explorer tells keys apart.
#[derive(Clone, Copy, Debug, PartialEq, Eq, Structural)]
pub enum Key {
    Char(char),
    Esc,
    Backspace,
    Enter,
    Left,
    Right,
    Up,
    Down,
    Tab,
    BackTab,
    Other,
}

/// What the event loop does after a key.
#[derive(Clone, Copy, Debug, PartialEq, Eq, Structural)]
pub enum Action {
    Continue,
    Exit,
}

/// Column of `r`'s left edge.
pub open spec fn left_edge(r: Rect) -> int {
    r.x as int
}

/// Column just past `r`'s right edge.
pub open spec fn right_edge(r: Rect) -> int {
    r.x + r.width
}

/// Row of `r`'s top edge.
pub open spec fn top_edge(r: Rect) -> int {
    r.y as int
}

/// Row just past `r`'s bottom edge.
pub open spec fn bottom_edge(r: Rect) -> int {
    r.y + r.height
}

/// `r` lies strictly on the `dir` side of `cur` (edges may touch).
pub open spec fn on_side(cur: Rect, r: Rect, dir: Dir) -> bool {
    match dir {
        Dir::Left => right_edge(r) <= left_edge(cur),
        Dir::Right => left_edge(r) >= right_edge(cur),
        Dir::Up => bottom_edge(r) <= top_edge(cur),
        Dir::Down => top_edge(r) >= bottom_edge(cur),
    }
}

/// Cell `i` of `layout` is a place to move to from cell `idx`.
pub open spec fn candidate(layout: Seq<Rect>, idx: int, dir: Dir, i: int) -> bool {
    &&& 0 <= i < layout.len()
    &&& i != idx
    &&& layout[i].width != 0
    &&& layout[i].height != 0
    &&& on_side(layout[idx], layout[i], dir)
}

/// How good a move from `cur` to `r` is, lower first: whether the two
/// overlap on the perpendicular axis (strictly, touching does not count;
/// 0 when they do), the gap along the primary axis, and the upper (for
/// Left/Right) or left (for Up/Down) edge.
pub open spec fn nav_key(cur: Rect, r: Rect, dir: Dir) -> (int, int, int) {
    let v_overlap = top_edge(cur) < bottom_edge(r) && top_edge(r) < bottom_edge(cur);
    let h_overlap = left_edge(cur) < right_edge(r) && left_edge(r) < right_edge(cur);
    match dir {
        Dir::Left => (
            if v_overlap {
                0
            } else {
                1
            },
            left_edge(cur) - right_edge(r),
            top_edge(r),
        ),
        Dir::Right => (
            if v_overlap {
                0
            } else {
                1
            },
            left_edge(r) - right_edge(cur),
            top_edge(r),
        ),
        Dir::Up => (
            if h_overlap {
                0
            } else {
                1
            },
            top_edge(cur) - bottom_edge(r),
            left_edge(r),
        ),
        Dir::Down => (
            if h_overlap {
                0
            } else {
                1
            },
            top_edge(r) - bottom_edge(cur),
            left_edge(r),
        ),
    }
}

/// Lexicographic order on keys.
pub open spec fn key_lt(a: (int, int, int), b: (int, int, int)) -> bool {
    a.0 < b.0 || (a.0 == b.0 && (a.1 < b.1 || (a.1 == b.1 && a.2 < b.2)))
}

/// Cell `i` is the move from cell `idx`: a candidate whose key is below
/// that of every candidate before it and not above that of any after it.
pub open spec fn is_pick(layout: Seq<Rect>, idx: int, dir: Dir, i: int) -> bool {
    &&& candidate(layout, idx, dir, i)
    &&& forall|j: int|
        #![trigger candidate(layout, idx, dir, j)]
        0 <= j < i && candidate(layout, idx, dir, j) ==> key_lt(
            nav_key(layout[idx], layout[i], dir),
            nav_key(layout[idx], layout[j], dir),
        )
    &&& forall|j: int|
        #![trigger candidate(layout, idx, dir, j)]
        i < j < layout.len() && candidate(layout, idx, dir, j) ==> !key_lt(
            nav_key(layout[idx], layout[j], dir),
            nav_key(layout[idx], layout[i], dir),
        )
}

/// The cell to move to from `idx`, if any.
pub open spec fn picked(layout: Seq<Rect>, idx: int, dir: Dir) -> Option<int> {
    if 0 <= idx < layout.len() && exists|i: int| is_pick(layout, idx, dir, i) {
        Some(choose|i: int| is_pick(layout, idx, dir, i))
    } else {
        None
    }
}

/// At most one cell is the move.
pub proof fn lemma_pick_unique(layout: Seq<Rect>, idx: int, dir: Dir, i: int, j: int)
    requires
        is_pick(layout, idx, dir, i),
        is_pick(layout, idx, dir, j),
    ensures
        i == j,
{
    if i < j {
        assert(candidate(layout, idx, dir, i));
        assert(candidate(layout, idx, dir, j));
    } else if j < i {
        assert(candidate(layout, idx, dir, i));
        assert(candidate(layout, idx, dir, j));
    }
}

/// Among the cells before `k`, some candidate is the best so far: its key
/// is below that of every candidate before it and not above that of any
/// candidate after it (up to `k`).
proof fn lemma_best_so_far(layout: Seq<Rect>, idx: int, dir: Dir, j: int, k: int) -> (i: int)
    requires
        0 <= j < k <= layout.len(),
        candidate(layout, idx, dir, j),
    ensures
        i < k,
        candidate(layout, idx, dir, i),
        forall|q: int|
            #![trigger candidate(layout, idx, dir, q)]
            0 <= q < i && candidate(layout, idx, dir, q) ==> key_lt(
                nav_key(layout[idx], layout[i], dir),
                nav_key(layout[idx], layout[q], dir),
            ),
        forall|q: int|
            #![trigger candidate(layout, idx, dir, q)]
            i < q < k && candidate(layout, idx, dir, q) ==> !key_lt(
                nav_key(layout[idx], layout[q], dir),
                nav_key(layout[idx], layout[i], dir),
            ),
    decreases k,
{
    let c = k - 1;
    if j == c {
        if exists|q: int| 0 <= q < c && candidate(layout, idx, dir, q) {
            let q0 = choose|q: int| 0 <= q < c && candidate(layout, idx, dir, q);
            lemma_best_with_last(layout, idx, dir, q0, k)
        } else {
            c
        }
    } else if candidate(layout, idx, dir, c) {
        lemma_best_with_last(layout, idx, dir, j, k)
    } else {
        lemma_best_so_far(layout, idx, dir, j, c)
    }
}

/// The best candidate before `k`, when the cell `k - 1` may be one and an
/// earlier cell `j` is one.
proof fn lemma_best_with_last(layout: Seq<Rect>, idx: int, dir: Dir, j: int, k: int) -> (i: int)
    requires
        0 <= j < k - 1,
        k <= layout.len(),
        candidate(layout, idx, dir, j),
    ensures
        i < k,
        candidate(layout, idx, dir, i),
        forall|q: int|
            #![trigger candidate(layout, idx, dir, q)]
            0 <= q < i && candidate(layout, idx, dir, q) ==> key_lt(
                nav_key(layout[idx], layout[i], dir),
                nav_key(layout[idx], layout[q], dir),
            ),
        forall|q: int|
            #![trigger candidate(layout, idx, dir, q)]
            i < q < k && candidate(layout, idx, dir, q) ==> !key_lt(
                nav_key(layout[idx], layout[q], dir),
                nav_key(layout[idx], layout[i], dir),
            ),
    decreases k, 0int,
{
    let c = k - 1;
    let b = lemma_best_so_far(layout, idx, dir, j, c);
    let kc = nav_key(layout[idx], layout[c], dir);
    let kb = nav_key(layout[idx], layout[b], dir);
    if candidate(layout, idx, dir, c) && key_lt(kc, kb) {
        assert forall|q: int|
            #![trigger candidate(layout, idx, dir, q)]
            0 <= q < c && candidate(layout, idx, dir, q) implies key_lt(
            kc,
            nav_key(layout[idx], layout[q], dir),
        ) by {
            if q < b {
                assert(key_lt(kb, nav_key(layout[idx], layout[q], dir)));
            } else if b < q {
                assert(!key_lt(nav_key(layout[idx], layout[q], dir), kb));
            }
        }
        c
    } else {
        b
    }
}

/// Whenever some cell lies to that side of the current one, there is a
/// move.
pub proof fn lemma_move_exists(layout: Seq<Rect>, idx: int, dir: Dir, j: int)
    requires
        0 <= idx < layout.len(),
        candidate(layout, idx, dir, j),
    ensures
        picked(layout, idx, dir) is Some,
{
    let i = lemma_best_so_far(layout, idx, dir, j, layout.len() as int);
    assert(is_pick(layout, idx, dir, i));
}

/// The move goes to a cell that overlaps the current one on the
/// perpendicular axis whenever some candidate does: a diagonal cell, which
/// only touches the current one at a corner, never beats an inline one.
pub proof fn lemma_pick_prefers_overlap(layout: Seq<Rect>, idx: int, dir: Dir, i: int, j: int)
    requires
        is_pick(layout, idx, dir, i),
        candidate(layout, idx, dir, j),
        nav_key(layout[idx], layout[j], dir).0 == 0,
    ensures
        nav_key(layout[idx], layout[i], dir).0 == 0,
{
    if j < i {
        assert(candidate(layout, idx, dir, j));
    } else if i < j {
        assert(candidate(layout, idx, dir, j));
    }
}

/// Pick the neighbour cell in `layout` nearest to `layout[idx]` in `dir`.
/// Candidates must lie strictly to that side (`r.right <= cur.left` for Left,
/// etc.). Among candidates we sort by, in order:
///   1. has STRICT perpendicular-axis overlap with the current cell
///      (touching at a single boundary does NOT count),
///   2. nearest along the primary axis,
///   3. uppermost (Left/Right) or leftmost (Up/Down) as a tiebreaker.
///
/// Strict overlap is what keeps diagonals from beating the inline
/// neighbour: in a perfectly-tiled treemap every diagonal cell touches
/// the current cell at exactly one boundary.
pub fn pick_neighbor(layout: &[Rect], idx: usize, dir: Dir) -> (r: Option<usize>)
    ensures
        match r {
            Some(i) => picked(layout@, idx as int, dir) == Some(i as int),
            None => picked(layout@, idx as int, dir) is None,
        },
{
    if idx >= layout.len() {
        return None;
    }
    let cur = layout[idx];
    let cur_l: i64 = cur.x as i64;
    let cur_r: i64 = cur_l + cur.width as i64;
    let cur_t: i64 = cur.y as i64;
    let cur_b: i64 = cur_t + cur.height as i64;
    let ghost lay = layout@;
    let ghost id = idx as int;
    let n = layout.len();
    let mut best: Option<(usize, i64, i64, i64)> = None;
    let mut i: usize = 0;
    while i < n
        invariant
            n == lay.len(),
            lay == layout@,
            id == idx,
            idx < n,
            i <= n,
            cur == lay[id],
            cur_l == left_edge(cur),
            cur_r == right_edge(cur),
            cur_t == top_edge(cur),
            cur_b == bottom_edge(cur),
            match best {
                None => forall|j: int|
                    #![trigger candidate(lay, id, dir, j)]
                    0 <= j < i ==> !candidate(lay, id, dir, j),
                Some((b, k0, k1, k2)) => {
                    &&& b < i
                    &&& candidate(lay, id, dir, b as int)
                    &&& (k0 as int, k1 as int, k2 as int) == nav_key(cur, lay[b as int], dir)
                    &&& forall|j: int|
                        #![trigger candidate(lay, id, dir, j)]
                        0 <= j < b && candidate(lay, id, dir, j) ==> key_lt(
                            nav_key(cur, lay[b as int], dir),
                            nav_key(cur, lay[j], dir),
                        )
                    &&& forall|j: int|
                        #![trigger candidate(lay, id, dir, j)]
                        b < j < i && candidate(lay, id, dir, j) ==> !key_lt(
                            nav_key(cur, lay[j], dir),
                            nav_key(cur, lay[b as int], dir),
                        )
                },
            },
        decreases n - i,
    {
        let r = layout[i];
        if i != idx && r.width != 0 && r.height != 0 {
            let cl: i64 = r.x as i64;
            let cr: i64 = cl + r.width as i64;
            let ct: i64 = r.y as i64;
            let cb: i64 = ct + r.height as i64;
            let v_overlap = cur_t < cb && ct < cur_b;
            let h_overlap = cur_l < cr && cl < cur_r;
            let side = match dir {
                Dir::Left => cr <= cur_l,
                Dir::Right => cl >= cur_r,
                Dir::Up => cb <= cur_t,
                Dir::Down => ct >= cur_b,
            };
            if side {
                let (k0, k1, k2): (i64, i64, i64) = match dir {
                    Dir::Left => (
                        if v_overlap {
                            0
                        } else {
                            1
                        },
                        cur_l - cr,
                        ct,
                    ),
                    Dir::Right => (
                        if v_overlap {
                            0
                        } else {
                            1
                        },
                        cl - cur_r,
                        ct,
                    ),
                    Dir::Up => (
                        if h_overlap {
                            0
                        } else {
                            1
                        },
                        cur_t - cb,
                        cl,
                    ),
                    Dir::Down => (
                        if h_overlap {
                            0
                        } else {
                            1
                        },
                        ct - cur_b,
                        cl,
                    ),
                };
                proof {
                    assert(candidate(lay, id, dir, i as int));
                    assert((k0 as int, k1 as int, k2 as int) == nav_key(cur, lay[i as int], dir));
                }
                let better = match best {
                    None => true,
                    Some((_, b0, b1, b2)) => k0 < b0 || (k0 == b0 && (k1 < b1 || (k1 == b1 && k2
                        < b2))),
                };
                if better {
                    best = Some((i, k0, k1, k2));
                }
            } else {
                proof {
                    assert(!candidate(lay, id, dir, i as int));
                }
            }
        } else {
            proof {
                assert(!candidate(lay, id, dir, i as int));
            }
        }
        i = i + 1;
    }
    match best {
        None => {
            proof {
                assert forall|j: int| !is_pick(lay, id, dir, j) by {
                    if is_pick(lay, id, dir, j) {
                        assert(candidate(lay, id, dir, j));
                    }
                }
            }
            None
        },
        Some((b, _, _, _)) => {
            proof {
                assert(is_pick(lay, id, dir, b as int));
                let c = choose|c: int| is_pick(lay, id, dir, c);
                lemma_pick_unique(lay, id, dir, b as int, c);
            }
            Some(b)
        },
    }
}

pub struct App {
    /// Child names from root down to the currently-zoomed directory.
    pub path_names: Vec<String>,
    /// Name of the selected child within the current directory.
    pub selected_name: Option<String>,
    /// Rects from the previous frame's layout (used by spatial nav in tile view).
    pub last_layout: Vec<Rect>,
    /// Names paired with `last_layout`, same order.
    pub last_order: Vec<String>,
    /// Selected cell's index within `last_layout` (set by the renderer).
    pub last_selected_idx: Option<usize>,
    pub view: ViewMode,
    /// Vertical scroll offset for the list view.
    pub list_offset: usize,
    /// Detected terminal theme; drives selected-tile shade direction.
    pub theme: Theme,
    /// How tile cell areas are scaled relative to byte sizes.
    pub scale_mode: ScaleMode,
    /// Whether dotfile children are visible. Hidden files are always
    /// *scanned* (so parent totals stay honest); this only affects render.
    /// Toggle with `H`.
    pub show_hidden: bool,
}

/// The directory the app is zoomed into, within `tree`.
pub open spec fn current_dir(a: App, tree: Node) -> Node {
    resolve_path(tree, views(a.path_names@))
}

/// The children of the current directory that are listed.
pub open spec fn listed(a: App, tree: Node) -> Seq<Arc<Node>> {
    visible(current_dir(a, tree).children@, a.show_hidden)
}

/// Position of the selection among `vis`, when it is there.
pub open spec fn selection_in(a: App, vis: Seq<Arc<Node>>) -> Option<int> {
    match a.selected_name {
        Some(s) => if child_index(vis, s@) < vis.len() {
            Some(child_index(vis, s@))
        } else {
            None
        },
        None => None,
    }
}

/// The view after `v` is toggled.
pub open spec fn other_view(v: ViewMode) -> ViewMode {
    match v {
        ViewMode::Tile => ViewMode::List,
        ViewMode::List => ViewMode::Tile,
    }
}

/// `b` is `a` zoomed out one level: the directory left becomes the
/// selection. At the root nothing changes.
pub open spec fn zoomed_out(a: App, b: App) -> bool {
    if a.path_names@.len() == 0 {
        b == a
    } else {
        &&& b.path_names@ == a.path_names@.drop_last()
        &&& b == App {
            path_names: b.path_names,
            selected_name: Some(a.path_names@.last()),
            list_offset: 0,
            ..a
        }
    }
}

/// `b` is `a` zoomed into the selected child, when that is a directory of
/// the current one; its first listed child becomes the selection.
pub open spec fn zoomed_in(a: App, b: App, tree: Node) -> bool {
    match a.selected_name {
        None => b == a,
        Some(sel) => {
            let cur = current_dir(a, tree);
            let k = child_index(cur.children@, sel@);
            if k < cur.children@.len() && cur.children@[k].is_dir {
                &&& b.path_names@ == a.path_names@.push(sel)
                &&& b == App {
                    path_names: b.path_names,
                    selected_name: first_name(visible(cur.children@[k].children@, a.show_hidden)),
                    list_offset: 0,
                    ..a
                }
            } else {
                b == a
            }
        },
    }
}

/// `b` is `a` with the selection moved `delta` places around the listed
/// children (from the first when the selection is not listed).
pub open spec fn cycled(a: App, b: App, tree: Node, delta: int) -> bool {
    let vis = listed(a, tree);
    let n = vis.len();
    if n == 0 {
        b == a
    } else {
        let cur = match selection_in(a, vis) {
            Some(k) => k,
            None => 0,
        };
        b == App { selected_name: Some(vis[(cur + delta) % (n as int)].name), ..a }
    }
}

/// `b` is `a` with the selection moved to the cell picked from the last
/// drawn layout in `dir`, if there is one.
pub open spec fn moved_spatially(a: App, b: App, dir: Dir) -> bool {
    match a.last_selected_idx {
        None => b == a,
        Some(idx) => if idx >= a.last_layout@.len() || idx >= a.last_order@.len() {
            b == a
        } else {
            match picked(a.last_layout@, idx as int, dir) {
                Some(i) => b == App { selected_name: Some(a.last_order@[i]), ..a },
                None => b == a,
            }
        },
    }
}

/// `b` is `a` after an arrow move: spatial in the tile view; in the list
/// view up and down step through the rows and left and right do nothing.
pub open spec fn moved(a: App, b: App, tree: Node, dir: Dir) -> bool {
    match a.view {
        ViewMode::Tile => moved_spatially(a, b, dir),
        ViewMode::List => match dir {
            Dir::Up => cycled(a, b, tree, -1),
            Dir::Down => cycled(a, b, tree, 1),
            _ => b == a,
        },
    }
}

/// `b` is `a` with dotfiles shown or hidden the other way round; a
/// selection that is no longer listed moves to the first listed child,
/// and the list scrolls back to the top.
pub open spec fn toggled_hidden(a: App, b: App, tree: Node) -> bool {
    let vis = visible(current_dir(a, tree).children@, !a.show_hidden);
    let still = match a.selected_name {
        Some(s) => child_index(vis, s@) < vis.len(),
        None => false,
    };
    b == App {
        show_hidden: !a.show_hidden,
        selected_name: if still {
            a.selected_name
        } else {
            first_name(vis)
        },
        list_offset: 0,
        ..a
    }
}

/// `b` and `r` are what `key` does to `a`, with `tree` the scanned tree.
pub open spec fn key_effect(a: App, b: App, key: Key, tree: Node, r: Action) -> bool {
    if key == Key::Char('q') {
        r == Action::Exit && b == a
    } else {
        &&& r == Action::Continue
        &&& match key {
            Key::Esc | Key::Backspace => zoomed_out(a, b),
            Key::Enter => zoomed_in(a, b, tree),
            Key::Left => moved(a, b, tree, Dir::Left),
            Key::Right => moved(a, b, tree, Dir::Right),
            Key::Up => moved(a, b, tree, Dir::Up),
            Key::Down => moved(a, b, tree, Dir::Down),
            Key::Tab => cycled(a, b, tree, 1),
            Key::BackTab => cycled(a, b, tree, -1),
            Key::Char(c) => if c == 'h' {
                moved(a, b, tree, Dir::Left)
            } else if c == 'l' {
                moved(a, b, tree, Dir::Right)
            } else if c == 'k' {
                moved(a, b, tree, Dir::Up)
            } else if c == 'j' {
                moved(a, b, tree, Dir::Down)
            } else if c == 'v' {
                b == App { view: other_view(a.view), ..a }
            } else if c == 's' {
                b == App { scale_mode: following_mode(a.scale_mode), ..a }
            } else if c == 'H' {
                toggled_hidden(a, b, tree)
            } else {
                b == a
            },
            Key::Other => b == a,
        }
    }
}

/// The direction an arrow key (or h, j, k, l) moves in.
pub open spec fn key_dir(key: Key) -> Option<Dir> {
    match key {
        Key::Left => Some(Dir::Left),
        Key::Right => Some(Dir::Right),
        Key::Up => Some(Dir::Up),
        Key::Down => Some(Dir::Down),
        Key::Char(c) => if c == 'h' {
            Some(Dir::Left)
        } else if c == 'l' {
            Some(Dir::Right)
        } else if c == 'k' {
            Some(Dir::Up)
        } else if c == 'j' {
            Some(Dir::Down)
        } else {
            None
        },
        _ => None,
    }
}

/// The direction `key` moves the selection in, if it is a move.
pub fn arrow_dir(key: Key) -> (r: Option<Dir>)
    ensures
        r == key_dir(key),
{
    match key {
        Key::Left => Some(Dir::Left),
        Key::Right => Some(Dir::Right),
        Key::Up => Some(Dir::Up),
        Key::Down => Some(Dir::Down),
        Key::Char(c) => {
            if c == 'h' {
                Some(Dir::Left)
            } else if c == 'l' {
                Some(Dir::Right)
            } else if c == 'k' {
                Some(Dir::Up)
            } else if c == 'j' {
                Some(Dir::Down)
            } else {
                None
            }
        },
        _ => None,
    }
}

/// A spatial move in `dir` lands on a cell the last layout has a name
/// for (the renderer records both from the same children).
pub open spec fn spatial_named(a: App, dir: Dir) -> bool {
    match a.last_selected_idx {
        Some(idx) => idx < a.last_layout@.len() && idx < a.last_order@.len() ==> match picked(
            a.last_layout@,
            idx as int,
            dir,
        ) {
            Some(i) => i < a.last_order@.len(),
            None => true,
        },
        None => true,
    }
}

/// `key` pressed in `a` moves, if at all, to a cell with a name.
pub open spec fn key_named(a: App, key: Key) -> bool {
    match key_dir(key) {
        Some(dir) => a.view == ViewMode::Tile ==> spatial_named(a, dir),
        None => true,
    }
}

impl App {
    pub fn new(theme: Theme, show_hidden: bool) -> (a: Self)
        ensures
            a.path_names@.len() == 0,
            a.selected_name is None,
            a.last_layout@.len() == 0,
            a.last_order@.len() == 0,
            a.last_selected_idx is None,
            a.view == ViewMode::Tile,
            a.list_offset == 0,
            a.theme == theme,
            a.scale_mode == ScaleMode::Log,
            a.show_hidden == show_hidden,
    {
        App {
            path_names: Vec::new(),
            selected_name: None,
            last_layout: Vec::new(),
            last_order: Vec::new(),
            last_selected_idx: None,
            view: ViewMode::Tile,
            list_offset: 0,
            theme,
            scale_mode: ScaleMode::Log,
            show_hidden,
        }
    }

    /// Children of `node` that should be displayed under the current
    /// `show_hidden` setting. Hidden files (`.foo`) are filtered out
    /// when `show_hidden` is false. The parent's `size` still includes
    /// them — only the rendered list shrinks.
    pub fn visible_children(&self, node: &Node) -> (r: Vec<Arc<Node>>)
        ensures
            r@ == visible(node.children@, self.show_hidden),
    {
        visible_of(&node.children, self.show_hidden)
    }

    /// Sum the sizes of children of `node` that are currently filtered out
    /// (dotfiles when `show_hidden` is false). Used by the title bar to
    /// surface "you're missing N bytes" honestly.
    pub fn hidden_bytes(&self, node: &Node) -> (r: u64)
        requires
            hidden_total(node.children@) <= u64::MAX,
        ensures
            r == (if self.show_hidden {
                0
            } else {
                hidden_total(node.children@)
            }),
    {
        if self.show_hidden {
            return 0;
        }
        let n = node.children.len();
        let mut total: u64 = 0;
        let mut i: usize = 0;
        proof {
            assert(node.children@.take(0) =~= Seq::<Arc<Node>>::empty());
        }
        while i < n
            invariant
                n == node.children@.len(),
                i <= n,
                total == hidden_total(node.children@.take(i as int)),
                hidden_total(node.children@) <= u64::MAX,
            decreases n - i,
        {
            proof {
                let t = node.children@.take(i + 1);
                assert(t.drop_last() =~= node.children@.take(i as int));
                assert(t.last() == node.children@[i as int]);
                lemma_hidden_total_prefix(node.children@, i + 1);
            }
            if starts_with_char(node.children[i].name.as_str(), '.') {
                total = total + node.children[i].size;
            }
            i = i + 1;
        }
        proof {
            assert(node.children@.take(n as int) =~= node.children@);
        }
        total
    }

    /// Takes the current state of a scan for drawing.
    pub fn snapshot(state: &ScanShared) -> (s: Snapshot)
        ensures
            s.tree == state.tree,
            s.current_path == state.current_path,
            s.done == state.done,
            s.started_at == state.started_at,
            s.finished_at == state.finished_at,
    {
        Snapshot {
            tree: share(&state.tree),
            files_scanned: state.files_scanned(),
            bytes_scanned: state.bytes_scanned(),
            unreadable: state.unreadable(),
            current_path: state.current_path.clone(),
            done: state.done,
            started_at: state.started_at,
            finished_at: state.finished_at,
        }
    }

    /// Index of `selected_name` within a slice of visible children.
    /// Returns `None` if nothing is selected or the selection isn't visible.
    pub fn selected_index(&self, visible: &Vec<Arc<Node>>) -> (r: Option<usize>)
        ensures
            match r {
                Some(i) => selection_in(*self, visible@) == Some(i as int),
                None => selection_in(*self, visible@) is None,
            },
    {
        match &self.selected_name {
            None => None,
            Some(name) => {
                let k = find_child(visible, name);
                if k < visible.len() {
                    Some(k)
                } else {
                    None
                }
            },
        }
    }

    /// What a key does: `q` exits; Esc or Backspace zooms out; Enter zooms
    /// into the selected directory; the arrows (or h, j, k, l) move the
    /// selection; Tab and BackTab step through the children; `v` switches
    /// between tiles and list; `s` picks the next scale; `H` shows or hides
    /// dotfiles. Anything else does nothing.
    pub fn handle_key(&mut self, key: Key, snap: &Snapshot) -> (r: Action)
        requires
            key_named(*old(self), key),
        ensures
            key_effect(*old(self), *final(self), key, *snap.tree, r),
    {
        if key == Key::Char('q') {
            return Action::Exit;
        }
        match key {
            // Esc never exits, not even at the root — only `q` does. At the
            // root, Esc is simply a no-op (zoom_out pops nothing).
            Key::Esc | Key::Backspace => self.zoom_out(),
            Key::Enter => self.zoom_in(snap),
            Key::Left => self.move_dir(Dir::Left, snap),
            Key::Right => self.move_dir(Dir::Right, snap),
            Key::Up => self.move_dir(Dir::Up, snap),
            Key::Down => self.move_dir(Dir::Down, snap),
            Key::Tab => self.cycle(1, snap),
            Key::BackTab => self.cycle(-1, snap),
            Key::Char(c) => {
                if c == 'h' {
                    self.move_dir(Dir::Left, snap);
                } else if c == 'l' {
                    self.move_dir(Dir::Right, snap);
                } else if c == 'k' {
                    self.move_dir(Dir::Up, snap);
                } else if c == 'j' {
                    self.move_dir(Dir::Down, snap);
                } else if c == 'v' {
                    self.toggle_view();
                } else if c == 's' {
                    self.scale_mode = self.scale_mode.next();
                } else if c == 'H' {
                    self.toggle_hidden(snap);
                }
            },
            Key::Other => {},
        }
        Action::Continue
    }

    fn toggle_hidden(&mut self, snap: &Snapshot)
        ensures
            toggled_hidden(*old(self), *final(self), *snap.tree),
    {
        let ghost a = *self;
        self.show_hidden = !self.show_hidden;
        // If the current selection is no longer visible, snap to the first
        // visible child so the user doesn't end up with an invisible cursor.
        let cur = snap.resolve(&self.path_names);
        let vis = visible_of(&cur.children, self.show_hidden);
        let still_visible = match &self.selected_name {
            Some(s) => find_child(&vis, s) < vis.len(),
            None => false,
        };
        if !still_visible {
            self.selected_name = if vis.len() > 0 {
                Some(vis[0].name.clone())
            } else {
                None
            };
        }
        self.list_offset = 0;
    }

    fn toggle_view(&mut self)
        ensures
            *final(self) == (App { view: other_view(old(self).view), ..*old(self) }),
    {
        self.view = match self.view {
            ViewMode::Tile => ViewMode::List,
            ViewMode::List => ViewMode::Tile,
        };
    }

    fn zoom_in(&mut self, snap: &Snapshot)
        ensures
            zoomed_in(*old(self), *final(self), *snap.tree),
    {
        let sel = match &self.selected_name {
            Some(n) => n.clone(),
            None => return ,
        };
        let cur = snap.resolve(&self.path_names);
        let k = find_child(&cur.children, &sel);
        if k >= cur.children.len() {
            return ;
        }
        let child: &Node = &cur.children[k];
        if !child.is_dir {
            return ;
        }
        // Pick the first *visible* child for the new selection so we don't
        // land on something the user has hidden.
        let inner_visible = visible_of(&child.children, self.show_hidden);
        let first_inner = if inner_visible.len() > 0 {
            Some(inner_visible[0].name.clone())
        } else {
            None
        };
        self.path_names.push(sel);
        self.selected_name = first_inner;
        self.list_offset = 0;
    }

    fn zoom_out(&mut self)
        ensures
            zoomed_out(*old(self), *final(self)),
    {
        if self.path_names.len() > 0 {
            let name = self.path_names.pop().unwrap();
            self.selected_name = Some(name);
            self.list_offset = 0;
        }
    }

    fn cycle(&mut self, delta: i32, snap: &Snapshot)
        requires
            delta == 1 || delta == -1,
        ensures
            cycled(*old(self), *final(self), *snap.tree, delta as int),
    {
        let cur = snap.resolve(&self.path_names);
        let visible = visible_of(&cur.children, self.show_hidden);
        let n = visible.len();
        if n == 0 {
            return ;
        }
        let cur_idx = match self.selected_index(&visible) {
            Some(i) => i,
            None => 0,
        };
        let new = if delta > 0 {
            if cur_idx + 1 == n {
                0
            } else {
                cur_idx + 1
            }
        } else {
            if cur_idx == 0 {
                n - 1
            } else {
                cur_idx - 1
            }
        };
        proof {
            let c = cur_idx as int;
            let m = n as int;
            if delta > 0 {
                if c + 1 == m {
                    vstd::arithmetic::div_mod::lemma_mod_self_0(m);
                } else {
                    vstd::arithmetic::div_mod::lemma_small_mod((c + 1) as nat, m as nat);
                }
            } else {
                if c == 0 {
                    vstd::arithmetic::div_mod::lemma_mod_add_multiples_vanish(-1, m);
                    vstd::arithmetic::div_mod::lemma_small_mod((m - 1) as nat, m as nat);
                } else {
                    vstd::arithmetic::div_mod::lemma_small_mod((c - 1) as nat, m as nat);
                }
            }
            assert(new as int == (c + delta) % m);
        }
        self.selected_name = Some(visible[new].name.clone());
    }

    fn move_dir(&mut self, dir: Dir, snap: &Snapshot)
        requires
            old(self).view == ViewMode::Tile ==> spatial_named(*old(self), dir),
        ensures
            moved(*old(self), *final(self), *snap.tree, dir),
    {
        match self.view {
            ViewMode::Tile => self.move_dir_spatial(dir),
            ViewMode::List => self.move_dir_list(dir, snap),
        }
    }

    fn move_dir_list(&mut self, dir: Dir, snap: &Snapshot)
        ensures
            match dir {
                Dir::Up => cycled(*old(self), *final(self), *snap.tree, -1),
                Dir::Down => cycled(*old(self), *final(self), *snap.tree, 1),
                _ => *final(self) == *old(self),
            },
    {
        match dir {
            Dir::Up => self.cycle(-1, snap),
            Dir::Down => self.cycle(1, snap),
            _ => {},
        }
    }

    /// Spatial navigation. See `pick_neighbor` for the scoring rules.
    fn move_dir_spatial(&mut self, dir: Dir)
        requires
            spatial_named(*old(self), dir),
        ensures
            moved_spatially(*old(self), *final(self), dir),
    {
        let idx = match self.last_selected_idx {
            Some(i) => i,
            None => return ,
        };
        if idx >= self.last_layout.len() || idx >= self.last_order.len() {
            return ;
        }
        match pick_neighbor(self.last_layout.as_slice(), idx, dir) {
            Some(i) => {
                self.selected_name = Some(self.last_order[i].clone());
            },
            None => {},
        }
    }

    /// Absolute path of the currently-zoomed directory.
    pub fn current_path(&self, snap: &Snapshot) -> (r: String)
        ensures
            r == current_dir(*self, *snap.tree).path,
    {
        snap.resolve(&self.path_names).path.clone()
    }
}

proof fn lemma_hidden_total_prefix(kids: Seq<Arc<Node>>, i: int)
    requires
        0 <= i <= kids.len(),
    ensures
        0 <= hidden_total(kids.take(i)) <= hidden_total(kids),
    decreases kids.len() - i,
{
    lemma_hidden_total_nonneg(kids.take(i));
    if i < kids.len() {
        lemma_hidden_total_prefix(kids, i + 1);
        let t = kids.take(i + 1);
        assert(t.drop_last() =~= kids.take(i));
        assert(hidden_total(t) == hidden_total(t.drop_last()) + if is_hidden_name(t.last().name@) {
            t.last().size as int
        } else {
            0
        });
    } else {
        assert(kids.take(i) =~= kids);
        lemma_hidden_total_nonneg(kids);
    }
}

proof fn lemma_hidden_total_nonneg(kids: Seq<Arc<Node>>)
    ensures
        hidden_total(kids) >= 0,
    decreases kids.len(),
{
    if kids.len() > 0 {
        lemma_hidden_total_nonneg(kids.drop_last());
    }
}

/// Zooming out right after zooming into a directory comes back to where
/// the zoom started, with the directory selected again.
pub proof fn lemma_zoom_out_undoes_zoom_in(a: App, b: App, c: App, tree: Node)
    requires
        zoomed_in(a, b, tree),
        b.path_names@.len() > a.path_names@.len(),
        zoomed_out(b, c),
    ensures
        c.path_names@ == a.path_names@,
        c == (App { path_names: c.path_names, list_offset: 0, ..a }),
{
    assert(b.path_names@.drop_last() =~= a.path_names@);
}

/// Pressing `v` twice gives back the same state.
pub proof fn lemma_view_toggle_twice(a: App, b: App, c: App, tree: Node, r1: Action, r2: Action)
    requires
        key_effect(a, b, Key::Char('v'), tree, r1),
        key_effect(b, c, Key::Char('v'), tree, r2),
    ensures
        c == a,
{
}

/// Pressing `s` three times gives back the same state.
pub proof fn lemma_scale_cycle_returns(
    a: App,
    b: App,
    c: App,
    d: App,
    tree: Node,
    r1: Action,
    r2: Action,
    r3: Action,
)
    requires
        key_effect(a, b, Key::Char('s'), tree, r1),
        key_effect(b, c, Key::Char('s'), tree, r2),
        key_effect(c, d, Key::Char('s'), tree, r3),
    ensures
        d == a,
{
}

/// After dotfiles are shown or hidden, the selection is one of the listed
/// children (or there is none): the cursor never ends up invisible.
pub proof fn lemma_toggle_hidden_keeps_selection_listed(a: App, b: App, tree: Node)
    requires
        toggled_hidden(a, b, tree),
    ensures
        b.selected_name is Some ==> selection_in(b, listed(b, tree)) is Some,
        b.selected_name is None ==> listed(b, tree).len() == 0,
{
    let vis = listed(b, tree);
    assert(current_dir(b, tree) == current_dir(a, tree));
    lemma_child_index_bounds(vis, b.selected_name->0@);
    if b.selected_name != a.selected_name || a.selected_name is None {
        if vis.len() > 0 {
            lemma_child_index_at(vis, vis[0].name@, 0);
        }
    }
}

/// Stepping through the children (Tab, or up and down in the list) lands
/// on a listed child whenever there is one.
pub proof fn lemma_cycle_selects_listed(a: App, b: App, tree: Node, delta: int)
    requires
        cycled(a, b, tree, delta),
        listed(a, tree).len() > 0,
    ensures
        selection_in(b, listed(b, tree)) is Some,
{
    let vis = listed(a, tree);
    let n = vis.len() as int;
    let cur = match selection_in(a, vis) {
        Some(k) => k,
        None => 0,
    };
    let k = (cur + delta) % n;
    assert(0 <= k < n);
    lemma_child_index_bounds(vis, vis[k].name@);
    if child_index(vis, vis[k].name@) > k {
        assert(vis[k].name@ != vis[k].name@);
    }
}

/// Pressing `q` exits and changes nothing; no other key exits.
pub proof fn lemma_only_q_exits(a: App, b: App, key: Key, tree: Node, r: Action)
    requires
        key_effect(a, b, key, tree, r),
    ensures
        (r == Action::Exit) == (key == Key::Char('q')),
        r == Action::Exit ==> b == a,
{
}

/// Hiding dotfiles only shrinks the list, never the totals: a directory's
/// children add up to the listed children's sizes plus the hidden bytes
/// the title reports.
pub proof fn lemma_hidden_bytes_are_accounted(kids: Seq<Arc<Node>>)
    ensures
        sizes_sum(kids) == sizes_sum(visible(kids, false)) + hidden_total(kids),
    decreases kids.len(),
{
    if kids.len() > 0 {
        let init = kids.drop_last();
        let last = kids.last();
        lemma_hidden_bytes_are_accounted(init);
        assert(init + seq![last] =~= kids);
        lemma_sizes_sum_concat(init, seq![last]);
        assert(seq![last].drop_first() =~= Seq::<Arc<Node>>::empty());
        assert(sizes_sum(Seq::<Arc<Node>>::empty()) == 0);
        assert(seq![last][0] == last);
        assert(sizes_sum(seq![last]) == last.size);
        let f = |c: Arc<Node>| shown(c, false);
        reveal(Seq::filter);
        assert(visible(kids, false) == kids.filter(f));
        assert(visible(init, false) == init.filter(f));
        if shown(last, false) {
            assert(visible(kids, false) == visible(init, false).push(last));
            assert(visible(init, false).push(last) =~= visible(init, false) + seq![last]);
            lemma_sizes_sum_concat(visible(init, false), seq![last]);
        } else {
            assert(visible(kids, false) == visible(init, false));
        }
    } else {
        reveal(Seq::filter);
        assert(visible(kids, false) == kids.filter(|c: Arc<Node>| shown(c, false)));
    }
}

/// Every child is listed when hidden ones are shown.
proof fn lemma_all_shown(kids: Seq<Arc<Node>>)
    ensures
        visible(kids, true) == kids,
    decreases kids.len(),
{
    reveal(Seq::filter);
    if kids.len() > 0 {
        lemma_all_shown(kids.drop_last());
        assert(kids.drop_last().push(kids.last()) =~= kids);
        assert(visible(kids, true) == kids.filter(|c: Arc<Node>| shown(c, true)));
        assert(visible(kids.drop_last(), true) == kids.drop_last().filter(
            |c: Arc<Node>| shown(c, true),
        ));
    } else {
        assert(visible(kids, true) == kids.filter(|c: Arc<Node>| shown(c, true)));
    }
}

/// The bytes reported hidden and the sizes of the listed children make up
/// the parent's size, which still counts its hidden children.
pub proof fn lemma_hidden_plus_listed(node: Node, show_hidden: bool)
    requires
        node.size == sizes_sum(node.children@),
    ensures
        (if show_hidden {
            0
        } else {
            hidden_total(node.children@)
        }) + sizes_sum(visible(node.children@, show_hidden)) == node.size,
{
    if show_hidden {
        lemma_all_shown(node.children@);
    } else {
        lemma_hidden_bytes_are_accounted(node.children@);
    }
}

/// `x % n` for `x` one step outside `0..n` or inside it.
proof fn lemma_wrap(x: int, n: int)
    requires
        n > 0,
        -1 <= x <= n,
    ensures
        x % n == (if x == n {
            0
        } else if x == -1 {
            n - 1
        } else {
            x
        }),
{
    if x == n {
        vstd::arithmetic::div_mod::lemma_fundamental_div_mod_converse(x, n, 1, 0);
    } else if x == -1 {
        vstd::arithmetic::div_mod::lemma_fundamental_div_mod_converse(x, n, -1, n - 1);
    } else {
        vstd::arithmetic::div_mod::lemma_fundamental_div_mod_converse(x, n, 0, x);
    }
}

/// Stepping forward (Tab, or down with `j` or the arrow in the list view)
/// selects the child listed right after the selected one, wrapping round
/// from the last to the first; nothing else changes.
pub proof fn lemma_step_forward(a: App, b: App, key: Key, tree: Node, r: Action, k: int)
    requires
        key == Key::Tab || (a.view == ViewMode::List && (key == Key::Down || key == Key::Char('j'))),
        key_effect(a, b, key, tree, r),
        0 <= k < listed(a, tree).len(),
        a.selected_name is Some,
        a.selected_name->0@ == listed(a, tree)[k].name@,
        forall|i: int| 0 <= i < k ==> listed(a, tree)[i].name@ != listed(a, tree)[k].name@,
    ensures
        r == Action::Continue,
        b.selected_name == Some(
            listed(a, tree)[if k + 1 == listed(a, tree).len() {
                0
            } else {
                k + 1
            }].name,
        ),
        b == (App { selected_name: b.selected_name, ..a }),
{
    let vis = listed(a, tree);
    lemma_child_index_at(vis, a.selected_name->0@, k);
    assert(cycled(a, b, tree, 1));
    lemma_wrap(k + 1, vis.len() as int);
}

/// Stepping back (BackTab, or up with `k` or the arrow in the list view)
/// selects the child listed right before the selected one, wrapping round
/// from the first to the last; nothing else changes.
pub proof fn lemma_step_back(a: App, b: App, key: Key, tree: Node, r: Action, k: int)
    requires
        key == Key::BackTab || (a.view == ViewMode::List && (key == Key::Up || key == Key::Char(
            'k',
        ))),
        key_effect(a, b, key, tree, r),
        0 <= k < listed(a, tree).len(),
        a.selected_name is Some,
        a.selected_name->0@ == listed(a, tree)[k].name@,
        forall|i: int| 0 <= i < k ==> listed(a, tree)[i].name@ != listed(a, tree)[k].name@,
    ensures
        r == Action::Continue,
        b.selected_name == Some(
            listed(a, tree)[if k == 0 {
                listed(a, tree).len() - 1
            } else {
                k - 1
            }].name,
        ),
        b == (App { selected_name: b.selected_name, ..a }),
{
    let vis = listed(a, tree);
    lemma_child_index_at(vis, a.selected_name->0@, k);
    assert(cycled(a, b, tree, -1));
    lemma_wrap(k - 1, vis.len() as int);
}

/// Stepping from a selection that is not listed starts from the first
/// listed child: forward lands on the second (the first when it is alone),
/// back on the last.
pub proof fn lemma_step_from_unlisted(a: App, b: App, key: Key, tree: Node, r: Action)
    requires
        key == Key::Tab || key == Key::BackTab,
        key_effect(a, b, key, tree, r),
        listed(a, tree).len() > 0,
        forall|i: int|
            0 <= i < listed(a, tree).len() ==> a.selected_name != Some(listed(a, tree)[i].name)
                && (a.selected_name is Some ==> a.selected_name->0@ != listed(a, tree)[i].name@),
    ensures
        b.selected_name == Some(
            listed(a, tree)[if key == Key::BackTab {
                listed(a, tree).len() - 1
            } else if listed(a, tree).len() == 1 {
                0
            } else {
                1
            }].name,
        ),
        b == (App { selected_name: b.selected_name, ..a }),
{
    let vis = listed(a, tree);
    let n = vis.len() as int;
    if a.selected_name is Some {
        lemma_child_index_bounds(vis, a.selected_name->0@);
    }
    assert(selection_in(a, vis) is None);
    if key == Key::Tab {
        lemma_wrap(1, n);
    } else {
        lemma_wrap(-1, n);
    }
}

/// Showing or hiding dotfiles flips the setting and scrolls the list back
/// to the top; a selected child that is listed under the new setting (a
/// child of the current directory whose name is not a dotfile's, or any
/// child once dotfiles are shown) stays selected.
pub proof fn lemma_toggle_keeps_listed_selection(a: App, b: App, tree: Node, r: Action, i: int)
    requires
        key_effect(a, b, Key::Char('H'), tree, r),
        a.selected_name is Some,
        0 <= i < current_dir(a, tree).children@.len(),
        current_dir(a, tree).children@[i].name@ == a.selected_name->0@,
        !a.show_hidden || !is_hidden_name(a.selected_name->0@),
    ensures
        b.show_hidden == !a.show_hidden,
        b.selected_name == a.selected_name,
        b == (App { show_hidden: !a.show_hidden, list_offset: 0, ..a }),
{
    let kids = current_dir(a, tree).children@;
    let f = |c: Arc<Node>| shown(c, !a.show_hidden);
    let vis = visible(kids, !a.show_hidden);
    assert(vis == kids.filter(f));
    assert(f(kids[i]));
    kids.lemma_filter_contains(f, i);
    let q = choose|q: int| 0 <= q < vis.len() && vis[q] == kids[i];
    lemma_child_index_bounds(vis, a.selected_name->0@);
    assert(toggled_hidden(a, b, tree));
}

/// Showing or hiding dotfiles moves a selection that is no longer listed
/// to the first child listed under the new setting (none when there is
/// none).
pub proof fn lemma_toggle_moves_unlisted_selection(a: App, b: App, tree: Node, r: Action)
    requires
        key_effect(a, b, Key::Char('H'), tree, r),
        forall|i: int|
            0 <= i < current_dir(a, tree).children@.len() && a.selected_name is Some
                && #[trigger] current_dir(a, tree).children@[i].name@ == a.selected_name->0@
                ==> a.show_hidden && is_hidden_name(a.selected_name->0@),
    ensures
        b.show_hidden == !a.show_hidden,
        b.selected_name == first_name(visible(current_dir(a, tree).children@, !a.show_hidden)),
        b == (App { show_hidden: !a.show_hidden, selected_name: b.selected_name, list_offset: 0, ..a }),
{
    let kids = current_dir(a, tree).children@;
    let f = |c: Arc<Node>| shown(c, !a.show_hidden);
    let vis = visible(kids, !a.show_hidden);
    assert(vis == kids.filter(f));
    assert(toggled_hidden(a, b, tree));
    if a.selected_name is Some {
        let nm = a.selected_name->0@;
        lemma_child_index_bounds(vis, nm);
        if child_index(vis, nm) < vis.len() {
            let c = vis[child_index(vis, nm)];
            kids.lemma_filter_contains_rev(f, c);
            assert(vis.contains(c));
            let i = choose|i: int| 0 <= i < kids.len() && kids[i] == c;
            assert(kids[i].name@ == nm);
            assert(f(c));
        }
    }
}

/// Perpendicular overlap of `r` with `cur` for a move in `dir`: rows in
/// common (strictly) for a move left or right, columns for up or down.
pub open spec fn lines_up(cur: Rect, r: Rect, dir: Dir) -> bool {
    match dir {
        Dir::Left | Dir::Right => cur.y < r.y + r.height && r.y < cur.y + cur.height,
        Dir::Up | Dir::Down => cur.x < r.x + r.width && r.x < cur.x + cur.width,
    }
}

/// How far `r` lies from `cur` along a move in `dir`.
pub open spec fn distance(cur: Rect, r: Rect, dir: Dir) -> int {
    match dir {
        Dir::Left => cur.x - (r.x + r.width),
        Dir::Right => r.x - (cur.x + cur.width),
        Dir::Up => cur.y - (r.y + r.height),
        Dir::Down => r.y - (cur.y + cur.height),
    }
}

/// Where `r` sits across a move in `dir`: its top for left or right, its
/// left for up or down.
pub open spec fn across(r: Rect, dir: Dir) -> int {
    match dir {
        Dir::Left | Dir::Right => r.y as int,
        Dir::Up | Dir::Down => r.x as int,
    }
}

/// `r2` is a better move than `r1`: it lines up with the current cell and
/// `r1` does not; or both line up or neither does and `r2` is nearer; or
/// as near, and it sits further up (left or right moves) or further left
/// (up or down moves).
pub open spec fn better_move(cur: Rect, r2: Rect, r1: Rect, dir: Dir) -> bool {
    ||| lines_up(cur, r2, dir) && !lines_up(cur, r1, dir)
    ||| lines_up(cur, r2, dir) == lines_up(cur, r1, dir) && (distance(cur, r2, dir) < distance(
        cur,
        r1,
        dir,
    ) || (distance(cur, r2, dir) == distance(cur, r1, dir) && across(r2, dir) < across(r1, dir)))
}

/// The move never lands on a cell when a better one lies on that side: a
/// cell lined up with the current one beats one that is not, then the
/// nearer beats the farther, then the upper (or left) the lower (or right).
pub proof fn lemma_pick_is_best(layout: Seq<Rect>, idx: int, dir: Dir, i: int, j: int)
    requires
        0 <= idx < layout.len(),
        candidate(layout, idx, dir, j),
        better_move(layout[idx], layout[j], layout[i], dir),
    ensures
        picked(layout, idx, dir) != Some(i),
{
    let cur = layout[idx];
    let kj = nav_key(cur, layout[j], dir);
    let ki = nav_key(cur, layout[i], dir);
    assert(key_lt(kj, ki));
    if picked(layout, idx, dir) == Some(i) {
        assert(exists|q: int| is_pick(layout, idx, dir, q));
        assert(is_pick(layout, idx, dir, i));
        if j < i {
            assert(key_lt(ki, kj));
        } else if i < j {
            assert(!key_lt(kj, ki));
        }
    }
}

/// `v` switches to the other view, tiles to list and list to tiles, and
/// changes nothing else.
pub proof fn lemma_v_switches_view(a: App, b: App, tree: Node, r: Action)
    requires
        key_effect(a, b, Key::Char('v'), tree, r),
    ensures
        r == Action::Continue,
        b.view != a.view,
        a.view == ViewMode::Tile ==> b.view == ViewMode::List,
        a.view == ViewMode::List ==> b.view == ViewMode::Tile,
        b == (App { view: b.view, ..a }),
{
}

/// `s` steps the scale from linear to logarithmic to square root and back
/// to linear, and changes nothing else.
pub proof fn lemma_s_steps_scale(a: App, b: App, tree: Node, r: Action)
    requires
        key_effect(a, b, Key::Char('s'), tree, r),
    ensures
        r == Action::Continue,
        a.scale_mode == ScaleMode::Linear ==> b.scale_mode == ScaleMode::Log,
        a.scale_mode == ScaleMode::Log ==> b.scale_mode == ScaleMode::Sqrt,
        a.scale_mode == ScaleMode::Sqrt ==> b.scale_mode == ScaleMode::Linear,
        b == (App { scale_mode: b.scale_mode, ..a }),
{
}

/// A move lands on another cell with some area that lies wholly on the
/// side moved to: left of the current cell's left edge for a move left,
/// right of its right edge for a move right, above its top for up, below
/// its bottom for down (edges may touch).
pub proof fn lemma_pick_lies_on_side(layout: Seq<Rect>, idx: int, dir: Dir, i: int)
    requires
        picked(layout, idx, dir) == Some(i),
    ensures
        0 <= i < layout.len(),
        i != idx,
        layout[i].width > 0,
        layout[i].height > 0,
        dir == Dir::Left ==> layout[i].x + layout[i].width <= layout[idx].x,
        dir == Dir::Right ==> layout[i].x >= layout[idx].x + layout[idx].width,
        dir == Dir::Up ==> layout[i].y + layout[i].height <= layout[idx].y,
        dir == Dir::Down ==> layout[i].y >= layout[idx].y + layout[idx].height,
{
    assert(exists|q: int| is_pick(layout, idx, dir, q));
    assert(is_pick(layout, idx, dir, i));
}

} // verus!
