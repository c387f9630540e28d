//! Unix path strings, taken apart the way `std::path` does it: a leading
//! `/` is the root, a leading `.` followed by `/` (or alone) is the current
//! directory, and the rest splits at `/` into components, skipping empty
//! and `.` ones.
use crate::text::chars_of;
use vstd::prelude::*;

verus! {

/// Length of the part before the body: the root `/`, or a leading `.`
/// that stands for the current directory.
pub open spec fn prefix_len(p: Seq<char>) -> int {
    if p.len() > 0 && p[0] == '/' {
        1
    } else if p.len() > 0 && p[0] == '.' && (p.len() == 1 || p[1] == '/') {
        1
    } else {
        0
    }
}

/// The path starts with the current-directory component.
pub open spec fn starts_at_cur_dir(p: Seq<char>) -> bool {
    p.len() > 0 && p[0] == '.' && (p.len() == 1 || p[1] == '/')
}

/// Index of the last `/` in `p[lo..hi]`, or -1.
pub open spec fn last_sep(p: Seq<char>, lo: int, hi: int) -> int
    decreases hi - lo,
{
    if hi <= lo {
        -1
    } else if p[hi - 1] == '/' {
        hi - 1
    } else {
        last_sep(p, lo, hi - 1)
    }
}

/// Start of the last segment of the body of `p[..hi]`.
pub open spec fn seg_start(p: Seq<char>, pre: int, hi: int) -> int {
    let k = last_sep(p, pre, hi);
    if k >= 0 {
        k + 1
    } else {
        pre
    }
}

/// End of what remains of `p[..hi]` once its last segment (and the `/`
/// before it) is taken off.
pub open spec fn seg_cut(p: Seq<char>, pre: int, hi: int) -> int {
    let k = last_sep(p, pre, hi);
    if k >= 0 {
        k
    } else {
        pre
    }
}

/// `p[a..b]` is empty or `.`: no component.
pub open spec fn is_blank(p: Seq<char>, a: int, b: int) -> bool {
    b == a || (b == a + 1 && p[a] == '.')
}

/// `p[..hi]` with trailing empty and `.` segments taken off.
pub open spec fn trim_end(p: Seq<char>, pre: int, hi: int) -> int
    decreases hi,
{
    if hi <= pre || hi <= 0 || pre < 0 {
        hi
    } else if is_blank(p, seg_start(p, pre, hi), hi) {
        proof {
            lemma_last_sep_below(p, pre, hi);
        }
        trim_end(p, pre, seg_cut(p, pre, hi))
    } else {
        hi
    }
}

/// The final component of `p` when it is a name (not `..`, the root or the
/// current directory).
pub open spec fn spec_file_name(p: Seq<char>) -> Option<Seq<char>> {
    let pre = prefix_len(p);
    let hi = trim_end(p, pre, p.len() as int);
    if hi > pre {
        let seg = p.subrange(seg_start(p, pre, hi), hi);
        if seg == seq!['.', '.'] {
            None
        } else {
            Some(seg)
        }
    } else {
        None
    }
}

/// `p` without its final component; `None` when `p` is empty or ends in
/// the root.
pub open spec fn spec_parent(p: Seq<char>) -> Option<Seq<char>> {
    let pre = prefix_len(p);
    let hi = trim_end(p, pre, p.len() as int);
    if hi > pre {
        Some(p.subrange(0, trim_end(p, pre, seg_cut(p, pre, hi))))
    } else if starts_at_cur_dir(p) {
        Some(Seq::empty())
    } else {
        None
    }
}

/// Number of components of `p[..hi]`'s body.
pub open spec fn body_components(p: Seq<char>, pre: int, hi: int) -> int
    decreases hi,
{
    if hi <= pre || hi <= 0 || pre < 0 {
        0
    } else {
        proof {
            lemma_last_sep_below(p, pre, hi);
        }
        body_components(p, pre, seg_cut(p, pre, hi)) + if is_blank(
            p,
            seg_start(p, pre, hi),
            hi,
        ) {
            0int
        } else {
            1
        }
    }
}

/// Number of components of `p`, the root or the current directory included.
pub open spec fn spec_depth(p: Seq<char>) -> int {
    prefix_len(p) + body_components(p, prefix_len(p), p.len() as int)
}

/// The name a path shows: its final component, or the whole path when it
/// has no final name.
pub open spec fn spec_leaf_name(p: Seq<char>) -> Seq<char> {
    match spec_file_name(p) {
        Some(n) => n,
        None => p,
    }
}

/// No two of the paths share both their parent and their final name.
/// (Distinct paths alone do not ensure it: `/d/a` and `/d/a/` are distinct
/// paths with the same parent and the same name.)
pub open spec fn names_apart(ps: Seq<Seq<char>>) -> bool {
    forall|i: int, j: int|
        0 <= i < ps.len() && 0 <= j < ps.len() && i != j && spec_parent(#[trigger] ps[i]) is Some
            && spec_parent(ps[i]) == spec_parent(#[trigger] ps[j]) ==> spec_leaf_name(ps[i])
            != spec_leaf_name(ps[j])
}

pub proof fn lemma_last_sep_below(p: Seq<char>, lo: int, hi: int)
    requires
        0 <= lo < hi,
    ensures
        -1 <= last_sep(p, lo, hi) < hi,
        last_sep(p, lo, hi) == -1 || lo <= last_sep(p, lo, hi),
    decreases hi - lo,
{
    if p[hi - 1] != '/' {
        if hi - 1 > lo {
            lemma_last_sep_below(p, lo, hi - 1);
        } else {
            assert(last_sep(p, lo, hi - 1) == -1);
        }
    }
}

proof fn lemma_last_sep(p: Seq<char>, lo: int, hi: int)
    requires
        0 <= lo,
        hi <= p.len(),
    ensures
        last_sep(p, lo, hi) == -1 || (lo <= last_sep(p, lo, hi) < hi && p[last_sep(p, lo, hi)]
            == '/'),
    decreases hi - lo,
{
    if hi > lo && p[hi - 1] != '/' {
        lemma_last_sep(p, lo, hi - 1);
    }
}

proof fn lemma_trim_end(p: Seq<char>, pre: int, hi: int)
    requires
        0 <= pre <= hi <= p.len(),
    ensures
        pre <= trim_end(p, pre, hi) <= hi,
    decreases hi,
{
    if hi > pre && hi > 0 {
        lemma_last_sep(p, pre, hi);
        if is_blank(p, seg_start(p, pre, hi), hi) {
            lemma_trim_end(p, pre, seg_cut(p, pre, hi));
        }
    }
}

/// Only the characters below `h` matter to the segment functions on `p[..h]`.
proof fn lemma_agree(c: Seq<char>, q: Seq<char>, pre: int, h: int)
    requires
        0 <= pre <= h <= c.len(),
        h <= q.len(),
        forall|i: int| 0 <= i < h ==> q[i] == c[i],
    ensures
        last_sep(q, pre, h) == last_sep(c, pre, h),
        trim_end(q, pre, h) == trim_end(c, pre, h),
        body_components(q, pre, h) == body_components(c, pre, h),
    decreases h,
{
    lemma_agree_sep(c, q, pre, h);
    if h > pre && h > 0 {
        lemma_last_sep_below(c, pre, h);
        let a = seg_start(c, pre, h);
        let cut = seg_cut(c, pre, h);
        assert(is_blank(q, a, h) == is_blank(c, a, h));
        lemma_agree(c, q, pre, cut);
    }
}

proof fn lemma_agree_sep(c: Seq<char>, q: Seq<char>, lo: int, h: int)
    requires
        0 <= lo,
        h <= c.len(),
        h <= q.len(),
        forall|i: int| 0 <= i < h ==> q[i] == c[i],
    ensures
        last_sep(q, lo, h) == last_sep(c, lo, h),
    decreases h - lo,
{
    if h > lo {
        lemma_agree_sep(c, q, lo, h - 1);
    }
}

/// Taking blank segments off the end does not change the count.
proof fn lemma_trim_body(c: Seq<char>, pre: int, h: int)
    requires
        0 <= pre <= h <= c.len(),
    ensures
        body_components(c, pre, h) == body_components(c, pre, trim_end(c, pre, h)),
    decreases h,
{
    if h > pre && h > 0 {
        lemma_last_sep_below(c, pre, h);
        if is_blank(c, seg_start(c, pre, h), h) {
            lemma_trim_body(c, pre, seg_cut(c, pre, h));
        }
    }
}

/// Trimming stops at the start, at the body's start, or at a `/`.
proof fn lemma_trim_lands(c: Seq<char>, pre: int, h: int)
    requires
        0 <= pre <= h <= c.len(),
    ensures
        trim_end(c, pre, h) == h || trim_end(c, pre, h) <= pre || c[trim_end(c, pre, h)] == '/',
        trim_end(c, pre, h) <= h,
        trim_end(c, pre, h) >= pre || trim_end(c, pre, h) == h,
        trim_end(c, pre, h) > pre ==> !is_blank(
            c,
            seg_start(c, pre, trim_end(c, pre, h)),
            trim_end(c, pre, h),
        ),
    decreases h,
{
    if h > pre && h > 0 {
        lemma_last_sep(c, pre, h);
        lemma_last_sep_below(c, pre, h);
        if is_blank(c, seg_start(c, pre, h), h) {
            lemma_trim_lands(c, pre, seg_cut(c, pre, h));
        }
    }
}

/// A parent is a shorter path with one component fewer.
pub proof fn lemma_parent(c: Seq<char>)
    requires
        spec_parent(c) is Some,
    ensures
        spec_parent(c)->0.len() < c.len(),
        spec_depth(spec_parent(c)->0) + 1 == spec_depth(c),
{
    let pre = prefix_len(c);
    let hi = trim_end(c, pre, c.len() as int);
    lemma_trim_end(c, pre, c.len() as int);
    if hi > pre {
        lemma_last_sep(c, pre, hi);
        lemma_last_sep_below(c, pre, hi);
        let cut = seg_cut(c, pre, hi);
        let t = trim_end(c, pre, cut);
        lemma_trim_end(c, pre, cut);
        lemma_trim_lands(c, pre, cut);
        let q = c.subrange(0, t);
        assert(spec_parent(c) == Some(q));
        // The parent keeps the prefix.
        if t > 0 {
            assert(q[0] == c[0]);
        }
        if t > 1 {
            assert(q[1] == c[1]);
        }
        if pre == 0 && t == 1 {
            assert(c[1] == '/');
        }
        assert(prefix_len(q) == pre);
        lemma_agree(c, q, pre, t);
        lemma_trim_body(c, pre, c.len() as int);
        lemma_trim_body(c, pre, cut);
        lemma_trim_lands(c, pre, c.len() as int);
        assert(!is_blank(c, seg_start(c, pre, hi), hi));
        assert(body_components(c, pre, hi) == body_components(c, pre, cut) + 1);
    } else {
        assert(starts_at_cur_dir(c));
        lemma_trim_body(c, pre, c.len() as int);
        assert(spec_depth(Seq::<char>::empty()) == 0);
    }
}

fn prefix_len_exec(p: &Vec<char>) -> (r: usize)
    ensures
        r == prefix_len(p@),
        r <= p@.len(),
{
    let n = p.len();
    if n > 0 && p[0] == '/' {
        1
    } else if n > 0 && p[0] == '.' && (n == 1 || p[1] == '/') {
        1
    } else {
        0
    }
}

fn last_sep_exec(p: &Vec<char>, lo: usize, hi: usize) -> (r: Option<usize>)
    requires
        lo <= hi <= p@.len(),
    ensures
        match r {
            Some(k) => k == last_sep(p@, lo as int, hi as int) && lo <= k < hi,
            None => last_sep(p@, lo as int, hi as int) == -1,
        },
{
    let mut i = hi;
    while i > lo
        invariant
            lo <= i <= hi <= p@.len(),
            last_sep(p@, lo as int, hi as int) == last_sep(p@, lo as int, i as int),
        decreases i,
    {
        if p[i - 1] == '/' {
            return Some(i - 1);
        }
        i = i - 1;
    }
    None
}

/// Start and cut of the last segment of `p[..hi]`.
fn last_segment(p: &Vec<char>, pre: usize, hi: usize) -> (r: (usize, usize))
    requires
        pre < hi <= p@.len(),
    ensures
        r.0 == seg_start(p@, pre as int, hi as int),
        r.1 == seg_cut(p@, pre as int, hi as int),
        pre <= r.1 < r.0 <= hi || (r.1 == pre && r.0 == pre),
{
    match last_sep_exec(p, pre, hi) {
        Some(k) => (k + 1, k),
        None => (pre, pre),
    }
}

fn is_blank_exec(p: &Vec<char>, a: usize, b: usize) -> (r: bool)
    requires
        a <= b <= p@.len(),
    ensures
        r == is_blank(p@, a as int, b as int),
{
    b == a || (b == a + 1 && p[a] == '.')
}

fn trim_end_exec(p: &Vec<char>, pre: usize, hi: usize) -> (r: usize)
    requires
        pre <= hi <= p@.len(),
    ensures
        r == trim_end(p@, pre as int, hi as int),
        pre <= r <= hi,
{
    let mut h = hi;
    while h > pre && h > 0
        invariant
            pre <= h <= hi <= p@.len(),
            trim_end(p@, pre as int, hi as int) == trim_end(p@, pre as int, h as int),
        decreases h,
    {
        let (a, cut) = last_segment(p, pre, h);
        if is_blank_exec(p, a, h) {
            h = cut;
        } else {
            return h;
        }
    }
    h
}

fn string_of(p: &str, from: usize, to: usize) -> (r: String)
    requires
        from <= to <= p@.len(),
    ensures
        r@ == p@.subrange(from as int, to as int),
{
    p.substring_char(from, to).to_owned()
}

/// The final component of `path` when it is a name.
pub fn file_name(path: &str) -> (r: Option<String>)
    ensures
        match r {
            Some(s) => spec_file_name(path@) == Some(s@),
            None => spec_file_name(path@) is None,
        },
{
    let p = chars_of(path);
    let pre = prefix_len_exec(&p);
    let hi = trim_end_exec(&p, pre, p.len());
    if hi > pre {
        let (a, _cut) = last_segment(&p, pre, hi);
        if hi - a == 2 && p[a] == '.' && p[a + 1] == '.' {
            proof {
                assert(p@.subrange(a as int, hi as int) =~= seq!['.', '.']);
            }
            None
        } else {
            proof {
                let seg = p@.subrange(a as int, hi as int);
                if seg == seq!['.', '.'] {
                    assert(seg.len() == 2);
                    assert(hi - a == 2);
                    assert(seg[0] == p@[a as int]);
                    assert(seg[1] == p@[a as int + 1]);
                    assert(seg[0] == '.' && seg[1] == '.');
                }
            }
            Some(string_of(path, a, hi))
        }
    } else {
        None
    }
}

/// `path` without its final component.
pub fn parent(path: &str) -> (r: Option<String>)
    ensures
        match r {
            Some(s) => spec_parent(path@) == Some(s@),
            None => spec_parent(path@) is None,
        },
{
    let p = chars_of(path);
    let pre = prefix_len_exec(&p);
    let hi = trim_end_exec(&p, pre, p.len());
    if hi > pre {
        let (_a, cut) = last_segment(&p, pre, hi);
        let end = trim_end_exec(&p, pre, cut);
        Some(string_of(path, 0, end))
    } else if p.len() > 0 && p[0] == '.' && (p.len() == 1 || p[1] == '/') {
        Some(String::new())
    } else {
        None
    }
}

/// Number of components of `path`.
pub fn depth(path: &str) -> (r: usize)
    ensures
        r == spec_depth(path@),
{
    let p = chars_of(path);
    let pre = prefix_len_exec(&p);
    let total = p.len();
    let mut h = total;
    let mut count: usize = 0;
    while h > pre && h > 0
        invariant
            total == p@.len(),
            pre <= h <= p@.len(),
            count <= p@.len() - h,
            count + body_components(p@, pre as int, h as int) == body_components(
                p@,
                pre as int,
                p@.len() as int,
            ),
        decreases h,
    {
        let (a, cut) = last_segment(&p, pre, h);
        if !is_blank_exec(&p, a, h) {
            assert(count < total);
            count = count + 1;
        }
        h = cut;
    }
    pre + count
}

/// The name a path shows: its final component, or the whole path.
pub fn leaf_name(path: &str) -> (r: String)
    ensures
        r@ == spec_leaf_name(path@),
{
    match file_name(path) {
        Some(n) => n,
        None => path.to_owned(),
    }
}

} // verus!
