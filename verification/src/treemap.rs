//! Squarified treemap layout (Bruls, Huijbregts, van Wijk), computed in
//! exact arithmetic.
//!
//! Items are placed in rows. A row is a strip cut off the short side of the
//! part of the area that is still free; items join the current row while
//! that does not make the row's cost (its worst aspect ratio, plus an
//! optional penalty for cells too narrow for their labels) any worse.
//! The free part is kept exactly, as rational coordinates over a common
//! denominator; only the cells are rounded to whole cells. Neighbours in a
//! row share their rounded boundary, the last cell of a row snaps to the
//! row's outer edge, and consecutive rows share the rounded edge between
//! them.
use crate::bignat::BigNat;
use crate::tiling::{lemma_mismatched_labels_ignored, lemma_squarify_tiles, tiles};
use crate::{zero_rect, Rect};
use vstd::prelude::*;

verus! {

/// The part of the area that is still free, in exact rational coordinates
/// over the common denominator `d`: its corner is `(x / d, y / d)` and its
/// sides are `w / d` and `h / d`.
pub struct Region {
    pub x: int,
    pub y: int,
    pub w: int,
    pub h: int,
    pub d: int,
}

pub open spec fn region_of(a: Rect) -> Region {
    Region { x: a.x as int, y: a.y as int, w: a.width as int, h: a.height as int, d: 1 }
}

/// Sum of `ws[s..e]`.
pub open spec fn wsum(ws: Seq<u64>, s: int, e: int) -> int
    decreases e - s,
{
    if e <= s {
        0
    } else {
        wsum(ws, s, e - 1) + ws[e - 1]
    }
}

/// Largest of `ws[s..e]` (meaningful for `s < e`).
pub open spec fn wmax(ws: Seq<u64>, s: int, e: int) -> int
    decreases e - s,
{
    if e <= s + 1 {
        ws[s] as int
    } else {
        let m = wmax(ws, s, e - 1);
        if ws[e - 1] > m {
            ws[e - 1] as int
        } else {
            m
        }
    }
}

/// Smallest of `ws[s..e]` (meaningful for `s < e`).
pub open spec fn wmin(ws: Seq<u64>, s: int, e: int) -> int
    decreases e - s,
{
    if e <= s + 1 {
        ws[s] as int
    } else {
        let m = wmin(ws, s, e - 1);
        if ws[e - 1] < m {
            ws[e - 1] as int
        } else {
            m
        }
    }
}

/// `p / q` rounded to the nearest integer, halves away from zero
/// (for `p >= 0`, `q > 0`).
pub open spec fn round_div(p: int, q: int) -> int {
    (2 * p + q) / (2 * q)
}

/// Cell `j` of a row of weight `p` would be narrower than its label, the
/// free part being `w / d` wide and still having to hold the weight `t`.
/// In a wide free part (`wide`) every cell of the row gets the strip width
/// `p * (w / d) / t`; otherwise cell `j` gets the width `ws[j] * (w / d) / p`.
pub open spec fn truncated(
    ws: Seq<u64>,
    nws: Seq<usize>,
    j: int,
    wide: bool,
    w: int,
    d: int,
    p: int,
    t: int,
) -> bool {
    if wide {
        p * w < nws[j] * t * d
    } else {
        ws[j] * w < nws[j] * p * d
    }
}

/// Number of cells of `ws[s..e]` that are narrower than their labels.
pub open spec fn trunc_count(
    ws: Seq<u64>,
    nws: Seq<usize>,
    s: int,
    e: int,
    wide: bool,
    w: int,
    d: int,
    p: int,
    t: int,
) -> int
    decreases e - s,
{
    if e <= s {
        0
    } else {
        trunc_count(ws, nws, s, e - 1, wide, w, d, p, t) + if truncated(
            ws,
            nws,
            e - 1,
            wide,
            w,
            d,
            p,
            t,
        ) {
            1int
        } else {
            0
        }
    }
}

/// Cost of the row `ws[s..e]` placed in a free part of width `w / d` and
/// height `h / d` that still has to hold the weight `t`, as a fraction
/// (numerator, denominator); `None` stands for an infinite cost.
///
/// A cell of weight `v` gets the area `v * (w / d) * (h / d) / t`. With
/// `short` and `long` the sides of the free part, the worst aspect ratio of
/// the row is the larger of `short * max * t / (p * p * long)` and
/// `p * p * long / (short * min * t)` (the denominator `d` cancels). With
/// labels, `2 * c / k` is added, `c` of the row's `k` cells being narrower
/// than their labels.
pub open spec fn row_cost(
    ws: Seq<u64>,
    nws: Seq<usize>,
    labels: bool,
    s: int,
    e: int,
    w: int,
    h: int,
    d: int,
    t: int,
) -> Option<(int, int)> {
    let p = wsum(ws, s, e);
    let mx = wmax(ws, s, e);
    let mn = wmin(ws, s, e);
    let short = if w <= h {
        w
    } else {
        h
    };
    let long = if w <= h {
        h
    } else {
        w
    };
    if short <= 0 || p <= 0 || mn <= 0 {
        None
    } else {
        let an = short * mx * t;
        let ad = p * p * long;
        let bn = p * p * long;
        let bd = short * mn * t;
        let wn = if an * bd >= bn * ad {
            an
        } else {
            bn
        };
        let wd = if an * bd >= bn * ad {
            ad
        } else {
            bd
        };
        if labels {
            let k = e - s;
            let c = trunc_count(ws, nws, s, e, w >= h, w, d, p, t);
            Some((wn * k + 2 * c * wd, wd * k))
        } else {
            Some((wn, wd))
        }
    }
}

/// Cost `a` is no larger than cost `b`.
pub open spec fn cost_le(a: Option<(int, int)>, b: Option<(int, int)>) -> bool {
    match b {
        None => true,
        Some(bb) => match a {
            None => false,
            Some(aa) => aa.0 * bb.1 <= bb.0 * aa.1,
        },
    }
}

/// End of the row that starts at `s`, grown from `ws[s..e]` one item at a
/// time while the cost does not rise.
pub open spec fn row_end(
    ws: Seq<u64>,
    nws: Seq<usize>,
    labels: bool,
    s: int,
    e: int,
    w: int,
    h: int,
    d: int,
    t: int,
) -> int
    decreases ws.len() - e,
{
    if e < ws.len() && cost_le(
        row_cost(ws, nws, labels, s, e + 1, w, h, d, t),
        row_cost(ws, nws, labels, s, e, w, h, d, t),
    ) {
        row_end(ws, nws, labels, s, e + 1, w, h, d, t)
    } else {
        e
    }
}

/// Boundary `k` of the row `ws[s..e]` along the free part's extent, which
/// runs from `start / d` over the length `len / d`: the rounded edge between
/// cells `k - 1` and `k`, a share of the extent in proportion to the weight
/// before it. Boundary `s` is the rounded start, boundary `e` the rounded
/// far end.
pub open spec fn boundary(ws: Seq<u64>, s: int, e: int, k: int, start: int, len: int, d: int) -> int {
    if k <= s {
        round_div(start, d)
    } else if k >= e {
        round_div(start + len, d)
    } else {
        round_div(start * wsum(ws, s, e) + wsum(ws, s, k) * len, wsum(ws, s, e) * d)
    }
}

/// Rounded far edge of the strip that the row `ws[s..e]` cuts off a free
/// part starting at `start / d` with extent `ext / d` and still holding the
/// weight `t`: the strip takes the share `p / t` of the extent.
pub open spec fn strip_end(ws: Seq<u64>, s: int, e: int, start: int, ext: int, d: int, t: int) -> int {
    round_div(start * t + wsum(ws, s, e) * ext, d * t)
}

/// The cell that item `j` of the row `ws[s..e]` gets in the free part `r`.
/// A wide free part (`w >= h`) is cut by a vertical strip whose cells stack
/// downwards; a tall one by a horizontal strip whose cells run rightwards.
pub open spec fn cell(ws: Seq<u64>, s: int, e: int, j: int, r: Region, t: int) -> Rect {
    if r.w >= r.h {
        let x0 = round_div(r.x, r.d);
        let x1 = strip_end(ws, s, e, r.x, r.w, r.d, t);
        let y0 = boundary(ws, s, e, j, r.y, r.h, r.d);
        let y1 = boundary(ws, s, e, j + 1, r.y, r.h, r.d);
        Rect { x: x0 as u32, y: y0 as u32, width: (x1 - x0) as u32, height: (y1 - y0) as u32 }
    } else {
        let y0 = round_div(r.y, r.d);
        let y1 = strip_end(ws, s, e, r.y, r.h, r.d, t);
        let x0 = boundary(ws, s, e, j, r.x, r.w, r.d);
        let x1 = boundary(ws, s, e, j + 1, r.x, r.w, r.d);
        Rect { x: x0 as u32, y: y0 as u32, width: (x1 - x0) as u32, height: (y1 - y0) as u32 }
    }
}

/// The cells of the row `ws[s..e]` written into `out`; a row of weight 0
/// places nothing.
pub open spec fn layout(out: Seq<Rect>, ws: Seq<u64>, s: int, e: int, r: Region, t: int) -> Seq<
    Rect,
> {
    if wsum(ws, s, e) == 0 {
        out
    } else {
        Seq::new(out.len(), |j: int| if s <= j < e { cell(ws, s, e, j, r, t) } else { out[j] })
    }
}

/// The free part left after the row `ws[s..e]` is cut off `r`, exactly: the
/// strip takes the share `p / t` of the extent across the row, and the
/// coordinates move to the denominator `d * t`.
pub open spec fn rest(ws: Seq<u64>, s: int, e: int, r: Region, t: int) -> Region {
    let p = wsum(ws, s, e);
    if p == 0 {
        r
    } else if r.w >= r.h {
        Region { x: r.x * t + p * r.w, y: r.y * t, w: r.w * (t - p), h: r.h * t, d: r.d * t }
    } else {
        Region { x: r.x * t, y: r.y * t + p * r.h, w: r.w * t, h: r.h * (t - p), d: r.d * t }
    }
}

/// Places the items from `s` on into the free part `r`, which still has to
/// hold the weight `t`.
pub open spec fn squarify_from(
    ws: Seq<u64>,
    nws: Seq<usize>,
    labels: bool,
    s: int,
    r: Region,
    t: int,
    out: Seq<Rect>,
) -> Seq<Rect>
    decreases ws.len() - s,
{
    if s >= ws.len() {
        out
    } else {
        let e = row_end(ws, nws, labels, s, s + 1, r.w, r.h, r.d, t);
        if e <= s || e > ws.len() {
            out
        } else {
            squarify_from(
                ws,
                nws,
                labels,
                e,
                rest(ws, s, e, r, t),
                t - wsum(ws, s, e),
                layout(out, ws, s, e, r, t),
            )
        }
    }
}

pub open spec fn zero_rects(n: int) -> Seq<Rect> {
    Seq::new(n as nat, |i: int| zero_rect())
}

/// The treemap of `ws` in `area`; `nws` holds the label widths, used when
/// there is one for each item. Without items, without area or without
/// weight every item gets the zero rectangle.
pub open spec fn spec_squarify(ws: Seq<u64>, nws: Seq<usize>, area: Rect) -> Seq<Rect> {
    let n = ws.len() as int;
    if n == 0 || area.width == 0 || area.height == 0 || wsum(ws, 0, n) == 0 {
        zero_rects(n)
    } else {
        squarify_from(
            ws,
            nws,
            nws.len() == ws.len(),
            0,
            region_of(area),
            wsum(ws, 0, n),
            zero_rects(n),
        )
    }
}

/// What the layout needs of its inputs: the total weight fits in a `u64`
/// and the area's far edges fit in a `u32`.
pub open spec fn layout_input_ok(ws: Seq<u64>, area: Rect) -> bool {
    &&& wsum(ws, 0, ws.len() as int) <= u64::MAX
    &&& area.x + area.width <= u32::MAX
    &&& area.y + area.height <= u32::MAX
}

// ---------------------------------------------------------------------------
// Arithmetic facts
// ---------------------------------------------------------------------------

pub proof fn lemma_wsum_nonneg(ws: Seq<u64>, s: int, e: int)
    ensures
        wsum(ws, s, e) >= 0,
    decreases e - s,
{
    if e > s {
        lemma_wsum_nonneg(ws, s, e - 1);
    }
}

pub proof fn lemma_wsum_split(ws: Seq<u64>, s: int, m: int, e: int)
    requires
        s <= m <= e,
    ensures
        wsum(ws, s, e) == wsum(ws, s, m) + wsum(ws, m, e),
    decreases e - m,
{
    if e > m {
        lemma_wsum_split(ws, s, m, e - 1);
    }
}

pub proof fn lemma_wsum_mono(ws: Seq<u64>, s: int, m: int, e: int)
    requires
        s <= m <= e,
    ensures
        wsum(ws, s, m) <= wsum(ws, s, e),
{
    lemma_wsum_split(ws, s, m, e);
    lemma_wsum_nonneg(ws, m, e);
}

/// A row of weight 0 holds only items of weight 0.
pub proof fn lemma_wsum_zero(ws: Seq<u64>, s: int, e: int, j: int)
    requires
        0 <= s <= j < e <= ws.len(),
        wsum(ws, s, e) == 0,
    ensures
        ws[j] == 0,
{
    lemma_wsum_split(ws, s, j, e);
    lemma_wsum_split(ws, j, j + 1, e);
    lemma_wsum_nonneg(ws, s, j);
    lemma_wsum_nonneg(ws, j + 1, e);
    assert(wsum(ws, j, j) == 0);
    assert(wsum(ws, j, j + 1) == ws[j]);
}

/// Scaling the numerator and the denominator alike keeps the rounding.
pub proof fn lemma_round_div_scale(a: int, d: int, t: int)
    requires
        a >= 0,
        d > 0,
        t > 0,
    ensures
        round_div(a * t, d * t) == round_div(a, d),
{
    let q = (2 * a + d) / (2 * d);
    let r = (2 * a + d) % (2 * d);
    vstd::arithmetic::div_mod::lemma_fundamental_div_mod(2 * a + d, 2 * d);
    assert(2 * (a * t) + d * t == q * (2 * (d * t)) + r * t) by (nonlinear_arith)
        requires
            2 * a + d == 2 * d * q + r,
    ;
    assert(0 <= r * t < 2 * (d * t)) by (nonlinear_arith)
        requires
            0 <= r < 2 * d,
            t > 0,
    ;
    vstd::arithmetic::div_mod::lemma_fundamental_div_mod_converse(
        2 * (a * t) + d * t,
        2 * (d * t),
        q,
        r * t,
    );
}

/// Rounding keeps the order of numerators over one denominator.
pub proof fn lemma_round_div_le(a: int, b: int, d: int)
    requires
        a <= b,
        d > 0,
    ensures
        round_div(a, d) <= round_div(b, d),
{
    vstd::arithmetic::div_mod::lemma_div_is_ordered(2 * a + d, 2 * b + d, 2 * d);
}

/// A whole number rounds to itself.
pub proof fn lemma_round_div_exact(k: int, d: int)
    requires
        d > 0,
    ensures
        round_div(k * d, d) == k,
{
    assert(2 * (k * d) + d == k * (2 * d) + d) by (nonlinear_arith);
    vstd::arithmetic::div_mod::lemma_fundamental_div_mod_converse(2 * (k * d) + d, 2 * d, k, d);
}

pub proof fn lemma_row_end_ge(
    ws: Seq<u64>,
    nws: Seq<usize>,
    labels: bool,
    s: int,
    e: int,
    w: int,
    h: int,
    d: int,
    t: int,
)
    ensures
        row_end(ws, nws, labels, s, e, w, h, d, t) >= e,
        e <= ws.len() ==> row_end(ws, nws, labels, s, e, w, h, d, t) <= ws.len(),
        ({
            let f = row_end(ws, nws, labels, s, e, w, h, d, t);
            f >= ws.len() || !cost_le(
                row_cost(ws, nws, labels, s, f + 1, w, h, d, t),
                row_cost(ws, nws, labels, s, f, w, h, d, t),
            )
        }),
    decreases ws.len() - e,
{
    if e < ws.len() && cost_le(
        row_cost(ws, nws, labels, s, e + 1, w, h, d, t),
        row_cost(ws, nws, labels, s, e, w, h, d, t),
    ) {
        lemma_row_end_ge(ws, nws, labels, s, e + 1, w, h, d, t);
    }
}

/// The free part `r` lies in `area` and reaches its right and bottom edges.
pub open spec fn region_in(r: Region, area: Rect) -> bool {
    &&& r.d > 0
    &&& r.w >= 0
    &&& r.h >= 0
    &&& r.x >= area.x * r.d
    &&& r.y >= area.y * r.d
    &&& r.x + r.w == (area.x + area.width) * r.d
    &&& r.y + r.h == (area.y + area.height) * r.d
}

/// Cutting a row off the free part leaves a free part that still lies in
/// the area and reaches its far edges.
pub proof fn lemma_rest_in(ws: Seq<u64>, s: int, e: int, r: Region, t: int, area: Rect)
    requires
        region_in(r, area),
        0 <= wsum(ws, s, e) <= t,
    ensures
        region_in(rest(ws, s, e, r, t), area),
{
    let p = wsum(ws, s, e);
    if p > 0 {
        let (x, y, w, h, d) = (r.x, r.y, r.w, r.h, r.d);
        let (ax, ay, aw, ah) = (area.x as int, area.y as int, area.width as int, area.height as int);
        assert(d * t > 0 && w * (t - p) >= 0 && h * (t - p) >= 0 && w * t >= 0 && h * t >= 0)
            by (nonlinear_arith)
            requires
                d > 0,
                t >= p > 0,
                w >= 0,
                h >= 0,
        ;
        assert(x * t + p * w >= ax * (d * t) && x * t >= ax * (d * t)) by (nonlinear_arith)
            requires
                x >= ax * d,
                t > 0,
                p >= 0,
                w >= 0,
        ;
        assert(y * t + p * h >= ay * (d * t) && y * t >= ay * (d * t)) by (nonlinear_arith)
            requires
                y >= ay * d,
                t > 0,
                p >= 0,
                h >= 0,
        ;
        assert(x * t + p * w + w * (t - p) == (ax + aw) * (d * t) && x * t + w * t == (ax + aw) * (
        d * t)) by (nonlinear_arith)
            requires
                x + w == (ax + aw) * d,
        ;
        assert(y * t + p * h + h * (t - p) == (ay + ah) * (d * t) && y * t + h * t == (ay + ah) * (
        d * t)) by (nonlinear_arith)
            requires
                y + h == (ay + ah) * d,
        ;
    }
}

/// The boundaries of a row run in order from the rounded start of the
/// extent to its rounded end.
pub proof fn lemma_boundary_order(
    ws: Seq<u64>,
    s: int,
    e: int,
    j: int,
    k: int,
    start: int,
    len: int,
    d: int,
)
    requires
        0 <= s < e <= ws.len(),
        j <= k,
        wsum(ws, s, e) > 0,
        start >= 0,
        len >= 0,
        d > 0,
    ensures
        round_div(start, d) <= boundary(ws, s, e, j, start, len, d),
        boundary(ws, s, e, j, start, len, d) <= boundary(ws, s, e, k, start, len, d),
        boundary(ws, s, e, k, start, len, d) <= round_div(start + len, d),
{
    let p = wsum(ws, s, e);
    assert forall|i: int| #![trigger boundary(ws, s, e, i, start, len, d)]
        round_div(start, d) <= boundary(ws, s, e, i, start, len, d) <= round_div(start + len, d)
        && (s < i < e ==> round_div(start * p, d * p) <= boundary(ws, s, e, i, start, len, d)
        <= round_div((start + len) * p, d * p)) by {
        lemma_round_div_le(start, start + len, d);
        if s < i < e {
            let c = wsum(ws, s, i);
            lemma_wsum_mono(ws, s, i, e);
            lemma_wsum_nonneg(ws, s, i);
            assert(start * p <= start * p + c * len <= (start + len) * p) by (nonlinear_arith)
                requires
                    0 <= c <= p,
                    len >= 0,
            ;
            assert(p * d == d * p);
            assert(d * p > 0) by (nonlinear_arith)
                requires
                    d > 0,
                    p > 0,
            ;
            lemma_round_div_le(start * p, start * p + c * len, d * p);
            lemma_round_div_le(start * p + c * len, (start + len) * p, d * p);
            lemma_round_div_scale(start, d, p);
            lemma_round_div_scale(start + len, d, p);
        }
    }
    if s < j < e && s < k < e {
        let cj = wsum(ws, s, j);
        let ck = wsum(ws, s, k);
        lemma_wsum_mono(ws, s, j, k);
        lemma_wsum_nonneg(ws, s, j);
        assert(start * p + cj * len <= start * p + ck * len) by (nonlinear_arith)
            requires
                cj <= ck,
                len >= 0,
        ;
        assert(p * d > 0) by (nonlinear_arith)
            requires
                d > 0,
                p > 0,
        ;
        lemma_round_div_le(start * p + cj * len, start * p + ck * len, p * d);
    }
}

// ---------------------------------------------------------------------------
// Executable layout
// ---------------------------------------------------------------------------

/// A finite cost `num / den`.
struct Cost {
    num: BigNat,
    den: BigNat,
}

spec fn cost_view(c: Option<Cost>) -> Option<(int, int)> {
    match c {
        None => None,
        Some(c) => Some((c.num.value() as int, c.den.value() as int)),
    }
}

/// The free part, exactly: numerators over the common denominator `d`.
struct Free {
    x: BigNat,
    y: BigNat,
    w: BigNat,
    h: BigNat,
    d: BigNat,
}

spec fn free_view(f: Free) -> Region {
    Region {
        x: f.x.value() as int,
        y: f.y.value() as int,
        w: f.w.value() as int,
        h: f.h.value() as int,
        d: f.d.value() as int,
    }
}

fn big(x: u64) -> (r: BigNat)
    ensures
        r.value() == x,
        r.limbs@.len() == 2,
{
    BigNat::from_u64(x)
}

fn big2(a: u64, b: u64) -> (r: BigNat)
    ensures
        r.value() == a * b,
        r.limbs@.len() <= 8,
{
    big(a).mul(&big(b))
}

/// `q * d <= n` exactly when `q` is at most the quotient `n / d`.
proof fn lemma_le_quotient(q: int, n: int, d: int)
    requires
        d > 0,
        n >= 0,
        q >= 0,
    ensures
        (q * d <= n) == (q <= n / d),
{
    vstd::arithmetic::div_mod::lemma_fundamental_div_mod(n, d);
    let k = n / d;
    let r = n % d;
    if q * d <= n {
        assert(q <= k) by (nonlinear_arith)
            requires
                q * d <= n,
                n == d * k + r,
                0 <= r < d,
                d > 0,
        ;
    }
    if q <= k {
        assert(q * d <= n) by (nonlinear_arith)
            requires
                q <= k,
                n == d * k + r,
                0 <= r,
                d > 0,
        ;
    }
}

/// `num / den` rounded to the nearest integer, found between `lo` and `hi`.
fn round_big(num: &BigNat, den: &BigNat, lo: u64, hi: u64) -> (q: u64)
    requires
        den.value() > 0,
        lo <= round_div(num.value() as int, den.value() as int) <= hi,
        hi <= u32::MAX,
    ensures
        q == round_div(num.value() as int, den.value() as int),
{
    let n2 = num.add(num).add(den);
    let d2 = den.add(den);
    let ghost big_n = 2 * num.value() + den.value();
    let ghost big_d = 2 * den.value();
    let ghost goal = round_div(num.value() as int, den.value() as int);
    let mut a = lo;
    let mut b = hi;
    while a < b
        invariant
            n2.value() == big_n,
            d2.value() == big_d,
            big_d > 0,
            big_n >= 0,
            goal == big_n / big_d,
            a <= goal <= b,
            b <= u32::MAX,
        decreases b - a,
    {
        let mid = a + (b - a + 1) / 2;
        let prod = big(mid).mul(&d2);
        proof {
            lemma_le_quotient(mid as int, big_n as int, big_d as int);
        }
        if prod.le(&n2) {
            a = mid;
        } else {
            b = mid - 1;
        }
    }
    a
}

/// Number of cells of `ws[s..e]` narrower than their labels.
fn count_truncated(
    weights: &[u64],
    name_widths: &[usize],
    s: usize,
    e: usize,
    wide: bool,
    w: &BigNat,
    d: &BigNat,
    p: u64,
    t: u64,
) -> (c: u64)
    requires
        s <= e <= weights@.len(),
        name_widths@.len() == weights@.len(),
    ensures
        c == trunc_count(
            weights@,
            name_widths@,
            s as int,
            e as int,
            wide,
            w.value() as int,
            d.value() as int,
            p as int,
            t as int,
        ),
{
    let ghost wv = w.value() as int;
    let ghost dv = d.value() as int;
    let pw = big(p).mul(w);
    let td = big(t).mul(d);
    let pd = big(p).mul(d);
    let mut c: u64 = 0;
    let mut j: usize = s;
    while j < e
        invariant
            s <= j <= e,
            e <= weights@.len(),
            name_widths@.len() == weights@.len(),
            pw.value() == p * wv,
            td.value() == t * dv,
            pd.value() == p * dv,
            wv == w.value(),
            dv == d.value(),
            c <= j - s,
            c == trunc_count(
                weights@,
                name_widths@,
                s as int,
                j as int,
                wide,
                wv,
                dv,
                p as int,
                t as int,
            ),
        decreases e - j,
    {
        let nw = name_widths[j] as u64;
        let narrow = if wide {
            let rhs = big(nw).mul(&td);
            proof {
                assert(nw * (t * dv) == nw * t * dv) by (nonlinear_arith);
                assert(p * wv == p * wv);
            }
            !rhs.le(&pw)
        } else {
            let lhs = big(weights[j]).mul(w);
            let rhs = big(nw).mul(&pd);
            proof {
                assert(nw * (p * dv) == nw * p * dv) by (nonlinear_arith);
            }
            !rhs.le(&lhs)
        };
        if narrow {
            c = c + 1;
        }
        j = j + 1;
    }
    c
}

/// The cost of the row `ws[s..e]`, whose weight, largest and smallest item
/// are `p`, `mx`, `mn`, in the free part of width `w / d` and height
/// `h / d`.
fn row_cost_exec(
    weights: &[u64],
    name_widths: &[usize],
    labels: bool,
    s: usize,
    e: usize,
    p: u64,
    mx: u64,
    mn: u64,
    w: &BigNat,
    h: &BigNat,
    d: &BigNat,
    t: u64,
) -> (c: Option<Cost>)
    requires
        s < e <= weights@.len(),
        labels ==> name_widths@.len() == weights@.len(),
        p == wsum(weights@, s as int, e as int),
        mx == wmax(weights@, s as int, e as int),
        mn == wmin(weights@, s as int, e as int),
    ensures
        cost_view(c) == row_cost(
            weights@,
            name_widths@,
            labels,
            s as int,
            e as int,
            w.value() as int,
            h.value() as int,
            d.value() as int,
            t as int,
        ),
{
    let w_le_h = w.le(h);
    let short = if w_le_h {
        w
    } else {
        h
    };
    let long = if w_le_h {
        h
    } else {
        w
    };
    if short.le(&big(0)) || p == 0 || mn == 0 {
        return None;
    }
    let ghost sv = short.value() as int;
    let ghost lv = long.value() as int;
    let an = big2(mx, t).mul(short);
    let ad = big2(p, p).mul(long);
    let bn = big2(p, p).mul(long);
    let bd = big2(mn, t).mul(short);
    proof {
        assert(mx * t * sv == sv * mx * t) by (nonlinear_arith);
        assert(p * p * lv == p * p * lv);
        assert(mn * t * sv == sv * mn * t) by (nonlinear_arith);
    }
    let a_wins = bn.mul(&ad).le(&an.mul(&bd));
    let (wn, wd) = if a_wins {
        (an, ad)
    } else {
        (bn, bd)
    };
    if labels {
        let k = (e - s) as u64;
        let cnt = count_truncated(weights, name_widths, s, e, h.le(w), w, d, p, t);
        let num = big(k).mul(&wn).add(&big2(2, cnt).mul(&wd));
        let den = big(k).mul(&wd);
        proof {
            assert((e - s) as int == k as int);
            let a = wn.value() as int;
            let b = wd.value() as int;
            assert(k * a == a * k) by (nonlinear_arith);
            assert(2 * cnt * b == 2 * cnt * b);
            assert(k * b == b * k) by (nonlinear_arith);
        }
        Some(Cost { num, den })
    } else {
        Some(Cost { num: wn, den: wd })
    }
}

fn cost_le_exec(a: &Option<Cost>, b: &Option<Cost>) -> (r: bool)
    requires
    ensures
        r == cost_le(cost_view(*a), cost_view(*b)),
{
    match b {
        None => true,
        Some(bb) => match a {
            None => false,
            Some(aa) => aa.num.mul(&bb.den).le(&bb.num.mul(&aa.den)),
        },
    }
}

/// End of the row that starts at `s`, with the row's weight.
fn row_end_exec(
    weights: &[u64],
    name_widths: &[usize],
    labels: bool,
    s: usize,
    w: &BigNat,
    h: &BigNat,
    d: &BigNat,
    t: u64,
) -> (r: (usize, u64))
    requires
        s < weights@.len(),
        labels ==> name_widths@.len() == weights@.len(),
        wsum(weights@, s as int, weights@.len() as int) <= u64::MAX,
    ensures
        r.0 == row_end(
            weights@,
            name_widths@,
            labels,
            s as int,
            s + 1,
            w.value() as int,
            h.value() as int,
            d.value() as int,
            t as int,
        ),
        s < r.0 <= weights@.len(),
        r.1 == wsum(weights@, s as int, r.0 as int),
{
    let ghost ws = weights@;
    let ghost nws = name_widths@;
    let ghost (wv, hv, dv) = (w.value() as int, h.value() as int, d.value() as int);
    let n = weights.len();
    let mut e: usize = s + 1;
    let mut p: u64 = weights[s];
    let mut mx: u64 = weights[s];
    let mut mn: u64 = weights[s];
    proof {
        assert(wsum(ws, s as int, s as int) == 0);
        assert(wsum(ws, s as int, s + 1) == ws[s as int]);
    }
    let mut cur = row_cost_exec(weights, name_widths, labels, s, e, p, mx, mn, w, h, d, t);
    let mut stop = false;
    while !stop && e < n
        invariant
            n == ws.len(),
            ws == weights@,
            nws == name_widths@,
            labels ==> nws.len() == ws.len(),
            wv == w.value(),
            hv == h.value(),
            dv == d.value(),
            wsum(ws, s as int, n as int) <= u64::MAX,
            s < e <= n,
            p == wsum(ws, s as int, e as int),
            mx == wmax(ws, s as int, e as int),
            mn == wmin(ws, s as int, e as int),
            cost_view(cur) == row_cost(ws, nws, labels, s as int, e as int, wv, hv, dv, t as int),
            row_end(ws, nws, labels, s as int, s + 1, wv, hv, dv, t as int) == row_end(
                ws,
                nws,
                labels,
                s as int,
                e as int,
                wv,
                hv,
                dv,
                t as int,
            ),
            stop ==> row_end(ws, nws, labels, s as int, e as int, wv, hv, dv, t as int) == e,
        decreases n - e + (if stop { 0int } else { 1int }),
    {
        let wj = weights[e];
        proof {
            lemma_wsum_mono(ws, s as int, e + 1, n as int);
        }
        let p2 = p + wj;
        let mx2 = if wj > mx {
            wj
        } else {
            mx
        };
        let mn2 = if wj < mn {
            wj
        } else {
            mn
        };
        let next = row_cost_exec(weights, name_widths, labels, s, e + 1, p2, mx2, mn2, w, h, d, t);
        if cost_le_exec(&next, &cur) {
            e = e + 1;
            p = p2;
            mx = mx2;
            mn = mn2;
            cur = next;
        } else {
            stop = true;
        }
    }
    (e, p)
}

/// Writes the cells of the row `ws[s..e]` of weight `p` into `out` and
/// returns the free part left after the row is cut off `f`.
fn layout_row(
    weights: &[u64],
    s: usize,
    e: usize,
    p: u64,
    t: u64,
    f: Free,
    area: Rect,
    out: &mut Vec<Rect>,
) -> (g: Free)
    requires
        s < e <= weights@.len(),
        old(out)@.len() == weights@.len(),
        p == wsum(weights@, s as int, e as int),
        p <= t,
        region_in(free_view(f), area),
        area.x + area.width <= u32::MAX,
        area.y + area.height <= u32::MAX,
    ensures
        final(out)@ == layout(old(out)@, weights@, s as int, e as int, free_view(f), t as int),
        free_view(g) == rest(weights@, s as int, e as int, free_view(f), t as int),
{
    let ghost ws = weights@;
    let ghost r = free_view(f);
    let ghost old_out = out@;
    let n = weights.len();
    if p == 0 {
        return f;
    }
    let ax = area.x as u64;
    let ay = area.y as u64;
    let ax2 = ax + area.width as u64;
    let ay2 = ay + area.height as u64;
    proof {
        lemma_round_div_le(ax * r.d, r.x, r.d);
        lemma_round_div_le(r.x, ax2 * r.d, r.d);
        lemma_round_div_exact(ax as int, r.d);
        lemma_round_div_exact(ax2 as int, r.d);
        lemma_round_div_le(ay * r.d, r.y, r.d);
        lemma_round_div_le(r.y, ay2 * r.d, r.d);
        lemma_round_div_exact(ay as int, r.d);
        lemma_round_div_exact(ay2 as int, r.d);
        assert(r.x <= ax2 * r.d);
        assert(r.y <= ay2 * r.d);
        assert(t > 0);
    }
    let dt = big(t).mul(&f.d);
    proof {
        assert(t * r.d == r.d * t) by (nonlinear_arith);
        assert(r.d * t > 0) by (nonlinear_arith)
            requires
                r.d > 0,
                t > 0,
        ;
    }
    let wide = f.h.le(&f.w);
    if wide {
        let x0 = round_big(&f.x, &f.d, ax, ax2);
        let xe = big(t).mul(&f.x).add(&big(p).mul(&f.w));
        proof {
            assert(t * r.x + p * r.w == r.x * t + p * r.w) by (nonlinear_arith);
            assert(r.x >= 0);
            lemma_round_div_scale(r.x, r.d, t as int);
            lemma_round_div_scale(r.x + r.w, r.d, t as int);
            assert(r.x * t <= r.x * t + p * r.w <= (r.x + r.w) * t) by (nonlinear_arith)
                requires
                    0 <= p <= t,
                    r.w >= 0,
            ;
            lemma_round_div_le(r.x * t, r.x * t + p * r.w, r.d * t);
            lemma_round_div_le(r.x * t + p * r.w, (r.x + r.w) * t, r.d * t);
        }
        let x1 = round_big(&xe, &dt, ax, ax2);
        proof {
            assert(x1 == strip_end(ws, s as int, e as int, r.x, r.w, r.d, t as int));
            assert(x0 <= x1);
        }
        let pd = big(p).mul(&f.d);
        proof {
            assert(p * r.d == p * r.d);
            assert(p * r.d > 0) by (nonlinear_arith)
                requires
                    r.d > 0,
                    p > 0,
            ;
            assert(r.y >= 0);
            lemma_boundary_order(ws, s as int, e as int, s as int, s as int, r.y, r.h, r.d);
        }
        let mut cum: u64 = 0;
        let mut prev: u64 = round_big(&f.y, &f.d, ay, ay2);
        let mut j: usize = s;
        proof {
            assert(wsum(ws, s as int, s as int) == 0);
        }
        while j < e
            invariant
                ws == weights@,
                n == ws.len(),
                s <= j <= e,
                e <= n,
                r == free_view(f),
                region_in(r, area),
                r.w >= r.h,
                ax == area.x,
                ay == area.y,
                ax2 == area.x + area.width,
                ay2 == area.y + area.height,
                ay2 <= u32::MAX,
                ax <= x0 <= x1 <= ax2,
                x0 == round_div(r.x, r.d),
                x1 == strip_end(ws, s as int, e as int, r.x, r.w, r.d, t as int),
                p == wsum(ws, s as int, e as int),
                p > 0,
                pd.value() == p * r.d,
                cum == wsum(ws, s as int, j as int),
                prev == boundary(ws, s as int, e as int, j as int, r.y, r.h, r.d),
                ay <= prev <= ay2,
                out@.len() == n,
                forall|q: int|
                    0 <= q < n ==> out@[q] == (if s <= q < j {
                        cell(ws, s as int, e as int, q, r, t as int)
                    } else {
                        old_out[q]
                    }),
            decreases e - j,
        {
            proof {
                lemma_wsum_mono(ws, s as int, j + 1, e as int);
                lemma_wsum_nonneg(ws, s as int, j + 1);
                lemma_boundary_order(ws, s as int, e as int, j as int, j + 1, r.y, r.h, r.d);
                lemma_round_div_exact(ay2 as int, r.d);
                lemma_round_div_exact(ay as int, r.d);
                lemma_round_div_le(ay * r.d, r.y, r.d);
            }
            cum = cum + weights[j];
            let next: u64 = if j + 1 == e {
                ay2
            } else {
                let num = big(p).mul(&f.y).add(&big(cum).mul(&f.h));
                proof {
                    assert(p * r.y + cum * r.h == r.y * p + cum * r.h) by (nonlinear_arith);
                    assert(p * r.d > 0) by (nonlinear_arith)
                        requires
                            r.d > 0,
                            p > 0,
                    ;
                    assert(boundary(ws, s as int, e as int, j + 1, r.y, r.h, r.d) == round_div(
                        num.value() as int,
                        pd.value() as int,
                    ));
                }
                round_big(&num, &pd, ay, ay2)
            };
            proof {
                assert(next == boundary(ws, s as int, e as int, j + 1, r.y, r.h, r.d));
            }
            let c = Rect {
                x: x0 as u32,
                y: prev as u32,
                width: (x1 - x0) as u32,
                height: (next - prev) as u32,
            };
            proof {
                assert(c == cell(ws, s as int, e as int, j as int, r, t as int));
            }
            out.set(j, c);
            prev = next;
            j = j + 1;
        }
        proof {
            assert(out@ =~= layout(old_out, ws, s as int, e as int, r, t as int));
            assert(t * r.y == r.y * t && t * r.h == r.h * t && (t - p) * r.w == r.w * (t - p))
                by (nonlinear_arith);
        }
        Free {
            x: xe.trimmed(),
            y: big(t).mul(&f.y).trimmed(),
            w: big(t - p).mul(&f.w).trimmed(),
            h: big(t).mul(&f.h).trimmed(),
            d: dt.trimmed(),
        }
    } else {
        let y0 = round_big(&f.y, &f.d, ay, ay2);
        let ye = big(t).mul(&f.y).add(&big(p).mul(&f.h));
        proof {
            assert(t * r.y + p * r.h == r.y * t + p * r.h) by (nonlinear_arith);
            assert(r.y >= 0);
            lemma_round_div_scale(r.y, r.d, t as int);
            lemma_round_div_scale(r.y + r.h, r.d, t as int);
            assert(r.y * t <= r.y * t + p * r.h <= (r.y + r.h) * t) by (nonlinear_arith)
                requires
                    0 <= p <= t,
                    r.h >= 0,
            ;
            lemma_round_div_le(r.y * t, r.y * t + p * r.h, r.d * t);
            lemma_round_div_le(r.y * t + p * r.h, (r.y + r.h) * t, r.d * t);
        }
        let y1 = round_big(&ye, &dt, ay, ay2);
        proof {
            assert(y1 == strip_end(ws, s as int, e as int, r.y, r.h, r.d, t as int));
            assert(y0 <= y1);
        }
        let pd = big(p).mul(&f.d);
        proof {
            assert(p * r.d > 0) by (nonlinear_arith)
                requires
                    r.d > 0,
                    p > 0,
            ;
            assert(r.x >= 0);
            lemma_boundary_order(ws, s as int, e as int, s as int, s as int, r.x, r.w, r.d);
        }
        let mut cum: u64 = 0;
        let mut prev: u64 = round_big(&f.x, &f.d, ax, ax2);
        let mut j: usize = s;
        proof {
            assert(wsum(ws, s as int, s as int) == 0);
        }
        while j < e
            invariant
                ws == weights@,
                n == ws.len(),
                s <= j <= e,
                e <= n,
                r == free_view(f),
                region_in(r, area),
                r.w < r.h,
                ax == area.x,
                ay == area.y,
                ax2 == area.x + area.width,
                ay2 == area.y + area.height,
                ax2 <= u32::MAX,
                ay <= y0 <= y1 <= ay2,
                y0 == round_div(r.y, r.d),
                y1 == strip_end(ws, s as int, e as int, r.y, r.h, r.d, t as int),
                p == wsum(ws, s as int, e as int),
                p > 0,
                pd.value() == p * r.d,
                cum == wsum(ws, s as int, j as int),
                prev == boundary(ws, s as int, e as int, j as int, r.x, r.w, r.d),
                ax <= prev <= ax2,
                out@.len() == n,
                forall|q: int|
                    0 <= q < n ==> out@[q] == (if s <= q < j {
                        cell(ws, s as int, e as int, q, r, t as int)
                    } else {
                        old_out[q]
                    }),
            decreases e - j,
        {
            proof {
                lemma_wsum_mono(ws, s as int, j + 1, e as int);
                lemma_wsum_nonneg(ws, s as int, j + 1);
                lemma_boundary_order(ws, s as int, e as int, j as int, j + 1, r.x, r.w, r.d);
                lemma_round_div_exact(ax2 as int, r.d);
                lemma_round_div_exact(ax as int, r.d);
                lemma_round_div_le(ax * r.d, r.x, r.d);
            }
            cum = cum + weights[j];
            let next: u64 = if j + 1 == e {
                ax2
            } else {
                let num = big(p).mul(&f.x).add(&big(cum).mul(&f.w));
                proof {
                    assert(p * r.x + cum * r.w == r.x * p + cum * r.w) by (nonlinear_arith);
                    assert(p * r.d > 0) by (nonlinear_arith)
                        requires
                            r.d > 0,
                            p > 0,
                    ;
                    assert(boundary(ws, s as int, e as int, j + 1, r.x, r.w, r.d) == round_div(
                        num.value() as int,
                        pd.value() as int,
                    ));
                }
                round_big(&num, &pd, ax, ax2)
            };
            proof {
                assert(next == boundary(ws, s as int, e as int, j + 1, r.x, r.w, r.d));
            }
            let c = Rect {
                x: prev as u32,
                y: y0 as u32,
                width: (next - prev) as u32,
                height: (y1 - y0) as u32,
            };
            proof {
                assert(c == cell(ws, s as int, e as int, j as int, r, t as int));
            }
            out.set(j, c);
            prev = next;
            j = j + 1;
        }
        proof {
            assert(out@ =~= layout(old_out, ws, s as int, e as int, r, t as int));
            assert(t * r.x == r.x * t && t * r.w == r.w * t && (t - p) * r.h == r.h * (t - p))
                by (nonlinear_arith);
        }
        Free {
            x: big(t).mul(&f.x).trimmed(),
            y: ye.trimmed(),
            w: big(t).mul(&f.w).trimmed(),
            h: big(t - p).mul(&f.h).trimmed(),
            d: dt.trimmed(),
        }
    }
}

fn zero_rect_vec(n: usize) -> (r: Vec<Rect>)
    ensures
        r@ == zero_rects(n as int),
{
    let mut v: Vec<Rect> = Vec::new();
    let mut i: usize = 0;
    while i < n
        invariant
            i <= n,
            v@ == zero_rects(i as int),
        decreases n - i,
    {
        v.push(Rect { x: 0, y: 0, width: 0, height: 0 });
        i = i + 1;
        proof {
            assert(v@ =~= zero_rects(i as int));
        }
    }
    v
}

fn total_weight(weights: &[u64]) -> (t: u64)
    requires
        wsum(weights@, 0, weights@.len() as int) <= u64::MAX,
    ensures
        t == wsum(weights@, 0, weights@.len() as int),
{
    let n = weights.len();
    let mut acc: u64 = 0;
    let mut i: usize = 0;
    while i < n
        invariant
            n == weights@.len(),
            i <= n,
            wsum(weights@, 0, n as int) <= u64::MAX,
            acc == wsum(weights@, 0, i as int),
        decreases n - i,
    {
        proof {
            lemma_wsum_mono(weights@, 0, i + 1, n as int);
        }
        acc = acc + weights[i];
        i = i + 1;
    }
    acc
}

/// Squarified treemap layout. Output rects perfectly tile `area`:
/// neighbours share integer boundaries.
pub fn squarify(weights: &[u64], area: Rect) -> (out: Vec<Rect>)
    requires
        layout_input_ok(weights@, area),
    ensures
        out@ == spec_squarify(weights@, Seq::empty(), area),
        out@.len() == weights@.len(),
        weights@.len() == 0 || area.width == 0 || area.height == 0 || wsum(
            weights@,
            0,
            weights@.len() as int,
        ) == 0 ==> out@ == zero_rects(weights@.len() as int),
        weights@.len() > 0 && area.width > 0 && area.height > 0 && wsum(
            weights@,
            0,
            weights@.len() as int,
        ) > 0 ==> tiles(out@, weights@, area),
{
    let no_labels: Vec<usize> = Vec::new();
    squarify_with_labels(weights, no_labels.as_slice(), area)
}

/// Like [`squarify`], but the row-break decision also penalizes rows where
/// cells would be too narrow to fit their labels. `name_widths[i]` is the
/// number of terminal columns child `i` needs to render its full label.
/// A slice of another length than `weights` (an empty one, say) gives the
/// plain squarified layout.
pub fn squarify_with_labels(weights: &[u64], name_widths: &[usize], area: Rect) -> (out: Vec<Rect>)
    requires
        layout_input_ok(weights@, area),
    ensures
        out@ == spec_squarify(weights@, name_widths@, area),
        name_widths@.len() == 0 || name_widths@.len() != weights@.len() ==> out@ == spec_squarify(
            weights@,
            Seq::empty(),
            area,
        ),
        out@.len() == weights@.len(),
        weights@.len() == 0 || area.width == 0 || area.height == 0 || wsum(
            weights@,
            0,
            weights@.len() as int,
        ) == 0 ==> out@ == zero_rects(weights@.len() as int),
        weights@.len() > 0 && area.width > 0 && area.height > 0 && wsum(
            weights@,
            0,
            weights@.len() as int,
        ) > 0 ==> tiles(out@, weights@, area),
{
    let ghost ws = weights@;
    let ghost nws = name_widths@;
    proof {
        if nws.len() == 0 || nws.len() != ws.len() {
            lemma_mismatched_labels_ignored(ws, nws, area);
        }
    }
    let n = weights.len();
    if n == 0 || area.width == 0 || area.height == 0 {
        return zero_rect_vec(n);
    }
    let total = total_weight(weights);
    if total == 0 {
        return zero_rect_vec(n);
    }
    proof {
        lemma_squarify_tiles(ws, nws, area);
    }
    let labels = name_widths.len() == n;
    let mut out = zero_rect_vec(n);
    let mut free = Free {
        x: big(area.x as u64),
        y: big(area.y as u64),
        w: big(area.width as u64),
        h: big(area.height as u64),
        d: big(1),
    };
    proof {
        assert(free_view(free) == region_of(area));
    }
    let mut t: u64 = total;
    let mut i: usize = 0;
    while i < n
        invariant
            ws == weights@,
            nws == name_widths@,
            n == ws.len(),
            labels == (nws.len() == ws.len()),
            layout_input_ok(ws, area),
            n > 0,
            area.width > 0,
            area.height > 0,
            total == wsum(ws, 0, n as int),
            total > 0,
            i <= n,
            out@.len() == n,
            t == wsum(ws, i as int, n as int),
            region_in(free_view(free), area),
            squarify_from(ws, nws, labels, i as int, free_view(free), t as int, out@)
                == spec_squarify(ws, nws, area),
        decreases n - i,
    {
        let ghost r = free_view(free);
        let (e, p) = row_end_exec(weights, name_widths, labels, i, &free.w, &free.h, &free.d, t);
        proof {
            lemma_wsum_split(ws, i as int, e as int, n as int);
            lemma_wsum_nonneg(ws, e as int, n as int);
            lemma_wsum_nonneg(ws, i as int, e as int);
            lemma_rest_in(ws, i as int, e as int, r, t as int, area);
        }
        free = layout_row(weights, i, e, p, t, free, area, &mut out);
        t = t - p;
        i = e;
    }
    out
}

} // verus!
