//! What a treemap row costs, which decides where rows break: without
//! labels, the worst ratio of a cell's longer side to its shorter one;
//! with labels, a cell counts as too narrow by the width the layout
//! actually gives it, and only such cells make a row dearer.
use crate::treemap::{
    cost_le, lemma_wsum_nonneg, lemma_wsum_split, rest, row_cost, trunc_count, truncated, wmax,
    wmin, wsum, Region,
};
use vstd::prelude::*;

verus! {

/// Cell `j` of the row `ws[s..e]` cut off the free part `r` (which still
/// has to hold the weight `t`) is narrower than its label width `nws[j]`,
/// measured before rounding. In a wide free part every cell of the row
/// spans the strip, from the free part's edge `r.x / r.d` to the edge of
/// the free part left after the row; in a tall one cell `j` spans from the
/// exact boundary before it to the exact one after it, the boundaries
/// cutting the width `r.w / r.d` in proportion to the weights before them.
pub open spec fn narrower_than_label(
    ws: Seq<u64>,
    nws: Seq<usize>,
    s: int,
    e: int,
    j: int,
    r: Region,
    t: int,
) -> bool {
    let p = wsum(ws, s, e);
    if r.w >= r.h {
        let g = rest(ws, s, e, r, t);
        // g.x / g.d - r.x / r.d < nws[j]
        g.x * r.d - r.x * g.d < nws[j] * (r.d * g.d)
    } else {
        // (r.x * p + before(j + 1) * r.w) / (p * r.d) - (r.x * p + before(j) * r.w) / (p * r.d)
        (r.x * p + wsum(ws, s, j + 1) * r.w) - (r.x * p + wsum(ws, s, j) * r.w) < nws[j] * (p
            * r.d)
    }
}

/// The label penalty counts a cell exactly when the width the layout gives
/// it is below its label's width.
pub proof fn lemma_truncated_is_narrow_cell(
    ws: Seq<u64>,
    nws: Seq<usize>,
    s: int,
    e: int,
    j: int,
    r: Region,
    t: int,
)
    requires
        0 <= s <= j < e <= ws.len(),
        0 < wsum(ws, s, e) <= t,
        r.d > 0,
    ensures
        truncated(ws, nws, j, r.w >= r.h, r.w, r.d, wsum(ws, s, e), t) == narrower_than_label(
            ws,
            nws,
            s,
            e,
            j,
            r,
            t,
        ),
{
    let p = wsum(ws, s, e);
    let nw = nws[j] as int;
    if r.w >= r.h {
        let g = rest(ws, s, e, r, t);
        assert(g.x == r.x * t + p * r.w && g.d == r.d * t);
        assert(g.x * r.d - r.x * g.d == (p * r.w) * r.d) by (nonlinear_arith)
            requires
                g.x == r.x * t + p * r.w,
                g.d == r.d * t,
        ;
        assert(nw * (r.d * g.d) == (nw * t * r.d) * r.d) by (nonlinear_arith)
            requires
                g.d == r.d * t,
        ;
        assert(((p * r.w) * r.d < (nw * t * r.d) * r.d) == (p * r.w < nw * t * r.d))
            by (nonlinear_arith)
            requires
                r.d > 0,
        ;
    } else {
        lemma_wsum_split(ws, s, j, j + 1);
        assert(wsum(ws, j, j) == 0);
        assert(wsum(ws, s, j + 1) == wsum(ws, s, j) + ws[j]);
        assert((r.x * p + wsum(ws, s, j + 1) * r.w) - (r.x * p + wsum(ws, s, j) * r.w) == ws[j]
            * r.w) by (nonlinear_arith)
            requires
                wsum(ws, s, j + 1) == wsum(ws, s, j) + ws[j],
        ;
        assert(nw * (p * r.d) == nw * p * r.d) by (nonlinear_arith);
    }
}

/// Number of cells of `ws[s..e]` narrower than their labels in `r`.
proof fn lemma_trunc_count_cells(
    ws: Seq<u64>,
    nws: Seq<usize>,
    s: int,
    e: int,
    k: int,
    r: Region,
    t: int,
)
    requires
        0 <= s <= k <= e <= ws.len(),
        0 < wsum(ws, s, e) <= t,
        r.d > 0,
    ensures
        0 <= trunc_count(ws, nws, s, k, r.w >= r.h, r.w, r.d, wsum(ws, s, e), t),
        (trunc_count(ws, nws, s, k, r.w >= r.h, r.w, r.d, wsum(ws, s, e), t) == 0) == (forall|j: int|
            s <= j < k ==> !#[trigger] narrower_than_label(ws, nws, s, e, j, r, t)),
    decreases k - s,
{
    if k > s {
        lemma_trunc_count_cells(ws, nws, s, e, k - 1, r, t);
        lemma_truncated_is_narrow_cell(ws, nws, s, e, k - 1, r, t);
    }
}

/// Labels weigh on a row only through its narrow cells: a row none of whose
/// cells is narrower than its label costs what it costs without labels,
/// and a row with such a cell costs strictly more.
pub proof fn lemma_labels_cost_only_narrow_cells(
    ws: Seq<u64>,
    nws: Seq<usize>,
    s: int,
    e: int,
    r: Region,
    t: int,
)
    requires
        0 <= s < e <= ws.len(),
        0 < wsum(ws, s, e) <= t,
        r.d > 0,
    ensures
        (forall|j: int| s <= j < e ==> !#[trigger] narrower_than_label(ws, nws, s, e, j, r, t))
            ==> cost_le(
            row_cost(ws, nws, true, s, e, r.w, r.h, r.d, t),
            row_cost(ws, nws, false, s, e, r.w, r.h, r.d, t),
        ) && cost_le(
            row_cost(ws, nws, false, s, e, r.w, r.h, r.d, t),
            row_cost(ws, nws, true, s, e, r.w, r.h, r.d, t),
        ),
        (exists|j: int| s <= j < e && #[trigger] narrower_than_label(ws, nws, s, e, j, r, t))
            && row_cost(ws, nws, false, s, e, r.w, r.h, r.d, t) is Some ==> !cost_le(
            row_cost(ws, nws, true, s, e, r.w, r.h, r.d, t),
            row_cost(ws, nws, false, s, e, r.w, r.h, r.d, t),
        ),
{
    let p = wsum(ws, s, e);
    lemma_trunc_count_cells(ws, nws, s, e, e, r, t);
    let c = trunc_count(ws, nws, s, e, r.w >= r.h, r.w, r.d, p, t);
    let lab = row_cost(ws, nws, true, s, e, r.w, r.h, r.d, t);
    let pla = row_cost(ws, nws, false, s, e, r.w, r.h, r.d, t);
    if pla is Some {
        let (wn, wd) = pla->0;
        let k = e - s;
        assert(lab == Some((wn * k + 2 * c * wd, wd * k)));
        let mn = wmin(ws, s, e);
        let short = if r.w <= r.h {
            r.w
        } else {
            r.h
        };
        let long = if r.w <= r.h {
            r.h
        } else {
            r.w
        };
        assert(short > 0 && p > 0 && mn > 0);
        assert(long > 0);
        assert(p * p * long > 0) by (nonlinear_arith)
            requires
                p > 0,
                long > 0,
        ;
        assert(short * mn * t > 0) by (nonlinear_arith)
            requires
                short > 0,
                mn > 0,
                t > 0,
        ;
        assert(wd > 0);
        if c == 0 {
            assert((wn * k + 2 * c * wd) * wd == wn * (wd * k)) by (nonlinear_arith)
                requires
                    c == 0,
            ;
        } else {
            assert(c > 0);
            assert((wn * k + 2 * c * wd) * wd > wn * (wd * k)) by (nonlinear_arith)
                requires
                    c > 0,
                    wd > 0,
            ;
        }
    }
}

/// The largest and the smallest item of a row are items of the row, and
/// bound every item of it.
proof fn lemma_row_extremes(ws: Seq<u64>, s: int, e: int)
    requires
        0 <= s < e <= ws.len(),
    ensures
        forall|j: int| s <= j < e ==> wmin(ws, s, e) <= #[trigger] ws[j] <= wmax(ws, s, e),
        exists|j: int| s <= j < e && #[trigger] ws[j] == wmax(ws, s, e),
        exists|j: int| s <= j < e && #[trigger] ws[j] == wmin(ws, s, e),
    decreases e - s,
{
    if e > s + 1 {
        lemma_row_extremes(ws, s, e - 1);
        if ws[e - 1] > wmax(ws, s, e - 1) {
            assert(ws[e - 1] == wmax(ws, s, e));
        } else {
            let j = choose|j: int| s <= j < e - 1 && #[trigger] ws[j] == wmax(ws, s, e - 1);
            assert(ws[j] == wmax(ws, s, e));
        }
        if ws[e - 1] < wmin(ws, s, e - 1) {
            assert(ws[e - 1] == wmin(ws, s, e));
        } else {
            let j = choose|j: int| s <= j < e - 1 && #[trigger] ws[j] == wmin(ws, s, e - 1);
            assert(ws[j] == wmin(ws, s, e));
        }
    } else {
        assert(ws[s] == wmax(ws, s, e));
    }
}

/// The sides of cell `j` of the row `ws[s..e]` (of weight `p`) cut off a
/// free part of width `w` and height `h` that holds the weight `t`, as
/// (width numerator, width denominator, height numerator, height
/// denominator): in a wide free part the row is a strip `p * w / t` wide
/// whose cells are `ws[j] * h / p` tall; in a tall one a strip
/// `p * h / t` tall whose cells are `ws[j] * w / p` wide.
pub open spec fn cell_sides(ws: Seq<u64>, s: int, e: int, j: int, w: int, h: int, t: int) -> (
    int,
    int,
    int,
    int,
) {
    let p = wsum(ws, s, e);
    if w >= h {
        (p * w, t, ws[j] * h, p)
    } else {
        (ws[j] * w, p, p * h, t)
    }
}

/// The cell's longer side over its shorter one is at most `c.0 / c.1`.
pub open spec fn aspect_at_most(sides: (int, int, int, int), c: (int, int)) -> bool {
    let (wn, wd, hn, hd) = sides;
    &&& wn * hd * c.1 <= c.0 * wd * hn
    &&& hn * wd * c.1 <= c.0 * hd * wn
}

/// The cell's longer side over its shorter one is exactly `c.0 / c.1`.
pub open spec fn aspect_is(sides: (int, int, int, int), c: (int, int)) -> bool {
    let (wn, wd, hn, hd) = sides;
    wn * hd * c.1 == c.0 * wd * hn || hn * wd * c.1 == c.0 * hd * wn
}

/// Without labels, a row's cost is its worst cell: the largest ratio of a
/// cell's longer side to its shorter one.
pub proof fn lemma_row_cost_is_worst_aspect(
    ws: Seq<u64>,
    nws: Seq<usize>,
    s: int,
    e: int,
    w: int,
    h: int,
    d: int,
    t: int,
)
    requires
        0 <= s < e <= ws.len(),
        0 < wsum(ws, s, e) <= t,
        w > 0,
        h > 0,
        wmin(ws, s, e) > 0,
    ensures
        row_cost(ws, nws, false, s, e, w, h, d, t) is Some,
        forall|j: int|
            s <= j < e ==> aspect_at_most(
                #[trigger] cell_sides(ws, s, e, j, w, h, t),
                row_cost(ws, nws, false, s, e, w, h, d, t)->0,
            ),
        exists|j: int|
            s <= j < e && aspect_is(
                #[trigger] cell_sides(ws, s, e, j, w, h, t),
                row_cost(ws, nws, false, s, e, w, h, d, t)->0,
            ),
{
    let p = wsum(ws, s, e);
    let mx = wmax(ws, s, e);
    let mn = wmin(ws, s, e);
    lemma_row_extremes(ws, s, e);
    let short = if w <= h {
        w
    } else {
        h
    };
    let long = if w <= h {
        h
    } else {
        w
    };
    let an = short * mx * t;
    let ad = p * p * long;
    let bn = p * p * long;
    let bd = short * mn * t;
    let c = row_cost(ws, nws, false, s, e, w, h, d, t)->0;
    assert(ad > 0 && bd > 0 && an > 0) by (nonlinear_arith)
        requires
            p > 0,
            long > 0,
            short > 0,
            mn > 0,
            mx > 0,
            t > 0,
            ad == p * p * long,
            bd == short * mn * t,
            an == short * mx * t,
    ;
    // c is the larger of an / ad and bn / bd.
    assert(c.1 > 0);
    assert(an * c.1 <= c.0 * ad && bn * c.1 <= c.0 * bd) by (nonlinear_arith)
        requires
            (c == (an, ad) && an * bd >= bn * ad) || (c == (bn, bd) && an * bd < bn * ad),
            ad > 0,
            bd > 0,
    ;
    assert forall|j: int| s <= j < e implies aspect_at_most(
        #[trigger] cell_sides(ws, s, e, j, w, h, t),
        c,
    ) by {
        let v = ws[j] as int;
        assert(mn <= v <= mx);
        if w >= h {
            // width p * w / t, height v * h / p
            assert(p * w * p * c.1 <= c.0 * t * (v * h)) by (nonlinear_arith)
                requires
                    bn * c.1 <= c.0 * bd,
                    bn == p * p * w,
                    bd == h * mn * t,
                    mn <= v,
                    c.0 >= 0,
                    h > 0,
                    t > 0,
            ;
            assert(v * h * t * c.1 <= c.0 * p * (p * w)) by (nonlinear_arith)
                requires
                    an * c.1 <= c.0 * ad,
                    an == h * mx * t,
                    ad == p * p * w,
                    v <= mx,
                    c.1 > 0,
                    h > 0,
                    t > 0,
            ;
        } else {
            // width v * w / p, height p * h / t
            assert(v * w * t * c.1 <= c.0 * p * (p * h)) by (nonlinear_arith)
                requires
                    an * c.1 <= c.0 * ad,
                    an == w * mx * t,
                    ad == p * p * h,
                    v <= mx,
                    c.1 > 0,
                    w > 0,
                    t > 0,
            ;
            assert(p * h * p * c.1 <= c.0 * t * (v * w)) by (nonlinear_arith)
                requires
                    bn * c.1 <= c.0 * bd,
                    bn == p * p * h,
                    bd == w * mn * t,
                    mn <= v,
                    c.0 >= 0,
                    w > 0,
                    t > 0,
            ;
        }
    }
    let jx = choose|j: int| s <= j < e && #[trigger] ws[j] == mx;
    let jn = choose|j: int| s <= j < e && #[trigger] ws[j] == mn;
    if c == (an, ad) {
        let v = ws[jx] as int;
        if w >= h {
            assert(v * h * t * c.1 == c.0 * p * (p * w)) by (nonlinear_arith)
                requires
                    c == (an, ad),
                    an == h * mx * t,
                    ad == p * p * w,
                    v == mx,
            ;
        } else {
            assert(v * w * t * c.1 == c.0 * p * (p * h)) by (nonlinear_arith)
                requires
                    c == (an, ad),
                    an == w * mx * t,
                    ad == p * p * h,
                    v == mx,
            ;
        }
        assert(aspect_is(cell_sides(ws, s, e, jx, w, h, t), c));
    } else {
        let v = ws[jn] as int;
        if w >= h {
            assert(p * w * p * c.1 == c.0 * t * (v * h)) by (nonlinear_arith)
                requires
                    c == (bn, bd),
                    bn == p * p * w,
                    bd == h * mn * t,
                    v == mn,
            ;
        } else {
            assert(p * h * p * c.1 == c.0 * t * (v * w)) by (nonlinear_arith)
                requires
                    c == (bn, bd),
                    bn == p * p * h,
                    bd == w * mn * t,
                    v == mn,
            ;
        }
        assert(aspect_is(cell_sides(ws, s, e, jn, w, h, t), c));
    }
}

} // verus!
