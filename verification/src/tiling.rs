//! The treemap tiles its area: every cell stays inside, no two cells
//! overlap, and together they cover the area exactly.
use crate::treemap::{
    boundary, cell, cost_le, layout, layout_input_ok, lemma_boundary_order, lemma_rest_in,
    lemma_round_div_exact, lemma_round_div_le, lemma_round_div_scale, lemma_row_end_ge,
    lemma_wsum_mono, lemma_wsum_nonneg, lemma_wsum_split, lemma_wsum_zero, region_in, region_of,
    rest, round_div, row_cost, row_end, spec_squarify, squarify_from, strip_end, wsum, zero_rects,
    Region,
};
use crate::{zero_rect, Rect};
use vstd::prelude::*;

verus! {

/// Total area of `out[lo..hi]`.
pub open spec fn area_sum(out: Seq<Rect>, lo: int, hi: int) -> int
    decreases hi - lo,
{
    if hi <= lo {
        0
    } else {
        area_sum(out, lo, hi - 1) + out[hi - 1].area()
    }
}

/// `out` tiles `area`: each rect lies inside it (an item of weight 0 may
/// instead get the zero rectangle), no two rects overlap, and the areas add
/// up to the whole.
pub open spec fn tiles(out: Seq<Rect>, ws: Seq<u64>, area: Rect) -> bool {
    &&& out.len() == ws.len()
    &&& forall|i: int|
        0 <= i < out.len() ==> #[trigger] out[i].inside(area) || (ws[i] == 0 && out[i]
            == zero_rect())
    &&& forall|i: int, j: int|
        0 <= i < j < out.len() ==> !(#[trigger] out[i]).overlaps(#[trigger] out[j])
    &&& area_sum(out, 0, out.len() as int) == area.area()
}

/// The whole cells of the free part `r`: from its rounded start to its
/// rounded far edges (over the denominator 1).
pub open spec fn cells_of(r: Region) -> Region {
    let x0 = round_div(r.x, r.d);
    let y0 = round_div(r.y, r.d);
    Region {
        x: x0,
        y: y0,
        w: round_div(r.x + r.w, r.d) - x0,
        h: round_div(r.y + r.h, r.d) - y0,
        d: 1,
    }
}

/// `c` and the whole cells `f` share no interior point.
pub open spec fn separated(c: Rect, f: Region) -> bool {
    ||| c.x + c.width <= f.x
    ||| f.x + f.w <= c.x
    ||| c.y + c.height <= f.y
    ||| f.y + f.h <= c.y
}

/// What holds before each row is placed.
pub open spec fn tiling_inv(
    ws: Seq<u64>,
    area: Rect,
    s: int,
    r: Region,
    t: int,
    out: Seq<Rect>,
) -> bool {
    let n = ws.len() as int;
    let f = cells_of(r);
    &&& out.len() == n
    &&& 0 <= s <= n
    &&& region_in(r, area)
    &&& t == wsum(ws, s, n)
    &&& (t == 0 ==> r.w == 0 || r.h == 0)
    &&& forall|j: int| s <= j < n ==> #[trigger] out[j] == zero_rect()
    &&& forall|j: int|
        0 <= j < s ==> #[trigger] out[j].inside(area) || (ws[j] == 0 && out[j] == zero_rect())
    &&& forall|j: int| 0 <= j < s ==> separated(#[trigger] out[j], f)
    &&& forall|i: int, j: int| 0 <= i < j < s ==> !(#[trigger] out[i]).overlaps(#[trigger] out[j])
    &&& area_sum(out, 0, n) + f.w * f.h == area.area()
}

/// The whole cells of a free part that lies in the area lie in it too and
/// reach its far edges.
proof fn lemma_cells_in(r: Region, area: Rect)
    requires
        region_in(r, area),
    ensures
        ({
            let f = cells_of(r);
            &&& area.x <= f.x
            &&& area.y <= f.y
            &&& f.x + f.w == area.x + area.width
            &&& f.y + f.h == area.y + area.height
            &&& f.w >= 0
            &&& f.h >= 0
            &&& (r.w == 0 ==> f.w == 0)
            &&& (r.h == 0 ==> f.h == 0)
        }),
{
    let ax = area.x as int;
    let ay = area.y as int;
    lemma_round_div_le(ax * r.d, r.x, r.d);
    lemma_round_div_le(ay * r.d, r.y, r.d);
    lemma_round_div_exact(ax, r.d);
    lemma_round_div_exact(ay, r.d);
    lemma_round_div_exact(ax + area.width, r.d);
    lemma_round_div_exact(ay + area.height, r.d);
    lemma_round_div_le(r.x, r.x + r.w, r.d);
    lemma_round_div_le(r.y, r.y + r.h, r.d);
}

/// Sum of the areas of the cells `s..k` of the row `ws[s..e]`.
pub open spec fn cells_area(ws: Seq<u64>, s: int, e: int, r: Region, t: int, k: int) -> int
    decreases k - s,
{
    if k <= s {
        0
    } else {
        cells_area(ws, s, e, r, t, k - 1) + cell(ws, s, e, k - 1, r, t).area()
    }
}

/// The strip that a row of some weight cuts off a wide free part ends
/// within its whole cells, and the free part after it starts there.
proof fn lemma_strip_end(ws: Seq<u64>, s: int, e: int, start: int, ext: int, d: int, t: int)
    requires
        0 < wsum(ws, s, e) <= t,
        start >= 0,
        ext >= 0,
        d > 0,
    ensures
        round_div(start, d) <= strip_end(ws, s, e, start, ext, d, t) <= round_div(start + ext, d),
        round_div(start * t, d * t) == round_div(start, d),
        round_div((start + ext) * t, d * t) == round_div(start + ext, d),
{
    let p = wsum(ws, s, e);
    lemma_round_div_scale(start, d, t);
    lemma_round_div_scale(start + ext, d, t);
    assert(start * t <= start * t + p * ext <= (start + ext) * t) by (nonlinear_arith)
        requires
            0 <= p <= t,
            ext >= 0,
    ;
    assert(d * t > 0) by (nonlinear_arith)
        requires
            d > 0,
            t >= p > 0,
    ;
    lemma_round_div_le(start * t, start * t + p * ext, d * t);
    lemma_round_div_le(start * t + p * ext, (start + ext) * t, d * t);
}

/// The cells of one row: where they lie, that they do not overlap, and how
/// much area they take.
proof fn lemma_row_cells(ws: Seq<u64>, s: int, e: int, r: Region, t: int, area: Rect)
    requires
        0 <= s < e <= ws.len(),
        wsum(ws, s, e) > 0,
        wsum(ws, s, e) <= t,
        region_in(r, area),
        area.x + area.width <= u32::MAX,
        area.y + area.height <= u32::MAX,
    ensures
        ({
            let f = cells_of(r);
            let g = cells_of(rest(ws, s, e, r, t));
            &&& forall|j: int|
                s <= j < e ==> {
                    let c = #[trigger] cell(ws, s, e, j, r, t);
                    &&& f.x <= c.x
                    &&& c.x + c.width <= f.x + f.w
                    &&& f.y <= c.y
                    &&& c.y + c.height <= f.y + f.h
                    &&& separated(c, g)
                }
            &&& forall|i: int, j: int|
                s <= i < j < e ==> !(#[trigger] cell(ws, s, e, i, r, t)).overlaps(
                    #[trigger] cell(ws, s, e, j, r, t),
                )
            &&& cells_area(ws, s, e, r, t, e) + g.w * g.h == f.w * f.h
            &&& g.x >= f.x
            &&& g.y >= f.y
            &&& g.x + g.w == f.x + f.w
            &&& g.y + g.h == f.y + f.h
        }),
        wsum(ws, s, e) == t ==> rest(ws, s, e, r, t).w == 0 || rest(ws, s, e, r, t).h == 0,
{
    let p = wsum(ws, s, e);
    let f = cells_of(r);
    let rr = rest(ws, s, e, r, t);
    let g = cells_of(rr);
    lemma_cells_in(r, area);
    lemma_rest_in(ws, s, e, r, t, area);
    lemma_cells_in(rr, area);
    assert(r.x >= 0 && r.y >= 0) by (nonlinear_arith)
        requires
            r.x >= area.x * r.d,
            r.y >= area.y * r.d,
            r.d > 0,
    ;
    let wide = r.w >= r.h;
    if wide {
        let x1 = strip_end(ws, s, e, r.x, r.w, r.d, t);
        lemma_strip_end(ws, s, e, r.x, r.w, r.d, t);
        assert(g.x == x1);
        lemma_round_div_scale(r.y, r.d, t);
        lemma_round_div_scale(r.y + r.h, r.d, t);
        assert(rr.y == r.y * t && rr.d == r.d * t);
        assert(rr.y + rr.h == (r.y + r.h) * t) by (nonlinear_arith)
            requires
                rr.y == r.y * t,
                rr.h == r.h * t,
        ;
        assert(g.y == f.y);
    } else {
        let y1 = strip_end(ws, s, e, r.y, r.h, r.d, t);
        lemma_strip_end(ws, s, e, r.y, r.h, r.d, t);
        assert(g.y == y1);
        lemma_round_div_scale(r.x, r.d, t);
        lemma_round_div_scale(r.x + r.w, r.d, t);
        assert(rr.x == r.x * t && rr.d == r.d * t);
        assert(rr.x + rr.w == (r.x + r.w) * t) by (nonlinear_arith)
            requires
                rr.x == r.x * t,
                rr.w == r.w * t,
        ;
        assert(g.x == f.x);
    }
    let start = if wide {
        r.y
    } else {
        r.x
    };
    let len = if wide {
        r.h
    } else {
        r.w
    };
    assert forall|j: int| s <= j < e implies {
        let c = #[trigger] cell(ws, s, e, j, r, t);
        &&& f.x <= c.x
        &&& c.x + c.width <= f.x + f.w
        &&& f.y <= c.y
        &&& c.y + c.height <= f.y + f.h
        &&& separated(c, g)
    } by {
        lemma_boundary_order(ws, s, e, j, j + 1, start, len, r.d);
    }
    assert forall|i: int, j: int| s <= i < j < e implies !(#[trigger] cell(
        ws,
        s,
        e,
        i,
        r,
        t,
    )).overlaps(#[trigger] cell(ws, s, e, j, r, t)) by {
        lemma_boundary_order(ws, s, e, i, i + 1, start, len, r.d);
        lemma_boundary_order(ws, s, e, i + 1, j, start, len, r.d);
        lemma_boundary_order(ws, s, e, j, j + 1, start, len, r.d);
    }
    lemma_cells_area(ws, s, e, r, t, area, e);
    if wide {
        let th = strip_end(ws, s, e, r.x, r.w, r.d, t) - f.x;
        assert(boundary(ws, s, e, e, r.y, r.h, r.d) == f.y + f.h);
        assert(cells_area(ws, s, e, r, t, e) == th * f.h);
        assert(g.w == f.w - th && g.h == f.h);
        assert(th * f.h + (f.w - th) * f.h == f.w * f.h) by (nonlinear_arith);
    } else {
        let th = strip_end(ws, s, e, r.y, r.h, r.d, t) - f.y;
        assert(boundary(ws, s, e, e, r.x, r.w, r.d) == f.x + f.w);
        assert(cells_area(ws, s, e, r, t, e) == th * f.w);
        assert(g.w == f.w && g.h == f.h - th);
        assert(th * f.w + f.w * (f.h - th) == f.w * f.h) by (nonlinear_arith);
    }
    if p == t {
        assert(t - p == 0);
        assert(r.w * 0 == 0 && r.h * 0 == 0);
    }
}

/// The areas of the first cells of a row add up to the strip's thickness
/// times the length they run along.
proof fn lemma_cells_area(ws: Seq<u64>, s: int, e: int, r: Region, t: int, area: Rect, k: int)
    requires
        0 <= s < e <= ws.len(),
        s <= k <= e,
        wsum(ws, s, e) > 0,
        wsum(ws, s, e) <= t,
        region_in(r, area),
        area.x + area.width <= u32::MAX,
        area.y + area.height <= u32::MAX,
    ensures
        r.w >= r.h ==> cells_area(ws, s, e, r, t, k) == (strip_end(ws, s, e, r.x, r.w, r.d, t)
            - round_div(r.x, r.d)) * (boundary(ws, s, e, k, r.y, r.h, r.d) - round_div(r.y, r.d)),
        r.w < r.h ==> cells_area(ws, s, e, r, t, k) == (strip_end(ws, s, e, r.y, r.h, r.d, t)
            - round_div(r.y, r.d)) * (boundary(ws, s, e, k, r.x, r.w, r.d) - round_div(r.x, r.d)),
    decreases k - s,
{
    lemma_cells_in(r, area);
    assert(r.x >= 0 && r.y >= 0) by (nonlinear_arith)
        requires
            r.x >= area.x * r.d,
            r.y >= area.y * r.d,
            r.d > 0,
    ;
    if k == s {
    } else {
        lemma_cells_area(ws, s, e, r, t, area, k - 1);
        let c = cell(ws, s, e, k - 1, r, t);
        if r.w >= r.h {
            let x0 = round_div(r.x, r.d);
            let th = strip_end(ws, s, e, r.x, r.w, r.d, t) - x0;
            lemma_strip_end(ws, s, e, r.x, r.w, r.d, t);
            lemma_boundary_order(ws, s, e, k - 1, k, r.y, r.h, r.d);
            let y0 = round_div(r.y, r.d);
            let b0 = boundary(ws, s, e, k - 1, r.y, r.h, r.d);
            let b1 = boundary(ws, s, e, k, r.y, r.h, r.d);
            assert(c.area() == th * (b1 - b0));
            assert(th * (b0 - y0) + th * (b1 - b0) == th * (b1 - y0)) by (nonlinear_arith);
        } else {
            let y0 = round_div(r.y, r.d);
            let th = strip_end(ws, s, e, r.y, r.h, r.d, t) - y0;
            lemma_strip_end(ws, s, e, r.y, r.h, r.d, t);
            lemma_boundary_order(ws, s, e, k - 1, k, r.x, r.w, r.d);
            let x0 = round_div(r.x, r.d);
            let b0 = boundary(ws, s, e, k - 1, r.x, r.w, r.d);
            let b1 = boundary(ws, s, e, k, r.x, r.w, r.d);
            assert(c.area() == (b1 - b0) * th);
            assert(th * (b0 - x0) + (b1 - b0) * th == th * (b1 - x0)) by (nonlinear_arith);
        }
    }
}
/// Writing the cells of a row over zero rectangles adds their areas.
proof fn lemma_area_sum_layout(
    out: Seq<Rect>,
    ws: Seq<u64>,
    s: int,
    e: int,
    r: Region,
    t: int,
    m: int,
)
    requires
        0 <= s < e <= ws.len(),
        out.len() == ws.len(),
        wsum(ws, s, e) > 0,
        0 <= m <= out.len(),
        forall|j: int| s <= j < e ==> #[trigger] out[j] == zero_rect(),
    ensures
        area_sum(layout(out, ws, s, e, r, t), 0, m) == area_sum(out, 0, m) + (if m <= s {
            0
        } else if m <= e {
            cells_area(ws, s, e, r, t, m)
        } else {
            cells_area(ws, s, e, r, t, e)
        }),
    decreases m,
{
    if m > 0 {
        lemma_area_sum_layout(out, ws, s, e, r, t, m - 1);
        let new = layout(out, ws, s, e, r, t);
        assert(area_sum(new, 0, m) == area_sum(new, 0, m - 1) + new[m - 1].area());
        assert(area_sum(out, 0, m) == area_sum(out, 0, m - 1) + out[m - 1].area());
        assert(cells_area(ws, s, e, r, t, s) == 0);
        if s <= m - 1 < e {
            assert(out[m - 1] == zero_rect());
            lemma_zero_rect_area();
            assert(out[m - 1].area() == 0);
            assert(new[m - 1] == cell(ws, s, e, m - 1, r, t));
            assert(cells_area(ws, s, e, r, t, m) == cells_area(ws, s, e, r, t, m - 1) + cell(
                ws,
                s,
                e,
                m - 1,
                r,
                t,
            ).area());
        } else {
            assert(new[m - 1] == out[m - 1]);
        }
    }
}

proof fn lemma_zero_rect_area()
    ensures
        zero_rect().area() == 0,
{
    let z = zero_rect();
    assert(z.width * z.height == 0);
}

proof fn lemma_separated_shrink(c: Rect, r: Region, rr: Region)
    requires
        separated(c, r),
        rr.x >= r.x,
        rr.y >= r.y,
        rr.x + rr.w == r.x + r.w,
        rr.y + rr.h == r.y + r.h,
    ensures
        separated(c, rr),
{
}

/// A rect kept apart from the free part overlaps nothing inside it.
proof fn lemma_separated_no_overlap(a: Rect, r: Region, c: Rect)
    requires
        separated(a, r),
        r.x <= c.x,
        c.x + c.width <= r.x + r.w,
        r.y <= c.y,
        c.y + c.height <= r.y + r.h,
    ensures
        !a.overlaps(c),
        !c.overlaps(a),
{
}

/// Placing one row keeps the invariant.
proof fn lemma_row_step(
    ws: Seq<u64>,
    nws: Seq<usize>,
    labels: bool,
    area: Rect,
    s: int,
    r: Region,
    t: int,
    out: Seq<Rect>,
)
    requires
        tiling_inv(ws, area, s, r, t, out),
        s < ws.len(),
        layout_input_ok(ws, area),
    ensures
        ({
            let e = row_end(ws, nws, labels, s, s + 1, r.w, r.h, r.d, t);
            &&& s < e <= ws.len()
            &&& tiling_inv(
                ws,
                area,
                e,
                rest(ws, s, e, r, t),
                t - wsum(ws, s, e),
                layout(out, ws, s, e, r, t),
            )
        }),
{
    let n = ws.len() as int;
    let e = row_end(ws, nws, labels, s, s + 1, r.w, r.h, r.d, t);
    lemma_row_end_ge(ws, nws, labels, s, s + 1, r.w, r.h, r.d, t);
    let p = wsum(ws, s, e);
    lemma_wsum_split(ws, s, e, n);
    lemma_wsum_nonneg(ws, e, n);
    lemma_wsum_nonneg(ws, s, e);
    let rr = rest(ws, s, e, r, t);
    let new = layout(out, ws, s, e, r, t);
    let f = cells_of(r);
    let g = cells_of(rr);
    lemma_rest_in(ws, s, e, r, t, area);
    if p == 0 {
        // A row of weight 0 has an infinite cost, so it runs to the end.
        assert(row_cost(ws, nws, labels, s, e, r.w, r.h, r.d, t) is None);
        assert(e >= n);
        assert(new == out);
        assert(rr == r);
        assert forall|j: int| 0 <= j < e implies #[trigger] new[j].inside(area) || (ws[j] == 0
            && new[j] == zero_rect()) by {
            if j >= s {
                lemma_wsum_zero(ws, s, e, j);
            }
        }
        assert forall|j: int| 0 <= j < e implies separated(#[trigger] new[j], g) by {
            if j >= s {
                assert(new[j] == zero_rect());
            }
        }
        assert forall|i: int, j: int| 0 <= i < j < e implies !(#[trigger] new[i]).overlaps(
            #[trigger] new[j],
        ) by {
            if j >= s {
                assert(new[j] == zero_rect());
            }
        }
    } else {
        lemma_row_cells(ws, s, e, r, t, area);
        lemma_cells_in(r, area);
        assert forall|j: int| e <= j < n implies #[trigger] new[j] == zero_rect() by {
            assert(new[j] == out[j]);
        }
        assert forall|j: int| 0 <= j < e implies #[trigger] new[j].inside(area) || (ws[j] == 0
            && new[j] == zero_rect()) by {
            if j >= s {
                assert(new[j] == cell(ws, s, e, j, r, t));
            } else {
                assert(new[j] == out[j]);
            }
        }
        assert forall|j: int| 0 <= j < e implies separated(#[trigger] new[j], g) by {
            if j >= s {
                assert(new[j] == cell(ws, s, e, j, r, t));
            } else {
                assert(new[j] == out[j]);
                lemma_separated_shrink(out[j], f, g);
            }
        }
        assert forall|i: int, j: int| 0 <= i < j < e implies !(#[trigger] new[i]).overlaps(
            #[trigger] new[j],
        ) by {
            if i >= s {
                assert(new[i] == cell(ws, s, e, i, r, t));
                assert(new[j] == cell(ws, s, e, j, r, t));
            } else if j >= s {
                assert(new[i] == out[i]);
                assert(new[j] == cell(ws, s, e, j, r, t));
                lemma_separated_no_overlap(out[i], f, new[j]);
            } else {
                assert(new[i] == out[i]);
                assert(new[j] == out[j]);
            }
        }
        assert forall|j: int| s <= j < e implies #[trigger] out[j] == zero_rect() by {}
        lemma_area_sum_layout(out, ws, s, e, r, t, n);
    }
}

proof fn lemma_squarify_from_tiles(
    ws: Seq<u64>,
    nws: Seq<usize>,
    labels: bool,
    area: Rect,
    s: int,
    r: Region,
    t: int,
    out: Seq<Rect>,
)
    requires
        tiling_inv(ws, area, s, r, t, out),
        layout_input_ok(ws, area),
    ensures
        tiles(squarify_from(ws, nws, labels, s, r, t, out), ws, area),
    decreases ws.len() - s,
{
    if s >= ws.len() {
        assert(wsum(ws, s, s) == 0);
        lemma_cells_in(r, area);
        let f = cells_of(r);
        assert(f.w * f.h == 0) by (nonlinear_arith)
            requires
                f.w == 0 || f.h == 0,
        ;
    } else {
        let e = row_end(ws, nws, labels, s, s + 1, r.w, r.h, r.d, t);
        lemma_row_step(ws, nws, labels, area, s, r, t, out);
        lemma_squarify_from_tiles(
            ws,
            nws,
            labels,
            area,
            e,
            rest(ws, s, e, r, t),
            t - wsum(ws, s, e),
            layout(out, ws, s, e, r, t),
        );
    }
}

proof fn lemma_area_sum_zero(out: Seq<Rect>, m: int)
    requires
        0 <= m <= out.len(),
        forall|j: int| 0 <= j < out.len() ==> #[trigger] out[j] == zero_rect(),
    ensures
        area_sum(out, 0, m) == 0,
    decreases m,
{
    if m > 0 {
        lemma_area_sum_zero(out, m - 1);
        assert(out[m - 1] == zero_rect());
        lemma_zero_rect_area();
    }
}

/// The whole cells of the area itself are the area.
proof fn lemma_cells_of_area(area: Rect)
    ensures
        cells_of(region_of(area)) == (Region {
            x: area.x as int,
            y: area.y as int,
            w: area.width as int,
            h: area.height as int,
            d: 1,
        }),
{
    let r = region_of(area);
    lemma_round_div_exact(area.x as int, 1);
    lemma_round_div_exact(area.y as int, 1);
    lemma_round_div_exact(area.x + area.width, 1);
    lemma_round_div_exact(area.y + area.height, 1);
}

/// The treemap of items with some weight in an area with some extent tiles
/// the area: each cell lies inside it (an item of weight 0 may get the zero
/// rectangle instead), no two cells overlap, and the cells' areas add up
/// to the area's.
pub proof fn lemma_squarify_tiles(ws: Seq<u64>, nws: Seq<usize>, area: Rect)
    requires
        layout_input_ok(ws, area),
        ws.len() > 0,
        area.width > 0,
        area.height > 0,
        wsum(ws, 0, ws.len() as int) > 0,
    ensures
        tiles(spec_squarify(ws, nws, area), ws, area),
{
    let n = ws.len() as int;
    let z = zero_rects(n);
    lemma_area_sum_zero(z, n);
    lemma_cells_of_area(area);
    assert(area.width * area.height == area.area());
    lemma_squarify_from_tiles(
        ws,
        nws,
        nws.len() == ws.len(),
        area,
        0,
        region_of(area),
        wsum(ws, 0, n),
        z,
    );
}

/// A single item with some weight fills the whole area.
pub proof fn lemma_single_item_fills_area(w: u64, nws: Seq<usize>, area: Rect)
    requires
        w > 0,
        area.width > 0,
        area.height > 0,
        layout_input_ok(seq![w], area),
    ensures
        spec_squarify(seq![w], nws, area) == seq![area],
{
    let ws = seq![w];
    let r = region_of(area);
    let labels = nws.len() == 1;
    let t = w as int;
    assert(wsum(ws, 0, 0) == 0);
    assert(wsum(ws, 0, 1) == w);
    let e = row_end(ws, nws, labels, 0, 1, r.w, r.h, r.d, t);
    assert(e == 1);
    let out = layout(zero_rects(1), ws, 0, 1, r, t);
    lemma_cells_of_area(area);
    assert(r.x * t + t * r.w == (r.x + r.w) * t) by (nonlinear_arith);
    assert(r.y * t + t * r.h == (r.y + r.h) * t) by (nonlinear_arith);
    lemma_round_div_exact(r.x + r.w, t);
    lemma_round_div_exact(r.y + r.h, t);
    assert(r.d * t == t);
    assert(out[0] == area);
    assert(out =~= seq![area]);
    assert(squarify_from(ws, nws, labels, 1, rest(ws, 0, 1, r, t), 0, out) == out);
}

/// An empty list of label widths, or one that does not match the items one
/// for one, is ignored: the layout is the plain squarified one.
pub proof fn lemma_mismatched_labels_ignored(ws: Seq<u64>, nws: Seq<usize>, area: Rect)
    requires
        nws.len() == 0 || nws.len() != ws.len(),
    ensures
        spec_squarify(ws, nws, area) == spec_squarify(ws, Seq::empty(), area),
{
    let n = ws.len() as int;
    if nws.len() == 0 {
        assert(nws =~= Seq::<usize>::empty());
    } else if n > 0 {
        lemma_squarify_from_labels_unused(
            ws,
            nws,
            Seq::empty(),
            0,
            region_of(area),
            wsum(ws, 0, n),
            zero_rects(n),
        );
    }
}

proof fn lemma_row_end_labels_unused(
    ws: Seq<u64>,
    nws1: Seq<usize>,
    nws2: Seq<usize>,
    s: int,
    e: int,
    w: int,
    h: int,
    d: int,
    t: int,
)
    ensures
        row_end(ws, nws1, false, s, e, w, h, d, t) == row_end(ws, nws2, false, s, e, w, h, d, t),
    decreases ws.len() - e,
{
    assert(row_cost(ws, nws1, false, s, e, w, h, d, t) == row_cost(ws, nws2, false, s, e, w, h, d, t));
    assert(row_cost(ws, nws1, false, s, e + 1, w, h, d, t) == row_cost(
        ws,
        nws2,
        false,
        s,
        e + 1,
        w,
        h,
        d,
        t,
    ));
    if e < ws.len() {
        lemma_row_end_labels_unused(ws, nws1, nws2, s, e + 1, w, h, d, t);
    }
}

proof fn lemma_squarify_from_labels_unused(
    ws: Seq<u64>,
    nws1: Seq<usize>,
    nws2: Seq<usize>,
    s: int,
    r: Region,
    t: int,
    out: Seq<Rect>,
)
    ensures
        squarify_from(ws, nws1, false, s, r, t, out) == squarify_from(ws, nws2, false, s, r, t, out),
    decreases ws.len() - s,
{
    if s < ws.len() {
        lemma_row_end_labels_unused(ws, nws1, nws2, s, s + 1, r.w, r.h, r.d, t);
        let e = row_end(ws, nws1, false, s, s + 1, r.w, r.h, r.d, t);
        if e > s && e <= ws.len() {
            lemma_squarify_from_labels_unused(
                ws,
                nws1,
                nws2,
                e,
                rest(ws, s, e, r, t),
                t - wsum(ws, s, e),
                layout(out, ws, s, e, r, t),
            );
        }
    }
}

} // verus!
