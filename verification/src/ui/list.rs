//! The list view: which rows are on screen and how wide the name column is.
use crate::app::{first_name, App};
use crate::tree::Node;
use std::sync::Arc;
use vstd::prelude::*;

verus! {

/// Columns the size, bar and percentage columns take with their gaps.
pub open spec fn fixed_columns() -> int {
    45int
}

/// Width of the name column for a list `inner_w` columns wide: what the
/// other columns leave, but at least 8.
pub open spec fn name_column(inner_w: int) -> int {
    if inner_w - fixed_columns() >= 8 {
        inner_w - fixed_columns()
    } else {
        8
    }
}

pub fn list_name_width(inner_w: usize) -> (w: usize)
    ensures
        w == name_column(inner_w as int),
{
    let size_w: usize = 11;
    let pct_w: usize = 7;
    let bar_w: usize = 18;
    let spacers: usize = 3 * 3;
    let rest = inner_w.saturating_sub(size_w + pct_w + bar_w + spacers);
    if rest > 8 {
        rest
    } else {
        8
    }
}

/// The names of `vis`, in order.
pub open spec fn names_of(vis: Seq<Arc<Node>>) -> Seq<String> {
    vis.map_values(|c: Arc<Node>| c.name)
}

/// Records what the list view shows: selects the first row when nothing
/// is selected, forgets the tile layout (spatial moves do not apply to
/// the list) and remembers the rows' names.
pub fn sync_list(app: &mut App, visible: &Vec<Arc<Node>>)
    ensures
        final(app).last_layout@.len() == 0,
        final(app).last_order@ == names_of(visible@),
        *final(app) == (App {
            last_layout: final(app).last_layout,
            last_order: final(app).last_order,
            selected_name: if old(app).selected_name is None {
                first_name(visible@)
            } else {
                old(app).selected_name
            },
            ..*old(app)
        }),
{
    if app.selected_name.is_none() {
        app.selected_name = if visible.len() > 0 {
            Some(visible[0].name.clone())
        } else {
            None
        };
    }
    app.last_layout.clear();
    app.last_order = names(visible);
}

/// The names of `visible`, in order.
pub fn names(visible: &Vec<Arc<Node>>) -> (r: Vec<String>)
    ensures
        r@ == names_of(visible@),
{
    let n = visible.len();
    let mut out: Vec<String> = Vec::new();
    let mut i: usize = 0;
    while i < n
        invariant
            n == visible@.len(),
            i <= n,
            out@ == names_of(visible@.take(i as int)),
        decreases n - i,
    {
        out.push(visible[i].name.clone());
        proof {
            assert(names_of(visible@.take(i + 1)) =~= names_of(visible@.take(i as int)).push(
                visible@[i as int].name,
            ));
        }
        i = i + 1;
    }
    proof {
        assert(visible@.take(n as int) =~= visible@);
    }
    out
}

/// The first row shown: moved just enough to bring row `sel` into a
/// window of `rows` rows, then pulled back so that the window does not
/// run past the last of `len` rows (or to the top when all fit).
pub open spec fn scrolled_offset(offset: int, sel: int, rows: int, len: int) -> int {
    let o = if sel < offset {
        sel
    } else if sel >= offset + rows {
        sel + 1 - rows
    } else {
        offset
    };
    if len <= rows {
        0
    } else if o + rows > len {
        len - rows
    } else {
        o
    }
}

/// Scrolls the list so that row `selected_idx` of `len` rows is within
/// the `rows` on screen.
pub fn scroll_list(app: &mut App, selected_idx: usize, rows: usize, len: usize)
    requires
        old(app).list_offset + rows <= usize::MAX,
        rows == 0 && selected_idx >= old(app).list_offset ==> selected_idx < usize::MAX,
    ensures
        final(app).list_offset == scrolled_offset(
            old(app).list_offset as int,
            selected_idx as int,
            rows as int,
            len as int,
        ),
        rows > 0 && selected_idx < len ==> final(app).list_offset <= selected_idx < final(app).list_offset
            + rows,
        final(app).list_offset + rows <= len || final(app).list_offset == 0,
        *final(app) == (App { list_offset: final(app).list_offset, ..*old(app) }),
{
    if selected_idx < app.list_offset {
        app.list_offset = selected_idx;
    } else if selected_idx >= app.list_offset + rows {
        app.list_offset = if rows == 0 {
            selected_idx + 1
        } else {
            selected_idx - (rows - 1)
        };
    }
    if len <= rows {
        app.list_offset = 0;
    } else if app.list_offset > len - rows {
        app.list_offset = len - rows;
    }
}

} // verus!
