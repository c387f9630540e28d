//! The tile view: how wide a tile's label is, what a tile shows, and what
//! the view remembers of the layout it drew.
use crate::app::{first_name, selection_in, App};
use crate::tree::Node;
use crate::ui::fmt::{cell_coord, to_cell_rect};
use crate::ui::list::{names, names_of};
use crate::Rect;
use std::sync::Arc;
use vstd::prelude::*;

verus! {

/// Columns a tile needs to show a node's label unshortened: the name, the
/// icon and a space (and an arrow and a space for a symlink), and a
/// column of padding on each side.
pub open spec fn wanted_width(node: Node) -> int {
    node.name@.len() + (if node.is_link {
        4int
    } else {
        2
    }) + 2
}

pub fn label_width(node: &Node) -> (w: usize)
    requires
        node.name@.len() + 6 <= usize::MAX,
    ensures
        w == wanted_width(*node),
{
    let prefix: usize = if node.is_link {
        4
    } else {
        2
    };
    node.name.as_str().unicode_len() + prefix + 2
}

/// The label widths of `visible`, in order.
pub fn label_widths(visible: &Vec<Arc<Node>>) -> (r: Vec<usize>)
    requires
        forall|i: int| 0 <= i < visible@.len() ==> visible@[i].name@.len() + 6 <= usize::MAX,
    ensures
        r@.len() == visible@.len(),
        forall|i: int| 0 <= i < visible@.len() ==> r@[i] == wanted_width(*visible@[i]),
{
    let n = visible.len();
    let mut out: Vec<usize> = Vec::new();
    let mut i: usize = 0;
    while i < n
        invariant
            n == visible@.len(),
            i <= n,
            out@.len() == i,
            forall|j: int| 0 <= j < visible@.len() ==> visible@[j].name@.len() + 6 <= usize::MAX,
            forall|j: int| 0 <= j < i ==> out@[j] == wanted_width(*visible@[j]),
        decreases n - i,
    {
        out.push(label_width(&visible[i]));
        i = i + 1;
    }
    out
}

/// `r` held to terminal cell coordinates.
pub open spec fn cell_of(r: Rect) -> Rect {
    Rect {
        x: cell_coord(r.x),
        y: cell_coord(r.y),
        width: cell_coord(r.width),
        height: cell_coord(r.height),
    }
}

/// Records the layout the tile view draws: the cells (held to terminal
/// coordinates) and their names, a first selection when there is none,
/// and where the selection is among the cells. Returns that position.
pub fn sync_tiles(app: &mut App, visible: &Vec<Arc<Node>>, rects: &Vec<Rect>) -> (sel: Option<
    usize,
>)
    ensures
        final(app).last_layout@.len() == rects@.len(),
        forall|i: int| 0 <= i < rects@.len() ==> final(app).last_layout@[i] == cell_of(rects@[i]),
        final(app).last_order@ == names_of(visible@),
        final(app).selected_name == (if old(app).selected_name is None {
            first_name(visible@)
        } else {
            old(app).selected_name
        }),
        match sel {
            Some(i) => selection_in(*final(app), visible@) == Some(i as int),
            None => selection_in(*final(app), visible@) is None,
        },
        final(app).last_selected_idx == sel,
        *final(app) == (App {
            last_layout: final(app).last_layout,
            last_order: final(app).last_order,
            selected_name: final(app).selected_name,
            last_selected_idx: sel,
            ..*old(app)
        }),
{
    let n = rects.len();
    let mut cells: Vec<Rect> = Vec::new();
    let mut i: usize = 0;
    while i < n
        invariant
            n == rects@.len(),
            i <= n,
            cells@.len() == i,
            forall|j: int| 0 <= j < i ==> cells@[j] == cell_of(rects@[j]),
        decreases n - i,
    {
        cells.push(to_cell_rect(&rects[i]));
        i = i + 1;
    }
    app.last_layout = cells;
    app.last_order = names(visible);
    if app.selected_name.is_none() {
        app.selected_name = if visible.len() > 0 {
            Some(visible[0].name.clone())
        } else {
            None
        };
    }
    let sel = app.selected_index(visible);
    app.last_selected_idx = sel;
    sel
}

/// How a tile's text sits in it.
#[derive(Clone, Copy, Debug, PartialEq, Eq, Structural)]
pub struct CellText {
    /// Blank columns left (and right) of the text.
    pub pad_x: u32,
    /// Columns the text may take.
    pub usable_w: usize,
    /// Whether a second line shows the size.
    pub show_size: bool,
}

/// What text a `width` × `height` tile holds: none when it is narrower
/// than 3 columns (or empty); else a label padded by a column on each
/// side when the tile is at least 5 wide, and a size line below when it
/// is at least 2 high and 8 wide.
pub open spec fn cell_text_of(width: int, height: int) -> Option<CellText> {
    if width < 3 || height < 1 {
        None
    } else {
        let pad: int = if width >= 5 {
            1
        } else {
            0
        };
        Some(
            CellText {
                pad_x: pad as u32,
                usable_w: (width - 2 * pad) as usize,
                show_size: height >= 2 && width >= 8,
            },
        )
    }
}

pub fn cell_text(width: u32, height: u32) -> (r: Option<CellText>)
    ensures
        r == cell_text_of(width as int, height as int),
{
    if width < 3 || height < 1 {
        return None;
    }
    let pad_x: u32 = if width >= 5 {
        1
    } else {
        0
    };
    let usable_w = (width - pad_x * 2) as usize;
    Some(CellText { pad_x, usable_w, show_size: height >= 2 && width >= 8 })
}

} // verus!
