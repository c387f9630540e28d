//! Fitting text and rectangles into the terminal's cell grid.
use crate::text::push_char;
use vstd::string::StringExecFns;
use crate::tree::Node;
use crate::ui::color::{icon_for, icon_text, name_kind};
use crate::Rect;
use vstd::prelude::*;

verus! {

/// The ellipsis that marks cut text.
pub open spec fn ellipsis() -> char {
    '\u{2026}'
}

/// `s` fitted into `max` columns: kept when it fits, else cut to
/// `max - 1` characters followed by an ellipsis (nothing when `max` is 0).
pub open spec fn truncated_text(s: Seq<char>, max: int) -> Seq<char> {
    if max <= 0 {
        Seq::empty()
    } else if s.len() <= max {
        s
    } else {
        s.take(max - 1).push(ellipsis())
    }
}

/// `s` followed by spaces up to `width` characters.
pub open spec fn padded_text(s: Seq<char>, width: int) -> Seq<char> {
    if s.len() >= width {
        s
    } else {
        s + Seq::new((width - s.len()) as nat, |i: int| ' ')
    }
}

pub fn truncate(s: &str, max: usize) -> (r: String)
    ensures
        r@ == truncated_text(s@, max as int),
        r@.len() <= max,
        s@.len() <= max ==> r@ == s@,
{
    if max == 0 {
        return String::new();
    }
    let n = s.unicode_len();
    if n <= max {
        s.to_owned()
    } else if max == 1 {
        let mut out = String::new();
        push_char(&mut out, '\u{2026}');
        proof {
            assert(out@ =~= s@.take(0).push(ellipsis()));
        }
        out
    } else {
        let mut out = s.substring_char(0, max - 1).to_owned();
        push_char(&mut out, '\u{2026}');
        proof {
            assert(s@.subrange(0, max - 1) =~= s@.take(max - 1));
        }
        out
    }
}

pub fn pad_right(s: &str, width: usize) -> (r: String)
    ensures
        r@ == padded_text(s@, width as int),
        r@.len() >= width,
        r@.subrange(0, s@.len() as int) == s@,
{
    let n = s.unicode_len();
    if n >= width {
        s.to_owned()
    } else {
        let mut out = s.to_owned();
        let mut k: usize = n;
        while k < width
            invariant
                n == s@.len(),
                n <= k <= width,
                out@ == s@ + Seq::new((k - n) as nat, |i: int| ' '),
            decreases width - k,
        {
            let ghost before = out@;
            push_char(&mut out, ' ');
            proof {
                assert(out@ =~= s@ + Seq::new((k + 1 - n) as nat, |i: int| ' '));
            }
            k = k + 1;
        }
        out
    }
}

/// What a tile or row shows for a node: its icon, then (through an arrow
/// for a symlink) its name.
pub open spec fn label_of(node: Node) -> Seq<char> {
    let icon = icon_text(node, name_kind(node.name@));
    if node.is_link {
        icon + " \u{2192} "@ + node.name@
    } else {
        icon + " "@ + node.name@
    }
}

/// The label of a node: `"{icon} {name}"`, or `"{icon} → {name}"` for a
/// symlink.
pub fn label_text(node: &Node) -> (r: String)
    ensures
        r@ == label_of(*node),
{
    let mut out = String::new();
    out.append(icon_for(node));
    if node.is_link {
        out.append(" \u{2192} ");
    } else {
        out.append(" ");
    }
    out.append(node.name.as_str());
    proof {
        assert(Seq::<char>::empty() + icon_text(*node, name_kind(node.name@)) =~= icon_text(
            *node,
            name_kind(node.name@),
        ));
    }
    out
}

/// A coordinate held at the largest a terminal cell can have.
pub open spec fn cell_coord(v: u32) -> u32 {
    if v > 0xffff {
        0xffff
    } else {
        v
    }
}

/// `r` with each field held at the largest terminal cell coordinate.
pub fn to_cell_rect(r: &Rect) -> (c: Rect)
    ensures
        c == (Rect {
            x: cell_coord(r.x),
            y: cell_coord(r.y),
            width: cell_coord(r.width),
            height: cell_coord(r.height),
        }),
{
    let clamp = |v: u32| -> (w: u32)
        ensures
            w == cell_coord(v),
        {
            if v > 0xffff {
                0xffff
            } else {
                v
            }
        };
    Rect { x: clamp(r.x), y: clamp(r.y), width: clamp(r.width), height: clamp(r.height) }
}

} // verus!
