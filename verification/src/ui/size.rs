//! Byte counts as text, in binary units.
use crate::tree::Node;
use crate::ui::fmt::{truncate, truncated_text};
use vstd::string::StringExecFns;
use vstd::prelude::*;

verus! {

/// What `humansize::format_size(bytes, BINARY)` gives for `bytes`: the
/// count in the largest binary unit (B, KiB, MiB, ...) in which it is at
/// least 1, with two decimals unless it is whole, a space, and the unit.
pub uninterp spec fn binary_size_text(bytes: u64) -> Seq<char>;

/// `humansize::format_size` with the `BINARY` options. Its text depends on
/// the byte count alone; the float arithmetic that produces it is not
/// written out here.
#[verifier::external_body]
fn format_binary_size(bytes: u64) -> (r: String)
    ensures
        r@ == binary_size_text(bytes),
{
    humansize::format_size(bytes, humansize::BINARY)
}

/// `s` right-aligned in `width` columns (left-padded with spaces).
pub open spec fn right_aligned(s: Seq<char>, width: int) -> Seq<char> {
    if s.len() >= width {
        s
    } else {
        Seq::new((width - s.len()) as nat, |i: int| ' ') + s
    }
}

/// Right-aligns `s` in `width` columns.
pub fn align_right(s: &str, width: usize) -> (r: String)
    ensures
        r@ == right_aligned(s@, width as int),
{
    let n = s.unicode_len();
    if n >= width {
        return s.to_owned();
    }
    let mut out = String::new();
    let mut k: usize = 0;
    while k < width - n
        invariant
            n == s@.len(),
            n < width,
            k <= width - n,
            out@ == Seq::new(k as nat, |i: int| ' '),
        decreases width - n - k,
    {
        crate::text::push_char(&mut out, ' ');
        proof {
            assert(out@ =~= Seq::new((k + 1) as nat, |i: int| ' '));
        }
        k = k + 1;
    }
    out.append(s);
    out
}

/// The size column of a list row: a node's size right-aligned in 11
/// columns.
pub fn size_column(node: &Node) -> (r: String)
    ensures
        r@ == right_aligned(binary_size_text(node.size), 11),
{
    let t = format_binary_size(node.size);
    align_right(t.as_str(), 11)
}

/// The second line of a tile: a node's size, cut to `usable_w` columns.
pub fn size_line(node: &Node, usable_w: usize) -> (r: String)
    ensures
        r@ == truncated_text(binary_size_text(node.size), usable_w as int),
{
    let t = format_binary_size(node.size);
    truncate(t.as_str(), usable_w)
}

/// The title's note on hidden bytes, from the size as text.
pub open spec fn hidden_note_text(size: Seq<char>) -> Seq<char> {
    "  \u{b7}  "@ + size + " hidden"@
}

/// The title's note on the bytes that dotfiles hold, given their size as
/// text.
pub fn hidden_note_from(size: &str) -> (r: String)
    ensures
        r@ == hidden_note_text(size@),
{
    let mut out = String::new();
    out.append("  \u{b7}  ");
    out.append(size);
    out.append(" hidden");
    proof {
        assert(Seq::<char>::empty() + "  \u{b7}  "@ =~= "  \u{b7}  "@);
    }
    out
}

/// The title's note on the bytes that dotfiles hold: none when they hold
/// none.
pub fn hidden_note(hidden_bytes: u64) -> (r: Option<String>)
    ensures
        match r {
            Some(s) => hidden_bytes > 0 && s@ == hidden_note_text(binary_size_text(hidden_bytes)),
            None => hidden_bytes == 0,
        },
{
    if hidden_bytes == 0 {
        return None;
    }
    let t = format_binary_size(hidden_bytes);
    Some(hidden_note_from(t.as_str()))
}

/// The selection line's details after the name, from the size as text and
/// (for a directory) the item count as text.
pub open spec fn detail_text(size: Seq<char>, is_dir: bool, count: Seq<char>) -> Seq<char> {
    "  \u{b7}  "@ + size + if is_dir {
        " \u{b7} "@ + count + " items"@
    } else {
        Seq::empty()
    }
}

/// The selection line's details after a node's name: its size and, for a
/// directory, how many items it holds (`count` is that number as text).
pub fn selection_detail(node: &Node, count: &str) -> (r: String)
    ensures
        r@ == detail_text(binary_size_text(node.size), node.is_dir, count@),
{
    let t = format_binary_size(node.size);
    selection_detail_from(t.as_str(), node.is_dir, count)
}

/// The selection line's details from the size as text.
pub fn selection_detail_from(size: &str, is_dir: bool, count: &str) -> (r: String)
    ensures
        r@ == detail_text(size@, is_dir, count@),
{
    let mut out = String::new();
    out.append("  \u{b7}  ");
    out.append(size);
    if is_dir {
        out.append(" \u{b7} ");
        out.append(count);
        out.append(" items");
    }
    proof {
        assert(Seq::<char>::empty() + "  \u{b7}  "@ =~= "  \u{b7}  "@);
        if !is_dir {
            assert(("  \u{b7}  "@ + size@) + Seq::<char>::empty() =~= "  \u{b7}  "@ + size@);
        }
    }
    out
}

} // verus!
