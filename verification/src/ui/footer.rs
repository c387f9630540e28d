//! The footer: what the selection line and the scan line say, and the
//! key chips in the bottom border.
use crate::app::{Snapshot, ViewMode};
use crate::tree::{tree_count, Node};
use crate::ui::fmt::{truncate, truncated_text};
use vstd::prelude::*;

verus! {

/// The word the selection line shows for a node's kind.
pub open spec fn kind_text(node: Node) -> Seq<char> {
    if node.is_link {
        "link"@
    } else if node.is_dir {
        "dir "@
    } else {
        "file"@
    }
}

pub fn kind_word(node: &Node) -> (r: &'static str)
    ensures
        r@ == kind_text(*node),
{
    if node.is_link {
        "link"
    } else if node.is_dir {
        "dir "
    } else {
        "file"
    }
}

/// Number of entries below a node (the node itself not counted).
pub fn item_count(node: &Node) -> (r: u64)
    requires
        tree_count(*node) <= usize::MAX,
    ensures
        r == tree_count(*node) - 1,
{
    let n = node.total_count();
    (n - 1) as u64
}

/// Frame of the ten-frame spinner after `elapsed_ms` milliseconds: one
/// frame every 80 ms.
pub fn spinner_frame(elapsed_ms: u128) -> (r: usize)
    ensures
        r == ((elapsed_ms / 80) as usize) % 10,
        r < 10,
{
    ((elapsed_ms / 80) as usize) % 10
}

/// Rows the footer takes: the selection panel and the scan line in the
/// tile view, the scan line alone in the list view (each under a
/// hairline).
pub fn footer_height(view: ViewMode) -> (h: u16)
    ensures
        h == (match view {
            ViewMode::Tile => 4u16,
            ViewMode::List => 2u16,
        }),
{
    match view {
        ViewMode::Tile => 4,
        ViewMode::List => 2,
    }
}

/// The key chips, as (key, what it does): scaling only in the tile view.
pub open spec fn chips(view: ViewMode) -> Seq<(Seq<char>, Seq<char>)> {
    let base = seq![("q"@, "exit"@), ("Enter"@, "zoom"@), ("Esc"@, "back"@), ("v"@, "view"@)];
    if view == ViewMode::Tile {
        base.push(("s"@, "scale"@))
    } else {
        base
    }
}

pub fn key_chips(view: ViewMode) -> (r: Vec<(&'static str, &'static str)>)
    ensures
        r@.len() == chips(view).len(),
        forall|i: int|
            0 <= i < r@.len() ==> r@[i].0@ == chips(view)[i].0 && r@[i].1@ == chips(view)[i].1,
{
    let mut v: Vec<(&'static str, &'static str)> = Vec::new();
    v.push(("q", "exit"));
    v.push(("Enter", "zoom"));
    v.push(("Esc", "back"));
    v.push(("v", "view"));
    if view == ViewMode::Tile {
        v.push(("s", "scale"));
    }
    v
}

/// The path the scan line shows: while scanning, the last path the
/// walker reported, cut to 60 columns; nothing once the scan is done.
pub fn stats_path(snap: &Snapshot) -> (r: Option<String>)
    ensures
        match r {
            Some(s) => !snap.done && snap.current_path is Some && s@ == truncated_text(
                snap.current_path->0@,
                60,
            ),
            None => snap.done || snap.current_path is None,
        },
{
    if snap.done {
        return None;
    }
    match &snap.current_path {
        Some(p) => Some(truncate(p.as_str(), 60)),
        None => None,
    }
}

/// What the scan line shows, apart from its styling and the times: done
/// or still scanning, the file and byte counts, the unreadable count where
/// there is one, and the path in progress while scanning.
pub struct StatsLine {
    pub done: bool,
    pub files: u64,
    pub bytes: u64,
    pub unreadable: Option<u64>,
    pub path: Option<String>,
}

/// The parts of the scan line for a snapshot: the unreadable count is shown
/// only when it is above zero, the path only while the scan runs.
pub fn stats_line(snap: &Snapshot) -> (r: StatsLine)
    ensures
        r.done == snap.done,
        r.files == snap.files_scanned,
        r.bytes == snap.bytes_scanned,
        r.unreadable == (if snap.unreadable > 0 {
            Some(snap.unreadable)
        } else {
            None
        }),
        match r.path {
            Some(s) => !snap.done && snap.current_path is Some && s@ == truncated_text(
                snap.current_path->0@,
                60,
            ),
            None => snap.done || snap.current_path is None,
        },
{
    let unreadable = if snap.unreadable > 0 {
        Some(snap.unreadable)
    } else {
        None
    };
    StatsLine {
        done: snap.done,
        files: snap.files_scanned,
        bytes: snap.bytes_scanned,
        unreadable,
        path: stats_path(snap),
    }
}

} // verus!
