//! UI-agnostic primitives for scanning a directory tree and laying it out
//! as a squarified treemap, with the decisions of the terminal explorer
//! that sits on top of them.
use vstd::prelude::*;

pub mod app;
pub mod bignat;
pub mod path;
pub mod scan;
pub mod text;
pub mod tree;
pub mod treemap;
pub mod tiling;
pub mod labels;
pub mod ui;

pub use scan::ScanShared;
pub use tree::Node;
pub use treemap::squarify;

verus! {

/// Pixel-space rectangle used by the treemap layout. Coordinates and
/// extents are non-negative integers; consumers convert into their own
/// space (a terminal cell grid, an SVG viewport, ...) as needed.
#[derive(Clone, Copy, Debug, PartialEq, Eq, Structural)]
pub struct Rect {
    pub x: u32,
    pub y: u32,
    pub width: u32,
    pub height: u32,
}

/// The all-zero rectangle.
pub open spec fn zero_rect() -> Rect {
    Rect { x: 0, y: 0, width: 0, height: 0 }
}

impl Rect {
    pub fn new(x: u32, y: u32, width: u32, height: u32) -> (r: Self)
        ensures
            r == (Rect { x, y, width, height }),
    {
        Rect { x, y, width, height }
    }

    /// Number of unit cells the rectangle covers.
    pub open spec fn area(self) -> int {
        self.width * self.height
    }

    /// `self` lies within `outer` (edges may touch).
    pub open spec fn inside(self, outer: Rect) -> bool {
        &&& outer.x <= self.x
        &&& outer.y <= self.y
        &&& self.x + self.width <= outer.x + outer.width
        &&& self.y + self.height <= outer.y + outer.height
    }

    /// The two rectangles share at least one interior point.
    pub open spec fn overlaps(self, other: Rect) -> bool {
        &&& self.x < other.x + other.width
        &&& other.x < self.x + self.width
        &&& self.y < other.y + other.height
        &&& other.y < self.y + self.height
    }
}

impl Default for Rect {
    fn default() -> (r: Self)
        ensures
            r == zero_rect(),
    {
        Rect { x: 0, y: 0, width: 0, height: 0 }
    }
}

} // verus!
