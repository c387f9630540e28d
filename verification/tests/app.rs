use treescape::app::{pick_neighbor, Dir};
use treescape::Rect;

// 2x2 grid:
//   A B
//   C D
fn grid_2x2() -> Vec<Rect> {
    vec![
        Rect {
            x: 0,
            y: 0,
            width: 10,
            height: 5,
        }, // 0 = A
        Rect {
            x: 10,
            y: 0,
            width: 10,
            height: 5,
        }, // 1 = B
        Rect {
            x: 0,
            y: 5,
            width: 10,
            height: 5,
        }, // 2 = C
        Rect {
            x: 10,
            y: 5,
            width: 10,
            height: 5,
        }, // 3 = D
    ]
}

#[test]
fn spatial_nav_2x2_cardinals() {
    let g = grid_2x2();
    // From A: right -> B, down -> C, up/left -> none.
    assert_eq!(pick_neighbor(&g, 0, Dir::Right), Some(1));
    assert_eq!(pick_neighbor(&g, 0, Dir::Down), Some(2));
    assert_eq!(pick_neighbor(&g, 0, Dir::Up), None);
    assert_eq!(pick_neighbor(&g, 0, Dir::Left), None);

    // From D: left -> C, up -> B.
    assert_eq!(pick_neighbor(&g, 3, Dir::Left), Some(2));
    assert_eq!(pick_neighbor(&g, 3, Dir::Up), Some(1));
}

#[test]
fn spatial_nav_prefers_overlap_over_diagonal() {
    // Layout:
    //   A B
    //   C D
    // From A (0) going Right, both B (inline) and D (diagonal) lie
    // strictly to the right. The overlap-flag tiebreak must pick B.
    let g = grid_2x2();
    assert_eq!(pick_neighbor(&g, 0, Dir::Right), Some(1));
    assert_eq!(pick_neighbor(&g, 0, Dir::Down), Some(2));
}

#[test]
fn spatial_nav_oob_idx_returns_none() {
    let g = grid_2x2();
    assert_eq!(pick_neighbor(&g, 99, Dir::Left), None);
}
