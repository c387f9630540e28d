use treescape::treemap::{squarify, squarify_with_labels};
use treescape::Rect;

fn covers_area_exactly(rects: &[Rect], area: Rect) -> bool {
    let total_area: u64 = rects.iter().map(|r| r.width as u64 * r.height as u64).sum();
    total_area == area.width as u64 * area.height as u64
}

fn no_overlaps(rects: &[Rect]) -> bool {
    for (i, a) in rects.iter().enumerate() {
        if a.width == 0 || a.height == 0 {
            continue;
        }
        for b in rects.iter().skip(i + 1) {
            if b.width == 0 || b.height == 0 {
                continue;
            }
            let x_overlap = a.x < b.x + b.width && b.x < a.x + a.width;
            let y_overlap = a.y < b.y + b.height && b.y < a.y + a.height;
            if x_overlap && y_overlap {
                return false;
            }
        }
    }
    true
}

fn all_inside(rects: &[Rect], area: Rect) -> bool {
    rects.iter().all(|r| {
        r.x >= area.x
            && r.y >= area.y
            && r.x + r.width <= area.x + area.width
            && r.y + r.height <= area.y + area.height
    })
}

#[test]
fn empty_input_returns_empty() {
    let rects = squarify(&[], Rect::new(0, 0, 100, 100));
    assert!(rects.is_empty());
}

#[test]
fn zero_area_returns_zero_rects_of_correct_count() {
    let rects = squarify(&[10, 20, 30], Rect::new(0, 0, 0, 100));
    assert_eq!(rects.len(), 3);
    assert!(rects.iter().all(|r| r.width == 0 && r.height == 0));
}

#[test]
fn all_zero_weights_returns_zero_rects() {
    let rects = squarify(&[0, 0, 0], Rect::new(0, 0, 100, 50));
    assert_eq!(rects.len(), 3);
    assert!(rects.iter().all(|r| r.width == 0 && r.height == 0));
}

#[test]
fn single_weight_fills_area() {
    let area = Rect::new(5, 10, 40, 20);
    let rects = squarify(&[42], area);
    assert_eq!(rects.len(), 1);
    assert_eq!(rects[0], area);
}

#[test]
fn perfect_tiling_simple() {
    let area = Rect::new(0, 0, 100, 50);
    let rects = squarify(&[10, 20, 30, 40], area);
    assert!(covers_area_exactly(&rects, area), "rects must tile area");
    assert!(no_overlaps(&rects), "rects must not overlap");
    assert!(all_inside(&rects, area), "rects must stay inside area");
}

#[test]
fn perfect_tiling_many_random_inputs() {
    // Deterministic linear-congruential PRNG so the test is reproducible
    // without pulling in `rand`.
    let mut seed: u64 = 0x00C0_FFEE_BEEF;
    let mut rng = || {
        seed = seed
            .wrapping_mul(6364136223846793005)
            .wrapping_add(1442695040888963407);
        seed
    };

    for _ in 0..50 {
        let w = (rng() % 200 + 10) as u32;
        let h = (rng() % 100 + 10) as u32;
        let area = Rect::new(0, 0, w, h);
        let n = (rng() % 15 + 1) as usize;
        let weights: Vec<u64> = (0..n).map(|_| rng() % 1000 + 1).collect();

        let rects = squarify(&weights, area);
        assert_eq!(rects.len(), n);
        assert!(
            covers_area_exactly(&rects, area),
            "tiling broke for weights={weights:?} area={area:?} rects={rects:?}"
        );
        assert!(no_overlaps(&rects), "overlap for weights={weights:?}");
        assert!(
            all_inside(&rects, area),
            "out-of-bounds for weights={weights:?}"
        );
    }
}

fn widths(rects: &[Rect]) -> Vec<u32> {
    rects.iter().map(|r| r.width).collect()
}

#[test]
fn later_rows_start_at_the_exact_edge() {
    // Each strip keeps its exact extent; only the cells are rounded.
    let three = squarify(&[1, 1, 1], Rect::new(0, 0, 5, 1));
    assert_eq!(widths(&three), vec![2, 1, 2]);
    assert_eq!(
        three,
        vec![Rect::new(0, 0, 2, 1), Rect::new(2, 0, 1, 1), Rect::new(3, 0, 2, 1)]
    );
    let seven = squarify(&[1; 7], Rect::new(0, 0, 9, 1));
    assert_eq!(widths(&seven), vec![1, 2, 1, 1, 1, 2, 1]);
    let xs: Vec<u32> = seven.iter().map(|r| r.x).collect();
    assert_eq!(xs, vec![0, 1, 3, 4, 5, 6, 8]);
}

#[test]
fn label_penalty_is_two_per_fully_truncated_row() {
    let area = Rect::new(0, 0, 20, 10);
    let weights = [40u64, 30, 20, 10];
    let with = squarify_with_labels(&weights, &[10, 4, 30, 8], area);
    assert_eq!(
        with,
        vec![
            Rect::new(0, 0, 8, 10),
            Rect::new(8, 0, 6, 10),
            Rect::new(14, 0, 6, 7),
            Rect::new(14, 7, 6, 3)
        ]
    );
}

#[test]
fn many_cells_still_tile() {
    let weights: Vec<u64> = (0..600u64).map(|i| 1 + (i * 7919) % 1000).collect();
    let area = Rect::new(2, 1, 200, 60);
    let rects = squarify(&weights, area);
    assert_eq!(rects.len(), weights.len());
    assert!(covers_area_exactly(&rects, area));
    assert!(no_overlaps(&rects));
    assert!(all_inside(&rects, area));
}

#[test]
fn exact_layouts_match_real_arithmetic() {
    assert_eq!(widths(&squarify(&[1, 1, 1], Rect::new(0, 0, 10, 1))), vec![3, 4, 3]);
    assert_eq!(
        squarify(&[5, 3, 2, 1, 1], Rect::new(0, 0, 13, 7)),
        vec![
            Rect::new(0, 0, 5, 7),
            Rect::new(5, 0, 6, 4),
            Rect::new(5, 4, 6, 3),
            Rect::new(11, 0, 2, 4),
            Rect::new(11, 4, 2, 3)
        ]
    );
}
