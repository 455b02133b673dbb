use potion_panic::world::{collider_geometry, row_plates, wall_rects, Plate, Rect};

fn grid(rows: &[&[bool]]) -> Vec<Vec<bool>> {
    rows.iter().map(|r| r.to_vec()).collect()
}

fn area(r: &Rect) -> u64 {
    ((r.right - r.left + 1) as u64) * ((r.top - r.bottom + 1) as u64)
}

fn occupied(g: &[Vec<bool>]) -> u64 {
    g.iter()
        .map(|row| row.iter().filter(|c| **c).count() as u64)
        .sum()
}

fn overlap(a: &Rect, b: &Rect) -> bool {
    a.left <= b.right && b.left <= a.right && a.bottom <= b.top && b.bottom <= a.top
}

#[test]
fn empty_grid_yields_no_rects() {
    let g = grid(&[]);
    assert!(wall_rects(&g).is_empty());
    let g = grid(&[&[false, false], &[false, false]]);
    assert!(wall_rects(&g).is_empty());
}

#[test]
fn single_cell() {
    let g = grid(&[&[true]]);
    let out = wall_rects(&g);
    assert_eq!(out, vec![Rect { left: 0, right: 0, bottom: 0, top: 0 }]);
}

#[test]
fn full_block_merges_into_one_rect() {
    let g = grid(&[&[true, true], &[true, true]]);
    let out = wall_rects(&g);
    assert_eq!(out, vec![Rect { left: 0, right: 1, bottom: 0, top: 1 }]);
    assert_eq!(area(&out[0]), 4);
}

#[test]
fn l_shape_exact_output() {
    // ##
    // #.
    let g = grid(&[&[true, true], &[true, false]]);
    let out = wall_rects(&g);
    assert_eq!(
        out,
        vec![
            Rect { left: 0, right: 1, bottom: 0, top: 0 },
            Rect { left: 0, right: 0, bottom: 1, top: 1 },
        ]
    );
}

#[test]
fn tall_column_stacks() {
    let g = grid(&[&[false, true], &[false, true], &[false, true]]);
    let out = wall_rects(&g);
    assert_eq!(out, vec![Rect { left: 1, right: 1, bottom: 0, top: 2 }]);
}

#[test]
fn area_sum_equals_occupied_count() {
    let g = grid(&[
        &[true, true, false, true, true, true],
        &[true, true, false, false, true, false],
        &[false, true, true, true, true, true],
        &[true, true, true, true, false, true],
    ]);
    let out = wall_rects(&g);
    let total: u64 = out.iter().map(area).sum();
    assert_eq!(total, occupied(&g));
}

#[test]
fn rects_never_overlap() {
    let g = grid(&[
        &[true, true, true, false, true],
        &[true, false, true, true, true],
        &[true, true, true, false, false],
    ]);
    let out = wall_rects(&g);
    for i in 0..out.len() {
        for j in 0..out.len() {
            if i != j {
                assert!(!overlap(&out[i], &out[j]));
            }
        }
    }
    let total: u64 = out.iter().map(area).sum();
    assert_eq!(total, occupied(&g));
}

#[test]
fn every_occupied_cell_is_covered_once() {
    let g = grid(&[
        &[true, false, true, true],
        &[true, true, true, true],
        &[false, false, true, true],
    ]);
    let out = wall_rects(&g);
    for (y, row) in g.iter().enumerate() {
        for (x, cell) in row.iter().enumerate() {
            let containing = out
                .iter()
                .filter(|r| r.left <= x && x <= r.right && r.bottom <= y && y <= r.top)
                .count();
            assert_eq!(containing, if *cell { 1 } else { 0 });
        }
    }
}

#[test]
fn rerunning_gives_identical_output() {
    let g = grid(&[
        &[true, true, false, true],
        &[true, true, false, true],
        &[true, false, true, true],
    ]);
    let first = wall_rects(&g);
    let second = wall_rects(&g);
    assert_eq!(first, second);
}

#[test]
fn row_plates_finds_maximal_runs() {
    let row = vec![true, true, false, true, false, false, true, true, true];
    let plates = row_plates(&row);
    assert_eq!(
        plates,
        vec![
            Plate { left: 0, right: 1 },
            Plate { left: 3, right: 3 },
            Plate { left: 6, right: 8 },
        ]
    );
}

#[test]
fn row_touching_right_edge_closes() {
    let row = vec![false, true, true];
    let plates = row_plates(&row);
    assert_eq!(plates, vec![Plate { left: 1, right: 2 }]);
}

#[test]
fn collider_geometry_scales_to_world_units() {
    // a 2x3 rectangle of 32-pixel cells
    let r = Rect { left: 1, right: 2, bottom: 0, top: 2 };
    let g = collider_geometry(&r, 32);
    assert_eq!(g.center_x2, (1 + 2 + 1) * 32);
    assert_eq!(g.center_y2, (0 + 2 + 1) * 32);
    assert_eq!(g.width, 2 * 32);
    assert_eq!(g.height, 3 * 32);
}
