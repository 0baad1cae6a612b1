use inksim::update_safe;

#[test]
fn zero_radius_stamps_the_center_twice() {
    let cells = update_safe(100, 100, 0);
    assert_eq!(cells, vec![(100, 100), (100, 100)]);
}

#[test]
fn radius_one_stroke_sequence() {
    // Poles, middle row, then one sweep iteration whose second span is empty.
    let cells = update_safe(5, 5, 1);
    assert_eq!(
        cells,
        vec![
            (5, 4),
            (5, 6),
            (4, 5),
            (5, 5),
            (4, 5),
            (4, 5),
            (5, 5),
            (5, 5),
        ]
    );
}

#[test]
fn corner_stroke_is_clamped() {
    let cells = update_safe(0, 0, 2);
    assert_eq!(
        cells,
        vec![
            (0, 0),
            (0, 2),
            (0, 0),
            (1, 0),
            (0, 2),
            (0, 0),
            (0, 1),
            (0, 0),
            (1, 1),
            (1, 0),
            (0, 1),
            (0, 0),
            (1, 1),
            (1, 0),
            (0, 2),
            (0, 0),
        ]
    );
    for (x, y) in cells {
        assert!(x <= 200 && y <= 200);
    }
}

#[test]
fn stroke_fills_its_inner_rows() {
    // The sweep stamps both octant families, so the rows just above and below
    // the center are seeded too, not only the outer ring.
    let cells = update_safe(100, 100, 3);
    for cell in [
        (100, 101),
        (100, 99),
        (102, 101),
        (102, 99),
        (100, 102),
        (100, 98),
        (101, 102),
        (101, 98),
    ] {
        assert!(cells.contains(&cell), "missing {:?}", cell);
    }
}

#[test]
fn out_of_range_center_is_clamped_before_any_use() {
    let cells = update_safe(100000, 100000, 1);
    for &(x, y) in &cells {
        assert!(x <= 200 && y <= 200);
    }
    // The clamped stroke behaves as one stamped at the far corner.
    assert_eq!(cells, update_safe(200, 200, 1));
}

#[test]
fn stroke_covers_its_middle_row_and_center() {
    let cells = update_safe(100, 100, 3);
    assert!(cells.contains(&(100, 100)));
    for x in 97..103 {
        assert!(cells.contains(&(x, 100)));
    }
}
