use inksim::{boundary_ops, init_screen, ix, render_screen, shaded, BoundaryOp, Color, FieldKind};

fn cobolt() -> Color {
    Color { r: 0, g: 71, b: 171, a: 255 }
}

#[test]
fn boundary_pass_shape() {
    let ops = boundary_ops(FieldKind::Density);
    assert_eq!(ops.len(), 4 * 200 + 4);
    assert_eq!(
        ops[0],
        BoundaryOp::Mirror { dst: ix(0, 1), src: ix(1, 1), negate: false }
    );
    assert_eq!(
        ops[200],
        BoundaryOp::Mirror { dst: ix(201, 1), src: ix(200, 1), negate: false }
    );
    assert_eq!(
        ops[400],
        BoundaryOp::Mirror { dst: ix(1, 0), src: ix(1, 1), negate: false }
    );
    assert_eq!(
        ops[600],
        BoundaryOp::Mirror { dst: ix(1, 201), src: ix(1, 200), negate: false }
    );
}

#[test]
fn boundary_corners_average_their_edge_neighbors() {
    for kind in [
        FieldKind::Density,
        FieldKind::VerticalVelocityComponent,
        FieldKind::HorizontalVelocityComponent,
    ] {
        let ops = boundary_ops(kind);
        assert_eq!(
            ops[800],
            BoundaryOp::Corner { dst: ix(0, 0), a: ix(1, 0), b: ix(0, 1) }
        );
        assert_eq!(
            ops[801],
            BoundaryOp::Corner { dst: ix(0, 201), a: ix(1, 201), b: ix(0, 200) }
        );
        assert_eq!(
            ops[802],
            BoundaryOp::Corner { dst: ix(201, 0), a: ix(200, 0), b: ix(201, 1) }
        );
        assert_eq!(
            ops[803],
            BoundaryOp::Corner { dst: ix(201, 201), a: ix(200, 201), b: ix(201, 200) }
        );
        // No write before the corner averages touches a corner cell.
        for op in &ops[..800] {
            match *op {
                BoundaryOp::Mirror { dst, .. } => {
                    assert!(dst != ix(0, 0) && dst != ix(0, 201) && dst != ix(201, 0) && dst != ix(201, 201));
                }
                BoundaryOp::Corner { .. } => panic!("corner write before the edge writes"),
            }
        }
    }
}

#[test]
fn boundary_sign_is_antisymmetric_per_axis() {
    let vel_v = boundary_ops(FieldKind::VerticalVelocityComponent);
    let vel_h = boundary_ops(FieldKind::HorizontalVelocityComponent);
    let dens = boundary_ops(FieldKind::Density);
    for t in 0..200 {
        // Left and right columns flip only the vertical velocity component.
        for s in [t, 200 + t] {
            assert_eq!(vel_v[s], flip(dens[s], true));
            assert_eq!(vel_h[s], flip(dens[s], false));
        }
        // Top and bottom rows flip only the horizontal velocity component.
        for s in [400 + t, 600 + t] {
            assert_eq!(vel_v[s], flip(dens[s], false));
            assert_eq!(vel_h[s], flip(dens[s], true));
        }
    }
}

fn flip(op: BoundaryOp, negate: bool) -> BoundaryOp {
    match op {
        BoundaryOp::Mirror { dst, src, .. } => BoundaryOp::Mirror { dst, src, negate },
        corner => corner,
    }
}

#[test]
fn shaded_maps_coverage_to_alpha() {
    let blue = cobolt();
    assert_eq!(shaded(&blue, 0), 0xFFAB_4700);
    assert_eq!(shaded(&blue, 10), 0xF5AB_4700);
    assert_eq!(shaded(&blue, 255), 0x00AB_4700);
}

#[test]
fn init_screen_is_a_full_overwrite() {
    let screen = init_screen(&cobolt());
    assert_eq!(screen.len(), 40000);
    assert!(screen.iter().all(|&px| px == 0xFFAB_4700));
    // No state feeds the fill: a second call reproduces it exactly.
    assert_eq!(screen, init_screen(&cobolt()));
}

#[test]
fn render_screen_places_each_cell_row_major() {
    let blue = cobolt();
    let mut cov = vec![0u8; 40000];
    // Cell (x, y) = (5, 7) carries coverage 10.
    cov[5 * 200 + 7] = 10;
    let screen = render_screen(&cov, &blue);
    assert_eq!(screen.len(), 40000);
    for (k, &px) in screen.iter().enumerate() {
        if k == 7 * 200 + 5 {
            assert_eq!(px, 0xF5AB_4700);
        } else {
            assert_eq!(px, 0xFFAB_4700);
        }
    }
}

#[test]
fn rendered_frame_is_nonuniform_when_coverage_is() {
    let blue = cobolt();
    let mut cov = vec![0u8; 40000];
    cov[100 * 200 + 100] = 200;
    let screen = render_screen(&cov, &blue);
    let center = screen[100 * 200 + 100];
    let corner = screen[0];
    assert_ne!(center, corner);
    // Every pixel keeps the fixed color in its low three bytes.
    assert!(screen.iter().all(|&px| px & 0x00FF_FFFF == 0x00AB_4700));
}
