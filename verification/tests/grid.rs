use inksim::{clamp, clamp_x, clamp_y, ix, p, Color, HEIGHT, N, WIDTH};

#[test]
fn dimensions_are_fixed() {
    assert_eq!(WIDTH, 200);
    assert_eq!(HEIGHT, 200);
    assert_eq!(N, 200);
}

#[test]
fn p_is_row_major() {
    assert_eq!(p(0, 0), 0);
    assert_eq!(p(3, 2), 403);
    assert_eq!(p(199, 199), 39999);
}

#[test]
fn ix_walks_the_bordered_lattice() {
    assert_eq!(ix(0, 0), 0);
    assert_eq!(ix(1, 1), 203);
    assert_eq!(ix(0, 1), 202);
    assert_eq!(ix(201, 201), 40803);
}

#[test]
fn clamp_pins_the_range() {
    assert_eq!(clamp(-5, 200), 0);
    assert_eq!(clamp(0, 200), 0);
    assert_eq!(clamp(7, 200), 7);
    assert_eq!(clamp(200, 200), 200);
    assert_eq!(clamp(201, 200), 200);
    assert_eq!(clamp_x(-1), 0);
    assert_eq!(clamp_x(1000), 200);
    assert_eq!(clamp_y(300), 200);
    assert_eq!(clamp_y(42), 42);
}

#[test]
fn packed_color_layout() {
    let c = Color { r: 1, g: 2, b: 3, a: 4 };
    assert_eq!(c.packed(), 0x0403_0201);
    let blue = Color { r: 0, g: 71, b: 171, a: 255 };
    assert_eq!(blue.packed(), 0xFFAB_4700);
}
