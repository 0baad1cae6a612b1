use vstd::prelude::*;

verus! {

/// Interior width of the renderable grid, in cells.
pub const WIDTH: usize = 200;

/// Interior height of the renderable grid, in cells.
pub const HEIGHT: usize = 200;

/// Interior side length of the simulation lattice; the bordered lattice is
/// (N + 2) x (N + 2), one ghost cell on each side.
pub const N: usize = WIDTH;

/// Row-major position of interior cell (x, y) in the screen buffer.
pub fn p(x: usize, y: usize) -> (r: usize)
    requires
        x < WIDTH,
        y < HEIGHT,
    ensures
        r == y * WIDTH + x,
        r < WIDTH * HEIGHT,
{
    y * WIDTH + x
}

/// Linear position of lattice cell (i, j) inside a bordered scalar field.
pub open spec fn lin(i: int, j: int) -> int {
    i + (N + 2) * j
}

/// Linear index of lattice cell (i, j) inside a bordered scalar field;
/// i and j range over the bordered lattice, 0 and N + 1 being ghost cells.
pub fn ix(i: usize, j: usize) -> (r: usize)
    requires
        i <= N + 1,
        j <= N + 1,
    ensures
        r == lin(i as int, j as int),
        r < (N + 2) * (N + 2),
{
    proof {
        assert(N == 200);
        assert((N + 2) * j <= 202 * 201) by (nonlinear_arith)
            requires
                j <= N + 1,
                N == 200,
        ;
    }
    i + (N + 2) * j
}

/// An RGBA color, one byte per channel.
#[derive(Debug, Clone, Copy)]
pub struct Color {
    pub r: u8,
    pub g: u8,
    pub b: u8,
    pub a: u8,
}

/// The 32-bit packing of a color: alpha in the top byte, then blue, green, red.
pub open spec fn pack_spec(c: Color) -> u32 {
    ((c.a as u32) << 24) | ((c.b as u32) << 16) | ((c.g as u32) << 8) | (c.r as u32)
}

impl Color {
    /// Pack the four channels into one 32-bit value, alpha in the top byte.
    pub fn packed(&self) -> (r: u32)
        ensures
            r == pack_spec(*self),
    {
        ((self.a as u32) << 24) | ((self.b as u32) << 16) | ((self.g as u32) << 8) | (self.r
            as u32)
    }
}

} // verus!
