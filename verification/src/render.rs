use vstd::prelude::*;
use crate::common::{pack_spec, Color, HEIGHT, N, WIDTH};

verus! {

/// The pixel written for one interior cell: the fixed color with its alpha
/// replaced by 255 - coverage, packed. Coverage 0 leaves the opaque
/// background; full coverage drives the alpha to zero.
pub open spec fn shaded_spec(color: Color, coverage: u8) -> u32 {
    pack_spec(Color { r: color.r, g: color.g, b: color.b, a: (255 - coverage) as u8 })
}

/// Every shaded pixel keeps the fixed color in its low three bytes: shading
/// varies the alpha channel alone, so a rendered frame can only ever hold
/// alpha-over-fixed-color values.
pub proof fn lemma_shaded_keeps_color(color: Color, coverage: u8)
    ensures
        shaded_spec(color, coverage) & 0x00ff_ffff == pack_spec(color) & 0x00ff_ffff,
{
    let r = color.r;
    let g = color.g;
    let b = color.b;
    let a = color.a;
    let ca = (255 - coverage) as u8;
    assert(((((ca as u32) << 24) | ((b as u32) << 16) | ((g as u32) << 8) | (r as u32))
        & 0x00ff_ffff) == ((((a as u32) << 24) | ((b as u32) << 16) | ((g as u32) << 8) | (r
        as u32)) & 0x00ff_ffff)) by (bit_vector);
}

/// The top byte of a shaded pixel is exactly 255 - coverage, so two cells
/// render to the same pixel exactly when their coverage agrees.
pub proof fn lemma_shaded_alpha(color: Color, coverage: u8)
    ensures
        shaded_spec(color, coverage) >> 24 == 255 - coverage,
{
    let r = color.r;
    let g = color.g;
    let b = color.b;
    let ca = (255 - coverage) as u8;
    assert(ca == 255 - coverage);
    assert(((((ca as u32) << 24) | ((b as u32) << 16) | ((g as u32) << 8) | (r as u32)) >> 24)
        == (ca as u32)) by (bit_vector);
}

/// Pack the cell color for one coverage value.
pub fn shaded(color: &Color, coverage: u8) -> (px: u32)
    ensures
        px == shaded_spec(*color, coverage),
{
    let c = Color { r: color.r, g: color.g, b: color.b, a: 255 - coverage };
    c.packed()
}

/// A fresh screen buffer holding the given color in every pixel: the full
/// overwrite that begins a session. The result is a function of the color
/// alone, so repeating the call can never leave anything else behind.
#[verifier::loop_isolation(false)]
pub fn init_screen(color: &Color) -> (screen: Vec<u32>)
    ensures
        screen@.len() == WIDTH * HEIGHT,
        forall|k: int| 0 <= k < screen@.len() ==> screen@[k] == pack_spec(*color),
{
    let px = color.packed();
    let mut screen: Vec<u32> = Vec::new();
    let mut k: usize = 0;
    while k < WIDTH * HEIGHT
        invariant
            k <= WIDTH * HEIGHT,
            screen@.len() == k,
            forall|m: int| 0 <= m < k ==> screen@[m] == pack_spec(*color),
        decreases WIDTH * HEIGHT - k,
    {
        screen.push(px);
        k = k + 1;
    }
    screen
}

/// Filling the screen is a full overwrite with no room for leftover state:
/// any two buffers that satisfy the fill contract for the same color are
/// identical, so repeating the fill reproduces it exactly.
pub proof fn lemma_init_screen_idempotent(s1: Seq<u32>, s2: Seq<u32>, color: Color)
    requires
        s1.len() == WIDTH * HEIGHT,
        s2.len() == WIDTH * HEIGHT,
        forall|k: int| 0 <= k < s1.len() ==> s1[k] == pack_spec(color),
        forall|k: int| 0 <= k < s2.len() ==> s2[k] == pack_spec(color),
    ensures
        s1 == s2,
{
    assert(s1 =~= s2);
}

/// The coverage cell behind pixel k of the row-major screen: the pixel at
/// (x, y) = (k % WIDTH, k / WIDTH) draws the coverage stored at x * N + y,
/// the order in which the solver walks the grid.
pub open spec fn cell_of_pixel(k: int) -> int {
    (k % (WIDTH as int)) * (N as int) + k / (WIDTH as int)
}

/// The rendered frame for a field of per-cell coverage values, one byte per
/// interior cell with cell (x, y) at position x * N + y. Pixel (x, y) of the
/// row-major screen holds the shaded color for that cell's coverage; the
/// result is a function of the coverage values and the color alone.
#[verifier::loop_isolation(false)]
pub fn render_screen(cov: &Vec<u8>, color: &Color) -> (screen: Vec<u32>)
    requires
        cov@.len() == N * N,
    ensures
        screen@.len() == WIDTH * HEIGHT,
        forall|k: int| 0 <= k < screen@.len() ==> #[trigger] screen@[k] == shaded_spec(
            *color,
            cov@[cell_of_pixel(k)],
        ),
{
    proof {
        assert(WIDTH * HEIGHT == 40000) by (nonlinear_arith)
            requires
                WIDTH == 200,
                HEIGHT == 200,
        ;
    }
    let mut screen: Vec<u32> = Vec::new();
    let mut k: usize = 0;
    while k < WIDTH * HEIGHT
        invariant
            k <= WIDTH * HEIGHT,
            screen@.len() == k,
            forall|m: int| 0 <= m < k ==> #[trigger] screen@[m] == shaded_spec(
                *color,
                cov@[cell_of_pixel(m)],
            ),
        decreases WIDTH * HEIGHT - k,
    {
        let x = k % WIDTH;
        let y = k / WIDTH;
        proof {
            assert(x < 200 && y < 200) by (nonlinear_arith)
                requires
                    x == k % WIDTH,
                    y == k / WIDTH,
                    k < WIDTH * HEIGHT,
                    WIDTH == 200,
                    HEIGHT == 200,
            ;
            assert(x * N + y < N * N) by (nonlinear_arith)
                requires
                    x < 200,
                    y < 200,
                    N == 200,
            ;
        }
        let px = shaded(color, cov[x * N + y]);
        screen.push(px);
        k = k + 1;
    }
    screen
}

} // verus!
