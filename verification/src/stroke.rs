use vstd::prelude::*;
use crate::common::{HEIGHT, WIDTH};

verus! {

/// v clamped into [0, upper].
pub open spec fn sclamp(v: int, upper: int) -> int {
    if v < 0 {
        0
    } else if v > upper {
        upper
    } else {
        v
    }
}

/// Clamp a signed coordinate into [0, upper].
pub fn clamp(v: i64, upper: usize) -> (r: usize)
    requires
        upper <= 0x7fff_ffff_ffff_ffff,
    ensures
        r == sclamp(v as int, upper as int),
{
    if v < 0 {
        0
    } else if v > upper as i64 {
        upper
    } else {
        v as usize
    }
}

/// Clamp a vertical coordinate into [0, HEIGHT].
pub fn clamp_y(v: i64) -> (r: usize)
    ensures
        r == sclamp(v as int, HEIGHT as int),
{
    clamp(v, HEIGHT)
}

/// Clamp a horizontal coordinate into [0, WIDTH].
pub fn clamp_x(v: i64) -> (r: usize)
    ensures
        r == sclamp(v as int, WIDTH as int),
{
    clamp(v, WIDTH)
}

/// The velocity delta of one stroke: the displacement, in whole cells, from
/// the previously stamped center to the new one. Every cell the stroke stamps
/// receives this same delta.
pub fn stroke_delta(prev_x: usize, prev_y: usize, cx: usize, cy: usize) -> (d: (i64, i64))
    requires
        prev_x <= WIDTH,
        cx <= WIDTH,
        prev_y <= HEIGHT,
        cy <= HEIGHT,
    ensures
        d.0 == cx - prev_x,
        d.1 == cy - prev_y,
{
    (cx as i64 - prev_x as i64, cy as i64 - prev_y as i64)
}

/// Every cell of the sequence lies inside the clamped coordinate range.
pub open spec fn bounded_cells(s: Seq<(usize, usize)>) -> bool {
    forall|t: int| 0 <= t < s.len() ==> (#[trigger] s[t]).0 <= WIDTH && s[t].1 <= HEIGHT
}

/// One stamped cell per column in [sx, ex), all on row y.
pub open spec fn row_cells(sx: int, ex: int, y: int) -> Seq<(usize, usize)>
    decreases ex - sx,
{
    if sx >= ex {
        Seq::empty()
    } else {
        seq![(sx as usize, y as usize)] + row_cells(sx + 1, ex, y)
    }
}

/// Two stamped cells per column in [sx, ex): one on row ytop, one on row ybot.
pub open spec fn row_pair_cells(sx: int, ex: int, ytop: int, ybot: int) -> Seq<(usize, usize)>
    decreases ex - sx,
{
    if sx >= ex {
        Seq::empty()
    } else {
        seq![(sx as usize, ytop as usize), (sx as usize, ybot as usize)] + row_pair_cells(
            sx + 1,
            ex,
            ytop,
            ybot,
        )
    }
}

/// The cells stamped by the remaining sweep iterations, given the sweep state:
/// offsets (x, y) from the center, the decision value f and its two increments.
/// Each iteration advances the decision state exactly as the rasterizer does,
/// then stamps the two octant-symmetric families of clamped spans: rows
/// cy +/- y under half-width x, and rows cy +/- x under half-width y, so the
/// sweep fills the stroke's disk instead of revisiting the outer rows.
pub open spec fn circle_cells(cx: int, cy: int, x: int, y: int, f: int, ddf_x: int, ddf_y: int)
    -> Seq<(usize, usize)>
    decreases y - x + 1,
{
    if x >= y {
        Seq::empty()
    } else {
        let y2 = if f >= 0 { y - 1 } else { y };
        let ddf_y2 = if f >= 0 { ddf_y + 2 } else { ddf_y };
        let f2 = if f >= 0 { f + ddf_y2 } else { f };
        let x2 = x + 1;
        let ddf_x2 = ddf_x + 2;
        let f3 = f2 + ddf_x2;
        row_pair_cells(
            sclamp(cx - x2, WIDTH as int),
            sclamp(cx + x2, WIDTH as int),
            sclamp(cy + y2, HEIGHT as int),
            sclamp(cy - y2, HEIGHT as int),
        ) + row_pair_cells(
            sclamp(cx - y2, WIDTH as int),
            sclamp(cx + y2, WIDTH as int),
            sclamp(cy + x2, HEIGHT as int),
            sclamp(cy - x2, HEIGHT as int),
        ) + circle_cells(cx, cy, x2, y2, f3, ddf_x2, ddf_y2)
    }
}

/// The full stamp sequence of one stroke at center (cx0, cy0) with the given
/// radius: the two vertical poles, the middle row, then the circle sweep.
pub open spec fn stroke_cells(cx0: int, cy0: int, r: int) -> Seq<(usize, usize)> {
    let cx = sclamp(cx0, WIDTH as int);
    let cy = sclamp(cy0, HEIGHT as int);
    seq![
        (cx as usize, sclamp(cy - r, HEIGHT as int) as usize),
        (cx as usize, sclamp(cy + r, HEIGHT as int) as usize),
    ] + row_cells(sclamp(cx - r, WIDTH as int), sclamp(cx + r, WIDTH as int), cy) + circle_cells(
        cx,
        cy,
        0,
        r,
        1 - r,
        1,
        2 * r,
    )
}

proof fn lemma_row_snoc(sx: int, ex: int, y: int)
    requires
        sx <= ex,
    ensures
        row_cells(sx, ex + 1, y) == row_cells(sx, ex, y).push((ex as usize, y as usize)),
    decreases ex - sx,
{
    if sx >= ex {
        assert(row_cells(sx + 1, ex + 1, y) =~= Seq::<(usize, usize)>::empty());
        assert(row_cells(sx, ex + 1, y) =~= row_cells(sx, ex, y).push((ex as usize, y as usize)));
    } else {
        lemma_row_snoc(sx + 1, ex, y);
        assert(row_cells(sx, ex + 1, y) =~= row_cells(sx, ex, y).push((ex as usize, y as usize)));
    }
}

proof fn lemma_row_pair_snoc(sx: int, ex: int, ytop: int, ybot: int)
    requires
        sx <= ex,
    ensures
        row_pair_cells(sx, ex + 1, ytop, ybot) == row_pair_cells(sx, ex, ytop, ybot).push(
            (ex as usize, ytop as usize),
        ).push((ex as usize, ybot as usize)),
    decreases ex - sx,
{
    if sx >= ex {
        assert(row_pair_cells(sx + 1, ex + 1, ytop, ybot) =~= Seq::<(usize, usize)>::empty());
        assert(row_pair_cells(sx, ex + 1, ytop, ybot) =~= row_pair_cells(sx, ex, ytop, ybot).push(
            (ex as usize, ytop as usize),
        ).push((ex as usize, ybot as usize)));
    } else {
        lemma_row_pair_snoc(sx + 1, ex, ytop, ybot);
        assert(row_pair_cells(sx, ex + 1, ytop, ybot) =~= row_pair_cells(sx, ex, ytop, ybot).push(
            (ex as usize, ytop as usize),
        ).push((ex as usize, ybot as usize)));
    }
}

#[verifier::loop_isolation(false)]
fn push_row(cells: &mut Vec<(usize, usize)>, sx: usize, ex: usize, y: usize)
    requires
        ex <= WIDTH,
        y <= HEIGHT,
        bounded_cells(old(cells)@),
    ensures
        final(cells)@ == old(cells)@ + row_cells(sx as int, ex as int, y as int),
        bounded_cells(final(cells)@),
{
    proof {
        assert(old(cells)@ + Seq::<(usize, usize)>::empty() =~= old(cells)@);
    }
    let mut x: usize = sx;
    while x < ex
        invariant
            sx <= x,
            x <= ex || x == sx,
            cells@ == old(cells)@ + row_cells(sx as int, x as int, y as int),
            bounded_cells(cells@),
        decreases ex - x,
    {
        cells.push((x, y));
        proof {
            lemma_row_snoc(sx as int, x as int, y as int);
            assert(cells@ =~= old(cells)@ + row_cells(sx as int, x + 1 as int, y as int));
        }
        x = x + 1;
    }
}

#[verifier::loop_isolation(false)]
fn push_row_pair(cells: &mut Vec<(usize, usize)>, sx: usize, ex: usize, ytop: usize, ybot: usize)
    requires
        ex <= WIDTH,
        ytop <= HEIGHT,
        ybot <= HEIGHT,
        bounded_cells(old(cells)@),
    ensures
        final(cells)@ == old(cells)@ + row_pair_cells(sx as int, ex as int, ytop as int, ybot as int),
        bounded_cells(final(cells)@),
{
    proof {
        assert(old(cells)@ + Seq::<(usize, usize)>::empty() =~= old(cells)@);
    }
    let mut x: usize = sx;
    while x < ex
        invariant
            sx <= x,
            x <= ex || x == sx,
            cells@ == old(cells)@ + row_pair_cells(sx as int, x as int, ytop as int, ybot as int),
            bounded_cells(cells@),
        decreases ex - x,
    {
        cells.push((x, ytop));
        cells.push((x, ybot));
        proof {
            lemma_row_pair_snoc(sx as int, x as int, ytop as int, ybot as int);
            assert(cells@ =~= old(cells)@ + row_pair_cells(
                sx as int,
                x + 1 as int,
                ytop as int,
                ybot as int,
            ));
        }
        x = x + 1;
    }
}

/// Rasterize one stroke: the exact sequence of grid cells the stroke stamps,
/// in stamping order — the two vertical poles, the middle row, then the
/// octant-symmetric span sweep that fills the stroke's disk. Every stamped
/// cell receives the same per-stroke seed, so the caller may apply them in
/// any order; the sequence is pinned so that nothing about the stamp set is
/// left open. Coordinates are clamped into the grid before any use; the
/// radius bound keeps the sweep's decision arithmetic inside the machine
/// word.
#[verifier::loop_isolation(false)]
#[verifier::rlimit(60)]
pub fn update_safe(click_x: usize, click_y: usize, radius: usize) -> (cells: Vec<(usize, usize)>)
    requires
        radius <= 0x4000_0000,
    ensures
        cells@ == stroke_cells(click_x as int, click_y as int, radius as int),
        bounded_cells(cells@),
{
    let cx: usize = if click_x > WIDTH {
        WIDTH
    } else {
        click_x
    };
    let cy: usize = if click_y > HEIGHT {
        HEIGHT
    } else {
        click_y
    };
    let cxi: i64 = cx as i64;
    let cyi: i64 = cy as i64;
    let r: i64 = radius as i64;

    let mut cells: Vec<(usize, usize)> = Vec::new();
    cells.push((cx, clamp_y(cyi - r)));
    cells.push((cx, clamp_y(cyi + r)));
    push_row(&mut cells, clamp_x(cxi - r), clamp_x(cxi + r), cy);

    let mut f: i64 = 1 - r;
    let mut ddf_x: i64 = 1;
    let mut ddf_y: i64 = 2 * r;
    let mut x: i64 = 0;
    let mut y: i64 = r;

    proof {
        assert(stroke_cells(click_x as int, click_y as int, radius as int) =~= cells@
            + circle_cells(cxi as int, cyi as int, x as int, y as int, f as int, ddf_x as int,
            ddf_y as int));
    }

    while x < y
        invariant
            0 <= x,
            x <= r,
            0 <= y,
            y <= r,
            ddf_x == 2 * x + 1,
            ddf_y == 4 * r - 2 * y,
            1 - r <= f,
            f <= 1 - r + x * (6 * r + 1),
            bounded_cells(cells@),
            stroke_cells(click_x as int, click_y as int, radius as int) == cells@ + circle_cells(
                cxi as int,
                cyi as int,
                x as int,
                y as int,
                f as int,
                ddf_x as int,
                ddf_y as int,
            ),
        decreases y - x + 1,
    {
        let ghost x0: int = x as int;
        let ghost y0: int = y as int;
        let ghost f0: int = f as int;
        let ghost ddf_x0: int = ddf_x as int;
        let ghost ddf_y0: int = ddf_y as int;
        let ghost cells0 = cells@;

        proof {
            assert(x0 * (6 * r + 1) <= r * (6 * r + 1)) by (nonlinear_arith)
                requires
                    0 <= x0 <= r,
                    0 <= r,
            ;
            assert(r * (6 * r + 1) <= 0x6000_0000_0000_0000 + 0x4000_0000) by (nonlinear_arith)
                requires
                    0 <= r <= 0x4000_0000,
            ;
        }
        if f >= 0 {
            y = y - 1;
            ddf_y = ddf_y + 2;
            f = f + ddf_y;
        }
        x = x + 1;
        ddf_x = ddf_x + 2;
        f = f + ddf_x;
        proof {
            assert((x0 + 1) * (6 * r + 1) == x0 * (6 * r + 1) + 6 * r + 1) by (nonlinear_arith);
            assert(f <= 1 - r + x * (6 * r + 1));
        }

        let sxx = clamp_x(cxi - x);
        let exx = clamp_x(cxi + x);
        let yt = clamp_y(cyi + y);
        let yb = clamp_y(cyi - y);
        push_row_pair(&mut cells, sxx, exx, yt, yb);
        let sxy = clamp_x(cxi - y);
        let exy = clamp_x(cxi + y);
        let xt = clamp_y(cyi + x);
        let xb = clamp_y(cyi - x);
        push_row_pair(&mut cells, sxy, exy, xt, xb);

        proof {
            let rp_a = row_pair_cells(
                sclamp(cxi - x as int, WIDTH as int),
                sclamp(cxi + x as int, WIDTH as int),
                sclamp(cyi + y as int, HEIGHT as int),
                sclamp(cyi - y as int, HEIGHT as int),
            );
            let rp_b = row_pair_cells(
                sclamp(cxi - y as int, WIDTH as int),
                sclamp(cxi + y as int, WIDTH as int),
                sclamp(cyi + x as int, HEIGHT as int),
                sclamp(cyi - x as int, HEIGHT as int),
            );
            let rest = circle_cells(cxi as int, cyi as int, x as int, y as int, f as int,
                ddf_x as int, ddf_y as int);
            assert(circle_cells(cxi as int, cyi as int, x0, y0, f0, ddf_x0, ddf_y0) == rp_a + rp_b
                + rest);
            assert(cells0 + (rp_a + rp_b + rest) =~= (cells0 + rp_a + rp_b) + rest);
        }
    }
    proof {
        assert(cells@ + Seq::<(usize, usize)>::empty() =~= cells@);
    }
    cells
}

} // verus!
