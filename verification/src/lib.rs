//! Verified core of a grid-based ink diffusion effect.
//!
//! The effect runs a fluid solver over a bordered square lattice and paints the
//! resulting density field into a packed-color screen buffer. This crate holds
//! the parts of that pipeline that are pure integer logic, each with a proved
//! contract: the lattice and screen index maps, coordinate clamping, the
//! midpoint-circle stroke rasterizer, the boundary pass described as data, and
//! the mapping from per-cell coverage to packed pixels. The floating-point
//! relaxation solvers themselves live with the host driver, which walks the
//! grid through the functions proved here.

mod boundary;
mod common;
mod render;
mod stroke;

pub use boundary::{boundary_ops, boundary_plan, lemma_corner_average, lemma_edge_sign, op_at,
    op_dst, BoundaryOp, FieldKind};
pub use common::{ix, lin, p, pack_spec, Color, HEIGHT, N, WIDTH};
pub use render::{cell_of_pixel, init_screen, lemma_init_screen_idempotent, lemma_shaded_alpha,
    lemma_shaded_keeps_color, render_screen, shaded, shaded_spec};
pub use stroke::{bounded_cells, circle_cells, clamp, clamp_x, clamp_y, row_cells,
    row_pair_cells, sclamp, stroke_cells, stroke_delta, update_safe};
