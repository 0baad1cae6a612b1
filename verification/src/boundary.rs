use vstd::prelude::*;
use crate::common::{lin, N};

verus! {

/// Which physical quantity a scalar field holds. The boundary pass flips the
/// sign of a velocity component on the pair of walls perpendicular to its
/// axis; density is mirrored without a sign change.
#[derive(Debug, Clone, Copy, PartialEq, Eq, Structural)]
pub enum FieldKind {
    Density,
    VerticalVelocityComponent,
    HorizontalVelocityComponent,
}

/// One write of the boundary pass, over linear field indices.
#[derive(Debug, Clone, Copy, PartialEq, Eq, Structural)]
pub enum BoundaryOp {
    /// The border cell at dst takes the value at src, negated when negate holds.
    Mirror { dst: usize, src: usize, negate: bool },
    /// The corner cell at dst takes the average of the values at a and b.
    Corner { dst: usize, a: usize, b: usize },
}

/// The cell a boundary write fills.
pub open spec fn op_dst(op: BoundaryOp) -> int {
    match op {
        BoundaryOp::Mirror { dst, .. } => dst as int,
        BoundaryOp::Corner { dst, .. } => dst as int,
    }
}

/// Write number t of the boundary pass for a field of the given kind: the left
/// border column, then the right column, then the two border rows, each taken
/// from the adjacent interior line, and finally the four corners.
pub open spec fn op_at(kind: FieldKind, t: int) -> BoundaryOp {
    let vneg = kind == FieldKind::VerticalVelocityComponent;
    let hneg = kind == FieldKind::HorizontalVelocityComponent;
    if 0 <= t < N {
        BoundaryOp::Mirror { dst: lin(0, t + 1) as usize, src: lin(1, t + 1) as usize, negate: vneg }
    } else if N <= t < 2 * N {
        let j = t - N + 1;
        BoundaryOp::Mirror { dst: lin(N + 1, j) as usize, src: lin(N as int, j) as usize, negate: vneg }
    } else if 2 * N <= t < 3 * N {
        let i = t - 2 * N + 1;
        BoundaryOp::Mirror { dst: lin(i, 0) as usize, src: lin(i, 1) as usize, negate: hneg }
    } else if 3 * N <= t < 4 * N {
        let i = t - 3 * N + 1;
        BoundaryOp::Mirror { dst: lin(i, N + 1) as usize, src: lin(i, N as int) as usize, negate: hneg }
    } else if t == 4 * N {
        BoundaryOp::Corner { dst: lin(0, 0) as usize, a: lin(1, 0) as usize, b: lin(0, 1) as usize }
    } else if t == 4 * N + 1 {
        BoundaryOp::Corner {
            dst: lin(0, N + 1) as usize,
            a: lin(1, N + 1) as usize,
            b: lin(0, N as int) as usize,
        }
    } else if t == 4 * N + 2 {
        BoundaryOp::Corner {
            dst: lin(N + 1, 0) as usize,
            a: lin(N as int, 0) as usize,
            b: lin(N + 1, 1) as usize,
        }
    } else {
        BoundaryOp::Corner {
            dst: lin(N + 1, N + 1) as usize,
            a: lin(N as int, N + 1) as usize,
            b: lin(N + 1, N as int) as usize,
        }
    }
}

/// The whole boundary pass for a field of the given kind, as the ordered
/// sequence of its writes.
pub open spec fn boundary_plan(kind: FieldKind) -> Seq<BoundaryOp> {
    Seq::new((4 * N + 4) as nat, |t: int| op_at(kind, t))
}

/// The boundary pass as data: every border write the pass performs, in order.
/// Mirror writes fill the four border lines from the adjacent interior line;
/// the four corner averages come last, so each reads its two freshly written
/// border neighbors.
#[verifier::loop_isolation(false)]
pub fn boundary_ops(kind: FieldKind) -> (ops: Vec<BoundaryOp>)
    ensures
        ops@ == boundary_plan(kind),
{
    let vneg = matches!(kind, FieldKind::VerticalVelocityComponent);
    let hneg = matches!(kind, FieldKind::HorizontalVelocityComponent);
    let mut ops: Vec<BoundaryOp> = Vec::new();

    let mut t: usize = 0;
    while t < N
        invariant
            t <= N,
            ops@.len() == t,
            forall|s: int| 0 <= s < t ==> ops@[s] == op_at(kind, s),
        decreases N - t,
    {
        ops.push(BoundaryOp::Mirror { dst: crate::common::ix(0, t + 1), src: crate::common::ix(1, t + 1), negate: vneg });
        t = t + 1;
    }
    let mut t: usize = 0;
    while t < N
        invariant
            t <= N,
            ops@.len() == N + t,
            forall|s: int| 0 <= s < N + t ==> ops@[s] == op_at(kind, s),
        decreases N - t,
    {
        ops.push(BoundaryOp::Mirror { dst: crate::common::ix(N + 1, t + 1), src: crate::common::ix(N, t + 1), negate: vneg });
        t = t + 1;
    }
    let mut t: usize = 0;
    while t < N
        invariant
            t <= N,
            ops@.len() == 2 * N + t,
            forall|s: int| 0 <= s < 2 * N + t ==> ops@[s] == op_at(kind, s),
        decreases N - t,
    {
        ops.push(BoundaryOp::Mirror { dst: crate::common::ix(t + 1, 0), src: crate::common::ix(t + 1, 1), negate: hneg });
        t = t + 1;
    }
    let mut t: usize = 0;
    while t < N
        invariant
            t <= N,
            ops@.len() == 3 * N + t,
            forall|s: int| 0 <= s < 3 * N + t ==> ops@[s] == op_at(kind, s),
        decreases N - t,
    {
        ops.push(BoundaryOp::Mirror { dst: crate::common::ix(t + 1, N + 1), src: crate::common::ix(t + 1, N), negate: hneg });
        t = t + 1;
    }
    ops.push(BoundaryOp::Corner { dst: crate::common::ix(0, 0), a: crate::common::ix(1, 0), b: crate::common::ix(0, 1) });
    ops.push(BoundaryOp::Corner { dst: crate::common::ix(0, N + 1), a: crate::common::ix(1, N + 1), b: crate::common::ix(0, N) });
    ops.push(BoundaryOp::Corner { dst: crate::common::ix(N + 1, 0), a: crate::common::ix(N, 0), b: crate::common::ix(N + 1, 1) });
    ops.push(BoundaryOp::Corner { dst: crate::common::ix(N + 1, N + 1), a: crate::common::ix(N, N + 1), b: crate::common::ix(N + 1, N) });
    proof {
        assert(ops@ =~= boundary_plan(kind));
    }
    ops
}

/// Sign rule of the boundary pass: the left and right border columns mirror
/// the adjacent interior column, negated exactly for the vertical velocity
/// component; the top and bottom border rows mirror the adjacent interior row,
/// negated exactly for the horizontal velocity component. A density field is
/// mirrored everywhere without a sign change.
pub proof fn lemma_edge_sign(kind: FieldKind, t: int)
    requires
        1 <= t <= N,
    ensures
        boundary_plan(kind)[t - 1] == (BoundaryOp::Mirror {
            dst: lin(0, t) as usize,
            src: lin(1, t) as usize,
            negate: kind == FieldKind::VerticalVelocityComponent,
        }),
        boundary_plan(kind)[N + t - 1] == (BoundaryOp::Mirror {
            dst: lin(N + 1, t) as usize,
            src: lin(N as int, t) as usize,
            negate: kind == FieldKind::VerticalVelocityComponent,
        }),
        boundary_plan(kind)[2 * N + t - 1] == (BoundaryOp::Mirror {
            dst: lin(t, 0) as usize,
            src: lin(t, 1) as usize,
            negate: kind == FieldKind::HorizontalVelocityComponent,
        }),
        boundary_plan(kind)[3 * N + t - 1] == (BoundaryOp::Mirror {
            dst: lin(t, N + 1) as usize,
            src: lin(t, N as int) as usize,
            negate: kind == FieldKind::HorizontalVelocityComponent,
        }),
{
}

/// Corner rule of the boundary pass: whatever the field kind, the pass ends
/// with exactly four corner writes, each averaging the two border cells
/// adjacent to that corner, and no earlier write touches a corner cell.
pub proof fn lemma_corner_average(kind: FieldKind)
    ensures
        boundary_plan(kind).len() == 4 * N + 4,
        boundary_plan(kind)[4 * N] == (BoundaryOp::Corner {
            dst: lin(0, 0) as usize,
            a: lin(1, 0) as usize,
            b: lin(0, 1) as usize,
        }),
        boundary_plan(kind)[4 * N + 1] == (BoundaryOp::Corner {
            dst: lin(0, N + 1) as usize,
            a: lin(1, N + 1) as usize,
            b: lin(0, N as int) as usize,
        }),
        boundary_plan(kind)[4 * N + 2] == (BoundaryOp::Corner {
            dst: lin(N + 1, 0) as usize,
            a: lin(N as int, 0) as usize,
            b: lin(N + 1, 1) as usize,
        }),
        boundary_plan(kind)[4 * N + 3] == (BoundaryOp::Corner {
            dst: lin(N + 1, N + 1) as usize,
            a: lin(N as int, N + 1) as usize,
            b: lin(N + 1, N as int) as usize,
        }),
        forall|t: int| 0 <= t < 4 * N ==> (#[trigger] boundary_plan(kind)[t]) matches
            BoundaryOp::Mirror { .. },
        forall|t: int| 0 <= t < 4 * N ==> op_dst(#[trigger] boundary_plan(kind)[t]) != lin(0, 0)
            && op_dst(boundary_plan(kind)[t]) != lin(0, N + 1)
            && op_dst(boundary_plan(kind)[t]) != lin(N + 1, 0)
            && op_dst(boundary_plan(kind)[t]) != lin(N + 1, N + 1),
{
    assert forall|t: int| 0 <= t < 4 * N implies (#[trigger] boundary_plan(kind)[t]) matches
        BoundaryOp::Mirror { .. } by {
        assert(boundary_plan(kind)[t] == op_at(kind, t));
    }
    assert forall|t: int| 0 <= t < 4 * N implies op_dst(#[trigger] boundary_plan(kind)[t]) != lin(
        0,
        0,
    ) && op_dst(boundary_plan(kind)[t]) != lin(0, N + 1) && op_dst(boundary_plan(kind)[t]) != lin(
        N + 1,
        0,
    ) && op_dst(boundary_plan(kind)[t]) != lin(N + 1, N + 1) by {
        assert(boundary_plan(kind)[t] == op_at(kind, t));
    }
}

} // verus!
