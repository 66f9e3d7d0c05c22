//! Divergence projection: the pass that makes the velocity field
//! approximately incompressible.
//!
//! The divergence of the velocity is measured at every interior cell, a
//! scalar potential ("pressure") is solved from it with the relaxation
//! solver on the discrete Poisson system (`a == 1`, diagonal `6`), and the
//! gradient of that potential is subtracted from the velocity. The residual
//! divergence shrinks as the iteration count of the solve grows but is
//! never exactly zero.

use vstd::prelude::*;

use crate::boundary::{lemma_set_bound_len, lemma_set_bound_ok, set_bound, set_bound_spec, Bound};
use crate::fixed::{fx_add, fx_add_s, fx_mul, fx_mul_s, fx_ok, fx_seq_ok, fx_sub, fx_sub_s,
    FX_HALF, FX_NEG_HALF, FX_ONE, FX_SIX};
use crate::grid::{dim_ok, interior, lemma_flat_in_range, lemma_pos_decompose, lemma_zero_seq_ok,
    zero_seq};
use crate::solver::{lemma_lin_solve_ok, lin_solve, lin_solve_spec};

verus! {

/// The (negated, halved) divergence measured at cell `i`; non-interior
/// cells keep their previous scratch value.
pub open spec fn div_cell(
    vx: Seq<i64>,
    vy: Seq<i64>,
    dv: Seq<i64>,
    w: int,
    h: int,
    i: int,
) -> i64 {
    let x = i % w;
    let y = i / w;
    if interior(x, y, w, h) {
        fx_mul_s(
            fx_sub_s(fx_add_s(fx_sub_s(vx[i + 1], vx[i - 1]), vy[i + w]), vy[i - w]),
            FX_NEG_HALF,
        )
    } else {
        dv[i]
    }
}

/// The divergence buffer after the measuring pass.
pub open spec fn divergence_pass(vx: Seq<i64>, vy: Seq<i64>, dv: Seq<i64>, w: int, h: int) -> Seq<
    i64,
> {
    Seq::new(dv.len(), |i: int| div_cell(vx, vy, dv, w, h, i))
}

/// The horizontal velocity with the pressure gradient subtracted at cell `i`.
pub open spec fn grad_sub_x_cell(vx: Seq<i64>, p: Seq<i64>, w: int, h: int, i: int) -> i64 {
    let x = i % w;
    let y = i / w;
    if interior(x, y, w, h) {
        fx_sub_s(vx[i], fx_mul_s(fx_sub_s(p[i + 1], p[i - 1]), FX_HALF))
    } else {
        vx[i]
    }
}

/// The vertical velocity with the pressure gradient subtracted at cell `i`.
pub open spec fn grad_sub_y_cell(vy: Seq<i64>, p: Seq<i64>, w: int, h: int, i: int) -> i64 {
    let x = i % w;
    let y = i / w;
    if interior(x, y, w, h) {
        fx_sub_s(vy[i], fx_mul_s(fx_sub_s(p[i + w], p[i - w]), FX_HALF))
    } else {
        vy[i]
    }
}

/// The horizontal gradient-subtraction pass.
pub open spec fn grad_sub_x_pass(vx: Seq<i64>, p: Seq<i64>, w: int, h: int) -> Seq<i64> {
    Seq::new(vx.len(), |i: int| grad_sub_x_cell(vx, p, w, h, i))
}

/// The vertical gradient-subtraction pass.
pub open spec fn grad_sub_y_pass(vy: Seq<i64>, p: Seq<i64>, w: int, h: int) -> Seq<i64> {
    Seq::new(vy.len(), |i: int| grad_sub_y_cell(vy, p, w, h, i))
}

/// The whole projection pass. Returns the new values of, in order, the two
/// velocity components, the pressure scratch buffer and the divergence
/// scratch buffer.
pub open spec fn project_spec(
    vx: Seq<i64>,
    vy: Seq<i64>,
    p: Seq<i64>,
    dv: Seq<i64>,
    iters: nat,
    w: int,
    h: int,
) -> (Seq<i64>, Seq<i64>, Seq<i64>, Seq<i64>) {
    let dv1 = set_bound_spec(Bound::Neither, divergence_pass(vx, vy, dv, w, h), w, h);
    let p1 = set_bound_spec(Bound::Neither, zero_seq(p.len()), w, h);
    let p2 = lin_solve_spec(Bound::Neither, p1, dv1, FX_ONE, FX_SIX, iters, w, h);
    let vx1 = set_bound_spec(Bound::X, grad_sub_x_pass(vx, p2, w, h), w, h);
    let vy1 = set_bound_spec(Bound::Y, grad_sub_y_pass(vy, p2, w, h), w, h);
    (vx1, vy1, p2, dv1)
}

/// The projection pass keeps every buffer length and writes only
/// representable values.
pub proof fn lemma_project_ok(
    vx: Seq<i64>,
    vy: Seq<i64>,
    p: Seq<i64>,
    dv: Seq<i64>,
    iters: nat,
    w: int,
    h: int,
)
    requires
        w >= 3,
        h >= 3,
        vx.len() == w * h,
        vy.len() == w * h,
        p.len() == w * h,
        dv.len() == w * h,
        fx_seq_ok(vx),
        fx_seq_ok(vy),
        fx_seq_ok(dv),
    ensures
        ({
            let r = project_spec(vx, vy, p, dv, iters, w, h);
            &&& r.0.len() == w * h && fx_seq_ok(r.0)
            &&& r.1.len() == w * h && fx_seq_ok(r.1)
            &&& r.2.len() == w * h && fx_seq_ok(r.2)
            &&& r.3.len() == w * h && fx_seq_ok(r.3)
        }),
{
    let dvp = divergence_pass(vx, vy, dv, w, h);
    assert forall|i: int| 0 <= i < dvp.len() implies fx_ok(#[trigger] dvp[i]) by {
        lemma_pos_decompose(i, w, h);
    }
    lemma_set_bound_ok(Bound::Neither, dvp, w, h);
    lemma_set_bound_len(Bound::Neither, dvp, w, h);
    let dv1 = set_bound_spec(Bound::Neither, dvp, w, h);
    lemma_zero_seq_ok(p.len());
    lemma_set_bound_ok(Bound::Neither, zero_seq(p.len()), w, h);
    lemma_set_bound_len(Bound::Neither, zero_seq(p.len()), w, h);
    let p1 = set_bound_spec(Bound::Neither, zero_seq(p.len()), w, h);
    lemma_lin_solve_ok(Bound::Neither, p1, dv1, FX_ONE, FX_SIX, iters, w, h);
    let p2 = lin_solve_spec(Bound::Neither, p1, dv1, FX_ONE, FX_SIX, iters, w, h);
    let gx = grad_sub_x_pass(vx, p2, w, h);
    assert forall|i: int| 0 <= i < gx.len() implies fx_ok(#[trigger] gx[i]) by {
        lemma_pos_decompose(i, w, h);
    }
    lemma_set_bound_ok(Bound::X, gx, w, h);
    lemma_set_bound_len(Bound::X, gx, w, h);
    let gy = grad_sub_y_pass(vy, p2, w, h);
    assert forall|i: int| 0 <= i < gy.len() implies fx_ok(#[trigger] gy[i]) by {
        lemma_pos_decompose(i, w, h);
    }
    lemma_set_bound_ok(Bound::Y, gy, w, h);
    lemma_set_bound_len(Bound::Y, gy, w, h);
}

/// Project the velocity field `(vel_x, vel_y)` towards zero divergence,
/// using `p` and `div` as the pressure and divergence scratch buffers.
#[verifier::loop_isolation(false)]
pub fn project(
    vel_x: &mut Vec<i64>,
    vel_y: &mut Vec<i64>,
    p: &mut Vec<i64>,
    div: &mut Vec<i64>,
    iters: usize,
    dim: (usize, usize),
)
    requires
        dim_ok(dim),
        old(vel_x)@.len() == dim.0 * dim.1,
        old(vel_y)@.len() == dim.0 * dim.1,
        old(p)@.len() == dim.0 * dim.1,
        old(div)@.len() == dim.0 * dim.1,
    ensures
        ({
            let r = project_spec(
                old(vel_x)@,
                old(vel_y)@,
                old(p)@,
                old(div)@,
                iters as nat,
                dim.0 as int,
                dim.1 as int,
            );
            &&& final(vel_x)@ == r.0
            &&& final(vel_y)@ == r.1
            &&& final(p)@ == r.2
            &&& final(div)@ == r.3
        }),
        final(vel_x)@.len() == old(vel_x)@.len(),
        final(vel_y)@.len() == old(vel_y)@.len(),
        final(p)@.len() == old(p)@.len(),
        final(div)@.len() == old(div)@.len(),
{
    let w = dim.0;
    let h = dim.1;
    let ghost gw = w as int;
    let ghost gh = h as int;
    let len = div.len();
    let ghost vx0 = vel_x@;
    let ghost vy0 = vel_y@;
    let mut j: usize = 0;
    while j < len
        invariant
            j <= len,
            div@.len() == len,
            p@.len() == len,
            forall|t: int| 0 <= t < j ==> div@[t] == div_cell(vx0, vy0, old(div)@, gw, gh, t),
            forall|t: int| j <= t < len ==> div@[t] == old(div)@[t],
            forall|t: int| 0 <= t < j ==> p@[t] == 0i64,
        decreases len - j,
    {
        proof {
            lemma_pos_decompose(j as int, gw, gh);
        }
        let x = j % w;
        let y = j / w;
        if 1 <= x && x < w - 1 && 1 <= y && y < h - 1 {
            proof {
                lemma_flat_in_range(x as int + 1, y as int, gw, gh);
                lemma_flat_in_range(x as int - 1, y as int, gw, gh);
                lemma_flat_in_range(x as int, y as int + 1, gw, gh);
                lemma_flat_in_range(x as int, y as int - 1, gw, gh);
                assert((y as int + 1) * gw == y as int * gw + gw && (y as int - 1) * gw == y
                    as int * gw - gw) by (nonlinear_arith);
            }
            let d = fx_mul(
                fx_sub(fx_add(fx_sub(vel_x[j + 1], vel_x[j - 1]), vel_y[j + w]), vel_y[j - w]),
                FX_NEG_HALF,
            );
            div.set(j, d);
        }
        p.set(j, 0);
        j += 1;
    }
    proof {
        assert(div@ =~= divergence_pass(vx0, vy0, old(div)@, gw, gh));
        assert(p@ =~= zero_seq(old(p)@.len()));
    }
    set_bound(Bound::Neither, div, dim);
    set_bound(Bound::Neither, p, dim);
    lin_solve(Bound::Neither, p, div, FX_ONE, FX_SIX, iters, dim);
    let ghost pressure = p@;
    let mut j: usize = 0;
    while j < len
        invariant
            j <= len,
            vel_x@.len() == len,
            vel_y@.len() == len,
            forall|t: int| 0 <= t < j ==> vel_x@[t] == grad_sub_x_cell(vx0, pressure, gw, gh, t),
            forall|t: int| j <= t < len ==> vel_x@[t] == vx0[t],
            forall|t: int| 0 <= t < j ==> vel_y@[t] == grad_sub_y_cell(vy0, pressure, gw, gh, t),
            forall|t: int| j <= t < len ==> vel_y@[t] == vy0[t],
        decreases len - j,
    {
        proof {
            lemma_pos_decompose(j as int, gw, gh);
        }
        let x = j % w;
        let y = j / w;
        if 1 <= x && x < w - 1 && 1 <= y && y < h - 1 {
            proof {
                lemma_flat_in_range(x as int + 1, y as int, gw, gh);
                lemma_flat_in_range(x as int - 1, y as int, gw, gh);
                lemma_flat_in_range(x as int, y as int + 1, gw, gh);
                lemma_flat_in_range(x as int, y as int - 1, gw, gh);
                assert((y as int + 1) * gw == y as int * gw + gw && (y as int - 1) * gw == y
                    as int * gw - gw) by (nonlinear_arith);
            }
            let nx = fx_sub(vel_x[j], fx_mul(fx_sub(p[j + 1], p[j - 1]), FX_HALF));
            vel_x.set(j, nx);
            let ny = fx_sub(vel_y[j], fx_mul(fx_sub(p[j + w], p[j - w]), FX_HALF));
            vel_y.set(j, ny);
        }
        j += 1;
    }
    proof {
        assert(vel_x@ =~= grad_sub_x_pass(vx0, pressure, gw, gh));
        assert(vel_y@ =~= grad_sub_y_pass(vy0, pressure, gw, gh));
    }
    set_bound(Bound::X, vel_x, dim);
    set_bound(Bound::Y, vel_y, dim);
}

} // verus!
