//! Semi-Lagrangian advection: transport of a field along the velocity
//! field.
//!
//! Every cell traces backwards along the velocity at its own position,
//! clamps the traced point into the valid interior band, and resamples the
//! previous buffer there with bilinear interpolation of the four
//! surrounding cells. The destination buffer is then run through the
//! boundary pass for the field's kind.

use vstd::prelude::*;

use crate::boundary::{lemma_set_bound_interior, set_bound, set_bound_spec, Bound};
use crate::fixed::{fx_add, fx_add_s, fx_clamp, fx_clamp_s, fx_from_cell, fx_floor, fx_mul,
    fx_mul_s, fx_of_cell, fx_ok, fx_seq_ok, fx_sub, fx_sub_s, lemma_fx_identities, tdiv,
    FX_ADVECT_SCALE, FX_HALF, FX_MAX, FX_ONE, SCALE};
use crate::grid::{dim_ok, idx_spec, interior, lemma_idx_in_grid, lemma_pos_decompose};

verus! {

/// The back-traced, bilinearly resampled value written into cell `i`.
pub open spec fn advect_cell(
    v0: Seq<i64>,
    vx: Seq<i64>,
    vy: Seq<i64>,
    dt: i64,
    w: int,
    h: int,
    i: int,
) -> i64 {
    let ix = i % w;
    let iy = i / w;
    let dtx = fx_mul_s(dt, FX_ADVECT_SCALE);
    let x = fx_clamp_s(
        fx_sub_s(fx_of_cell(ix), fx_mul_s(dtx, vx[i])),
        FX_HALF,
        fx_sub_s(fx_of_cell(w), FX_HALF),
    );
    let y = fx_clamp_s(
        fx_sub_s(fx_of_cell(iy), fx_mul_s(dtx, vy[i])),
        FX_HALF,
        fx_sub_s(fx_of_cell(h), FX_HALF),
    );
    let i0 = tdiv(x as int, SCALE as int);
    let i1 = i0 + 1;
    let j0 = tdiv(y as int, SCALE as int);
    let j1 = j0 + 1;
    let s1 = fx_sub_s(x, fx_of_cell(i0));
    let s0 = fx_sub_s(FX_ONE, s1);
    let t1 = fx_sub_s(y, fx_of_cell(j0));
    let t0 = fx_sub_s(FX_ONE, t1);
    let v00 = v0[idx_spec(i0, j0, w, h)];
    let v01 = v0[idx_spec(i0, j1, w, h)];
    let v10 = v0[idx_spec(i1, j0, w, h)];
    let v11 = v0[idx_spec(i1, j1, w, h)];
    fx_add_s(
        fx_mul_s(fx_add_s(fx_mul_s(v00, t0), fx_mul_s(v01, t1)), s0),
        fx_mul_s(fx_add_s(fx_mul_s(v10, t0), fx_mul_s(v11, t1)), s1),
    )
}

/// The advection sweep over the whole buffer, before the boundary pass.
pub open spec fn advect_pass(v0: Seq<i64>, vx: Seq<i64>, vy: Seq<i64>, dt: i64, w: int, h: int) -> Seq<
    i64,
> {
    Seq::new(v0.len(), |i: int| advect_cell(v0, vx, vy, dt, w, h, i))
}

/// The whole advection pass, boundary rule included.
pub open spec fn advect_spec(
    b: Bound,
    v0: Seq<i64>,
    vx: Seq<i64>,
    vy: Seq<i64>,
    dt: i64,
    w: int,
    h: int,
) -> Seq<i64> {
    set_bound_spec(b, advect_pass(v0, vx, vy, dt, w, h), w, h)
}

/// The advection pass keeps the buffer length and writes only representable
/// values: every resampled cell is a saturated sum.
pub proof fn lemma_advect_ok(
    b: Bound,
    v0: Seq<i64>,
    vx: Seq<i64>,
    vy: Seq<i64>,
    dt: i64,
    w: int,
    h: int,
)
    requires
        w >= 3,
        h >= 3,
        v0.len() == w * h,
    ensures
        advect_spec(b, v0, vx, vy, dt, w, h).len() == w * h,
        fx_seq_ok(advect_spec(b, v0, vx, vy, dt, w, h)),
{
    let pass = advect_pass(v0, vx, vy, dt, w, h);
    assert forall|i: int| 0 <= i < pass.len() implies fx_ok(#[trigger] pass[i]) by {
        assert(pass[i] == advect_cell(v0, vx, vy, dt, w, h, i));
    }
    crate::boundary::lemma_set_bound_ok(b, pass, w, h);
    crate::boundary::lemma_set_bound_len(b, pass, w, h);
}

/// The clamped linear offset of the sample cell `(x, y)`, for coordinates
/// that may reach one past the valid range.
fn flat_clamped(x: i64, y: i64, dim: (usize, usize)) -> (r: usize)
    requires
        dim_ok(dim),
        x >= 0,
        y >= 0,
    ensures
        r == idx_spec(x as int, y as int, dim.0 as int, dim.1 as int),
        r < dim.0 * dim.1,
{
    let cells: u128 = (dim.0 as u128) * (dim.1 as u128);
    proof {
        assert(1 <= (dim.0 as int) * (dim.1 as int)) by (nonlinear_arith)
            requires
                dim.0 >= 3,
                dim.1 >= 3,
        ;
        assert((x as int) + (y as int) * (dim.0 as int) <= u128::MAX) by (nonlinear_arith)
            requires
                0 <= x <= i64::MAX,
                0 <= y <= i64::MAX,
                0 <= dim.0 <= u64::MAX,
        ;
    }
    let t: u128 = (x as u128) + (y as u128) * (dim.0 as u128);
    if t > cells - 1 {
        (cells - 1) as usize
    } else {
        t as usize
    }
}

/// Transport `vals0` along the velocity field `(vel_x, vel_y)` over the
/// time step `dt`, writing the result into `vals`.
#[verifier::loop_isolation(false)]
pub fn advect(
    b: Bound,
    vals: &mut Vec<i64>,
    vals0: &Vec<i64>,
    vel_x: &Vec<i64>,
    vel_y: &Vec<i64>,
    dt: i64,
    dim: (usize, usize),
)
    requires
        dim_ok(dim),
        old(vals)@.len() == dim.0 * dim.1,
        vals0@.len() == dim.0 * dim.1,
        vel_x@.len() == dim.0 * dim.1,
        vel_y@.len() == dim.0 * dim.1,
    ensures
        final(vals)@ == advect_spec(b, vals0@, vel_x@, vel_y@, dt, dim.0 as int, dim.1 as int),
        final(vals)@.len() == old(vals)@.len(),
{
    let w = dim.0;
    let h = dim.1;
    let ghost gw = w as int;
    let ghost gh = h as int;
    proof {
        assert(3 * gw <= gw * gh && 3 * gh <= gw * gh) by (nonlinear_arith)
            requires
                gw >= 3,
                gh >= 3,
        ;
    }
    let len = vals.len();
    let dtx = fx_mul(dt, FX_ADVECT_SCALE);
    let hix = fx_sub(fx_from_cell(w as i64), FX_HALF);
    let hiy = fx_sub(fx_from_cell(h as i64), FX_HALF);
    let mut j: usize = 0;
    while j < len
        invariant
            j <= len,
            vals@.len() == len,
            forall|t: int|
                0 <= t < j ==> vals@[t] == advect_cell(vals0@, vel_x@, vel_y@, dt, gw, gh, t),
            forall|t: int| j <= t < len ==> vals@[t] == old(vals)@[t],
        decreases len - j,
    {
        proof {
            lemma_pos_decompose(j as int, gw, gh);
        }
        let ix = j % w;
        let iy = j / w;
        let x = fx_clamp(fx_sub(fx_from_cell(ix as i64), fx_mul(dtx, vel_x[j])), FX_HALF, hix);
        let y = fx_clamp(fx_sub(fx_from_cell(iy as i64), fx_mul(dtx, vel_y[j])), FX_HALF, hiy);
        let i0 = fx_floor(x);
        let i1 = i0 + 1;
        let j0 = fx_floor(y);
        let j1 = j0 + 1;
        let s1 = fx_sub(x, fx_from_cell(i0));
        let s0 = fx_sub(FX_ONE, s1);
        let t1 = fx_sub(y, fx_from_cell(j0));
        let t0 = fx_sub(FX_ONE, t1);
        let v00 = vals0[flat_clamped(i0, j0, dim)];
        let v01 = vals0[flat_clamped(i0, j1, dim)];
        let v10 = vals0[flat_clamped(i1, j0, dim)];
        let v11 = vals0[flat_clamped(i1, j1, dim)];
        let val = fx_add(
            fx_mul(fx_add(fx_mul(v00, t0), fx_mul(v01, t1)), s0),
            fx_mul(fx_add(fx_mul(v10, t0), fx_mul(v11, t1)), s1),
        );
        vals.set(j, val);
        j += 1;
    }
    proof {
        assert(vals@ =~= advect_pass(vals0@, vel_x@, vel_y@, dt, gw, gh));
    }
    set_bound(b, vals, dim);
}

/// Advection along an everywhere-zero velocity field is the identity at
/// every interior cell: the backward trace lands exactly on the cell
/// itself and the bilinear weights degenerate to one and zero.
pub proof fn lemma_advection_zero_velocity(
    b: Bound,
    v0: Seq<i64>,
    vx: Seq<i64>,
    vy: Seq<i64>,
    dt: i64,
    w: int,
    h: int,
    i: int,
)
    requires
        w >= 3,
        h >= 3,
        v0.len() == w * h,
        vx.len() == w * h,
        vy.len() == w * h,
        fx_seq_ok(v0),
        w * SCALE <= FX_MAX,
        h * SCALE <= FX_MAX,
        forall|t: int| 0 <= t < w * h ==> vx[t] == 0 && vy[t] == 0,
        0 <= i < w * h,
        interior(i % w, i / w, w, h),
    ensures
        advect_spec(b, v0, vx, vy, dt, w, h)[i] == v0[i],
{
    lemma_pos_decompose(i, w, h);
    let ix = i % w;
    let iy = i / w;
    let dtx = fx_mul_s(dt, FX_ADVECT_SCALE);
    assert(dtx * 0 == 0);
    assert(fx_mul_s(dtx, 0) == 0) by {
        assert(tdiv(0, SCALE as int) == 0);
    }
    assert(ix * SCALE >= SCALE && ix * SCALE <= (w - 2) * SCALE && (w - 2) * SCALE + 2 * SCALE
        == w * SCALE) by (nonlinear_arith)
        requires
            1 <= ix <= w - 2,
            SCALE >= 1,
    ;
    assert(iy * SCALE >= SCALE && iy * SCALE <= (h - 2) * SCALE && (h - 2) * SCALE + 2 * SCALE
        == h * SCALE) by (nonlinear_arith)
        requires
            1 <= iy <= h - 2,
            SCALE >= 1,
    ;
    let x = fx_clamp_s(
        fx_sub_s(fx_of_cell(ix), fx_mul_s(dtx, vx[i])),
        FX_HALF,
        fx_sub_s(fx_of_cell(w), FX_HALF),
    );
    assert(x == ix * SCALE);
    let y = fx_clamp_s(
        fx_sub_s(fx_of_cell(iy), fx_mul_s(dtx, vy[i])),
        FX_HALF,
        fx_sub_s(fx_of_cell(h), FX_HALF),
    );
    assert(y == iy * SCALE);
    vstd::arithmetic::div_mod::lemma_div_multiples_vanish(ix, SCALE as int);
    vstd::arithmetic::div_mod::lemma_div_multiples_vanish(iy, SCALE as int);
    assert(tdiv(x as int, SCALE as int) == ix);
    assert(tdiv(y as int, SCALE as int) == iy);
    let p = advect_pass(v0, vx, vy, dt, w, h);
    lemma_idx_in_grid(ix, iy, w, h);
    assert(idx_spec(ix, iy, w, h) == i);
    let v00 = v0[i];
    let v01 = v0[idx_spec(ix, iy + 1, w, h)];
    let v10 = v0[idx_spec(ix + 1, iy, w, h)];
    let v11 = v0[idx_spec(ix + 1, iy + 1, w, h)];
    assert(fx_ok(v00) && fx_ok(v01) && fx_ok(v10) && fx_ok(v11));
    lemma_fx_identities(v00);
    lemma_fx_identities(v01);
    lemma_fx_identities(v10);
    lemma_fx_identities(v11);
    lemma_fx_identities(fx_add_s(fx_mul_s(v10, FX_ONE), fx_mul_s(v11, 0)));
    assert(p[i] == v0[i]);
    lemma_set_bound_interior(b, p, w, h, i);
}

} // verus!
