//! The iterative linear relaxation solver and the diffusion pass built on it.
//!
//! The solver approximates the sparse linear system
//! `(1 + 4a) x_i == rhs_i + a * (x_left + x_right + x_up + x_down)`
//! at every interior cell. Each sweep reads a snapshot of the current field
//! and writes every interior cell from that snapshot (Jacobi relaxation:
//! the in-place update order of Gauss-Seidel is deliberately given up so
//! that all cells of one sweep are independent), then re-applies the
//! boundary rule. The solver never tests for convergence: it runs exactly
//! `iters` sweeps and returns.

use vstd::prelude::*;

use crate::boundary::{lemma_set_bound_interior, lemma_set_bound_len, lemma_set_bound_ok,
    set_bound, set_bound_spec, Bound};
use crate::fixed::{fx_add, fx_add_s, fx_div, fx_div_s, fx_mul, fx_mul_s, fx_ok, fx_seq_ok,
    lemma_fx_identities, lemma_fx_mul_nonneg, FX_DIFF_SCALE, FX_FOUR, FX_ONE};
use crate::grid::{copy_field, dim_ok, interior, lemma_flat_in_range, lemma_pos_decompose};

verus! {

/// The value of cell `i` after one relaxation sweep over the snapshot
/// `snap`: interior cells take the stencil update, all others keep their
/// snapshot value.
pub open spec fn relax_cell(
    snap: Seq<i64>,
    rhs: Seq<i64>,
    a: i64,
    c: i64,
    w: int,
    h: int,
    i: int,
) -> i64 {
    let x = i % w;
    let y = i / w;
    if interior(x, y, w, h) {
        let nsum = fx_add_s(
            fx_add_s(fx_add_s(snap[i + 1], snap[i - 1]), snap[i + w]),
            snap[i - w],
        );
        fx_div_s(fx_add_s(rhs[i], fx_mul_s(nsum, a)), c)
    } else {
        snap[i]
    }
}

/// One whole Jacobi sweep over the snapshot, before the boundary pass.
pub open spec fn relax_pass(v: Seq<i64>, rhs: Seq<i64>, a: i64, c: i64, w: int, h: int) -> Seq<
    i64,
> {
    Seq::new(v.len(), |i: int| relax_cell(v, rhs, a, c, w, h, i))
}

/// One sweep followed by the boundary pass.
pub open spec fn sweep_spec(
    b: Bound,
    v: Seq<i64>,
    rhs: Seq<i64>,
    a: i64,
    c: i64,
    w: int,
    h: int,
) -> Seq<i64> {
    set_bound_spec(b, relax_pass(v, rhs, a, c, w, h), w, h)
}

/// `iters` sweeps of the relaxation solver.
pub open spec fn lin_solve_spec(
    b: Bound,
    v: Seq<i64>,
    rhs: Seq<i64>,
    a: i64,
    c: i64,
    iters: nat,
    w: int,
    h: int,
) -> Seq<i64>
    decreases iters,
{
    if iters == 0 {
        v
    } else {
        sweep_spec(b, lin_solve_spec(b, v, rhs, a, c, (iters - 1) as nat, w, h), rhs, a, c, w, h)
    }
}

/// The solver keeps the buffer length and writes only representable values.
pub proof fn lemma_lin_solve_ok(
    b: Bound,
    v: Seq<i64>,
    rhs: Seq<i64>,
    a: i64,
    c: i64,
    iters: nat,
    w: int,
    h: int,
)
    requires
        w >= 3,
        h >= 3,
        v.len() == w * h,
        fx_seq_ok(v),
    ensures
        lin_solve_spec(b, v, rhs, a, c, iters, w, h).len() == w * h,
        fx_seq_ok(lin_solve_spec(b, v, rhs, a, c, iters, w, h)),
    decreases iters,
{
    if iters > 0 {
        lemma_lin_solve_ok(b, v, rhs, a, c, (iters - 1) as nat, w, h);
        let prev = lin_solve_spec(b, v, rhs, a, c, (iters - 1) as nat, w, h);
        let p = relax_pass(prev, rhs, a, c, w, h);
        assert forall|i: int| 0 <= i < p.len() implies fx_ok(#[trigger] p[i]) by {
            lemma_pos_decompose(i, w, h);
        }
        lemma_set_bound_ok(b, p, w, h);
        lemma_set_bound_len(b, p, w, h);
    }
}

/// Run `iters` relaxation sweeps on `vals` against the right-hand side
/// `rhs`, re-applying the boundary rule for `b` after every sweep.
#[verifier::loop_isolation(false)]
pub fn lin_solve(
    b: Bound,
    vals: &mut Vec<i64>,
    rhs: &Vec<i64>,
    a: i64,
    c: i64,
    iters: usize,
    dim: (usize, usize),
)
    requires
        dim_ok(dim),
        old(vals)@.len() == dim.0 * dim.1,
        rhs@.len() == dim.0 * dim.1,
        c > 0,
    ensures
        final(vals)@ == lin_solve_spec(
            b,
            old(vals)@,
            rhs@,
            a,
            c,
            iters as nat,
            dim.0 as int,
            dim.1 as int,
        ),
        final(vals)@.len() == old(vals)@.len(),
{
    let w = dim.0;
    let h = dim.1;
    let ghost gw = w as int;
    let ghost gh = h as int;
    let len = vals.len();
    let mut k: usize = 0;
    while k < iters
        invariant
            k <= iters,
            vals@.len() == len,
            vals@ == lin_solve_spec(b, old(vals)@, rhs@, a, c, k as nat, gw, gh),
        decreases iters - k,
    {
        let snap = copy_field(vals);
        let mut j: usize = 0;
        while j < len
            invariant
                j <= len,
                vals@.len() == len,
                forall|t: int| 0 <= t < j ==> vals@[t] == relax_cell(snap@, rhs@, a, c, gw, gh, t),
                forall|t: int| j <= t < len ==> vals@[t] == snap@[t],
            decreases len - j,
        {
            proof {
                lemma_pos_decompose(j as int, gw, gh);
            }
            let x = j % w;
            let y = j / w;
            if 1 <= x && x < w - 1 && 1 <= y && y < h - 1 {
                proof {
                    lemma_flat_in_range(x as int + 1, y as int, gw, gh);
                    lemma_flat_in_range(x as int - 1, y as int, gw, gh);
                    lemma_flat_in_range(x as int, y as int + 1, gw, gh);
                    lemma_flat_in_range(x as int, y as int - 1, gw, gh);
                    assert((y as int + 1) * gw == y as int * gw + gw && (y as int - 1) * gw
                        == y as int * gw - gw) by (nonlinear_arith);
                }
                let nsum = fx_add(fx_add(fx_add(snap[j + 1], snap[j - 1]), snap[j + w]), snap[j
                    - w]);
                let val = fx_div(fx_add(rhs[j], fx_mul(nsum, a)), c);
                vals.set(j, val);
            }
            j += 1;
        }
        proof {
            assert(vals@ =~= relax_pass(snap@, rhs@, a, c, gw, gh));
        }
        set_bound(b, vals, dim);
        k += 1;
    }
}

/// The diffusion coefficient `a`: `dt * diff`, scaled up by the fixed
/// grid-scale constant.
pub open spec fn diffuse_coeff(diff: i64, dt: i64) -> i64 {
    fx_mul_s(fx_mul_s(dt, diff), FX_DIFF_SCALE)
}

/// The diagonal normalisation `c == 1 + 4 a` of the diffusion system.
pub open spec fn diffuse_norm(a: i64) -> i64 {
    fx_add_s(FX_ONE, fx_mul_s(FX_FOUR, a))
}

/// The diffusion pass: the relaxation solver on the implicit system with
/// coefficient `a == dt * diff * K` and diagonal `1 + 4 a`.
pub open spec fn diffuse_spec(
    b: Bound,
    v: Seq<i64>,
    rhs: Seq<i64>,
    diff: i64,
    dt: i64,
    iters: nat,
    w: int,
    h: int,
) -> Seq<i64> {
    lin_solve_spec(b, v, rhs, diffuse_coeff(diff, dt), diffuse_norm(diffuse_coeff(diff, dt)),
        iters, w, h)
}

/// Diffuse `rhs` into `vals`: spread each cell's value towards its four
/// neighbours at rate `diff` over the time step `dt`.
pub fn diffuse(
    b: Bound,
    vals: &mut Vec<i64>,
    rhs: &Vec<i64>,
    diff: i64,
    dt: i64,
    iters: usize,
    dim: (usize, usize),
)
    requires
        dim_ok(dim),
        old(vals)@.len() == dim.0 * dim.1,
        rhs@.len() == dim.0 * dim.1,
        diff >= 0,
        dt >= 0,
    ensures
        final(vals)@ == diffuse_spec(
            b,
            old(vals)@,
            rhs@,
            diff,
            dt,
            iters as nat,
            dim.0 as int,
            dim.1 as int,
        ),
        final(vals)@.len() == old(vals)@.len(),
{
    let a = fx_mul(fx_mul(dt, diff), FX_DIFF_SCALE);
    let c = fx_add(FX_ONE, fx_mul(FX_FOUR, a));
    proof {
        lemma_fx_mul_nonneg(dt, diff);
        lemma_fx_mul_nonneg(fx_mul_s(dt, diff), FX_DIFF_SCALE);
        lemma_fx_mul_nonneg(FX_FOUR, a);
    }
    lin_solve(b, vals, rhs, a, c, iters, dim);
}

/// The relaxation fixed point: with coefficient `a == 0` and diagonal one,
/// any positive number of sweeps only copies the right-hand side through to
/// every interior cell (degenerate diffusion is the identity transport from
/// the scratch buffer).
pub proof fn lemma_relaxation_fixed_point(
    b: Bound,
    v: Seq<i64>,
    rhs: Seq<i64>,
    iters: nat,
    w: int,
    h: int,
    i: int,
)
    requires
        w >= 3,
        h >= 3,
        v.len() == w * h,
        rhs.len() == w * h,
        fx_seq_ok(v),
        fx_seq_ok(rhs),
        iters >= 1,
        0 <= i < w * h,
        interior(i % w, i / w, w, h),
    ensures
        lin_solve_spec(b, v, rhs, 0, FX_ONE, iters, w, h)[i] == rhs[i],
{
    lemma_lin_solve_ok(b, v, rhs, 0, FX_ONE, (iters - 1) as nat, w, h);
    let prev = lin_solve_spec(b, v, rhs, 0, FX_ONE, (iters - 1) as nat, w, h);
    let p = relax_pass(prev, rhs, 0, FX_ONE, w, h);
    lemma_pos_decompose(i, w, h);
    let nsum = fx_add_s(
        fx_add_s(fx_add_s(prev[i + 1], prev[i - 1]), prev[i + w]),
        prev[i - w],
    );
    lemma_fx_identities(nsum);
    lemma_fx_identities(rhs[i]);
    assert(p[i] == rhs[i]);
    lemma_set_bound_interior(b, p, w, h, i);
}

/// Diffusion at rate zero is that fixed point: after at least one sweep
/// every interior cell holds exactly its right-hand-side value.
pub proof fn lemma_diffusion_identity(
    b: Bound,
    v: Seq<i64>,
    rhs: Seq<i64>,
    dt: i64,
    iters: nat,
    w: int,
    h: int,
    i: int,
)
    requires
        w >= 3,
        h >= 3,
        v.len() == w * h,
        rhs.len() == w * h,
        fx_seq_ok(v),
        fx_seq_ok(rhs),
        dt >= 0,
        iters >= 1,
        0 <= i < w * h,
        interior(i % w, i / w, w, h),
    ensures
        diffuse_spec(b, v, rhs, 0, dt, iters, w, h)[i] == rhs[i],
{
    lemma_fx_identities(dt);
    lemma_fx_identities(FX_DIFF_SCALE);
    lemma_fx_identities(FX_FOUR);
    assert(diffuse_coeff(0, dt) == 0);
    assert(diffuse_norm(0) == FX_ONE);
    lemma_relaxation_fixed_point(b, v, rhs, iters, w, h, i);
}

} // verus!
