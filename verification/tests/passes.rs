//! Tests of the individual solver passes and of the fixed-point scalars.

use fluid_sim_rs::boundary::{set_bound, Bound};
use fluid_sim_rs::fixed::{
    fx_add, fx_avg, fx_div, fx_mul, fx_neg, fx_sub, FX_HALF, FX_MAX, FX_MIN, FX_ONE, SCALE,
};
use fluid_sim_rs::project::project;
use fluid_sim_rs::solver::{diffuse, lin_solve};
use fluid_sim_rs::advect::advect;

fn idx(x: usize, y: usize, w: usize) -> usize {
    x + y * w
}

/// The worst divergence magnitude over the interior cells, in plain wide
/// arithmetic.
fn max_abs_divergence(vx: &[i64], vy: &[i64], w: usize, h: usize) -> i128 {
    let mut worst: i128 = 0;
    for y in 1..h - 1 {
        for x in 1..w - 1 {
            let d: i128 = (vx[idx(x + 1, y, w)] as i128 - vx[idx(x - 1, y, w)] as i128
                + vy[idx(x, y + 1, w)] as i128
                - vy[idx(x, y - 1, w)] as i128)
                / 2;
            if d.abs() > worst {
                worst = d.abs();
            }
        }
    }
    worst
}

#[test]
fn fixed_point_arithmetic_exact_values() {
    // 2.0 * 0.5 == 1.0, 1.0 / 2.0 == 0.5, 3.0 - 1.25 == 1.75
    assert_eq!(fx_mul(2 * SCALE, FX_HALF), FX_ONE);
    assert_eq!(fx_div(FX_ONE, 2 * SCALE), FX_HALF);
    assert_eq!(fx_sub(3 * SCALE, 1_250_000), 1_750_000);
    assert_eq!(fx_add(250_000, 250_000), FX_HALF);
    assert_eq!(fx_avg(FX_ONE, 0), FX_HALF);
    assert_eq!(fx_neg(FX_ONE), -FX_ONE);
    // truncation rounds toward zero on both signs
    assert_eq!(fx_mul(1, FX_HALF), 0);
    assert_eq!(fx_mul(-1, FX_HALF), 0);
    // saturation at the symmetric range ends
    assert_eq!(fx_add(FX_MAX, FX_MAX), FX_MAX);
    assert_eq!(fx_add(FX_MIN, FX_MIN), FX_MIN);
    assert_eq!(fx_neg(FX_MIN), FX_MAX);
    assert_eq!(fx_mul(FX_MAX, 2 * SCALE), FX_MAX);
}

#[test]
fn boundary_scalar_copies_edges_from_interior() {
    let (w, h) = (5usize, 4usize);
    let mut f: Vec<i64> = (0..(w * h) as i64).map(|v| v * 1000).collect();
    let orig = f.clone();
    set_bound(Bound::Neither, &mut f, (w, h));
    // every non-corner edge cell equals its adjacent interior cell
    for x in 1..w - 1 {
        assert_eq!(f[idx(x, 0, w)], orig[idx(x, 1, w)]);
        assert_eq!(f[idx(x, h - 1, w)], orig[idx(x, h - 2, w)]);
    }
    for y in 1..h - 1 {
        assert_eq!(f[idx(0, y, w)], orig[idx(1, y, w)]);
        assert_eq!(f[idx(w - 1, y, w)], orig[idx(w - 2, y, w)]);
    }
    // interior cells untouched
    for y in 1..h - 1 {
        for x in 1..w - 1 {
            assert_eq!(f[idx(x, y, w)], orig[idx(x, y, w)]);
        }
    }
    // corners are the average of their two edge neighbours
    assert_eq!(f[idx(0, 0, w)], fx_avg(f[idx(1, 0, w)], f[idx(0, 1, w)]));
    assert_eq!(
        f[idx(w - 1, h - 1, w)],
        fx_avg(f[idx(w - 2, h - 1, w)], f[idx(w - 1, h - 2, w)])
    );
}

#[test]
fn boundary_normal_x_negates_left_right_edges() {
    let (w, h) = (5usize, 5usize);
    let mut f: Vec<i64> = (0..(w * h) as i64).map(|v| (v + 7) * 31).collect();
    let orig = f.clone();
    set_bound(Bound::X, &mut f, (w, h));
    for y in 1..h - 1 {
        assert_eq!(f[idx(0, y, w)], -orig[idx(1, y, w)]);
        assert_eq!(f[idx(w - 1, y, w)], -orig[idx(w - 2, y, w)]);
    }
    // top and bottom edges copy without negation for the X kind
    for x in 1..w - 1 {
        assert_eq!(f[idx(x, 0, w)], orig[idx(x, 1, w)]);
        assert_eq!(f[idx(x, h - 1, w)], orig[idx(x, h - 2, w)]);
    }
}

#[test]
fn boundary_normal_y_negates_top_bottom_edges() {
    let (w, h) = (6usize, 5usize);
    let mut f: Vec<i64> = (0..(w * h) as i64).map(|v| (v + 3) * 17).collect();
    let orig = f.clone();
    set_bound(Bound::Y, &mut f, (w, h));
    for x in 1..w - 1 {
        assert_eq!(f[idx(x, 0, w)], -orig[idx(x, 1, w)]);
        assert_eq!(f[idx(x, h - 1, w)], -orig[idx(x, h - 2, w)]);
    }
    for y in 1..h - 1 {
        assert_eq!(f[idx(0, y, w)], orig[idx(1, y, w)]);
        assert_eq!(f[idx(w - 1, y, w)], orig[idx(w - 2, y, w)]);
    }
}

#[test]
fn relaxation_with_zero_coefficient_copies_rhs_through() {
    let (w, h) = (6usize, 6usize);
    let mut vals: Vec<i64> = (0..(w * h) as i64).map(|v| v * 999).collect();
    let rhs: Vec<i64> = (0..(w * h) as i64).map(|v| v * 123 - 777).collect();
    lin_solve(Bound::Neither, &mut vals, &rhs, 0, FX_ONE, 4, (w, h));
    for y in 1..h - 1 {
        for x in 1..w - 1 {
            assert_eq!(vals[idx(x, y, w)], rhs[idx(x, y, w)]);
        }
    }
}

#[test]
fn diffusion_at_rate_zero_is_identity_transport() {
    let (w, h) = (5usize, 7usize);
    let mut vals: Vec<i64> = vec![0; w * h];
    let rhs: Vec<i64> = (0..(w * h) as i64).map(|v| v * 250_000).collect();
    diffuse(Bound::Neither, &mut vals, &rhs, 0, 33_333, 3, (w, h));
    for y in 1..h - 1 {
        for x in 1..w - 1 {
            assert_eq!(vals[idx(x, y, w)], rhs[idx(x, y, w)]);
        }
    }
}

#[test]
fn advection_with_zero_velocity_is_identity_on_interior() {
    let (w, h) = (8usize, 6usize);
    let mut vals: Vec<i64> = vec![0; w * h];
    let vals0: Vec<i64> = (0..(w * h) as i64).map(|v| v * 777 - 555).collect();
    let zero: Vec<i64> = vec![0; w * h];
    advect(Bound::Neither, &mut vals, &vals0, &zero, &zero, 33_333, (w, h));
    for y in 1..h - 1 {
        for x in 1..w - 1 {
            assert_eq!(vals[idx(x, y, w)], vals0[idx(x, y, w)]);
        }
    }
}

#[test]
fn projection_reduces_divergence_as_iterations_grow() {
    let (w, h) = (12usize, 12usize);
    let build = || {
        let mut vx: Vec<i64> = vec![0; w * h];
        let vy: Vec<i64> = vec![0; w * h];
        // a single divergence source around (5, 5)
        vx[idx(6, 5, w)] = FX_ONE;
        vx[idx(4, 5, w)] = -FX_ONE;
        (vx, vy)
    };
    let mut residuals: Vec<i128> = Vec::new();
    for iters in [1usize, 2, 4, 8, 16] {
        let (mut vx, mut vy) = build();
        let mut p: Vec<i64> = vec![0; w * h];
        let mut dv: Vec<i64> = vec![0; w * h];
        project(&mut vx, &mut vy, &mut p, &mut dv, iters, (w, h));
        residuals.push(max_abs_divergence(&vx, &vy, w, h));
    }
    // monotonic improvement: more sweeps never make the worst residual
    // larger, and more sweeps do strictly reduce it over the whole range
    // (adjacent counts can tie under fixed-point truncation), while finite
    // iteration counts never reach exactly zero
    for k in 1..residuals.len() {
        assert!(
            residuals[k] <= residuals[k - 1],
            "residuals {:?} increased",
            residuals
        );
    }
    assert!(residuals[residuals.len() - 1] < residuals[0]);
    assert!(residuals[residuals.len() - 1] > 0);
}
