//! Tests of the public grid API: construction, injection, the step
//! pipeline, and the per-edge boundary behaviours.

use fluid_sim_rs::fixed::{fx_mul, FX_HALF, FX_ONE, SCALE};
use fluid_sim_rs::flow_box::{BoundaryParams, BoundaryType, FlowBox, FluidParams, Rgb};

fn idx(x: usize, y: usize, w: usize) -> usize {
    x + y * w
}

fn total_density(fb: &FlowBox) -> i128 {
    let (w, h) = fb.dim();
    let mut sum: i128 = 0;
    for i in 0..w * h {
        let c = fb.density_at(i);
        sum += c.r as i128 + c.g as i128 + c.b as i128;
    }
    sum
}

#[test]
fn index_and_pos_round_trip() {
    let dim = (10usize, 7usize);
    for y in 0..7 {
        for x in 0..10 {
            let i = FlowBox::index(x, y, dim);
            assert_eq!(FlowBox::pos(i, dim), (x, y));
        }
    }
}

#[test]
fn index_clamps_out_of_range_queries() {
    let dim = (10usize, 7usize);
    assert_eq!(FlowBox::index(100, 100, dim), 69);
    assert_eq!(FlowBox::index(9, 6, dim), 69);
    assert_eq!(FlowBox::index(0, 0, dim), 0);
}

#[test]
fn init_builds_zeroed_buffers() {
    let fb = FlowBox::init(3, 3);
    assert_eq!(fb.dim(), (3, 3));
    assert_eq!(fb.vel_x().len(), 9);
    assert_eq!(fb.vel_y().len(), 9);
    assert_eq!(fb.density_r().len(), 9);
    for i in 0..9 {
        assert_eq!(fb.vel_x()[i], 0);
        assert_eq!(fb.vel_y()[i], 0);
        let c = fb.density_at(i);
        assert_eq!((c.r, c.g, c.b), (0, 0, 0));
    }
}

#[test]
fn add_fluid_density_accumulates_at_cell() {
    let mut fb = FlowBox::init(10, 10);
    fb.add_fluid_density(5, 5, Rgb { r: FX_ONE, g: FX_HALF, b: 0 });
    fb.add_fluid_density(5, 5, Rgb { r: FX_ONE, g: 0, b: 250_000 });
    let c = fb.density_at(idx(5, 5, 10));
    assert_eq!((c.r, c.g, c.b), (2 * FX_ONE, FX_HALF, 250_000));
    // other cells untouched
    let o = fb.density_at(idx(4, 5, 10));
    assert_eq!((o.r, o.g, o.b), (0, 0, 0));
}

#[test]
fn out_of_range_injection_clamps_to_edge_cell() {
    let mut fb = FlowBox::init(10, 10);
    fb.add_fluid_density(100, 100, Rgb { r: FX_ONE, g: 0, b: 0 });
    let c = fb.density_at(idx(9, 9, 10));
    assert_eq!(c.r, FX_ONE);
    fb.add_fluid_velocity(42, 3, 7_000, -8_000);
    // velocity lands in the scratch buffers, clamped to x == 9
    let mut fb2 = FlowBox::init(10, 10);
    fb2.add_fluid_velocity(9, 3, 7_000, -8_000);
    fb.step(33_333);
    fb2.step(33_333);
    assert_eq!(fb.vel_x(), fb2.vel_x());
    assert_eq!(fb.vel_y(), fb2.vel_y());
}

#[test]
fn scale_fluid_density_scales_every_cell() {
    let mut fb = FlowBox::init(10, 10);
    fb.add_fluid_density(5, 5, Rgb { r: FX_ONE, g: FX_ONE, b: FX_ONE });
    fb.add_fluid_density(2, 7, Rgb { r: FX_HALF, g: 0, b: 0 });
    fb.scale_fluid_density(FX_HALF);
    assert_eq!(fb.density_at(idx(5, 5, 10)).r, FX_HALF);
    assert_eq!(fb.density_at(idx(2, 7, 10)).r, 250_000);
    fb.scale_fluid_density(0);
    assert_eq!(total_density(&fb), 0);
}

#[test]
fn step_conserves_total_quantity_on_quiet_grid() {
    // a unit splat in the middle of a 10 x 10 grid, one tick of 1/30:
    // diffusion and advection redistribute but must not create or destroy
    // quantity beyond the truncation of the fixed-iteration solve
    let mut fb = FlowBox::init(10, 10);
    fb.add_fluid_density(5, 5, Rgb { r: FX_ONE, g: 0, b: 0 });
    let before = total_density(&fb);
    assert_eq!(before, FX_ONE as i128);
    fb.step(SCALE / 30);
    let after = total_density(&fb);
    let diff = (after - before).abs();
    // within 2 percent of the splatted quantity
    assert!(
        diff <= (FX_ONE / 50) as i128,
        "mass drifted from {} to {}",
        before,
        after
    );
}

#[test]
fn step_keeps_quiet_velocity_at_zero() {
    let mut fb = FlowBox::init(10, 10);
    fb.add_fluid_density(5, 5, Rgb { r: FX_ONE, g: 0, b: 0 });
    fb.step(SCALE / 30);
    for i in 0..100 {
        assert_eq!(fb.vel_x()[i], 0);
        assert_eq!(fb.vel_y()[i], 0);
    }
}

#[test]
fn identical_grids_stay_bit_identical() {
    let drive = |fb: &mut FlowBox| {
        fb.add_fluid_velocity(3, 4, 90_000_000, -45_000_000);
        fb.add_fluid_density(3, 4, Rgb { r: FX_ONE, g: FX_HALF, b: 250_000 });
        fb.step(SCALE / 30);
        fb.add_fluid_velocity(6, 2, -30_000_000, 10_000_000);
        fb.scale_fluid_density(900_000);
        fb.step(SCALE / 30);
    };
    let mut a = FlowBox::init(16, 12);
    let mut b = FlowBox::init(16, 12);
    drive(&mut a);
    drive(&mut b);
    assert_eq!(a.vel_x(), b.vel_x());
    assert_eq!(a.vel_y(), b.vel_y());
    assert_eq!(a.density_r(), b.density_r());
    assert_eq!(a.density_g(), b.density_g());
    assert_eq!(a.density_b(), b.density_b());
}

#[test]
fn step_mixes_density_under_injected_velocity() {
    let mut fb = FlowBox::init(12, 12);
    fb.add_fluid_density(6, 6, Rgb { r: FX_ONE, g: 0, b: 0 });
    fb.add_fluid_velocity(6, 6, 50 * FX_ONE, 0);
    fb.step(SCALE / 30);
    // something still present, nothing exploded into the saturation rails
    let total = total_density(&fb);
    assert!(total > 0);
    for i in 0..144 {
        assert!(fb.density_at(i).r >= 0);
    }
}

#[test]
fn inlet_edge_forces_inflow_velocity() {
    let (w, h) = (8usize, 8usize);
    let speed = 3 * FX_ONE;
    let params = BoundaryParams {
        top: BoundaryType::INLET(speed, false),
        bottom: BoundaryType::SOLID,
        left: BoundaryType::SOLID,
        right: BoundaryType::SOLID,
    };
    let mut fb = FlowBox::init_with_params(w, h, FluidParams::default(), params);
    let dt = SCALE / 30;
    fb.apply_boundary_conditions(dt);
    let expected = fx_mul(speed, dt);
    assert!(expected > 0);
    for x in 1..w - 1 {
        assert_eq!(fb.vel_y()[idx(x, 1, w)], expected);
    }
}

#[test]
fn inlet_edge_can_seed_quantity() {
    let (w, h) = (8usize, 8usize);
    let params = BoundaryParams {
        top: BoundaryType::INLET(FX_ONE, true),
        bottom: BoundaryType::SOLID,
        left: BoundaryType::SOLID,
        right: BoundaryType::SOLID,
    };
    let mut fb = FlowBox::init_with_params(w, h, FluidParams::default(), params);
    fb.apply_boundary_conditions(SCALE / 30);
    assert_eq!(fb.density_at(idx(w / 2, 1, w)).r, FX_ONE);
}

#[test]
fn inlet_far_edge_reverses_inflow_sign() {
    let (w, h) = (8usize, 8usize);
    let speed = 3 * FX_ONE;
    let params = BoundaryParams {
        top: BoundaryType::SOLID,
        bottom: BoundaryType::INLET(speed, false),
        left: BoundaryType::SOLID,
        right: BoundaryType::SOLID,
    };
    let mut fb = FlowBox::init_with_params(w, h, FluidParams::default(), params);
    let dt = SCALE / 30;
    fb.apply_boundary_conditions(dt);
    // the inward normal of the bottom edge points up, so the forced
    // component is negated
    let expected = -fx_mul(speed, dt);
    for x in 1..w - 1 {
        assert_eq!(fb.vel_y()[idx(x, h - 2, w)], expected);
    }
}

#[test]
fn outlet_edge_copies_neighbour_velocity() {
    let (w, h) = (8usize, 8usize);
    let params = BoundaryParams {
        top: BoundaryType::SOLID,
        bottom: BoundaryType::SOLID,
        left: BoundaryType::OUTLET,
        right: BoundaryType::SOLID,
    };
    let mut fb = FlowBox::init_with_params(w, h, FluidParams::default(), params);
    // put some horizontal flow into the second interior column, then let
    // the outlet copy it onto the first
    fb.add_fluid_velocity(2, 3, 5 * FX_ONE, 0);
    // velocity injection lands in the scratch buffer; drive one tick so it
    // reaches the live field, then apply the boundary behaviour once more
    fb.step(SCALE / 30);
    let live_neighbour = fb.vel_x()[idx(2, 3, w)];
    fb.apply_boundary_conditions(SCALE / 30);
    assert_eq!(fb.vel_x()[idx(1, 3, w)], live_neighbour);
}

#[test]
fn minimal_grid_steps_without_losing_shape() {
    let mut fb = FlowBox::init(3, 3);
    fb.add_fluid_density(1, 1, Rgb { r: FX_ONE, g: FX_ONE, b: FX_ONE });
    fb.add_fluid_velocity(1, 1, FX_ONE, FX_ONE);
    fb.step(SCALE / 30);
    assert_eq!(fb.vel_x().len(), 9);
    assert_eq!(fb.vel_y().len(), 9);
    assert_eq!(fb.density_r().len(), 9);
}
