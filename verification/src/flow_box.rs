//! The fluid grid: owner of every field buffer, and the fixed step
//! pipeline that advances the simulation.
//!
//! A `FlowBox` holds a velocity field (two components, each with a scratch
//! buffer) and a three-channel transported quantity ("density", also double
//! buffered) over a `width x height` grid. Callers inject velocity and
//! density between ticks and then advance the whole state with [`FlowBox::step`].
//! The mathematical value of every buffer after each mutation is given by
//! the spec functions of this module and of the pass modules.

use vstd::prelude::*;

use crate::advect::{advect, advect_spec, lemma_advect_ok};
use crate::boundary::{lemma_set_bound_ok, lemma_set_bound_len, set_bound, set_bound_spec, Bound};
use crate::fixed::{fx_add, fx_add_s, fx_mul, fx_mul_s, fx_neg, fx_neg_s, fx_ok, fx_seq_ok,
    FX_ONE};
use crate::grid::{dim_ok, idx_spec, lemma_flat, lemma_flat_in_range, lemma_idx_in_grid,
    lemma_pos_decompose, lemma_zero_seq_ok, pos_x_spec, pos_y_spec, zero_field, zero_seq};
use crate::project::{lemma_project_ok, project, project_spec};
use crate::solver::{diffuse, diffuse_coeff, diffuse_norm, diffuse_spec, lemma_lin_solve_ok};

verus! {

/// The parameters of the fluid: diffusion strengths and relaxation
/// iteration counts. Immutable for the grid's lifetime.
#[derive(Clone, Copy, PartialEq, Eq, Structural)]
pub struct FluidParams {
    /// Diffusion rate of the velocity field (fixed-point, non-negative).
    pub viscosity: i64,
    /// Diffusion rate of the transported quantity (fixed-point, non-negative).
    pub diffusion_rate: i64,
    /// Relaxation sweeps per diffusion solve (positive).
    pub diffuse_iters: usize,
    /// Relaxation sweeps per projection solve (positive).
    pub project_iters: usize,
}

/// The default parameter set.
pub open spec fn default_fluid_params() -> FluidParams {
    FluidParams { viscosity: 50, diffusion_rate: 50, diffuse_iters: 3, project_iters: 5 }
}

impl FluidParams {
    /// Well-formed parameters: non-negative rates, positive iteration counts.
    pub open spec fn wf(self) -> bool {
        &&& self.viscosity >= 0
        &&& self.diffusion_rate >= 0
        &&& self.diffuse_iters >= 1
        &&& self.project_iters >= 1
    }
}

impl Default for FluidParams {
    /// A mild default: a viscosity and diffusion rate of `0.00005`, three
    /// diffusion sweeps and five projection sweeps.
    fn default() -> (r: Self)
        ensures
            r == default_fluid_params(),
            r.wf(),
    {
        FluidParams { viscosity: 50, diffusion_rate: 50, diffuse_iters: 3, project_iters: 5 }
    }
}

/// What one edge of the box does to the flow.
#[derive(Clone, Copy, PartialEq, Eq, Structural)]
#[allow(non_camel_case_types)]
pub enum BoundaryType {
    /// Forces a fixed inflow speed on the edge's first interior row or
    /// column; the flag asks for a splat of quantity next to the edge.
    INLET(i64, bool),
    /// Free outflow: the inward-normal component copies its interior
    /// neighbour (zero gradient).
    OUTLET,
    /// A solid wall: the generic reflective rule applies unchanged.
    SOLID,
}

/// The boundary behaviour of the four edges.
#[derive(Clone, Copy, PartialEq, Eq, Structural)]
pub struct BoundaryParams {
    pub top: BoundaryType,
    pub bottom: BoundaryType,
    pub left: BoundaryType,
    pub right: BoundaryType,
}

/// The default boundary: four solid walls.
pub open spec fn default_boundary_params() -> BoundaryParams {
    BoundaryParams {
        top: BoundaryType::SOLID,
        bottom: BoundaryType::SOLID,
        left: BoundaryType::SOLID,
        right: BoundaryType::SOLID,
    }
}

impl Default for BoundaryParams {
    /// Four solid walls.
    fn default() -> (r: Self)
        ensures
            r == default_boundary_params(),
    {
        BoundaryParams {
            top: BoundaryType::SOLID,
            bottom: BoundaryType::SOLID,
            left: BoundaryType::SOLID,
            right: BoundaryType::SOLID,
        }
    }
}

/// A three-channel quantity value (fixed-point red, green and blue).
#[derive(Clone, Copy, PartialEq, Eq, Structural, Debug)]
pub struct Rgb {
    pub r: i64,
    pub g: i64,
    pub b: i64,
}

/// The colour splashed next to an inlet edge that seeds quantity.
pub open spec fn inlet_rgb() -> Rgb {
    Rgb { r: FX_ONE, g: 0, b: 0 }
}

/// The mathematical state of a `FlowBox`: the grid dimensions, the value
/// sequence of every buffer, and the parameter sets.
#[verifier::ext_equal]
pub ghost struct FlowState {
    pub w: int,
    pub h: int,
    pub vel_x: Seq<i64>,
    pub vel_x0: Seq<i64>,
    pub vel_y: Seq<i64>,
    pub vel_y0: Seq<i64>,
    pub density_r: Seq<i64>,
    pub density_g: Seq<i64>,
    pub density_b: Seq<i64>,
    pub density_r0: Seq<i64>,
    pub density_g0: Seq<i64>,
    pub density_b0: Seq<i64>,
    pub fluid_params: FluidParams,
    pub boundary_params: BoundaryParams,
}

impl FlowState {
    /// The number of cells of the grid.
    pub open spec fn cells(self) -> int {
        self.w * self.h
    }

    /// Well-formed state: valid dimensions, every buffer of full length
    /// with representable values, and well-formed parameters.
    pub open spec fn wf(self) -> bool {
        &&& self.w >= 3
        &&& self.h >= 3
        &&& self.w * self.h <= usize::MAX
        &&& self.vel_x.len() == self.cells() && fx_seq_ok(self.vel_x)
        &&& self.vel_x0.len() == self.cells() && fx_seq_ok(self.vel_x0)
        &&& self.vel_y.len() == self.cells() && fx_seq_ok(self.vel_y)
        &&& self.vel_y0.len() == self.cells() && fx_seq_ok(self.vel_y0)
        &&& self.density_r.len() == self.cells() && fx_seq_ok(self.density_r)
        &&& self.density_g.len() == self.cells() && fx_seq_ok(self.density_g)
        &&& self.density_b.len() == self.cells() && fx_seq_ok(self.density_b)
        &&& self.density_r0.len() == self.cells() && fx_seq_ok(self.density_r0)
        &&& self.density_g0.len() == self.cells() && fx_seq_ok(self.density_g0)
        &&& self.density_b0.len() == self.cells() && fx_seq_ok(self.density_b0)
        &&& self.fluid_params.wf()
    }
}

/// The state of a freshly constructed grid: all buffers zero.
pub open spec fn init_state(w: int, h: int, fp: FluidParams, bp: BoundaryParams) -> FlowState {
    FlowState {
        w: w,
        h: h,
        vel_x: zero_seq((w * h) as nat),
        vel_x0: zero_seq((w * h) as nat),
        vel_y: zero_seq((w * h) as nat),
        vel_y0: zero_seq((w * h) as nat),
        density_r: zero_seq((w * h) as nat),
        density_g: zero_seq((w * h) as nat),
        density_b: zero_seq((w * h) as nat),
        density_r0: zero_seq((w * h) as nat),
        density_g0: zero_seq((w * h) as nat),
        density_b0: zero_seq((w * h) as nat),
        fluid_params: fp,
        boundary_params: bp,
    }
}

/// A box holding a grid of fluid velocities and a transported
/// three-channel quantity.
pub struct FlowBox {
    dim: (usize, usize),
    vel_x: Vec<i64>,
    vel_x0: Vec<i64>,
    vel_y: Vec<i64>,
    vel_y0: Vec<i64>,
    density_r: Vec<i64>,
    density_g: Vec<i64>,
    density_b: Vec<i64>,
    density_r0: Vec<i64>,
    density_g0: Vec<i64>,
    density_b0: Vec<i64>,
    fluid_params: FluidParams,
    boundary_params: BoundaryParams,
}

impl View for FlowBox {
    type V = FlowState;

    closed spec fn view(&self) -> FlowState {
        FlowState {
            w: self.dim.0 as int,
            h: self.dim.1 as int,
            vel_x: self.vel_x@,
            vel_x0: self.vel_x0@,
            vel_y: self.vel_y@,
            vel_y0: self.vel_y0@,
            density_r: self.density_r@,
            density_g: self.density_g@,
            density_b: self.density_b@,
            density_r0: self.density_r0@,
            density_g0: self.density_g0@,
            density_b0: self.density_b0@,
            fluid_params: self.fluid_params,
            boundary_params: self.boundary_params,
        }
    }
}

/// A value splatted into one (clamped) cell of a field: the cell
/// accumulates `amount`, every other cell is untouched.
pub open spec fn splat_spec(v: Seq<i64>, x: int, y: int, amount: i64, w: int, h: int) -> Seq<
    i64,
> {
    let cx = if x > w - 1 {
        w - 1
    } else if x < 0 {
        0
    } else {
        x
    };
    let cy = if y > h - 1 {
        h - 1
    } else if y < 0 {
        0
    } else {
        y
    };
    let i = idx_spec(cx, cy, w, h);
    v.update(i, fx_add_s(v[i], amount))
}

/// The state after a quantity splat: all three density channels accumulate
/// their component of `color` at the clamped cell `(x, y)`.
pub open spec fn add_density_state(s: FlowState, x: int, y: int, color: Rgb) -> FlowState {
    FlowState {
        density_r: splat_spec(s.density_r, x, y, color.r, s.w, s.h),
        density_g: splat_spec(s.density_g, x, y, color.g, s.w, s.h),
        density_b: splat_spec(s.density_b, x, y, color.b, s.w, s.h),
        ..s
    }
}

/// The state after a velocity splat: both scratch velocity components
/// accumulate at the clamped cell `(x, y)`.
pub open spec fn add_velocity_state(s: FlowState, x: int, y: int, vx: i64, vy: i64) -> FlowState {
    FlowState {
        vel_x0: splat_spec(s.vel_x0, x, y, vx, s.w, s.h),
        vel_y0: splat_spec(s.vel_y0, x, y, vy, s.w, s.h),
        ..s
    }
}

/// Every field cell scaled by `factor`.
pub open spec fn scale_spec(v: Seq<i64>, factor: i64) -> Seq<i64> {
    Seq::new(v.len(), |i: int| fx_mul_s(v[i], factor))
}

/// The state after scaling the quantity: all three density channels
/// multiplied cell-wise by `factor`.
pub open spec fn scale_density_state(s: FlowState, factor: i64) -> FlowState {
    FlowState {
        density_r: scale_spec(s.density_r, factor),
        density_g: scale_spec(s.density_g, factor),
        density_b: scale_spec(s.density_b, factor),
        ..s
    }
}

/// A row forced to one value: every non-corner cell of row `y` becomes
/// `val`, all other cells keep their value.
pub open spec fn force_row_spec(v: Seq<i64>, y: int, val: i64, w: int, h: int) -> Seq<i64> {
    Seq::new(v.len(), |i: int| if i / w == y && 1 <= i % w < w - 1 {
        val
    } else {
        v[i]
    })
}

/// A row copied from another row: every non-corner cell of row `ydst`
/// takes the value of the cell below or above it in row `ysrc`.
pub open spec fn copy_row_spec(v: Seq<i64>, ydst: int, ysrc: int, w: int, h: int) -> Seq<i64> {
    Seq::new(v.len(), |i: int| if i / w == ydst && 1 <= i % w < w - 1 {
        v[i % w + ysrc * w]
    } else {
        v[i]
    })
}

/// A column forced to one value: every non-corner cell of column `x`
/// becomes `val`.
pub open spec fn force_col_spec(v: Seq<i64>, x: int, val: i64, w: int, h: int) -> Seq<i64> {
    Seq::new(v.len(), |i: int| if i % w == x && 1 <= i / w < h - 1 {
        val
    } else {
        v[i]
    })
}

/// A column copied from another column.
pub open spec fn copy_col_spec(v: Seq<i64>, xdst: int, xsrc: int, w: int, h: int) -> Seq<i64> {
    Seq::new(v.len(), |i: int| if i % w == xdst && 1 <= i / w < h - 1 {
        v[xsrc + (i / w) * w]
    } else {
        v[i]
    })
}

/// A splat keeps the length and the representability of a field.
proof fn lemma_splat_ok(v: Seq<i64>, x: int, y: int, amount: i64, w: int, h: int)
    requires
        w >= 3,
        h >= 3,
        v.len() == w * h,
        fx_seq_ok(v),
    ensures
        splat_spec(v, x, y, amount, w, h).len() == v.len(),
        fx_seq_ok(splat_spec(v, x, y, amount, w, h)),
{
    let cx = if x > w - 1 {
        w - 1
    } else if x < 0 {
        0
    } else {
        x
    };
    let cy = if y > h - 1 {
        h - 1
    } else if y < 0 {
        0
    } else {
        y
    };
    lemma_idx_in_grid(cx, cy, w, h);
    lemma_flat_in_range(cx, cy, w, h);
    let i = idx_spec(cx, cy, w, h);
    let r = splat_spec(v, x, y, amount, w, h);
    assert forall|t: int| 0 <= t < r.len() implies fx_ok(#[trigger] r[t]) by {
        if t != i {
            assert(r[t] == v[t]);
        }
    }
}

/// Scaling keeps the length and the representability of a field.
proof fn lemma_scale_ok(v: Seq<i64>, factor: i64)
    requires
        fx_seq_ok(v),
    ensures
        scale_spec(v, factor).len() == v.len(),
        fx_seq_ok(scale_spec(v, factor)),
{
    let r = scale_spec(v, factor);
    assert forall|t: int| 0 <= t < r.len() implies fx_ok(#[trigger] r[t]) by {
        assert(r[t] == fx_mul_s(v[t], factor));
    }
}

/// Splat `amount` into the cell `(x, y)` of the buffer `v`, clamping the
/// coordinates into the grid.
#[verifier::loop_isolation(false)]
fn splat(v: &mut Vec<i64>, x: usize, y: usize, amount: i64, dim: (usize, usize))
    requires
        dim_ok(dim),
        old(v)@.len() == dim.0 * dim.1,
    ensures
        final(v)@ == splat_spec(old(v)@, x as int, y as int, amount, dim.0 as int, dim.1 as int),
        final(v)@.len() == old(v)@.len(),
{
    let w = dim.0;
    let h = dim.1;
    let cx = if x > w - 1 {
        w - 1
    } else {
        x
    };
    let cy = if y > h - 1 {
        h - 1
    } else {
        y
    };
    proof {
        lemma_idx_in_grid(cx as int, cy as int, dim.0 as int, dim.1 as int);
        lemma_flat_in_range(cx as int, cy as int, dim.0 as int, dim.1 as int);
    }
    let i = cx + cy * w;
    let nv = fx_add(v[i], amount);
    v.set(i, nv);
}

/// Scale every cell of the buffer `v` by `factor`.
#[verifier::loop_isolation(false)]
fn scale_field(v: &mut Vec<i64>, factor: i64)
    ensures
        final(v)@ == scale_spec(old(v)@, factor),
        final(v)@.len() == old(v)@.len(),
{
    let len = v.len();
    let mut j: usize = 0;
    while j < len
        invariant
            j <= len,
            v@.len() == len,
            forall|t: int| 0 <= t < j ==> v@[t] == fx_mul_s(old(v)@[t], factor),
            forall|t: int| j <= t < len ==> v@[t] == old(v)@[t],
        decreases len - j,
    {
        let nv = fx_mul(v[j], factor);
        v.set(j, nv);
        j += 1;
    }
    proof {
        assert(v@ =~= scale_spec(old(v)@, factor));
    }
}

/// The state after the top edge's boundary behaviour: an inlet forces the
/// first interior row of the vertical velocity to `speed * dt` (and may
/// seed quantity next to the edge), an outlet copies that row from its
/// interior neighbour, a solid wall changes nothing.
pub open spec fn apply_top_spec(s: FlowState, dt: i64) -> FlowState {
    match s.boundary_params.top {
        BoundaryType::INLET(speed, add_density) => {
            let s1 = FlowState {
                vel_y: force_row_spec(s.vel_y, 1, fx_mul_s(speed, dt), s.w, s.h),
                ..s
            };
            if add_density {
                add_density_state(s1, s.w / 2, 1, inlet_rgb())
            } else {
                s1
            }
        },
        BoundaryType::OUTLET => FlowState {
            vel_y: copy_row_spec(s.vel_y, 1, 2, s.w, s.h),
            ..s
        },
        BoundaryType::SOLID => s,
    }
}

/// The state after the bottom edge's boundary behaviour; the inward
/// normal points up, so an inlet forces `-speed * dt`.
pub open spec fn apply_bottom_spec(s: FlowState, dt: i64) -> FlowState {
    match s.boundary_params.bottom {
        BoundaryType::INLET(speed, add_density) => {
            let s1 = FlowState {
                vel_y: force_row_spec(s.vel_y, s.h - 2, fx_mul_s(fx_neg_s(speed), dt), s.w, s.h),
                ..s
            };
            if add_density {
                add_density_state(s1, s.w / 2, s.h - 2, inlet_rgb())
            } else {
                s1
            }
        },
        BoundaryType::OUTLET => FlowState {
            vel_y: copy_row_spec(s.vel_y, s.h - 2, s.h - 3, s.w, s.h),
            ..s
        },
        BoundaryType::SOLID => s,
    }
}

/// The state after the left edge's boundary behaviour, acting on the
/// horizontal velocity's first interior column.
pub open spec fn apply_left_spec(s: FlowState, dt: i64) -> FlowState {
    match s.boundary_params.left {
        BoundaryType::INLET(speed, add_density) => {
            let s1 = FlowState {
                vel_x: force_col_spec(s.vel_x, 1, fx_mul_s(speed, dt), s.w, s.h),
                ..s
            };
            if add_density {
                add_density_state(s1, 1, s.h / 2, inlet_rgb())
            } else {
                s1
            }
        },
        BoundaryType::OUTLET => FlowState {
            vel_x: copy_col_spec(s.vel_x, 1, 2, s.w, s.h),
            ..s
        },
        BoundaryType::SOLID => s,
    }
}

/// The state after the right edge's boundary behaviour; the inward normal
/// points left, so an inlet forces `-speed * dt`.
pub open spec fn apply_right_spec(s: FlowState, dt: i64) -> FlowState {
    match s.boundary_params.right {
        BoundaryType::INLET(speed, add_density) => {
            let s1 = FlowState {
                vel_x: force_col_spec(s.vel_x, s.w - 2, fx_mul_s(fx_neg_s(speed), dt), s.w, s.h),
                ..s
            };
            if add_density {
                add_density_state(s1, s.w - 2, s.h / 2, inlet_rgb())
            } else {
                s1
            }
        },
        BoundaryType::OUTLET => FlowState {
            vel_x: copy_col_spec(s.vel_x, s.w - 2, s.w - 3, s.w, s.h),
            ..s
        },
        BoundaryType::SOLID => s,
    }
}

/// The whole boundary-condition pass of a tick: the four per-edge
/// behaviours, then the generic reflective rule on both velocity
/// components.
pub open spec fn apply_bc_spec(s: FlowState, dt: i64) -> FlowState {
    let s4 = apply_right_spec(apply_left_spec(apply_bottom_spec(apply_top_spec(s, dt), dt), dt), dt);
    FlowState {
        vel_x: set_bound_spec(Bound::X, s4.vel_x, s.w, s.h),
        vel_y: set_bound_spec(Bound::Y, s4.vel_y, s.w, s.h),
        ..s4
    }
}

/// One whole simulation tick over the state `s`, in the fixed order:
/// boundary conditions, diffusion of both velocity components, projection,
/// self-advection of the velocity, a second projection, then diffusion and
/// advection of each quantity channel. The first stage diffuses and
/// projects into the scratch velocity buffers; advection carries them back
/// into the live buffers, whose old contents served the first projection as
/// its pressure and divergence scratch space.
pub open spec fn step_spec(s: FlowState, dt: i64) -> FlowState {
    let w = s.w;
    let h = s.h;
    let fp = s.fluid_params;
    let s1 = apply_bc_spec(s, dt);
    let vx0_1 = diffuse_spec(
        Bound::X,
        s1.vel_x0,
        s1.vel_x,
        fp.viscosity,
        dt,
        fp.diffuse_iters as nat,
        w,
        h,
    );
    let vy0_1 = diffuse_spec(
        Bound::Y,
        s1.vel_y0,
        s1.vel_y,
        fp.viscosity,
        dt,
        fp.diffuse_iters as nat,
        w,
        h,
    );
    let pr1 = project_spec(vx0_1, vy0_1, s1.vel_x, s1.vel_y, fp.project_iters as nat, w, h);
    let vx_2 = advect_spec(Bound::X, pr1.0, pr1.0, pr1.1, dt, w, h);
    let vy_2 = advect_spec(Bound::Y, pr1.1, pr1.0, pr1.1, dt, w, h);
    let pr2 = project_spec(vx_2, vy_2, pr1.0, pr1.1, fp.project_iters as nat, w, h);
    let dr0 = diffuse_spec(
        Bound::Neither,
        s1.density_r0,
        s1.density_r,
        fp.diffusion_rate,
        dt,
        fp.diffuse_iters as nat,
        w,
        h,
    );
    let dg0 = diffuse_spec(
        Bound::Neither,
        s1.density_g0,
        s1.density_g,
        fp.diffusion_rate,
        dt,
        fp.diffuse_iters as nat,
        w,
        h,
    );
    let db0 = diffuse_spec(
        Bound::Neither,
        s1.density_b0,
        s1.density_b,
        fp.diffusion_rate,
        dt,
        fp.diffuse_iters as nat,
        w,
        h,
    );
    FlowState {
        vel_x: pr2.0,
        vel_y: pr2.1,
        vel_x0: pr2.2,
        vel_y0: pr2.3,
        density_r: advect_spec(Bound::Neither, dr0, pr2.0, pr2.1, dt, w, h),
        density_g: advect_spec(Bound::Neither, dg0, pr2.0, pr2.1, dt, w, h),
        density_b: advect_spec(Bound::Neither, db0, pr2.0, pr2.1, dt, w, h),
        density_r0: dr0,
        density_g0: dg0,
        density_b0: db0,
        ..s1
    }
}

/// Determinism of the pipeline: the next state is a function of the
/// current state and the time step alone, so two identically constructed
/// grids driven with the same calls hold identical field values.
pub proof fn lemma_step_deterministic(s1: FlowState, s2: FlowState, dt: i64)
    requires
        s1 == s2,
    ensures
        step_spec(s1, dt) == step_spec(s2, dt),
{
}

/// Force every non-corner cell of row `y` to `val`.
#[verifier::loop_isolation(false)]
fn force_row(v: &mut Vec<i64>, y: usize, val: i64, dim: (usize, usize))
    requires
        dim_ok(dim),
        old(v)@.len() == dim.0 * dim.1,
        y < dim.1,
    ensures
        final(v)@ == force_row_spec(old(v)@, y as int, val, dim.0 as int, dim.1 as int),
        final(v)@.len() == old(v)@.len(),
        fx_seq_ok(old(v)@) && fx_ok(val) ==> fx_seq_ok(final(v)@),
{
    let w = dim.0;
    let ghost gw = dim.0 as int;
    let ghost gh = dim.1 as int;
    let len = v.len();
    let mut j: usize = 0;
    while j < len
        invariant
            j <= len,
            v@.len() == len,
            forall|t: int|
                0 <= t < j ==> v@[t] == (if t / gw == y && 1 <= t % gw < gw - 1 {
                    val
                } else {
                    old(v)@[t]
                }),
            forall|t: int| j <= t < len ==> v@[t] == old(v)@[t],
        decreases len - j,
    {
        proof {
            lemma_pos_decompose(j as int, gw, gh);
        }
        let x = j % w;
        let yy = j / w;
        if yy == y && 1 <= x && x < w - 1 {
            v.set(j, val);
        }
        j += 1;
    }
    proof {
        assert(v@ =~= force_row_spec(old(v)@, y as int, val, gw, gh));
        if fx_seq_ok(old(v)@) && fx_ok(val) {
            assert forall|t: int| 0 <= t < v@.len() implies fx_ok(#[trigger] v@[t]) by {}
        }
    }
}

/// Copy every non-corner cell of row `ydst` from the same column of row
/// `ysrc`.
#[verifier::loop_isolation(false)]
fn copy_row(v: &mut Vec<i64>, ydst: usize, ysrc: usize, dim: (usize, usize))
    requires
        dim_ok(dim),
        old(v)@.len() == dim.0 * dim.1,
        ydst < dim.1,
        ysrc < dim.1,
        ysrc != ydst,
    ensures
        final(v)@ == copy_row_spec(old(v)@, ydst as int, ysrc as int, dim.0 as int, dim.1 as int),
        final(v)@.len() == old(v)@.len(),
        fx_seq_ok(old(v)@) ==> fx_seq_ok(final(v)@),
{
    let w = dim.0;
    let ghost gw = dim.0 as int;
    let ghost gh = dim.1 as int;
    let len = v.len();
    let mut j: usize = 0;
    while j < len
        invariant
            j <= len,
            v@.len() == len,
            forall|t: int|
                0 <= t < j ==> v@[t] == (if t / gw == ydst && 1 <= t % gw < gw - 1 {
                    old(v)@[t % gw + (ysrc as int) * gw]
                } else {
                    old(v)@[t]
                }),
            forall|t: int| j <= t < len ==> v@[t] == old(v)@[t],
        decreases len - j,
    {
        proof {
            lemma_pos_decompose(j as int, gw, gh);
        }
        let x = j % w;
        let yy = j / w;
        if yy == ydst && 1 <= x && x < w - 1 {
            proof {
                lemma_flat(x as int, ysrc as int, gw);
                lemma_flat_in_range(x as int, ysrc as int, gw, gh);
            }
            let src = v[x + ysrc * w];
            v.set(j, src);
        }
        j += 1;
    }
    proof {
        assert(v@ =~= copy_row_spec(old(v)@, ydst as int, ysrc as int, gw, gh));
        if fx_seq_ok(old(v)@) {
            assert forall|t: int| 0 <= t < v@.len() implies fx_ok(#[trigger] v@[t]) by {
                lemma_pos_decompose(t, gw, gh);
                if t / gw == ydst && 1 <= t % gw < gw - 1 {
                    lemma_flat_in_range(t % gw, ysrc as int, gw, gh);
                }
            }
        }
    }
}

/// Force every non-corner cell of column `x` to `val`.
#[verifier::loop_isolation(false)]
fn force_col(v: &mut Vec<i64>, x: usize, val: i64, dim: (usize, usize))
    requires
        dim_ok(dim),
        old(v)@.len() == dim.0 * dim.1,
        x < dim.0,
    ensures
        final(v)@ == force_col_spec(old(v)@, x as int, val, dim.0 as int, dim.1 as int),
        final(v)@.len() == old(v)@.len(),
        fx_seq_ok(old(v)@) && fx_ok(val) ==> fx_seq_ok(final(v)@),
{
    let w = dim.0;
    let ghost gw = dim.0 as int;
    let ghost gh = dim.1 as int;
    let len = v.len();
    let mut j: usize = 0;
    while j < len
        invariant
            j <= len,
            v@.len() == len,
            forall|t: int|
                0 <= t < j ==> v@[t] == (if t % gw == x && 1 <= t / gw < gh - 1 {
                    val
                } else {
                    old(v)@[t]
                }),
            forall|t: int| j <= t < len ==> v@[t] == old(v)@[t],
        decreases len - j,
    {
        proof {
            lemma_pos_decompose(j as int, gw, gh);
        }
        let xx = j % w;
        let yy = j / w;
        if xx == x && 1 <= yy && yy < dim.1 - 1 {
            v.set(j, val);
        }
        j += 1;
    }
    proof {
        assert(v@ =~= force_col_spec(old(v)@, x as int, val, gw, gh));
        if fx_seq_ok(old(v)@) && fx_ok(val) {
            assert forall|t: int| 0 <= t < v@.len() implies fx_ok(#[trigger] v@[t]) by {}
        }
    }
}

/// Copy every non-corner cell of column `xdst` from the same row of
/// column `xsrc`.
#[verifier::loop_isolation(false)]
fn copy_col(v: &mut Vec<i64>, xdst: usize, xsrc: usize, dim: (usize, usize))
    requires
        dim_ok(dim),
        old(v)@.len() == dim.0 * dim.1,
        xdst < dim.0,
        xsrc < dim.0,
        xsrc != xdst,
    ensures
        final(v)@ == copy_col_spec(old(v)@, xdst as int, xsrc as int, dim.0 as int, dim.1 as int),
        final(v)@.len() == old(v)@.len(),
        fx_seq_ok(old(v)@) ==> fx_seq_ok(final(v)@),
{
    let w = dim.0;
    let ghost gw = dim.0 as int;
    let ghost gh = dim.1 as int;
    let len = v.len();
    let mut j: usize = 0;
    while j < len
        invariant
            j <= len,
            v@.len() == len,
            forall|t: int|
                0 <= t < j ==> v@[t] == (if t % gw == xdst && 1 <= t / gw < gh - 1 {
                    old(v)@[xsrc as int + (t / gw) * gw]
                } else {
                    old(v)@[t]
                }),
            forall|t: int| j <= t < len ==> v@[t] == old(v)@[t],
        decreases len - j,
    {
        proof {
            lemma_pos_decompose(j as int, gw, gh);
        }
        let xx = j % w;
        let yy = j / w;
        if xx == xdst && 1 <= yy && yy < dim.1 - 1 {
            proof {
                lemma_flat(xsrc as int, yy as int, gw);
                lemma_flat_in_range(xsrc as int, yy as int, gw, gh);
            }
            let src = v[xsrc + yy * w];
            v.set(j, src);
        }
        j += 1;
    }
    proof {
        assert(v@ =~= copy_col_spec(old(v)@, xdst as int, xsrc as int, gw, gh));
        if fx_seq_ok(old(v)@) {
            assert forall|t: int| 0 <= t < v@.len() implies fx_ok(#[trigger] v@[t]) by {
                lemma_pos_decompose(t, gw, gh);
                if t % gw == xdst && 1 <= t / gw < gh - 1 {
                    lemma_flat_in_range(xsrc as int, t / gw, gw, gh);
                }
            }
        }
    }
}

impl FlowBox {
    /// Well-formed box: see [`FlowState::wf`].
    pub open spec fn wf(self) -> bool {
        self@.wf()
    }

    /// A `width x height` grid with the default parameters: all fields
    /// zero, solid walls.
    pub fn init(width: usize, height: usize) -> (r: FlowBox)
        requires
            width >= 3,
            height >= 3,
            width * height <= usize::MAX,
        ensures
            r@ == init_state(
                width as int,
                height as int,
                default_fluid_params(),
                default_boundary_params(),
            ),
            r.wf(),
    {
        FlowBox::init_with_params(
            width,
            height,
            FluidParams::default(),
            BoundaryParams::default(),
        )
    }

    /// A `width x height` grid with the given parameters: all fields zero.
    pub fn init_with_params(
        width: usize,
        height: usize,
        fluid_params: FluidParams,
        boundary_params: BoundaryParams,
    ) -> (r: FlowBox)
        requires
            width >= 3,
            height >= 3,
            width * height <= usize::MAX,
            fluid_params.wf(),
        ensures
            r@ == init_state(width as int, height as int, fluid_params, boundary_params),
            r.wf(),
    {
        let cells = width * height;
        proof {
            lemma_zero_seq_ok((cells as int) as nat);
        }
        FlowBox {
            dim: (width, height),
            vel_x: zero_field(cells),
            vel_x0: zero_field(cells),
            vel_y: zero_field(cells),
            vel_y0: zero_field(cells),
            density_r: zero_field(cells),
            density_g: zero_field(cells),
            density_b: zero_field(cells),
            density_r0: zero_field(cells),
            density_g0: zero_field(cells),
            density_b0: zero_field(cells),
            fluid_params,
            boundary_params,
        }
    }

    /// Accumulate a three-channel quantity value at the (clamped) cell
    /// `(x, y)`.
    pub fn add_fluid_density(&mut self, x: usize, y: usize, color: Rgb)
        requires
            old(self).wf(),
        ensures
            final(self)@ == add_density_state(old(self)@, x as int, y as int, color),
            final(self).wf(),
    {
        proof {
            lemma_splat_ok(self@.density_r, x as int, y as int, color.r, self@.w, self@.h);
            lemma_splat_ok(self@.density_g, x as int, y as int, color.g, self@.w, self@.h);
            lemma_splat_ok(self@.density_b, x as int, y as int, color.b, self@.w, self@.h);
        }
        let dim = self.dim;
        splat(&mut self.density_r, x, y, color.r, dim);
        splat(&mut self.density_g, x, y, color.g, dim);
        splat(&mut self.density_b, x, y, color.b, dim);
    }

    /// Accumulate a velocity contribution at the (clamped) cell `(x, y)`,
    /// into the velocity scratch buffers.
    pub fn add_fluid_velocity(&mut self, x: usize, y: usize, vx: i64, vy: i64)
        requires
            old(self).wf(),
        ensures
            final(self)@ == add_velocity_state(old(self)@, x as int, y as int, vx, vy),
            final(self).wf(),
    {
        proof {
            lemma_splat_ok(self@.vel_x0, x as int, y as int, vx, self@.w, self@.h);
            lemma_splat_ok(self@.vel_y0, x as int, y as int, vy, self@.w, self@.h);
        }
        let dim = self.dim;
        splat(&mut self.vel_x0, x, y, vx, dim);
        splat(&mut self.vel_y0, x, y, vy, dim);
    }

    /// Multiply every cell of the transported quantity by `factor`
    /// (a decay for `factor` below one, an amplification above).
    pub fn scale_fluid_density(&mut self, factor: i64)
        requires
            old(self).wf(),
        ensures
            final(self)@ == scale_density_state(old(self)@, factor),
            final(self).wf(),
    {
        proof {
            lemma_scale_ok(self@.density_r, factor);
            lemma_scale_ok(self@.density_g, factor);
            lemma_scale_ok(self@.density_b, factor);
        }
        scale_field(&mut self.density_r, factor);
        scale_field(&mut self.density_g, factor);
        scale_field(&mut self.density_b, factor);
    }

    /// The linear offset of the cell `(x, y)`, clamped into the valid
    /// range so that slightly out-of-range queries reuse an edge cell.
    pub fn index(x: usize, y: usize, dim: (usize, usize)) -> (r: usize)
        requires
            dim_ok(dim),
        ensures
            r == idx_spec(x as int, y as int, dim.0 as int, dim.1 as int),
            r < dim.0 * dim.1,
    {
        let cells: u128 = (dim.0 as u128) * (dim.1 as u128);
        proof {
            assert(1 <= (dim.0 as int) * (dim.1 as int)) by (nonlinear_arith)
                requires
                    dim.0 >= 3,
                    dim.1 >= 3,
            ;
            assert((x as int) + (y as int) * (dim.0 as int) <= u128::MAX) by (nonlinear_arith)
                requires
                    0 <= x <= u64::MAX,
                    0 <= y <= u64::MAX,
                    0 <= dim.0 <= u64::MAX,
            ;
        }
        let t: u128 = (x as u128) + (y as u128) * (dim.0 as u128);
        if t > cells - 1 {
            (cells - 1) as usize
        } else {
            t as usize
        }
    }

    /// The cell coordinates `(x, y)` of the linear offset `i`.
    pub fn pos(i: usize, dim: (usize, usize)) -> (r: (usize, usize))
        requires
            dim.0 >= 1,
        ensures
            r.0 == pos_x_spec(i as int, dim.0 as int),
            r.1 == pos_y_spec(i as int, dim.0 as int),
    {
        (i % dim.0, i / dim.0)
    }

    /// The grid dimensions `(width, height)`.
    pub fn dim(&self) -> (r: (usize, usize))
        ensures
            r.0 == self@.w,
            r.1 == self@.h,
    {
        self.dim
    }

    /// Read-only view of the horizontal velocity buffer.
    pub fn vel_x(&self) -> (r: &Vec<i64>)
        ensures
            r@ == self@.vel_x,
    {
        &self.vel_x
    }

    /// Read-only view of the vertical velocity buffer.
    pub fn vel_y(&self) -> (r: &Vec<i64>)
        ensures
            r@ == self@.vel_y,
    {
        &self.vel_y
    }

    /// Read-only view of the red quantity channel.
    pub fn density_r(&self) -> (r: &Vec<i64>)
        ensures
            r@ == self@.density_r,
    {
        &self.density_r
    }

    /// Read-only view of the green quantity channel.
    pub fn density_g(&self) -> (r: &Vec<i64>)
        ensures
            r@ == self@.density_g,
    {
        &self.density_g
    }

    /// Read-only view of the blue quantity channel.
    pub fn density_b(&self) -> (r: &Vec<i64>)
        ensures
            r@ == self@.density_b,
    {
        &self.density_b
    }

    /// The quantity value of the cell at linear offset `i`.
    pub fn density_at(&self, i: usize) -> (r: Rgb)
        requires
            self.wf(),
            i < self@.cells(),
        ensures
            r.r == self@.density_r[i as int],
            r.g == self@.density_g[i as int],
            r.b == self@.density_b[i as int],
    {
        Rgb { r: self.density_r[i], g: self.density_g[i], b: self.density_b[i] }
    }

    /// The fluid parameters.
    pub fn fluid_params(&self) -> (r: FluidParams)
        ensures
            r == self@.fluid_params,
    {
        self.fluid_params
    }

    /// The boundary parameters.
    pub fn boundary_params(&self) -> (r: BoundaryParams)
        ensures
            r == self@.boundary_params,
    {
        self.boundary_params
    }

    fn apply_top(&mut self, dt: i64)
        requires
            old(self).wf(),
        ensures
            final(self)@ == apply_top_spec(old(self)@, dt),
            final(self).wf(),
    {
        let dim = self.dim;
        match self.boundary_params.top {
            BoundaryType::INLET(speed, add_density) => {
                let val = fx_mul(speed, dt);
                force_row(&mut self.vel_y, 1, val, dim);
                if add_density {
                    self.add_fluid_density(dim.0 / 2, 1, Rgb { r: FX_ONE, g: 0, b: 0 });
                }
            },
            BoundaryType::OUTLET => {
                copy_row(&mut self.vel_y, 1, 2, dim);
            },
            BoundaryType::SOLID => {},
        }
    }

    fn apply_bottom(&mut self, dt: i64)
        requires
            old(self).wf(),
        ensures
            final(self)@ == apply_bottom_spec(old(self)@, dt),
            final(self).wf(),
    {
        let dim = self.dim;
        match self.boundary_params.bottom {
            BoundaryType::INLET(speed, add_density) => {
                let val = fx_mul(fx_neg(speed), dt);
                force_row(&mut self.vel_y, dim.1 - 2, val, dim);
                if add_density {
                    self.add_fluid_density(dim.0 / 2, dim.1 - 2, Rgb { r: FX_ONE, g: 0, b: 0 });
                }
            },
            BoundaryType::OUTLET => {
                copy_row(&mut self.vel_y, dim.1 - 2, dim.1 - 3, dim);
            },
            BoundaryType::SOLID => {},
        }
    }

    fn apply_left(&mut self, dt: i64)
        requires
            old(self).wf(),
        ensures
            final(self)@ == apply_left_spec(old(self)@, dt),
            final(self).wf(),
    {
        let dim = self.dim;
        match self.boundary_params.left {
            BoundaryType::INLET(speed, add_density) => {
                let val = fx_mul(speed, dt);
                force_col(&mut self.vel_x, 1, val, dim);
                if add_density {
                    self.add_fluid_density(1, dim.1 / 2, Rgb { r: FX_ONE, g: 0, b: 0 });
                }
            },
            BoundaryType::OUTLET => {
                copy_col(&mut self.vel_x, 1, 2, dim);
            },
            BoundaryType::SOLID => {},
        }
    }

    fn apply_right(&mut self, dt: i64)
        requires
            old(self).wf(),
        ensures
            final(self)@ == apply_right_spec(old(self)@, dt),
            final(self).wf(),
    {
        let dim = self.dim;
        match self.boundary_params.right {
            BoundaryType::INLET(speed, add_density) => {
                let val = fx_mul(fx_neg(speed), dt);
                force_col(&mut self.vel_x, dim.0 - 2, val, dim);
                if add_density {
                    self.add_fluid_density(dim.0 - 2, dim.1 / 2, Rgb { r: FX_ONE, g: 0, b: 0 });
                }
            },
            BoundaryType::OUTLET => {
                copy_col(&mut self.vel_x, dim.0 - 2, dim.0 - 3, dim);
            },
            BoundaryType::SOLID => {},
        }
    }

    /// Apply the per-edge boundary behaviours, then the generic reflective
    /// rule to both velocity components.
    pub fn apply_boundary_conditions(&mut self, dt: i64)
        requires
            old(self).wf(),
        ensures
            final(self)@ == apply_bc_spec(old(self)@, dt),
            final(self).wf(),
    {
        self.apply_top(dt);
        self.apply_bottom(dt);
        self.apply_left(dt);
        self.apply_right(dt);
        let dim = self.dim;
        proof {
            lemma_set_bound_ok(Bound::X, self@.vel_x, self@.w, self@.h);
            lemma_set_bound_len(Bound::X, self@.vel_x, self@.w, self@.h);
            lemma_set_bound_ok(Bound::Y, self@.vel_y, self@.w, self@.h);
            lemma_set_bound_len(Bound::Y, self@.vel_y, self@.w, self@.h);
        }
        set_bound(Bound::X, &mut self.vel_x, dim);
        set_bound(Bound::Y, &mut self.vel_y, dim);
    }

    /// Advance the simulation by one tick of length `dt`: apply the
    /// boundary conditions, diffuse and project the velocity, self-advect
    /// it, project again, then diffuse and advect each quantity channel.
    #[verifier::rlimit(60)]
    pub fn step(&mut self, dt: i64)
        requires
            old(self).wf(),
            dt > 0,
        ensures
            final(self)@ == step_spec(old(self)@, dt),
            final(self).wf(),
    {
        let ghost w = self@.w;
        let ghost h = self@.h;
        self.apply_boundary_conditions(dt);
        let ghost s1 = self@;
        let dim = self.dim;
        let viscosity = self.fluid_params.viscosity;
        let diffusion_rate = self.fluid_params.diffusion_rate;
        let diffuse_iters = self.fluid_params.diffuse_iters;
        let project_iters = self.fluid_params.project_iters;
        diffuse(Bound::X, &mut self.vel_x0, &self.vel_x, viscosity, dt, diffuse_iters, dim);
        diffuse(Bound::Y, &mut self.vel_y0, &self.vel_y, viscosity, dt, diffuse_iters, dim);
        proof {
            lemma_lin_solve_ok(
                Bound::X,
                s1.vel_x0,
                s1.vel_x,
                diffuse_coeff(viscosity, dt),
                diffuse_norm(diffuse_coeff(viscosity, dt)),
                diffuse_iters as nat,
                w,
                h,
            );
            lemma_lin_solve_ok(
                Bound::Y,
                s1.vel_y0,
                s1.vel_y,
                diffuse_coeff(viscosity, dt),
                diffuse_norm(diffuse_coeff(viscosity, dt)),
                diffuse_iters as nat,
                w,
                h,
            );
        }
        project(
            &mut self.vel_x0,
            &mut self.vel_y0,
            &mut self.vel_x,
            &mut self.vel_y,
            project_iters,
            dim,
        );
        let ghost pr1 = project_spec(
            diffuse_spec(Bound::X, s1.vel_x0, s1.vel_x, viscosity, dt, diffuse_iters as nat, w, h),
            diffuse_spec(Bound::Y, s1.vel_y0, s1.vel_y, viscosity, dt, diffuse_iters as nat, w, h),
            s1.vel_x,
            s1.vel_y,
            project_iters as nat,
            w,
            h,
        );
        proof {
            lemma_project_ok(
                diffuse_spec(
                    Bound::X,
                    s1.vel_x0,
                    s1.vel_x,
                    viscosity,
                    dt,
                    diffuse_iters as nat,
                    w,
                    h,
                ),
                diffuse_spec(
                    Bound::Y,
                    s1.vel_y0,
                    s1.vel_y,
                    viscosity,
                    dt,
                    diffuse_iters as nat,
                    w,
                    h,
                ),
                s1.vel_x,
                s1.vel_y,
                project_iters as nat,
                w,
                h,
            );
        }
        advect(Bound::X, &mut self.vel_x, &self.vel_x0, &self.vel_x0, &self.vel_y0, dt, dim);
        advect(Bound::Y, &mut self.vel_y, &self.vel_y0, &self.vel_x0, &self.vel_y0, dt, dim);
        proof {
            lemma_advect_ok(Bound::X, pr1.0, pr1.0, pr1.1, dt, w, h);
            lemma_advect_ok(Bound::Y, pr1.1, pr1.0, pr1.1, dt, w, h);
        }
        project(
            &mut self.vel_x,
            &mut self.vel_y,
            &mut self.vel_x0,
            &mut self.vel_y0,
            project_iters,
            dim,
        );
        let ghost vx_2 = advect_spec(Bound::X, pr1.0, pr1.0, pr1.1, dt, w, h);
        let ghost vy_2 = advect_spec(Bound::Y, pr1.1, pr1.0, pr1.1, dt, w, h);
        let ghost pr2 = project_spec(vx_2, vy_2, pr1.0, pr1.1, project_iters as nat, w, h);
        proof {
            lemma_project_ok(vx_2, vy_2, pr1.0, pr1.1, project_iters as nat, w, h);
        }
        diffuse(
            Bound::Neither,
            &mut self.density_r0,
            &self.density_r,
            diffusion_rate,
            dt,
            diffuse_iters,
            dim,
        );
        diffuse(
            Bound::Neither,
            &mut self.density_g0,
            &self.density_g,
            diffusion_rate,
            dt,
            diffuse_iters,
            dim,
        );
        diffuse(
            Bound::Neither,
            &mut self.density_b0,
            &self.density_b,
            diffusion_rate,
            dt,
            diffuse_iters,
            dim,
        );
        proof {
            lemma_lin_solve_ok(
                Bound::Neither,
                s1.density_r0,
                s1.density_r,
                diffuse_coeff(diffusion_rate, dt),
                diffuse_norm(diffuse_coeff(diffusion_rate, dt)),
                diffuse_iters as nat,
                w,
                h,
            );
            lemma_lin_solve_ok(
                Bound::Neither,
                s1.density_g0,
                s1.density_g,
                diffuse_coeff(diffusion_rate, dt),
                diffuse_norm(diffuse_coeff(diffusion_rate, dt)),
                diffuse_iters as nat,
                w,
                h,
            );
            lemma_lin_solve_ok(
                Bound::Neither,
                s1.density_b0,
                s1.density_b,
                diffuse_coeff(diffusion_rate, dt),
                diffuse_norm(diffuse_coeff(diffusion_rate, dt)),
                diffuse_iters as nat,
                w,
                h,
            );
        }
        advect(
            Bound::Neither,
            &mut self.density_r,
            &self.density_r0,
            &self.vel_x,
            &self.vel_y,
            dt,
            dim,
        );
        advect(
            Bound::Neither,
            &mut self.density_g,
            &self.density_g0,
            &self.vel_x,
            &self.vel_y,
            dt,
            dim,
        );
        advect(
            Bound::Neither,
            &mut self.density_b,
            &self.density_b0,
            &self.vel_x,
            &self.vel_y,
            dt,
            dim,
        );
        proof {
            lemma_advect_ok(Bound::Neither, self@.density_r0, pr2.0, pr2.1, dt, w, h);
            lemma_advect_ok(Bound::Neither, self@.density_g0, pr2.0, pr2.1, dt, w, h);
            lemma_advect_ok(Bound::Neither, self@.density_b0, pr2.0, pr2.1, dt, w, h);
            assert(self@ =~= step_spec(old(self)@, dt));
        }
    }
}

} // verus!
