//! Cell addressing on a `width x height` grid stored as one dense row-major
//! array: the cell `(x, y)` lives at linear offset `x + y * width`.

use vstd::prelude::*;

verus! {

/// The linear offset of cell `(x, y)`, clamped into `[0, w * h - 1]` so that
/// slightly out-of-range interpolation queries fall back to an edge cell
/// instead of leaving the array.
pub open spec fn idx_spec(x: int, y: int, w: int, h: int) -> int {
    let i = x + y * w;
    if i > w * h - 1 {
        w * h - 1
    } else if i < 0 {
        0
    } else {
        i
    }
}

/// The `x` coordinate of the cell at linear offset `i`.
pub open spec fn pos_x_spec(i: int, w: int) -> int {
    i % w
}

/// The `y` coordinate of the cell at linear offset `i`.
pub open spec fn pos_y_spec(i: int, w: int) -> int {
    i / w
}

/// Whether `(x, y)` is an interior cell: not on any of the four edges.
pub open spec fn interior(x: int, y: int, w: int, h: int) -> bool {
    1 <= x < w - 1 && 1 <= y < h - 1
}

/// Well-formed grid dimensions: an interior ring of at least one cell exists,
/// and the cell count fits the address space.
pub open spec fn dim_ok(dim: (usize, usize)) -> bool {
    &&& dim.0 >= 3
    &&& dim.1 >= 3
    &&& dim.0 * dim.1 <= usize::MAX
}

/// An in-range linear offset decomposes into in-range cell coordinates.
pub proof fn lemma_pos_decompose(j: int, w: int, h: int)
    requires
        w >= 1,
        h >= 1,
        0 <= j < w * h,
    ensures
        0 <= j % w < w,
        0 <= j / w < h,
        j == (j % w) + (j / w) * w,
{
    vstd::arithmetic::div_mod::lemma_fundamental_div_mod(j, w);
    vstd::arithmetic::div_mod::lemma_mod_division_less_than_divisor(j, w);
    vstd::arithmetic::div_mod::lemma_div_pos_is_pos(j, w);
    vstd::arithmetic::div_mod::lemma_multiply_divide_lt(j, w, h);
    assert(j == w * (j / w) + j % w);
    assert(w * (j / w) == (j / w) * w) by (nonlinear_arith);
}

/// A linear offset decomposes into its cell coordinates and back.
pub proof fn lemma_flat(x: int, y: int, w: int)
    requires
        0 <= x < w,
        0 <= y,
    ensures
        (x + y * w) % w == x,
        (x + y * w) / w == y,
{
    vstd::arithmetic::div_mod::lemma_fundamental_div_mod_converse(x + y * w, w, y, x);
}

/// The offset of an in-range cell lies strictly inside the array.
pub proof fn lemma_flat_in_range(x: int, y: int, w: int, h: int)
    requires
        0 <= x < w,
        0 <= y < h,
    ensures
        0 <= x + y * w < w * h,
{
    assert(0 <= x + y * w < w * h) by (nonlinear_arith)
        requires
            0 <= x < w,
            0 <= y < h,
    ;
}

/// The index round trip: for every valid cell `(x, y)` the linear offset
/// maps back to the same coordinates, and the defensive clamp in
/// `idx_spec` never fires.
pub proof fn lemma_idx_in_grid(x: int, y: int, w: int, h: int)
    requires
        0 <= x < w,
        0 <= y < h,
    ensures
        idx_spec(x, y, w, h) == x + y * w,
        pos_x_spec(idx_spec(x, y, w, h), w) == x,
        pos_y_spec(idx_spec(x, y, w, h), w) == y,
{
    lemma_flat_in_range(x, y, w, h);
    lemma_flat(x, y, w);
}

/// An all-zero buffer of `n` cells.
pub open spec fn zero_seq(n: nat) -> Seq<i64> {
    Seq::new(n, |i: int| 0i64)
}

/// The all-zero buffer has length `n` and holds only representable values.
pub proof fn lemma_zero_seq_ok(n: nat)
    ensures
        zero_seq(n).len() == n,
        crate::fixed::fx_seq_ok(zero_seq(n)),
{
    assert forall|i: int| 0 <= i < zero_seq(n).len() implies crate::fixed::fx_ok(
        #[trigger] zero_seq(n)[i],
    ) by {
        assert(zero_seq(n)[i] == 0i64);
    }
}

/// A fresh copy of a field buffer, used as the read-only snapshot of a sweep.
pub fn copy_field(v: &Vec<i64>) -> (r: Vec<i64>)
    ensures
        r@ == v@,
{
    let mut r: Vec<i64> = Vec::new();
    let mut i: usize = 0;
    while i < v.len()
        invariant
            i <= v.len(),
            r@.len() == i,
            forall|j: int| 0 <= j < i ==> r@[j] == v@[j],
        decreases v.len() - i,
    {
        r.push(v[i]);
        i += 1;
    }
    proof {
        assert(r@ =~= v@);
    }
    r
}

/// A field buffer of `n` cells, all zero.
pub fn zero_field(n: usize) -> (r: Vec<i64>)
    ensures
        r@ == zero_seq(n as nat),
{
    let mut r: Vec<i64> = Vec::new();
    let mut i: usize = 0;
    while i < n
        invariant
            i <= n,
            r@.len() == i,
            forall|j: int| 0 <= j < i ==> r@[j] == 0i64,
        decreases n - i,
    {
        r.push(0i64);
        i += 1;
    }
    proof {
        assert(r@ =~= zero_seq(n as nat));
    }
    r
}

} // verus!
