//! Reflective boundary handling.
//!
//! After every relaxation sweep the cells on the four edges are rewritten
//! from their adjacent interior cells: a plain copy for scalar fields, a
//! negated copy for the velocity component normal to the wall (`Bound::X`
//! mirrors with negation across the left/right edges, `Bound::Y` across the
//! top/bottom edges). The four corners are then set to the average of their
//! two updated edge neighbours.

use vstd::prelude::*;

use crate::fixed::{fx_avg, fx_avg_s, fx_neg, fx_neg_s, fx_ok, fx_seq_ok};
use crate::grid::{copy_field, dim_ok, interior, lemma_flat, lemma_flat_in_range,
    lemma_pos_decompose};

verus! {

/// Which mirror rule a field obeys at the walls: `Neither` for scalars,
/// `X` for the horizontal velocity component, `Y` for the vertical one.
#[derive(Clone, Copy, PartialEq, Eq, Structural)]
pub enum Bound {
    Neither,
    X,
    Y,
}

/// The value mirrored across the top or bottom edge.
pub open spec fn mirror_tb_s(b: Bound, v: i64) -> i64 {
    if b is Y {
        fx_neg_s(v)
    } else {
        v
    }
}

/// The value mirrored across the left or right edge.
pub open spec fn mirror_lr_s(b: Bound, v: i64) -> i64 {
    if b is X {
        fx_neg_s(v)
    } else {
        v
    }
}

/// The value of cell `i` after the edge pass: edge cells mirror their
/// adjacent interior cell, every other cell keeps its value.
pub open spec fn edge_cell(v: Seq<i64>, b: Bound, w: int, h: int, i: int) -> i64 {
    let x = i % w;
    let y = i / w;
    if y == 0 && 1 <= x < w - 1 {
        mirror_tb_s(b, v[x + w])
    } else if y == h - 1 && 1 <= x < w - 1 {
        mirror_tb_s(b, v[x + (h - 2) * w])
    } else if x == 0 && 1 <= y < h - 1 {
        mirror_lr_s(b, v[1 + y * w])
    } else if x == w - 1 && 1 <= y < h - 1 {
        mirror_lr_s(b, v[w - 2 + y * w])
    } else {
        v[i]
    }
}

/// The edge pass applied to the whole buffer.
pub open spec fn edge_pass(v: Seq<i64>, b: Bound, w: int, h: int) -> Seq<i64> {
    Seq::new(v.len(), |i: int| edge_cell(v, b, w, h, i))
}

/// The whole boundary pass: the edge pass, then the four corners averaged
/// from their updated edge neighbours.
pub open spec fn set_bound_spec(b: Bound, v: Seq<i64>, w: int, h: int) -> Seq<i64> {
    let e = edge_pass(v, b, w, h);
    let c00 = fx_avg_s(e[1], e[w]);
    let c0h = fx_avg_s(e[1 + (h - 1) * w], e[(h - 2) * w]);
    let cw0 = fx_avg_s(e[w - 2], e[w - 1 + w]);
    let cwh = fx_avg_s(e[w - 2 + (h - 1) * w], e[w - 1 + (h - 2) * w]);
    e.update(0, c00).update((h - 1) * w, c0h).update(w - 1, cw0).update(
        w - 1 + (h - 1) * w,
        cwh,
    )
}

/// The arithmetic facts about corner offsets that the update axioms of the
/// boundary pass rely on.
proof fn lemma_corner_offsets(w: int, h: int)
    requires
        w >= 3,
        h >= 3,
    ensures
        0 < w * h,
        0 <= w - 1 < w * h,
        0 <= (h - 1) * w < w * h,
        0 <= w - 1 + (h - 1) * w < w * h,
        (h - 1) * w >= 2 * w,
        (h - 2) * w >= w,
        (h - 1) * w == (h - 2) * w + w,
{
    lemma_flat_in_range(0, 0, w, h);
    lemma_flat_in_range(w - 1, 0, w, h);
    lemma_flat_in_range(0, h - 1, w, h);
    lemma_flat_in_range(w - 1, h - 1, w, h);
    assert((h - 1) * w >= 2 * w && (h - 2) * w >= w && (h - 1) * w == (h - 2) * w + w)
        by (nonlinear_arith)
        requires
            h >= 3,
            w >= 3,
    ;
}

/// The boundary pass keeps the buffer length.
pub proof fn lemma_set_bound_len(b: Bound, v: Seq<i64>, w: int, h: int)
    requires
        w >= 3,
        h >= 3,
        v.len() == w * h,
    ensures
        set_bound_spec(b, v, w, h).len() == v.len(),
{
    lemma_corner_offsets(w, h);
}

/// The boundary pass writes only representable values.
pub proof fn lemma_set_bound_ok(b: Bound, v: Seq<i64>, w: int, h: int)
    requires
        w >= 3,
        h >= 3,
        v.len() == w * h,
        fx_seq_ok(v),
    ensures
        fx_seq_ok(set_bound_spec(b, v, w, h)),
{
    lemma_corner_offsets(w, h);
    let e = edge_pass(v, b, w, h);
    assert forall|i: int| 0 <= i < e.len() implies fx_ok(#[trigger] e[i]) by {
        lemma_pos_decompose(i, w, h);
        let x = i % w;
        let y = i / w;
        if y == 0 && 1 <= x < w - 1 {
            lemma_flat_in_range(x, 1, w, h);
        } else if y == h - 1 && 1 <= x < w - 1 {
            lemma_flat_in_range(x, h - 2, w, h);
        } else if x == 0 && 1 <= y < h - 1 {
            lemma_flat_in_range(1, y, w, h);
        } else if x == w - 1 && 1 <= y < h - 1 {
            lemma_flat_in_range(w - 2, y, w, h);
        }
    }
    let r = set_bound_spec(b, v, w, h);
    assert forall|i: int| 0 <= i < r.len() implies fx_ok(#[trigger] r[i]) by {
        if i == 0 || i == (h - 1) * w || i == w - 1 || i == w - 1 + (h - 1) * w {
            assert(fx_ok(r[i]));
        } else {
            assert(r[i] == e[i]);
        }
    }
}

/// The boundary pass leaves every interior cell untouched.
pub proof fn lemma_set_bound_interior(b: Bound, v: Seq<i64>, w: int, h: int, i: int)
    requires
        w >= 3,
        h >= 3,
        v.len() == w * h,
        0 <= i < w * h,
        interior(i % w, i / w, w, h),
    ensures
        set_bound_spec(b, v, w, h)[i] == v[i],
{
    lemma_corner_offsets(w, h);
    lemma_pos_decompose(i, w, h);
    let x = i % w;
    let y = i / w;
    lemma_flat(0, h - 1, w);
    lemma_flat(w - 1, 0, w);
    lemma_flat(w - 1, h - 1, w);
    assert(i != 0 && i != (h - 1) * w && i != w - 1 && i != w - 1 + (h - 1) * w) by {
        assert((h - 1) * w % w == 0);
        assert((w - 1 + (h - 1) * w) % w == w - 1);
        assert((w - 1) % w == w - 1);
    }
}

fn mirror_tb(b: Bound, v: i64) -> (r: i64)
    ensures
        r == mirror_tb_s(b, v),
{
    match b {
        Bound::Y => fx_neg(v),
        _ => v,
    }
}

fn mirror_lr(b: Bound, v: i64) -> (r: i64)
    ensures
        r == mirror_lr_s(b, v),
{
    match b {
        Bound::X => fx_neg(v),
        _ => v,
    }
}

/// Rewrite the edge and corner cells of `vals` by the reflective rule for
/// boundary kind `b`.
#[verifier::loop_isolation(false)]
pub fn set_bound(b: Bound, vals: &mut Vec<i64>, dim: (usize, usize))
    requires
        dim_ok(dim),
        old(vals)@.len() == dim.0 * dim.1,
    ensures
        final(vals)@ == set_bound_spec(b, old(vals)@, dim.0 as int, dim.1 as int),
        final(vals)@.len() == old(vals)@.len(),
{
    let w = dim.0;
    let h = dim.1;
    let ghost gw = w as int;
    let ghost gh = h as int;
    let snap = copy_field(vals);
    let len = vals.len();
    let mut j: usize = 0;
    while j < len
        invariant
            j <= len,
            vals@.len() == len,
            forall|k: int| 0 <= k < j ==> vals@[k] == edge_cell(snap@, b, gw, gh, k),
            forall|k: int| j <= k < len ==> vals@[k] == snap@[k],
        decreases len - j,
    {
        proof {
            lemma_pos_decompose(j as int, gw, gh);
        }
        let x = j % w;
        let y = j / w;
        if y == 0 && 1 <= x && x < w - 1 {
            proof {
                lemma_flat_in_range(x as int, 1, gw, gh);
            }
            let m = mirror_tb(b, snap[x + w]);
            vals.set(j, m);
        } else if y == h - 1 && 1 <= x && x < w - 1 {
            proof {
                lemma_flat_in_range(x as int, gh - 2, gw, gh);
            }
            let m = mirror_tb(b, snap[x + (h - 2) * w]);
            vals.set(j, m);
        } else if x == 0 && 1 <= y && y < h - 1 {
            proof {
                lemma_flat_in_range(1, y as int, gw, gh);
            }
            let m = mirror_lr(b, snap[1 + y * w]);
            vals.set(j, m);
        } else if x == w - 1 && 1 <= y && y < h - 1 {
            proof {
                lemma_flat_in_range(gw - 2, y as int, gw, gh);
            }
            let m = mirror_lr(b, snap[w - 2 + y * w]);
            vals.set(j, m);
        }
        j += 1;
    }
    let ghost e = edge_pass(snap@, b, gw, gh);
    proof {
        assert(vals@ =~= e);
        lemma_flat_in_range(0, gh - 1, gw, gh);
        lemma_flat_in_range(1, gh - 1, gw, gh);
        lemma_flat_in_range(0, gh - 2, gw, gh);
        lemma_flat_in_range(gw - 1, 1, gw, gh);
        lemma_flat_in_range(gw - 2, gh - 1, gw, gh);
        lemma_flat_in_range(gw - 1, gh - 2, gw, gh);
        lemma_flat_in_range(gw - 1, gh - 1, gw, gh);
        lemma_corner_offsets(gw, gh);
    }
    let c00 = fx_avg(vals[1], vals[w]);
    vals.set(0, c00);
    let c0h = fx_avg(vals[1 + (h - 1) * w], vals[(h - 2) * w]);
    vals.set((h - 1) * w, c0h);
    let cw0 = fx_avg(vals[w - 2], vals[w - 1 + w]);
    vals.set(w - 1, cw0);
    let cwh = fx_avg(vals[w - 2 + (h - 1) * w], vals[w - 1 + (h - 2) * w]);
    vals.set(w - 1 + (h - 1) * w, cwh);
}

/// The mirror law of the boundary pass: every non-corner edge cell of the
/// result equals its adjacent interior cell, mirrored by the rule of `b`
/// (a plain copy for `Neither`, a negated copy across the edges that `X`
/// and `Y` respectively mirror with sign).
pub proof fn lemma_boundary_mirror(b: Bound, v: Seq<i64>, w: int, h: int)
    requires
        w >= 3,
        h >= 3,
        v.len() == w * h,
    ensures
        ({
            let r = set_bound_spec(b, v, w, h);
            &&& forall|x: int|
                1 <= x < w - 1 ==> #[trigger] r[x] == mirror_tb_s(b, r[x + w])
            &&& forall|x: int|
                1 <= x < w - 1 ==> #[trigger] r[x + (h - 1) * w] == mirror_tb_s(
                    b,
                    r[x + (h - 2) * w],
                )
            &&& forall|y: int|
                1 <= y < h - 1 ==> #[trigger] r[y * w] == mirror_lr_s(b, r[1 + y * w])
            &&& forall|y: int|
                1 <= y < h - 1 ==> #[trigger] r[w - 1 + y * w] == mirror_lr_s(
                    b,
                    r[w - 2 + y * w],
                )
            &&& r[0] == fx_avg_s(r[1], r[w])
            &&& r[(h - 1) * w] == fx_avg_s(r[1 + (h - 1) * w], r[(h - 2) * w])
            &&& r[w - 1] == fx_avg_s(r[w - 2], r[w - 1 + w])
            &&& r[w - 1 + (h - 1) * w] == fx_avg_s(r[w - 2 + (h - 1) * w], r[w - 1 + (h - 2) * w])
        }),
{
    lemma_corner_offsets(w, h);
    let e = edge_pass(v, b, w, h);
    let r = set_bound_spec(b, v, w, h);
    assert forall|x: int| 1 <= x < w - 1 implies #[trigger] r[x] == mirror_tb_s(
        b,
        r[x + w],
    ) by {
        lemma_flat(x, 0, w);
        lemma_flat(x, 1, w);
        lemma_flat_in_range(x, 1, w, h);
        assert(r[x] == e[x]);
        assert(r[x + w] == e[x + w]);
        assert(e[x + w] == v[x + w]);
    }
    assert forall|x: int| 1 <= x < w - 1 implies #[trigger] r[x + (h - 1) * w] == mirror_tb_s(
        b,
        r[x + (h - 2) * w],
    ) by {
        lemma_flat(x, h - 1, w);
        lemma_flat(x, h - 2, w);
        lemma_flat_in_range(x, h - 1, w, h);
        lemma_flat_in_range(x, h - 2, w, h);
        assert(r[x + (h - 1) * w] == e[x + (h - 1) * w]);
        assert(r[x + (h - 2) * w] == e[x + (h - 2) * w]);
        assert(e[x + (h - 2) * w] == v[x + (h - 2) * w]);
    }
    assert forall|y: int| 1 <= y < h - 1 implies #[trigger] r[y * w] == mirror_lr_s(
        b,
        r[1 + y * w],
    ) by {
        lemma_flat(0, y, w);
        lemma_flat(1, y, w);
        lemma_flat_in_range(0, y, w, h);
        lemma_flat_in_range(1, y, w, h);
        assert(w <= y * w && y * w <= (h - 2) * w) by (nonlinear_arith)
            requires
                1 <= y <= h - 2,
                w >= 3,
        ;
        assert(r[y * w] == e[y * w]);
        assert(r[1 + y * w] == e[1 + y * w]);
        assert(e[1 + y * w] == v[1 + y * w]);
    }
    assert forall|y: int| 1 <= y < h - 1 implies #[trigger] r[w - 1 + y * w] == mirror_lr_s(
        b,
        r[w - 2 + y * w],
    ) by {
        lemma_flat(w - 1, y, w);
        lemma_flat(w - 2, y, w);
        lemma_flat_in_range(w - 1, y, w, h);
        lemma_flat_in_range(w - 2, y, w, h);
        assert(w <= y * w && y * w <= (h - 2) * w) by (nonlinear_arith)
            requires
                1 <= y <= h - 2,
                w >= 3,
        ;
        assert(r[w - 1 + y * w] == e[w - 1 + y * w]);
        assert(r[w - 2 + y * w] == e[w - 2 + y * w]);
        assert(e[w - 2 + y * w] == v[w - 2 + y * w]);
    }
    lemma_flat_in_range(1, 0, w, h);
    lemma_flat_in_range(0, 1, w, h);
    lemma_flat_in_range(1, h - 1, w, h);
    lemma_flat_in_range(0, h - 2, w, h);
    lemma_flat_in_range(w - 2, 0, w, h);
    lemma_flat_in_range(w - 1, 1, w, h);
    lemma_flat_in_range(w - 2, h - 1, w, h);
    lemma_flat_in_range(w - 1, h - 2, w, h);
    assert(r[1] == e[1] && r[w] == e[w]);
    assert(r[1 + (h - 1) * w] == e[1 + (h - 1) * w] && r[(h - 2) * w] == e[(h - 2) * w]);
    assert(r[w - 2] == e[w - 2] && r[w - 1 + w] == e[w - 1 + w]);
    assert(r[w - 2 + (h - 1) * w] == e[w - 2 + (h - 1) * w] && r[w - 1 + (h - 2) * w] == e[w - 1
        + (h - 2) * w]);
}

} // verus!
