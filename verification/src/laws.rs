//! Order laws for the tangent accumulation.
//!
//! `pure_acc` is the mathematical value of the tangent and bitangent
//! accumulators — the same formulas as the checked evaluation in
//! `tangent`, over unbounded rationals with no representation concerns.
//! The law proved here: swapping two whole adjacent triangles in the index
//! list leaves the final accumulators unchanged, so tangent generation does
//! not depend on the order in which triangles are enumerated (any
//! reordering is a product of adjacent swaps).

use crate::geom::{q3_zero, Q2, Q3};
use crate::rat::{q_add, q_mul, q_recip_or_zero, q_sub, Q};
use crate::tangent::indices_in_range;
use vstd::prelude::*;

verus! {

/// The tangent and bitangent direction of one triangle, exactly.
pub open spec fn pure_dirs(p1: Q3, p2: Q3, p3: Q3, w1: Q2, w2: Q2, w3: Q2) -> (Q3, Q3) {
    let e1x = q_sub(p2.0, p1.0);
    let e1y = q_sub(p2.1, p1.1);
    let e1z = q_sub(p2.2, p1.2);
    let e2x = q_sub(p3.0, p1.0);
    let e2y = q_sub(p3.1, p1.1);
    let e2z = q_sub(p3.2, p1.2);
    let s1 = q_sub(w2.0, w1.0);
    let s2 = q_sub(w3.0, w1.0);
    let t1 = q_sub(w2.1, w1.1);
    let t2 = q_sub(w3.1, w1.1);
    let r = q_recip_or_zero(q_sub(q_mul(s1, t2), q_mul(s2, t1)));
    (
        (
            q_mul(q_sub(q_mul(t2, e1x), q_mul(t1, e2x)), r),
            q_mul(q_sub(q_mul(t2, e1y), q_mul(t1, e2y)), r),
            q_mul(q_sub(q_mul(t2, e1z), q_mul(t1, e2z)), r),
        ),
        (
            q_mul(q_sub(q_mul(s2, e1x), q_mul(s1, e2x)), r),
            q_mul(q_sub(q_mul(s2, e1y), q_mul(s1, e2y)), r),
            q_mul(q_sub(q_mul(s2, e1z), q_mul(s1, e2z)), r),
        ),
    )
}

/// Adds one triangle's contribution into slot `i`, exactly.
pub open spec fn p_bump(acc: Seq<Q3>, i: int, c: Q3) -> Seq<Q3>
    recommends
        0 <= i < acc.len(),
{
    acc.update(i, (q_add(acc[i].0, c.0), q_add(acc[i].1, c.1), q_add(acc[i].2, c.2)))
}

/// One triangle's effect on both accumulators, exactly.
pub open spec fn pure_step(st: (Seq<Q3>, Seq<Q3>), i1: int, i2: int, i3: int, d: (Q3, Q3)) -> (
    Seq<Q3>,
    Seq<Q3>,
) {
    (
        p_bump(p_bump(p_bump(st.0, i1, d.0), i2, d.0), i3, d.0),
        p_bump(p_bump(p_bump(st.1, i1, d.1), i2, d.1), i3, d.1),
    )
}

/// `pure_step` for the `j`-th triangle of the index list.
pub open spec fn pure_tri_step(
    idx: Seq<u32>,
    pos: Seq<Q3>,
    uv: Seq<Q2>,
    st: (Seq<Q3>, Seq<Q3>),
    j: int,
) -> (Seq<Q3>, Seq<Q3>) {
    pure_step(
        st,
        idx[3 * j] as int,
        idx[3 * j + 1] as int,
        idx[3 * j + 2] as int,
        pure_dirs(
            pos[idx[3 * j] as int],
            pos[idx[3 * j + 1] as int],
            pos[idx[3 * j + 2] as int],
            uv[idx[3 * j] as int],
            uv[idx[3 * j + 1] as int],
            uv[idx[3 * j + 2] as int],
        ),
    )
}

/// The exact value of both accumulators after the first `k` triangles.
pub open spec fn pure_acc(idx: Seq<u32>, pos: Seq<Q3>, uv: Seq<Q2>, k: nat) -> (Seq<Q3>, Seq<Q3>)
    decreases k,
{
    if k == 0 {
        (Seq::new(pos.len(), |i: int| q3_zero()), Seq::new(pos.len(), |i: int| q3_zero()))
    } else {
        pure_tri_step(idx, pos, uv, pure_acc(idx, pos, uv, (k - 1) as nat), (k - 1) as int)
    }
}

/// The index list with whole triangles `j` and `j + 1` exchanged.
pub open spec fn swap_triangles(idx: Seq<u32>, j: int) -> Seq<u32>
    recommends
        0 <= j,
        3 * j + 6 <= idx.len(),
{
    Seq::new(
        idx.len(),
        |i: int|
            if 3 * j <= i < 3 * j + 3 {
                idx[i + 3]
            } else if 3 * j + 3 <= i < 3 * j + 6 {
                idx[i - 3]
            } else {
                idx[i]
            },
    )
}

#[verifier::rlimit(60)]
proof fn lemma_add_swap_int(a0: int, a1: int, b0: int, b1: int, c0: int, c1: int)
    by (nonlinear_arith)
    ensures
        (a0 * b1 + b0 * a1) * c1 + c0 * (a1 * b1) == (a0 * c1 + c0 * a1) * b1 + b0 * (a1 * c1),
        (a1 * b1) * c1 == (a1 * c1) * b1,
{
}

proof fn lemma_q_add_swap(a: Q, b: Q, c: Q)
    ensures
        q_add(q_add(a, b), c).0 == q_add(q_add(a, c), b).0,
        q_add(q_add(a, b), c).1 == q_add(q_add(a, c), b).1,
{
    lemma_add_swap_int(a.0, a.1, b.0, b.1, c.0, c.1);
}

/// Two single-slot accumulations commute, whether or not they hit the same
/// slot.
proof fn lemma_bump_commute(acc: Seq<Q3>, i: int, c: Q3, j: int, d: Q3)
    requires
        0 <= i < acc.len(),
        0 <= j < acc.len(),
    ensures
        p_bump(p_bump(acc, i, c), j, d) == p_bump(p_bump(acc, j, d), i, c),
{
    if i == j {
        lemma_q_add_swap(acc[i].0, c.0, d.0);
        lemma_q_add_swap(acc[i].1, c.1, d.1);
        lemma_q_add_swap(acc[i].2, c.2, d.2);
        assert(p_bump(p_bump(acc, i, c), j, d) =~= p_bump(p_bump(acc, j, d), i, c));
    } else {
        assert(p_bump(p_bump(acc, i, c), j, d) =~= p_bump(p_bump(acc, j, d), i, c));
    }
}

/// A whole triangle's three accumulations move past another triangle's.
proof fn lemma_bump3_commute(acc: Seq<Q3>, a1: int, a2: int, a3: int, c: Q3, b1: int, b2: int,
    b3: int, d: Q3)
    requires
        0 <= a1 < acc.len(),
        0 <= a2 < acc.len(),
        0 <= a3 < acc.len(),
        0 <= b1 < acc.len(),
        0 <= b2 < acc.len(),
        0 <= b3 < acc.len(),
    ensures
        p_bump(p_bump(p_bump(p_bump(p_bump(p_bump(acc, a1, c), a2, c), a3, c), b1, d), b2, d), b3,
            d) == p_bump(
            p_bump(p_bump(p_bump(p_bump(p_bump(acc, b1, d), b2, d), b3, d), a1, c), a2, c),
            a3,
            c,
        ),
{
    let x1 = p_bump(acc, a1, c);
    let x2 = p_bump(x1, a2, c);
    let x3 = p_bump(x2, a3, c);
    // move the (b1, d) accumulation in front of the three (ai, c) ones
    lemma_bump_commute(x2, a3, c, b1, d);
    lemma_bump_commute(x1, a2, c, b1, d);
    lemma_bump_commute(acc, a1, c, b1, d);
    let y1 = p_bump(acc, b1, d);
    assert(p_bump(x3, b1, d) == p_bump(p_bump(p_bump(y1, a1, c), a2, c), a3, c));
    // then (b2, d)
    lemma_bump_commute(p_bump(p_bump(y1, a1, c), a2, c), a3, c, b2, d);
    lemma_bump_commute(p_bump(y1, a1, c), a2, c, b2, d);
    lemma_bump_commute(y1, a1, c, b2, d);
    let y2 = p_bump(y1, b2, d);
    assert(p_bump(p_bump(x3, b1, d), b2, d) == p_bump(p_bump(p_bump(y2, a1, c), a2, c), a3, c));
    // and (b3, d)
    lemma_bump_commute(p_bump(p_bump(y2, a1, c), a2, c), a3, c, b3, d);
    lemma_bump_commute(p_bump(y2, a1, c), a2, c, b3, d);
    lemma_bump_commute(y2, a1, c, b3, d);
    let y3 = p_bump(y2, b3, d);
    assert(p_bump(p_bump(p_bump(x3, b1, d), b2, d), b3, d) == p_bump(
        p_bump(p_bump(y3, a1, c), a2, c),
        a3,
        c,
    ));
}

/// Accumulation preserves the arrays' length.
proof fn lemma_pure_acc_len(idx: Seq<u32>, pos: Seq<Q3>, uv: Seq<Q2>, k: nat)
    requires
        3 * k <= idx.len(),
        indices_in_range(idx, pos.len() as nat),
    ensures
        pure_acc(idx, pos, uv, k).0.len() == pos.len(),
        pure_acc(idx, pos, uv, k).1.len() == pos.len(),
    decreases k,
{
    if k > 0 {
        lemma_pure_acc_len(idx, pos, uv, (k - 1) as nat);
        let prev = pure_acc(idx, pos, uv, (k - 1) as nat);
        assert(pure_acc(idx, pos, uv, k) == pure_tri_step(idx, pos, uv, prev, (k - 1) as int));
        assert(pure_tri_step(idx, pos, uv, prev, (k - 1) as int).0.len() == prev.0.len());
        assert(pure_tri_step(idx, pos, uv, prev, (k - 1) as int).1.len() == prev.1.len());
    }
}

/// Two adjacent triangles' steps commute.
proof fn lemma_tri_step_commute(
    idx: Seq<u32>,
    sw: Seq<u32>,
    pos: Seq<Q3>,
    uv: Seq<Q2>,
    st: (Seq<Q3>, Seq<Q3>),
    j: int,
)
    requires
        sw == swap_triangles(idx, j),
        0 <= j,
        3 * j + 6 <= idx.len(),
        indices_in_range(idx, pos.len() as nat),
        st.0.len() == pos.len(),
        st.1.len() == pos.len(),
    ensures
        pure_tri_step(sw, pos, uv, pure_tri_step(sw, pos, uv, st, j), j + 1) == pure_tri_step(
            idx,
            pos,
            uv,
            pure_tri_step(idx, pos, uv, st, j),
            j + 1,
        ),
{
    let a1 = idx[3 * j] as int;
    let a2 = idx[3 * j + 1] as int;
    let a3 = idx[3 * j + 2] as int;
    let b1 = idx[3 * (j + 1)] as int;
    let b2 = idx[3 * (j + 1) + 1] as int;
    let b3 = idx[3 * (j + 1) + 2] as int;
    assert(sw[3 * j] == idx[3 * (j + 1)] && sw[3 * j + 1] == idx[3 * (j + 1) + 1] && sw[3 * j + 2]
        == idx[3 * (j + 1) + 2]);
    assert(sw[3 * (j + 1)] == idx[3 * j] && sw[3 * (j + 1) + 1] == idx[3 * j + 1] && sw[3 * (j + 1)
        + 2] == idx[3 * j + 2]);
    let c = pure_dirs(pos[a1], pos[a2], pos[a3], uv[a1], uv[a2], uv[a3]);
    let d = pure_dirs(pos[b1], pos[b2], pos[b3], uv[b1], uv[b2], uv[b3]);
    lemma_bump3_commute(st.0, a1, a2, a3, c.0, b1, b2, b3, d.0);
    lemma_bump3_commute(st.1, a1, a2, a3, c.1, b1, b2, b3, d.1);
}

/// The triangles outside the swapped pair are the same in both lists.
proof fn lemma_swap_same_triangle(idx: Seq<u32>, j: int, m: int)
    requires
        0 <= j,
        3 * j + 6 <= idx.len(),
        0 <= m,
        3 * m + 3 <= idx.len(),
        m != j,
        m != j + 1,
    ensures
        swap_triangles(idx, j)[3 * m] == idx[3 * m],
        swap_triangles(idx, j)[3 * m + 1] == idx[3 * m + 1],
        swap_triangles(idx, j)[3 * m + 2] == idx[3 * m + 2],
{
}

proof fn lemma_pure_acc_swap_prefix(idx: Seq<u32>, pos: Seq<Q3>, uv: Seq<Q2>, j: int, k: nat)
    requires
        0 <= j,
        3 * j + 6 <= idx.len(),
        indices_in_range(idx, pos.len() as nat),
        k <= j,
        3 * k <= idx.len(),
    ensures
        pure_acc(swap_triangles(idx, j), pos, uv, k) == pure_acc(idx, pos, uv, k),
    decreases k,
{
    if k > 0 {
        lemma_pure_acc_swap_prefix(idx, pos, uv, j, (k - 1) as nat);
        lemma_swap_same_triangle(idx, j, (k - 1) as int);
    }
}

/// Swapping two whole adjacent triangles in the index list does not change
/// the accumulated tangent and bitangent arrays for any vertex: the tangent
/// basis is invariant to the order in which triangles are enumerated.
pub proof fn lemma_tangent_accum_order_invariant(
    idx: Seq<u32>,
    pos: Seq<Q3>,
    uv: Seq<Q2>,
    j: int,
    k: nat,
)
    requires
        0 <= j,
        3 * j + 6 <= idx.len(),
        indices_in_range(idx, pos.len() as nat),
        j + 2 <= k,
        3 * k <= idx.len(),
    ensures
        pure_acc(swap_triangles(idx, j), pos, uv, k) == pure_acc(idx, pos, uv, k),
    decreases k,
{
    let sw = swap_triangles(idx, j);
    if k == j + 2 {
        lemma_pure_acc_swap_prefix(idx, pos, uv, j, j as nat);
        let st = pure_acc(idx, pos, uv, j as nat);
        lemma_pure_acc_len(idx, pos, uv, j as nat);
        lemma_tri_step_commute(idx, sw, pos, uv, st, j);
        // the swapped list's triangles j and j+1 are the original pair in
        // the other order, so both evaluations are the commuted two steps
        assert(pure_acc(sw, pos, uv, (j + 1) as nat) == pure_tri_step(sw, pos, uv, pure_acc(sw,
            pos, uv, j as nat), j));
        assert(pure_acc(sw, pos, uv, k) == pure_tri_step(sw, pos, uv, pure_acc(sw, pos, uv, (j
            + 1) as nat), j + 1));
        assert(pure_acc(idx, pos, uv, (j + 1) as nat) == pure_tri_step(idx, pos, uv, st, j));
        assert(pure_acc(idx, pos, uv, k) == pure_tri_step(idx, pos, uv, pure_acc(idx, pos, uv, (j
            + 1) as nat), j + 1));
    } else {
        lemma_tangent_accum_order_invariant(idx, pos, uv, j, (k - 1) as nat);
        lemma_swap_same_triangle(idx, j, (k - 1) as int);
    }
}


} // verus!
