//! Per-vertex tangent bases (Lengyel's method) over exact rational scalars.
//!
//! For each triangle the generator derives a tangent and a bitangent
//! direction from the position-space and UV-space edges and accumulates them
//! on the triangle's vertices; afterwards every vertex receives its raw
//! accumulated tangent direction plus a handedness sign of exactly `+1` or
//! `-1`.  All arithmetic is exact; an unrepresentable intermediate is
//! reported as an error, never rounded.

use crate::geom::{
    q3_zero, v2_views, v2s_wf, v3_views, v3s_wf, v4_views, Q2, Q3, Vec2, Vec3, Vec4,
};
use crate::rat::{q_add, q_chk, q_mul, q_recip_or_zero, q_sub, Q, Rat};
use vstd::pervasive::VecAdditionalExecFns;
use vstd::prelude::*;

verus! {

/// Why a mesh computation could not produce a result.
#[derive(Clone, Copy, PartialEq, Eq, Structural, Debug)]
pub enum MeshError {
    /// Some triangle index does not name a vertex.
    IndexOutOfBounds,
    /// An exact intermediate value does not fit the scalar type.
    NumericOverflow,
}

pub open spec fn o_add(a: Option<Q>, b: Option<Q>) -> Option<Q> {
    match (a, b) {
        (Some(x), Some(y)) => q_chk(q_add(x, y)),
        _ => None,
    }
}

pub open spec fn o_sub(a: Option<Q>, b: Option<Q>) -> Option<Q> {
    match (a, b) {
        (Some(x), Some(y)) => q_chk(q_sub(x, y)),
        _ => None,
    }
}

pub open spec fn o_mul(a: Option<Q>, b: Option<Q>) -> Option<Q> {
    match (a, b) {
        (Some(x), Some(y)) => q_chk(q_mul(x, y)),
        _ => None,
    }
}

pub open spec fn o_recip(a: Option<Q>) -> Option<Q> {
    match a {
        Some(x) => Some(q_recip_or_zero(x)),
        None => None,
    }
}

/// The tangent and bitangent direction one triangle contributes, from its
/// three positions and UVs; `None` when an exact intermediate overflows.
/// A zero UV determinant contributes zero directions rather than failing.
#[verifier::opaque]
pub open spec fn tri_dirs(p1: Q3, p2: Q3, p3: Q3, w1: Q2, w2: Q2, w3: Q2) -> Option<(Q3, Q3)> {
    let e1x = q_chk(q_sub(p2.0, p1.0));
    let e1y = q_chk(q_sub(p2.1, p1.1));
    let e1z = q_chk(q_sub(p2.2, p1.2));
    let e2x = q_chk(q_sub(p3.0, p1.0));
    let e2y = q_chk(q_sub(p3.1, p1.1));
    let e2z = q_chk(q_sub(p3.2, p1.2));
    let s1 = q_chk(q_sub(w2.0, w1.0));
    let s2 = q_chk(q_sub(w3.0, w1.0));
    let t1 = q_chk(q_sub(w2.1, w1.1));
    let t2 = q_chk(q_sub(w3.1, w1.1));
    let div = o_sub(o_mul(s1, t2), o_mul(s2, t1));
    let r = o_recip(div);
    let sx = o_mul(o_sub(o_mul(t2, e1x), o_mul(t1, e2x)), r);
    let sy = o_mul(o_sub(o_mul(t2, e1y), o_mul(t1, e2y)), r);
    let sz = o_mul(o_sub(o_mul(t2, e1z), o_mul(t1, e2z)), r);
    let tx = o_mul(o_sub(o_mul(s2, e1x), o_mul(s1, e2x)), r);
    let ty = o_mul(o_sub(o_mul(s2, e1y), o_mul(s1, e2y)), r);
    let tz = o_mul(o_sub(o_mul(s2, e1z), o_mul(s1, e2z)), r);
    match (sx, sy, sz, tx, ty, tz) {
        (Some(a), Some(b), Some(c), Some(d), Some(e), Some(f)) => Some(((a, b, c), (d, e, f))),
        _ => None,
    }
}

/// Component-wise checked vector addition.
pub open spec fn v3_add_chk(a: Q3, b: Q3) -> Option<Q3> {
    let x = q_chk(q_add(a.0, b.0));
    let y = q_chk(q_add(a.1, b.1));
    let z = q_chk(q_add(a.2, b.2));
    match (x, y, z) {
        (Some(xx), Some(yy), Some(zz)) => Some((xx, yy, zz)),
        _ => None,
    }
}

/// One accumulation into slot `i`.
pub open spec fn bump(acc: Seq<Q3>, i: int, c: Q3) -> Option<Seq<Q3>>
    recommends
        0 <= i < acc.len(),
{
    match v3_add_chk(acc[i], c) {
        Some(v) => Some(acc.update(i, v)),
        None => None,
    }
}

pub open spec fn o_bump(acc: Option<Seq<Q3>>, i: int, c: Q3) -> Option<Seq<Q3>> {
    match acc {
        Some(s) => bump(s, i, c),
        None => None,
    }
}

/// One triangle's effect on the two accumulator arrays: its tangent
/// direction is added at its three vertices, then its bitangent direction.
pub open spec fn acc_step(
    st: (Seq<Q3>, Seq<Q3>),
    i1: int,
    i2: int,
    i3: int,
    dirs: Option<(Q3, Q3)>,
) -> Option<(Seq<Q3>, Seq<Q3>)> {
    match dirs {
        None => None,
        Some(d) => {
            let a1 = o_bump(o_bump(bump(st.0, i1, d.0), i2, d.0), i3, d.0);
            let a2 = o_bump(o_bump(bump(st.1, i1, d.1), i2, d.1), i3, d.1);
            match (a1, a2) {
                (Some(x), Some(y)) => Some((x, y)),
                _ => None,
            }
        },
    }
}

/// The accumulators after the first `k` triangles, starting from zero.
pub open spec fn acc_state(idx: Seq<u32>, pos: Seq<Q3>, uv: Seq<Q2>, k: nat) -> Option<
    (Seq<Q3>, Seq<Q3>),
>
    decreases k,
{
    if k == 0 {
        Some(
            (
                Seq::new(pos.len(), |i: int| q3_zero()),
                Seq::new(pos.len(), |i: int| q3_zero()),
            ),
        )
    } else {
        let j = (k - 1) as int;
        match acc_state(idx, pos, uv, (k - 1) as nat) {
            None => None,
            Some(st) => acc_step(
                st,
                idx[3 * j] as int,
                idx[3 * j + 1] as int,
                idx[3 * j + 2] as int,
                tri_dirs(
                    pos[idx[3 * j] as int],
                    pos[idx[3 * j + 1] as int],
                    pos[idx[3 * j + 2] as int],
                    uv[idx[3 * j] as int],
                    uv[idx[3 * j + 1] as int],
                    uv[idx[3 * j + 2] as int],
                ),
            ),
        }
    }
}

/// The handedness sign for one vertex: `-1` exactly when
/// `dot(cross(normal, tangent), bitangent)` is negative, else `+1`.
#[verifier::opaque]
pub open spec fn handedness(n: Q3, t: Q3, u: Q3) -> Option<Q> {
    let cx = o_sub(o_mul(Some(n.1), Some(t.2)), o_mul(Some(n.2), Some(t.1)));
    let cy = o_sub(o_mul(Some(n.2), Some(t.0)), o_mul(Some(n.0), Some(t.2)));
    let cz = o_sub(o_mul(Some(n.0), Some(t.1)), o_mul(Some(n.1), Some(t.0)));
    let d = o_add(o_add(o_mul(cx, Some(u.0)), o_mul(cy, Some(u.1))), o_mul(cz, Some(u.2)));
    match d {
        None => None,
        Some(dv) => if dv.0 < 0 {
            Some((-1int, 1int))
        } else {
            Some((1int, 1int))
        },
    }
}

/// The first `k` output tangents: the raw accumulated direction plus the
/// handedness sign.
pub open spec fn out_seq(nor: Seq<Q3>, tan1: Seq<Q3>, tan2: Seq<Q3>, k: nat) -> Option<
    Seq<crate::geom::Q4>,
>
    decreases k,
{
    if k == 0 {
        Some(Seq::empty())
    } else {
        let j = (k - 1) as int;
        match out_seq(nor, tan1, tan2, (k - 1) as nat) {
            None => None,
            Some(s) => match handedness(nor[j], tan1[j], tan2[j]) {
                None => None,
                Some(w) => Some(s.push((tan1[j].0, tan1[j].1, tan1[j].2, w))),
            },
        }
    }
}

/// What `generate_tangents` returns when every exact intermediate fits:
/// one 4-component tangent per vertex.
pub open spec fn tangents_chk(idx: Seq<u32>, pos: Seq<Q3>, nor: Seq<Q3>, uv: Seq<Q2>) -> Option<
    Seq<crate::geom::Q4>,
> {
    match acc_state(idx, pos, uv, idx.len() / 3) {
        None => None,
        Some(st) => out_seq(nor, st.0, st.1, pos.len()),
    }
}

pub open spec fn indices_in_range(idx: Seq<u32>, n: nat) -> bool {
    forall|i: int| 0 <= i < idx.len() ==> (#[trigger] idx[i]) < n
}

/// A `None` accumulator state never recovers.
proof fn lemma_acc_none_mono(idx: Seq<u32>, pos: Seq<Q3>, uv: Seq<Q2>, k1: nat, k2: nat)
    requires
        k1 <= k2,
        acc_state(idx, pos, uv, k1) is None,
    ensures
        acc_state(idx, pos, uv, k2) is None,
    decreases k2,
{
    if k2 > k1 {
        lemma_acc_none_mono(idx, pos, uv, k1, (k2 - 1) as nat);
    }
}

/// A `None` output prefix never recovers.
proof fn lemma_out_none_mono(nor: Seq<Q3>, tan1: Seq<Q3>, tan2: Seq<Q3>, k1: nat, k2: nat)
    requires
        k1 <= k2,
        out_seq(nor, tan1, tan2, k1) is None,
    ensures
        out_seq(nor, tan1, tan2, k2) is None,
    decreases k2,
{
    if k2 > k1 {
        lemma_out_none_mono(nor, tan1, tan2, k1, (k2 - 1) as nat);
    }
}

proof fn lemma_views_update3(s: Seq<Vec3>, i: int, v: Vec3)
    requires
        0 <= i < s.len(),
    ensures
        v3_views(s.update(i, v)) == v3_views(s).update(i, v@),
{
    assert(v3_views(s.update(i, v)) =~= v3_views(s).update(i, v@));
}

proof fn lemma_views_push4(s: Seq<Vec4>, v: Vec4)
    ensures
        v4_views(s.push(v)) == v4_views(s).push(v@),
{
    assert(v4_views(s.push(v)) =~= v4_views(s).push(v@));
}

fn add3(a: &Vec3, b: &Vec3) -> (r: Option<Vec3>)
    requires
        a.wf(),
        b.wf(),
    ensures
        match r {
            Some(v) => v3_add_chk(a@, b@) == Some(v@) && v.wf(),
            None => v3_add_chk(a@, b@) is None,
        },
{
    let x = match a.x.add(b.x) {
        Some(v) => v,
        None => {
            return None;
        },
    };
    let y = match a.y.add(b.y) {
        Some(v) => v,
        None => {
            return None;
        },
    };
    let z = match a.z.add(b.z) {
        Some(v) => v,
        None => {
            return None;
        },
    };
    Some(Vec3 { x, y, z })
}

/// Adds `c` into slot `i`; on overflow leaves the array unchanged and
/// reports `false`.
fn bump_exec(acc: &mut Vec<Vec3>, i: usize, c: &Vec3) -> (ok: bool)
    requires
        i < old(acc)@.len(),
        v3s_wf(old(acc)@),
        c.wf(),
    ensures
        final(acc)@.len() == old(acc)@.len(),
        v3s_wf(final(acc)@),
        ok ==> bump(v3_views(old(acc)@), i as int, c@) == Some(v3_views(final(acc)@)),
        !ok ==> bump(v3_views(old(acc)@), i as int, c@) is None && final(acc)@ == old(acc)@,
{
    let nv = match add3(&acc[i], c) {
        Some(v) => v,
        None => {
            return false;
        },
    };
    let ghost prev = acc@;
    acc.set(i, nv);
    proof {
        lemma_views_update3(prev, i as int, nv);
    }
    true
}

fn tri_dirs_exec(p1: &Vec3, p2: &Vec3, p3: &Vec3, w1: &Vec2, w2: &Vec2, w3: &Vec2) -> (r: Option<
    (Vec3, Vec3),
>)
    requires
        p1.wf(),
        p2.wf(),
        p3.wf(),
        w1.wf(),
        w2.wf(),
        w3.wf(),
    ensures
        match r {
            Some(d) => tri_dirs(p1@, p2@, p3@, w1@, w2@, w3@) == Some((d.0@, d.1@)) && d.0.wf()
                && d.1.wf(),
            None => tri_dirs(p1@, p2@, p3@, w1@, w2@, w3@) is None,
        },
{
    proof {
        reveal(tri_dirs);
    }
    let e1x = match p2.x.sub(p1.x) {
        Some(v) => v,
        None => {
            return None;
        },
    };
    let e1y = match p2.y.sub(p1.y) {
        Some(v) => v,
        None => {
            return None;
        },
    };
    let e1z = match p2.z.sub(p1.z) {
        Some(v) => v,
        None => {
            return None;
        },
    };
    let e2x = match p3.x.sub(p1.x) {
        Some(v) => v,
        None => {
            return None;
        },
    };
    let e2y = match p3.y.sub(p1.y) {
        Some(v) => v,
        None => {
            return None;
        },
    };
    let e2z = match p3.z.sub(p1.z) {
        Some(v) => v,
        None => {
            return None;
        },
    };
    let s1 = match w2.x.sub(w1.x) {
        Some(v) => v,
        None => {
            return None;
        },
    };
    let s2 = match w3.x.sub(w1.x) {
        Some(v) => v,
        None => {
            return None;
        },
    };
    let t1 = match w2.y.sub(w1.y) {
        Some(v) => v,
        None => {
            return None;
        },
    };
    let t2 = match w3.y.sub(w1.y) {
        Some(v) => v,
        None => {
            return None;
        },
    };
    let m1 = match s1.mul(t2) {
        Some(v) => v,
        None => {
            return None;
        },
    };
    let m2 = match s2.mul(t1) {
        Some(v) => v,
        None => {
            return None;
        },
    };
    let div = match m1.sub(m2) {
        Some(v) => v,
        None => {
            return None;
        },
    };
    let r = div.recip_or_zero();
    let sx = match dir_component(t2, t1, e1x, e2x, r) {
        Some(v) => v,
        None => {
            return None;
        },
    };
    let sy = match dir_component(t2, t1, e1y, e2y, r) {
        Some(v) => v,
        None => {
            return None;
        },
    };
    let sz = match dir_component(t2, t1, e1z, e2z, r) {
        Some(v) => v,
        None => {
            return None;
        },
    };
    let tx = match dir_component(s2, s1, e1x, e2x, r) {
        Some(v) => v,
        None => {
            return None;
        },
    };
    let ty = match dir_component(s2, s1, e1y, e2y, r) {
        Some(v) => v,
        None => {
            return None;
        },
    };
    let tz = match dir_component(s2, s1, e1z, e2z, r) {
        Some(v) => v,
        None => {
            return None;
        },
    };
    Some((Vec3 { x: sx, y: sy, z: sz }, Vec3 { x: tx, y: ty, z: tz }))
}

/// One direction component `(a * ea - b * eb) * r`, checked.
fn dir_component(a: Rat, b: Rat, ea: Rat, eb: Rat, r: Rat) -> (res: Option<Rat>)
    requires
        a.wf(),
        b.wf(),
        ea.wf(),
        eb.wf(),
        r.wf(),
    ensures
        match res {
            Some(v) => o_mul(
                o_sub(o_mul(Some(a@), Some(ea@)), o_mul(Some(b@), Some(eb@))),
                Some(r@),
            ) == Some(v@) && v.wf(),
            None => o_mul(
                o_sub(o_mul(Some(a@), Some(ea@)), o_mul(Some(b@), Some(eb@))),
                Some(r@),
            ) is None,
        },
{
    let m1 = match a.mul(ea) {
        Some(v) => v,
        None => {
            return None;
        },
    };
    let m2 = match b.mul(eb) {
        Some(v) => v,
        None => {
            return None;
        },
    };
    let d = match m1.sub(m2) {
        Some(v) => v,
        None => {
            return None;
        },
    };
    d.mul(r)
}

fn handedness_exec(nrm: &Vec3, t: &Vec3, u: &Vec3) -> (r: Option<Rat>)
    requires
        nrm.wf(),
        t.wf(),
        u.wf(),
    ensures
        match r {
            Some(w) => handedness(nrm@, t@, u@) == Some(w@) && w.wf() && (w@ == (1int, 1int) || w@
                == (-1int, 1int)),
            None => handedness(nrm@, t@, u@) is None,
        },
{
    proof {
        reveal(handedness);
    }
    let a1 = match nrm.y.mul(t.z) {
        Some(v) => v,
        None => {
            return None;
        },
    };
    let a2 = match nrm.z.mul(t.y) {
        Some(v) => v,
        None => {
            return None;
        },
    };
    let cx = match a1.sub(a2) {
        Some(v) => v,
        None => {
            return None;
        },
    };
    let b1 = match nrm.z.mul(t.x) {
        Some(v) => v,
        None => {
            return None;
        },
    };
    let b2 = match nrm.x.mul(t.z) {
        Some(v) => v,
        None => {
            return None;
        },
    };
    let cy = match b1.sub(b2) {
        Some(v) => v,
        None => {
            return None;
        },
    };
    let c1 = match nrm.x.mul(t.y) {
        Some(v) => v,
        None => {
            return None;
        },
    };
    let c2 = match nrm.y.mul(t.x) {
        Some(v) => v,
        None => {
            return None;
        },
    };
    let cz = match c1.sub(c2) {
        Some(v) => v,
        None => {
            return None;
        },
    };
    let px = match cx.mul(u.x) {
        Some(v) => v,
        None => {
            return None;
        },
    };
    let py = match cy.mul(u.y) {
        Some(v) => v,
        None => {
            return None;
        },
    };
    let pz = match cz.mul(u.z) {
        Some(v) => v,
        None => {
            return None;
        },
    };
    let s = match px.add(py) {
        Some(v) => v,
        None => {
            return None;
        },
    };
    let d = match s.add(pz) {
        Some(v) => v,
        None => {
            return None;
        },
    };
    if d.is_neg() {
        Some(Rat::one().neg())
    } else {
        Some(Rat::one())
    }
}

/// Computes one 4-component tangent per vertex by accumulating every
/// triangle's tangent and bitangent direction (Lengyel's method).  Exact:
/// the result is the checked rational evaluation `tangents_chk` of the
/// inputs.  Fails with `IndexOutOfBounds` exactly when a triangle index
/// does not name a vertex, and with `NumericOverflow` exactly when an
/// exact intermediate does not fit the scalar type.
#[verifier::rlimit(60)]
pub fn generate_tangents(
    indices: &Vec<u32>,
    positions: &Vec<Vec3>,
    normals: &Vec<Vec3>,
    uvs: &Vec<Vec2>,
) -> (r: Result<Vec<Vec4>, MeshError>)
    requires
        indices@.len() % 3 == 0,
        normals@.len() == positions@.len(),
        uvs@.len() == positions@.len(),
        v3s_wf(positions@),
        v3s_wf(normals@),
        v2s_wf(uvs@),
    ensures
        match r {
            Ok(t) => {
                &&& indices_in_range(indices@, positions@.len() as nat)
                &&& tangents_chk(
                    indices@,
                    v3_views(positions@),
                    v3_views(normals@),
                    v2_views(uvs@),
                ) == Some(v4_views(t@))
                &&& t@.len() == positions@.len()
                &&& forall|i: int|
                    0 <= i < t@.len() ==> (#[trigger] t@[i]).wf() && (t@[i].w@ == (1int, 1int)
                        || t@[i].w@ == (-1int, 1int))
            },
            Err(MeshError::IndexOutOfBounds) => !indices_in_range(
                indices@,
                positions@.len() as nat,
            ),
            Err(MeshError::NumericOverflow) => {
                &&& indices_in_range(indices@, positions@.len() as nat)
                &&& tangents_chk(
                    indices@,
                    v3_views(positions@),
                    v3_views(normals@),
                    v2_views(uvs@),
                ) is None
            },
        },
{
    let n = positions.len();
    let mut i: usize = 0;
    while i < indices.len()
        invariant
            0 <= i <= indices@.len(),
            n == positions@.len(),
            forall|j: int| 0 <= j < i ==> (#[trigger] indices@[j]) < n,
        decreases indices@.len() - i,
    {
        if indices[i] as usize >= n {
            return Err(MeshError::IndexOutOfBounds);
        }
        i += 1;
    }
    let ghost gidx = indices@;
    let ghost gpos = v3_views(positions@);
    let ghost gnor = v3_views(normals@);
    let ghost guv = v2_views(uvs@);
    let tri_count = indices.len() / 3;

    let mut tan1: Vec<Vec3> = Vec::new();
    let mut tan2: Vec<Vec3> = Vec::new();
    let mut j: usize = 0;
    while j < n
        invariant
            tan1@.len() == j,
            tan2@.len() == j,
            0 <= j <= n,
            forall|k: int| 0 <= k < j ==> (#[trigger] tan1@[k])@ == q3_zero() && tan1@[k].wf(),
            forall|k: int| 0 <= k < j ==> (#[trigger] tan2@[k])@ == q3_zero() && tan2@[k].wf(),
        decreases n - j,
    {
        tan1.push(Vec3::zero());
        tan2.push(Vec3::zero());
        j += 1;
    }
    proof {
        assert(v3_views(tan1@) =~= Seq::new(gpos.len(), |i: int| q3_zero()));
        assert(v3_views(tan2@) =~= Seq::new(gpos.len(), |i: int| q3_zero()));
        assert(acc_state(gidx, gpos, guv, 0) == Some((v3_views(tan1@), v3_views(tan2@))));
    }

    let mut t: usize = 0;
    while t < tri_count
        invariant
            0 <= t <= tri_count,
            tri_count == gidx.len() / 3,
            gidx.len() % 3 == 0,
            gidx.len() <= usize::MAX,
            gidx == indices@,
            gpos == v3_views(positions@),
            guv == v2_views(uvs@),
            n == positions@.len(),
            normals@.len() == n,
            uvs@.len() == n,
            gpos.len() == n,
            guv.len() == n,
            indices_in_range(gidx, n as nat),
            v3s_wf(positions@),
            v2s_wf(uvs@),
            tan1@.len() == n,
            tan2@.len() == n,
            v3s_wf(tan1@),
            v3s_wf(tan2@),
            acc_state(gidx, gpos, guv, t as nat) == Some((v3_views(tan1@), v3_views(tan2@))),
        decreases tri_count - t,
    {
        proof {
            vstd::arithmetic::div_mod::lemma_fundamental_div_mod(gidx.len() as int, 3);
            assert(3 * t + 2 < gidx.len());
        }
        let i1 = indices[3 * t] as usize;
        let i2 = indices[3 * t + 1] as usize;
        let i3 = indices[3 * t + 2] as usize;
        let dirs = tri_dirs_exec(
            &positions[i1],
            &positions[i2],
            &positions[i3],
            &uvs[i1],
            &uvs[i2],
            &uvs[i3],
        );
        let ghost st = (v3_views(tan1@), v3_views(tan2@));
        let ghost gdirs = tri_dirs(gpos[i1 as int], gpos[i2 as int], gpos[i3 as int],
            guv[i1 as int], guv[i2 as int], guv[i3 as int]);
        proof {
            assert(acc_state(gidx, gpos, guv, (t + 1) as nat) == acc_step(st, i1 as int, i2 as int,
                i3 as int, gdirs));
        }
        let (sd, td) = match dirs {
            Some(d) => d,
            None => {
                proof {
                    lemma_acc_none_mono(gidx, gpos, guv, (t + 1) as nat, tri_count as nat);
                }
                return Err(MeshError::NumericOverflow);
            },
        };
        let ghost d0 = sd@;
        let ghost d1 = td@;
        let ghost s0 = v3_views(tan1@);
        let ghost u0 = v3_views(tan2@);

        if !bump_exec(&mut tan1, i1, &sd) {
            proof {
                lemma_acc_none_mono(gidx, gpos, guv, (t + 1) as nat, tri_count as nat);
            }
            return Err(MeshError::NumericOverflow);
        }
        if !bump_exec(&mut tan1, i2, &sd) {
            proof {
                lemma_acc_none_mono(gidx, gpos, guv, (t + 1) as nat, tri_count as nat);
            }
            return Err(MeshError::NumericOverflow);
        }
        if !bump_exec(&mut tan1, i3, &sd) {
            proof {
                lemma_acc_none_mono(gidx, gpos, guv, (t + 1) as nat, tri_count as nat);
            }
            return Err(MeshError::NumericOverflow);
        }
        proof {
            assert(o_bump(o_bump(bump(s0, i1 as int, d0), i2 as int, d0), i3 as int, d0)
                == Some(v3_views(tan1@)));
        }
        if !bump_exec(&mut tan2, i1, &td) {
            proof {
                lemma_acc_none_mono(gidx, gpos, guv, (t + 1) as nat, tri_count as nat);
            }
            return Err(MeshError::NumericOverflow);
        }
        if !bump_exec(&mut tan2, i2, &td) {
            proof {
                lemma_acc_none_mono(gidx, gpos, guv, (t + 1) as nat, tri_count as nat);
            }
            return Err(MeshError::NumericOverflow);
        }
        if !bump_exec(&mut tan2, i3, &td) {
            proof {
                lemma_acc_none_mono(gidx, gpos, guv, (t + 1) as nat, tri_count as nat);
            }
            return Err(MeshError::NumericOverflow);
        }
        proof {
            assert(o_bump(o_bump(bump(u0, i1 as int, d1), i2 as int, d1), i3 as int, d1)
                == Some(v3_views(tan2@)));
            assert(acc_state(gidx, gpos, guv, (t + 1) as nat) == Some(
                (v3_views(tan1@), v3_views(tan2@)),
            ));
        }
        t += 1;
    }

    let ghost gtan1 = v3_views(tan1@);
    let ghost gtan2 = v3_views(tan2@);
    let mut out: Vec<Vec4> = Vec::new();
    let mut v: usize = 0;
    while v < n
        invariant
            0 <= v <= n,
            n == positions@.len(),
            gidx == indices@,
            gpos == v3_views(positions@),
            guv == v2_views(uvs@),
            gnor == v3_views(normals@),
            gtan1 == v3_views(tan1@),
            gtan2 == v3_views(tan2@),
            gpos.len() == n,
            gnor.len() == n,
            indices_in_range(gidx, n as nat),
            tan1@.len() == n,
            tan2@.len() == n,
            normals@.len() == n,
            v3s_wf(normals@),
            v3s_wf(tan1@),
            v3s_wf(tan2@),
            out@.len() == v,
            out_seq(gnor, gtan1, gtan2, v as nat) == Some(v4_views(out@)),
            forall|k: int|
                0 <= k < v ==> (#[trigger] out@[k]).wf() && (out@[k].w@ == (1int, 1int)
                    || out@[k].w@ == (-1int, 1int)),
            acc_state(gidx, gpos, guv, gidx.len() / 3) == Some((gtan1, gtan2)),
        decreases n - v,
    {
        let w = match handedness_exec(&normals[v], &tan1[v], &tan2[v]) {
            Some(w) => w,
            None => {
                proof {
                    assert(out_seq(gnor, gtan1, gtan2, (v + 1) as nat) is None);
                    lemma_out_none_mono(gnor, gtan1, gtan2, (v + 1) as nat, n as nat);
                    assert(gpos.len() == n);
                    assert(tangents_chk(gidx, gpos, gnor, guv) is None);
                }
                return Err(MeshError::NumericOverflow);
            },
        };
        let tv = tan1[v];
        let ghost oldout = out@;
        out.push(Vec4 { x: tv.x, y: tv.y, z: tv.z, w });
        proof {
            lemma_views_push4(oldout, Vec4 { x: tv.x, y: tv.y, z: tv.z, w });
        }
        v += 1;
    }
    Ok(out)
}

} // verus!
