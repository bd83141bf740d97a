//! The flat quad mesh: four vertices in the XY plane, two triangles, with a
//! tangent basis embedded by the generator.

use crate::geom::{q3_zero, q_zero, v2_views, v2s_wf, v3_views, v3s_wf, v4_views, Q2, Q3, Vec2,
    Vec3, Vec4};
use crate::rat::{lemma_norm_props, q_chk, q_eq, q_le, q_neg, q_wf, Q, Rat};
use crate::tangent::{generate_tangents, indices_in_range, tangents_chk, MeshError};
use vstd::prelude::*;

verus! {

/// A mesh as parallel per-vertex attribute arrays plus optional triangle
/// indices, three consecutive indices forming one triangle.
pub struct Mesh {
    pub positions: Vec<Vec3>,
    pub normals: Vec<Vec3>,
    pub uvs: Vec<Vec2>,
    pub tangents: Vec<Vec4>,
    pub indices: Option<Vec<u32>>,
}

impl Mesh {
    pub open spec fn wf(self) -> bool {
        &&& self.normals@.len() == self.positions@.len()
        &&& self.uvs@.len() == self.positions@.len()
        &&& self.tangents@.len() == self.positions@.len()
        &&& v3s_wf(self.positions@)
        &&& v3s_wf(self.normals@)
        &&& v2s_wf(self.uvs@)
        &&& forall|i: int| 0 <= i < self.tangents@.len() ==> (#[trigger] self.tangents@[i]).wf()
        &&& match self.indices {
            Some(ix) => ix@.len() % 3 == 0 && indices_in_range(
                ix@,
                self.positions@.len() as nat,
            ),
            None => true,
        }
    }
}

/// Half of a dimension: the extent of the quad from the origin.
pub open spec fn q_half(a: Q) -> Q {
    (a.0, 2 * a.1)
}

/// The quad's fixed index list: two triangles, front-facing towards +Z.
pub open spec fn quad_indices() -> Seq<u32> {
    seq![0u32, 2u32, 1u32, 0u32, 3u32, 2u32]
}

/// Corner order: south-west, north-west, north-east, south-east.
pub open spec fn quad_positions(hx: Q, hy: Q) -> Seq<Q3> {
    seq![
        (q_neg(hx), q_neg(hy), q_zero()),
        (q_neg(hx), hy, q_zero()),
        (hx, hy, q_zero()),
        (hx, q_neg(hy), q_zero()),
    ]
}

pub open spec fn quad_normal() -> Q3 {
    (q_zero(), q_zero(), (1int, 1int))
}

pub open spec fn quad_normals() -> Seq<Q3> {
    seq![quad_normal(), quad_normal(), quad_normal(), quad_normal()]
}

/// Top-left-origin texture convention: south-west maps to (0,1), north-west
/// to (0,0), north-east to (1,0), south-east to (1,1).
pub open spec fn quad_uvs() -> Seq<Q2> {
    seq![
        ((0int, 1int), (1int, 1int)),
        ((0int, 1int), (0int, 1int)),
        ((1int, 1int), (0int, 1int)),
        ((1int, 1int), (1int, 1int)),
    ]
}

/// The tangent array the quad embeds, as the tangent generator computes it.
pub open spec fn quad_tangents(hx: Q, hy: Q) -> Option<Seq<crate::geom::Q4>> {
    tangents_chk(quad_indices(), quad_positions(hx, hy), quad_normals(), quad_uvs())
}

/// Builds the quad mesh for the given dimensions: corners at
/// `(±width/2, ±height/2, 0)`, normals all `(0,0,1)`, the fixed UV square,
/// indices `[0,2,1, 0,3,2]`, and tangents from `generate_tangents` over
/// exactly those arrays.  Zero and negative dimensions are accepted and give
/// a degenerate quad.  Fails only when an exact intermediate overflows.
pub fn build_quad(width: Rat, height: Rat) -> (r: Result<Mesh, MeshError>)
    requires
        width.wf(),
        height.wf(),
    ensures
        ({
            let ohx = q_chk(q_half(width@));
            let ohy = q_chk(q_half(height@));
            match r {
                Ok(m) => {
                    &&& m.wf()
                    &&& m.positions@.len() == 4
                    &&& m.tangents@.len() == 4
                    &&& m.indices matches Some(ix) && ix@ == quad_indices()
                    &&& ohx matches Some(hx) && ohy matches Some(hy) && {
                        &&& v3_views(m.positions@) == quad_positions(hx, hy)
                        &&& v3_views(m.normals@) == quad_normals()
                        &&& v2_views(m.uvs@) == quad_uvs()
                        &&& quad_tangents(hx, hy) == Some(v4_views(m.tangents@))
                        &&& q_eq(hx, q_half(width@))
                        &&& q_eq(hy, q_half(height@))
                    }
                },
                Err(MeshError::IndexOutOfBounds) => false,
                Err(MeshError::NumericOverflow) => {
                    ||| ohx is None
                    ||| ohy is None
                    ||| (ohx matches Some(hx) && ohy matches Some(hy) && quad_tangents(
                        hx,
                        hy,
                    ) is None)
                },
            }
        }),
{
    let hx = match width.half() {
        Some(v) => v,
        None => {
            return Err(MeshError::NumericOverflow);
        },
    };
    let hy = match height.half() {
        Some(v) => v,
        None => {
            return Err(MeshError::NumericOverflow);
        },
    };
    let nhx = hx.neg();
    let nhy = hy.neg();
    let z = Rat::zero();
    let one = Rat::one();

    let mut positions: Vec<Vec3> = Vec::new();
    positions.push(Vec3 { x: nhx, y: nhy, z });
    positions.push(Vec3 { x: nhx, y: hy, z });
    positions.push(Vec3 { x: hx, y: hy, z });
    positions.push(Vec3 { x: hx, y: nhy, z });

    let mut normals: Vec<Vec3> = Vec::new();
    normals.push(Vec3 { x: z, y: z, z: one });
    normals.push(Vec3 { x: z, y: z, z: one });
    normals.push(Vec3 { x: z, y: z, z: one });
    normals.push(Vec3 { x: z, y: z, z: one });

    let mut uvs: Vec<Vec2> = Vec::new();
    uvs.push(Vec2 { x: z, y: one });
    uvs.push(Vec2 { x: z, y: z });
    uvs.push(Vec2 { x: one, y: z });
    uvs.push(Vec2 { x: one, y: one });

    let mut indices: Vec<u32> = Vec::new();
    indices.push(0);
    indices.push(2);
    indices.push(1);
    indices.push(0);
    indices.push(3);
    indices.push(2);

    proof {
        lemma_norm_props(q_half(width@));
        lemma_norm_props(q_half(height@));
        assert(indices@ =~= quad_indices());
        assert(v3_views(positions@) =~= quad_positions(hx@, hy@));
        assert(v3_views(normals@) =~= quad_normals());
        assert(v2_views(uvs@) =~= quad_uvs());
        assert(indices_in_range(indices@, 4nat));
    }

    let tangents = match generate_tangents(&indices, &positions, &normals, &uvs) {
        Ok(t) => t,
        Err(e) => {
            return Err(MeshError::NumericOverflow);
        },
    };
    Ok(Mesh { positions, normals, uvs, tangents, indices: Some(indices) })
}

/// For positive dimensions, every corner of the quad lies within half the
/// width and half the height of the origin, exactly on the Z = 0 plane, and
/// every UV coordinate lies in the unit square.
pub proof fn lemma_quad_bounds(hx: Q, hy: Q, w: Q, h: Q)
    requires
        q_wf(w),
        q_wf(h),
        q_wf(hx),
        q_wf(hy),
        q_eq(hx, q_half(w)),
        q_eq(hy, q_half(h)),
        w.0 > 0,
        h.0 > 0,
    ensures
        forall|k: int|
            0 <= k < 4 ==> {
                let p = #[trigger] quad_positions(hx, hy)[k];
                &&& q_le(q_neg(q_half(w)), p.0) && q_le(p.0, q_half(w))
                &&& q_le(q_neg(q_half(h)), p.1) && q_le(p.1, q_half(h))
                &&& p.2 == q_zero()
            },
        forall|k: int|
            0 <= k < 4 ==> {
                let u = #[trigger] quad_uvs()[k];
                &&& q_le(q_zero(), u.0) && q_le(u.0, (1int, 1int))
                &&& q_le(q_zero(), u.1) && q_le(u.1, (1int, 1int))
            },
{
    let hw = q_half(w);
    let hh = q_half(h);
    let u0: Q2 = ((0int, 1int), (1int, 1int));
    let u1: Q2 = ((0int, 1int), (0int, 1int));
    let u2: Q2 = ((1int, 1int), (0int, 1int));
    let u3: Q2 = ((1int, 1int), (1int, 1int));
    assert(quad_uvs()[0] == u0 && quad_uvs()[1] == u1 && quad_uvs()[2] == u2 && quad_uvs()[3]
        == u3);
    let p0: Q3 = (q_neg(hx), q_neg(hy), q_zero());
    let p1: Q3 = (q_neg(hx), hy, q_zero());
    let p2: Q3 = (hx, hy, q_zero());
    let p3: Q3 = (hx, q_neg(hy), q_zero());
    assert(quad_positions(hx, hy)[0] == p0 && quad_positions(hx, hy)[1] == p1 && quad_positions(
        hx,
        hy,
    )[2] == p2 && quad_positions(hx, hy)[3] == p3);
    assert(q_le(hx, hw) && q_le(q_neg(hw), q_neg(hx))) by (nonlinear_arith)
        requires
            q_eq(hx, hw),
            q_wf(hx),
            q_wf(hw),
    ;
    assert(q_le(q_neg(hw), hx) && q_le(q_neg(hx), hw)) by (nonlinear_arith)
        requires
            q_eq(hx, hw),
            q_wf(hx),
            q_wf(hw),
            hw.0 > 0,
    ;
    assert(q_le(hy, hh) && q_le(q_neg(hh), q_neg(hy))) by (nonlinear_arith)
        requires
            q_eq(hy, hh),
            q_wf(hy),
            q_wf(hh),
    ;
    assert(q_le(q_neg(hh), hy) && q_le(q_neg(hy), hh)) by (nonlinear_arith)
        requires
            q_eq(hy, hh),
            q_wf(hy),
            q_wf(hh),
            hh.0 > 0,
    ;
}

/// The quad's dimensions as a record, sized by a caller-supplied extent.
pub struct ShadedQuad {
    pub x: Rat,
    pub y: Rat,
}

impl ShadedQuad {
    pub open spec fn wf(self) -> bool {
        self.x.wf() && self.y.wf()
    }

    pub fn new(size: Vec2) -> (r: ShadedQuad)
        ensures
            r.x == size.x,
            r.y == size.y,
    {
        ShadedQuad { x: size.x, y: size.y }
    }

    /// The quad as a mesh; see `build_quad`.
    pub fn to_mesh(&self) -> (r: Result<Mesh, MeshError>)
        requires
            self.wf(),
        ensures
            ({
                let ohx = q_chk(q_half(self.x@));
                let ohy = q_chk(q_half(self.y@));
                match r {
                    Ok(m) => {
                        &&& m.wf()
                        &&& m.positions@.len() == 4
                        &&& m.indices matches Some(ix) && ix@ == quad_indices()
                        &&& ohx matches Some(hx) && ohy matches Some(hy) && {
                            &&& v3_views(m.positions@) == quad_positions(hx, hy)
                            &&& v3_views(m.normals@) == quad_normals()
                            &&& v2_views(m.uvs@) == quad_uvs()
                            &&& quad_tangents(hx, hy) == Some(v4_views(m.tangents@))
                        }
                    },
                    Err(MeshError::IndexOutOfBounds) => false,
                    Err(MeshError::NumericOverflow) => {
                        ||| ohx is None
                        ||| ohy is None
                        ||| (ohx matches Some(hx) && ohy matches Some(hy) && quad_tangents(
                            hx,
                            hy,
                        ) is None)
                    },
                }
            }),
    {
        build_quad(self.x, self.y)
    }
}

} // verus!
