use shaded_sprite::geom::{Vec2, Vec3, Vec4};
use shaded_sprite::quad::{build_quad, ShadedQuad};
use shaded_sprite::rat::Rat;
use shaded_sprite::tangent::{generate_tangents, MeshError};

fn r(n: i64, d: i64) -> Rat {
    Rat::new(n, d).unwrap()
}

fn v3(xn: i64, xd: i64, yn: i64, yd: i64, zn: i64, zd: i64) -> Vec3 {
    Vec3::new(r(xn, xd), r(yn, yd), r(zn, zd))
}

#[test]
fn unit_quad_has_four_vertices_and_two_triangles() {
    let m = build_quad(r(1, 1), r(1, 1)).unwrap();
    assert_eq!(m.positions.len(), 4);
    assert_eq!(m.normals.len(), 4);
    assert_eq!(m.uvs.len(), 4);
    assert_eq!(m.tangents.len(), 4);
    assert_eq!(m.indices.as_ref().unwrap().as_slice(), &[0, 2, 1, 0, 3, 2]);
}

#[test]
fn unit_quad_corners_sit_at_half_extents_on_the_xy_plane() {
    let m = build_quad(r(1, 1), r(1, 1)).unwrap();
    let h = r(1, 2);
    let nh = r(-1, 2);
    // south-west, north-west, north-east, south-east
    assert_eq!(m.positions[0], Vec3::new(nh, nh, Rat::zero()));
    assert_eq!(m.positions[1], Vec3::new(nh, h, Rat::zero()));
    assert_eq!(m.positions[2], Vec3::new(h, h, Rat::zero()));
    assert_eq!(m.positions[3], Vec3::new(h, nh, Rat::zero()));
    for p in m.positions.iter() {
        assert!(nh.le_val(p.x) && p.x.le_val(h));
        assert!(nh.le_val(p.y) && p.y.le_val(h));
        assert_eq!(p.z, Rat::zero());
    }
}

#[test]
fn quad_uvs_follow_the_top_left_origin_convention() {
    let m = build_quad(r(2, 1), r(3, 1)).unwrap();
    let z = Rat::zero();
    let o = Rat::one();
    assert_eq!(m.uvs[0], Vec2::new(z, o));
    assert_eq!(m.uvs[1], Vec2::new(z, z));
    assert_eq!(m.uvs[2], Vec2::new(o, z));
    assert_eq!(m.uvs[3], Vec2::new(o, o));
    for uv in m.uvs.iter() {
        assert!(z.le_val(uv.x) && uv.x.le_val(o));
        assert!(z.le_val(uv.y) && uv.y.le_val(o));
    }
}

#[test]
fn quad_normals_face_positive_z() {
    let m = build_quad(r(5, 2), r(7, 3)).unwrap();
    for n in m.normals.iter() {
        assert_eq!(*n, Vec3::new(Rat::zero(), Rat::zero(), Rat::one()));
    }
}

#[test]
fn unit_quad_tangents_point_along_positive_x() {
    let m = build_quad(r(1, 1), r(1, 1)).unwrap();
    let o = Rat::one();
    let z = Rat::zero();
    let two = r(2, 1);
    // vertices 0 and 2 belong to both triangles, 1 and 3 to one each
    assert_eq!(m.tangents[0], Vec4 { x: two, y: z, z: z, w: o });
    assert_eq!(m.tangents[1], Vec4 { x: o, y: z, z: z, w: o });
    assert_eq!(m.tangents[2], Vec4 { x: two, y: z, z: z, w: o });
    assert_eq!(m.tangents[3], Vec4 { x: o, y: z, z: z, w: o });
}

#[test]
fn quad_scales_with_its_dimensions() {
    let m = build_quad(r(3, 1), r(5, 1)).unwrap();
    assert_eq!(m.positions[2], v3(3, 2, 5, 2, 0, 1));
    assert_eq!(m.positions[0], v3(-3, 2, -5, 2, 0, 1));
}

#[test]
fn shaded_quad_new_stores_the_size() {
    let q = ShadedQuad::new(Vec2::new(r(4, 1), r(2, 1)));
    assert_eq!(q.x, r(4, 1));
    assert_eq!(q.y, r(2, 1));
    let m = q.to_mesh().unwrap();
    assert_eq!(m.positions[2], v3(2, 1, 1, 1, 0, 1));
}

#[test]
fn generator_reproduces_the_embedded_tangents() {
    // feeding the quad's own arrays back through the generator is a
    // round trip: it must rebuild exactly the embedded tangent array
    let m = build_quad(r(1, 1), r(1, 1)).unwrap();
    let indices = m.indices.clone().unwrap();
    let again = generate_tangents(&indices, &m.positions, &m.normals, &m.uvs).unwrap();
    assert_eq!(again, m.tangents);
}

#[test]
fn tangents_ignore_triangle_enumeration_order() {
    // the quad's two triangles, listed in either order
    let m = build_quad(r(1, 1), r(1, 1)).unwrap();
    let swapped: Vec<u32> = vec![0, 3, 2, 0, 2, 1];
    let out = generate_tangents(&swapped, &m.positions, &m.normals, &m.uvs).unwrap();
    assert_eq!(out, m.tangents);
}

#[test]
fn handedness_is_exactly_plus_or_minus_one() {
    // a closed planar patch of two triangles with mirrored UVs on one side
    let positions = vec![
        v3(0, 1, 0, 1, 0, 1),
        v3(1, 1, 0, 1, 0, 1),
        v3(1, 1, 1, 1, 0, 1),
        v3(0, 1, 1, 1, 0, 1),
    ];
    let normals = vec![v3(0, 1, 0, 1, 1, 1); 4];
    let uvs = vec![
        Vec2::new(Rat::zero(), Rat::zero()),
        Vec2::new(Rat::one(), Rat::zero()),
        Vec2::new(Rat::one(), Rat::one()),
        Vec2::new(Rat::zero(), Rat::one()),
    ];
    let indices: Vec<u32> = vec![0, 1, 2, 0, 2, 3];
    let out = generate_tangents(&indices, &positions, &normals, &uvs).unwrap();
    assert_eq!(out.len(), 4);
    for t in out.iter() {
        assert!(t.w == Rat::one() || t.w == Rat::one().neg());
    }
}

#[test]
fn degenerate_uv_triangle_contributes_zero() {
    // all three UVs equal: the UV determinant is zero, so the triangle
    // contributes nothing and the handedness defaults to +1
    let positions = vec![v3(0, 1, 0, 1, 0, 1), v3(1, 1, 0, 1, 0, 1), v3(0, 1, 1, 1, 0, 1)];
    let normals = vec![v3(0, 1, 0, 1, 1, 1); 3];
    let uvs = vec![Vec2::new(r(1, 2), r(1, 2)); 3];
    let indices: Vec<u32> = vec![0, 1, 2];
    let out = generate_tangents(&indices, &positions, &normals, &uvs).unwrap();
    for t in out.iter() {
        assert_eq!(t.x, Rat::zero());
        assert_eq!(t.y, Rat::zero());
        assert_eq!(t.z, Rat::zero());
        assert_eq!(t.w, Rat::one());
    }
}

#[test]
fn out_of_range_index_is_reported() {
    let positions = vec![v3(0, 1, 0, 1, 0, 1), v3(1, 1, 0, 1, 0, 1), v3(0, 1, 1, 1, 0, 1)];
    let normals = vec![v3(0, 1, 0, 1, 1, 1); 3];
    let uvs = vec![Vec2::new(Rat::zero(), Rat::zero()); 3];
    let indices: Vec<u32> = vec![0, 1, 3];
    let out = generate_tangents(&indices, &positions, &normals, &uvs);
    assert_eq!(out.unwrap_err(), MeshError::IndexOutOfBounds);
}

#[test]
fn numeric_overflow_is_reported() {
    // the position-space edge MAX - (-MAX) cannot be represented
    let positions = vec![
        v3(i64::MAX, 1, 0, 1, 0, 1),
        v3(-i64::MAX, 1, 0, 1, 0, 1),
        v3(0, 1, 1, 1, 0, 1),
    ];
    let normals = vec![v3(0, 1, 0, 1, 1, 1); 3];
    let uvs = vec![
        Vec2::new(Rat::zero(), Rat::zero()),
        Vec2::new(Rat::one(), Rat::zero()),
        Vec2::new(Rat::zero(), Rat::one()),
    ];
    let indices: Vec<u32> = vec![0, 1, 2];
    let out = generate_tangents(&indices, &positions, &normals, &uvs);
    assert_eq!(out.unwrap_err(), MeshError::NumericOverflow);
}
