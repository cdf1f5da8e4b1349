use pawngfx::error::FileError;
use pawngfx::geometry::bake::{
    accumulate, bake_normals, bake_tangents, face_normal, face_normals, tangent_frame,
    tangent_frames,
};
use pawngfx::geometry::{Indices, Mesh};
use pawngfx::math::{Vector2, Vector3};

type V3 = Vector3<f64>;
type V2 = Vector2<f64>;

const ZERO: V3 = Vector3 { x: 0.0, y: 0.0, z: 0.0 };

fn v3(x: f64, y: f64, z: f64) -> V3 {
    Vector3::new(x, y, z)
}

fn v2(x: f64, y: f64) -> V2 {
    Vector2::new(x, y)
}

fn magnitude(v: V3) -> f64 {
    (v.x * v.x + v.y * v.y + v.z * v.z).sqrt()
}

fn unit(v: V3) -> V3 {
    let m = magnitude(v);
    if m > 0.0 {
        v3(v.x / m, v.y / m, v.z / m)
    } else {
        v
    }
}

fn cube() -> (Vec<V3>, Indices) {
    let vertices = vec![
        v3(-1.0, -1.0, -1.0),
        v3(1.0, -1.0, -1.0),
        v3(1.0, 1.0, -1.0),
        v3(-1.0, 1.0, -1.0),
        v3(-1.0, -1.0, 1.0),
        v3(1.0, -1.0, 1.0),
        v3(1.0, 1.0, 1.0),
        v3(-1.0, 1.0, 1.0),
    ];
    let faces = vec![
        0, 2, 1, 0, 3, 2, 4, 5, 6, 4, 6, 7, 0, 7, 3, 0, 4, 7, 1, 2, 6, 1, 6, 5, 3, 7, 6, 3, 6, 2,
        0, 1, 5, 0, 5, 4,
    ];
    (vertices, Indices { v: faces, n: vec![], uv: vec![] })
}

fn quad() -> (Vec<V3>, Vec<V2>, Indices) {
    let vertices = vec![v3(0.0, 0.0, 0.0), v3(1.0, 0.0, 0.0), v3(0.0, 1.0, 0.0), v3(1.0, 1.0, 0.0)];
    let uv = vec![v2(0.0, 0.0), v2(1.0, 0.0), v2(0.0, 1.0), v2(1.0, 1.0)];
    let indices = Indices { v: vec![0, 1, 2, 2, 1, 3], n: vec![], uv: vec![0, 1, 2, 2, 1, 3] };
    (vertices, uv, indices)
}

#[test]
fn accumulate_sums_shares_per_corner() {
    let corners = vec![0usize, 1, 2, 2, 1, 3];
    let shares = vec![Some(v3(1.0, 0.0, 0.0)), Some(v3(0.0, 2.0, 0.0))];
    let sums = accumulate(4, &corners, &shares, ZERO);
    assert_eq!(sums, vec![v3(1.0, 0.0, 0.0), v3(1.0, 2.0, 0.0), v3(1.0, 2.0, 0.0), v3(0.0, 2.0, 0.0)]);
}

#[test]
fn accumulate_adds_once_per_corner_of_a_repeated_vertex() {
    let corners = vec![1usize, 1, 0];
    let shares = vec![Some(v3(0.5, 0.0, 0.0))];
    let sums = accumulate(3, &corners, &shares, ZERO);
    assert_eq!(sums, vec![v3(0.5, 0.0, 0.0), v3(1.0, 0.0, 0.0), ZERO]);
}

#[test]
fn accumulate_without_triangles_leaves_zeros() {
    let sums = accumulate(2, &vec![], &Vec::<Option<V3>>::new(), ZERO);
    assert_eq!(sums, vec![ZERO, ZERO]);
    let none = accumulate(0, &vec![], &Vec::<Option<V3>>::new(), ZERO);
    assert!(none.is_empty());
}

#[test]
fn accumulate_ignores_a_trailing_partial_triangle() {
    let corners = vec![0usize, 1, 2, 0, 1];
    let shares = vec![Some(v3(1.0, 1.0, 1.0))];
    let sums = accumulate(3, &corners, &shares, ZERO);
    assert_eq!(sums, vec![v3(1.0, 1.0, 1.0); 3]);
}

#[test]
fn accumulate_works_on_whole_numbers() {
    let sums = accumulate(2, &vec![0usize, 1, 1], &vec![Some(5i64)], 0i64);
    assert_eq!(sums, vec![5, 10]);
}

#[test]
fn degenerate_triangle_adds_nothing() {
    let corners = vec![0usize, 1, 2, 2, 1, 3, 3, 4, 4];
    let shares = vec![Some(v3(1.0, 0.0, 0.0)), None, None];
    let sums = accumulate(5, &corners, &shares, ZERO);
    assert_eq!(sums, vec![v3(1.0, 0.0, 0.0), v3(1.0, 0.0, 0.0), v3(1.0, 0.0, 0.0), ZERO, ZERO]);
    let without = accumulate(5, &vec![0usize, 1, 2], &vec![Some(v3(1.0, 0.0, 0.0))], ZERO);
    assert_eq!(sums, without);
}

#[test]
fn face_normal_is_the_cross_product_of_two_edges() {
    assert_eq!(face_normal(v3(0.0, 0.0, 0.0), v3(1.0, 0.0, 0.0), v3(0.0, 1.0, 0.0)), v3(0.0, 0.0, 1.0));
    assert_eq!(face_normal(v3(0.0, 0.0, 0.0), v3(0.0, 1.0, 0.0), v3(1.0, 0.0, 0.0)), v3(0.0, 0.0, -1.0));
    assert_eq!(face_normal(v3(1.0, 1.0, 1.0), v3(3.0, 1.0, 1.0), v3(1.0, 4.0, 1.0)), v3(0.0, 0.0, 6.0));
    assert_eq!(
        face_normal(Vector3::new(0i64, 0, 0), Vector3::new(0, 0, 3), Vector3::new(0, 1, 0)),
        Vector3::new(-3, 0, 0)
    );
}

#[test]
fn face_normals_cover_every_whole_triangle() {
    let vertices = vec![v3(0.0, 0.0, 0.0), v3(1.0, 0.0, 0.0), v3(0.0, 1.0, 0.0), v3(0.0, 0.0, 3.0)];
    let indices = Indices { v: vec![0, 1, 2, 0, 3, 1, 2], n: vec![], uv: vec![] };
    assert_eq!(
        face_normals(&vertices, &indices),
        vec![Some(v3(0.0, 0.0, 1.0)), Some(v3(0.0, 3.0, 0.0))]
    );
}

#[test]
fn tangent_frame_follows_the_uv_axes() {
    let v = (v3(0.0, 0.0, 0.0), v3(1.0, 0.0, 0.0), v3(0.0, 1.0, 0.0));
    let uv = (v2(0.0, 0.0), v2(1.0, 0.0), v2(0.0, 1.0));
    assert_eq!(tangent_frame(v, uv, 1e-12), Some((v3(1.0, 0.0, 0.0), v3(0.0, 1.0, 0.0))));
    let stretched = (v2(0.0, 0.0), v2(2.0, 0.0), v2(0.0, 4.0));
    assert_eq!(tangent_frame(v, stretched, 1e-12), Some((v3(0.5, 0.0, 0.0), v3(0.0, 0.25, 0.0))));
    let flipped = (v2(0.0, 0.0), v2(0.0, 1.0), v2(1.0, 0.0));
    assert_eq!(tangent_frame(v, flipped, 1e-12), Some((v3(0.0, 1.0, 0.0), v3(1.0, 0.0, 0.0))));
}

#[test]
fn tangent_frame_of_collinear_uvs_is_absent() {
    let v = (v3(0.0, 0.0, 0.0), v3(1.0, 0.0, 0.0), v3(0.0, 1.0, 0.0));
    assert_eq!(tangent_frame(v, (v2(0.0, 0.0), v2(0.5, 0.5), v2(1.0, 1.0)), 1e-12), None);
    assert_eq!(tangent_frame(v, (v2(0.3, 0.3), v2(0.3, 0.3), v2(0.3, 0.3)), 1e-12), None);
    assert_eq!(tangent_frame(v, (v2(0.0, 0.0), v2(1e-7, 0.0), v2(0.0, 1e-7)), 1e-12), None);
    assert_eq!(tangent_frame(v, (v2(0.0, 0.0), v2(f64::NAN, 0.0), v2(0.0, 1.0)), 1e-12), None);
    assert!(tangent_frame(v, (v2(0.0, 0.0), v2(1e-5, 0.0), v2(0.0, 1e-5)), 1e-12).is_some());
    assert!(tangent_frame(v, (v2(0.0, 0.0), v2(0.0, 1.0), v2(1.0, 0.0)), 1e-12).is_some());
}

#[test]
fn tangent_frames_pair_up_per_triangle() {
    let (vertices, mut uv, indices) = quad();
    uv[3] = v2(0.5, 0.5);
    let (tangents, bi_tangents) = tangent_frames(&vertices, &uv, &indices, 1e-12);
    assert_eq!(tangents, vec![Some(v3(1.0, 0.0, 0.0)), None]);
    assert_eq!(bi_tangents, vec![Some(v3(0.0, 1.0, 0.0)), None]);
}

#[test]
fn baked_normals_have_unit_length() {
    let (vertices, indices) = cube();
    let mesh = Mesh::new(vertices, vec![], indices, vec![], 1e-12, unit).unwrap();
    assert_eq!(mesh.normals.len(), 8);
    for n in &mesh.normals {
        assert!((magnitude(*n) - 1.0).abs() < 1e-6);
    }
    let third = 1.0 / 3f64.sqrt();
    assert!((mesh.normals[6].x - third).abs() < 1e-12);
    assert!((mesh.normals[6].y - third).abs() < 1e-12);
    assert!((mesh.normals[6].z - third).abs() < 1e-12);
    assert_eq!(mesh.indices.n, mesh.indices.v);
    assert_eq!(mesh.indices.uv, vec![0; 36]);
    assert!(mesh.tangents.is_empty() && mesh.bi_tangents.is_empty());
}

#[test]
fn baked_normals_sum_unweighted_face_normals() {
    let vertices = vec![v3(0.0, 0.0, 0.0), v3(1.0, 0.0, 0.0), v3(0.0, 1.0, 0.0), v3(0.0, 0.0, 3.0)];
    let mut indices = Indices { v: vec![0, 1, 2, 0, 3, 1], n: vec![], uv: vec![] };
    let sums = bake_normals(&vertices, &mut indices, &|v| v);
    assert_eq!(sums, vec![v3(0.0, 3.0, 1.0), v3(0.0, 3.0, 1.0), v3(0.0, 0.0, 1.0), v3(0.0, 3.0, 0.0)]);
    assert_eq!(indices.n, vec![0, 1, 2, 0, 3, 1]);
}

#[test]
fn baked_tangents_follow_the_uv_axes() {
    let (vertices, uv, indices) = quad();
    let mesh = Mesh::new(vertices, uv, indices, vec![], 1e-12, unit).unwrap();
    assert_eq!(mesh.normals, vec![v3(0.0, 0.0, 1.0); 4]);
    assert_eq!(mesh.tangents, vec![v3(1.0, 0.0, 0.0); 4]);
    assert_eq!(mesh.bi_tangents, vec![v3(0.0, 1.0, 0.0); 4]);
    assert_eq!(mesh.indices.n, vec![0, 1, 2, 2, 1, 3]);
    assert_eq!(mesh.indices.uv, vec![0, 1, 2, 2, 1, 3]);
}

#[test]
fn bake_tangents_sums_before_it_normalizes() {
    let (vertices, uv, indices) = quad();
    let (tangents, bi_tangents) = bake_tangents(&vertices, &uv, &indices, 1e-12, &|v| v);
    assert_eq!(tangents, vec![v3(1.0, 0.0, 0.0), v3(2.0, 0.0, 0.0), v3(2.0, 0.0, 0.0), v3(1.0, 0.0, 0.0)]);
    assert_eq!(bi_tangents, vec![v3(0.0, 1.0, 0.0), v3(0.0, 2.0, 0.0), v3(0.0, 2.0, 0.0), v3(0.0, 1.0, 0.0)]);
}

#[test]
fn degenerate_uv_triangle_injects_nothing() {
    let (vertices, mut uv, indices) = quad();
    uv[3] = v2(0.5, 0.5);
    let mesh = Mesh::new(vertices, uv, indices, vec![], 1e-12, unit).unwrap();
    assert_eq!(mesh.tangents, vec![v3(1.0, 0.0, 0.0), v3(1.0, 0.0, 0.0), v3(1.0, 0.0, 0.0), ZERO]);
    assert_eq!(mesh.bi_tangents, vec![v3(0.0, 1.0, 0.0), v3(0.0, 1.0, 0.0), v3(0.0, 1.0, 0.0), ZERO]);
    for v in mesh.tangents.iter().chain(&mesh.bi_tangents).chain(&mesh.normals) {
        assert!(!v.x.is_nan() && !v.y.is_nan() && !v.z.is_nan());
    }
}

#[test]
fn supplied_normals_are_kept() {
    let (vertices, uv, mut indices) = quad();
    indices.n = vec![0, 0, 0, 1, 1, 1];
    let normals = vec![v3(0.0, 0.0, 2.0), v3(0.0, 0.0, -2.0)];
    let mesh = Mesh::new(vertices, uv, indices, normals.clone(), 1e-12, unit).unwrap();
    assert_eq!(mesh.normals, normals);
    assert_eq!(mesh.indices.n, vec![0, 0, 0, 1, 1, 1]);
    assert_eq!(mesh.tangents.len(), 4);
}

#[test]
fn malformed_meshes_are_rejected() {
    let (vertices, uv, indices) = quad();
    let bad_position = Indices { v: vec![0, 1, 4, 2, 1, 3], ..quad().2 };
    assert!(matches!(
        Mesh::new(vertices.clone(), uv.clone(), bad_position, vec![], 1e-12, unit),
        Err(FileError::Invalid)
    ));
    let bad_uv = Indices { uv: vec![0, 1, 2, 2, 1, 4], ..quad().2 };
    assert!(matches!(
        Mesh::new(vertices.clone(), uv.clone(), bad_uv, vec![], 1e-12, unit),
        Err(FileError::Invalid)
    ));
    let short_uv = Indices { uv: vec![0, 1, 2], ..quad().2 };
    assert!(matches!(
        Mesh::new(vertices.clone(), uv.clone(), short_uv, vec![], 1e-12, unit),
        Err(FileError::Invalid)
    ));
    let partial = Indices { v: vec![0, 1, 2, 3], n: vec![], uv: vec![] };
    assert!(matches!(
        Mesh::new(vertices.clone(), vec![], partial, vec![], 1e-12, unit),
        Err(FileError::Invalid)
    ));
    let missing_normal_stream = vec![v3(0.0, 0.0, 1.0)];
    assert!(matches!(
        Mesh::new(vertices.clone(), uv.clone(), quad().2, missing_normal_stream, 1e-12, unit),
        Err(FileError::Invalid)
    ));
    assert!(Mesh::new(vertices, uv, indices, vec![], 1e-12, unit).is_ok());
}

#[test]
fn empty_mesh_bakes_to_an_empty_mesh() {
    let mesh = Mesh::<V3, V2>::new(vec![], vec![], Indices::default(), vec![], 1e-12, unit).unwrap();
    assert_eq!(mesh.vertex_count(), 0);
    assert_eq!(mesh.index_count(), 0);
    assert!(!mesh.has_normals());
}

#[test]
fn zero_uv_area_has_no_frame_whatever_the_threshold() {
    let v = (v3(0.0, 0.0, 0.0), v3(1.0, 0.0, 0.0), v3(0.0, 1.0, 0.0));
    let collinear = (v2(0.0, 0.0), v2(0.5, 0.5), v2(1.0, 1.0));
    let coincident = (v2(0.3, 0.3), v2(0.3, 0.3), v2(0.3, 0.3));
    for epsilon in [1e-12, 0.0, -0.0, -1.0, f64::NEG_INFINITY, f64::NAN] {
        assert_eq!(tangent_frame(v, collinear, epsilon), None);
        assert_eq!(tangent_frame(v, coincident, epsilon), None);
    }
    assert!(tangent_frame(v, (v2(0.0, 0.0), v2(1.0, 0.0), v2(0.0, 1.0)), 0.0).is_some());
}

#[test]
fn zero_uv_area_injects_nothing_whatever_the_threshold() {
    for epsilon in [0.0, -1.0] {
        let (vertices, mut uv, indices) = quad();
        uv[3] = v2(0.5, 0.5);
        let (tangents, bi_tangents) = bake_tangents(&vertices, &uv, &indices, epsilon, &|v| v);
        assert_eq!(tangents, vec![v3(1.0, 0.0, 0.0), v3(1.0, 0.0, 0.0), v3(1.0, 0.0, 0.0), ZERO]);
        assert_eq!(bi_tangents, vec![v3(0.0, 1.0, 0.0), v3(0.0, 1.0, 0.0), v3(0.0, 1.0, 0.0), ZERO]);
        let mesh = Mesh::new(vertices, uv, indices, vec![], epsilon, unit).unwrap();
        for v in mesh.tangents.iter().chain(&mesh.bi_tangents) {
            assert!(v.x.is_finite() && v.y.is_finite() && v.z.is_finite());
        }
    }
}

#[test]
fn baked_vectors_are_what_normalize_returns() {
    let (vertices, uv, indices) = quad();
    let marked = |_: V3| v3(7.0, 7.0, 7.0);
    let mesh = Mesh::new(vertices, uv, indices, vec![], 1e-12, marked).unwrap();
    assert_eq!(mesh.normals, vec![v3(7.0, 7.0, 7.0); 4]);
    assert_eq!(mesh.tangents, vec![v3(7.0, 7.0, 7.0); 4]);
    assert_eq!(mesh.bi_tangents, vec![v3(7.0, 7.0, 7.0); 4]);
}
