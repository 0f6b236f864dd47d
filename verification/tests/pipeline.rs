use cgmath::InnerSpace;

use objmesh::error::LoadError;
use objmesh::model::{Face, Vec2, Vec3, Vertex};
use objmesh::obj::parse;
use objmesh::parse::{RawModel, TokVec2, TokVec3};
use objmesh::reindex::{corner_indices, reindex};

fn to_lines(src: &str) -> Vec<Vec<u8>> {
    src.lines().map(|l| l.as_bytes().to_vec()).collect()
}

fn scalar(tok: &[u8]) -> u32 {
    String::from_utf8(tok.to_vec())
        .unwrap()
        .parse::<f32>()
        .unwrap()
        .to_bits()
}

fn v3(t: &TokVec3) -> Vec3 {
    Vec3 {
        x: scalar(&t.x),
        y: scalar(&t.y),
        z: scalar(&t.z),
    }
}

fn v2(t: &TokVec2) -> Vec2 {
    Vec2 {
        x: scalar(&t.x),
        y: scalar(&t.y),
    }
}

fn arrays(m: &RawModel) -> (Vec<Vec3>, Vec<Vec3>, Vec<Vec2>) {
    (
        m.positions.iter().map(v3).collect(),
        m.normals.iter().map(v3).collect(),
        m.tex_coords.iter().map(v2).collect(),
    )
}

fn cg(v: Vec3) -> cgmath::Vector3<f32> {
    cgmath::Vector3::new(
        f32::from_bits(v.x),
        f32::from_bits(v.y),
        f32::from_bits(v.z),
    )
}

fn flat_normal(p0: Vec3, p1: Vec3, p2: Vec3) -> Vec3 {
    let e1 = cg(p1) - cg(p0);
    let e2 = cg(p2) - cg(p0);
    let n = e1.cross(e2).normalize();
    Vec3 {
        x: n.x.to_bits(),
        y: n.y.to_bits(),
        z: n.z.to_bits(),
    }
}

fn flats(positions: &Vec<Vec3>, faces: &Vec<Face>) -> Result<Vec<Vec3>, LoadError> {
    let mut out = Vec::new();
    for f in faces {
        let (a, b, c) = corner_indices(f, positions.len())?;
        out.push(flat_normal(positions[a], positions[b], positions[c]));
    }
    Ok(out)
}

fn load_arrays(src: &str) -> Result<(Vec<Vertex>, Vec<u32>), LoadError> {
    let m = parse(&to_lines(src))?;
    let (ps, ns, ts) = arrays(&m);
    let fl = flats(&ps, &m.faces)?;
    reindex(&ps, &ns, &ts, &m.faces, &fl)
}

const TRIANGLE: &str = "\
v 0 0 0
v 1 0 0
v 0 1 0
vt 0 0
vt 1 0
vt 0 1
vn 0 0 1
vn 0 0 1
vn 1 0 0
f 1/1/1 2/2/2 3/3/3
";

#[test]
fn single_face_three_vertices() {
    let (verts, idxs) = load_arrays(TRIANGLE).unwrap();
    assert_eq!(verts.len(), 3);
    assert_eq!(idxs, vec![0, 1, 2]);
    assert_eq!(f32::from_bits(verts[1].position.x), 1.0);
    assert_eq!(f32::from_bits(verts[1].tex_coords.x), 1.0);
    assert_eq!(f32::from_bits(verts[2].normal.x), 1.0);
}

#[test]
fn quad_shares_two_keys() {
    let src = "\
v 0 0 0
v 1 0 0
v 1 1 0
v 0 1 0
f 1 2 3
f 1 3 4
";
    let (verts, idxs) = load_arrays(src).unwrap();
    assert_eq!(verts.len(), 4);
    assert_eq!(idxs.len(), 6);
    assert_eq!(idxs, vec![0, 1, 2, 0, 2, 3]);
    // the shared keys resolve to the same index values in both faces
    assert_eq!(idxs[0], idxs[3]);
    assert_eq!(idxs[2], idxs[4]);
}

#[test]
fn missing_texture_index_defaults_to_zero() {
    let src = "\
v 0 0 0
v 1 0 0
v 0 1 0
vn 0 0 1
vn 0 1 0
vn 1 0 0
f 1//3 2//1 3//2
";
    let (verts, _idxs) = load_arrays(src).unwrap();
    assert_eq!(verts[0].tex_coords, Vec2 { x: 0, y: 0 });
    // the normal comes from the parsed normal slot 3, not the flat normal
    assert_eq!(f32::from_bits(verts[0].normal.x), 1.0);
    assert_eq!(f32::from_bits(verts[0].normal.z), 0.0);
}

#[test]
fn position_only_takes_flat_normal() {
    let src = "\
v 0 0 0
v 1 0 0
v 0 1 0
f 1 2 3
";
    let (verts, _idxs) = load_arrays(src).unwrap();
    // normalize(cross(P1-P0, P2-P0)) of this triangle is the unit z axis
    assert_eq!(f32::from_bits(verts[0].normal.x), 0.0);
    assert_eq!(f32::from_bits(verts[0].normal.y), 0.0);
    assert_eq!(f32::from_bits(verts[0].normal.z), 1.0);
    assert_eq!(verts[1].normal, verts[0].normal);
}

#[test]
fn flat_normal_matches_formula() {
    let src = "\
v 0.5 -1.25 2
v 3 0.75 -0.5
v -1 2.25 4.5
f 1 2 3
";
    let m = parse(&to_lines(src)).unwrap();
    let (ps, _, _) = arrays(&m);
    let (verts, _) = load_arrays(src).unwrap();
    let expected = flat_normal(ps[0], ps[1], ps[2]);
    assert_eq!(verts[0].normal, expected);
    assert_eq!(verts[1].normal, expected);
    assert_eq!(verts[2].normal, expected);
}

#[test]
fn unknown_record_keyword_fails() {
    let src = "\
v 0 0 0
zz 1 2
";
    assert_eq!(load_arrays(src), Err(LoadError::UnknownToken));
}

#[test]
fn unregistered_material_fails() {
    let src = "usemtl foo\n";
    assert_eq!(load_arrays(src), Err(LoadError::UnknownMaterial));
}

#[test]
fn registered_material_tags_faces() {
    let src = "\
mtllib stone.mtl rock
v 0 0 0
v 1 0 0
v 0 1 0
usemtl rock
f 1 2 3
";
    let m = parse(&to_lines(src)).unwrap();
    assert_eq!(m.material_files, vec![b"stone.mtl".to_vec()]);
    assert_eq!(m.faces[0].mat_index, Some(0));
}

#[test]
fn synthesized_material_name() {
    let src = "\
mtllib stone.mtl
usemtl material0
v 0 0 0
v 1 0 0
v 0 1 0
f 1 2 3
";
    let m = parse(&to_lines(src)).unwrap();
    assert_eq!(m.material_files.len(), 1);
    assert_eq!(m.faces[0].mat_index, Some(0));
}

#[test]
fn face_before_usemtl_has_no_material() {
    let src = "\
v 0 0 0
v 1 0 0
v 0 1 0
f 1 2 3
";
    let m = parse(&to_lines(src)).unwrap();
    assert_eq!(m.faces[0].mat_index, None);
}

#[test]
fn index_count_is_three_per_face() {
    let src = "\
v 0 0 0
v 1 0 0
v 0 1 0
v 1 1 0
f 1 2 3
f 2 3 4
f 1 3 4
";
    let (verts, idxs) = load_arrays(src).unwrap();
    assert_eq!(idxs.len(), 9);
    assert!(verts.len() <= 9);
    assert!(verts.len() >= 1);
    assert_eq!(verts.len(), 4);
}

#[test]
fn loading_twice_is_identical() {
    let (v1, i1) = load_arrays(TRIANGLE).unwrap();
    let (v2, i2) = load_arrays(TRIANGLE).unwrap();
    assert_eq!(v1, v2);
    assert_eq!(i1, i2);
}

#[test]
fn position_index_out_of_range() {
    let src = "\
v 0 0 0
v 1 0 0
f 1 2 5
";
    assert_eq!(load_arrays(src), Err(LoadError::ArrayIndexError));
}

#[test]
fn zero_position_index_is_out_of_range() {
    let src = "\
v 0 0 0
v 1 0 0
v 0 1 0
f 0 1 2
";
    assert_eq!(load_arrays(src), Err(LoadError::ArrayIndexError));
}

#[test]
fn texture_index_out_of_range() {
    let src = "\
v 0 0 0
v 1 0 0
v 0 1 0
vt 0 0
f 1/1 2/2 3/1
";
    assert_eq!(load_arrays(src), Err(LoadError::ArrayIndexError));
}

#[test]
fn malformed_position_field() {
    assert_eq!(load_arrays("v 1 x 3\n"), Err(LoadError::MalformedNumber));
}

#[test]
fn missing_position_field() {
    assert_eq!(load_arrays("v 1 2\n"), Err(LoadError::MalformedNumber));
}

#[test]
fn face_with_too_few_tokens() {
    assert_eq!(
        load_arrays("v 0 0 0\nf 1 1\n"),
        Err(LoadError::UnsupportedTopology)
    );
}

#[test]
fn face_with_too_many_tokens() {
    assert_eq!(
        load_arrays("v 0 0 0\nf 1 1 1 1\n"),
        Err(LoadError::UnsupportedTopology)
    );
}

#[test]
fn comments_blanks_and_markers_are_ignored() {
    let src = "\
# a comment
g group
s off
o thing

\t  \t
v 0 0 0
v 1 0 0
v 0 1 0
f 1 2 3
";
    let (verts, idxs) = load_arrays(src).unwrap();
    assert_eq!(verts.len(), 3);
    assert_eq!(idxs, vec![0, 1, 2]);
}

#[test]
fn whitespace_between_tokens_is_flexible() {
    let src = "v   0\t0  0\nv 1 0 0\nv 0 1 0\nf  1   2\t3\n";
    let (verts, _) = load_arrays(src).unwrap();
    assert_eq!(verts.len(), 3);
}

#[test]
fn float_token_forms_accepted() {
    let src = "\
v 1.5e-3 .5 5.
v +2.25 -0.5 1e2
v inf NaN -infinity
f 1 2 3
";
    let m = parse(&to_lines(src)).unwrap();
    assert_eq!(m.positions.len(), 3);
    assert_eq!(scalar(&m.positions[0].x), 1.5e-3f32.to_bits());
    assert!(f32::from_bits(scalar(&m.positions[2].x)).is_infinite());
}

#[test]
fn usemtl_without_name_fails() {
    assert_eq!(load_arrays("usemtl\n"), Err(LoadError::UnknownToken));
}

#[test]
fn mtllib_without_file_fails() {
    assert_eq!(load_arrays("mtllib\n"), Err(LoadError::UnknownToken));
}

#[test]
fn reregistered_name_shadows_older_material() {
    let src = "\
mtllib a.mtl rock
mtllib b.mtl rock
v 0 0 0
v 1 0 0
v 0 1 0
usemtl rock
f 1 2 3
";
    let m = parse(&to_lines(src)).unwrap();
    assert_eq!(m.material_files.len(), 2);
    assert_eq!(m.faces[0].mat_index, Some(1));
}

#[test]
fn zero_texture_index_is_not_an_absent_one() {
    // `1/0` names texture slot 0, which no 1-based array has; it must
    // fail, not collapse into the key `1`
    let src = "\
v 0 0 0
v 1 0 0
v 0 1 0
vt 0 0
f 1 2 3
f 1/0 2 3
";
    assert_eq!(load_arrays(src), Err(LoadError::ArrayIndexError));
}

#[test]
fn bare_dot_is_malformed() {
    assert_eq!(load_arrays("v . 0 0\n"), Err(LoadError::MalformedNumber));
}

#[test]
fn exponent_without_digits_is_malformed() {
    assert_eq!(load_arrays("v 1e 0 0\n"), Err(LoadError::MalformedNumber));
}
