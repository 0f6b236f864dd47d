use objmesh::error::LoadError;
use objmesh::gpu::{texture_format, TextureFormat};
use objmesh::model::FaceIndex;
use objmesh::mtl::resolve_material;
use objmesh::num::{format_u32, parse_u32};
use objmesh::parse::{parse_face, parse_face_index};

fn to_lines(src: &str) -> Vec<Vec<u8>> {
    src.lines().map(|l| l.as_bytes().to_vec()).collect()
}

#[test]
fn face_index_full_triple() {
    assert_eq!(
        parse_face_index(b"1/2/3"),
        Ok(FaceIndex {
            p_index: 1,
            tx_index: Some(2),
            n_index: Some(3)
        })
    );
}

#[test]
fn face_index_position_only() {
    assert_eq!(
        parse_face_index(b"7"),
        Ok(FaceIndex {
            p_index: 7,
            tx_index: None,
            n_index: None
        })
    );
}

#[test]
fn face_index_empty_texture_slot() {
    assert_eq!(
        parse_face_index(b"1//3"),
        Ok(FaceIndex {
            p_index: 1,
            tx_index: None,
            n_index: Some(3)
        })
    );
}

#[test]
fn face_index_position_and_texture() {
    assert_eq!(
        parse_face_index(b"4/9"),
        Ok(FaceIndex {
            p_index: 4,
            tx_index: Some(9),
            n_index: None
        })
    );
}

#[test]
fn face_index_trailing_fields_ignored() {
    assert_eq!(
        parse_face_index(b"1/2/3/99"),
        Ok(FaceIndex {
            p_index: 1,
            tx_index: Some(2),
            n_index: Some(3)
        })
    );
}

#[test]
fn face_index_empty_normal_slot() {
    assert_eq!(
        parse_face_index(b"1/2/"),
        Ok(FaceIndex {
            p_index: 1,
            tx_index: Some(2),
            n_index: None
        })
    );
}

#[test]
fn face_index_missing_position() {
    assert_eq!(parse_face_index(b"/2/3"), Err(LoadError::MalformedNumber));
    assert_eq!(parse_face_index(b""), Err(LoadError::MalformedNumber));
}

#[test]
fn face_index_non_numeric_fields() {
    assert_eq!(parse_face_index(b"x/2/3"), Err(LoadError::MalformedNumber));
    assert_eq!(parse_face_index(b"1/x/3"), Err(LoadError::MalformedNumber));
    assert_eq!(parse_face_index(b"1/2/x"), Err(LoadError::MalformedNumber));
}

#[test]
fn face_index_plus_sign_accepted() {
    assert_eq!(
        parse_face_index(b"+5"),
        Ok(FaceIndex {
            p_index: 5,
            tx_index: None,
            n_index: None
        })
    );
}

#[test]
fn face_requires_three_tokens() {
    assert_eq!(
        parse_face(Some(b"1".as_slice()), Some(b"2".as_slice()), None, None),
        Err(LoadError::UnsupportedTopology)
    );
    let f = parse_face(
        Some(b"1".as_slice()),
        Some(b"2".as_slice()),
        Some(b"3".as_slice()),
        Some(4),
    )
    .unwrap();
    assert_eq!(f.k0.p_index, 1);
    assert_eq!(f.k2.p_index, 3);
    assert_eq!(f.mat_index, Some(4));
}

#[test]
fn numeral_parsing_limits() {
    assert_eq!(parse_u32(b"0"), Some(0));
    assert_eq!(parse_u32(b"4294967295"), Some(u32::MAX));
    assert_eq!(parse_u32(b"4294967296"), None);
    assert_eq!(parse_u32(b"00012"), Some(12));
    assert_eq!(parse_u32(b"+"), None);
    assert_eq!(parse_u32(b""), None);
    assert_eq!(parse_u32(b"-1"), None);
    assert_eq!(parse_u32(b"1 "), None);
}

#[test]
fn decimal_formatting() {
    assert_eq!(format_u32(0), b"0".to_vec());
    assert_eq!(format_u32(7), b"7".to_vec());
    assert_eq!(format_u32(105), b"105".to_vec());
    assert_eq!(format_u32(u32::MAX), b"4294967295".to_vec());
}

#[test]
fn material_without_diffuse_map() {
    let src = "\
newmtl stone
Ka 1 1 1
Kd 0.5 0.5 0.5
Ks 0 0 0
Ns 10
map_Ka ambient.png
map_Ks spec.png
map_Ns exp.png
";
    assert_eq!(resolve_material(&to_lines(src)), Ok(None));
}

#[test]
fn material_with_diffuse_map() {
    let src = "\
newmtl stone
map_Kd stone.png
";
    assert_eq!(
        resolve_material(&to_lines(src)),
        Ok(Some(b"stone.png".to_vec()))
    );
}

#[test]
fn material_last_diffuse_map_wins() {
    let src = "\
map_Kd first.png
map_Kd second.png
";
    assert_eq!(
        resolve_material(&to_lines(src)),
        Ok(Some(b"second.png".to_vec()))
    );
}

#[test]
fn material_unknown_directive() {
    assert_eq!(
        resolve_material(&to_lines("bogus 1 2\n")),
        Err(LoadError::UnknownToken)
    );
}

#[test]
fn material_comments_and_blanks_ignored() {
    let src = "# nothing here\n\nnewmtl a\n";
    assert_eq!(resolve_material(&to_lines(src)), Ok(None));
}

#[test]
fn material_map_kd_without_file() {
    assert_eq!(
        resolve_material(&to_lines("map_Kd\n")),
        Err(LoadError::UnknownToken)
    );
}

#[test]
fn channel_layouts_map_to_formats() {
    assert_eq!(texture_format(1), Ok(TextureFormat::Red));
    assert_eq!(texture_format(2), Ok(TextureFormat::RedGreen));
    assert_eq!(texture_format(3), Ok(TextureFormat::Rgb));
    assert_eq!(texture_format(4), Ok(TextureFormat::Rgba));
    assert_eq!(texture_format(0), Err(LoadError::UnsupportedFormat));
    assert_eq!(texture_format(5), Err(LoadError::UnsupportedFormat));
}

#[test]
fn vertex_layout_offsets() {
    assert_eq!(objmesh::gpu::vertex_stride(), 32);
    assert_eq!(objmesh::gpu::position_offset(), 0);
    assert_eq!(objmesh::gpu::normal_offset(), 12);
    assert_eq!(objmesh::gpu::tex_coords_offset(), 24);
}
