use vstd::prelude::*;

verus! {

/// A three-component vector. Each component is the 32-bit pattern of the
/// single-precision value it stands for; the pipeline never computes on
/// the components, it only moves them, so the bit pattern is all it needs.
#[derive(Clone, Copy, Debug, PartialEq, Eq, Structural)]
pub struct Vec3 {
    pub x: u32,
    pub y: u32,
    pub z: u32,
}

/// A two-component vector (a texture coordinate), carried as bit patterns
/// like `Vec3`.
#[derive(Clone, Copy, Debug, PartialEq, Eq, Structural)]
pub struct Vec2 {
    pub x: u32,
    pub y: u32,
}

/// The zero texture coordinate, the default for a face vertex that names
/// no texture-coordinate slot. The all-zero pattern is the zero value.
pub open spec fn zero_vec2() -> Vec2 {
    Vec2 { x: 0, y: 0 }
}

/// One corner of one face: the composite key of a face vertex. The
/// position index is mandatory; the texture-coordinate and normal indices
/// are optional. Indices are 1-based, exactly as they stand in the file.
/// Two face vertices are the same vertex only when all three fields match.
#[derive(Clone, Copy, Debug, PartialEq, Eq, Hash, Structural)]
pub struct FaceIndex {
    pub p_index: u32,
    pub tx_index: Option<u32>,
    pub n_index: Option<u32>,
}

/// A triangular face: exactly three face-vertex keys, in file order, and
/// the material that was active when the face was read, if any.
#[derive(Clone, Copy, Debug, PartialEq, Eq, Structural)]
pub struct Face {
    pub k0: FaceIndex,
    pub k1: FaceIndex,
    pub k2: FaceIndex,
    pub mat_index: Option<u32>,
}

/// A fully resolved vertex, as the GPU wants it: no field is optional.
/// The texture coordinate defaults to the zero vector and the normal
/// defaults to the owning face's flat normal when the key named none.
#[derive(Clone, Copy, Debug, PartialEq, Eq, Structural)]
pub struct Vertex {
    pub position: Vec3,
    pub normal: Vec3,
    pub tex_coords: Vec2,
}

/// A sampled GPU texture, held by the one handle that owns it.
#[derive(Clone, Copy, Debug, PartialEq, Eq, Structural)]
pub struct Texture {
    pub id: u32,
}

/// A surface material: at most one diffuse texture.
#[derive(Clone, Copy, Debug, PartialEq, Eq, Structural)]
pub struct Material {
    pub diffuse_texture: Option<Texture>,
}

} // verus!
