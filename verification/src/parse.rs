use vstd::prelude::*;
use vstd::slice::slice_subrange;

use crate::error::LoadError;
use crate::model::{Face, FaceIndex};
use crate::num::{is_u32_token, parse_u32, scan2, scan2_exec, u32_token_value};
use crate::tok::views_of;

verus! {

/// The three numeric tokens of one position or normal record, exactly as
/// they stand in the file.
pub struct TokVec3 {
    pub x: Vec<u8>,
    pub y: Vec<u8>,
    pub z: Vec<u8>,
}

/// The two numeric tokens of one texture-coordinate record.
pub struct TokVec2 {
    pub x: Vec<u8>,
    pub y: Vec<u8>,
}

/// The mathematical value of a `TokVec3`.
pub struct TokVec3V {
    pub x: Seq<u8>,
    pub y: Seq<u8>,
    pub z: Seq<u8>,
}

/// The mathematical value of a `TokVec2`.
pub struct TokVec2V {
    pub x: Seq<u8>,
    pub y: Seq<u8>,
}

impl View for TokVec3 {
    type V = TokVec3V;

    open spec fn view(&self) -> TokVec3V {
        TokVec3V { x: self.x@, y: self.y@, z: self.z@ }
    }
}

impl View for TokVec2 {
    type V = TokVec2V;

    open spec fn view(&self) -> TokVec2V {
        TokVec2V { x: self.x@, y: self.y@ }
    }
}

/// Everything a model file parses into, before scalar decoding and
/// reindexing: the raw attribute records as validated numeric tokens, the
/// faces, and the material files referenced, in registration order.
pub struct RawModel {
    pub positions: Vec<TokVec3>,
    pub normals: Vec<TokVec3>,
    pub tex_coords: Vec<TokVec2>,
    pub faces: Vec<Face>,
    pub material_files: Vec<Vec<u8>>,
}

/// The mathematical value of a `RawModel`.
pub struct RawModelV {
    pub positions: Seq<TokVec3V>,
    pub normals: Seq<TokVec3V>,
    pub tex_coords: Seq<TokVec2V>,
    pub faces: Seq<Face>,
    pub material_files: Seq<Seq<u8>>,
}

/// The views of a list of position or normal records.
pub open spec fn tv3_views(ps: Seq<TokVec3>) -> Seq<TokVec3V> {
    ps.map(|i: int, p: TokVec3| p@)
}

/// The views of a list of texture-coordinate records.
pub open spec fn tv2_views(ps: Seq<TokVec2>) -> Seq<TokVec2V> {
    ps.map(|i: int, p: TokVec2| p@)
}

impl View for RawModel {
    type V = RawModelV;

    open spec fn view(&self) -> RawModelV {
        RawModelV {
            positions: tv3_views(self.positions@),
            normals: tv3_views(self.normals@),
            tex_coords: tv2_views(self.tex_coords@),
            faces: self.faces@,
            material_files: views_of(self.material_files@),
        }
    }
}

/// An optional face-vertex index field: absent when empty, its value when
/// a well-formed unsigned numeral, and a malformed number otherwise.
pub open spec fn opt_index_of(part: Seq<u8>) -> Result<Option<u32>, LoadError> {
    if part.len() == 0 {
        Ok(None)
    } else if is_u32_token(part) {
        Ok(Some(u32_token_value(part) as u32))
    } else {
        Err(LoadError::MalformedNumber)
    }
}

/// What one face-vertex token `p[/t][/n]` parses to: the mandatory
/// position index, then the optional texture-coordinate and normal
/// indices, split at slashes; an empty optional field counts as absent,
/// anything beyond the third field is ignored, and any field that is
/// neither empty nor a well-formed unsigned numeral is a malformed
/// number.
pub open spec fn face_index_spec(t: Seq<u8>) -> Result<FaceIndex, LoadError> {
    let k1 = scan2(t, 47u8, 47u8, 0);
    let p_part = if k1 == -1 {
        t
    } else {
        t.take(k1)
    };
    if !is_u32_token(p_part) {
        Err(LoadError::MalformedNumber)
    } else {
        let p = u32_token_value(p_part) as u32;
        if k1 == -1 {
            Ok(FaceIndex { p_index: p, tx_index: None, n_index: None })
        } else {
            let rest = t.subrange(k1 + 1, t.len() as int);
            let k2 = scan2(rest, 47u8, 47u8, 0);
            let tx_part = if k2 == -1 {
                rest
            } else {
                rest.take(k2)
            };
            match opt_index_of(tx_part) {
                Err(e) => Err(e),
                Ok(tx) => {
                    if k2 == -1 {
                        Ok(FaceIndex { p_index: p, tx_index: tx, n_index: None })
                    } else {
                        let rest2 = rest.subrange(k2 + 1, rest.len() as int);
                        let k3 = scan2(rest2, 47u8, 47u8, 0);
                        let n_part = if k3 == -1 {
                            rest2
                        } else {
                            rest2.take(k3)
                        };
                        match opt_index_of(n_part) {
                            Err(e) => Err(e),
                            Ok(nx) => Ok(FaceIndex { p_index: p, tx_index: tx, n_index: nx }),
                        }
                    }
                },
            }
        }
    }
}

/// The view of an optional borrowed token.
pub open spec fn opt_tok_view(o: Option<&[u8]>) -> Option<Seq<u8>> {
    match o {
        Some(s) => Some(s@),
        None => None,
    }
}

/// What one face record parses to: exactly three face-vertex tokens,
/// tagged with the active material; a missing token is an unsupported
/// topology.
pub open spec fn face_spec(
    o1: Option<Seq<u8>>,
    o2: Option<Seq<u8>>,
    o3: Option<Seq<u8>>,
    active: Option<u32>,
) -> Result<Face, LoadError> {
    match (o1, o2, o3) {
        (Some(t1), Some(t2), Some(t3)) => match face_index_spec(t1) {
            Err(e) => Err(e),
            Ok(k0) => match face_index_spec(t2) {
                Err(e) => Err(e),
                Ok(k1) => match face_index_spec(t3) {
                    Err(e) => Err(e),
                    Ok(k2) => Ok(Face { k0, k1, k2, mat_index: active }),
                },
            },
        },
        _ => Err(LoadError::UnsupportedTopology),
    }
}

/// An optional face-vertex index field, as `opt_index_of` has it.
fn opt_index(part: &[u8]) -> (r: Result<Option<u32>, LoadError>)
    ensures
        r == opt_index_of(part@),
{
    if part.len() == 0 {
        Ok(None)
    } else {
        match parse_u32(part) {
            Some(v) => Ok(Some(v)),
            None => Err(LoadError::MalformedNumber),
        }
    }
}

/// Parses a single face-vertex token `p[/t][/n]`.
pub fn parse_face_index(vertex: &[u8]) -> (r: Result<FaceIndex, LoadError>)
    ensures
        r == face_index_spec(vertex@),
{
    let n = vertex.len();
    let (p_part, k1) = match scan2_exec(vertex, 47u8, 47u8) {
        None => (slice_subrange(vertex, 0, n), None),
        Some(k1) => (slice_subrange(vertex, 0, k1), Some(k1)),
    };
    proof {
        assert(vertex@.take(vertex@.len() as int) =~= vertex@);
    }
    let p = match parse_u32(p_part) {
        None => {
            return Err(LoadError::MalformedNumber);
        },
        Some(p) => p,
    };
    let k1 = match k1 {
        None => {
            return Ok(FaceIndex { p_index: p, tx_index: None, n_index: None });
        },
        Some(k1) => k1,
    };
    let rest = slice_subrange(vertex, k1 + 1, n);
    let m = rest.len();
    let (tx_part, k2) = match scan2_exec(rest, 47u8, 47u8) {
        None => (slice_subrange(rest, 0, m), None),
        Some(k2) => (slice_subrange(rest, 0, k2), Some(k2)),
    };
    proof {
        assert(rest@.take(rest@.len() as int) =~= rest@);
    }
    let tx = match opt_index(tx_part) {
        Err(e) => {
            return Err(e);
        },
        Ok(tx) => tx,
    };
    let k2 = match k2 {
        None => {
            return Ok(FaceIndex { p_index: p, tx_index: tx, n_index: None });
        },
        Some(k2) => k2,
    };
    let rest2 = slice_subrange(rest, k2 + 1, m);
    let m2 = rest2.len();
    let n_part = match scan2_exec(rest2, 47u8, 47u8) {
        None => slice_subrange(rest2, 0, m2),
        Some(k3) => slice_subrange(rest2, 0, k3),
    };
    proof {
        assert(rest2@.take(rest2@.len() as int) =~= rest2@);
    }
    match opt_index(n_part) {
        Err(e) => Err(e),
        Ok(nx) => Ok(FaceIndex { p_index: p, tx_index: tx, n_index: nx }),
    }
}

/// Parses one face record from its three face-vertex tokens and the
/// active material.
pub fn parse_face(
    f1: Option<&[u8]>,
    f2: Option<&[u8]>,
    f3: Option<&[u8]>,
    active_mat_index: Option<u32>,
) -> (r: Result<Face, LoadError>)
    ensures
        r == face_spec(
            opt_tok_view(f1),
            opt_tok_view(f2),
            opt_tok_view(f3),
            active_mat_index,
        ),
{
    match (f1, f2, f3) {
        (Some(t1), Some(t2), Some(t3)) => {
            let k0 = match parse_face_index(t1) {
                Err(e) => {
                    return Err(e);
                },
                Ok(k) => k,
            };
            let k1 = match parse_face_index(t2) {
                Err(e) => {
                    return Err(e);
                },
                Ok(k) => k,
            };
            let k2 = match parse_face_index(t3) {
                Err(e) => {
                    return Err(e);
                },
                Ok(k) => k,
            };
            Ok(Face { k0, k1, k2, mat_index: active_mat_index })
        },
        _ => Err(LoadError::UnsupportedTopology),
    }
}

} // verus!
