use vstd::prelude::*;

use crate::error::LoadError;
use crate::num::{is_float_token, check_float_token, u32_digits, format_u32};
use crate::parse::{
    face_spec, parse_face, RawModel, RawModelV, TokVec2, TokVec2V, TokVec3, TokVec3V, tv2_views,
    tv3_views,
};
use crate::tok::{copy_bytes, line_tokens, tokenize, views_of};

verus! {

/// The running state of the model parser: the raw model gathered so far,
/// the registered material names in registration order (the material of
/// name `names[j]` is material `j`; a name registered again shadows its
/// older entry), and the active material.
pub struct PStateV {
    pub positions: Seq<TokVec3V>,
    pub normals: Seq<TokVec3V>,
    pub tex_coords: Seq<TokVec2V>,
    pub faces: Seq<crate::model::Face>,
    pub material_files: Seq<Seq<u8>>,
    pub names: Seq<Seq<u8>>,
    pub active: Option<u32>,
}

/// The raw model a finished parse hands out; the name registry and the
/// active material are transient.
pub open spec fn raw_of(st: PStateV) -> RawModelV {
    RawModelV {
        positions: st.positions,
        normals: st.normals,
        tex_coords: st.tex_coords,
        faces: st.faces,
        material_files: st.material_files,
    }
}

/// The state a parse starts from: nothing gathered, no active material.
pub open spec fn init_state() -> PStateV {
    PStateV {
        positions: Seq::empty(),
        normals: Seq::empty(),
        tex_coords: Seq::empty(),
        faces: Seq::empty(),
        material_files: Seq::empty(),
        names: Seq::empty(),
        active: None,
    }
}

/// The latest registration of `name`, or `-1` when it was never
/// registered.
pub open spec fn find_last(names: Seq<Seq<u8>>, name: Seq<u8>) -> int
    decreases names.len(),
{
    if names.len() == 0 {
        -1
    } else if names.last() == name {
        names.len() - 1
    } else {
        find_last(names.drop_last(), name)
    }
}

/// The name synthesized for the `n`-th material when its record gives
/// none: `material` followed by `n` in decimal.
pub open spec fn synth_name(n: int) -> Seq<u8> {
    seq![109u8, 97u8, 116u8, 101u8, 114u8, 105u8, 97u8, 108u8] + u32_digits(n)
}

/// What one line does to the parser state. The first token selects the
/// record: `v`, `vt` and `vn` append a numeric record whose fields must
/// all be well-formed numerals; `f` appends a face of exactly three
/// face-vertex tokens; `g`, `s`, `o`, comments and blank lines are
/// ignored; `usemtl` activates a registered material and fails on an
/// unknown one; `mtllib` registers a material file under the given or a
/// synthesized name; any record missing its required argument and any
/// unrecognized record keyword is an unknown token.
pub open spec fn step_line(st: PStateV, line: Seq<u8>) -> Result<PStateV, LoadError> {
    let ts = line_tokens(line);
    if ts.len() == 0 {
        Ok(st)
    } else {
        let w = ts[0];
        if w == seq![35u8] {  // `#`
            Ok(st)
        } else if w == seq![118u8] {  // `v`
            if ts.len() < 4 {
                Err(LoadError::MalformedNumber)
            } else if is_float_token(ts[1]) && is_float_token(ts[2]) && is_float_token(ts[3]) {
                Ok(PStateV { positions: st.positions.push(TokVec3V { x: ts[1], y: ts[2], z: ts[3] }), ..st })
            } else {
                Err(LoadError::MalformedNumber)
            }
        } else if w == seq![118u8, 116u8] {  // `vt`
            if ts.len() < 3 {
                Err(LoadError::MalformedNumber)
            } else if is_float_token(ts[1]) && is_float_token(ts[2]) {
                Ok(PStateV { tex_coords: st.tex_coords.push(TokVec2V { x: ts[1], y: ts[2] }), ..st })
            } else {
                Err(LoadError::MalformedNumber)
            }
        } else if w == seq![118u8, 110u8] {  // `vn`
            if ts.len() < 4 {
                Err(LoadError::MalformedNumber)
            } else if is_float_token(ts[1]) && is_float_token(ts[2]) && is_float_token(ts[3]) {
                Ok(PStateV { normals: st.normals.push(TokVec3V { x: ts[1], y: ts[2], z: ts[3] }), ..st })
            } else {
                Err(LoadError::MalformedNumber)
            }
        } else if w == seq![102u8] {  // `f`
            if ts.len() != 4 {
                Err(LoadError::UnsupportedTopology)
            } else {
                match face_spec(Some(ts[1]), Some(ts[2]), Some(ts[3]), st.active) {
                    Err(e) => Err(e),
                    Ok(face) => Ok(PStateV { faces: st.faces.push(face), ..st }),
                }
            }
        } else if w == seq![103u8] || w == seq![115u8] || w == seq![111u8] {  // `g`, `s`, `o`
            Ok(st)
        } else if w == seq![117u8, 115u8, 101u8, 109u8, 116u8, 108u8] {  // `usemtl`
            if ts.len() < 2 {
                Err(LoadError::UnknownToken)
            } else {
                let j = find_last(st.names, ts[1]);
                if j == -1 {
                    Err(LoadError::UnknownMaterial)
                } else {
                    Ok(PStateV { active: Some(j as u32), ..st })
                }
            }
        } else if w == seq![109u8, 116u8, 108u8, 108u8, 105u8, 98u8] {  // `mtllib`
            if ts.len() < 2 {
                Err(LoadError::UnknownToken)
            } else {
                let name = if ts.len() >= 3 {
                    ts[2]
                } else {
                    synth_name(st.names.len() as int)
                };
                Ok(
                    PStateV {
                        material_files: st.material_files.push(ts[1]),
                        names: st.names.push(name),
                        ..st
                    },
                )
            }
        } else {
            Err(LoadError::UnknownToken)
        }
    }
}

/// The parser state after the first `n` lines, in file order.
pub open spec fn parse_upto(lines: Seq<Seq<u8>>, n: int) -> Result<PStateV, LoadError>
    decreases n,
{
    if n <= 0 {
        Ok(init_state())
    } else {
        match parse_upto(lines, n - 1) {
            Err(e) => Err(e),
            Ok(st) => step_line(st, lines[n - 1]),
        }
    }
}

/// What parsing a whole model file returns: the raw model, or the first
/// failure.
pub open spec fn parse_spec(lines: Seq<Seq<u8>>) -> Result<RawModelV, LoadError> {
    match parse_upto(lines, lines.len() as int) {
        Ok(st) => Ok(raw_of(st)),
        Err(e) => Err(e),
    }
}

/// Once a parse has failed, every longer parse fails the same way.
pub proof fn lemma_parse_err_persists(lines: Seq<Seq<u8>>, n: int, m: int)
    requires
        0 <= n <= m,
        parse_upto(lines, n).is_err(),
    ensures
        parse_upto(lines, m) == parse_upto(lines, n),
    decreases m - n,
{
    if m > n {
        lemma_parse_err_persists(lines, n, m - 1);
    }
}

/// Parsing is a function of the lines alone: two parses of one file give
/// one and the same raw model, so loading one well-formed file twice
/// yields identical arrays downstream.
pub proof fn lemma_parse_deterministic(
    lines: Seq<Seq<u8>>,
    r1: Result<RawModelV, LoadError>,
    r2: Result<RawModelV, LoadError>,
)
    requires
        r1 == parse_spec(lines),
        r2 == parse_spec(lines),
    ensures
        r1 == r2,
{
}

/// Whether two byte strings are equal.
fn bytes_eq(a: &Vec<u8>, b: &Vec<u8>) -> (r: bool)
    ensures
        r == (a@ == b@),
{
    let n = a.len();
    if n != b.len() {
        return false;
    }
    let mut i: usize = 0;
    while i < n
        invariant
            i <= n,
            n == a@.len(),
            n == b@.len(),
            forall|j: int| 0 <= j < i ==> a@[j] == b@[j],
        decreases n - i,
    {
        if a[i] != b[i] {
            return false;
        }
        i += 1;
    }
    proof {
        assert(a@ =~= b@);
    }
    true
}

/// Whether `t` is the one-byte word `b0`.
pub(crate) fn is_tok1(t: &Vec<u8>, b0: u8) -> (r: bool)
    ensures
        r == (t@ == seq![b0]),
{
    let r = t.len() == 1 && t[0] == b0;
    proof {
        if r {
            assert(t@ =~= seq![b0]);
        } else {
            if t@ == seq![b0] {
                assert(t@.len() == 1 && t@[0] == b0);
            }
        }
    }
    r
}

/// Whether `t` is the two-byte word `b0 b1`.
pub(crate) fn is_tok2(t: &Vec<u8>, b0: u8, b1: u8) -> (r: bool)
    ensures
        r == (t@ == seq![b0, b1]),
{
    let r = t.len() == 2 && t[0] == b0 && t[1] == b1;
    proof {
        if r {
            assert(t@ =~= seq![b0, b1]);
        } else {
            if t@ == seq![b0, b1] {
                assert(t@.len() == 2 && t@[0] == b0 && t@[1] == b1);
            }
        }
    }
    r
}

/// Whether `t` is the six-byte word `b0 .. b5`.
pub(crate) fn is_tok6(t: &Vec<u8>, b0: u8, b1: u8, b2: u8, b3: u8, b4: u8, b5: u8) -> (r: bool)
    ensures
        r == (t@ == seq![b0, b1, b2, b3, b4, b5]),
{
    let r = t.len() == 6 && t[0] == b0 && t[1] == b1 && t[2] == b2 && t[3] == b3 && t[4] == b4
        && t[5] == b5;
    proof {
        if r {
            assert(t@ =~= seq![b0, b1, b2, b3, b4, b5]);
        } else {
            if t@ == seq![b0, b1, b2, b3, b4, b5] {
                assert(t@.len() == 6 && t@[0] == b0 && t@[1] == b1 && t@[2] == b2 && t@[3] == b3
                    && t@[4] == b4 && t@[5] == b5);
            }
        }
    }
    r
}

/// The latest registration of `name`, as `find_last` has it.
fn find_last_exec(names: &Vec<Vec<u8>>, name: &Vec<u8>) -> (r: Option<usize>)
    ensures
        match r {
            Some(j) => j == find_last(views_of(names@), name@) && j < names@.len(),
            None => find_last(views_of(names@), name@) == -1,
        },
{
    let mut j = names.len();
    proof {
        assert(views_of(names@).take(j as int) =~= views_of(names@));
    }
    while j > 0
        invariant
            j <= names@.len(),
            find_last(views_of(names@), name@) == find_last(
                views_of(names@).take(j as int),
                name@,
            ),
        decreases j,
    {
        j -= 1;
        let hit = bytes_eq(&names[j], name);
        proof {
            let v = views_of(names@);
            assert(v.take(j + 1).last() == v[j as int]);
            assert(v[j as int] == names@[j as int]@);
            assert(v.take(j + 1).drop_last() =~= v.take(j as int));
        }
        if hit {
            return Some(j);
        }
    }
    proof {
        assert(views_of(names@).take(0).len() == 0);
    }
    None
}

/// The parser state the exec arrays stand for.
pub open spec fn pst_of(
    positions: Seq<TokVec3>,
    normals: Seq<TokVec3>,
    tex_coords: Seq<TokVec2>,
    faces: Seq<crate::model::Face>,
    files: Seq<Vec<u8>>,
    names: Seq<Vec<u8>>,
    active: Option<u32>,
) -> PStateV {
    PStateV {
        positions: tv3_views(positions),
        normals: tv3_views(normals),
        tex_coords: tv2_views(tex_coords),
        faces,
        material_files: views_of(files),
        names: views_of(names),
        active,
    }
}

/// Parses a model file, given as its lines, into a raw model: the result
/// is exactly `parse_spec` of the lines — the raw records in file order,
/// or the first failure, with nothing gathered kept.
pub fn parse(lines: &Vec<Vec<u8>>) -> (r: Result<RawModel, LoadError>)
    requires
        lines@.len() <= u32::MAX as int,
    ensures
        r matches Ok(m) ==> parse_spec(views_of(lines@)) == Ok::<RawModelV, LoadError>(m@),
        r matches Err(e) ==> parse_spec(views_of(lines@)) == Err::<RawModelV, LoadError>(e),
{
    let ghost lviews = views_of(lines@);
    let mut positions: Vec<TokVec3> = Vec::new();
    let mut normals: Vec<TokVec3> = Vec::new();
    let mut tex_coords: Vec<TokVec2> = Vec::new();
    let mut faces: Vec<crate::model::Face> = Vec::new();
    let mut files: Vec<Vec<u8>> = Vec::new();
    let mut names: Vec<Vec<u8>> = Vec::new();
    let mut active: Option<u32> = None;
    let nlines = lines.len();
    let mut li: usize = 0;
    proof {
        assert(tv3_views(positions@) =~= Seq::<TokVec3V>::empty());
        assert(tv3_views(normals@) =~= Seq::<TokVec3V>::empty());
        assert(tv2_views(tex_coords@) =~= Seq::<TokVec2V>::empty());
        assert(views_of(files@) =~= Seq::<Seq<u8>>::empty());
        assert(views_of(names@) =~= Seq::<Seq<u8>>::empty());
        assert(pst_of(positions@, normals@, tex_coords@, faces@, files@, names@, active)
            == init_state());
    }
    while li < nlines
        invariant
            li <= nlines,
            nlines == lines@.len(),
            lines@.len() <= u32::MAX as int,
            lviews == views_of(lines@),
            names@.len() <= li,
            parse_upto(lviews, li as int) == Ok::<PStateV, LoadError>(
                pst_of(positions@, normals@, tex_coords@, faces@, files@, names@, active),
            ),
        decreases nlines - li,
    {
        let ghost st0 = pst_of(positions@, normals@, tex_coords@, faces@, files@, names@, active);
        let lt = tokenize(&lines[li]);
        let ghost ts = line_tokens(lines@[li as int]@);
        proof {
            assert(lviews[li as int] == lines@[li as int]@);
            assert(views_of(lt@) == ts);
        }
        if lt.len() == 0 {
            proof {
                assert(step_line(st0, lviews[li as int]) == Ok::<PStateV, LoadError>(st0));
            }
        } else {
            let w = &lt[0];
            proof {
                assert(w@ == ts[0]);
            }
            if is_tok1(w, 35u8) {
                // comment
            } else if is_tok1(w, 118u8) {
                // position record
                if lt.len() < 4 {
                    proof {
                        lemma_parse_err_persists(lviews, li as int + 1, lviews.len() as int);
                    }
                    return Err(LoadError::MalformedNumber);
                }
                let okf = check_float_token(lt[1].as_slice()) && check_float_token(
                    lt[2].as_slice(),
                ) && check_float_token(lt[3].as_slice());
                if !okf {
                    proof {
                        lemma_parse_err_persists(lviews, li as int + 1, lviews.len() as int);
                    }
                    return Err(LoadError::MalformedNumber);
                }
                let tv = TokVec3 {
                    x: copy_bytes(&lt[1]),
                    y: copy_bytes(&lt[2]),
                    z: copy_bytes(&lt[3]),
                };
                let ghost tvv = tv@;
                positions.push(tv);
                proof {
                    assert(tv3_views(positions@) =~= st0.positions.push(tvv));
                    assert(tvv == (TokVec3V { x: ts[1], y: ts[2], z: ts[3] }));
                }
            } else if is_tok2(w, 118u8, 116u8) {
                // texture-coordinate record
                if lt.len() < 3 {
                    proof {
                        lemma_parse_err_persists(lviews, li as int + 1, lviews.len() as int);
                    }
                    return Err(LoadError::MalformedNumber);
                }
                let okf = check_float_token(lt[1].as_slice()) && check_float_token(
                    lt[2].as_slice(),
                );
                if !okf {
                    proof {
                        lemma_parse_err_persists(lviews, li as int + 1, lviews.len() as int);
                    }
                    return Err(LoadError::MalformedNumber);
                }
                let tv = TokVec2 { x: copy_bytes(&lt[1]), y: copy_bytes(&lt[2]) };
                let ghost tvv = tv@;
                tex_coords.push(tv);
                proof {
                    assert(tv2_views(tex_coords@) =~= st0.tex_coords.push(tvv));
                    assert(tvv == (TokVec2V { x: ts[1], y: ts[2] }));
                }
            } else if is_tok2(w, 118u8, 110u8) {
                // normal record
                if lt.len() < 4 {
                    proof {
                        lemma_parse_err_persists(lviews, li as int + 1, lviews.len() as int);
                    }
                    return Err(LoadError::MalformedNumber);
                }
                let okf = check_float_token(lt[1].as_slice()) && check_float_token(
                    lt[2].as_slice(),
                ) && check_float_token(lt[3].as_slice());
                if !okf {
                    proof {
                        lemma_parse_err_persists(lviews, li as int + 1, lviews.len() as int);
                    }
                    return Err(LoadError::MalformedNumber);
                }
                let tv = TokVec3 {
                    x: copy_bytes(&lt[1]),
                    y: copy_bytes(&lt[2]),
                    z: copy_bytes(&lt[3]),
                };
                let ghost tvv = tv@;
                normals.push(tv);
                proof {
                    assert(tv3_views(normals@) =~= st0.normals.push(tvv));
                    assert(tvv == (TokVec3V { x: ts[1], y: ts[2], z: ts[3] }));
                }
            } else if is_tok1(w, 102u8) {
                // face record
                if lt.len() != 4 {
                    proof {
                        lemma_parse_err_persists(lviews, li as int + 1, lviews.len() as int);
                    }
                    return Err(LoadError::UnsupportedTopology);
                }
                match parse_face(
                    Some(lt[1].as_slice()),
                    Some(lt[2].as_slice()),
                    Some(lt[3].as_slice()),
                    active,
                ) {
                    Err(e) => {
                        proof {
                            lemma_parse_err_persists(lviews, li as int + 1, lviews.len() as int);
                        }
                        return Err(e);
                    },
                    Ok(face) => {
                        faces.push(face);
                    },
                }
            } else if is_tok1(w, 103u8) || is_tok1(w, 115u8) || is_tok1(w, 111u8) {
                // group, smoothing, object: ignored
            } else if is_tok6(w, 117u8, 115u8, 101u8, 109u8, 116u8, 108u8) {
                // material activation
                if lt.len() < 2 {
                    proof {
                        lemma_parse_err_persists(lviews, li as int + 1, lviews.len() as int);
                    }
                    return Err(LoadError::UnknownToken);
                }
                match find_last_exec(&names, &lt[1]) {
                    None => {
                        proof {
                            lemma_parse_err_persists(lviews, li as int + 1, lviews.len() as int);
                        }
                        return Err(LoadError::UnknownMaterial);
                    },
                    Some(j) => {
                        active = Some(j as u32);
                    },
                }
            } else if is_tok6(w, 109u8, 116u8, 108u8, 108u8, 105u8, 98u8) {
                // material library registration
                if lt.len() < 2 {
                    proof {
                        lemma_parse_err_persists(lviews, li as int + 1, lviews.len() as int);
                    }
                    return Err(LoadError::UnknownToken);
                }
                let file = copy_bytes(&lt[1]);
                let name = if lt.len() >= 3 {
                    copy_bytes(&lt[2])
                } else {
                    let mut nm: Vec<u8> = Vec::new();
                    nm.push(109u8);
                    nm.push(97u8);
                    nm.push(116u8);
                    nm.push(101u8);
                    nm.push(114u8);
                    nm.push(105u8);
                    nm.push(97u8);
                    nm.push(108u8);
                    let mut digits = format_u32(names.len() as u32);
                    nm.append(&mut digits);
                    proof {
                        assert(nm@ =~= synth_name(names@.len() as int));
                    }
                    nm
                };
                let ghost filev = file@;
                let ghost namev = name@;
                names.push(name);
                files.push(file);
                proof {
                    assert(views_of(names@) =~= st0.names.push(namev));
                    assert(views_of(files@) =~= st0.material_files.push(filev));
                }
            } else {
                proof {
                    assert(step_line(st0, lviews[li as int]) == Err::<PStateV, LoadError>(
                        LoadError::UnknownToken,
                    ));
                    lemma_parse_err_persists(lviews, li as int + 1, lviews.len() as int);
                }
                return Err(LoadError::UnknownToken);
            }
        }
        proof {
            let st1 = pst_of(positions@, normals@, tex_coords@, faces@, files@, names@, active);
            assert(step_line(st0, lviews[li as int]) == Ok::<PStateV, LoadError>(st1));
        }
        li += 1;
    }
    let m = RawModel { positions, normals, tex_coords, faces, material_files: files };
    proof {
        assert(lviews.len() == nlines as int);
    }
    Ok(m)
}

} // verus!
