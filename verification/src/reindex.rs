use vstd::prelude::*;

use crate::error::LoadError;
use crate::model::{zero_vec2, Face, FaceIndex, Vec2, Vec3, Vertex};

verus! {

/// The attribute arrays a model was parsed into, as the reindexer reads
/// them: positions, normals and texture coordinates, each 0-based while
/// the face-vertex keys into them are 1-based.
pub struct Attrs {
    pub positions: Seq<Vec3>,
    pub normals: Seq<Vec3>,
    pub tex_coords: Seq<Vec2>,
}

/// The running state of the reindexer: the keys already assigned a final
/// vertex, in assignment order (the key of final vertex `i` is `keys[i]`),
/// the vertices emitted so far, and the flat index array so far.
pub struct ReState {
    pub keys: Seq<FaceIndex>,
    pub verts: Seq<Vertex>,
    pub idxs: Seq<u32>,
}

/// Whether a face-vertex key names only slots that the attribute arrays
/// have: the 1-based position index within the position array, and each
/// optional index, where present, within its array.
pub open spec fn index_in_range(fi: FaceIndex, a: Attrs) -> bool {
    &&& 1 <= fi.p_index <= a.positions.len()
    &&& match fi.tx_index {
        Some(t) => 1 <= t <= a.tex_coords.len(),
        None => true,
    }
    &&& match fi.n_index {
        Some(n) => 1 <= n <= a.normals.len(),
        None => true,
    }
}

/// Whether all three keys of a face are in range.
pub open spec fn face_in_range(f: Face, a: Attrs) -> bool {
    &&& index_in_range(f.k0, a)
    &&& index_in_range(f.k1, a)
    &&& index_in_range(f.k2, a)
}

/// The vertex a key resolves to: the indexed position; the indexed
/// texture coordinate, or zero when the key names none; the indexed
/// normal, or `flat` — the owning face's flat normal — when the key
/// names none.
pub open spec fn resolve_vertex(a: Attrs, fi: FaceIndex, flat: Vec3) -> Vertex {
    Vertex {
        position: a.positions[fi.p_index - 1],
        normal: match fi.n_index {
            Some(n) => a.normals[n - 1],
            None => flat,
        },
        tex_coords: match fi.tx_index {
            Some(t) => a.tex_coords[t - 1],
            None => zero_vec2(),
        },
    }
}

/// The position of the first occurrence of `k` in `keys` at or after `i`,
/// or `-1` when there is none.
pub open spec fn find_from(keys: Seq<FaceIndex>, k: FaceIndex, i: int) -> int
    decreases keys.len() - i,
{
    if i < 0 || i >= keys.len() {
        -1
    } else if keys[i] == k {
        i
    } else {
        find_from(keys, k, i + 1)
    }
}

/// The final vertex index already assigned to `k`, or `-1` when `k` has
/// not been seen.
pub open spec fn find_key(keys: Seq<FaceIndex>, k: FaceIndex) -> int {
    find_from(keys, k, 0)
}

/// One step of the reindexer, on one face-vertex key. A seen key appends
/// its existing final index to the index array; an unseen key in range
/// resolves a new vertex, appends it, and appends its new index; an
/// unseen key out of range fails.
pub open spec fn step_key(a: Attrs, st: ReState, fi: FaceIndex, flat: Vec3) -> Result<
    ReState,
    LoadError,
> {
    let r = find_key(st.keys, fi);
    if r >= 0 {
        Ok(ReState { keys: st.keys, verts: st.verts, idxs: st.idxs.push(r as u32) })
    } else if !index_in_range(fi, a) {
        Err(LoadError::ArrayIndexError)
    } else {
        Ok(
            ReState {
                keys: st.keys.push(fi),
                verts: st.verts.push(resolve_vertex(a, fi, flat)),
                idxs: st.idxs.push(st.verts.len() as u32),
            },
        )
    }
}

/// One face: its three keys in order, each against the same flat normal.
pub open spec fn step_face(a: Attrs, st: ReState, f: Face, flat: Vec3) -> Result<
    ReState,
    LoadError,
> {
    match step_key(a, st, f.k0, flat) {
        Err(e) => Err(e),
        Ok(s1) => match step_key(a, s1, f.k1, flat) {
            Err(e) => Err(e),
            Ok(s2) => step_key(a, s2, f.k2, flat),
        },
    }
}

/// The reindexer state after the first `n` faces, processed in file
/// order, where `flats[m]` is the flat normal of face `m`.
pub open spec fn run_faces(a: Attrs, faces: Seq<Face>, flats: Seq<Vec3>, n: int) -> Result<
    ReState,
    LoadError,
>
    decreases n,
{
    if n <= 0 {
        Ok(ReState { keys: Seq::empty(), verts: Seq::empty(), idxs: Seq::empty() })
    } else {
        match run_faces(a, faces, flats, n - 1) {
            Err(e) => Err(e),
            Ok(st) => step_face(a, st, faces[n - 1], flats[n - 1]),
        }
    }
}

/// What reindexing a whole model returns: the deduplicated vertex array
/// and the flat triangle index array, or the first failure.
pub open spec fn reindex_spec(a: Attrs, faces: Seq<Face>, flats: Seq<Vec3>) -> Result<
    (Seq<Vertex>, Seq<u32>),
    LoadError,
> {
    match run_faces(a, faces, flats, faces.len() as int) {
        Ok(st) => Ok((st.verts, st.idxs)),
        Err(e) => Err(e),
    }
}

/// Whether some entry of the index array names final vertex `v`.
pub open spec fn vertex_referenced(idxs: Seq<u32>, v: int) -> bool {
    exists|j: int| 0 <= j < idxs.len() && idxs[j] as int == v
}

/// Everything that holds of every reachable reindexer state: one key per
/// vertex; no more vertices than indices; every index names an emitted
/// vertex; every emitted vertex is named by some index (no orphans); the
/// keys are pairwise distinct; every key is in range; and each vertex is
/// the resolution of its key (its own normal standing in for the flat
/// normal, which pins everything but the fallback value itself).
pub open spec fn state_inv(a: Attrs, st: ReState) -> bool {
    &&& st.verts.len() == st.keys.len()
    &&& st.keys.len() <= st.idxs.len()
    &&& forall|j: int| 0 <= j < st.idxs.len() ==> (st.idxs[j] as int) < st.verts.len()
    &&& forall|v: int| 0 <= v < st.verts.len() ==> #[trigger] vertex_referenced(st.idxs, v)
    &&& forall|p: int, q: int| 0 <= p < q < st.keys.len() ==> st.keys[p] != st.keys[q]
    &&& forall|p: int| 0 <= p < st.keys.len() ==> index_in_range(#[trigger] st.keys[p], a)
    &&& forall|p: int|
        0 <= p < st.keys.len() ==> #[trigger] st.verts[p] == resolve_vertex(
            a,
            st.keys[p],
            st.verts[p].normal,
        )
}

/// `find_from` finds the first occurrence at or after `i`, and `-1` means
/// there is none.
pub proof fn lemma_find_from(keys: Seq<FaceIndex>, k: FaceIndex, i: int)
    requires
        0 <= i <= keys.len(),
    ensures
        find_from(keys, k, i) == -1 <==> (forall|j: int| i <= j < keys.len() ==> keys[j] != k),
        find_from(keys, k, i) != -1 ==> i <= find_from(keys, k, i) < keys.len() && keys[find_from(
            keys,
            k,
            i,
        )] == k,
    decreases keys.len() - i,
{
    if i < keys.len() && keys[i] != k {
        lemma_find_from(keys, k, i + 1);
    }
}

/// A step on one key preserves the state invariant; it grows the index
/// array by one, the key and vertex arrays by at most one, and succeeds
/// exactly when the key is either already known or in range — which, the
/// invariant standing, is exactly when the key is in range.
pub proof fn lemma_step_key(a: Attrs, st: ReState, fi: FaceIndex, flat: Vec3)
    requires
        state_inv(a, st),
        st.idxs.len() < u32::MAX,
    ensures
        step_key(a, st, fi, flat) matches Ok(st2) ==> {
            &&& state_inv(a, st2)
            &&& st2.idxs.len() == st.idxs.len() + 1
            &&& st.keys.len() <= st2.keys.len() <= st.keys.len() + 1
        },
        step_key(a, st, fi, flat).is_ok() <==> index_in_range(fi, a),
        step_key(a, st, fi, flat) matches Err(e) ==> e == LoadError::ArrayIndexError,
{
    lemma_find_from(st.keys, fi, 0);
    let r = find_key(st.keys, fi);
    if r >= 0 {
        assert(index_in_range(fi, a));  // fi == st.keys[r], which is in range
        let st2 = ReState { keys: st.keys, verts: st.verts, idxs: st.idxs.push(r as u32) };
        assert forall|v: int| 0 <= v < st2.verts.len() implies #[trigger] vertex_referenced(
            st2.idxs,
            v,
        ) by {
            assert(vertex_referenced(st.idxs, v));
            let j0 = choose|j: int| 0 <= j < st.idxs.len() && st.idxs[j] as int == v;
            assert(0 <= j0 < st2.idxs.len() && st2.idxs[j0] as int == v);
        }
    } else if index_in_range(fi, a) {
        let nv = resolve_vertex(a, fi, flat);
        let st2 = ReState {
            keys: st.keys.push(fi),
            verts: st.verts.push(nv),
            idxs: st.idxs.push(st.verts.len() as u32),
        };
        assert(nv == resolve_vertex(a, fi, nv.normal));
        assert forall|v: int| 0 <= v < st2.verts.len() implies #[trigger] vertex_referenced(
            st2.idxs,
            v,
        ) by {
            if v < st.verts.len() {
                assert(vertex_referenced(st.idxs, v));
                let j0 = choose|j: int| 0 <= j < st.idxs.len() && st.idxs[j] as int == v;
                assert(0 <= j0 < st2.idxs.len() && st2.idxs[j0] as int == v);
            } else {
                assert(st2.idxs[st.idxs.len() as int] as int == v);
            }
        }
    }
}

/// A step on one face preserves the invariant, grows the index array by
/// three, and succeeds exactly when all three keys are in range.
pub proof fn lemma_step_face(a: Attrs, st: ReState, f: Face, flat: Vec3)
    requires
        state_inv(a, st),
        st.idxs.len() + 3 <= u32::MAX,
    ensures
        step_face(a, st, f, flat) matches Ok(st2) ==> {
            &&& state_inv(a, st2)
            &&& st2.idxs.len() == st.idxs.len() + 3
            &&& st.keys.len() <= st2.keys.len() <= st.keys.len() + 3
        },
        step_face(a, st, f, flat).is_ok() <==> face_in_range(f, a),
        step_face(a, st, f, flat) matches Err(e) ==> e == LoadError::ArrayIndexError,
{
    lemma_step_key(a, st, f.k0, flat);
    if let Ok(s1) = step_key(a, st, f.k0, flat) {
        lemma_step_key(a, s1, f.k1, flat);
        if let Ok(s2) = step_key(a, s1, f.k1, flat) {
            lemma_step_key(a, s2, f.k2, flat);
        }
    }
}

/// After `n` faces the invariant holds, the index array holds exactly
/// `3 n` entries, and the run has succeeded exactly when every one of the
/// first `n` faces is in range; a failure is an `ArrayIndexError`.
pub proof fn lemma_run_faces(a: Attrs, faces: Seq<Face>, flats: Seq<Vec3>, n: int)
    requires
        0 <= n <= faces.len(),
        3 * faces.len() <= u32::MAX,
    ensures
        run_faces(a, faces, flats, n) matches Ok(st) ==> {
            &&& state_inv(a, st)
            &&& st.idxs.len() == 3 * n
            &&& st.keys.len() <= 3 * n
        },
        run_faces(a, faces, flats, n).is_ok() <==> (forall|m: int|
            0 <= m < n ==> face_in_range(#[trigger] faces[m], a)),
        run_faces(a, faces, flats, n) matches Err(e) ==> e == LoadError::ArrayIndexError,
    decreases n,
{
    if n > 0 {
        lemma_run_faces(a, faces, flats, n - 1);
        if let Ok(st) = run_faces(a, faces, flats, n - 1) {
            lemma_step_face(a, st, faces[n - 1], flats[n - 1]);
        }
    }
}

/// Once a run has failed, every longer run fails the same way.
pub proof fn lemma_err_persists(a: Attrs, faces: Seq<Face>, flats: Seq<Vec3>, n: int, m: int)
    requires
        0 <= n <= m,
        run_faces(a, faces, flats, n).is_err(),
    ensures
        run_faces(a, faces, flats, m) == run_faces(a, faces, flats, n),
    decreases m - n,
{
    if m > n {
        lemma_err_persists(a, faces, flats, n, m - 1);
    }
}

/// The key-to-final-index mapping of a completed run is a bijection onto
/// the emitted vertex set: the keys are pairwise distinct, so no two
/// distinct keys share a final index, and each key finds exactly the one
/// index it was assigned.
pub proof fn lemma_reindex_injective(a: Attrs, faces: Seq<Face>, flats: Seq<Vec3>)
    requires
        3 * faces.len() <= u32::MAX,
    ensures
        run_faces(a, faces, flats, faces.len() as int) matches Ok(st) ==> {
            &&& forall|p: int, q: int| 0 <= p < q < st.keys.len() ==> st.keys[p] != st.keys[q]
            &&& forall|p: int|
                0 <= p < st.keys.len() ==> find_key(st.keys, #[trigger] st.keys[p]) == p
        },
{
    lemma_run_faces(a, faces, flats, faces.len() as int);
    if let Ok(st) = run_faces(a, faces, flats, faces.len() as int) {
        assert forall|p: int| 0 <= p < st.keys.len() implies find_key(
            st.keys,
            #[trigger] st.keys[p],
        ) == p by {
            lemma_find_from(st.keys, st.keys[p], 0);
            let r = find_key(st.keys, st.keys[p]);
            assert(r != -1);
        }
    }
}

/// Every vertex of a completed run is the resolution of its key: its
/// position comes from the key's position slot, its texture coordinate
/// from the key's slot or the zero vector, and, where the key names a
/// normal slot, its normal from that slot; a key that names none carries
/// the flat normal of the face that introduced it, which `reindex_spec`
/// pins face by face.
pub proof fn lemma_vertex_resolution(a: Attrs, faces: Seq<Face>, flats: Seq<Vec3>)
    requires
        3 * faces.len() <= u32::MAX,
    ensures
        run_faces(a, faces, flats, faces.len() as int) matches Ok(st) ==> forall|i: int|
            0 <= i < st.verts.len() ==> index_in_range(#[trigger] st.keys[i], a) && st.verts[i]
                == resolve_vertex(a, st.keys[i], st.verts[i].normal),
{
    lemma_run_faces(a, faces, flats, faces.len() as int);
}

/// Reindexing is a function of its inputs alone: two results of the same
/// arrays are one and the same, so loading one well-formed model twice
/// yields identical vertex and index arrays.
pub proof fn lemma_reindex_deterministic(
    a: Attrs,
    faces: Seq<Face>,
    flats: Seq<Vec3>,
    r1: Result<(Seq<Vertex>, Seq<u32>), LoadError>,
    r2: Result<(Seq<Vertex>, Seq<u32>), LoadError>,
)
    requires
        r1 == reindex_spec(a, faces, flats),
        r2 == reindex_spec(a, faces, flats),
    ensures
        r1 == r2,
{
}

/// The attribute arrays as the spec reads them.
pub open spec fn attrs_of(p: Seq<Vec3>, n: Seq<Vec3>, t: Seq<Vec2>) -> Attrs {
    Attrs { positions: p, normals: n, tex_coords: t }
}

/// The reindexer state the three arrays stand for.
pub open spec fn st_of(keys: Seq<FaceIndex>, verts: Seq<Vertex>, idxs: Seq<u32>) -> ReState {
    ReState { keys, verts, idxs }
}

/// The mathematical value of a reindexing result.
pub open spec fn reindex_view(r: Result<(Vec<Vertex>, Vec<u32>), LoadError>) -> Result<
    (Seq<Vertex>, Seq<u32>),
    LoadError,
> {
    match r {
        Ok(vi) => Ok((vi.0@, vi.1@)),
        Err(e) => Err(e),
    }
}

/// One reindexer step on one face-vertex key, exactly as `step_key` says.
fn step_key_exec(
    positions: &Vec<Vec3>,
    normals: &Vec<Vec3>,
    tex_coords: &Vec<Vec2>,
    keys: &mut Vec<FaceIndex>,
    verts: &mut Vec<Vertex>,
    idxs: &mut Vec<u32>,
    fi: FaceIndex,
    flat: Vec3,
) -> (r: Result<(), LoadError>)
    requires
        old(keys)@.len() == old(verts)@.len(),
        old(verts)@.len() <= old(idxs)@.len(),
        old(idxs)@.len() < u32::MAX as int,
    ensures
        ({
            let a = attrs_of(positions@, normals@, tex_coords@);
            let st0 = st_of(old(keys)@, old(verts)@, old(idxs)@);
            match r {
                Ok(_) => step_key(a, st0, fi, flat) == Ok::<ReState, LoadError>(
                    st_of(final(keys)@, final(verts)@, final(idxs)@),
                ),
                Err(e) => step_key(a, st0, fi, flat) == Err::<ReState, LoadError>(e)
                    && final(keys)@ == old(keys)@ && final(verts)@ == old(verts)@
                    && final(idxs)@ == old(idxs)@,
            }
        }),
{
    let ghost a = attrs_of(positions@, normals@, tex_coords@);
    let n = keys.len();
    let mut i: usize = 0;
    while i < n
        invariant
            n == keys@.len(),
            i <= n,
            keys@ == old(keys)@,
            verts@ == old(verts)@,
            idxs@ == old(idxs)@,
            keys@.len() == verts@.len(),
            verts@.len() <= idxs@.len(),
            idxs@.len() < u32::MAX as int,
            find_from(keys@, fi, 0) == find_from(keys@, fi, i as int),
        decreases n - i,
    {
        if keys[i] == fi {
            proof {
                assert(find_from(keys@, fi, i as int) == i as int);
            }
            idxs.push(i as u32);
            return Ok(());
        }
        proof {
            assert(find_from(keys@, fi, i as int) == find_from(keys@, fi, i as int + 1));
        }
        i += 1;
    }
    proof {
        assert(find_from(keys@, fi, n as int) == -1);
    }
    let ok_p = fi.p_index >= 1 && fi.p_index as usize <= positions.len();
    let ok_t = match fi.tx_index {
        Some(t) => t >= 1 && t as usize <= tex_coords.len(),
        None => true,
    };
    let ok_n = match fi.n_index {
        Some(nx) => nx >= 1 && nx as usize <= normals.len(),
        None => true,
    };
    if !(ok_p && ok_t && ok_n) {
        return Err(LoadError::ArrayIndexError);
    }
    let position = positions[(fi.p_index - 1) as usize];
    let texc = match fi.tx_index {
        Some(t) => tex_coords[(t - 1) as usize],
        None => Vec2 { x: 0, y: 0 },
    };
    let normal = match fi.n_index {
        Some(nx) => normals[(nx - 1) as usize],
        None => flat,
    };
    let new_index = verts.len() as u32;
    idxs.push(new_index);
    keys.push(fi);
    verts.push(Vertex { position, normal, tex_coords: texc });
    Ok(())
}

/// The 0-based position slots of a face's three corners, for computing
/// its flat normal: each 1-based position index checked against the
/// position count, failing exactly when one is out of range.
pub fn corner_indices(face: &Face, npositions: usize) -> (r: Result<(usize, usize, usize), LoadError>)
    ensures
        r.is_ok() <==> (1 <= face.k0.p_index <= npositions && 1 <= face.k1.p_index <= npositions
            && 1 <= face.k2.p_index <= npositions),
        r matches Ok(t) ==> t.0 == face.k0.p_index - 1 && t.1 == face.k1.p_index - 1 && t.2
            == face.k2.p_index - 1,
        r matches Err(e) ==> e == LoadError::ArrayIndexError,
{
    let ok0 = face.k0.p_index >= 1 && face.k0.p_index as usize <= npositions;
    let ok1 = face.k1.p_index >= 1 && face.k1.p_index as usize <= npositions;
    let ok2 = face.k2.p_index >= 1 && face.k2.p_index as usize <= npositions;
    if ok0 && ok1 && ok2 {
        Ok(
            (
                (face.k0.p_index - 1) as usize,
                (face.k1.p_index - 1) as usize,
                (face.k2.p_index - 1) as usize,
            ),
        )
    } else {
        Err(LoadError::ArrayIndexError)
    }
}

/// Converts the multi-index faces into one deduplicated vertex array and
/// one flat triangle index array. `face_normals[m]` is the flat normal of
/// face `m`, consulted only for keys that name no normal slot. Output
/// vertex order is strictly first-encounter order over the faces in file
/// order; the result is exactly `reindex_spec` of the inputs, succeeds
/// exactly when every face-vertex index is in range, emits exactly three
/// indices per face, never more vertices than indices, and no vertex that
/// no index references.
pub fn reindex(
    positions: &Vec<Vec3>,
    normals: &Vec<Vec3>,
    tex_coords: &Vec<Vec2>,
    faces: &Vec<Face>,
    face_normals: &Vec<Vec3>,
) -> (r: Result<(Vec<Vertex>, Vec<u32>), LoadError>)
    requires
        face_normals@.len() == faces@.len(),
        3 * faces@.len() <= u32::MAX as int,
    ensures
        reindex_view(r) == reindex_spec(
            attrs_of(positions@, normals@, tex_coords@),
            faces@,
            face_normals@,
        ),
        r.is_ok() <==> (forall|m: int|
            0 <= m < faces@.len() ==> face_in_range(
                #[trigger] faces@[m],
                attrs_of(positions@, normals@, tex_coords@),
            )),
        r matches Err(e) ==> e == LoadError::ArrayIndexError,
        r matches Ok(vi) ==> {
            &&& vi.1@.len() == 3 * faces@.len()
            &&& vi.0@.len() <= 3 * faces@.len()
            &&& (faces@.len() > 0 ==> vi.0@.len() >= 1)
            &&& forall|j: int| 0 <= j < vi.1@.len() ==> (vi.1@[j] as int) < vi.0@.len()
            &&& forall|v: int| 0 <= v < vi.0@.len() ==> #[trigger] vertex_referenced(vi.1@, v)
        },
{
    let ghost a = attrs_of(positions@, normals@, tex_coords@);
    let ghost nf = faces@.len() as int;
    let mut keys: Vec<FaceIndex> = Vec::new();
    let mut verts: Vec<Vertex> = Vec::new();
    let mut idxs: Vec<u32> = Vec::new();
    let nfaces = faces.len();
    let mut f: usize = 0;
    while f < nfaces
        invariant
            nfaces == faces@.len(),
            face_normals@.len() == faces@.len(),
            3 * faces@.len() <= u32::MAX as int,
            f <= nfaces,
            a == attrs_of(positions@, normals@, tex_coords@),
            nf == faces@.len() as int,
            run_faces(a, faces@, face_normals@, f as int) == Ok::<ReState, LoadError>(
                st_of(keys@, verts@, idxs@),
            ),
        decreases nfaces - f,
    {
        proof {
            lemma_run_faces(a, faces@, face_normals@, f as int);
        }
        let face = faces[f];
        let flat = face_normals[f];
        let ghost st0 = st_of(keys@, verts@, idxs@);
        let r0 = step_key_exec(
            positions,
            normals,
            tex_coords,
            &mut keys,
            &mut verts,
            &mut idxs,
            face.k0,
            flat,
        );
        if let Err(e) = r0 {
            proof {
                assert(run_faces(a, faces@, face_normals@, f as int + 1) == Err::<
                    ReState,
                    LoadError,
                >(e));
                lemma_err_persists(a, faces@, face_normals@, f as int + 1, nf);
                lemma_run_faces(a, faces@, face_normals@, nf);
            }
            return Err(e);
        }
        proof {
            lemma_step_key(a, st0, face.k0, flat);
        }
        let ghost st1 = st_of(keys@, verts@, idxs@);
        let r1 = step_key_exec(
            positions,
            normals,
            tex_coords,
            &mut keys,
            &mut verts,
            &mut idxs,
            face.k1,
            flat,
        );
        if let Err(e) = r1 {
            proof {
                assert(step_face(a, st0, face, flat) == Err::<ReState, LoadError>(e));
                assert(run_faces(a, faces@, face_normals@, f as int + 1) == Err::<
                    ReState,
                    LoadError,
                >(e));
                lemma_err_persists(a, faces@, face_normals@, f as int + 1, nf);
                lemma_run_faces(a, faces@, face_normals@, nf);
            }
            return Err(e);
        }
        proof {
            lemma_step_key(a, st1, face.k1, flat);
        }
        let ghost st2 = st_of(keys@, verts@, idxs@);
        let r2 = step_key_exec(
            positions,
            normals,
            tex_coords,
            &mut keys,
            &mut verts,
            &mut idxs,
            face.k2,
            flat,
        );
        if let Err(e) = r2 {
            proof {
                assert(step_face(a, st0, face, flat) == Err::<ReState, LoadError>(e));
                assert(run_faces(a, faces@, face_normals@, f as int + 1) == Err::<
                    ReState,
                    LoadError,
                >(e));
                lemma_err_persists(a, faces@, face_normals@, f as int + 1, nf);
                lemma_run_faces(a, faces@, face_normals@, nf);
            }
            return Err(e);
        }
        proof {
            let st3 = st_of(keys@, verts@, idxs@);
            assert(step_face(a, st0, face, flat) == Ok::<ReState, LoadError>(st3));
            assert(run_faces(a, faces@, face_normals@, f as int + 1) == Ok::<ReState, LoadError>(
                st3,
            ));
        }
        f += 1;
    }
    proof {
        lemma_run_faces(a, faces@, face_normals@, nf);
        let st = st_of(keys@, verts@, idxs@);
        if st.idxs.len() > 0 {
            assert((st.idxs[0] as int) < st.verts.len());
        }
    }
    Ok((verts, idxs))
}

} // verus!
