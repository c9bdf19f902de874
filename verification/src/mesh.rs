//! Triangle-mesh topology: grouping a flat index list into triangles,
//! checking that texture-coordinate indices fit the vertex indices, and
//! finding the corners of the face that a ray hit.

use vstd::prelude::*;

verus! {

/// The triangles of a flat index list: each run of three in order; a
/// shorter run at the end is dropped.
pub open spec fn triangles_of(flat: Seq<u32>) -> Seq<[u32; 3]> {
    Seq::new(flat.len() / 3, |k: int| [flat[3 * k], flat[3 * k + 1], flat[3 * k + 2]])
}

/// Groups a flat index list into triangles (see `triangles_of`).
pub fn group_triangles(flat: &Vec<u32>) -> (tris: Vec<[u32; 3]>)
    ensures
        tris@ == triangles_of(flat@),
{
    let n = flat.len() / 3;
    let mut tris: Vec<[u32; 3]> = Vec::new();
    let mut k: usize = 0;
    while k < n
        invariant
            n == flat@.len() / 3,
            k <= n,
            tris@ == triangles_of(flat@).take(k as int),
        decreases n - k,
    {
        assert(3 * k + 2 < flat@.len()) by (nonlinear_arith)
            requires
                k < n,
                n == flat@.len() / 3,
        ;
        assert(flat@.len() == flat.len());
        let i: usize = 3 * k;
        let t = [flat[i], flat[i + 1], flat[i + 2]];
        tris.push(t);
        proof {
            assert(triangles_of(flat@).take(k + 1) =~= triangles_of(flat@).take(k as int).push(t));
        }
        k += 1;
    }
    proof {
        assert(triangles_of(flat@).take(n as int) =~= triangles_of(flat@));
    }
    tris
}

/// Whether a mesh's texture-coordinate indices can be used with its
/// vertex indices: there are none, or as many as vertex indices.
pub fn texcoords_match(index_count: usize, texcoord_index_count: usize) -> (ok: bool)
    ensures
        ok == (texcoord_index_count == 0 || index_count == texcoord_index_count),
{
    !(texcoord_index_count > 0 && index_count != texcoord_index_count)
}

/// The face that a hit names: its id taken modulo the number of faces.
pub fn face_slot(face_id: u32, face_count: usize) -> (f: usize)
    requires
        0 < face_count <= u32::MAX,
    ensures
        f == (face_id as int) % (face_count as int),
        f < face_count,
{
    (face_id % (face_count as u32)) as usize
}

/// The vertex indices of the hit face and the matching attribute indices
/// (texture coordinates or normals) of that face.
pub fn face_corners(face_id: u32, indices: &Vec<[u32; 3]>, attr_indices: &Vec<[u32; 3]>) -> (r: (
    [u32; 3],
    [u32; 3],
))
    requires
        0 < indices@.len() <= u32::MAX,
        (face_id as int) % (indices@.len() as int) < attr_indices@.len(),
    ensures
        r.0 == indices@[(face_id as int) % (indices@.len() as int)],
        r.1 == attr_indices@[(face_id as int) % (indices@.len() as int)],
{
    let f = face_slot(face_id, indices.len());
    (indices[f], attr_indices[f])
}

/// `count` triangles with fresh corners: triangle `k` has corners `3k`,
/// `3k + 1` and `3k + 2`.
pub open spec fn fresh_triangles(count: nat) -> Seq<[u32; 3]> {
    Seq::new(count, |k: int| [(3 * k) as u32, (3 * k + 1) as u32, (3 * k + 2) as u32])
}

/// Index lists for `count` triangles whose corners are stored one after
/// another: fresh corners for the vertices, and the same for normals and
/// texture coordinates where the model has them (empty where it has not).
pub fn fresh_index_lists(count: u32, has_normals: bool, has_tex_coords: bool) -> (r: (
    Vec<[u32; 3]>,
    Vec<[u32; 3]>,
    Vec<[u32; 3]>,
))
    requires
        3 * count <= u32::MAX,
    ensures
        r.0@ == fresh_triangles(count as nat),
        r.1@ == (if has_normals {
            fresh_triangles(count as nat)
        } else {
            Seq::empty()
        }),
        r.2@ == (if has_tex_coords {
            fresh_triangles(count as nat)
        } else {
            Seq::empty()
        }),
{
    let mut indices: Vec<[u32; 3]> = Vec::new();
    let mut normals: Vec<[u32; 3]> = Vec::new();
    let mut uvs: Vec<[u32; 3]> = Vec::new();
    let mut k: u32 = 0;
    while k < count
        invariant
            k <= count,
            3 * count <= u32::MAX,
            indices@ == fresh_triangles(count as nat).take(k as int),
            normals@ == (if has_normals {
                fresh_triangles(count as nat).take(k as int)
            } else {
                Seq::empty()
            }),
            uvs@ == (if has_tex_coords {
                fresh_triangles(count as nat).take(k as int)
            } else {
                Seq::empty()
            }),
        decreases count - k,
    {
        let i = 3 * k;
        let t = [i, i + 1, i + 2];
        proof {
            assert(fresh_triangles(count as nat).take(k + 1) =~= fresh_triangles(count as nat).take(
                k as int,
            ).push(t));
        }
        indices.push(t);
        if has_normals {
            normals.push(t);
        }
        if has_tex_coords {
            uvs.push(t);
        }
        k += 1;
    }
    proof {
        assert(fresh_triangles(count as nat).take(count as int) =~= fresh_triangles(count as nat));
    }
    (indices, normals, uvs)
}

} // verus!
