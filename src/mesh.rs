use vstd::prelude::*;
use vstd::string::StringSliceAdditionalSpecFns;

verus! {

/// The primitive that a mesh face stands for.
#[derive(Clone, Copy, Debug, PartialEq, Eq, Structural)]
pub enum FaceKind {
    Triangle,
    Quadrilateral,
}

/// The kind of a face with `len` vertex indices, if it has one.
pub open spec fn face_kind_of(len: nat) -> Option<FaceKind> {
    if len == 3 {
        Some(FaceKind::Triangle)
    } else if len == 4 {
        Some(FaceKind::Quadrilateral)
    } else {
        None
    }
}

/// The kind of a face with `len` vertex indices: three make a triangle, four
/// a quadrilateral, and no other count is supported.
pub fn face_kind(len: usize) -> (r: Option<FaceKind>)
    ensures
        r == face_kind_of(len as nat),
{
    if len == 3 {
        Some(FaceKind::Triangle)
    } else if len == 4 {
        Some(FaceKind::Quadrilateral)
    } else {
        None
    }
}

/// Mesh file formats that can be loaded.
#[derive(Clone, Copy, Debug, PartialEq, Eq, Structural)]
pub enum MeshFormat {
    Ply,
}

/// Reasons for refusing a mesh before rendering starts.
#[derive(Clone, Copy, Debug, PartialEq, Eq, Structural)]
pub enum MeshError {
    /// The file's extension names no supported format.
    UnsupportedFormat,
    /// The face with this index has fewer than three vertex indices.
    TooFewIndices { face: usize },
    /// The face with this index has more than four vertex indices.
    UnsupportedArity { face: usize },
    /// The face with this index names a vertex that does not exist.
    IndexOutOfRange { face: usize },
    /// The quadrilateral face with this index is not planar.
    NotCoplanar { face: usize },
    /// The quadrilateral face with this index is not convex.
    NotConvex { face: usize },
}

pub const DOT: u8 = 46;

/// Where the extension of a path starts: just past its last '.', or at 0
/// when there is none.
pub open spec fn extension_start(b: Seq<u8>) -> nat
    decreases b.len(),
{
    if b.len() == 0 {
        0
    } else if b.last() == DOT {
        b.len()
    } else {
        extension_start(b.drop_last())
    }
}

/// The part of a path after its last '.', or the whole path when it has none.
pub open spec fn extension(b: Seq<u8>) -> Seq<u8> {
    b.subrange(extension_start(b) as int, b.len() as int)
}

/// The bytes of "ply".
pub open spec fn ply_bytes() -> Seq<u8> {
    seq![112u8, 108u8, 121u8]
}

proof fn lemma_extension_start(b: Seq<u8>, k: nat)
    requires
        k <= b.len(),
        k == 0 || b[k - 1] == DOT,
        forall|j: int| k <= j < b.len() ==> b[j] != DOT,
    ensures
        extension_start(b) == k,
    decreases b.len(),
{
    if b.len() > k {
        assert(b.drop_last().len() == b.len() - 1);
        lemma_extension_start(b.drop_last(), k);
    }
}

/// The format of the mesh file at `path`, told by its extension.
pub fn mesh_format(path: &str) -> (r: Result<MeshFormat, MeshError>)
    ensures
        r == (if extension(path.spec_bytes()) == ply_bytes() {
            Ok::<MeshFormat, MeshError>(MeshFormat::Ply)
        } else {
            Err(MeshError::UnsupportedFormat)
        }),
{
    let b = path.as_bytes();
    let n = b.len();
    let mut k: usize = n;
    while k > 0 && b[k - 1] != DOT
        invariant
            k <= n,
            n == b@.len(),
            b@ == path.spec_bytes(),
            forall|j: int| k <= j < n ==> b@[j] != DOT,
        decreases k,
    {
        k = k - 1;
    }
    proof {
        lemma_extension_start(b@, k as nat);
    }
    let found = n - k == 3 && b[k] == 112u8 && b[k + 1] == 108u8 && b[k + 2] == 121u8;
    proof {
        let ext = b@.subrange(k as int, n as int);
        if found {
            assert(ext =~= ply_bytes());
        } else if ext.len() == 3 {
            assert(ext[0] == b@[k as int] && ext[1] == b@[k + 1] && ext[2] == b@[k + 2]);
        }
    }
    if found {
        Ok(MeshFormat::Ply)
    } else {
        Err(MeshError::UnsupportedFormat)
    }
}

/// What the geometry tells of a quadrilateral face's four vertices.
#[derive(Clone, Copy, Debug)]
pub struct QuadShape {
    pub coplanar: bool,
    pub convex: bool,
}

/// Whether every index of `face` names one of `vertex_count` vertices.
pub open spec fn indices_in_range(face: Seq<usize>, vertex_count: nat) -> bool {
    forall|k: int| 0 <= k < face.len() ==> face[k] < vertex_count
}

/// The reason face `i` is refused, if any. `shape` is only read for a
/// quadrilateral whose indices are all in range.
pub open spec fn face_error(face: Seq<usize>, i: nat, vertex_count: nat, shape: QuadShape) -> Option<
    MeshError,
> {
    if face.len() < 3 {
        Some(MeshError::TooFewIndices { face: i as usize })
    } else if face.len() > 4 {
        Some(MeshError::UnsupportedArity { face: i as usize })
    } else if !indices_in_range(face, vertex_count) {
        Some(MeshError::IndexOutOfRange { face: i as usize })
    } else if face.len() == 4 && !shape.coplanar {
        Some(MeshError::NotCoplanar { face: i as usize })
    } else if face.len() == 4 && !shape.convex {
        Some(MeshError::NotConvex { face: i as usize })
    } else {
        None
    }
}

/// The reason the first refused face among the first `n` is refused, if any.
pub open spec fn first_face_error(
    faces: Seq<Seq<usize>>,
    vertex_count: nat,
    shapes: Seq<QuadShape>,
    n: nat,
) -> Option<MeshError>
    decreases n,
{
    if n == 0 {
        None
    } else {
        match first_face_error(faces, vertex_count, shapes, (n - 1) as nat) {
            Some(e) => Some(e),
            None => face_error(faces[n - 1], (n - 1) as nat, vertex_count, shapes[n - 1]),
        }
    }
}

proof fn lemma_first_error_kept(
    faces: Seq<Seq<usize>>,
    vertex_count: nat,
    shapes: Seq<QuadShape>,
    m: nat,
    n: nat,
)
    requires
        m <= n,
        first_face_error(faces, vertex_count, shapes, m) is Some,
    ensures
        first_face_error(faces, vertex_count, shapes, n) == first_face_error(
            faces,
            vertex_count,
            shapes,
            m,
        ),
    decreases n,
{
    if n > m {
        lemma_first_error_kept(faces, vertex_count, shapes, m, (n - 1) as nat);
    }
}

fn check_face(face: &Vec<usize>, i: usize, vertex_count: usize, shape: QuadShape) -> (r: Option<
    MeshError,
>)
    ensures
        r == face_error(face@, i as nat, vertex_count as nat, shape),
{
    let len = face.len();
    if len < 3 {
        return Some(MeshError::TooFewIndices { face: i });
    }
    if len > 4 {
        return Some(MeshError::UnsupportedArity { face: i });
    }
    let mut k: usize = 0;
    while k < len
        invariant
            k <= len,
            3 <= len <= 4,
            len == face@.len(),
            forall|j: int| 0 <= j < k ==> face@[j] < vertex_count,
        decreases len - k,
    {
        if face[k] >= vertex_count {
            proof {
                assert(face@[k as int] >= vertex_count);
            }
            return Some(MeshError::IndexOutOfRange { face: i });
        }
        k = k + 1;
    }
    if len == 4 && !shape.coplanar {
        return Some(MeshError::NotCoplanar { face: i });
    }
    if len == 4 && !shape.convex {
        return Some(MeshError::NotConvex { face: i });
    }
    None
}

/// Checks the faces of a mesh with `vertex_count` vertices before it is
/// used: each face needs three or four vertex indices, all in range, and a
/// quadrilateral face has to be planar and convex, as `shapes` (one entry per
/// face) reports. The first refused face gives the error.
pub fn validate_faces(faces: &Vec<Vec<usize>>, vertex_count: usize, shapes: &Vec<QuadShape>) -> (r:
    Result<(), MeshError>)
    requires
        shapes.len() == faces.len(),
    ensures
        r == (match first_face_error(
            faces@.map_values(|f: Vec<usize>| f@),
            vertex_count as nat,
            shapes@,
            faces.len() as nat,
        ) {
            Some(e) => Err(e),
            None => Ok(()),
        }),
{
    let ghost all = faces@.map_values(|f: Vec<usize>| f@);
    let mut i: usize = 0;
    while i < faces.len()
        invariant
            i <= faces.len(),
            shapes.len() == faces.len(),
            all == faces@.map_values(|f: Vec<usize>| f@),
            first_face_error(all, vertex_count as nat, shapes@, i as nat) is None,
        decreases faces.len() - i,
    {
        proof {
            assert(all[i as int] == faces@[i as int]@);
        }
        match check_face(&faces[i], i, vertex_count, shapes[i]) {
            Some(e) => {
                proof {
                    lemma_first_error_kept(
                        all,
                        vertex_count as nat,
                        shapes@,
                        (i + 1) as nat,
                        faces.len() as nat,
                    );
                }
                return Err(e);
            },
            None => {},
        }
        i = i + 1;
    }
    Ok(())
}

} // verus!
