use raytracer::mesh::{face_kind, mesh_format, validate_faces, FaceKind, MeshError, MeshFormat, QuadShape};

const GOOD: QuadShape = QuadShape { coplanar: true, convex: true };

#[test]
fn face_kinds() {
    assert!(face_kind(3) == Some(FaceKind::Triangle));
    assert!(face_kind(4) == Some(FaceKind::Quadrilateral));
    assert!(face_kind(2).is_none());
    assert!(face_kind(5).is_none());
}

#[test]
fn mesh_format_by_extension() {
    assert!(mesh_format("assets/test.ply") == Ok(MeshFormat::Ply));
    assert!(mesh_format("ply") == Ok(MeshFormat::Ply));
    assert!(mesh_format("dir.v2/model.ply") == Ok(MeshFormat::Ply));
    assert!(mesh_format("model.obj") == Err(MeshError::UnsupportedFormat));
    assert!(mesh_format("model.PLY") == Err(MeshError::UnsupportedFormat));
    assert!(mesh_format("model.ply.bak") == Err(MeshError::UnsupportedFormat));
    assert!(mesh_format("model.") == Err(MeshError::UnsupportedFormat));
    assert!(mesh_format("") == Err(MeshError::UnsupportedFormat));
}

#[test]
fn valid_mesh_passes() {
    let faces = vec![vec![0, 1, 2], vec![0, 1, 2, 3]];
    assert!(validate_faces(&faces, 4, &vec![GOOD, GOOD]) == Ok(()));
    assert!(validate_faces(&Vec::new(), 0, &Vec::new()) == Ok(()));
}

#[test]
fn mesh_errors() {
    let bent = QuadShape { coplanar: false, convex: false };
    let concave = QuadShape { coplanar: true, convex: false };
    assert!(
        validate_faces(&vec![vec![0, 1, 2], vec![0, 1]], 3, &vec![GOOD, GOOD])
            == Err(MeshError::TooFewIndices { face: 1 })
    );
    assert!(
        validate_faces(&vec![vec![0, 1, 2, 3, 0]], 4, &vec![GOOD])
            == Err(MeshError::UnsupportedArity { face: 0 })
    );
    assert!(
        validate_faces(&vec![vec![0, 1, 7]], 4, &vec![GOOD])
            == Err(MeshError::IndexOutOfRange { face: 0 })
    );
    assert!(
        validate_faces(&vec![vec![0, 1, 2], vec![0, 1, 2, 3]], 4, &vec![GOOD, bent])
            == Err(MeshError::NotCoplanar { face: 1 })
    );
    assert!(
        validate_faces(&vec![vec![0, 1, 2, 3]], 4, &vec![concave])
            == Err(MeshError::NotConvex { face: 0 })
    );
    // A triangle ignores the quadrilateral checks.
    assert!(validate_faces(&vec![vec![0, 1, 2]], 3, &vec![bent]) == Ok(()));
    // The first refused face decides.
    assert!(
        validate_faces(&vec![vec![0, 9, 2], vec![0]], 3, &vec![GOOD, GOOD])
            == Err(MeshError::IndexOutOfRange { face: 0 })
    );
}
