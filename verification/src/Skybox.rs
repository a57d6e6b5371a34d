//! A unit cube around the camera, drawn from eight corners and 36 indices.
use vstd::prelude::*;

verus! {

/// Corners of the cube: (x, y, z) each ±1, top face first.
pub open spec fn skybox_xyz_spec() -> Seq<i8> {
    seq![-1i8, 1, 1, 1, 1, 1, 1, 1, -1i8, -1i8, 1, -1i8, -1i8, -1i8, 1, 1, -1i8, 1, 1, -1i8, -1i8, -1i8, -1i8, -1i8]
}

/// Two triangles for each of the six faces.
pub open spec fn skybox_idx_spec() -> Seq<u8> {
    seq![
        0u8, 1, 3, 3, 1, 2,
        4, 5, 7, 7, 5, 6,
        0, 1, 4, 4, 1, 5,
        3, 2, 7, 7, 2, 6,
        2, 1, 6, 6, 1, 5,
        3, 7, 0, 0, 7, 4,
    ]
}

/// Geometry of the skybox: indices, corner positions and the number of
/// indices to draw.
pub struct SkyboxMesh {
    pub idx: Vec<u8>,
    pub xyz: Vec<i8>,
    pub count: i32,
}

/// The skybox geometry, drawn as indexed triangles.
pub fn Draw() -> (r: SkyboxMesh)
    ensures
        r.idx@ == skybox_idx_spec(),
        r.xyz@ == skybox_xyz_spec(),
        r.count == 36,
{
    let idx = vec![
        0u8, 1, 3, 3, 1, 2,
        4, 5, 7, 7, 5, 6,
        0, 1, 4, 4, 1, 5,
        3, 2, 7, 7, 2, 6,
        2, 1, 6, 6, 1, 5,
        3, 7, 0, 0, 7, 4,
    ];
    let xyz = vec![-1i8, 1, 1, 1, 1, 1, 1, 1, -1, -1, 1, -1, -1, -1, 1, 1, -1, 1, 1, -1, -1, -1, -1, -1];
    assert(idx@ =~= skybox_idx_spec());
    assert(xyz@ =~= skybox_xyz_spec());
    SkyboxMesh { idx, xyz, count: 36 }
}

/// Law: the skybox draws all its indices, every index names one of the
/// eight corners, and every corner lies on the unit cube.
pub proof fn law_skybox_indices_valid()
    ensures
        skybox_idx_spec().len() == 36,
        skybox_xyz_spec().len() == 3 * 8,
        forall|i: int| 0 <= i < 36 ==> (#[trigger] skybox_idx_spec()[i]) < 8,
        forall|i: int| 0 <= i < 24 ==> (#[trigger] skybox_xyz_spec()[i]) == 1 || skybox_xyz_spec()[i] == -1,
{
}

} // verus!
