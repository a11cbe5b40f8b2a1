//! The six directions of the local-space cube.
use vstd::prelude::*;

verus! {

/// A direction on the six-sided local-space cube.
///
/// [`Top`](Self::Top) faces toward `+Y`, [`Bottom`](Self::Bottom) toward `-Y`,
/// [`Front`](Self::Front) toward `+Z`, [`Back`](Self::Back) toward `-Z`,
/// [`Right`](Self::Right) toward `+X`, [`Left`](Self::Left) toward `-X`.
#[derive(Clone, Copy, Debug, Default, PartialEq, Eq, Hash)]
pub enum Face {
    /// The face toward `+Y`.
    Top,
    /// The face toward `-Y`.
    Bottom,
    /// The face toward `+Z`.
    #[default]
    Front,
    /// The face toward `-Z`.
    Back,
    /// The face toward `-X`.
    Left,
    /// The face toward `+X`.
    Right,
}

/// The material-slot index of a face.
pub open spec fn face_material_index(face: Face) -> int {
    match face {
        Face::Top => 0,
        Face::Bottom => 1,
        Face::Front => 2,
        Face::Back => 3,
        Face::Left => 4,
        Face::Right => 5,
    }
}

/// The WebGPU cubemap-layer index of a face.
pub open spec fn face_cubemap_index(face: Face) -> int {
    match face {
        Face::Right => 0,
        Face::Left => 1,
        Face::Top => 2,
        Face::Bottom => 3,
        Face::Front => 4,
        Face::Back => 5,
    }
}

impl Face {
    /// All faces in material-slot order.
    pub const ALL: [Face; 6] = [Face::Top, Face::Bottom, Face::Front, Face::Back, Face::Left, Face::Right];

    /// All faces in WebGPU cubemap-layer order.
    pub const ALL_CUBEMAP: [Face; 6] = [Face::Right, Face::Left, Face::Top, Face::Bottom, Face::Front, Face::Back];

    /// Returns the zero-based material-slot index for this face.
    pub fn material_index(self) -> (index: usize)
        ensures
            index == face_material_index(self),
    {
        match self {
            Face::Top => 0,
            Face::Bottom => 1,
            Face::Front => 2,
            Face::Back => 3,
            Face::Left => 4,
            Face::Right => 5,
        }
    }

    /// Returns the zero-based WebGPU cubemap-layer index for this face.
    pub fn cubemap_index(self) -> (index: usize)
        ensures
            index == face_cubemap_index(self),
    {
        match self {
            Face::Right => 0,
            Face::Left => 1,
            Face::Top => 2,
            Face::Bottom => 3,
            Face::Front => 4,
            Face::Back => 5,
        }
    }
}

/// Both indices number the six faces `0..6`, each face with its own index,
/// and [`Face::ALL`] and [`Face::ALL_CUBEMAP`] list the faces in index order.
pub proof fn law_face_indices_are_orderings(a: Face, b: Face)
    ensures
        0 <= face_material_index(a) < 6,
        0 <= face_cubemap_index(a) < 6,
        face_material_index(a) == face_material_index(b) ==> a == b,
        face_cubemap_index(a) == face_cubemap_index(b) ==> a == b,
        forall|i: int| 0 <= i < 6 ==> face_material_index(#[trigger] Face::ALL@[i]) == i,
        forall|i: int| 0 <= i < 6 ==> face_cubemap_index(#[trigger] Face::ALL_CUBEMAP@[i]) == i,
{
    assert(Face::ALL@ =~= seq![Face::Top, Face::Bottom, Face::Front, Face::Back, Face::Left, Face::Right]);
    assert(Face::ALL_CUBEMAP@ =~= seq![Face::Right, Face::Left, Face::Top, Face::Bottom, Face::Front, Face::Back]);
}

} // verus!
