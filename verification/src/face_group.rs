//! Symbolic face groups of a cube and the faces they stand for.
//!
//! Faces are numbered in the order right, left, top, bottom, front, back.

use vstd::prelude::*;

verus! {

/// Number of quad faces of a cube.
pub const FACE_COUNT: usize = 6;

/// A symbolic selection of cube faces.
#[derive(Clone, Copy, Debug, PartialEq, Eq, Structural)]
pub enum FaceGroup {
    /// Every face.
    All,
    /// The four vertical faces: right, left, front and back.
    Sides,
    Right,
    Left,
    Top,
    Bottom,
    Front,
    Back,
}

/// The face group that a key names, if it names one.
pub open spec fn group_of_key(key: Seq<char>) -> Option<FaceGroup> {
    if key == "all"@ {
        Some(FaceGroup::All)
    } else if key == "sides"@ {
        Some(FaceGroup::Sides)
    } else if key == "right"@ {
        Some(FaceGroup::Right)
    } else if key == "left"@ {
        Some(FaceGroup::Left)
    } else if key == "top"@ {
        Some(FaceGroup::Top)
    } else if key == "bottom"@ {
        Some(FaceGroup::Bottom)
    } else if key == "front"@ {
        Some(FaceGroup::Front)
    } else if key == "back"@ {
        Some(FaceGroup::Back)
    } else {
        None
    }
}

/// The faces that a key selects: those of its group, and none for a key that
/// names no group.
pub open spec fn faces_of_key(key: Seq<char>) -> Set<int> {
    match group_of_key(key) {
        Some(group) => group.faces(),
        None => Set::empty(),
    }
}

impl FaceGroup {
    /// The face indices of this group.
    pub open spec fn faces(self) -> Set<int> {
        match self {
            FaceGroup::All => set![0, 1, 2, 3, 4, 5],
            FaceGroup::Sides => set![0, 1, 4, 5],
            FaceGroup::Right => set![0],
            FaceGroup::Left => set![1],
            FaceGroup::Top => set![2],
            FaceGroup::Bottom => set![3],
            FaceGroup::Front => set![4],
            FaceGroup::Back => set![5],
        }
    }

    /// Reads a face-group key. Keys are matched exactly; any other key names
    /// no group.
    pub fn from_key(key: &str) -> (group: Option<FaceGroup>)
        ensures
            group == group_of_key(key@),
    {
        let key = key.to_owned();
        if key == "all".to_owned() {
            Some(FaceGroup::All)
        } else if key == "sides".to_owned() {
            Some(FaceGroup::Sides)
        } else if key == "right".to_owned() {
            Some(FaceGroup::Right)
        } else if key == "left".to_owned() {
            Some(FaceGroup::Left)
        } else if key == "top".to_owned() {
            Some(FaceGroup::Top)
        } else if key == "bottom".to_owned() {
            Some(FaceGroup::Bottom)
        } else if key == "front".to_owned() {
            Some(FaceGroup::Front)
        } else if key == "back".to_owned() {
            Some(FaceGroup::Back)
        } else {
            None
        }
    }

    /// Whether face `face` belongs to this group.
    pub fn contains(&self, face: usize) -> (r: bool)
        ensures
            r == self.faces().contains(face as int),
    {
        match *self {
            FaceGroup::All => face < 6,
            FaceGroup::Sides => face == 0 || face == 1 || face == 4 || face == 5,
            FaceGroup::Right => face == 0,
            FaceGroup::Left => face == 1,
            FaceGroup::Top => face == 2,
            FaceGroup::Bottom => face == 3,
            FaceGroup::Front => face == 4,
            FaceGroup::Back => face == 5,
        }
    }
}

} // verus!
