//! The canonical humanoid bone vocabulary.
use vstd::prelude::*;

verus! {

/// A canonical humanoid bone slot, modeled after the VRM "Humanoid" bone set
/// (itself modeled after Unity's Humanoid avatar system). A [`crate::BoneMap`]
/// links each of these to the actual bone name found in a specific rigged model.
///
/// The set covers the full body so the same rig can later be driven by
/// hand/body trackers, not just the face tracker.
#[derive(Debug, Clone, Copy, PartialEq, Eq, Structural, Hash, PartialOrd, Ord)]
pub enum HumanoidBone {
    Hips,
    Spine,
    Chest,
    UpperChest,
    Neck,
    Head,
    LeftEye,
    RightEye,
    Jaw,
    LeftShoulder,
    LeftUpperArm,
    LeftLowerArm,
    LeftHand,
    RightShoulder,
    RightUpperArm,
    RightLowerArm,
    RightHand,
    LeftUpperLeg,
    LeftLowerLeg,
    LeftFoot,
    LeftToes,
    RightUpperLeg,
    RightLowerLeg,
    RightFoot,
    RightToes,
}


impl HumanoidBone {
    /// All bone slots, in a stable, human-friendly order (the declaration
    /// order, which is also the order `Ord` sorts them in).
    pub const ALL: [HumanoidBone; 25] = [
        HumanoidBone::Hips,
        HumanoidBone::Spine,
        HumanoidBone::Chest,
        HumanoidBone::UpperChest,
        HumanoidBone::Neck,
        HumanoidBone::Head,
        HumanoidBone::LeftEye,
        HumanoidBone::RightEye,
        HumanoidBone::Jaw,
        HumanoidBone::LeftShoulder,
        HumanoidBone::LeftUpperArm,
        HumanoidBone::LeftLowerArm,
        HumanoidBone::LeftHand,
        HumanoidBone::RightShoulder,
        HumanoidBone::RightUpperArm,
        HumanoidBone::RightLowerArm,
        HumanoidBone::RightHand,
        HumanoidBone::LeftUpperLeg,
        HumanoidBone::LeftLowerLeg,
        HumanoidBone::LeftFoot,
        HumanoidBone::LeftToes,
        HumanoidBone::RightUpperLeg,
        HumanoidBone::RightLowerLeg,
        HumanoidBone::RightFoot,
        HumanoidBone::RightToes,
    ];

    /// Bones the built-in webcam face tracker can drive today. Everything
    /// else in [`HumanoidBone::ALL`] is still auto-mapped and saved to the rig
    /// config so future trackers have somewhere to plug in.
    pub const FACE_TRACKED: [HumanoidBone; 5] = [
        HumanoidBone::Neck,
        HumanoidBone::Head,
        HumanoidBone::LeftEye,
        HumanoidBone::RightEye,
        HumanoidBone::Jaw,
    ];

    /// Position of the slot in declaration order (`0..25`).
    pub open spec fn position(self) -> nat {
        match self {
            HumanoidBone::Hips => 0,
            HumanoidBone::Spine => 1,
            HumanoidBone::Chest => 2,
            HumanoidBone::UpperChest => 3,
            HumanoidBone::Neck => 4,
            HumanoidBone::Head => 5,
            HumanoidBone::LeftEye => 6,
            HumanoidBone::RightEye => 7,
            HumanoidBone::Jaw => 8,
            HumanoidBone::LeftShoulder => 9,
            HumanoidBone::LeftUpperArm => 10,
            HumanoidBone::LeftLowerArm => 11,
            HumanoidBone::LeftHand => 12,
            HumanoidBone::RightShoulder => 13,
            HumanoidBone::RightUpperArm => 14,
            HumanoidBone::RightLowerArm => 15,
            HumanoidBone::RightHand => 16,
            HumanoidBone::LeftUpperLeg => 17,
            HumanoidBone::LeftLowerLeg => 18,
            HumanoidBone::LeftFoot => 19,
            HumanoidBone::LeftToes => 20,
            HumanoidBone::RightUpperLeg => 21,
            HumanoidBone::RightLowerLeg => 22,
            HumanoidBone::RightFoot => 23,
            HumanoidBone::RightToes => 24,
        }
    }

    /// The slot at a given position in declaration order.
    pub open spec fn at_position(i: int) -> HumanoidBone
        recommends
            0 <= i < 25,
    {
        if i == 0 {
            HumanoidBone::Hips
        } else if i == 1 {
            HumanoidBone::Spine
        } else if i == 2 {
            HumanoidBone::Chest
        } else if i == 3 {
            HumanoidBone::UpperChest
        } else if i == 4 {
            HumanoidBone::Neck
        } else if i == 5 {
            HumanoidBone::Head
        } else if i == 6 {
            HumanoidBone::LeftEye
        } else if i == 7 {
            HumanoidBone::RightEye
        } else if i == 8 {
            HumanoidBone::Jaw
        } else if i == 9 {
            HumanoidBone::LeftShoulder
        } else if i == 10 {
            HumanoidBone::LeftUpperArm
        } else if i == 11 {
            HumanoidBone::LeftLowerArm
        } else if i == 12 {
            HumanoidBone::LeftHand
        } else if i == 13 {
            HumanoidBone::RightShoulder
        } else if i == 14 {
            HumanoidBone::RightUpperArm
        } else if i == 15 {
            HumanoidBone::RightLowerArm
        } else if i == 16 {
            HumanoidBone::RightHand
        } else if i == 17 {
            HumanoidBone::LeftUpperLeg
        } else if i == 18 {
            HumanoidBone::LeftLowerLeg
        } else if i == 19 {
            HumanoidBone::LeftFoot
        } else if i == 20 {
            HumanoidBone::LeftToes
        } else if i == 21 {
            HumanoidBone::RightUpperLeg
        } else if i == 22 {
            HumanoidBone::RightLowerLeg
        } else if i == 23 {
            HumanoidBone::RightFoot
        } else {
            HumanoidBone::RightToes
        }
    }

    /// The name of the slot, as written in rig config files.
    pub open spec fn name_view(self) -> Seq<char> {
        match self {
            HumanoidBone::Hips => "Hips"@,
            HumanoidBone::Spine => "Spine"@,
            HumanoidBone::Chest => "Chest"@,
            HumanoidBone::UpperChest => "UpperChest"@,
            HumanoidBone::Neck => "Neck"@,
            HumanoidBone::Head => "Head"@,
            HumanoidBone::LeftEye => "LeftEye"@,
            HumanoidBone::RightEye => "RightEye"@,
            HumanoidBone::Jaw => "Jaw"@,
            HumanoidBone::LeftShoulder => "LeftShoulder"@,
            HumanoidBone::LeftUpperArm => "LeftUpperArm"@,
            HumanoidBone::LeftLowerArm => "LeftLowerArm"@,
            HumanoidBone::LeftHand => "LeftHand"@,
            HumanoidBone::RightShoulder => "RightShoulder"@,
            HumanoidBone::RightUpperArm => "RightUpperArm"@,
            HumanoidBone::RightLowerArm => "RightLowerArm"@,
            HumanoidBone::RightHand => "RightHand"@,
            HumanoidBone::LeftUpperLeg => "LeftUpperLeg"@,
            HumanoidBone::LeftLowerLeg => "LeftLowerLeg"@,
            HumanoidBone::LeftFoot => "LeftFoot"@,
            HumanoidBone::LeftToes => "LeftToes"@,
            HumanoidBone::RightUpperLeg => "RightUpperLeg"@,
            HumanoidBone::RightLowerLeg => "RightLowerLeg"@,
            HumanoidBone::RightFoot => "RightFoot"@,
            HumanoidBone::RightToes => "RightToes"@,
        }
    }

    /// The slots in declaration order, as a sequence.
    pub open spec fn all_view() -> Seq<HumanoidBone> {
        Seq::new(25, |i: int| HumanoidBone::at_position(i))
    }

    /// The slots the face tracker drives.
    pub open spec fn is_face_tracked(self) -> bool {
        ||| self == HumanoidBone::Neck
        ||| self == HumanoidBone::Head
        ||| self == HumanoidBone::LeftEye
        ||| self == HumanoidBone::RightEye
        ||| self == HumanoidBone::Jaw
    }

    /// The slot's position in declaration order.
    pub fn index(self) -> (i: u8)
        ensures
            i == self.position(),
            i < 25,
    {
        match self {
            HumanoidBone::Hips => 0,
            HumanoidBone::Spine => 1,
            HumanoidBone::Chest => 2,
            HumanoidBone::UpperChest => 3,
            HumanoidBone::Neck => 4,
            HumanoidBone::Head => 5,
            HumanoidBone::LeftEye => 6,
            HumanoidBone::RightEye => 7,
            HumanoidBone::Jaw => 8,
            HumanoidBone::LeftShoulder => 9,
            HumanoidBone::LeftUpperArm => 10,
            HumanoidBone::LeftLowerArm => 11,
            HumanoidBone::LeftHand => 12,
            HumanoidBone::RightShoulder => 13,
            HumanoidBone::RightUpperArm => 14,
            HumanoidBone::RightLowerArm => 15,
            HumanoidBone::RightHand => 16,
            HumanoidBone::LeftUpperLeg => 17,
            HumanoidBone::LeftLowerLeg => 18,
            HumanoidBone::LeftFoot => 19,
            HumanoidBone::LeftToes => 20,
            HumanoidBone::RightUpperLeg => 21,
            HumanoidBone::RightLowerLeg => 22,
            HumanoidBone::RightFoot => 23,
            HumanoidBone::RightToes => 24,
        }
    }

    /// The slot at position `i` in declaration order.
    pub fn from_index(i: u8) -> (b: HumanoidBone)
        requires
            i < 25,
        ensures
            b == HumanoidBone::at_position(i as int),
            b.position() == i,
    {
        if i == 0 {
            HumanoidBone::Hips
        } else if i == 1 {
            HumanoidBone::Spine
        } else if i == 2 {
            HumanoidBone::Chest
        } else if i == 3 {
            HumanoidBone::UpperChest
        } else if i == 4 {
            HumanoidBone::Neck
        } else if i == 5 {
            HumanoidBone::Head
        } else if i == 6 {
            HumanoidBone::LeftEye
        } else if i == 7 {
            HumanoidBone::RightEye
        } else if i == 8 {
            HumanoidBone::Jaw
        } else if i == 9 {
            HumanoidBone::LeftShoulder
        } else if i == 10 {
            HumanoidBone::LeftUpperArm
        } else if i == 11 {
            HumanoidBone::LeftLowerArm
        } else if i == 12 {
            HumanoidBone::LeftHand
        } else if i == 13 {
            HumanoidBone::RightShoulder
        } else if i == 14 {
            HumanoidBone::RightUpperArm
        } else if i == 15 {
            HumanoidBone::RightLowerArm
        } else if i == 16 {
            HumanoidBone::RightHand
        } else if i == 17 {
            HumanoidBone::LeftUpperLeg
        } else if i == 18 {
            HumanoidBone::LeftLowerLeg
        } else if i == 19 {
            HumanoidBone::LeftFoot
        } else if i == 20 {
            HumanoidBone::LeftToes
        } else if i == 21 {
            HumanoidBone::RightUpperLeg
        } else if i == 22 {
            HumanoidBone::RightLowerLeg
        } else if i == 23 {
            HumanoidBone::RightFoot
        } else {
            HumanoidBone::RightToes
        }
    }

    /// The slot's name, as written in rig config files (`"Hips"`, `"LeftUpperArm"`, ...).
    pub fn as_str(self) -> (s: &'static str)
        ensures
            s@ == self.name_view(),
    {
        match self {
            HumanoidBone::Hips => "Hips",
            HumanoidBone::Spine => "Spine",
            HumanoidBone::Chest => "Chest",
            HumanoidBone::UpperChest => "UpperChest",
            HumanoidBone::Neck => "Neck",
            HumanoidBone::Head => "Head",
            HumanoidBone::LeftEye => "LeftEye",
            HumanoidBone::RightEye => "RightEye",
            HumanoidBone::Jaw => "Jaw",
            HumanoidBone::LeftShoulder => "LeftShoulder",
            HumanoidBone::LeftUpperArm => "LeftUpperArm",
            HumanoidBone::LeftLowerArm => "LeftLowerArm",
            HumanoidBone::LeftHand => "LeftHand",
            HumanoidBone::RightShoulder => "RightShoulder",
            HumanoidBone::RightUpperArm => "RightUpperArm",
            HumanoidBone::RightLowerArm => "RightLowerArm",
            HumanoidBone::RightHand => "RightHand",
            HumanoidBone::LeftUpperLeg => "LeftUpperLeg",
            HumanoidBone::LeftLowerLeg => "LeftLowerLeg",
            HumanoidBone::LeftFoot => "LeftFoot",
            HumanoidBone::LeftToes => "LeftToes",
            HumanoidBone::RightUpperLeg => "RightUpperLeg",
            HumanoidBone::RightLowerLeg => "RightLowerLeg",
            HumanoidBone::RightFoot => "RightFoot",
            HumanoidBone::RightToes => "RightToes",
        }
    }
}

/// Position and slot are two views of the same thing: going from a slot to its
/// position and back gives the slot again, and every position below 25 names
/// exactly one slot.
pub proof fn lemma_position_roundtrip(b: HumanoidBone, i: int)
    ensures
        b.position() < 25,
        HumanoidBone::at_position(b.position() as int) == b,
        0 <= i < 25 ==> HumanoidBone::at_position(i).position() == i,
{
}

/// `ALL` lists every slot exactly once, in declaration order, and
/// `FACE_TRACKED` lists exactly the slots the face tracker drives.
pub proof fn lemma_all_lists_every_slot()
    ensures
        HumanoidBone::ALL@ == HumanoidBone::all_view(),
        forall|b: HumanoidBone| #[trigger] HumanoidBone::all_view().contains(b),
        forall|i: int, j: int|
            0 <= i < j < 25 ==> HumanoidBone::all_view()[i] != HumanoidBone::all_view()[j],
        forall|b: HumanoidBone|
            #[trigger] HumanoidBone::FACE_TRACKED@.contains(b) <==> b.is_face_tracked(),
{
    assert(HumanoidBone::ALL@ =~= HumanoidBone::all_view());
    assert forall|b: HumanoidBone| #[trigger] HumanoidBone::all_view().contains(b) by {
        assert(HumanoidBone::all_view()[b.position() as int] == b);
    }
    assert forall|b: HumanoidBone| #[trigger]
        HumanoidBone::FACE_TRACKED@.contains(b) <==> b.is_face_tracked() by {
        if b.is_face_tracked() {
            if b == HumanoidBone::Neck {
                assert(HumanoidBone::FACE_TRACKED@[0] == b);
            } else if b == HumanoidBone::Head {
                assert(HumanoidBone::FACE_TRACKED@[1] == b);
            } else if b == HumanoidBone::LeftEye {
                assert(HumanoidBone::FACE_TRACKED@[2] == b);
            } else if b == HumanoidBone::RightEye {
                assert(HumanoidBone::FACE_TRACKED@[3] == b);
            } else {
                assert(HumanoidBone::FACE_TRACKED@[4] == b);
            }
        }
    }
}

/// Slot names are distinct, so a slot can be found again from its name.
pub proof fn lemma_names_distinct(a: HumanoidBone, b: HumanoidBone)
    requires
        a.name_view() == b.name_view(),
    ensures
        a == b,
{
    reveal_strlit("Hips");
    reveal_strlit("Spine");
    reveal_strlit("Chest");
    reveal_strlit("UpperChest");
    reveal_strlit("Neck");
    reveal_strlit("Head");
    reveal_strlit("LeftEye");
    reveal_strlit("RightEye");
    reveal_strlit("Jaw");
    reveal_strlit("LeftShoulder");
    reveal_strlit("LeftUpperArm");
    reveal_strlit("LeftLowerArm");
    reveal_strlit("LeftHand");
    reveal_strlit("RightShoulder");
    reveal_strlit("RightUpperArm");
    reveal_strlit("RightLowerArm");
    reveal_strlit("RightHand");
    reveal_strlit("LeftUpperLeg");
    reveal_strlit("LeftLowerLeg");
    reveal_strlit("LeftFoot");
    reveal_strlit("LeftToes");
    reveal_strlit("RightUpperLeg");
    reveal_strlit("RightLowerLeg");
    reveal_strlit("RightFoot");
    reveal_strlit("RightToes");
    if a != b {
        let na = a.name_view();
        let nb = b.name_view();
        assert(na.len() != nb.len() || (2 < na.len() && na[2] != nb[2]) || (4 < na.len() && na[4] != nb[4]) || (5
            < na.len() && na[5] != nb[5]) || (10 < na.len() && na[10] != nb[10]));
    }
}

} // verus!
