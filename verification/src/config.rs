//! The resolved bone map and the per-model rig configuration.
use std::collections::BTreeMap;
use vstd::prelude::*;

use crate::bone::HumanoidBone;
use crate::text::path_with_extension;
use crate::text;

verus! {

broadcast use vstd::std_specs::btree::group_btree_axioms, vstd::laws_cmp::group_laws_cmp;

/// A resolved mapping from [`HumanoidBone`] slots to the actual bone/joint
/// names present in one specific rigged model.
///
/// Kept in a `BTreeMap` keyed by the slot's position in declaration order,
/// so entries come out in a stable, diff-friendly order.
#[derive(Debug)]
pub struct BoneMap {
    bones: BTreeMap<u8, String>,
}

/// The entries of a bone map in slot order.
pub open spec fn entries_in_order(m: Map<HumanoidBone, Seq<char>>) -> Seq<(HumanoidBone, Seq<char>)> {
    entries_before(m, 25)
}

/// The entries of a bone map whose slots come before position `n`, in slot order.
pub open spec fn entries_before(m: Map<HumanoidBone, Seq<char>>, n: nat) -> Seq<(HumanoidBone, Seq<char>)>
    decreases n,
{
    if n == 0 {
        Seq::empty()
    } else {
        let rest = entries_before(m, (n - 1) as nat);
        let b = HumanoidBone::at_position(n - 1);
        if m.contains_key(b) {
            rest.push((b, m[b]))
        } else {
            rest
        }
    }
}

/// Whether every bone the face tracker needs has an assignment.
pub open spec fn covers_face(m: Map<HumanoidBone, Seq<char>>) -> bool {
    forall|b: HumanoidBone| b.is_face_tracked() ==> #[trigger] m.contains_key(b)
}

impl View for BoneMap {
    type V = Map<HumanoidBone, Seq<char>>;

    closed spec fn view(&self) -> Map<HumanoidBone, Seq<char>> {
        Map::new(
            |b: HumanoidBone| self.bones@.contains_key(b.position() as u8),
            |b: HumanoidBone| self.bones@[b.position() as u8]@,
        )
    }
}

impl Clone for BoneMap {
    fn clone(&self) -> (m: Self)
        ensures
            m@ == self@,
    {
        let m = BoneMap { bones: self.bones.clone() };
        assert(m@ =~= self@);
        m
    }
}

impl Default for BoneMap {
    fn default() -> (m: Self)
        ensures
            m@ == Map::<HumanoidBone, Seq<char>>::empty(),
    {
        let m = BoneMap { bones: BTreeMap::new() };
        assert(m@ =~= Map::<HumanoidBone, Seq<char>>::empty());
        m
    }
}

impl BoneMap {
    /// An empty map.
    pub fn new() -> (m: Self)
        ensures
            m@ == Map::<HumanoidBone, Seq<char>>::empty(),
    {
        Self::default()
    }

    /// The bone name assigned to `slot`, if any.
    pub fn get(&self, slot: HumanoidBone) -> (r: Option<&str>)
        ensures
            match r {
                Some(name) => self@.contains_key(slot) && name@ == self@[slot],
                None => !self@.contains_key(slot),
            },
    {
        let key = slot.index();
        match self.bones.get(&key) {
            Some(name) => Some(name.as_str()),
            None => None,
        }
    }

    /// Assigns `bone_name` to `slot`, replacing any earlier assignment.
    pub fn set(&mut self, slot: HumanoidBone, bone_name: String)
        ensures
            final(self)@ == old(self)@.insert(slot, bone_name@),
    {
        let key = slot.index();
        let ghost name = bone_name@;
        self.bones.insert(key, bone_name);
        proof {
            assert forall|b: HumanoidBone| #[trigger] (b.position() as u8) == key implies b == slot by {
                crate::bone::lemma_position_roundtrip(b, 0);
                crate::bone::lemma_position_roundtrip(slot, 0);
            }
            assert(self@ =~= old(self)@.insert(slot, name));
        }
    }

    /// Removes the assignment of `slot`, returning the name it had.
    pub fn remove(&mut self, slot: HumanoidBone) -> (r: Option<String>)
        ensures
            final(self)@ == old(self)@.remove(slot),
            match r {
                Some(name) => old(self)@.contains_key(slot) && name@ == old(self)@[slot],
                None => !old(self)@.contains_key(slot),
            },
    {
        let key = slot.index();
        let r = self.bones.remove(&key);
        proof {
            assert forall|b: HumanoidBone| #[trigger] (b.position() as u8) == key implies b == slot by {
                crate::bone::lemma_position_roundtrip(b, 0);
                crate::bone::lemma_position_roundtrip(slot, 0);
            }
            assert(self@ =~= old(self)@.remove(slot));
        }
        r
    }

    /// The assignments, in slot order.
    pub fn iter(&self) -> (entries: Vec<(HumanoidBone, &str)>)
        ensures
            entries@.map_values(|e: (HumanoidBone, &str)| (e.0, e.1@)) == entries_in_order(self@),
    {
        let mut entries: Vec<(HumanoidBone, &str)> = Vec::new();
        let mut i: u8 = 0;
        while i < 25
            invariant
                i <= 25,
                entries@.map_values(|e: (HumanoidBone, &str)| (e.0, e.1@)) == entries_before(self@, i as nat),
            decreases 25 - i,
        {
            let slot = HumanoidBone::from_index(i);
            let ghost before = entries@;
            match self.get(slot) {
                Some(name) => {
                    entries.push((slot, name));
                    assert(entries@.map_values(|e: (HumanoidBone, &str)| (e.0, e.1@)) =~= before.map_values(
                        |e: (HumanoidBone, &str)| (e.0, e.1@),
                    ).push((slot, self@[slot])));
                },
                None => {},
            }
            i = i + 1;
        }
        entries
    }

    /// True if every bone the built-in face tracker needs
    /// ([`HumanoidBone::FACE_TRACKED`]) has an assignment.
    pub fn covers_face_tracking(&self) -> (r: bool)
        ensures
            r == covers_face(self@),
    {
        let r = self.get(HumanoidBone::Neck).is_some() && self.get(HumanoidBone::Head).is_some()
            && self.get(HumanoidBone::LeftEye).is_some() && self.get(HumanoidBone::RightEye).is_some()
            && self.get(HumanoidBone::Jaw).is_some();
        proof {
            if r {
                assert forall|b: HumanoidBone| b.is_face_tracked() implies #[trigger] self@.contains_key(b) by {}
            }
        }
        r
    }

    /// Merge `other` on top of `self`: entries present in `other` overwrite
    /// `self`'s, everything else in `self` is kept. Used to layer a
    /// hand-edited override file on top of the auto-mapped result.
    pub fn merge_from(&mut self, other: &BoneMap)
        ensures
            final(self)@ == old(self)@.union_prefer_right(other@),
    {
        let entries = other.iter();
        let ghost es = entries@.map_values(|e: (HumanoidBone, &str)| (e.0, e.1@));
        let mut k: usize = 0;
        while k < entries.len()
            invariant
                es == entries@.map_values(|e: (HumanoidBone, &str)| (e.0, e.1@)),
                es == entries_in_order(other@),
                k <= entries@.len(),
                self@ == old(self)@.union_prefer_right(restrict_to_entries(other@, es.take(k as int))),
            decreases entries@.len() - k,
        {
            let (slot, name) = entries[k];
            let ghost prev = self@;
            self.set(slot, name.to_owned());
            proof {
                lemma_restrict_push(other@, es, k as int);
                assert(self@ =~= old(self)@.union_prefer_right(restrict_to_entries(other@, es.take(k + 1))));
            }
            k = k + 1;
        }
        proof {
            lemma_entries_cover(other@);
            assert(es.take(entries@.len() as int) =~= es);
            assert(restrict_to_entries(other@, es) =~= other@);
        }
    }
}

/// The bone map a model ends up with, and whether it should be saved: with
/// a saved configuration, the automatic guess with the saved (hand-edited)
/// entries layered on top, and nothing to save; without one, the guess
/// alone, to be saved so that it can be edited.
pub fn resolve_bone_map(auto: BoneMap, saved: Option<&BoneMap>) -> (r: (BoneMap, bool))
    ensures
        match saved {
            Some(m) => r.0@ == auto@.union_prefer_right(m@) && !r.1,
            None => r.0@ == auto@ && r.1,
        },
{
    let mut map = auto;
    match saved {
        Some(m) => {
            map.merge_from(m);
            (map, false)
        },
        None => (map, true),
    }
}

/// The position of the last of the first `n` joints named `name`, if any;
/// an empty name never matches.
pub open spec fn last_joint_named(joints: Seq<Seq<char>>, name: Seq<char>, n: int) -> Option<int>
    decreases n,
{
    if n <= 0 {
        None
    } else if name.len() > 0 && joints[n - 1] == name {
        Some(n - 1)
    } else {
        last_joint_named(joints, name, n - 1)
    }
}

/// The integer view of an optional position.
pub open spec fn opt_position(o: Option<usize>) -> Option<int> {
    match o {
        Some(j) => Some(j as int),
        None => None,
    }
}

/// Finds each assigned bone among a model's joints: for every assignment,
/// in slot order, the slot and the position of the last joint carrying the
/// assigned name, or `None` when no joint does (empty names never match).
pub fn locate_bones(map: &BoneMap, joint_names: &[String]) -> (r: Vec<(HumanoidBone, Option<usize>)>)
    ensures
        r@.len() == entries_in_order(map@).len(),
        forall|i: int|
            0 <= i < r@.len() ==> (#[trigger] r@[i]).0 == entries_in_order(map@)[i].0 && opt_position(r@[i].1)
                == last_joint_named(
                crate::tokenize::views(joint_names@),
                entries_in_order(map@)[i].1,
                joint_names@.len() as int,
            ),
{
    let ghost joints = crate::tokenize::views(joint_names@);
    let entries = map.iter();
    let ghost es = entries@.map_values(|e: (HumanoidBone, &str)| (e.0, e.1@));
    let mut r: Vec<(HumanoidBone, Option<usize>)> = Vec::new();
    let mut k: usize = 0;
    while k < entries.len()
        invariant
            joints == crate::tokenize::views(joint_names@),
            es == entries@.map_values(|e: (HumanoidBone, &str)| (e.0, e.1@)),
            es == entries_in_order(map@),
            k <= entries@.len(),
            r@.len() == k,
            forall|i: int|
                0 <= i < k ==> (#[trigger] r@[i]).0 == es[i].0 && opt_position(r@[i].1) == last_joint_named(
                    joints,
                    es[i].1,
                    joint_names@.len() as int,
                ),
        decreases entries@.len() - k,
    {
        let (slot, name) = entries[k];
        let nonempty = name.unicode_len() > 0;
        let mut j: usize = joint_names.len();
        let mut found: Option<usize> = None;
        while j > 0 && found.is_none()
            invariant
                joints == crate::tokenize::views(joint_names@),
                j <= joint_names@.len(),
                nonempty == (name@.len() > 0),
                found is None ==> last_joint_named(joints, name@, joint_names@.len() as int)
                    == last_joint_named(joints, name@, j as int),
                found is Some ==> opt_position(found) == last_joint_named(joints, name@, joint_names@.len() as int),
            decreases j,
        {
            if nonempty && crate::text::str_eq(joint_names[j - 1].as_str(), name) {
                found = Some(j - 1);
            }
            j = j - 1;
        }
        r.push((slot, found));
        proof {
            assert(es[k as int] == (slot, name@));
        }
        k = k + 1;
    }
    r
}

/// Layering hand edits over an automatic map: a slot the edits assign takes
/// the edited name, every other slot keeps what the base had.
pub proof fn lemma_merge_prefers_edits(base: Map<HumanoidBone, Seq<char>>, edits: Map<HumanoidBone, Seq<char>>, s: HumanoidBone)
    ensures
        edits.contains_key(s) ==> base.union_prefer_right(edits).contains_key(s) && base.union_prefer_right(edits)[s]
            == edits[s],
        !edits.contains_key(s) ==> base.union_prefer_right(edits).contains_key(s) == base.contains_key(s),
        !edits.contains_key(s) && base.contains_key(s) ==> base.union_prefer_right(edits)[s] == base[s],
{
}

/// Merging is idempotent: merging the same edits twice gives what merging
/// them once gave, and merging a map into itself (or into a copy of itself)
/// or merging an empty map changes nothing.
pub proof fn lemma_merge_idempotent(base: Map<HumanoidBone, Seq<char>>, edits: Map<HumanoidBone, Seq<char>>)
    ensures
        base.union_prefer_right(edits).union_prefer_right(edits) == base.union_prefer_right(edits),
        base.union_prefer_right(base) == base,
        base.union_prefer_right(Map::<HumanoidBone, Seq<char>>::empty()) == base,
{
    assert(base.union_prefer_right(edits).union_prefer_right(edits) =~= base.union_prefer_right(edits));
    assert(base.union_prefer_right(base) =~= base);
    assert(base.union_prefer_right(Map::<HumanoidBone, Seq<char>>::empty()) =~= base);
}

/// Assigning a slot and reading it back gives the assigned name; other slots
/// are untouched. Removing a slot leaves it unassigned.
pub proof fn lemma_set_then_get(m: Map<HumanoidBone, Seq<char>>, s: HumanoidBone, t: HumanoidBone, name: Seq<char>)
    ensures
        m.insert(s, name).contains_key(s) && m.insert(s, name)[s] == name,
        t != s ==> m.insert(s, name).contains_key(t) == m.contains_key(t) && m.insert(s, name)[t] == m[t],
        !m.remove(s).contains_key(s),
{
}

/// The part of `m` whose slots appear in `es`.
pub open spec fn restrict_to_entries(
    m: Map<HumanoidBone, Seq<char>>,
    es: Seq<(HumanoidBone, Seq<char>)>,
) -> Map<HumanoidBone, Seq<char>> {
    m.restrict(Set::new(|b: HumanoidBone| exists|i: int| 0 <= i < es.len() && #[trigger] es[i].0 == b))
}

proof fn lemma_entries_before_sound(m: Map<HumanoidBone, Seq<char>>, n: nat)
    requires
        n <= 25,
    ensures
        forall|i: int|
            0 <= i < entries_before(m, n).len() ==> {
                let e = #[trigger] entries_before(m, n)[i];
                &&& m.contains_key(e.0)
                &&& m[e.0] == e.1
                &&& e.0.position() < n
            },
        forall|b: HumanoidBone|
            b.position() < n && #[trigger] m.contains_key(b) ==> exists|i: int|
                0 <= i < entries_before(m, n).len() && #[trigger] entries_before(m, n)[i].0 == b,
        forall|i: int, j: int|
            0 <= i < j < entries_before(m, n).len() ==> (#[trigger] entries_before(m, n)[i]).0.position()
                < (#[trigger] entries_before(m, n)[j]).0.position(),
    decreases n,
{
    if n > 0 {
        lemma_entries_before_sound(m, (n - 1) as nat);
        let rest = entries_before(m, (n - 1) as nat);
        let b = HumanoidBone::at_position(n - 1);
        assert(b.position() == n - 1);
        assert forall|c: HumanoidBone| c.position() < n && #[trigger] m.contains_key(c) implies exists|i: int|
            0 <= i < entries_before(m, n).len() && #[trigger] entries_before(m, n)[i].0 == c by {
            if c.position() == n - 1 {
                crate::bone::lemma_position_roundtrip(c, 0);
                assert(entries_before(m, n)[rest.len() as int].0 == c);
            } else {
                let i = choose|i: int| 0 <= i < rest.len() && #[trigger] rest[i].0 == c;
                assert(entries_before(m, n)[i].0 == c);
            }
        }
    }
}

/// Iterating a bone map lists each assignment exactly once, in slot order,
/// and nothing else.
pub proof fn lemma_entries_cover(m: Map<HumanoidBone, Seq<char>>)
    ensures
        forall|i: int, j: int|
            0 <= i < j < entries_in_order(m).len() ==> (#[trigger] entries_in_order(m)[i]).0.position()
                < (#[trigger] entries_in_order(m)[j]).0.position(),
        forall|i: int|
            0 <= i < entries_in_order(m).len() ==> {
                let e = #[trigger] entries_in_order(m)[i];
                &&& m.contains_key(e.0)
                &&& m[e.0] == e.1
            },
        forall|b: HumanoidBone| #[trigger] m.contains_key(b) ==> exists|i: int|
            0 <= i < entries_in_order(m).len() && #[trigger] entries_in_order(m)[i].0 == b,
{
    lemma_entries_before_sound(m, 25);
    assert forall|b: HumanoidBone| #[trigger] m.contains_key(b) implies exists|i: int|
        0 <= i < entries_in_order(m).len() && #[trigger] entries_in_order(m)[i].0 == b by {
        crate::bone::lemma_position_roundtrip(b, 0);
        assert(b.position() < 25);
        let i = choose|i: int| 0 <= i < entries_before(m, 25).len() && #[trigger] entries_before(m, 25)[i].0 == b;
        assert(entries_in_order(m)[i].0 == b);
    }
}

proof fn lemma_restrict_push(m: Map<HumanoidBone, Seq<char>>, es: Seq<(HumanoidBone, Seq<char>)>, k: int)
    requires
        es == entries_in_order(m),
        0 <= k < es.len(),
    ensures
        restrict_to_entries(m, es.take(k + 1)) == restrict_to_entries(m, es.take(k)).insert(es[k].0, es[k].1),
{
    lemma_entries_cover(m);
    let a = restrict_to_entries(m, es.take(k + 1));
    let b = restrict_to_entries(m, es.take(k)).insert(es[k].0, es[k].1);
    assert forall|s: HumanoidBone| a.contains_key(s) <==> b.contains_key(s) by {
        if a.contains_key(s) {
            let i = choose|i: int| 0 <= i < es.take(k + 1).len() && #[trigger] es.take(k + 1)[i].0 == s;
            if i < k {
                assert(es.take(k)[i].0 == s);
            }
        }
        if b.contains_key(s) && s != es[k].0 {
            let i = choose|i: int| 0 <= i < es.take(k).len() && #[trigger] es.take(k)[i].0 == s;
            assert(es.take(k + 1)[i].0 == s);
        }
        if s == es[k].0 {
            assert(es.take(k + 1)[k].0 == s);
        }
    }
    assert(a =~= b);
}

/// Per-model configuration persisted next to a model file, e.g.
/// `my_avatar.glb` -> `my_avatar.rig.ron`. Holds the bone map (auto-mapped,
/// then optionally hand-edited) plus the model's file name, kept as a
/// human-readable sanity check.
#[derive(Debug)]
pub struct ModelRigConfig {
    /// File name (not full path) of the model this config was built for.
    pub model_file: String,
    pub bone_map: BoneMap,
}

impl Clone for ModelRigConfig {
    fn clone(&self) -> (c: Self)
        ensures
            c.model_file@ == self.model_file@,
            c.bone_map@ == self.bone_map@,
    {
        ModelRigConfig { model_file: self.model_file.clone(), bone_map: self.bone_map.clone() }
    }
}

impl ModelRigConfig {
    pub fn new(model_file: String, bone_map: BoneMap) -> (c: Self)
        ensures
            c.model_file@ == model_file@,
            c.bone_map@ == bone_map@,
    {
        Self { model_file, bone_map }
    }

    /// The conventional sidecar config path for a given model path:
    /// `models/avatar.glb` -> `models/avatar.rig.ron`. The model's extension
    /// (the text after the last `.` of its file name, unless that `.` starts
    /// the name) is replaced by `rig.ron`, or `.rig.ron` is appended when it
    /// has none; separators after the file name are dropped, so
    /// `models/avatar.glb/` gives `models/avatar.rig.ron` as well.
    pub fn sidecar_path(model_path: &str) -> (p: String)
        ensures
            text::is_plain_path(model_path@) ==> p@ == text::replaced_extension(model_path@, "rig.ron"@),
    {
        proof {
            reveal_strlit("rig.ron");
            assert("rig.ron"@ =~= seq!['r', 'i', 'g', '.', 'r', 'o', 'n']);
        }
        path_with_extension(model_path, "rig.ron")
    }
}

} // verus!
