use ezvtb::{BoneMap, HumanoidBone, ModelRigConfig};

#[test]
fn set_get_remove() {
    let mut map = BoneMap::new();
    assert_eq!(map.get(HumanoidBone::Head), None);
    map.set(HumanoidBone::Head, "head_bone".to_string());
    assert_eq!(map.get(HumanoidBone::Head), Some("head_bone"));
    map.set(HumanoidBone::Head, "other".to_string());
    assert_eq!(map.get(HumanoidBone::Head), Some("other"));
    assert_eq!(map.get(HumanoidBone::Neck), None);
    assert_eq!(map.remove(HumanoidBone::Head), Some("other".to_string()));
    assert_eq!(map.remove(HumanoidBone::Head), None);
    assert_eq!(map.get(HumanoidBone::Head), None);
}

#[test]
fn iterates_in_slot_order() {
    let mut map = BoneMap::new();
    map.set(HumanoidBone::Jaw, "jaw".to_string());
    map.set(HumanoidBone::Hips, "hips".to_string());
    map.set(HumanoidBone::RightToes, "toes".to_string());
    assert_eq!(
        map.iter(),
        vec![(HumanoidBone::Hips, "hips"), (HumanoidBone::Jaw, "jaw"), (HumanoidBone::RightToes, "toes")]
    );
}

#[test]
fn merge_overrides_and_keeps() {
    let mut auto = BoneMap::new();
    auto.set(HumanoidBone::Head, "auto_head".to_string());
    auto.set(HumanoidBone::Neck, "auto_neck".to_string());
    let mut edits = BoneMap::new();
    edits.set(HumanoidBone::Head, "fixed_head".to_string());
    edits.set(HumanoidBone::Jaw, "fixed_jaw".to_string());
    auto.merge_from(&edits);
    assert_eq!(auto.get(HumanoidBone::Head), Some("fixed_head"));
    assert_eq!(auto.get(HumanoidBone::Neck), Some("auto_neck"));
    assert_eq!(auto.get(HumanoidBone::Jaw), Some("fixed_jaw"));
    assert_eq!(auto.iter().len(), 3);
}

#[test]
fn merging_a_copy_or_nothing_changes_nothing() {
    let mut map = BoneMap::new();
    map.set(HumanoidBone::Head, "head".to_string());
    map.set(HumanoidBone::Neck, "neck".to_string());
    let copy = map.clone();
    assert_eq!(copy.iter(), map.iter());
    map.merge_from(&copy);
    assert_eq!(map.iter(), copy.iter());
    map.merge_from(&BoneMap::new());
    assert_eq!(map.iter(), copy.iter());
    let mut edits = BoneMap::new();
    edits.set(HumanoidBone::Jaw, "jaw".to_string());
    map.merge_from(&edits);
    let once = map.clone();
    map.merge_from(&edits);
    assert_eq!(map.iter(), once.iter());
}

#[test]
fn face_tracking_coverage() {
    let mut map = BoneMap::new();
    for slot in HumanoidBone::FACE_TRACKED.iter().copied() {
        assert!(!map.covers_face_tracking());
        map.set(slot, slot.as_str().to_string());
    }
    assert!(map.covers_face_tracking());
    map.remove(HumanoidBone::LeftEye);
    assert!(!map.covers_face_tracking());
}

#[test]
fn slot_names_and_order() {
    assert_eq!(HumanoidBone::ALL.len(), 25);
    assert_eq!(HumanoidBone::ALL[0], HumanoidBone::Hips);
    assert_eq!(HumanoidBone::ALL[24], HumanoidBone::RightToes);
    assert_eq!(HumanoidBone::LeftUpperArm.as_str(), "LeftUpperArm");
    for (i, b) in HumanoidBone::ALL.iter().enumerate() {
        assert_eq!(b.index() as usize, i);
        assert_eq!(HumanoidBone::from_index(i as u8), *b);
    }
    let mut sorted = HumanoidBone::ALL.to_vec();
    sorted.sort();
    assert_eq!(sorted, HumanoidBone::ALL.to_vec());
}

#[test]
fn sidecar_path_replaces_extension() {
    assert_eq!(ModelRigConfig::sidecar_path("models/avatar.glb"), "models/avatar.rig.ron");
    assert_eq!(ModelRigConfig::sidecar_path("avatar"), "avatar.rig.ron");
    assert_eq!(ModelRigConfig::sidecar_path("dir.v2/avatar"), "dir.v2/avatar.rig.ron");
    assert_eq!(ModelRigConfig::sidecar_path(".hidden"), ".hidden.rig.ron");
    assert_eq!(ModelRigConfig::sidecar_path("a.b.gltf"), "a.b.rig.ron");
    assert_eq!(ModelRigConfig::sidecar_path("models/avatar.glb/"), "models/avatar.rig.ron");
    assert_eq!(ModelRigConfig::sidecar_path("models/avatar//"), "models/avatar.rig.ron");
}

#[test]
fn config_holds_its_parts() {
    let mut map = BoneMap::new();
    map.set(HumanoidBone::Head, "h".to_string());
    let config = ModelRigConfig::new("avatar.glb".to_string(), map);
    assert_eq!(config.model_file, "avatar.glb");
    assert_eq!(config.bone_map.get(HumanoidBone::Head), Some("h"));
    let copy = config.clone();
    assert_eq!(copy.model_file, "avatar.glb");
    assert_eq!(copy.bone_map.iter(), config.bone_map.iter());
}

#[test]
fn resolves_saved_edits_or_asks_to_save() {
    let mut auto = BoneMap::new();
    auto.set(HumanoidBone::Head, "auto_head".to_string());
    auto.set(HumanoidBone::Neck, "auto_neck".to_string());
    let mut saved = BoneMap::new();
    saved.set(HumanoidBone::Head, "fixed_head".to_string());
    let (merged, save) = ezvtb::resolve_bone_map(auto.clone(), Some(&saved));
    assert!(!save);
    assert_eq!(merged.get(HumanoidBone::Head), Some("fixed_head"));
    assert_eq!(merged.get(HumanoidBone::Neck), Some("auto_neck"));
    let (alone, save) = ezvtb::resolve_bone_map(auto.clone(), None);
    assert!(save);
    assert_eq!(alone.iter(), auto.iter());
}

#[test]
fn locates_assigned_bones_among_joints() {
    let mut map = BoneMap::new();
    map.set(HumanoidBone::Head, "head".to_string());
    map.set(HumanoidBone::Neck, "missing".to_string());
    map.set(HumanoidBone::Hips, "".to_string());
    let joints: Vec<String> = ["hips", "head", "", "head", "spine"].iter().map(|s| s.to_string()).collect();
    assert_eq!(
        ezvtb::locate_bones(&map, &joints),
        vec![(HumanoidBone::Hips, None), (HumanoidBone::Neck, None), (HumanoidBone::Head, Some(3))]
    );
}
