use ezvtb::scoring::{bone_tokens_of, candidates_for_bone, score_simple};
use ezvtb::tokenize::{laterality_of, tokenize, Laterality};
use ezvtb::{auto_map_bones, HumanoidBone};

fn names(list: &[&str]) -> Vec<String> {
    list.iter().map(|s| s.to_string()).collect()
}

fn strings(list: &[&str]) -> Vec<String> {
    names(list)
}

#[test]
fn maps_vrm_unity_humanoid_names() {
    let bones = names(&[
        "Hips", "Spine", "Chest", "UpperChest", "Neck", "Head", "LeftEye", "RightEye", "Jaw",
        "LeftShoulder", "LeftUpperArm", "LeftLowerArm", "LeftHand", "RightShoulder",
        "RightUpperArm", "RightLowerArm", "RightHand", "LeftUpperLeg", "LeftLowerLeg",
        "LeftFoot", "RightUpperLeg", "RightLowerLeg", "RightFoot",
    ]);
    let map = auto_map_bones(&bones);
    for name in &bones {
        let expected: HumanoidBone = HumanoidBone::ALL
            .iter()
            .copied()
            .find(|b| b.as_str() == name.as_str())
            .unwrap();
        assert_eq!(map.get(expected), Some(name.as_str()), "slot {}", expected.as_str());
    }
}

#[test]
fn maps_mixamo_names() {
    let bones = names(&[
        "mixamorig:Hips",
        "mixamorig:Spine",
        "mixamorig:Spine1",
        "mixamorig:Spine2",
        "mixamorig:Neck",
        "mixamorig:Head",
        "mixamorig:LeftShoulder",
        "mixamorig:LeftArm",
        "mixamorig:LeftForeArm",
        "mixamorig:LeftHand",
        "mixamorig:LeftHandIndex1",
        "mixamorig:LeftHandIndex2",
        "mixamorig:RightUpLeg",
        "mixamorig:RightLeg",
        "mixamorig:RightFoot",
        "mixamorig:RightToeBase",
    ]);
    let map = auto_map_bones(&bones);
    assert_eq!(map.get(HumanoidBone::Hips), Some("mixamorig:Hips"));
    assert_eq!(map.get(HumanoidBone::Spine), Some("mixamorig:Spine"));
    assert_eq!(map.get(HumanoidBone::Chest), Some("mixamorig:Spine1"));
    assert_eq!(map.get(HumanoidBone::UpperChest), Some("mixamorig:Spine2"));
    assert_eq!(map.get(HumanoidBone::Neck), Some("mixamorig:Neck"));
    assert_eq!(map.get(HumanoidBone::Head), Some("mixamorig:Head"));
    assert_eq!(map.get(HumanoidBone::LeftShoulder), Some("mixamorig:LeftShoulder"));
    assert_eq!(map.get(HumanoidBone::LeftUpperArm), Some("mixamorig:LeftArm"));
    assert_eq!(map.get(HumanoidBone::LeftLowerArm), Some("mixamorig:LeftForeArm"));
    // The wrist itself must win over the (longer, more specific) finger
    // bone names for the LeftHand slot.
    assert_eq!(map.get(HumanoidBone::LeftHand), Some("mixamorig:LeftHand"));
    assert_eq!(map.get(HumanoidBone::RightUpperLeg), Some("mixamorig:RightUpLeg"));
    assert_eq!(map.get(HumanoidBone::RightLowerLeg), Some("mixamorig:RightLeg"));
    assert_eq!(map.get(HumanoidBone::RightFoot), Some("mixamorig:RightFoot"));
    assert_eq!(map.get(HumanoidBone::RightToes), Some("mixamorig:RightToeBase"));
}

#[test]
fn ignores_unrelated_bones() {
    let bones = names(&["Head", "HeadphoneAttach", "Ponytail_01", "Cloth_Back_02"]);
    let map = auto_map_bones(&bones);
    assert_eq!(map.get(HumanoidBone::Head), Some("Head"));
    assert_eq!(map.iter().len(), 1);
}

#[test]
fn tokenizes_doc_examples() {
    assert_eq!(tokenize("mixamorig:LeftForeArm"), strings(&["mixamorig", "left", "fore", "arm"]));
    assert_eq!(tokenize("J_Bip_L_UpperArm"), strings(&["j", "bip", "l", "upper", "arm"]));
}

#[test]
fn tokenizes_digit_and_case_boundaries() {
    assert_eq!(tokenize("Spine2"), strings(&["spine", "2"]));
    assert_eq!(tokenize("HEAD_top"), strings(&["head", "top"]));
    assert_eq!(tokenize("bip01 L Thigh"), strings(&["bip", "01", "l", "thigh"]));
    assert_eq!(tokenize("4Arm"), strings(&["4", "arm"]));
    assert_eq!(tokenize("__"), Vec::<String>::new());
    assert_eq!(tokenize(""), Vec::<String>::new());
}

#[test]
fn reads_laterality() {
    assert_eq!(laterality_of(&strings(&["upper", "arm", "l"])), Laterality::Left);
    assert_eq!(laterality_of(&strings(&["rt", "foot"])), Laterality::Right);
    // left wins when both sides are named
    assert_eq!(laterality_of(&strings(&["right", "left"])), Laterality::Left);
    assert_eq!(laterality_of(&strings(&["neck"])), Laterality::Unsided);
}

#[test]
fn scores_keyword_matches() {
    assert_eq!(score_simple(&strings(&["hand"]), &["hand"], &[]), Some(100));
    assert_eq!(score_simple(&strings(&["hand", "index", "1"]), &["hand"], &[]), Some(90));
    assert_eq!(score_simple(&strings(&["head", "top"]), &["head"], &["top", "end", "eye"]), None);
    assert_eq!(score_simple(&strings(&["neck"]), &["head"], &[]), None);
}

#[test]
fn scores_arm_and_leg_candidates() {
    let fore = candidates_for_bone(&strings(&["fore", "arm"]), Laterality::Left);
    assert_eq!(fore, vec![(HumanoidBone::LeftLowerArm, 100)]);
    let leg = candidates_for_bone(&strings(&["leg"]), Laterality::Right);
    assert_eq!(leg, vec![(HumanoidBone::RightLowerLeg, 90)]);
    let thigh = candidates_for_bone(&strings(&["up", "leg"]), Laterality::Left);
    assert_eq!(thigh, vec![(HumanoidBone::LeftUpperLeg, 90)]);
    let spine = candidates_for_bone(&strings(&["spine", "3"]), Laterality::Unsided);
    assert_eq!(spine, vec![(HumanoidBone::UpperChest, 100)]);
}

#[test]
fn each_name_fills_at_most_one_slot() {
    // "UpperChest" scores for both Chest-tier slots but may fill only one.
    let map = auto_map_bones(&names(&["UpperChest"]));
    assert_eq!(map.iter().len(), 1);
    assert_eq!(map.get(HumanoidBone::UpperChest), Some("UpperChest"));
}

#[test]
fn shorter_name_wins_a_tie() {
    let map = auto_map_bones(&names(&["HeadX1", "Head_"]));
    assert_eq!(map.get(HumanoidBone::Head), Some("Head_"));
}

#[test]
fn equal_length_tie_goes_by_text() {
    let map = auto_map_bones(&names(&["Neck_b", "Neck_a"]));
    assert_eq!(map.get(HumanoidBone::Neck), Some("Neck_a"));
}

#[test]
fn empty_input_maps_nothing() {
    let map = auto_map_bones(&[]);
    assert_eq!(map.iter().len(), 0);
}

#[test]
fn order_of_names_does_not_matter() {
    let forward = names(&[
        "mixamorig:Hips", "mixamorig:Spine", "mixamorig:Spine1", "mixamorig:Neck", "mixamorig:Head",
        "mixamorig:LeftHand", "mixamorig:LeftHandIndex1", "mixamorig:RightUpLeg", "mixamorig:RightLeg",
    ]);
    let mut backward = forward.clone();
    backward.reverse();
    assert_eq!(auto_map_bones(&forward).iter(), auto_map_bones(&backward).iter());
}

#[test]
fn exact_ties_do_not_depend_on_order() {
    // Both names reduce to the token "hand" on the left side, at the same length.
    let a = auto_map_bones(&names(&["LeftHand", "HandLeft"]));
    let b = auto_map_bones(&names(&["HandLeft", "LeftHand"]));
    assert_eq!(a.get(HumanoidBone::LeftHand), Some("HandLeft"));
    assert_eq!(a.iter(), b.iter());
    let c = auto_map_bones(&names(&["Neck_a", "Neck_b"]));
    let d = auto_map_bones(&names(&["Neck_b", "Neck_a"]));
    assert_eq!(c.get(HumanoidBone::Neck), Some("Neck_a"));
    assert_eq!(d.get(HumanoidBone::Neck), Some("Neck_a"));
}

#[test]
fn repeated_names_do_not_depend_on_order() {
    let a = auto_map_bones(&names(&["Chest", "Spine", "Chest"]));
    let b = auto_map_bones(&names(&["Chest", "Chest", "Spine"]));
    assert_eq!(a.iter(), b.iter());
    assert_eq!(a.get(HumanoidBone::Chest), Some("Chest"));
}

#[test]
fn tokenizes_non_ascii_names() {
    // Unicode letters count as alphanumeric, uppercase letters start a new
    // token, and tokens are lowercased.
    assert_eq!(tokenize("ÄrmelLinks"), strings(&["ärmel", "links"]));
    assert_eq!(tokenize("Ω·Kopf"), strings(&["ω", "kopf"]));
}

#[test]
fn bip01_prefix_is_noise() {
    let (tokens, lat) = bone_tokens_of("Bip01_Spine");
    assert_eq!(tokens, strings(&["spine"]));
    assert_eq!(lat, Laterality::Unsided);
    let (tokens, _) = bone_tokens_of("Bip001 Spine1");
    assert_eq!(tokens, strings(&["spine", "1"]));
    let (tokens, _) = bone_tokens_of("Bip01");
    assert!(tokens.is_empty());
    let map = auto_map_bones(&names(&["Bip01_Spine"]));
    assert_eq!(map.get(HumanoidBone::Spine), Some("Bip01_Spine"));
    assert_eq!(map.get(HumanoidBone::Chest), None);
    assert_eq!(map.iter().len(), 1);
    let map = auto_map_bones(&names(&["Bip01 Spine", "Bip01 Spine1", "Bip01 Spine2", "Bip01 Head"]));
    assert_eq!(map.get(HumanoidBone::Spine), Some("Bip01 Spine"));
    assert_eq!(map.get(HumanoidBone::Chest), Some("Bip01 Spine1"));
    assert_eq!(map.get(HumanoidBone::UpperChest), Some("Bip01 Spine2"));
    assert_eq!(map.get(HumanoidBone::Head), Some("Bip01 Head"));
}
