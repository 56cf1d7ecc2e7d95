use live_ascii::effect::eye_blink::{blink_parameter_ids, blink_step, BlinkValue, EyeState};
use live_ascii::effect::pose::{PartData, PartItem, Pose};
use live_ascii::model_setting::{FileRef, Group, ModelSetting, Target};

#[test]
fn blink_cycle() {
    let s = blink_step(EyeState::First, false, false);
    assert_eq!(s.next, EyeState::Interval);
    assert!(s.schedule_next_blink);
    assert_eq!(s.value, BlinkValue::Open);
    let s = blink_step(EyeState::Interval, false, false);
    assert_eq!(s.next, EyeState::Interval);
    let s = blink_step(EyeState::Interval, false, true);
    assert_eq!((s.next, s.restart_phase), (EyeState::Closing, true));
    let s = blink_step(EyeState::Closing, false, false);
    assert_eq!((s.next, s.value), (EyeState::Closing, BlinkValue::Falling));
    let s = blink_step(EyeState::Closing, true, false);
    assert_eq!((s.next, s.value, s.restart_phase), (EyeState::Closed, BlinkValue::Shut, true));
    let s = blink_step(EyeState::Closed, true, false);
    assert_eq!((s.next, s.value), (EyeState::Opening, BlinkValue::Shut));
    let s = blink_step(EyeState::Opening, false, false);
    assert_eq!((s.next, s.value), (EyeState::Opening, BlinkValue::Rising));
    let s = blink_step(EyeState::Opening, true, false);
    assert_eq!((s.next, s.value, s.schedule_next_blink), (EyeState::Interval, BlinkValue::Open, true));
}

#[test]
fn blink_ids_come_from_the_eye_blink_group() {
    let setting = ModelSetting {
        version: 3,
        file_references: FileRef {
            moc: None,
            textures: vec![],
            physics: None,
            display_info: None,
            pose: None,
            expressions: vec![],
            motions: vec![],
        },
        groups: vec![Group {
            name: "EyeBlink".into(),
            ids: vec!["ParamEyeLOpen".into(), "ParamEyeROpen".into()],
            target: Target::Parameter,
        }],
        hit_areas: vec![],
        layout: None,
    };
    assert_eq!(blink_parameter_ids(&setting), vec!["ParamEyeLOpen".to_string(), "ParamEyeROpen".to_string()]);
}

fn item(id: &str, link: &[&str]) -> PartItem {
    PartItem { id: id.into(), link: link.iter().map(|s| s.to_string()).collect() }
}

#[test]
fn pose_groups_are_flattened() {
    let pose = Pose::from_groups(
        vec![vec![item("PartArmA", &["PartArmA2"]), item("PartArmB", &[])], vec![item("PartHand", &[])]],
        0.5f32.to_bits(),
    );
    assert_eq!(pose.part_group_counts, vec![2, 1]);
    let ids: Vec<&str> = pose.part_groups.iter().map(|p| p.part_id.as_str()).collect();
    assert_eq!(ids, vec!["PartArmA", "PartArmB", "PartHand"]);
    assert_eq!(pose.part_groups[0].link.len(), 1);
    assert_eq!(pose.part_groups[0].link[0].part_id, "PartArmA2");
    assert!(pose.part_groups.iter().all(|p| p.param_index.is_none() && p.part_index.is_none()));
    assert_eq!(pose.group_starts(), vec![0, 2]);
    assert_eq!(f32::from_bits(pose.fade_time_seconds), 0.5);
}

#[test]
fn part_indices_are_looked_up_by_id() {
    let mut part = PartData {
        part_id: "PartArmA".into(),
        param_index: None,
        part_index: None,
        link: vec![PartData { part_id: "PartArmA2".into(), param_index: None, part_index: None, link: vec![] }],
    };
    let params = vec!["ParamX".to_string(), "PartArmA".to_string()];
    let parts = vec!["PartArmA2".to_string(), "PartArmA".to_string(), "PartArmA".to_string()];
    part.initialize(&params, &parts);
    assert_eq!(part.param_index, Some(1));
    assert_eq!(part.part_index, Some(1));
    assert_eq!(part.link[0].part_index, Some(0));
    assert_eq!(part.link[0].param_index, None);
}
