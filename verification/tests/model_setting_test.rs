use live_ascii::model_setting::{
    insert_motion_group,
    Expression, FileRef, Group, HitArea, Layout, ModelSetting, MotionGroup, MotionRef, Target, NO_FADE_TIME,
};

fn motion(file: &str, sound: Option<&str>) -> MotionRef {
    MotionRef {
        file: file.into(),
        sound: sound.map(|s| s.into()),
        fade_in_time: 1.0f32.to_bits(),
        fade_out_time: 0.5f32.to_bits(),
    }
}

/// The settings of the sample `test.model3.json`.
fn sample() -> ModelSetting {
    ModelSetting {
        version: 3,
        file_references: FileRef {
            moc: Some("model.moc3".into()),
            textures: vec!["texture_00.png".into()],
            physics: Some("model.physics3.json".into()),
            display_info: None,
            pose: Some("model.pose3.json".into()),
            expressions: vec![
                Expression { name: "smile".into(), file: "exp_smile.json".into() },
                Expression { name: "angry".into(), file: "exp_angry.json".into() },
            ],
            motions: vec![
                MotionGroup { name: "Idle".into(), motions: vec![motion("idle.motion3.json", None)] },
                MotionGroup {
                    name: "TapBody".into(),
                    motions: vec![motion("tap_body.motion3.json", Some("tap.wav"))],
                },
            ],
        },
        groups: vec![
            Group {
                target: Target::Parameter,
                name: "EyeBlink".into(),
                ids: vec!["ParamEyeLOpen".into(), "ParamEyeROpen".into()],
            },
            Group { target: Target::Parameter, name: "LipSync".into(), ids: vec!["ParamMouthOpenY".into()] },
        ],
        hit_areas: vec![
            HitArea { id: "HitAreaHead".into(), name: "head".into() },
            HitArea { id: "HitAreaBody".into(), name: "body".into() },
        ],
        layout: None,
    }
}

#[test]
fn file_queries() {
    let s = sample();
    assert!(s.is_exist_model_file());
    assert!(s.is_exist_texture_files());
    assert!(s.is_exist_physics_file());
    assert!(s.is_exist_pose_file());
    assert!(!s.is_exist_display_info_file());
    assert!(s.is_exist_expression_file());
    assert_eq!(s.get_model_file_name().map(|s| s.as_str()), Some("model.moc3"));
    assert_eq!(s.get_physics_file_name().map(|s| s.as_str()), Some("model.physics3.json"));
    assert_eq!(s.get_pose_file_name().map(|s| s.as_str()), Some("model.pose3.json"));
    assert_eq!(s.get_display_info_file_name(), None);
    assert_eq!(s.get_texture_count(), 1);
    assert_eq!(s.get_texture_file_name(0).map(|s| s.as_str()), Some("texture_00.png"));
    assert_eq!(s.get_texture_file_name(1), None);
    assert_eq!(s.get_layout(), None);
}

#[test]
fn texture_directory_is_the_parent_of_the_first_texture() {
    let mut s = sample();
    assert_eq!(s.get_texture_directory(), Some(String::new()));
    s.file_references.textures = vec!["model.2048/texture_00.png".into(), "other/t.png".into()];
    assert_eq!(s.get_texture_directory(), Some("model.2048".to_string()));
    s.file_references.textures.clear();
    assert_eq!(s.get_texture_directory(), None);
    s.file_references.textures = vec!["/".into()];
    assert_eq!(s.get_texture_directory(), None);
}

#[test]
fn hit_areas_and_expressions() {
    let s = sample();
    assert!(s.is_exist_hit_areas());
    assert_eq!(s.get_hit_areas_count(), 2);
    assert_eq!(s.get_hit_area_id(1), Some("HitAreaBody"));
    assert_eq!(s.get_hit_area_name(0), Some("head"));
    assert_eq!(s.get_hit_area_id(2), None);
    assert_eq!(s.get_expression_count(), 2);
    assert_eq!(s.get_expression_name(1), Some("angry"));
    assert_eq!(s.get_expression_file_name(0), Some("exp_smile.json"));
    assert_eq!(s.get_expression_file_name(2), None);
}

#[test]
fn motion_queries() {
    let s = sample();
    assert!(s.is_exist_motion_groups());
    assert_eq!(s.get_motion_group_count(), 2);
    let names: Vec<&str> = s.get_motion_group_names().iter().map(|n| n.as_str()).collect();
    assert_eq!(names, vec!["Idle", "TapBody"]);
    assert!(s.is_exist_motion_group_name("Idle"));
    assert!(!s.is_exist_motion_group_name("Shake"));
    assert_eq!(s.get_motion_count("TapBody"), 1);
    assert_eq!(s.get_motion_count("Shake"), 0);
    assert_eq!(s.get_motion_file_name("Idle", 0), Some("idle.motion3.json"));
    assert_eq!(s.get_motion_file_name("Idle", 1), None);
    assert!(s.is_exist_motion_sound_file("TapBody", 0));
    assert!(!s.is_exist_motion_sound_file("Idle", 0));
    assert_eq!(s.get_motion_sound_file_name("TapBody", 0), Some("tap.wav"));
    assert_eq!(s.get_motion_sound_file_name("Idle", 0), None);
    assert!(s.is_exist_motion_fade_in("Idle", 0));
    assert!(!s.is_exist_motion_fade_out("Idle", 3));
    assert_eq!(f32::from_bits(s.get_motion_fade_in_time_value("Idle", 0)), 1.0);
    assert_eq!(f32::from_bits(s.get_motion_fade_out_time_value("Idle", 0)), 0.5);
    assert_eq!(s.get_motion_fade_in_time_value("Idle", 5), NO_FADE_TIME);
    assert_eq!(f32::from_bits(s.get_motion_fade_out_time_value("Shake", 0)), -1.0);
}

#[test]
fn parameter_groups() {
    let mut s = sample();
    assert!(s.is_exist_eye_blink_parameters());
    assert!(s.is_exist_lip_sync_parameters());
    assert_eq!(s.get_eye_blink_parameter_count(), 2);
    assert_eq!(s.get_eye_blink_parameter_id(1), Some("ParamEyeROpen"));
    assert_eq!(s.get_eye_blink_parameter_id(2), None);
    assert_eq!(s.get_lip_sync_parameter_count(), 1);
    assert_eq!(s.get_lip_sync_parameter_id(0), Some("ParamMouthOpenY"));
    s.groups.push(Group { target: Target::Part, name: "EyeBlink".into(), ids: vec![] });
    assert_eq!(s.get_eye_blink_parameter_count(), 2);
    s.groups.clear();
    assert!(!s.is_exist_eye_blink_parameters());
    assert_eq!(s.get_eye_blink_parameter_count(), 0);
    assert_eq!(s.get_lip_sync_parameter_id(0), None);
}

#[test]
fn layout_is_handed_back() {
    let mut s = sample();
    let l = Layout { center_x: 0, center_y: 0, x: 1, y: 2, width: 3, height: 4 };
    s.layout = Some(l);
    assert_eq!(s.get_layout(), Some(&l));
}

#[test]
fn inserting_motion_groups_acts_as_a_map() {
    let mut groups: Vec<MotionGroup> = vec![];
    insert_motion_group(&mut groups, MotionGroup { name: "Idle".into(), motions: vec![motion("a.motion3.json", None)] });
    insert_motion_group(&mut groups, MotionGroup { name: "Tap".into(), motions: vec![motion("b.motion3.json", None)] });
    insert_motion_group(&mut groups, MotionGroup { name: "Idle".into(), motions: vec![motion("c.motion3.json", None)] });
    assert_eq!(groups.len(), 2);
    assert_eq!(groups[0].name, "Idle");
    assert_eq!(groups[0].motions[0].file, "c.motion3.json");
    assert_eq!(groups[1].name, "Tap");
    assert_eq!(groups[1].motions[0].file, "b.motion3.json");
}
