use live_ascii::expression::exp::{blend_type_from_str, exp_params, ExpBlendType};
use live_ascii::expression::json::{default_blend_type, Parameter};
use live_ascii::physics::{physics_source_from_kind, sub_rig_layouts, PhysicsSource, SettingSize};
use live_ascii::receiver::MsgReceiver;

#[test]
fn default_blend_is_add() {
    assert_eq!(default_blend_type(), "Add");
}

#[test]
fn blend_types() {
    assert_eq!(blend_type_from_str(&"Add".into()), ExpBlendType::Add);
    assert_eq!(blend_type_from_str(&"Multiply".into()), ExpBlendType::Multiply);
    assert_eq!(blend_type_from_str(&"Overwrite".into()), ExpBlendType::Overwrite);
    assert_eq!(blend_type_from_str(&"Screen".into()), ExpBlendType::Add);
}

#[test]
fn expression_parameters_get_their_blend() {
    let ps = exp_params(&vec![
        Parameter { id: "laugh".into(), value: 1.0f32.to_bits(), blend: "Add".into() },
        Parameter { id: "brow".into(), value: 0.5f32.to_bits(), blend: "Multiply".into() },
    ]);
    assert_eq!(ps.len(), 2);
    assert_eq!(ps[0].id, "laugh");
    assert_eq!(ps[0].blend_type, ExpBlendType::Add);
    assert_eq!(ps[1].blend_type, ExpBlendType::Multiply);
    assert_eq!(f32::from_bits(ps[1].value), 0.5);
}

#[test]
fn physics_kinds() {
    assert_eq!(physics_source_from_kind(&"X".into()), Some(PhysicsSource::X));
    assert_eq!(physics_source_from_kind(&"Y".into()), Some(PhysicsSource::Y));
    assert_eq!(physics_source_from_kind(&"Angle".into()), Some(PhysicsSource::Angle));
    assert_eq!(physics_source_from_kind(&"Z".into()), None);
}

#[test]
fn sub_rig_counts_accumulate() {
    let rigs = sub_rig_layouts(&vec![
        SettingSize { inputs: 2, outputs: 1, vertices: 3 },
        SettingSize { inputs: 1, outputs: 2, vertices: 2 },
    ]);
    assert_eq!((rigs[0].input_count, rigs[0].output_count, rigs[0].particle_count), (2, 1, 3));
    assert_eq!((rigs[1].input_count, rigs[1].output_count, rigs[1].particle_count), (3, 3, 5));
    assert_eq!((rigs[1].base_input_index, rigs[1].base_output_index, rigs[1].base_particle_index), (0, 0, 0));
}

#[test]
fn receiver_keeps_port_and_channel() {
    let (tx, rx) = std::sync::mpsc::channel::<String>();
    let r = MsgReceiver::new(11573, tx);
    assert_eq!(r.port(), 11573);
    assert!(!r.running_flag().load(std::sync::atomic::Ordering::SeqCst));
    r.running_flag().store(true, std::sync::atomic::Ordering::SeqCst);
    r.stop();
    assert!(!r.running_flag().load(std::sync::atomic::Ordering::SeqCst));
    r.sender().send("hello".to_string()).unwrap();
    assert_eq!(rx.recv().unwrap(), "hello");
}

#[test]
fn receiver_flag_is_shared_and_cleared_by_stop() {
    let (tx, _rx) = std::sync::mpsc::channel::<String>();
    let r = MsgReceiver::new(11574, tx);
    let flag = r.running_flag().clone();
    assert!(std::sync::Arc::ptr_eq(&flag, r.running_flag()));
    assert!(!flag.load(std::sync::atomic::Ordering::SeqCst));
    flag.store(true, std::sync::atomic::Ordering::SeqCst);
    r.stop();
    assert!(!r.running_flag().load(std::sync::atomic::Ordering::SeqCst));
}
