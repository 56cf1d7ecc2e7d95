use live_ascii::live::json::{Action, Hotkey, HotkeyAction, HotkeyTriggers, Live};

fn keys(v: &[&str]) -> Vec<String> {
    v.iter().map(|s| s.to_string()).collect()
}

fn hotkey(action: HotkeyAction, file: &str, t: [&str; 3], port: Option<usize>) -> Hotkey {
    Hotkey {
        action,
        file: file.to_string(),
        triggers: HotkeyTriggers {
            trigger1: t[0].to_string(),
            trigger2: t[1].to_string(),
            trigger3: t[2].to_string(),
        },
        fade_seconds: 0.5f32.to_bits(),
        stop_after_seconds: (-1.0f32).to_bits(),
        stop_when_release_key: false,
        port,
    }
}

#[test]
fn is_trigger_needs_every_named_key() {
    let h = hotkey(HotkeyAction::NextShader, "", ["Ctrl", "", "N"], None);
    assert!(h.is_trigger(&keys(&["N", "Ctrl"])));
    assert!(h.is_trigger(&keys(&["N", "Ctrl", "Shift"])));
    assert!(!h.is_trigger(&keys(&["N"])));
    let none = hotkey(HotkeyAction::NextShader, "", ["", "", ""], None);
    assert!(!none.is_trigger(&keys(&["N", "Ctrl"])));
    assert!(!none.is_trigger(&keys(&[])));
}

#[test]
fn apply_queues_once() {
    let h = hotkey(HotkeyAction::SetUnsetExpression, "exp_02.exp3.json", ["A", "", ""], None);
    let mut q = Vec::new();
    h.apply(&mut q);
    assert_eq!(q, vec![Action::SetUnsetExpression("exp_02.exp3.json".to_string())]);
    h.apply(&mut q);
    assert_eq!(q.len(), 1);
    let r = hotkey(HotkeyAction::OpenCloseReceiver, "", ["R", "", ""], Some(11573));
    r.apply(&mut q);
    r.apply(&mut q);
    assert_eq!(q.len(), 2);
    assert_eq!(q[1], Action::OpenCloseReceiver(Some(11573)));
    let other_port = hotkey(HotkeyAction::OpenCloseReceiver, "", ["R", "", ""], None);
    other_port.apply(&mut q);
    assert_eq!(q.len(), 3);
}

#[test]
fn handle_hotkeys_queues_fired_actions_in_order() {
    let live = Live {
        version: 1,
        name: "test".to_string(),
        hotkeys: vec![
            hotkey(HotkeyAction::OpenCloseDebugPanel, "", ["D", "", ""], None),
            hotkey(HotkeyAction::NextShader, "", ["Ctrl", "N", ""], None),
            hotkey(HotkeyAction::PrevShader, "", ["Ctrl", "P", ""], None),
            hotkey(HotkeyAction::OpenCloseDebugPanel, "", ["N", "", ""], None),
        ],
    };
    let mut q = vec![Action::EnableDisablePhysics];
    live.handle_hotkeys("N".to_string(), keys(&["Ctrl"]), &mut q);
    assert_eq!(q, vec![Action::EnableDisablePhysics, Action::NextShader, Action::OpenCloseDebugPanel]);
    let snapshot = q.clone();
    live.handle_hotkeys("N".to_string(), keys(&["Ctrl"]), &mut q);
    assert_eq!(q, snapshot);
    let mut empty_key = Vec::new();
    live.handle_hotkeys(String::new(), keys(&["D"]), &mut empty_key);
    assert_eq!(empty_key, vec![Action::OpenCloseDebugPanel]);
}

#[test]
fn live_config_queues_its_expression_hotkey() {
    // The value that `test.live.json` decodes to; the file itself is read by the app.
    let live = Live {
        version: 1,
        name: "test".to_string(),
        hotkeys: vec![hotkey(HotkeyAction::SetUnsetExpression, "exp_02.exp3.json", ["A", "", ""], None)],
    };
    let mut q = Vec::new();
    live.handle_hotkeys("A".to_string(), Vec::new(), &mut q);
    assert_eq!(q, vec![Action::SetUnsetExpression("exp_02.exp3.json".to_string())]);
    assert_eq!(f32::from_bits(live.hotkeys[0].fade_seconds), 0.5);
}
