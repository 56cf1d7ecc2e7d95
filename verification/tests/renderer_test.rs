use live_ascii::renderer::{draw_order, DebugPanel, Key, KeyAction, OpPanel, Panel, PanelState};

#[test]
fn draw_order_sorts_by_render_order_stably() {
    assert_eq!(draw_order(&vec![3, -1, 3, 0, -1]), vec![1, 4, 3, 0, 2]);
    assert_eq!(draw_order(&vec![]), Vec::<usize>::new());
    assert_eq!(draw_order(&vec![5, 4, 3, 2, 1, 0]), vec![5, 4, 3, 2, 1, 0]);
}

#[test]
fn keys_on_the_model() {
    let mut s = PanelState::new();
    assert_eq!(s.handle_key(Key::Up), KeyAction::MoveUp);
    assert_eq!(s.handle_key(Key::Down), KeyAction::MoveDown);
    assert_eq!(s.handle_key(Key::Left), KeyAction::MoveLeft);
    assert_eq!(s.handle_key(Key::Right), KeyAction::MoveRight);
    assert_eq!(s.handle_key(Key::Char('+')), KeyAction::ZoomIn);
    assert_eq!(s.handle_key(Key::Char('=')), KeyAction::ZoomIn);
    assert_eq!(s.handle_key(Key::Char('-')), KeyAction::ZoomOut);
    assert_eq!(s.handle_key(Key::Enter), KeyAction::Nothing);
    assert_eq!(s.handle_key(Key::Char('q')), KeyAction::Quit);
    assert_eq!(s, PanelState::new());
}

#[test]
fn motion_panel_keys() {
    let mut s = PanelState::new();
    assert_eq!(s.handle_key(Key::Char('m')), KeyAction::Nothing);
    assert_eq!(s.current_panel, Panel::Op);
    assert_eq!(s.current_op_panel, OpPanel::Motions);
    assert_eq!(s.handle_key(Key::Up), KeyAction::SelectPreviousMotion);
    assert_eq!(s.handle_key(Key::Down), KeyAction::SelectNextMotion);
    assert_eq!(s.handle_key(Key::Enter), KeyAction::PlaySelectedMotion);
    assert_eq!(s.handle_key(Key::Esc), KeyAction::Nothing);
    assert_eq!(s, PanelState::new());
}

#[test]
fn debug_panel_keys() {
    let mut s = PanelState::new();
    s.handle_key(Key::Char('p'));
    assert_eq!(s.current_panel, Panel::Debug);
    assert_eq!(s.current_debug_panel, DebugPanel::Parameters);
    s.handle_key(Key::Char('2'));
    assert_eq!(s.current_debug_panel, DebugPanel::PartOpacities);
    assert_eq!(s.handle_key(Key::Down), KeyAction::SelectNextParameter);
    assert_eq!(s.handle_key(Key::Up), KeyAction::SelectPreviousParameter);
    s.handle_key(Key::Char('m'));
    assert_eq!(s.current_panel, Panel::Op);
    assert_eq!(s.current_debug_panel, DebugPanel::PartOpacities);
    s.handle_key(Key::Char('p'));
    assert_eq!(s.current_panel, Panel::Debug);
    assert_eq!(s.current_debug_panel, DebugPanel::PartOpacities);
    s.handle_key(Key::Char('1'));
    assert_eq!(s.current_debug_panel, DebugPanel::Parameters);
    s.handle_key(Key::Char('q'));
    assert_eq!(s.current_panel, Panel::Hidden);
    assert_eq!(s.current_debug_panel, DebugPanel::Hidden);
    assert_eq!(s.current_op_panel, OpPanel::Motions);
}

#[test]
fn debug_number_keys_pick_views() {
    let mut s = PanelState::new();
    s.handle_key(Key::Char('p'));
    let views = [
        ('3', DebugPanel::AppliedExp),
        ('4', DebugPanel::PressedKeys),
        ('5', DebugPanel::DrawableOpacities),
        ('6', DebugPanel::CanvasInfo),
        ('2', DebugPanel::PartOpacities),
        ('1', DebugPanel::Parameters),
    ];
    for (c, v) in views {
        assert_eq!(s.handle_key(Key::Char(c)), KeyAction::Nothing);
        assert_eq!(s.current_panel, Panel::Debug);
        assert_eq!(s.current_debug_panel, v);
    }
    s.handle_key(Key::Char('4'));
    assert_eq!(s.handle_key(Key::Down), KeyAction::SelectNextParameter);
    s.handle_key(Key::Esc);
    assert_eq!(s.current_panel, Panel::Hidden);
    assert_eq!(s.current_debug_panel, DebugPanel::Hidden);
    assert_eq!(s.handle_key(Key::Char('7')), KeyAction::Nothing);
    assert_eq!(s, PanelState::new());
}
