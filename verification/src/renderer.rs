use vstd::prelude::*;

use crate::utils::{is_permutation, lemma_insert_sorted, lemma_sorted_permutation_unique, lists, sorted_by};

verus! {

/// The panel that takes the keyboard.
#[derive(Debug, Clone, Copy, PartialEq, Eq, Structural)]
pub enum Panel {
    Hidden,
    Op,
    Debug,
}

/// The operation panel that is open.
#[derive(Debug, Clone, Copy, PartialEq, Eq, Structural)]
pub enum OpPanel {
    Hidden,
    Motions,
}

/// The debug panel that is open.
#[derive(Debug, Clone, Copy, PartialEq, Eq, Structural)]
pub enum DebugPanel {
    Hidden,
    Parameters,
    PartOpacities,
    AppliedExp,
    PressedKeys,
    DrawableOpacities,
    CanvasInfo,
}

/// A key press, as far as the renderer tells keys apart.
#[derive(Debug, Clone, Copy, PartialEq, Eq, Structural)]
pub enum Key {
    Char(char),
    Up,
    Down,
    Left,
    Right,
    Enter,
    Esc,
    Other,
}

/// What the renderer does in answer to a key, besides switching panels.
#[derive(Debug, Clone, Copy, PartialEq, Eq, Structural)]
pub enum KeyAction {
    Nothing,
    Quit,
    /// Move the model up by one step.
    MoveUp,
    MoveDown,
    MoveLeft,
    MoveRight,
    /// Scale the model up by one step.
    ZoomIn,
    ZoomOut,
    SelectPreviousMotion,
    SelectNextMotion,
    /// Start the motion selected in the motion list, and reset the pose.
    PlaySelectedMotion,
    SelectPreviousParameter,
    SelectNextParameter,
}

/// Which panels are open and which one has the keyboard.
#[derive(Debug, Clone, Copy, PartialEq, Eq, Structural)]
pub struct PanelState {
    pub current_panel: Panel,
    pub current_op_panel: OpPanel,
    pub current_debug_panel: DebugPanel,
}

/// The panels after opening the motion list.
pub open spec fn open_motions(s: PanelState) -> PanelState {
    PanelState { current_panel: Panel::Op, current_op_panel: OpPanel::Motions, ..s }
}

/// The panels after giving the keyboard to the debug panel, which shows the
/// parameters unless another debug list is open.
pub open spec fn open_debug(s: PanelState) -> PanelState {
    PanelState {
        current_panel: Panel::Debug,
        current_debug_panel: if s.current_debug_panel == DebugPanel::Hidden {
            DebugPanel::Parameters
        } else {
            s.current_debug_panel
        },
        ..s
    }
}

/// The debug view that a number key selects: `1` to `6` pick the parameters,
/// the part opacities, the applied expressions, the pressed keys, the
/// drawable opacities and the canvas information.
pub open spec fn debug_view_of(c: char) -> Option<DebugPanel> {
    if c == '1' {
        Some(DebugPanel::Parameters)
    } else if c == '2' {
        Some(DebugPanel::PartOpacities)
    } else if c == '3' {
        Some(DebugPanel::AppliedExp)
    } else if c == '4' {
        Some(DebugPanel::PressedKeys)
    } else if c == '5' {
        Some(DebugPanel::DrawableOpacities)
    } else if c == '6' {
        Some(DebugPanel::CanvasInfo)
    } else {
        None
    }
}

/// The debug view that a number key selects, if any.
pub fn debug_view_for(c: char) -> (v: Option<DebugPanel>)
    ensures
        v == debug_view_of(c),
{
    if c == '1' {
        Some(DebugPanel::Parameters)
    } else if c == '2' {
        Some(DebugPanel::PartOpacities)
    } else if c == '3' {
        Some(DebugPanel::AppliedExp)
    } else if c == '4' {
        Some(DebugPanel::PressedKeys)
    } else if c == '5' {
        Some(DebugPanel::DrawableOpacities)
    } else if c == '6' {
        Some(DebugPanel::CanvasInfo)
    } else {
        None
    }
}

/// The renderer's answer to `key` in panel state `s`: the next panel state and
/// the action to perform.
pub open spec fn key_response(s: PanelState, key: Key) -> (PanelState, KeyAction) {
    match s.current_panel {
        Panel::Hidden => match key {
            Key::Char('q') => (s, KeyAction::Quit),
            Key::Up => (s, KeyAction::MoveUp),
            Key::Down => (s, KeyAction::MoveDown),
            Key::Left => (s, KeyAction::MoveLeft),
            Key::Right => (s, KeyAction::MoveRight),
            Key::Char('=') => (s, KeyAction::ZoomIn),
            Key::Char('+') => (s, KeyAction::ZoomIn),
            Key::Char('-') => (s, KeyAction::ZoomOut),
            Key::Char('m') => (open_motions(s), KeyAction::Nothing),
            Key::Char('p') => (open_debug(s), KeyAction::Nothing),
            _ => (s, KeyAction::Nothing),
        },
        Panel::Op => match s.current_op_panel {
            OpPanel::Motions => match key {
                Key::Char('q') | Key::Esc => (
                    PanelState { current_panel: Panel::Hidden, current_op_panel: OpPanel::Hidden, ..s },
                    KeyAction::Nothing,
                ),
                Key::Up => (s, KeyAction::SelectPreviousMotion),
                Key::Down => (s, KeyAction::SelectNextMotion),
                Key::Enter => (s, KeyAction::PlaySelectedMotion),
                Key::Char('m') => (open_motions(s), KeyAction::Nothing),
                Key::Char('p') => (open_debug(s), KeyAction::Nothing),
                _ => (s, KeyAction::Nothing),
            },
            OpPanel::Hidden => (s, KeyAction::Nothing),
        },
        Panel::Debug => if s.current_debug_panel == DebugPanel::Hidden {
            (s, KeyAction::Nothing)
        } else {
            match key {
                Key::Char('q') | Key::Esc => (
                    PanelState { current_panel: Panel::Hidden, current_debug_panel: DebugPanel::Hidden, ..s },
                    KeyAction::Nothing,
                ),
                Key::Char(c) if debug_view_of(c) is Some => (
                    PanelState { current_debug_panel: debug_view_of(c).unwrap(), ..s },
                    KeyAction::Nothing,
                ),
                Key::Up => (s, KeyAction::SelectPreviousParameter),
                Key::Down => (s, KeyAction::SelectNextParameter),
                Key::Char('m') => (open_motions(s), KeyAction::Nothing),
                _ => (s, KeyAction::Nothing),
            }
        },
    }
}

impl PanelState {
    /// No panel open.
    pub fn new() -> (s: Self)
        ensures
            s.current_panel == Panel::Hidden,
            s.current_op_panel == OpPanel::Hidden,
            s.current_debug_panel == DebugPanel::Hidden,
    {
        PanelState {
            current_panel: Panel::Hidden,
            current_op_panel: OpPanel::Hidden,
            current_debug_panel: DebugPanel::Hidden,
        }
    }

    /// Answers a key press: switches panels and returns the action to perform.
    pub fn handle_key(&mut self, key: Key) -> (a: KeyAction)
        ensures
            (*final(self), a) == key_response(*old(self), key),
    {
        match self.current_panel {
            Panel::Hidden => match key {
                Key::Char('q') => KeyAction::Quit,
                Key::Up => KeyAction::MoveUp,
                Key::Down => KeyAction::MoveDown,
                Key::Left => KeyAction::MoveLeft,
                Key::Right => KeyAction::MoveRight,
                Key::Char('=') | Key::Char('+') => KeyAction::ZoomIn,
                Key::Char('-') => KeyAction::ZoomOut,
                Key::Char('m') => {
                    self.open_motion_list();
                    KeyAction::Nothing
                },
                Key::Char('p') => {
                    self.open_debug_panel();
                    KeyAction::Nothing
                },
                _ => KeyAction::Nothing,
            },
            Panel::Op => match self.current_op_panel {
                OpPanel::Motions => match key {
                    Key::Char('q') | Key::Esc => {
                        self.current_panel = Panel::Hidden;
                        self.current_op_panel = OpPanel::Hidden;
                        KeyAction::Nothing
                    },
                    Key::Up => KeyAction::SelectPreviousMotion,
                    Key::Down => KeyAction::SelectNextMotion,
                    Key::Enter => KeyAction::PlaySelectedMotion,
                    Key::Char('m') => {
                        self.open_motion_list();
                        KeyAction::Nothing
                    },
                    Key::Char('p') => {
                        self.open_debug_panel();
                        KeyAction::Nothing
                    },
                    _ => KeyAction::Nothing,
                },
                OpPanel::Hidden => KeyAction::Nothing,
            },
            Panel::Debug => {
                if let DebugPanel::Hidden = self.current_debug_panel {
                    return KeyAction::Nothing;
                }
                match key {
                    Key::Char('q') | Key::Esc => {
                        self.current_panel = Panel::Hidden;
                        self.current_debug_panel = DebugPanel::Hidden;
                        KeyAction::Nothing
                    },
                    Key::Up => KeyAction::SelectPreviousParameter,
                    Key::Down => KeyAction::SelectNextParameter,
                    Key::Char(c) => {
                        if let Some(view) = debug_view_for(c) {
                            self.current_debug_panel = view;
                        } else if c == 'm' {
                            self.open_motion_list();
                        }
                        KeyAction::Nothing
                    },
                    _ => KeyAction::Nothing,
                }
            },
        }
    }

    fn open_motion_list(&mut self)
        ensures
            *final(self) == open_motions(*old(self)),
    {
        self.current_panel = Panel::Op;
        self.current_op_panel = OpPanel::Motions;
    }

    fn open_debug_panel(&mut self)
        ensures
            *final(self) == open_debug(*old(self)),
    {
        self.current_panel = Panel::Debug;
        if let DebugPanel::Hidden = self.current_debug_panel {
            self.current_debug_panel = DebugPanel::Parameters;
        }
    }
}

/// Drawable `a` is drawn before drawable `b`: by render order, then by index.
pub open spec fn drawn_before(orders: Seq<i32>, a: usize, b: usize) -> bool {
    orders[a as int] < orders[b as int] || (orders[a as int] == orders[b as int] && a < b)
}

/// `order` lists every drawable once, sorted by render order; drawables with
/// equal render orders keep their index order.
pub open spec fn is_draw_order(orders: Seq<i32>, order: Seq<usize>) -> bool {
    &&& is_permutation(order, orders.len())
    &&& sorted_by(order, |a: usize, b: usize| drawn_before(orders, a, b))
}

/// There is only one draw order: `draw_order`'s contract fixes its result.
pub proof fn lemma_draw_order_unique(orders: Seq<i32>, o1: Seq<usize>, o2: Seq<usize>)
    requires
        is_draw_order(orders, o1),
        is_draw_order(orders, o2),
    ensures
        o1 == o2,
{
    lemma_sorted_permutation_unique(o1, o2, orders.len(), |a: usize, b: usize| drawn_before(orders, a, b));
}

/// The drawables' indices in the order in which they are drawn: by ascending
/// render order, ties by ascending index (a stable sort of `0..n`).
pub fn draw_order(render_orders: &Vec<i32>) -> (order: Vec<usize>)
    ensures
        is_draw_order(render_orders@, order@),
{
    let n = render_orders.len();
    let mut order: Vec<usize> = Vec::new();
    let mut i: usize = 0;
    while i < n
        invariant
            n == render_orders@.len(),
            i <= n,
            order@.len() == i,
            forall|k: int| 0 <= k < order@.len() ==> (#[trigger] order@[k]) < i,
            forall|d: usize| d < i ==> #[trigger] lists(order@, d),
            sorted_by(order@, |a: usize, b: usize| drawn_before(render_orders@, a, b)),
        decreases n - i,
    {
        let key = render_orders[i];
        // first position whose drawable is drawn after drawable i
        let mut p: usize = 0;
        while p < order.len() && render_orders[order[p]] <= key
            invariant
                n == render_orders@.len(),
                i < n,
                key == render_orders@[i as int],
                p <= order@.len(),
                forall|k: int| 0 <= k < order@.len() ==> (#[trigger] order@[k]) < i,
                forall|k: int| 0 <= k < p ==> drawn_before(render_orders@, #[trigger] order@[k], i),
            decreases order@.len() - p,
        {
            p += 1;
        }
        proof {
            assert forall|k: int| p <= k < order@.len() implies drawn_before(render_orders@, i, #[trigger] order@[k]) by {
                if k > p {
                    assert(drawn_before(render_orders@, order@[p as int], order@[k]));
                }
            }
        }
        let ghost before = order@;
        order.insert(p, i);
        proof {
            lemma_insert_sorted(before, p as int, i, |a: usize, b: usize| drawn_before(render_orders@, a, b));
        }
        i += 1;
    }
    assert(sorted_by(order@, |a: usize, b: usize| drawn_before(render_orders@, a, b)));
    order
}

} // verus!
