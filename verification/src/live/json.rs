use vstd::prelude::*;
use vstd::std_specs::cmp::PartialEqSpecImpl;

verus! {

/// A live configuration: a name and its hotkeys.
#[derive(Debug, Clone, PartialEq)]
pub struct Live {
    pub version: usize,
    pub name: String,
    pub hotkeys: Vec<Hotkey>,
}

/// What a hotkey is bound to.
#[derive(Debug, Clone, Copy, PartialEq, Eq, Structural)]
pub enum HotkeyAction {
    SetUnsetExpression,
    OpenCloseMotionPanel,
    OpenCloseDebugPanel,
    EnableDisablePhysics,
    OpenCloseCamera,
    NextShader,
    PrevShader,
    OpenCloseReceiver,
}

/// An action waiting in the action queue.
#[derive(Debug, Clone)]
pub enum Action {
    SetUnsetExpression(String),
    OpenCloseMotionPanel,
    OpenCloseDebugPanel,
    EnableDisablePhysics,
    OpenCloseCamera,
    NextShader,
    PrevShader,
    OpenCloseReceiver(Option<usize>),
}

impl PartialEq for Action {
    fn eq(&self, other: &Action) -> (r: bool) {
        match (self, other) {
            (Action::SetUnsetExpression(a), Action::SetUnsetExpression(b)) => *a == *b,
            (Action::OpenCloseMotionPanel, Action::OpenCloseMotionPanel) => true,
            (Action::OpenCloseDebugPanel, Action::OpenCloseDebugPanel) => true,
            (Action::EnableDisablePhysics, Action::EnableDisablePhysics) => true,
            (Action::OpenCloseCamera, Action::OpenCloseCamera) => true,
            (Action::NextShader, Action::NextShader) => true,
            (Action::PrevShader, Action::PrevShader) => true,
            (Action::OpenCloseReceiver(a), Action::OpenCloseReceiver(b)) => match (a, b) {
                (None, None) => true,
                (Some(x), Some(y)) => *x == *y,
                _ => false,
            },
            _ => false,
        }
    }
}

impl PartialEqSpecImpl for Action {
    open spec fn obeys_eq_spec() -> bool {
        true
    }

    open spec fn eq_spec(&self, other: &Action) -> bool {
        same_action(*self, *other)
    }
}

/// Two actions are the same: same kind, same file, same port.
pub open spec fn same_action(a: Action, b: Action) -> bool {
    match (a, b) {
        (Action::SetUnsetExpression(x), Action::SetUnsetExpression(y)) => x@ == y@,
        (Action::OpenCloseMotionPanel, Action::OpenCloseMotionPanel) => true,
        (Action::OpenCloseDebugPanel, Action::OpenCloseDebugPanel) => true,
        (Action::EnableDisablePhysics, Action::EnableDisablePhysics) => true,
        (Action::OpenCloseCamera, Action::OpenCloseCamera) => true,
        (Action::NextShader, Action::NextShader) => true,
        (Action::PrevShader, Action::PrevShader) => true,
        (Action::OpenCloseReceiver(x), Action::OpenCloseReceiver(y)) => x == y,
        _ => false,
    }
}

/// The keys that must be held together; an empty text is no key.
#[derive(Debug, Clone, PartialEq)]
pub struct HotkeyTriggers {
    pub trigger1: String,
    pub trigger2: String,
    pub trigger3: String,
}

/// A hotkey: up to three keys and the action they queue. `fade_seconds` and
/// `stop_after_seconds` are `f32` bit patterns, kept for the caller.
#[derive(Debug, Clone, PartialEq)]
pub struct Hotkey {
    pub action: HotkeyAction,
    pub file: String,
    pub triggers: HotkeyTriggers,
    pub fade_seconds: u32,
    pub stop_after_seconds: u32,
    pub stop_when_release_key: bool,
    pub port: Option<usize>,
}

/// The non-empty triggers, in order.
pub open spec fn required_keys(t: HotkeyTriggers) -> Seq<Seq<char>> {
    let s1 = if t.trigger1@.len() > 0 { seq![t.trigger1@] } else { Seq::empty() };
    let s2 = if t.trigger2@.len() > 0 { seq![t.trigger2@] } else { Seq::empty() };
    let s3 = if t.trigger3@.len() > 0 { seq![t.trigger3@] } else { Seq::empty() };
    s1 + s2 + s3
}

/// The keys that a list of held keys stands for.
pub open spec fn key_set(keys: Seq<String>) -> Set<Seq<char>> {
    Set::new(|k: Seq<char>| exists|i: int| 0 <= i < keys.len() && (#[trigger] keys[i])@ == k)
}

/// The hotkey fires: it names at least one key and every key it names is held.
pub open spec fn is_triggered(h: Hotkey, pressed: Set<Seq<char>>) -> bool {
    let req = required_keys(h.triggers);
    &&& req.len() > 0
    &&& forall|i: int| 0 <= i < req.len() ==> pressed.contains(#[trigger] req[i])
}

/// The action a hotkey queues.
pub open spec fn action_for(h: Hotkey) -> Action {
    match h.action {
        HotkeyAction::SetUnsetExpression => Action::SetUnsetExpression(h.file),
        HotkeyAction::OpenCloseMotionPanel => Action::OpenCloseMotionPanel,
        HotkeyAction::OpenCloseDebugPanel => Action::OpenCloseDebugPanel,
        HotkeyAction::EnableDisablePhysics => Action::EnableDisablePhysics,
        HotkeyAction::OpenCloseCamera => Action::OpenCloseCamera,
        HotkeyAction::NextShader => Action::NextShader,
        HotkeyAction::PrevShader => Action::PrevShader,
        HotkeyAction::OpenCloseReceiver => Action::OpenCloseReceiver(h.port),
    }
}

/// A hotkey queues the action of its own kind: each `HotkeyAction` variant
/// gives the `Action` variant of the same name, an expression action carries
/// the hotkey's file and a receiver action its port.
pub proof fn lemma_hotkey_action_kind(h: Hotkey)
    ensures
        (action_for(h) is SetUnsetExpression) <==> h.action == HotkeyAction::SetUnsetExpression,
        (action_for(h) is OpenCloseMotionPanel) <==> h.action == HotkeyAction::OpenCloseMotionPanel,
        (action_for(h) is OpenCloseDebugPanel) <==> h.action == HotkeyAction::OpenCloseDebugPanel,
        (action_for(h) is EnableDisablePhysics) <==> h.action == HotkeyAction::EnableDisablePhysics,
        (action_for(h) is OpenCloseCamera) <==> h.action == HotkeyAction::OpenCloseCamera,
        (action_for(h) is NextShader) <==> h.action == HotkeyAction::NextShader,
        (action_for(h) is PrevShader) <==> h.action == HotkeyAction::PrevShader,
        (action_for(h) is OpenCloseReceiver) <==> h.action == HotkeyAction::OpenCloseReceiver,
        action_for(h) matches Action::SetUnsetExpression(f) ==> f == h.file,
        action_for(h) matches Action::OpenCloseReceiver(port) ==> port == h.port,
{
}

/// The queue holds an action that is the same as `a`.
pub open spec fn queued(q: Seq<Action>, a: Action) -> bool {
    exists|i: int| 0 <= i < q.len() && same_action(#[trigger] q[i], a)
}

/// `a` added at the end of the queue, unless the same action waits already.
pub open spec fn enqueue(q: Seq<Action>, a: Action) -> Seq<Action> {
    if queued(q, a) {
        q
    } else {
        q.push(a)
    }
}

/// The queue after each hotkey, in order, that `pressed` fires has queued its action.
pub open spec fn run_hotkeys(hs: Seq<Hotkey>, pressed: Set<Seq<char>>, q: Seq<Action>) -> Seq<Action>
    decreases hs.len(),
{
    if hs.len() == 0 {
        q
    } else {
        let before = run_hotkeys(hs.drop_last(), pressed, q);
        if is_triggered(hs.last(), pressed) {
            enqueue(before, action_for(hs.last()))
        } else {
            before
        }
    }
}

/// The keys held: `key` unless it is empty, and every modifier.
pub open spec fn pressed_set(key: Seq<char>, modifiers: Seq<String>) -> Set<Seq<char>> {
    Set::new(
        |k: Seq<char>|
            (key.len() > 0 && k == key) || exists|i: int|
                0 <= i < modifiers.len() && (#[trigger] modifiers[i])@ == k,
    )
}

/// No two actions in the queue are the same.
pub open spec fn no_duplicates(q: Seq<Action>) -> bool {
    forall|i: int, j: int| 0 <= i < q.len() && 0 <= j < q.len() && i != j ==> !same_action(#[trigger] q[i], #[trigger] q[j])
}

/// Whether `keys` holds a key equal to `key`.
fn holds_key(keys: &Vec<String>, key: &String) -> (r: bool)
    ensures
        r == key_set(keys@).contains(key@),
{
    let n = keys.len();
    let mut i: usize = 0;
    while i < n
        invariant
            n == keys@.len(),
            i <= n,
            forall|j: int| 0 <= j < i ==> (#[trigger] keys@[j])@ != key@,
        decreases n - i,
    {
        if keys[i] == *key {
            assert(key_set(keys@).contains(key@)) by {
                assert(keys@[i as int]@ == key@);
            }
            return true;
        }
        i += 1;
    }
    false
}

impl Hotkey {
    /// Whether every key that the hotkey names is among `pressed_keys`; a hotkey
    /// that names no key never fires.
    pub fn is_trigger(&self, pressed_keys: &Vec<String>) -> (r: bool)
        ensures
            r == is_triggered(*self, key_set(pressed_keys@)),
    {
        let t1 = !self.triggers.trigger1.as_str().is_empty();
        let t2 = !self.triggers.trigger2.as_str().is_empty();
        let t3 = !self.triggers.trigger3.as_str().is_empty();
        let ghost req = required_keys(self.triggers);
        if !t1 && !t2 && !t3 {
            return false;
        }
        let ok1 = !t1 || holds_key(pressed_keys, &self.triggers.trigger1);
        let ok2 = !t2 || holds_key(pressed_keys, &self.triggers.trigger2);
        let ok3 = !t3 || holds_key(pressed_keys, &self.triggers.trigger3);
        let r = ok1 && ok2 && ok3;
        proof {
            let s = key_set(pressed_keys@);
            let s1 = if t1 { seq![self.triggers.trigger1@] } else { Seq::<Seq<char>>::empty() };
            let s2 = if t2 { seq![self.triggers.trigger2@] } else { Seq::<Seq<char>>::empty() };
            let s3 = if t3 { seq![self.triggers.trigger3@] } else { Seq::<Seq<char>>::empty() };
            assert(req == s1 + s2 + s3);
            if r {
                assert forall|i: int| 0 <= i < req.len() implies s.contains(#[trigger] req[i]) by {
                    if i < s1.len() {
                        assert(req[i] == s1[i]);
                    } else if i < s1.len() + s2.len() {
                        assert(req[i] == s2[i - s1.len()]);
                    } else {
                        assert(req[i] == s3[i - s1.len() - s2.len()]);
                    }
                }
            } else {
                if !ok1 {
                    assert(req[0] == self.triggers.trigger1@);
                } else if !ok2 {
                    assert(req[s1.len() as int] == self.triggers.trigger2@);
                } else {
                    assert(req[(s1.len() + s2.len()) as int] == self.triggers.trigger3@);
                }
            }
        }
        r
    }

    /// Queues the hotkey's action unless the same action waits already.
    pub fn apply(&self, action_queue: &mut Vec<Action>)
        ensures
            final(action_queue)@ == enqueue(old(action_queue)@, action_for(*self)),
    {
        let a = match self.action {
            HotkeyAction::SetUnsetExpression => Action::SetUnsetExpression(self.file.clone()),
            HotkeyAction::OpenCloseMotionPanel => Action::OpenCloseMotionPanel,
            HotkeyAction::OpenCloseDebugPanel => Action::OpenCloseDebugPanel,
            HotkeyAction::EnableDisablePhysics => Action::EnableDisablePhysics,
            HotkeyAction::OpenCloseCamera => Action::OpenCloseCamera,
            HotkeyAction::NextShader => Action::NextShader,
            HotkeyAction::PrevShader => Action::PrevShader,
            HotkeyAction::OpenCloseReceiver => Action::OpenCloseReceiver(self.port),
        };
        assert(a == action_for(*self));
        if !queue_contains(action_queue, &a) {
            action_queue.push(a);
        }
    }
}

/// Whether the same action as `a` waits in the queue.
fn queue_contains(q: &Vec<Action>, a: &Action) -> (r: bool)
    ensures
        r == queued(q@, *a),
{
    let n = q.len();
    let mut i: usize = 0;
    while i < n
        invariant
            n == q@.len(),
            i <= n,
            forall|j: int| 0 <= j < i ==> !same_action(#[trigger] q@[j], *a),
        decreases n - i,
    {
        if q[i] == *a {
            assert(same_action(q@[i as int], *a));
            return true;
        }
        i += 1;
    }
    false
}

impl Live {
    /// Queues the action of every hotkey that the held keys fire, in the order
    /// of the hotkeys, each unless the same action waits already. The held keys
    /// are `key`, unless it is empty, and the modifiers.
    pub fn handle_hotkeys(&self, key: String, modifiers: Vec<String>, action_queue: &mut Vec<Action>)
        ensures
            final(action_queue)@ == run_hotkeys(
                self.hotkeys@,
                pressed_set(key@, modifiers@),
                old(action_queue)@,
            ),
    {
        let ghost key_view = key@;
        let ghost mods = modifiers@;
        let mut current_pressed: Vec<String> = Vec::new();
        if !key.as_str().is_empty() {
            current_pressed.push(key);
        }
        let ghost first = current_pressed@;
        let nm = modifiers.len();
        let mut m: usize = 0;
        while m < nm
            invariant
                nm == modifiers@.len(),
                modifiers@ == mods,
                m <= nm,
                current_pressed@ == first + modifiers@.take(m as int),
            decreases nm - m,
        {
            current_pressed.push(modifiers[m].clone());
            assert(modifiers@.take(m as int + 1) =~= modifiers@.take(m as int).push(modifiers@[m as int]));
            m += 1;
        }
        assert(modifiers@.take(nm as int) =~= modifiers@);
        assert(key_set(current_pressed@) =~= pressed_set(key_view, mods)) by {
            assert forall|k: Seq<char>| key_set(current_pressed@).contains(k) implies pressed_set(key_view, mods).contains(k) by {
                let i = choose|i: int| 0 <= i < current_pressed@.len() && (#[trigger] current_pressed@[i])@ == k;
                if i < first.len() {
                    assert(first[i]@ == key_view);
                } else {
                    assert(mods[i - first.len()]@ == k);
                }
            }
            assert forall|k: Seq<char>| pressed_set(key_view, mods).contains(k) implies key_set(current_pressed@).contains(k) by {
                if key_view.len() > 0 && k == key_view {
                    assert(current_pressed@[0]@ == k);
                } else {
                    let i = choose|i: int| 0 <= i < mods.len() && (#[trigger] mods[i])@ == k;
                    assert(current_pressed@[first.len() + i]@ == k);
                }
            }
        }
        let ghost pressed = pressed_set(key_view, mods);
        let n = self.hotkeys.len();
        let mut i: usize = 0;
        while i < n
            invariant
                n == self.hotkeys@.len(),
                i <= n,
                key_set(current_pressed@) == pressed,
                action_queue@ == run_hotkeys(self.hotkeys@.take(i as int), pressed, old(action_queue)@),
            decreases n - i,
        {
            let hotkey = &self.hotkeys[i];
            assert(self.hotkeys@.take(i as int + 1).drop_last() =~= self.hotkeys@.take(i as int));
            if hotkey.is_trigger(&current_pressed) {
                hotkey.apply(action_queue);
            }
            i += 1;
        }
        assert(self.hotkeys@.take(n as int) =~= self.hotkeys@);
    }
}

/// Queuing an action a second time changes nothing.
pub proof fn lemma_enqueue_idempotent(q: Seq<Action>, a: Action)
    ensures
        enqueue(enqueue(q, a), a) == enqueue(q, a),
        queued(enqueue(q, a), a),
{
    if !queued(q, a) {
        let q2 = q.push(a);
        assert(same_action(q2[q.len() as int], a));
        assert(queued(q2, a));
    }
}

/// Queuing an action keeps the queue free of duplicates, and keeps what waited.
pub proof fn lemma_enqueue_no_duplicates(q: Seq<Action>, a: Action)
    requires
        no_duplicates(q),
    ensures
        no_duplicates(enqueue(q, a)),
        enqueue(q, a).len() >= q.len(),
        enqueue(q, a).subrange(0, q.len() as int) == q,
{
    if !queued(q, a) {
        let q2 = q.push(a);
        assert forall|i: int, j: int| 0 <= i < q2.len() && 0 <= j < q2.len() && i != j implies !same_action(
            #[trigger] q2[i],
            #[trigger] q2[j],
        ) by {
            if i == q.len() {
                lemma_same_action_symmetric(q2[j], a);
                assert(!same_action(q[j], a));
            } else if j == q.len() {
                assert(!same_action(q[i], a));
            } else {
                assert(q2[i] == q[i] && q2[j] == q[j]);
            }
        }
        assert(q2.subrange(0, q.len() as int) =~= q);
    } else {
        assert(q.subrange(0, q.len() as int) =~= q);
    }
}

proof fn lemma_same_action_symmetric(a: Action, b: Action)
    ensures
        same_action(a, b) == same_action(b, a),
{
}

proof fn lemma_queued_extends(q: Seq<Action>, r: Seq<Action>, a: Action)
    requires
        queued(q, a),
        r.len() >= q.len(),
        r.subrange(0, q.len() as int) == q,
    ensures
        queued(r, a),
{
    let i = choose|i: int| 0 <= i < q.len() && same_action(#[trigger] q[i], a);
    assert(r[i] == r.subrange(0, q.len() as int)[i]);
}

/// Running the hotkeys only adds at the end of the queue, and afterwards the
/// action of every hotkey that fired waits in the queue.
pub proof fn lemma_run_hotkeys_extends(hs: Seq<Hotkey>, pressed: Set<Seq<char>>, q: Seq<Action>)
    ensures
        run_hotkeys(hs, pressed, q).len() >= q.len(),
        run_hotkeys(hs, pressed, q).subrange(0, q.len() as int) == q,
        forall|i: int| 0 <= i < hs.len() && is_triggered(#[trigger] hs[i], pressed)
            ==> queued(run_hotkeys(hs, pressed, q), action_for(hs[i])),
    decreases hs.len(),
{
    if hs.len() == 0 {
        assert(q.subrange(0, q.len() as int) =~= q);
    } else {
        let prev = hs.drop_last();
        lemma_run_hotkeys_extends(prev, pressed, q);
        let before = run_hotkeys(prev, pressed, q);
        let after = run_hotkeys(hs, pressed, q);
        let a = action_for(hs.last());
        if is_triggered(hs.last(), pressed) {
            lemma_enqueue_idempotent(before, a);
            if !queued(before, a) {
                assert(before.push(a).subrange(0, before.len() as int) =~= before);
            } else {
                assert(before.subrange(0, before.len() as int) =~= before);
            }
        } else {
            assert(before.subrange(0, before.len() as int) =~= before);
        }
        assert(after.subrange(0, before.len() as int) == before);
        assert(after.subrange(0, q.len() as int) =~= before.subrange(0, q.len() as int)) by {
            assert forall|k: int| 0 <= k < q.len() implies after.subrange(0, q.len() as int)[k]
                == before.subrange(0, q.len() as int)[k] by {
                assert(after[k] == after.subrange(0, before.len() as int)[k]);
            }
        }
        assert forall|i: int| 0 <= i < hs.len() && is_triggered(#[trigger] hs[i], pressed) implies queued(
            after,
            action_for(hs[i]),
        ) by {
            if i < hs.len() - 1 {
                assert(hs[i] == prev[i]);
                lemma_queued_extends(before, after, action_for(hs[i]));
            }
        }
    }
}

/// Running the hotkeys over a queue that already holds the action of every
/// hotkey that fires leaves the queue as it was.
proof fn lemma_run_hotkeys_stable(hs: Seq<Hotkey>, pressed: Set<Seq<char>>, q: Seq<Action>)
    requires
        forall|i: int| 0 <= i < hs.len() && is_triggered(#[trigger] hs[i], pressed) ==> queued(q, action_for(hs[i])),
    ensures
        run_hotkeys(hs, pressed, q) == q,
    decreases hs.len(),
{
    if hs.len() > 0 {
        let prev = hs.drop_last();
        assert forall|i: int| 0 <= i < prev.len() && is_triggered(#[trigger] prev[i], pressed) implies queued(
            q,
            action_for(prev[i]),
        ) by {
            assert(prev[i] == hs[i]);
        }
        lemma_run_hotkeys_stable(prev, pressed, q);
        if is_triggered(hs.last(), pressed) {
            assert(queued(q, action_for(hs[hs.len() - 1])));
        }
    }
}

/// Handling the same held keys a second time queues nothing new.
pub proof fn lemma_handle_hotkeys_twice(hs: Seq<Hotkey>, pressed: Set<Seq<char>>, q: Seq<Action>)
    ensures
        run_hotkeys(hs, pressed, run_hotkeys(hs, pressed, q)) == run_hotkeys(hs, pressed, q),
{
    lemma_run_hotkeys_extends(hs, pressed, q);
    lemma_run_hotkeys_stable(hs, pressed, run_hotkeys(hs, pressed, q));
}

/// Handling hotkeys keeps a queue free of duplicate actions.
pub proof fn lemma_handle_hotkeys_no_duplicates(hs: Seq<Hotkey>, pressed: Set<Seq<char>>, q: Seq<Action>)
    requires
        no_duplicates(q),
    ensures
        no_duplicates(run_hotkeys(hs, pressed, q)),
    decreases hs.len(),
{
    if hs.len() > 0 {
        lemma_handle_hotkeys_no_duplicates(hs.drop_last(), pressed, q);
        let before = run_hotkeys(hs.drop_last(), pressed, q);
        lemma_enqueue_no_duplicates(before, action_for(hs.last()));
    }
}

} // verus!
