use vstd::prelude::*;

verus! {

/// How a luminance level is turned into a character.
pub enum Shader {
    /// Characters of a fixed text, used in turn.
    Text(String),
    /// A ramp of characters, from dark to bright.
    Char(Vec<char>),
}

/// The shaders that the renderer can switch between, and the one in use.
pub struct ShaderManager {
    shaders: Vec<Shader>,
    idx: usize,
}

impl ShaderManager {
    /// The index of the shader in use.
    pub closed spec fn index(&self) -> nat {
        self.idx as nat
    }

    /// The number of shaders.
    pub closed spec fn count(&self) -> nat {
        self.shaders@.len()
    }

    /// The shader at position `i`.
    pub closed spec fn shader_at(&self, i: int) -> Shader {
        self.shaders@[i]
    }

    /// Every manager holds shaders, and its index points at one of them.
    #[verifier::type_invariant]
    spec fn holds_shaders(&self) -> bool {
        &&& self.shaders@.len() > 0
        &&& self.idx < self.shaders@.len()
    }

    /// The manager is well formed: it holds shaders and its index points at
    /// one. Every manager is: this is its type invariant.
    pub open spec fn wf(&self) -> bool {
        &&& self.count() > 0
        &&& self.index() < self.count()
    }

    pub fn new() -> (m: Self)
        ensures
            m.wf(),
            m.count() == 4,
            m.index() == 0,
            m.shader_at(0) matches Shader::Char(c) && c@ == seq![' ', '.', ':', '-', '=', '+', '*', '#', '%', '@'],
            m.shader_at(1) matches Shader::Text(t) && t@ == "HELLO"@,
            m.shader_at(2) matches Shader::Char(c) && c@ == seq!['⠀', '⠁', '⠃', '⠇', '⠧', '⠷', '⠿', '⡿', '⣿'],
            m.shader_at(3) matches Shader::Char(c) && c@ == seq![' ', '▁', '▂', '▃', '▄', '▅', '▆', '▇', '█'],
    {
        let ramp = vec![' ', '.', ':', '-', '=', '+', '*', '#', '%', '@'];
        let braille = vec!['⠀', '⠁', '⠃', '⠇', '⠧', '⠷', '⠿', '⡿', '⣿'];
        let blocks = vec![' ', '▁', '▂', '▃', '▄', '▅', '▆', '▇', '█'];
        let shaders: Vec<Shader> = vec![
            Shader::Char(ramp),
            Shader::Text(String::from_str("HELLO")),
            Shader::Char(braille),
            Shader::Char(blocks),
        ];
        ShaderManager { shaders, idx: 0 }
    }

    pub fn current_shader(&self) -> (s: &Shader)
        ensures
            self.wf(),
            *s == self.shader_at(self.index() as int),
    {
        proof {
            use_type_invariant(self);
        }
        &self.shaders[self.idx]
    }

    pub fn next(&mut self)
        ensures
            old(self).wf(),
            final(self).wf(),
            final(self).count() == old(self).count(),
            forall|i: int| 0 <= i < old(self).count() ==> final(self).shader_at(i) == old(self).shader_at(i),
            final(self).index() == (old(self).index() + 1) % old(self).count(),
    {
        proof {
            use_type_invariant(&*self);
        }
        let n = self.shaders.len();
        self.idx = (self.idx + 1) % n;
    }
}

/// The shader index after `k` presses of "next shader" from index `start`.
pub open spec fn after_nexts(start: nat, count: nat, k: nat) -> nat
    decreases k,
{
    if k == 0 {
        start
    } else {
        (after_nexts(start, count, (k - 1) as nat) + 1) % count
    }
}

/// Pressing "next shader" `k` times moves `k` places round the list; as many
/// presses as there are shaders come back to the shader in use.
pub proof fn lemma_next_cycles(start: nat, count: nat, k: nat)
    requires
        start < count,
    ensures
        after_nexts(start, count, k) == (start + k) % count,
        after_nexts(start, count, count) == start,
{
    lemma_after_nexts_mod(start, count, k);
    lemma_after_nexts_mod(start, count, count);
    vstd::arithmetic::div_mod::lemma_mod_add_multiples_vanish(start as int, count as int);
    vstd::arithmetic::div_mod::lemma_small_mod(start, count);
}

proof fn lemma_after_nexts_mod(start: nat, count: nat, k: nat)
    requires
        start < count,
    ensures
        after_nexts(start, count, k) == (start + k) % count,
    decreases k,
{
    if k == 0 {
        vstd::arithmetic::div_mod::lemma_small_mod(start, count);
    } else {
        lemma_after_nexts_mod(start, count, (k - 1) as nat);
        let a = start + k - 1;
        vstd::arithmetic::div_mod::lemma_add_mod_noop_right(1, a, count as int);
    }
}

} // verus!
