use vstd::prelude::*;

verus! {

/// An expression file (`.exp3.json`); the fade times are `f32` bit patterns.
#[derive(Debug, Clone, PartialEq)]
pub struct Exp3 {
    pub type_: String,
    pub fade_in_time: u32,
    pub fade_out_time: u32,
    pub parameters: Vec<Parameter>,
}

/// A parameter override of an expression; `value` is an `f32` bit pattern and
/// `blend` names how it is applied (`Add`, `Multiply` or `Overwrite`).
#[derive(Debug, Clone, PartialEq)]
pub struct Parameter {
    pub id: String,
    pub value: u32,
    pub blend: String,
}

/// The blend that a parameter without one gets: `Add`.
pub fn default_blend_type() -> (s: String)
    ensures
        s@ == "Add"@,
{
    String::from_str("Add")
}

} // verus!
