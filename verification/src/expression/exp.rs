use vstd::prelude::*;

use crate::expression::json::Parameter;

verus! {

/// How an expression parameter is applied to the model's value.
#[derive(Debug, Clone, Copy, PartialEq, Eq, Structural)]
pub enum ExpBlendType {
    Add,
    Multiply,
    Overwrite,
}

/// An expression parameter ready to apply; `value` is an `f32` bit pattern.
#[derive(Debug)]
pub struct ExpParam {
    pub id: String,
    pub blend_type: ExpBlendType,
    pub value: u32,
}

/// The blend that a `Blend` text names; any other text adds.
pub open spec fn blend_of(blend: Seq<char>) -> ExpBlendType {
    if blend == "Multiply"@ {
        ExpBlendType::Multiply
    } else if blend == "Overwrite"@ {
        ExpBlendType::Overwrite
    } else {
        ExpBlendType::Add
    }
}

/// The blend that a `Blend` text names; `Add` for `Add` and any unknown text.
pub fn blend_type_from_str(blend: &String) -> (b: ExpBlendType)
    ensures
        b == blend_of(blend@),
{
    if *blend == String::from_str("Multiply") {
        ExpBlendType::Multiply
    } else if *blend == String::from_str("Overwrite") {
        ExpBlendType::Overwrite
    } else {
        ExpBlendType::Add
    }
}

/// The parameters of an expression file, each with its blend decoded.
pub fn exp_params(parameters: &Vec<Parameter>) -> (ps: Vec<ExpParam>)
    ensures
        ps@.len() == parameters@.len(),
        forall|i: int| 0 <= i < ps@.len() ==> {
            &&& (#[trigger] ps@[i]).id == parameters@[i].id
            &&& ps@[i].blend_type == blend_of(parameters@[i].blend@)
            &&& ps@[i].value == parameters@[i].value
        },
{
    let n = parameters.len();
    let mut ps: Vec<ExpParam> = Vec::new();
    let mut i: usize = 0;
    while i < n
        invariant
            n == parameters@.len(),
            i <= n,
            ps@.len() == i,
            forall|k: int| 0 <= k < i ==> {
                &&& (#[trigger] ps@[k]).id == parameters@[k].id
                &&& ps@[k].blend_type == blend_of(parameters@[k].blend@)
                &&& ps@[k].value == parameters@[k].value
            },
        decreases n - i,
    {
        let p = &parameters[i];
        ps.push(ExpParam { id: p.id.clone(), blend_type: blend_type_from_str(&p.blend), value: p.value });
        i += 1;
    }
    ps
}

} // verus!
