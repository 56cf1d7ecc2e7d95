use vstd::prelude::*;

verus! {

/// An entry of a physics file's dictionary: a setting id and its display name.
#[derive(Debug, Clone, PartialEq)]
pub struct DictEntry {
    pub id: String,
    pub name: String,
}

/// The parameter that a physics input reads or an output writes.
#[derive(Debug, Clone, PartialEq)]
pub struct Source {
    pub target: String,
    pub id: String,
}

} // verus!
