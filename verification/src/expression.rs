//! Expressions: parameter overrides blended onto a model.

pub mod exp;
pub mod json;
