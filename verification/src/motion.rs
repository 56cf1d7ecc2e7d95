//! Motion data: the `.motion3.json` model, its decoding and flattening, and
//! the motion objects built on it.

pub mod amotion;
pub mod json;
pub mod queue;
