//! Effects that drive parameters on their own: eye blinking and poses.

pub mod eye_blink;
pub mod pose;
