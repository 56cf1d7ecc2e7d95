//! The `.live.json` configuration: hotkeys and the actions they queue.

pub mod json;
