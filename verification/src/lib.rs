//! Terminal renderer core for Live2D Cubism models: the frame buffer, ASCII
//! shaders, model-setting queries, hotkey handling, motion-data decoding and
//! the face-tracking packet format.

pub mod shader;
pub mod motion;
pub mod live;
pub mod renderer;
pub mod tracker;
pub mod utils;
pub mod model_setting;
pub mod context;
pub mod receiver;
pub mod effect;
pub mod expression;
pub mod physics;
