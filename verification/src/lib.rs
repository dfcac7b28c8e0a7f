//! Banner text for the terminal: block-letter rendering, scaling, theme
//! colours, effects and frame-by-frame animation scripts.

pub mod animation;
pub mod block;
pub mod cli;
pub mod config;
pub mod effects;
pub mod font;
pub mod listing;
pub mod paths;
pub mod render;
pub mod scale;
pub mod term;
pub mod text;
pub mod themes;
