//! The core of a modal text editor: a text buffer addressed by character
//! position, cursor movements and selections, an undo/redo engine built from
//! invertible edit actions, a scrolling viewport and a syntax-highlight
//! overlay.

pub mod action;
pub mod buffer;
pub mod command;
pub mod config;
pub mod highlight;
pub mod input;
pub mod laws;
pub mod rect;
pub mod render;
pub mod rope;
pub mod text;
pub mod utils;
pub mod window;
