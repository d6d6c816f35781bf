//! Verified core of a transparent cursor-effects overlay: cursor bitmap
//! decoding, the state of the pointer trail and click ripples, the cache of
//! cursor textures, and the decisions the window and mouse-hook callbacks
//! make.

pub mod cache;
pub mod cursor;
pub mod effects;
pub mod input;
pub mod pixels;
pub mod text;
