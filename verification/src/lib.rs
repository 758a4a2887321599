//! Rendering of planar video frames as terminal text.
//!
//! A frame of luma and chroma samples is turned into one buffer of styled
//! glyphs, and that buffer is wrapped into a single synchronized terminal
//! update. Around that stand the arguments the decoder is started with, the
//! reading of its progress, and the life of a playback.
//!
//! The functions of this crate are verified against their contracts. What
//! they take on trust from code outside the crate is said where it stands:
//! in `escape` the escape sequence of a style, in `text` the appending of a
//! character, in `progress` the matching of a pattern and the white space.

pub mod cell;
pub mod color;
pub mod compose;
pub mod decoder;
pub mod display;
pub mod error;
pub mod escape;
pub mod frame;
pub mod progress;
pub mod ramp;
pub mod session;
pub mod style;
pub mod text;

pub use crate::style::{DisplayMode, PixelStyle};
