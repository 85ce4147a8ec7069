//! Images as plain values, text assembly, resizing, thresholding and playback.

pub mod pixels;
pub mod player;
pub mod resize;
pub mod text;
pub mod threshold;
