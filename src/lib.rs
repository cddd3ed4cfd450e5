//! Speech extraction from captured audio: the integer side of the pipeline.
//!
//! The library decides how a buffer is cut into classification frames, how
//! each frame's speech label moves the segmenter's state and what is done with
//! the frame, and whether a buffer holds enough speech to be kept.
pub mod frames;
pub mod input;
pub mod segmenter;

