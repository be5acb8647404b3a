//! Verified core of a video front end: the planar YUV frames handed to a
//! renderer, and the pipeline that restores presentation order from a coded
//! stream whose pictures are decoded out of display order.

pub mod h264;
pub mod invariants;
pub mod ordering;
pub mod picture;
pub mod program;
pub mod reorder;
pub mod stream;
pub mod yuv;

pub use program::Program;
pub use yuv::{Format, Size, Yuv};
