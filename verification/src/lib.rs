//! A small image-processing library: fixed-size bottom-up BGRA pixel buffers,
//! a per-pixel classification that restyles an arbitrary bitmap into a
//! grid-styled chart image with detected edges, and the validation step that
//! turns a window-capture readback into a well-formed buffer.

pub mod capture;
pub mod image;
