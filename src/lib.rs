//! Safe, verified logic for a binding layer over a native GUI toolkit: the
//! encoding of text that crosses the boundary, the flags and options that the
//! native side takes as integers, and the list of top-level windows kept for
//! teardown.

pub mod text;
pub mod window;
