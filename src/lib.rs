//! A small 2-D plotting library: series of points are framed by their
//! bounds, clipped to the visible world rectangle and turned into drawing
//! commands for a pluggable render target, with pan and zoom driven by input.
pub mod clip;
pub mod draw;
pub mod plot;
pub mod plotbuilder;
pub mod util;
