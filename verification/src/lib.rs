//! Verified core of a terminal wireframe viewer: screen-space vectors, line
//! rasterization, pixel placement and the decisions of the frame loop.

pub mod binary32;
pub mod canvas;
pub mod engine;
pub mod line;
pub mod model;
pub mod vec;
