//! The core of an interactive color picker: a color value kept coherent
//! across RGB and a polar model, its text renderings, and the pointer
//! mapping and gradient synthesis of the picker surfaces.
//!
//! Every component is a fixed-point fraction: the integer `UNIT` stands for
//! one, so arithmetic is exact and every rounding step is stated.

pub mod fixed;
pub mod convert;
pub mod laws;
pub mod color;
pub mod text;
pub mod shape;
pub mod surface;
pub mod raster;
pub mod pickers;
pub mod single;
pub mod format;
pub mod layout;
