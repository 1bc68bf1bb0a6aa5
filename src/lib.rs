//! Keyframe model and interpolation engine of a handball move editor.
//!
//! Positions live in a fixed-point normalized space (see [`geometry::UNIT`]);
//! the drawing layer maps them to pixels with [`geometry::get_screen_coords`].
pub mod geometry;
pub mod curve;
pub mod person;
pub mod animation;
pub mod field;
