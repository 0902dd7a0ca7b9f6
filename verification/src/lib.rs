//! The deciding core of an offline ray tracer.
//!
//! A ray tracer computes with real numbers and decides by comparing them.
//! This library holds the deciding: the scene description format and the
//! scene that a description stands for, whether a ray meets an object and
//! on which side, the order of the surfaces that a ray meets, the
//! front-to-back walks that say which of them colour a pixel or dim a
//! light, how deep reflections go, the cells from which samples are drawn,
//! and the assembly of finished rows into an image.
//!
//! The arithmetic on vectors and colours is the caller's. Numbers cross
//! the border as keys (see [`number`]), which can be compared but not
//! computed with, and colours of finished pixels as bytes.

pub mod camera;
pub mod color_image;
pub mod hit;
pub mod loader;
pub mod material;
pub mod model_object;
pub mod number;
pub mod scene;
pub mod scene_format;
