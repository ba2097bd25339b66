//! Turmites on a torus: a handful of ants walk a wrapping grid, flip the
//! cells they visit and paint two slowly rotating hue fields, which are
//! rendered to RGBA pixels with an integer-only HSV to RGB conversion.

pub mod ant;
pub mod config;
pub mod field;
pub mod hsv2rgb;
pub mod model;
pub mod world;
