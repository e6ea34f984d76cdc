//! The integer side of a Monte-Carlo path tracer: the decisions that the
//! floating-point geometry, materials and integrator take, and the finished
//! raster laid out as RGBA bytes or as a PPM file.
pub mod geometry;
pub mod image;
pub mod integrator;
pub mod material;
pub mod ppm;
