//! Discrete core of a small sphere ray tracer: which sphere a pixel shows,
//! which lights reach a surface point, the row-major RGB raster and its
//! binary PPM encoding.
pub mod ppm;
pub mod raster;
pub mod shading;
