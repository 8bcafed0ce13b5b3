//! The exact core of a ray tracer: shape identity, the pixel buffer, the render
//! loop that fills it and the PPM text of the result, the bookkeeping of the
//! media a ray is inside, the depth-bounded recursion of reflected and refracted
//! rays, and how matrix entries move under transposition and cofactor
//! expansion.
pub mod bounce;
pub mod canvas;
pub mod matrix;
pub mod media;
pub mod ppm;
pub mod render;
pub mod uid;
