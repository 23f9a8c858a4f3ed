//! A pluggable image-processing host library: filter entry points that mutate
//! an RGBA8 pixel buffer in place under an overflow-checked arithmetic
//! discipline, with verified Box Blur and Mirror filter algorithms, a
//! silent-fallback JSON parameter decoder, and the host-side helper that
//! composes a platform-specific loadable module filename.

pub mod abi;
pub mod blur;
pub mod loader;
pub mod mirror;
pub mod params;
pub mod pixel;
