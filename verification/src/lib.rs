//! PWG-Raster and Apple URF (UNIRAST) print streams for A4 pages.
//!
//! The library turns an 8-bit grayscale page bitmap into the raster formats
//! used by driverless printing: it derives the A4 pixel geometry from the
//! resolution, serializes the bit-exact page headers of both formats, and
//! compresses scanlines with the PWG run-length encoding.

pub mod pwg;
pub mod render;
pub mod rle;
pub mod urf;
pub mod wire;

pub use render::Format;
pub use render::Resolution;
