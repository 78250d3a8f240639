//! Compositing of one RGBA image onto another at an integer offset, with a
//! selectable blend or Porter-Duff operator, and extension of an image onto a
//! canvas of another size.
//!
//! Images are 8-bit RGBA buffers of the `image` crate. Every function states
//! its result over a mathematical model of the image, a [`raster::Raster`].

pub mod canvas;
pub mod compositor;
pub mod laws;
pub mod operator;
pub mod pixel;
pub mod raster;

pub use canvas::{extent, try_extent};
pub use compositor::composite;
pub use operator::CompositeOperator;
pub use pixel::Rgba;
pub use raster::Image;
