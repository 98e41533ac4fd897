//! Draw sprites quickly on packed 32-bit pixel buffers, using a masking color
//! or an alpha threshold to decide which pixels are transparent.
//!
//! The alpha channel is binary: a source pixel is either drawn or it leaves
//! the destination untouched. Every drawing operation is clipped against both
//! buffers before a single pixel is written.
//!
//! The most important function to know about is [`Blit::blit`], which is
//! implemented for [`BlitBuffer`].

pub mod aseprite;
pub mod buffer;
pub mod bytes;
mod convert;
pub mod error;
pub mod geom;
pub mod image;
pub mod options;
pub mod pixel;
pub mod prelude;
pub mod raster;
pub mod slice;
pub mod view;

pub use buffer::{Blit, BlitBuffer, ToBlitBuffer};
pub use options::BlitOptions;
