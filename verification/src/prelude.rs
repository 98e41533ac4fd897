//! Commonly used imports.

pub use crate::buffer::{Blit, BlitBuffer, ToBlitBuffer};
pub use crate::geom::{Rect, Size, SubRect};
pub use crate::slice::Slice;
