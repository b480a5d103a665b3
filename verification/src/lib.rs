//! A declarative image-composition builder.
//!
//! Callers assemble a canvas by adding typed visual elements (filled
//! rectangles, positioned text, and externally decoded pictures with optional
//! crop and resize) in a fixed draw order, then trigger a single rendering
//! pass that rasterizes all elements onto a pixel buffer, respecting straight
//! alpha-over compositing, and encodes the result as a PNG byte stream.

pub mod buffer;
pub mod canvas;
pub mod colors;
pub mod picture;
pub mod raster;
pub mod rect;
pub mod text;

pub use crate::buffer::Buffer;
pub use crate::canvas::Element;
pub use crate::canvas::Image;
pub use crate::canvas::ImageError;
pub use crate::colors::Color;
pub use crate::picture::FilterType;
pub use crate::picture::Picture;
pub use crate::rect::Rect;
pub use crate::text::Text;
