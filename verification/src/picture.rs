//! The picture element descriptor.

use vstd::prelude::*;

use crate::buffer::Buffer;

verus! {

/// The resampling filter used when a picture is resized. The resampling
/// itself is performed by the external image codec; the library only selects
/// the filter.
#[derive(Clone, Copy, PartialEq, Eq, Structural, Debug)]
pub enum FilterType {
    Nearest,
    Triangle,
    CatmullRom,
    Gaussian,
    Lanczos3,
}

/// An optional crop region, in source pixel coordinates. A region that
/// exceeds the source dimensions is an error at render time, not clamped.
#[derive(Clone, Copy, PartialEq, Eq, Structural, Debug)]
pub struct CropValues {
    pub x: u32,
    pub y: u32,
    pub width: u32,
    pub height: u32,
}

/// An optional resize target: new dimensions and the resampling filter.
#[derive(Clone, Copy, PartialEq, Eq, Structural, Debug)]
pub struct ResizeValues {
    pub nwidth: u32,
    pub nheight: u32,
    pub filter: FilterType,
}

/// An externally decoded picture to include in the image being built, with
/// optional crop, optional resize, and a placement offset.
///
/// When both a crop and a resize are configured, the crop is always applied
/// first and the resize second, regardless of the order of the builder
/// calls.
#[derive(Debug)]
pub struct Picture {
    pub img: Buffer,
    pub crop: Option<CropValues>,
    pub resize: Option<ResizeValues>,
    pub x: u32,
    pub y: u32,
}

impl Picture {
    /// A picture holding the given decoded pixels, with no crop, no resize,
    /// placed at the origin of the canvas.
    pub fn new(img: Buffer) -> (p: Picture)
        ensures
            p.img == img,
            p.crop is None,
            p.resize is None,
            p.x == 0,
            p.y == 0,
    {
        Picture { img, crop: None, resize: None, x: 0, y: 0 }
    }

    /// The same picture, resampled to `width * height` with `filter` at
    /// render time, after any configured crop has been applied.
    pub fn resize(self, width: u32, height: u32, filter: FilterType) -> (p: Picture)
        ensures
            p == (Picture {
                resize: Some(ResizeValues { nwidth: width, nheight: height, filter }),
                ..self
            }),
    {
        Picture { resize: Some(ResizeValues { nwidth: width, nheight: height, filter }), ..self }
    }

    /// The same picture, cropped at render time to the `width * height`
    /// region of the source that starts at `(x, y)`, before any resize.
    pub fn crop(self, x: u32, y: u32, width: u32, height: u32) -> (p: Picture)
        ensures
            p == (Picture { crop: Some(CropValues { x, y, width, height }), ..self }),
    {
        Picture { crop: Some(CropValues { x, y, width, height }), ..self }
    }

    /// The same picture, placed at offset `(x, y)` of the canvas.
    pub fn position(self, x: u32, y: u32) -> (p: Picture)
        ensures
            p == (Picture { x, y, ..self }),
    {
        Picture { x, y, ..self }
    }
}

/// The render-time parameters of a picture element.
#[derive(Debug)]
pub struct PictureValues {
    pub img: Buffer,
    pub x: u32,
    pub y: u32,
    pub crop: Option<CropValues>,
    pub resize: Option<ResizeValues>,
}

/// Reads the concrete drawing parameters out of a picture descriptor.
pub fn extract(picture: Picture) -> (v: PictureValues)
    ensures
        v.img == picture.img,
        v.x == picture.x,
        v.y == picture.y,
        v.crop == picture.crop,
        v.resize == picture.resize,
{
    PictureValues {
        img: picture.img,
        x: picture.x,
        y: picture.y,
        crop: picture.crop,
        resize: picture.resize,
    }
}

} // verus!
