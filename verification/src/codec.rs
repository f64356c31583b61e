//! Calls into the image codec crate, each behind a trusted contract.

use vstd::prelude::*;
use crate::pixmap::Image;
use crate::pixmap::Pixel;
use crate::pixmap::image_from_raw;
use crate::pixmap::image_to_raw;

verus! {

/// What one pixel becomes under hue rotation by a whole number of degrees.
/// The codec's rotation is a fixed per-pixel matrix, so the result depends
/// on the pixel and the angle alone.
pub uninterp spec fn hue_rotated_px(p: Pixel, deg: int) -> Pixel;

/// Why a file could not be loaded as an image.
#[derive(Clone, Copy, PartialEq, Eq, Structural, Debug)]
pub enum LoadError {
    /// The file could not be opened.
    Open,
    /// The file opened but its bytes did not decode as an image.
    Decode,
}

/// Relies on image::DynamicImage::huerotate, which maps every pixel
/// independently through one hue-rotation matrix, keeps the canvas
/// dimensions, and carries the alpha channel through unchanged.
#[verifier::external_body]
pub(crate) fn huerotate_image(img: &Image, deg: i32) -> (r: Image)
    requires
        img.wf(),
    ensures
        r.width == img.width,
        r.height == img.height,
        r.pixels@.len() == img.pixels@.len(),
        forall|i: int|
            0 <= i < img.pixels@.len() ==> r.pixels@[i] == hue_rotated_px(
                img.pixels@[i],
                deg as int,
            ),
        forall|i: int| 0 <= i < img.pixels@.len() ==> r.pixels@[i].a == img.pixels@[i].a,
{
    let buf = image::RgbaImage::from_raw(img.width, img.height, image_to_raw(img))
        .expect("buffer length matches the dimensions");
    let rotated = image::DynamicImage::ImageRgba8(buf).huerotate(deg).to_rgba8();
    let (w, h) = rotated.dimensions();
    image_from_raw(w, h, rotated.into_raw()).expect("codec output is a full buffer")
}

/// Relies on image::io::Reader: `open` reads the file at the path and
/// `decode` turns its bytes into a pixel grid. What comes back depends on
/// what is on disk, so nothing is promised beyond a well-formed image.
#[verifier::external_body]
pub(crate) fn load_image(path: &str) -> (r: Result<Image, LoadError>)
    ensures
        r matches Ok(img) ==> img.wf(),
{
    let reader = image::io::Reader::open(path).map_err(|_| LoadError::Open)?;
    let rgba = reader.decode().map_err(|_| LoadError::Decode)?.to_rgba8();
    let (w, h) = rgba.dimensions();
    image_from_raw(w, h, rgba.into_raw()).ok_or(LoadError::Decode)
}

} // verus!
