//! The boundary to the pixel-grid codec: a decoded image carried opaquely,
//! together with its dimensions as plain integers that the geometry can
//! reason about. Decoding from disk and writing to disk stay with the caller;
//! only in-memory pixel operations live behind this boundary.

use vstd::prelude::*;

verus! {

#[verifier::external_type_specification]
#[verifier::external_body]
pub struct ExDynamicImage(image::DynamicImage);

/// A decoded pixel grid and its size. The fields are only ever written by the
/// trusted constructors below, which copy the true dimensions out of the
/// image, so the integer fields always describe the carried pixel grid.
/// `from_decoded` converts the grid to 8-bit RGBA, and cropping and scaling
/// keep that color type, so the carried grid is always 8-bit RGBA — a type
/// every encoder of this pipeline accepts.
pub struct SourceImage {
    img: image::DynamicImage,
    width: u32,
    height: u32,
}

impl SourceImage {
    /// The pixel width of the carried image.
    pub closed spec fn spec_width(&self) -> u32 {
        self.width
    }

    /// The pixel height of the carried image.
    pub closed spec fn spec_height(&self) -> u32 {
        self.height
    }

    /// Wrap a decoded image. Relies on DynamicImage::to_rgba8, which turns
    /// any decoded color type into an 8-bit RGBA grid of the same size, and
    /// on DynamicImage::width and DynamicImage::height: the stored integers
    /// are the pixel dimensions of the grid, so later crops stay in bounds of
    /// the real image.
    #[verifier::external_body]
    pub fn from_decoded(img: image::DynamicImage) -> (r: SourceImage) {
        let img = image::DynamicImage::ImageRgba8(img.to_rgba8());
        let width = img.width();
        let height = img.height();
        SourceImage { img, width, height }
    }

    /// Give the carried image back to the caller, e.g. to encode it to disk.
    pub fn into_inner(self) -> image::DynamicImage {
        self.img
    }

    /// The width as an exec value.
    pub fn width(&self) -> (r: u32)
        ensures
            r == self.spec_width(),
    {
        self.width
    }

    /// The height as an exec value.
    pub fn height(&self) -> (r: u32)
        ensures
            r == self.spec_height(),
    {
        self.height
    }
}

/// Relies on DynamicImage::crop_imm: for an in-bounds rectangle the result is
/// exactly the `cw` x `ch` sub-image whose top-left corner is at `(x, y)`,
/// in the source's own color type (so 8-bit RGBA stays 8-bit RGBA).
#[verifier::external_body]
pub(crate) fn crop_region(src: &SourceImage, x: u32, y: u32, cw: u32, ch: u32) -> (r: SourceImage)
    requires
        x + cw <= src.spec_width(),
        y + ch <= src.spec_height(),
    ensures
        r.spec_width() == cw,
        r.spec_height() == ch,
{
    let img = src.img.crop_imm(x, y, cw, ch);
    SourceImage { img, width: cw, height: ch }
}

/// Relies on DynamicImage::thumbnail: scales the image down, preserving its
/// aspect ratio and color type, to fit within `max_w` x u32::MAX. For a
/// source wider than `max_w` the width bound is the tight one, so the
/// result's width is exactly `max_w`, and the height is the source height
/// scaled by the same factor, rounded, and clamped to at least 1 — so the
/// cross-multiplied aspect products differ by less than one source width.
#[verifier::external_body]
pub(crate) fn shrink_to_width(src: &SourceImage, max_w: u32) -> (r: SourceImage)
    requires
        1 <= max_w,
        max_w < src.spec_width(),
    ensures
        r.spec_width() == max_w,
        1 <= r.spec_height(),
        (r.spec_height() as int) * (src.spec_width() as int) <= (max_w as int) * (
        src.spec_height() as int) + src.spec_width(),
        (max_w as int) * (src.spec_height() as int) <= (r.spec_height() as int) * (
        src.spec_width() as int) + src.spec_width(),
{
    let img = src.img.thumbnail(max_w, u32::MAX);
    let width = img.width();
    let height = img.height();
    SourceImage { img, width, height }
}

/// Relies on DynamicImage::write_to with the PNG format: encodes the carried
/// pixel grid into an in-memory PNG byte stream. The encoder refuses exactly
/// the images with zero width or height; for every other 8-bit RGBA grid (the
/// only kind the constructors above produce) the write into the in-memory
/// buffer succeeds.
#[verifier::external_body]
pub(crate) fn png_bytes(src: &SourceImage) -> (r: Option<Vec<u8>>)
    ensures
        r is Some <==> (1 <= src.spec_width() && 1 <= src.spec_height()),
{
    let mut buf: Vec<u8> = Vec::new();
    match src.img.write_to(&mut std::io::Cursor::new(&mut buf), image::ImageFormat::Png) {
        Ok(()) => Some(buf),
        Err(_) => None,
    }
}

} // verus!
