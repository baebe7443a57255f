//! Centered, ratio-preserving crop geometry, with integer-only arithmetic.
//!
//! Given a source size `(w, h)` and a target ratio `(rw, rh)`, the crop is the
//! largest rectangle of ratio `rw:rh` that fits centered inside `w x h`.
//! Cross-multiplication over widened integers picks the limiting dimension, so
//! no floating point is involved, and odd leftover pixels bias the crop toward
//! the top-left (floor division).

use vstd::prelude::*;
use vstd::arithmetic::div_mod::{lemma_fundamental_div_mod, lemma_div_by_multiple};
use crate::image_size::{ImageSize, sizes_of, all_sizes};
use crate::picture::{SourceImage, crop_region};

verus! {

/// The integer scale factor: how many whole ratio units fit in the limiting
/// source dimension.
pub open spec fn crop_scale(w: int, h: int, rw: int, rh: int) -> int {
    if w * rh >= h * rw {
        h / rh
    } else {
        w / rw
    }
}

/// Width of the centered crop.
pub open spec fn crop_w(w: int, h: int, rw: int, rh: int) -> int {
    rw * crop_scale(w, h, rw, rh)
}

/// Height of the centered crop.
pub open spec fn crop_h(w: int, h: int, rw: int, rh: int) -> int {
    rh * crop_scale(w, h, rw, rh)
}

/// Horizontal offset of the centered crop.
pub open spec fn crop_x(w: int, h: int, rw: int, rh: int) -> int {
    (w - crop_w(w, h, rw, rh)) / 2
}

/// Vertical offset of the centered crop.
pub open spec fn crop_y(w: int, h: int, rw: int, rh: int) -> int {
    (h - crop_h(w, h, rw, rh)) / 2
}

/// The crop never exceeds the source in either dimension, and its sides are
/// exact ratio multiples, hence non-negative.
pub proof fn lemma_crop_fits(w: int, h: int, rw: int, rh: int)
    requires
        w >= 1,
        h >= 1,
        rw >= 1,
        rh >= 1,
    ensures
        0 <= crop_scale(w, h, rw, rh),
        0 <= crop_w(w, h, rw, rh) <= w,
        0 <= crop_h(w, h, rw, rh) <= h,
{
    let s = crop_scale(w, h, rw, rh);
    if w * rh >= h * rw {
        lemma_fundamental_div_mod(h, rh);
        assert(0 <= h % rh < rh);
        assert(rh * s <= h);
        assert(s >= 0) by (nonlinear_arith)
            requires rh >= 1 && rh * s <= h && h >= 1 && rh * s + rh > h {};
        assert(rw * s <= w) by (nonlinear_arith)
            requires rh >= 1 && rw >= 1 && s >= 0 && rh * s <= h && w * rh >= h * rw {};
        assert(rw * s >= 0 && rh * s >= 0) by (nonlinear_arith)
            requires rw >= 1 && rh >= 1 && s >= 0 {};
    } else {
        lemma_fundamental_div_mod(w, rw);
        assert(0 <= w % rw < rw);
        assert(rw * s <= w);
        assert(s >= 0) by (nonlinear_arith)
            requires rw >= 1 && rw * s <= w && w >= 1 && rw * s + rw > w {};
        assert(rh * s <= h) by (nonlinear_arith)
            requires rh >= 1 && rw >= 1 && s >= 0 && rw * s <= w && w * rh < h * rw {};
        assert(rw * s >= 0 && rh * s >= 0) by (nonlinear_arith)
            requires rw >= 1 && rh >= 1 && s >= 0 {};
    }
}

/// Compute the centered crop rectangle `(x, y, crop width, crop height)` for a
/// source of `image_dims = (w, h)` pixels and a target ratio
/// `target_size = (rw, rh)`.
///
/// The result always fits inside the source, its sides are in the exact ratio
/// `rw:rh` (by cross-multiplication), and it is centered up to the floor bias.
/// When the source is smaller than one ratio unit in the limiting dimension the
/// scale is zero and the crop is empty; callers treat that as degenerate, not
/// as an error.
pub fn calculate_crop_dimensions(image_dims: (u32, u32), target_size: (u32, u32)) -> (r: (
    u32,
    u32,
    u32,
    u32,
))
    requires
        image_dims.0 >= 1,
        image_dims.1 >= 1,
        target_size.0 >= 1,
        target_size.1 >= 1,
    ensures
        r.0 == crop_x(image_dims.0 as int, image_dims.1 as int, target_size.0 as int, target_size.1 as int),
        r.1 == crop_y(image_dims.0 as int, image_dims.1 as int, target_size.0 as int, target_size.1 as int),
        r.2 == crop_w(image_dims.0 as int, image_dims.1 as int, target_size.0 as int, target_size.1 as int),
        r.3 == crop_h(image_dims.0 as int, image_dims.1 as int, target_size.0 as int, target_size.1 as int),
        r.0 + r.2 <= image_dims.0,
        r.1 + r.3 <= image_dims.1,
        (r.2 as int) * (target_size.1 as int) == (r.3 as int) * (target_size.0 as int),
{
    let (width, height) = image_dims;
    let (img_width, img_height) = target_size;

    proof {
        lemma_crop_fits(width as int, height as int, img_width as int, img_height as int);
        assert((width as int) * (img_height as int) < 0x1_0000_0000_0000_0000
            && (height as int) * (img_width as int) < 0x1_0000_0000_0000_0000) by (nonlinear_arith)
            requires
                0 <= (width as int) < 0x1_0000_0000,
                0 <= (height as int) < 0x1_0000_0000,
                0 <= (img_width as int) < 0x1_0000_0000,
                0 <= (img_height as int) < 0x1_0000_0000,
        {};
    }

    // Cross-multiply in 64 bits so the comparison cannot overflow.
    let is_image_wider_than_ratio = (width as u64 * img_height as u64) >= (height as u64
        * img_width as u64);

    let scale_factor: u32 = match is_image_wider_than_ratio {
        // The image is at least as wide as the target ratio: height limits.
        true => height / img_height,
        // The image is taller: width limits.
        false => width / img_width,
    };

    proof {
        assert(scale_factor == crop_scale(width as int, height as int, img_width as int, img_height as int));
    }

    let crop_width: u32 = img_width * scale_factor;
    let crop_height: u32 = img_height * scale_factor;
    let width_start: u32 = (width - crop_width) / 2;
    let height_start: u32 = (height - crop_height) / 2;

    proof {
        let wi = width as int;
        let hi = height as int;
        let rwi = img_width as int;
        let rhi = img_height as int;
        let s = crop_scale(wi, hi, rwi, rhi);
        assert(width_start + crop_width <= width) by {
            lemma_fundamental_div_mod(wi - crop_w(wi, hi, rwi, rhi), 2);
        }
        assert(height_start + crop_height <= height) by {
            lemma_fundamental_div_mod(hi - crop_h(wi, hi, rwi, rhi), 2);
        }
        assert((rwi * s) * rhi == (rhi * s) * rwi) by (nonlinear_arith);
    }

    (width_start, height_start, crop_width, crop_height)
}

/// The first (smallest) size multiple of every class is a small positive pair.
pub proof fn lemma_first_size_positive(s: ImageSize)
    ensures
        1 <= sizes_of(s)[0].0 <= 4,
        1 <= sizes_of(s)[0].1 <= 4,
{
}

/// Crop width and height of `src` for the smallest multiple of class `s`.
pub open spec fn class_crop_dims(src: &SourceImage, s: ImageSize) -> (int, int) {
    (
        crop_w(
            src.spec_width() as int,
            src.spec_height() as int,
            sizes_of(s)[0].0 as int,
            sizes_of(s)[0].1 as int,
        ),
        crop_h(
            src.spec_width() as int,
            src.spec_height() as int,
            sizes_of(s)[0].0 as int,
            sizes_of(s)[0].1 as int,
        ),
    )
}

/// Crop the decoded image to the ratio of `image_size`'s first (smallest)
/// size multiple: the largest centered rectangle of that ratio.
pub fn crop_single_image(src: &SourceImage, image_size: &ImageSize) -> (r: SourceImage)
    requires
        src.spec_width() >= 1,
        src.spec_height() >= 1,
    ensures
        r.spec_width() == class_crop_dims(src, *image_size).0,
        r.spec_height() == class_crop_dims(src, *image_size).1,
{
    let sizes = image_size.get_size();
    let target = sizes[0];
    proof {
        lemma_first_size_positive(*image_size);
    }
    let (x, y, cw, ch) = calculate_crop_dimensions((src.width(), src.height()), target);
    crop_region(src, x, y, cw, ch)
}

/// One centered crop per aspect class, in declared class order, each using
/// that class's first (smallest) size multiple as the target ratio.
pub fn generate_cropped_images(src: &SourceImage) -> (r: Vec<SourceImage>)
    requires
        src.spec_width() >= 1,
        src.spec_height() >= 1,
    ensures
        r@.len() == all_sizes().len(),
        forall|i: int| #![trigger r@[i]]
            0 <= i < r@.len() ==> r@[i].spec_width() == class_crop_dims(src, all_sizes()[i]).0
                && r@[i].spec_height() == class_crop_dims(src, all_sizes()[i]).1,
{
    let variants = ImageSize::iter();
    let mut cropped_images: Vec<SourceImage> = Vec::new();
    let mut i: usize = 0;
    while i < variants.len()
        invariant
            src.spec_width() >= 1,
            src.spec_height() >= 1,
            variants@ == all_sizes(),
            0 <= i <= variants@.len(),
            cropped_images@.len() == i,
            forall|j: int| #![trigger cropped_images@[j]]
                0 <= j < i ==> cropped_images@[j].spec_width() == class_crop_dims(
                    src,
                    all_sizes()[j],
                ).0 && cropped_images@[j].spec_height() == class_crop_dims(src, all_sizes()[j]).1,
        decreases variants@.len() - i,
    {
        let size_variant = variants[i];
        let crop_preview = crop_single_image(src, &size_variant);
        cropped_images.push(crop_preview);
        i = i + 1;
    }
    cropped_images
}

/// Clamp a user-requested crop rectangle against the image bounds, as the
/// interactive crop entry point does before cutting: the offsets are pulled
/// inside the image and the extent capped at the image size.
pub fn clamp_crop_rect(img_w: u32, img_h: u32, x: u32, y: u32, w: u32, h: u32) -> (r: (
    u32,
    u32,
    u32,
    u32,
))
    requires
        img_w >= 1,
        img_h >= 1,
    ensures
        r.0 == if x <= img_w - 1 { x as int } else { img_w - 1 },
        r.1 == if y <= img_h - 1 { y as int } else { img_h - 1 },
        r.2 == if w <= img_w { w as int } else { img_w as int },
        r.3 == if h <= img_h { h as int } else { img_h as int },
{
    let cx = if x <= img_w - 1 {
        x
    } else {
        img_w - 1
    };
    let cy = if y <= img_h - 1 {
        y
    } else {
        img_h - 1
    };
    let cw = if w <= img_w {
        w
    } else {
        img_w
    };
    let ch = if h <= img_h {
        h
    } else {
        img_h
    };
    (cx, cy, cw, ch)
}

/// Centering law: the left margin equals the right margin whenever the
/// leftover is even; an odd leftover always favors the top-left by exactly one
/// pixel. The same holds vertically.
pub proof fn lemma_crop_centered(w: int, h: int, rw: int, rh: int)
    requires
        w >= 1,
        h >= 1,
        rw >= 1,
        rh >= 1,
    ensures
        (w - crop_w(w, h, rw, rh)) % 2 == 0 ==> crop_x(w, h, rw, rh) == w - crop_x(w, h, rw, rh)
            - crop_w(w, h, rw, rh),
        (w - crop_w(w, h, rw, rh)) % 2 == 1 ==> w - crop_x(w, h, rw, rh) - crop_w(w, h, rw, rh)
            == crop_x(w, h, rw, rh) + 1,
        (h - crop_h(w, h, rw, rh)) % 2 == 0 ==> crop_y(w, h, rw, rh) == h - crop_y(w, h, rw, rh)
            - crop_h(w, h, rw, rh),
        (h - crop_h(w, h, rw, rh)) % 2 == 1 ==> h - crop_y(w, h, rw, rh) - crop_h(w, h, rw, rh)
            == crop_y(w, h, rw, rh) + 1,
{
    lemma_crop_fits(w, h, rw, rh);
    lemma_fundamental_div_mod(w - crop_w(w, h, rw, rh), 2);
    lemma_fundamental_div_mod(h - crop_h(w, h, rw, rh), 2);
}

/// Same-ratio law: when the source is an exact integer multiple of the target
/// ratio, the crop is the whole source.
pub proof fn lemma_crop_same_ratio(w: int, h: int, rw: int, rh: int, k: int)
    requires
        rw >= 1,
        rh >= 1,
        k >= 1,
        w == k * rw,
        h == k * rh,
    ensures
        crop_x(w, h, rw, rh) == 0,
        crop_y(w, h, rw, rh) == 0,
        crop_w(w, h, rw, rh) == w,
        crop_h(w, h, rw, rh) == h,
{
    assert(w * rh == h * rw) by (nonlinear_arith)
        requires w == k * rw && h == k * rh {};
    lemma_div_by_multiple(k, rh);
    assert(h / rh == k);
    assert(crop_scale(w, h, rw, rh) == k);
    assert(crop_w(w, h, rw, rh) == rw * k);
    assert(rw * k == k * rw) by (nonlinear_arith);
    assert(rh * k == k * rh) by (nonlinear_arith);
}

} // verus!
