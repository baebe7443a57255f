use painting_pack::cropper::{
    calculate_crop_dimensions, clamp_crop_rect, crop_single_image, generate_cropped_images,
};
use painting_pack::image_size::ImageSize;
use painting_pack::picture::SourceImage;

fn test_image(width: u32, height: u32) -> SourceImage {
    let img = image::DynamicImage::ImageRgba8(image::RgbaImage::new(width, height));
    SourceImage::from_decoded(img)
}

#[test]
fn test_calc_crop_wider_image() {
    // 16:9 image (1600x900), 4:3 target: height limits the crop.
    let img_dims = (1600, 900);
    let target_size = (4, 3);
    let (x, y, w, h) = calculate_crop_dimensions(img_dims, target_size);
    assert_eq!((x, y, w, h), (200, 0, 1200, 900));
}

#[test]
fn test_calc_crop_taller_image() {
    // 9:16 image (900x1600), 4:3 target: width limits the crop.
    let img_dims = (900, 1600);
    let target_size = (4, 3);
    let (x, y, w, h) = calculate_crop_dimensions(img_dims, target_size);
    assert_eq!((x, y, w, h), (0, 462, 900, 675));
}

#[test]
fn test_calc_crop_same_ratio() {
    // 4:3 image (800x600), 4:3 target: the crop is the full image.
    let img_dims = (800, 600);
    let target_size = (4, 3);
    let (x, y, w, h) = calculate_crop_dimensions(img_dims, target_size);
    assert_eq!((x, y, w, h), (0, 0, 800, 600));
}

#[test]
fn test_calc_crop_square_target_from_landscape() {
    // 16:9 image (1600x900), 1:1 target.
    let img_dims = (1600, 900);
    let target_size = (1, 1);
    let (x, y, w, h) = calculate_crop_dimensions(img_dims, target_size);
    assert_eq!((x, y, w, h), (350, 0, 900, 900));
}

#[test]
fn test_calc_crop_wide_target_from_landscape() {
    // 16:9 image (1600x900), 2:1 target: width limits the crop.
    let (x, y, w, h) = calculate_crop_dimensions((1600, 900), (2, 1));
    assert_eq!((x, y, w, h), (0, 50, 1600, 800));
}

#[test]
fn test_calc_crop_degenerate_small_source() {
    // A 1x1 source cannot hold one 2:1 ratio unit: the crop has zero area.
    let (x, y, w, h) = calculate_crop_dimensions((1, 1), (2, 1));
    assert_eq!((x, y, w, h), (0, 0, 0, 0));
}

#[test]
fn test_crop_single_image_success() {
    // 800x600 (4:3) image, 1:1 target (Square): 600x600 crop.
    let src = test_image(800, 600);
    let cropped = crop_single_image(&src, &ImageSize::Square);
    assert_eq!((cropped.width(), cropped.height()), (600, 600));
}

#[test]
fn test_generate_cropped_images_success() {
    // 1600x900 (16:9) image, one crop per class in declared order.
    let src = test_image(1600, 900);
    let cropped_vec = generate_cropped_images(&src);
    assert_eq!(cropped_vec.len(), 5);
    // Square (1:1)
    assert_eq!((cropped_vec[0].width(), cropped_vec[0].height()), (900, 900));
    // Wide (2:1)
    assert_eq!((cropped_vec[1].width(), cropped_vec[1].height()), (1600, 800));
    // LongRectangle (4:3)
    assert_eq!((cropped_vec[2].width(), cropped_vec[2].height()), (1200, 900));
    // Tall (1:2)
    assert_eq!((cropped_vec[3].width(), cropped_vec[3].height()), (450, 900));
    // TallRectangle (3:4)
    assert_eq!((cropped_vec[4].width(), cropped_vec[4].height()), (675, 900));
}

#[test]
fn test_clamp_crop_rect() {
    // In-bounds rectangles pass through untouched.
    assert_eq!(clamp_crop_rect(800, 600, 10, 20, 100, 200), (10, 20, 100, 200));
    // Offsets are pulled inside the image; extents are capped at the image size.
    assert_eq!(clamp_crop_rect(800, 600, 1000, 700, 900, 700), (799, 599, 800, 600));
}
