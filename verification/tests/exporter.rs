use painting_pack::cropper::crop_single_image;
use painting_pack::exporter::{
    cap_export_width, export, generate_base64_previews, ExportError, ExportItem,
};
use painting_pack::image_data::ImageData;
use painting_pack::image_size::ImageSize;
use painting_pack::picture::SourceImage;
use painting_pack::text::{sanitize_id, sanitize_spaces};

fn test_image(width: u32, height: u32) -> SourceImage {
    let img = image::DynamicImage::ImageRgba8(image::RgbaImage::new(width, height));
    SourceImage::from_decoded(img)
}

fn square_item() -> ExportItem {
    let mut data = ImageData::new(ImageSize::Square);
    data.id = Some("Test Square".to_string());
    data.filename = Some("test_square_file".to_string());
    data.name = Some("My Square Painting".to_string());
    data.artist = Some("The Artist".to_string());
    ExportItem { source_path: "source_image.png".to_string(), data }
}

#[test]
fn test_sanitize_rules() {
    assert_eq!(sanitize_spaces("My Test Pack"), "My_Test_Pack");
    assert_eq!(sanitize_id("My Test ID!"), "my_test_id");
}

#[test]
fn test_export_plan_square_pack() {
    let plan = export(
        "My Test Pack".to_string(),
        "1.0.0".to_string(),
        "My Test ID!".to_string(),
        "A pack for testing".to_string(),
        vec![square_item()],
        "/tmp/exports",
    )
    .expect("export should succeed");

    assert_eq!(plan.pack_dir, "/tmp/exports/My_Test_Pack");
    assert_eq!(plan.images_dir, "/tmp/exports/My_Test_Pack/images");
    assert_eq!(plan.pack.pack_name, "My Test Pack");
    assert_eq!(plan.pack.version, "1.0.0");
    assert_eq!(plan.pack.id, "my_test_id");
    assert_eq!(plan.pack.description, "A pack for testing");

    // One job, one output file per Square size multiple.
    assert_eq!(plan.jobs.len(), 1);
    assert_eq!(plan.jobs[0].source_path, "source_image.png");
    assert_eq!(
        plan.jobs[0].filenames,
        vec![
            "test_square_file_1x1.png".to_string(),
            "test_square_file_2x2.png".to_string(),
            "test_square_file_3x3.png".to_string(),
            "test_square_file_4x4.png".to_string(),
        ]
    );

    // One manifest record per file, in order, with the nominal sizes.
    assert_eq!(plan.pack.painting_count(), 4);
    assert_eq!(plan.pack.paintings[0].id, "Test_Square_1x1");
    assert_eq!(plan.pack.paintings[0].filename, "test_square_file_1x1.png");
    assert_eq!(plan.pack.paintings[0].name, "My Square Painting");
    assert_eq!(plan.pack.paintings[0].artist, "The Artist");
    assert_eq!(plan.pack.paintings[0].width, 1);
    assert_eq!(plan.pack.paintings[0].height, 1);
    assert_eq!(plan.pack.paintings[3].id, "Test_Square_4x4");
    assert_eq!(plan.pack.paintings[3].width, 4);
    assert_eq!(plan.pack.paintings[3].height, 4);

    // The serialized manifest carries the same values.
    assert!(plan.manifest_json.contains(r#""name": "My Test Pack""#));
    assert!(plan.manifest_json.contains(r#""version": "1.0.0""#));
    assert!(plan.manifest_json.contains(r#""id": "my_test_id""#));
    assert!(plan.manifest_json.contains(r#""description": "A pack for testing""#));
    assert!(plan.manifest_json.contains(r#""id": "Test_Square_1x1""#));
    assert!(plan.manifest_json.contains(r#""filename": "test_square_file_1x1.png""#));
    assert!(plan.manifest_json.contains(r#""artist": "The Artist""#));
    assert!(plan.manifest_json.contains(r#""width": 1"#));
    assert!(plan.manifest_json.contains(r#""height": 4"#));
}

#[test]
fn test_export_counts_over_classes() {
    // Square has 4 multiples, Wide 2, LongRectangle 1: 7 files and records.
    let mut wide = ImageData::new(ImageSize::Wide);
    wide.id = Some("w".to_string());
    wide.filename = Some("w".to_string());
    wide.name = Some("w".to_string());
    wide.artist = Some("a".to_string());
    let mut long = ImageData::new(ImageSize::LongRectangle);
    long.id = Some("l".to_string());
    long.filename = Some("l".to_string());
    long.name = Some("l".to_string());
    long.artist = Some("a".to_string());
    let items = vec![
        square_item(),
        ExportItem { source_path: "w.png".to_string(), data: wide },
        ExportItem { source_path: "l.png".to_string(), data: long },
    ];
    let plan = export(
        "P".to_string(),
        "1".to_string(),
        "i".to_string(),
        "d".to_string(),
        items,
        "/tmp/exports",
    )
    .expect("export should succeed");
    assert_eq!(plan.jobs.len(), 3);
    let total: usize = plan.jobs.iter().map(|j| j.filenames.len()).sum();
    assert_eq!(total, 7);
    assert_eq!(plan.pack.painting_count(), 7);
}

#[test]
fn test_export_missing_metadata_fails() {
    let mut item = square_item();
    item.data.id = None;
    let result = export(
        "Pack".to_string(),
        "1.0.0".to_string(),
        "id".to_string(),
        "desc".to_string(),
        vec![item],
        "/tmp/exports",
    );
    assert_eq!(result.err(), Some(ExportError::ContractViolation));
}

#[test]
fn test_generate_base64_previews() {
    let images = vec![test_image(10, 10), test_image(20, 20)];

    let previews = generate_base64_previews(&images).expect("previews should encode");

    assert_eq!(previews.len(), 2);
    assert!(previews[0].starts_with("data:image/png;base64,"));
    assert!(previews[1].starts_with("data:image/png;base64,"));
    assert_ne!(previews[0], previews[1]);
}

#[test]
fn test_generate_base64_previews_zero_size() {
    // A 1x1 source cannot hold one 2:1 unit: the crop is empty and the PNG
    // encoder refuses it, so no preview list comes back.
    let tiny = crop_single_image(&test_image(1, 1), &ImageSize::Wide);
    assert_eq!((tiny.width(), tiny.height()), (0, 0));
    assert!(generate_base64_previews(&vec![tiny]).is_none());
}

#[test]
fn test_cap_export_width() {
    let capped = cap_export_width(test_image(2048, 1024));
    assert_eq!((capped.width(), capped.height()), (1024, 512));

    let untouched = cap_export_width(test_image(800, 600));
    assert_eq!((untouched.width(), untouched.height()), (800, 600));
}

#[test]
fn test_cap_export_width_keeps_aspect() {
    // 3000x1000 scaled to the 1024 cap: height follows the aspect, rounded.
    let capped = cap_export_width(test_image(3000, 1000));
    assert_eq!((capped.width(), capped.height()), (1024, 341));
}

#[test]
fn test_previews_from_float_color_source() {
    // Decoders for high-dynamic-range formats hand back floating-point color;
    // the pipeline converts at the boundary, so previews still encode.
    let img = image::DynamicImage::ImageRgb32F(image::Rgb32FImage::new(10, 10));
    let src = SourceImage::from_decoded(img);
    assert_eq!((src.width(), src.height()), (10, 10));
    let previews = generate_base64_previews(&vec![src]).expect("previews should encode");
    assert_eq!(previews.len(), 1);
    assert!(previews[0].starts_with("data:image/png;base64,"));
}
