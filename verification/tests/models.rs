use painting_pack::image_data::ImageData;
use painting_pack::image_size::ImageSize;
use painting_pack::pack_list::{check_no_input, PackList};

#[test]
fn test_new_constructor_sets_defaults() {
    let image_size = ImageSize::Square;
    let image_data = ImageData::new(image_size);

    assert!(image_data.id.is_none());
    assert!(image_data.filename.is_none());
    assert!(image_data.name.is_none());
    assert!(image_data.artist.is_none());

    assert_eq!(image_data.selected, true);

    assert!(matches!(image_data.image_size, ImageSize::Square));
    assert_eq!(image_data.get_sizes(), vec![(1, 1), (2, 2), (3, 3), (4, 4)]);
}

#[test]
fn test_iter_returns_five_variants() {
    let variants: Vec<ImageSize> = ImageSize::iter();
    assert_eq!(variants.len(), 5);
    assert_eq!(variants[0], ImageSize::Square);
    assert_eq!(variants[1], ImageSize::Wide);
    assert_eq!(variants[2], ImageSize::LongRectangle);
    assert_eq!(variants[3], ImageSize::Tall);
    assert_eq!(variants[4], ImageSize::TallRectangle);
}

#[test]
fn test_get_size_for_all_variants() {
    assert_eq!(ImageSize::Square.get_size(), vec![(1, 1), (2, 2), (3, 3), (4, 4)]);
    assert_eq!(ImageSize::Wide.get_size(), vec![(2, 1), (4, 2)]);
    assert_eq!(ImageSize::LongRectangle.get_size(), vec![(4, 3)]);
    assert_eq!(ImageSize::Tall.get_size(), vec![(1, 2), (2, 4)]);
    assert_eq!(ImageSize::TallRectangle.get_size(), vec![(3, 4)]);
}

#[test]
fn test_check_no_input_valid() {
    let input = "  Valid Input  ";
    assert_eq!(check_no_input(input), Some("  Valid Input  ".to_string()));
}

#[test]
fn test_check_no_input_empty() {
    let input = "";
    assert_eq!(check_no_input(input), None);
}

#[test]
fn test_check_no_input_whitespace_only() {
    let input = "    ";
    assert_eq!(check_no_input(input), None);
}

#[test]
fn test_packlist_new() {
    let list: PackList<i32> = PackList::new(
        "Test Pack".to_string(),
        "1.1.0".to_string(),
        "test_id".to_string(),
        "A test description".to_string(),
    );
    assert_eq!(list.pack_name, "Test Pack");
    assert_eq!(list.version, "1.1.0");
    assert_eq!(list.id, "test_id");
    assert_eq!(list.description, "A test description");
    assert_eq!(list.painting_count(), 0);
}

#[test]
fn test_packlist_default() {
    let list: PackList<i32> = PackList::default();
    assert_eq!(list.pack_name, "Default");
    assert_eq!(list.version, "1.0.0");
    assert_eq!(list.description, "A list of paintings in the gallery");
    assert!(!list.id.is_empty());
    assert_eq!(list.painting_count(), 0);
}

#[test]
fn test_packlist_default_id_in_range() {
    let list: PackList<i32> = PackList::default();
    let n: u64 = list.id.parse().expect("default id should be a number");
    assert!((56000..=128000).contains(&n));
}

#[test]
fn test_set_pack_name() {
    let mut list: PackList<i32> = PackList::default();
    assert_eq!(list.pack_name, "Default");

    list.set_pack_name("New Name");
    assert_eq!(list.pack_name, "New Name");

    list.set_pack_name("   ");
    assert_eq!(list.pack_name, "New Name");
}

#[test]
fn test_set_version() {
    let mut list: PackList<i32> = PackList::default();
    assert_eq!(list.version, "1.0.0");

    list.set_version("2.0.0");
    assert_eq!(list.version, "2.0.0");

    list.set_version("");
    assert_eq!(list.version, "2.0.0");
}

#[test]
fn test_set_id() {
    let mut list: PackList<i32> = PackList::default();

    list.set_id("new_custom_id");
    assert_eq!(list.id, "new_custom_id");

    list.set_id("  ");
    assert_eq!(list.id, "new_custom_id");
}

#[test]
fn test_set_description() {
    let mut list: PackList<i32> = PackList::default();
    assert_eq!(list.description, "A list of paintings in the gallery");

    list.set_description("A new description.");
    assert_eq!(list.description, "A new description.");

    list.set_description(" ");
    assert_eq!(list.description, "A new description.");
}

#[test]
fn test_add_painting() {
    let mut list: PackList<i32> = PackList::default();
    assert_eq!(list.painting_count(), 0);

    list.add_painting(100);
    assert_eq!(list.painting_count(), 1);

    list.add_painting(200);
    assert_eq!(list.painting_count(), 2);
}

#[test]
fn test_separate_paintings() {
    let mut list: PackList<i32> = PackList::new(
        "Original Pack".to_string(),
        "1.0".to_string(),
        "original_id".to_string(),
        "Original Desc".to_string(),
    );
    list.add_painting(1);
    list.add_painting(2);

    let (new_list, original_paintings_vec): (PackList<String>, Vec<i32>) =
        list.separate_paintings();

    assert_eq!(new_list.pack_name, "Original Pack");
    assert_eq!(new_list.id, "original_id");
    assert_eq!(new_list.painting_count(), 0);

    assert_eq!(original_paintings_vec.len(), 2);
    assert_eq!(original_paintings_vec[0], 1);
    assert_eq!(original_paintings_vec[1], 2);
}

#[test]
fn test_size_multiples_share_ratio() {
    // Within each class, the i-th multiple is the first pair scaled by i + 1.
    for class in ImageSize::iter() {
        let sizes = class.get_size();
        let (bw, bh) = sizes[0];
        for (i, (w, h)) in sizes.iter().enumerate() {
            let k = (i + 1) as u32;
            assert_eq!((*w, *h), (k * bw, k * bh));
        }
    }
}
