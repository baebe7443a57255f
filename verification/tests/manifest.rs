use painting_pack::exporter::{export, ExportItem};
use painting_pack::image_data::ImageData;
use painting_pack::image_size::ImageSize;
use painting_pack::manifest::{manifest_to_json, parse_manifest, Painting};
use painting_pack::pack_list::PackList;

fn record(id: &str, filename: &str, name: &str, artist: &str, w: u32, h: u32) -> Painting {
    Painting {
        id: id.to_string(),
        filename: filename.to_string(),
        name: name.to_string(),
        artist: artist.to_string(),
        width: w,
        height: h,
    }
}

fn sample_pack() -> PackList<Painting> {
    let mut pack: PackList<Painting> = PackList::new(
        "My Test Pack".to_string(),
        "1.0.0".to_string(),
        "my_test_id".to_string(),
        "A pack for testing".to_string(),
    );
    pack.add_painting(record("p_1x1", "f_1x1.png", "Name", "Artist", 1, 1));
    pack
}

#[test]
fn test_manifest_json_exact() {
    let json = manifest_to_json(&sample_pack());
    let expected = "{\n  \"name\": \"My Test Pack\",\n  \"$schema\": \"http://json-schema.org/draft-07/schema#\",\n  \"version\": \"1.0.0\",\n  \"id\": \"my_test_id\",\n  \"description\": \"A pack for testing\",\n  \"paintings\": [\n    {\n      \"id\": \"p_1x1\",\n      \"filename\": \"f_1x1.png\",\n      \"name\": \"Name\",\n      \"artist\": \"Artist\",\n      \"width\": 1,\n      \"height\": 1\n    }\n  ]\n}";
    assert_eq!(json, expected);
}

#[test]
fn test_manifest_json_empty_paintings() {
    let pack: PackList<Painting> = PackList::new(
        "P".to_string(),
        "1".to_string(),
        "p".to_string(),
        "d".to_string(),
    );
    let json = manifest_to_json(&pack);
    assert!(json.ends_with("\"paintings\": []\n}"));
    let back = parse_manifest(&json).expect("empty pack should parse");
    assert_eq!(back.painting_count(), 0);
}

#[test]
fn test_manifest_round_trip() {
    let mut pack: PackList<Painting> = PackList::new(
        "Pack \"quoted\" \\ name".to_string(),
        "1.0.0\n".to_string(),
        "id_with_tab\t".to_string(),
        "accents: \u{e9}\u{1f5bc} and control \u{1}".to_string(),
    );
    pack.add_painting(record("a", "a.png", "first\r\n", "A", 0, 4294967295));
    pack.add_painting(record("b", "b.png", "second", "B \u{8}\u{c}", 16, 9));

    let json = manifest_to_json(&pack);
    let back = parse_manifest(&json).expect("writer output should parse");

    assert_eq!(back.pack_name, pack.pack_name);
    assert_eq!(back.schema, pack.schema);
    assert_eq!(back.version, pack.version);
    assert_eq!(back.id, pack.id);
    assert_eq!(back.description, pack.description);
    assert_eq!(back.painting_count(), 2);
    for k in 0..2 {
        assert_eq!(back.paintings[k].id, pack.paintings[k].id);
        assert_eq!(back.paintings[k].filename, pack.paintings[k].filename);
        assert_eq!(back.paintings[k].name, pack.paintings[k].name);
        assert_eq!(back.paintings[k].artist, pack.paintings[k].artist);
        assert_eq!(back.paintings[k].width, pack.paintings[k].width);
        assert_eq!(back.paintings[k].height, pack.paintings[k].height);
    }
}

#[test]
fn test_manifest_is_valid_json() {
    // An independent JSON parser reads the writer's output, including the
    // escapes, back to the same values.
    let mut pack = sample_pack();
    pack.set_pack_name("quote \" backslash \\ newline \n control \u{2}");
    let json = manifest_to_json(&pack);
    let v: serde_json::Value = serde_json::from_str(&json).expect("output should be valid JSON");
    assert_eq!(
        v["name"].as_str().unwrap(),
        "quote \" backslash \\ newline \n control \u{2}"
    );
    assert_eq!(v["$schema"].as_str().unwrap(), "http://json-schema.org/draft-07/schema#");
    assert_eq!(v["version"].as_str().unwrap(), "1.0.0");
    assert_eq!(v["id"].as_str().unwrap(), "my_test_id");
    assert_eq!(v["paintings"][0]["id"].as_str().unwrap(), "p_1x1");
    assert_eq!(v["paintings"][0]["width"].as_u64().unwrap(), 1);
    assert_eq!(v["paintings"][0]["height"].as_u64().unwrap(), 1);
}

#[test]
fn test_parse_manifest_rejects_garbage() {
    assert!(parse_manifest("").is_none());
    assert!(parse_manifest("nonsense").is_none());
    assert!(parse_manifest("{\n  \"name\": \"unterminated").is_none());
}

#[test]
fn test_export_manifest_parses_back() {
    let mut data = ImageData::new(ImageSize::Tall);
    data.id = Some("Tall One".to_string());
    data.filename = Some("tall one".to_string());
    data.name = Some("A Tall Painting".to_string());
    data.artist = Some("Someone".to_string());
    let plan = export(
        "Round Trip Pack".to_string(),
        "0.9".to_string(),
        "Round Trip!".to_string(),
        "checks the whole pipeline".to_string(),
        vec![ExportItem { source_path: "tall.png".to_string(), data }],
        "/tmp/exports",
    )
    .expect("export should succeed");

    let back = parse_manifest(&plan.manifest_json).expect("the written manifest should parse");
    assert_eq!(back.pack_name, "Round Trip Pack");
    assert_eq!(back.id, "round_trip");
    assert_eq!(back.painting_count(), 2);
    assert_eq!(back.paintings[0].id, "Tall_One_1x2");
    assert_eq!(back.paintings[0].filename, "tall_one_1x2.png");
    assert_eq!(back.paintings[1].id, "Tall_One_2x4");
    assert_eq!(back.paintings[1].width, 2);
    assert_eq!(back.paintings[1].height, 4);
}
