use chat_store::clock::Timestamp;
use chat_store::images::{conversation_dir_name, decode_image, encode_image, image_file_name, prepare_image, ImageError};
use chat_store::migration::{pending_columns, OPTIONAL_COLUMNS};
use chat_store::order::{contains_text, same_text, text_before};
use chat_store::paths::{choose_root, db_path_from, get_db_path, get_images_dir, images_dir_from, APP_DIR, DB_FILE, IMAGES_DIR};
use chat_store::text::decimal_text;

fn stamp() -> Timestamp {
    Timestamp { year: 2024, month: 3, day: 7, hour: 9, minute: 5, second: 1 }
}

#[test]
fn timestamp_text_forms() {
    assert_eq!(stamp().sortable_text(), "2024-03-07 09:05:01");
    assert_eq!(stamp().compact_text(), "20240307_090501");
    let early = Timestamp { year: 7, month: 12, day: 31, hour: 23, minute: 59, second: 59 };
    assert_eq!(early.sortable_text(), "0007-12-31 23:59:59");
}

#[test]
fn now_is_well_formed() {
    let t = Timestamp::now().expect("current year has four digits");
    assert!((1..=12).contains(&t.month) && (1..=31).contains(&t.day));
    assert_eq!(t.sortable_text().len(), 19);
}

#[test]
fn decimal_forms() {
    assert_eq!(decimal_text(0), "0");
    assert_eq!(decimal_text(42), "42");
    assert_eq!(decimal_text(-42), "-42");
    assert_eq!(decimal_text(i64::MIN), "-9223372036854775808");
    assert_eq!(decimal_text(i64::MAX), "9223372036854775807");
}

#[test]
fn base64_round_trip() {
    assert_eq!(decode_image("aGk=").ok(), Some(vec![104, 105]));
    assert_eq!(encode_image(&vec![104, 105]), "aGk=");
    assert_eq!(encode_image(&Vec::new()), "");
    assert!(matches!(decode_image("not base64!"), Err(ImageError::Decode(_))));
}

#[test]
fn stored_image_names() {
    assert_eq!(image_file_name(&stamp(), 12, "holiday.png"), "20240307_090501_12.png");
    assert_eq!(image_file_name(&stamp(), 3, "no_extension"), "20240307_090501_3.jpg");
    assert_eq!(image_file_name(&stamp(), 3, "archive.tar.gz"), "20240307_090501_3.gz");
    assert_eq!(conversation_dir_name(-1), "-1");
}

#[test]
fn prepare_image_names_and_decodes() {
    let upload = prepare_image(9, "AAEC", "scan.jpeg", &stamp()).ok().expect("valid payload");
    assert_eq!(upload.dir_name, "9");
    assert_eq!(upload.file_name, "20240307_090501_9.jpeg");
    assert_eq!(upload.bytes, vec![0, 1, 2]);
    assert!(matches!(prepare_image(9, "@@@", "scan.jpeg", &stamp()), Err(ImageError::Decode(_))));
}

#[test]
fn migration_plans_only_missing_columns() {
    let old_schema: Vec<String> = ["id", "conversation_id", "role", "content", "timestamp"]
        .iter()
        .map(|s| s.to_string())
        .collect();
    assert_eq!(pending_columns(&old_schema), vec![0, 1, 2, 3]);
    let partial: Vec<String> = ["id", "input_type", "image_size"].iter().map(|s| s.to_string()).collect();
    assert_eq!(pending_columns(&partial), vec![1, 2]);
    let current: Vec<String> = ["input_type", "image_path", "image_filename", "image_size"]
        .iter()
        .map(|s| s.to_string())
        .collect();
    assert!(pending_columns(&current).is_empty());
    assert_eq!(OPTIONAL_COLUMNS, 4);
}

#[test]
fn text_order() {
    assert!(text_before("2024-01-01", "2024-01-02"));
    assert!(!text_before("2024-01-02", "2024-01-01"));
    assert!(text_before("abc", "abcd"));
    assert!(!text_before("same", "same"));
    assert!(same_text("same", "same"));
    assert!(!same_text("same", "Same"));
}

#[test]
fn data_root_fallbacks() {
    assert_eq!(choose_root(Some("/a".to_string()), Some("/h".to_string())), Some("/a".to_string()));
    assert_eq!(choose_root(None, Some("/h".to_string())), Some("/h".to_string()));
    assert_eq!(choose_root(None, None), None);
    let db = get_db_path();
    assert_eq!(db.len(), 3);
    assert_eq!(db[1], APP_DIR);
    assert_eq!(db[2], DB_FILE);
    if let Some(images) = get_images_dir() {
        assert_eq!(images[2], IMAGES_DIR);
    }
}

#[test]
fn stored_time_text_sorts_by_time() {
    let a = Timestamp { year: 2023, month: 12, day: 31, hour: 23, minute: 59, second: 59 };
    let b = Timestamp { year: 2024, month: 1, day: 1, hour: 0, minute: 0, second: 0 };
    let c = Timestamp { year: 2024, month: 1, day: 1, hour: 0, minute: 0, second: 1 };
    assert!(text_before(&a.sortable_text(), &b.sortable_text()));
    assert!(text_before(&b.sortable_text(), &c.sortable_text()));
    assert!(!text_before(&c.sortable_text(), &a.sortable_text()));
    assert!(!text_before(&b.sortable_text(), &b.sortable_text()));
}

#[test]
fn membership_of_text() {
    let items = vec!["input_type".to_string(), "image_path".to_string()];
    assert!(contains_text(&items, "image_path"));
    assert!(!contains_text(&items, "image"));
    assert!(!contains_text(&Vec::new(), "x"));
}

#[test]
fn path_components_from_root() {
    assert_eq!(
        db_path_from(Some("/home/u/.local/share".to_string())),
        vec!["/home/u/.local/share".to_string(), "com.example.chat".to_string(), "chat.db".to_string()]
    );
    assert_eq!(db_path_from(None), vec![".".to_string(), "com.example.chat".to_string(), "chat.db".to_string()]);
    assert_eq!(
        images_dir_from(Some("/d".to_string())),
        Some(vec!["/d".to_string(), "com.example.chat".to_string(), "images".to_string()])
    );
    assert_eq!(images_dir_from(None), None);
}

#[test]
fn timestamp_from_fields() {
    let t = Timestamp::from_fields(2024, 2, 29, 13, 14, 15).expect("four-digit year");
    assert_eq!(t.sortable_text(), "2024-02-29 13:14:15");
    assert!(Timestamp::from_fields(10000, 1, 1, 0, 0, 0).is_none());
    assert!(Timestamp::from_fields(-1, 1, 1, 0, 0, 0).is_none());
}

#[test]
fn encoded_length_and_round_trip() {
    let bytes: Vec<u8> = (0u8..=250).collect();
    let text = encode_image(&bytes);
    assert_eq!(text.len(), 4 * ((bytes.len() + 2) / 3));
    assert_eq!(decode_image(&text).ok(), Some(bytes));
}
