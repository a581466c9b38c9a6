use chat_store::store::{
    arrange_messages, conversation_id_of, message_from_row, messages_of, orphaned_files, sort_newest_first,
    text_message, Conversation, Database, MessageRow, StoreError,
};

fn memory_db() -> Database {
    Database::new(":memory:").expect("in-memory database opens")
}

fn row(id: i32, conversation_id: i32, timestamp: &str) -> MessageRow {
    MessageRow {
        id,
        conversation_id,
        role: "user".to_string(),
        content: format!("message {}", id),
        input_type: None,
        image_path: None,
        image_filename: None,
        image_size: None,
        timestamp: timestamp.to_string(),
    }
}

#[test]
fn conversation_ids_are_unique_and_listed_newest_first() {
    let db = memory_db();
    let a = db.create_conversation("2024-01-02 10:00:00").unwrap();
    let b = db.create_conversation("2024-01-01 09:00:00").unwrap();
    let c = db.create_conversation("2024-01-03 08:00:00").unwrap();
    assert!(a != b && b != c && a != c);
    let listed = db.get_conversations().unwrap();
    let ids: Vec<i32> = listed.iter().map(|c| c.id).collect();
    assert_eq!(ids, vec![c, a, b]);
    assert_eq!(listed[0].created_at, "2024-01-03 08:00:00");
}

#[test]
fn empty_store_lists_no_conversations() {
    let db = memory_db();
    assert!(db.get_conversations().unwrap().is_empty());
}

#[test]
fn messages_come_back_in_time_order_without_leakage() {
    let db = memory_db();
    let first = db.create_conversation("2024-01-01 00:00:00").unwrap();
    let second = db.create_conversation("2024-01-01 00:00:01").unwrap();
    db.save_message(first, "user", "third", "2024-01-01 10:00:03").unwrap();
    db.save_message(first, "assistant", "first", "2024-01-01 10:00:01").unwrap();
    db.save_message(second, "user", "elsewhere", "2024-01-01 10:00:02").unwrap();
    db.save_message(first, "user", "second", "2024-01-01 10:00:02").unwrap();
    let msgs = db.get_messages(first).unwrap();
    let contents: Vec<&str> = msgs.iter().map(|m| m.content.as_str()).collect();
    assert_eq!(contents, vec!["first", "second", "third"]);
    assert!(msgs.iter().all(|m| m.conversation_id == first));
    let other = db.get_messages(second).unwrap();
    assert_eq!(other.len(), 1);
    assert_eq!(other[0].content, "elsewhere");
}

#[test]
fn unknown_conversation_has_no_messages() {
    let db = memory_db();
    let msgs = db.get_messages(4242).unwrap();
    assert!(msgs.is_empty());
}

#[test]
fn image_fields_round_trip() {
    let db = memory_db();
    let id = db.create_conversation("2024-05-05 12:00:00").unwrap();
    db.save_message_with_image(
        id,
        "user",
        "look at this",
        "image",
        Some("/data/images/1/20240505_120000_1.png"),
        Some("cat.png"),
        Some(20480),
        "2024-05-05 12:00:01",
    )
    .unwrap();
    db.save_message(id, "assistant", "a cat", "2024-05-05 12:00:02").unwrap();
    let msgs = db.get_messages(id).unwrap();
    assert_eq!(msgs.len(), 2);
    assert_eq!(msgs[0].input_type, "image");
    assert_eq!(msgs[0].image_path.as_deref(), Some("/data/images/1/20240505_120000_1.png"));
    assert_eq!(msgs[0].image_filename.as_deref(), Some("cat.png"));
    assert_eq!(msgs[0].image_size, Some(20480));
    assert_eq!(msgs[0].role, "user");
    assert_eq!(msgs[0].timestamp, "2024-05-05 12:00:01");
    assert_eq!(msgs[1].input_type, "text");
    assert!(msgs[1].image_path.is_none());
    assert!(msgs[1].image_filename.is_none());
    assert!(msgs[1].image_size.is_none());
}

#[test]
fn reopening_the_same_file_keeps_rows() {
    let path = "/tmp/chat_store_reopen_check.db";
    let before = {
        let db = Database::new(path).expect("first open");
        let n = db.get_conversations().unwrap().len();
        let id = db.create_conversation("2030-01-01 00:00:00").unwrap();
        db.save_message(id, "user", "kept", "2030-01-01 00:00:01").unwrap();
        (n, id)
    };
    let db = Database::new(path).expect("second open");
    assert_eq!(db.get_conversations().unwrap().len(), before.0 + 1);
    let msgs = db.get_messages(before.1).unwrap();
    assert_eq!(msgs.len(), 1);
    assert_eq!(msgs[0].content, "kept");
    let again = Database::new(path).expect("third open");
    assert_eq!(again.get_conversations().unwrap().len(), before.0 + 1);
}

#[test]
fn cleanup_selects_unreferenced_files() {
    let db = memory_db();
    let id = db.create_conversation("2024-01-01 00:00:00").unwrap();
    db.save_message_with_image(id, "user", "pic", "image", Some("/img/1/a.png"), Some("a.png"), Some(3), "2024-01-01 00:00:01")
        .unwrap();
    db.save_message_with_image(id, "user", "gone", "image", Some("/img/1/missing.png"), Some("m.png"), Some(3), "2024-01-01 00:00:02")
        .unwrap();
    let files = vec!["/img/1/a.png".to_string(), "/img/1/b.png".to_string(), "/img/2/c.jpg".to_string()];
    let doomed = db.cleanup_orphaned_images(&files).unwrap();
    assert_eq!(doomed, vec!["/img/1/b.png".to_string(), "/img/2/c.jpg".to_string()]);
}

#[test]
fn cleanup_of_no_files_deletes_nothing() {
    let db = memory_db();
    assert!(db.cleanup_orphaned_images(&Vec::new()).unwrap().is_empty());
}

#[test]
fn orphans_are_files_minus_referenced() {
    let referenced = vec!["x".to_string(), "y".to_string(), "only-in-db".to_string()];
    let files = vec!["w".to_string(), "x".to_string(), "y".to_string(), "z".to_string()];
    let doomed = orphaned_files(&referenced, &files);
    assert_eq!(doomed, vec!["w".to_string(), "z".to_string()]);
    let remaining: Vec<&String> = files.iter().filter(|f| !doomed.contains(f)).collect();
    assert_eq!(remaining, vec!["x", "y"]);
}

#[test]
fn plain_message_row_defaults() {
    let m = text_message(7, "user", "hi", "2024-01-01 00:00:00");
    assert_eq!(m.conversation_id, 7);
    assert_eq!(m.input_type, "text");
    assert!(m.image_path.is_none() && m.image_filename.is_none() && m.image_size.is_none());
}

#[test]
fn missing_input_type_reads_as_text() {
    let m = message_from_row(row(1, 3, "2024-01-01 00:00:00"));
    assert_eq!(m.input_type, "text");
    let mut with_type = row(2, 3, "2024-01-01 00:00:00");
    with_type.input_type = Some("image".to_string());
    assert_eq!(message_from_row(with_type).input_type, "image");
}

#[test]
fn arrange_filters_and_sorts() {
    let rows = vec![
        row(1, 5, "2024-01-01 00:00:09"),
        row(2, 6, "2024-01-01 00:00:01"),
        row(3, 5, "2024-01-01 00:00:02"),
        row(4, 5, "2023-12-31 23:59:59"),
    ];
    let ids: Vec<i32> = arrange_messages(rows, 5).iter().map(|m| m.id).collect();
    assert_eq!(ids, vec![4, 3, 1]);
}

#[test]
fn conversations_sort_newest_first() {
    let v = vec![
        Conversation { id: 1, created_at: "2024-01-01 00:00:00".to_string() },
        Conversation { id: 2, created_at: "2024-03-01 00:00:00".to_string() },
        Conversation { id: 3, created_at: "2024-02-01 00:00:00".to_string() },
    ];
    let ids: Vec<i32> = sort_newest_first(v).iter().map(|c| c.id).collect();
    assert_eq!(ids, vec![2, 3, 1]);
}

#[test]
fn rowid_beyond_i32_is_refused() {
    assert_eq!(conversation_id_of(17).unwrap(), 17);
    assert!(matches!(conversation_id_of(3_000_000_000), Err(StoreError::IdOutOfRange(3_000_000_000))));
}

#[test]
fn uncreated_conversation_takes_no_messages() {
    let db = memory_db();
    let saved = db.save_message(777, "user", "stray", "2024-01-01 00:00:00");
    assert!(matches!(saved, Err(StoreError::Sqlite(_))));
    assert!(db.get_messages(777).unwrap().is_empty());
}

#[test]
fn messages_of_unknown_conversation_is_empty() {
    let rows = vec![row(1, 5, "2024-01-01 00:00:00")];
    assert!(messages_of(false, rows, 5).is_empty());
    let rows = vec![row(1, 5, "2024-01-01 00:00:00")];
    assert_eq!(messages_of(true, rows, 5).len(), 1);
}
