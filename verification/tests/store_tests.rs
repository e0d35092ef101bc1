use cliphist::models::{ClipboardPayload, StoreError};
use cliphist::storage::Database;

fn payload(format_id: u32, name: &str, data: &[u8]) -> ClipboardPayload {
    ClipboardPayload { format_id, format_name: name.to_string(), data: data.to_vec() }
}

fn utf16le(s: &str) -> Vec<u8> {
    let mut out = Vec::new();
    for u in s.encode_utf16() {
        let b = u.to_le_bytes();
        out.push(b[0]);
        out.push(b[1]);
    }
    out
}

#[test]
fn save_dedup_one_row() {
    let mut db = Database::new(":memory:", "pwd").unwrap();
    let ps = vec![
        payload(13, "CF_UNICODETEXT", &utf16le("abc")),
        payload(1, "CF_TEXT", b"abc"),
    ];
    db.save_snapshot("app.exe", "Title", "C:\\app.exe", "h1", ps).unwrap();
    let ps2 = vec![
        payload(13, "CF_UNICODETEXT", &utf16le("abc")),
        payload(1, "CF_TEXT", b"abc"),
    ];
    db.save_snapshot("app.exe", "Title", "C:\\app.exe", "h1", ps2).unwrap();
    assert_eq!(db.get_total_count().unwrap(), 1);
    let rows = db.get_clip_payloads("h1").unwrap();
    assert_eq!(rows.len(), 2);
}

#[test]
fn payloads_sorted_by_format_id() {
    let mut db = Database::new(":memory:", "pwd").unwrap();
    let ps = vec![
        payload(13, "CF_UNICODETEXT", b"x"),
        payload(1, "CF_TEXT", b"y"),
        payload(7, "ID_7", b"z"),
    ];
    db.save_snapshot("a", "b", "c", "hs", ps).unwrap();
    let rows = db.get_clip_payloads("hs").unwrap();
    let ids: Vec<u32> = rows.iter().map(|p| p.format_id).collect();
    assert_eq!(ids, vec![1, 7, 13]);
    assert_eq!(rows[0].data, b"y".to_vec());
    assert_eq!(rows[1].data, b"z".to_vec());
    assert_eq!(rows[2].data, b"x".to_vec());
}

#[test]
fn meta_roundtrip() {
    let mut db = Database::new(":memory:", "pwd").unwrap();
    db.save_snapshot("owner.exe", "Window", "C:\\p", "hm", vec![payload(1, "CF_TEXT", b"t")])
        .unwrap();
    let meta = db.get_clip_meta("hm").unwrap().unwrap();
    assert_eq!(meta.0, "owner.exe");
    assert_eq!(meta.1, "Window");
    assert_eq!(meta.2, "C:\\p");
    assert!(db.get_clip_meta("absent").unwrap().is_none());
}

#[test]
fn unknown_hash_gives_empty_payloads() {
    let db = Database::new(":memory:", "pwd").unwrap();
    let rows = db.get_clip_payloads("nothing").unwrap();
    assert!(rows.is_empty());
}

#[test]
fn latest_is_newest_first() {
    let mut db = Database::new(":memory:", "pwd").unwrap();
    db.save_snapshot("a", "t", "p", "first", vec![payload(1, "CF_TEXT", b"one")]).unwrap();
    db.save_snapshot("a", "t", "p", "second", vec![payload(1, "CF_TEXT", b"two")]).unwrap();
    let rows = db.get_latest_clips(10, 0).unwrap();
    assert_eq!(rows.len(), 2);
    assert_eq!(rows[0].hash, "second");
    assert_eq!(rows[1].hash, "first");
    assert!(!rows[0].timestamp.is_empty());
    assert_eq!(rows[0].owner, "a");
    assert_eq!(rows[0].fg_title, "t");
}

#[test]
fn window_limit_and_offset() {
    let mut db = Database::new(":memory:", "pwd").unwrap();
    for i in 0..3 {
        let h = format!("h{}", i);
        db.save_snapshot("a", "t", "p", &h, vec![payload(1, "CF_TEXT", b"d")]).unwrap();
    }
    assert_eq!(db.get_latest_clips(2, 0).unwrap().len(), 2);
    assert_eq!(db.get_latest_clips(2, 2).unwrap().len(), 1);
    assert_eq!(db.get_latest_clips(2, 4).unwrap().len(), 0);
}

#[test]
fn delete_cascades_to_payloads() {
    let mut db = Database::new(":memory:", "pwd").unwrap();
    let ps = vec![payload(1, "CF_TEXT", b"x"), payload(13, "CF_UNICODETEXT", b"y")];
    db.save_snapshot("a", "t", "p", "hd", ps).unwrap();
    db.delete_by_hash("hd").unwrap();
    assert_eq!(db.get_total_count().unwrap(), 0);
    assert!(db.get_clip_payloads("hd").unwrap().is_empty());
}

#[test]
fn delete_unknown_is_noop() {
    let mut db = Database::new(":memory:", "pwd").unwrap();
    db.save_snapshot("a", "t", "p", "keep", vec![payload(1, "CF_TEXT", b"k")]).unwrap();
    db.delete_by_hash("absent").unwrap();
    assert_eq!(db.get_total_count().unwrap(), 1);
}

#[test]
fn clear_all_leaves_nothing_on_any_page() {
    let mut db = Database::new(":memory:", "pwd").unwrap();
    db.save_snapshot("a", "t", "p", "c1", vec![payload(1, "CF_TEXT", b"1")]).unwrap();
    db.save_snapshot("a", "t", "p", "c2", vec![payload(1, "CF_TEXT", b"2")]).unwrap();
    db.clear_all().unwrap();
    assert_eq!(db.get_total_count().unwrap(), 0);
    assert!(db.get_latest_clips(20, 0).unwrap().is_empty());
    assert!(db.get_latest_clips(20, 40).unwrap().is_empty());
}

#[test]
fn preview_decodes_utf16_text() {
    let mut db = Database::new(":memory:", "pwd").unwrap();
    db.save_snapshot("a", "t", "p", "hp", vec![payload(13, "CF_UNICODETEXT", &utf16le("hello"))])
        .unwrap();
    let rows = db.get_latest_clips(10, 0).unwrap();
    assert_eq!(rows[0].preview, "hello");
    assert!(!rows[0].is_image);
}

#[test]
fn preview_falls_back_to_utf8() {
    let mut db = Database::new(":memory:", "pwd").unwrap();
    // "hola" followed by an unpaired high surrogate unit: invalid UTF-16,
    // decodable (lossily) as UTF-8
    let mut data = b"hola".to_vec();
    data.push(0x00);
    data.push(0xD8);
    db.save_snapshot("a", "t", "p", "hf", vec![payload(13, "CF_UNICODETEXT", &data)]).unwrap();
    let rows = db.get_latest_clips(10, 0).unwrap();
    assert!(!rows[0].preview.is_empty());
    assert!(rows[0].preview.starts_with("hola"));
}

#[test]
fn preview_placeholder_for_binary_only() {
    let mut db = Database::new(":memory:", "pwd").unwrap();
    db.save_snapshot("a", "t", "p", "hb", vec![payload(2, "CF_BITMAP", &[0u8, 1, 2, 3])])
        .unwrap();
    let rows = db.get_latest_clips(10, 0).unwrap();
    assert_eq!(rows[0].preview, "bins");
    assert!(rows[0].is_image);
}

#[test]
fn preview_truncates_to_fifty_characters() {
    let mut db = Database::new(":memory:", "pwd").unwrap();
    let long: String = "a".repeat(60);
    db.save_snapshot("a", "t", "p", "hl", vec![payload(13, "CF_UNICODETEXT", &utf16le(&long))])
        .unwrap();
    let rows = db.get_latest_clips(10, 0).unwrap();
    assert_eq!(rows[0].preview.chars().count(), 50);
}

#[test]
fn preview_drops_trailing_odd_byte() {
    let mut db = Database::new(":memory:", "pwd").unwrap();
    let mut data = utf16le("hi");
    data.push(0x41); // trailing unpaired byte is discarded by the decoder
    db.save_snapshot("a", "t", "p", "ho", vec![payload(13, "CF_UNICODETEXT", &data)]).unwrap();
    let rows = db.get_latest_clips(10, 0).unwrap();
    assert_eq!(rows[0].preview, "hi");
}

#[test]
fn storage_error_on_missing_source_is_distinct() {
    assert_ne!(StoreError::Storage, StoreError::NotFound);
}

const SCHEMA: &str = "CREATE TABLE IF NOT EXISTS clips (
        id INTEGER PRIMARY KEY AUTOINCREMENT,
        owner_process_name TEXT,
        foreground_window_title TEXT,
        exe_path TEXT,
        content_hash TEXT,
        is_sensitive INTEGER DEFAULT 0,
        timestamp DATETIME DEFAULT CURRENT_TIMESTAMP
    );
    CREATE TABLE IF NOT EXISTS formats (
        id INTEGER PRIMARY KEY AUTOINCREMENT,
        clip_id INTEGER,
        format_id INTEGER,
        format_name TEXT,
        data BLOB,
        FOREIGN KEY(clip_id) REFERENCES clips(id) ON DELETE CASCADE
    );";

#[test]
fn store_with_duplicate_hashes_is_rejected() {
    // a store two uncoordinated writers raced into: the same hash twice
    let uri = "file:dup_hash_store?mode=memory&cache=shared";
    let raw = rusqlite::Connection::open(uri).unwrap();
    raw.execute_batch(SCHEMA).unwrap();
    for _ in 0..2 {
        raw.execute(
            "INSERT INTO clips (owner_process_name, foreground_window_title, exe_path, content_hash)
             VALUES ('o', 't', 'p', 'same')",
            (),
        )
        .unwrap();
        let id = raw.last_insert_rowid();
        raw.execute(
            "INSERT INTO formats (clip_id, format_id, format_name, data) VALUES (?1, 1, 'CF_TEXT', x'00')",
            [id],
        )
        .unwrap();
    }
    let opened = Database::new(uri, "pwd");
    assert!(opened.is_err());
}

#[test]
fn store_with_payloadless_record_is_rejected() {
    let uri = "file:bare_clip_store?mode=memory&cache=shared";
    let raw = rusqlite::Connection::open(uri).unwrap();
    raw.execute_batch(SCHEMA).unwrap();
    raw.execute(
        "INSERT INTO clips (owner_process_name, foreground_window_title, exe_path, content_hash)
         VALUES ('o', 't', 'p', 'lonely')",
        (),
    )
    .unwrap();
    let opened = Database::new(uri, "pwd");
    assert!(opened.is_err());
}

#[test]
fn well_formed_store_reopens() {
    let uri = "file:reopen_store?mode=memory&cache=shared";
    let mut first = Database::new(uri, "pwd").unwrap();
    first
        .save_snapshot("o", "t", "p", "hr", vec![payload(1, "CF_TEXT", b"kept")])
        .unwrap();
    let second = Database::new(uri, "pwd").unwrap();
    assert_eq!(second.get_total_count().unwrap(), 1);
    let rows = second.get_clip_payloads("hr").unwrap();
    assert_eq!(rows.len(), 1);
    assert_eq!(rows[0].data, b"kept".to_vec());
}
