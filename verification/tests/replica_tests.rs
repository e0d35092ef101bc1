use cliphist::cloudstorage::CloudDatabase;
use cliphist::models::{ClipboardPayload, StoreError};
use cliphist::storage::Database;

fn payload(format_id: u32, name: &str, data: &[u8]) -> ClipboardPayload {
    ClipboardPayload { format_id, format_name: name.to_string(), data: data.to_vec() }
}

#[test]
fn copy_twice_yields_one_replica_row() {
    let mut primary = Database::new(":memory:", "pwd").unwrap();
    let mut replica = CloudDatabase::new(":memory:", "cloudpwd").unwrap();
    primary
        .save_snapshot("o", "t", "p", "hh", vec![payload(1, "CF_TEXT", b"data")])
        .unwrap();
    replica.copy_clip_from("hh", &primary).unwrap();
    replica.copy_clip_from("hh", &primary).unwrap();
    let synced = replica.get_synced_hashes().unwrap();
    assert_eq!(synced, vec!["hh".to_string()]);
}

#[test]
fn replica_survives_source_delete() {
    let mut primary = Database::new(":memory:", "pwd").unwrap();
    let mut replica = CloudDatabase::new(":memory:", "cloudpwd").unwrap();
    primary
        .save_snapshot("o", "t", "p", "hh", vec![payload(1, "CF_TEXT", b"data")])
        .unwrap();
    replica.copy_clip_from("hh", &primary).unwrap();
    primary.delete_by_hash("hh").unwrap();
    assert_eq!(primary.get_total_count().unwrap(), 0);
    let synced = replica.get_synced_hashes().unwrap();
    assert!(synced.contains(&"hh".to_string()));
}

#[test]
fn copy_of_missing_source_hash_is_reported() {
    let primary = Database::new(":memory:", "pwd").unwrap();
    let mut replica = CloudDatabase::new(":memory:", "cloudpwd").unwrap();
    let r = replica.copy_clip_from("ghost", &primary);
    assert_eq!(r, Err(StoreError::NotFound));
    assert!(replica.get_synced_hashes().unwrap().is_empty());
}

#[test]
fn synced_hashes_lists_every_copied_record() {
    let mut primary = Database::new(":memory:", "pwd").unwrap();
    let mut replica = CloudDatabase::new(":memory:", "cloudpwd").unwrap();
    primary.save_snapshot("o", "t", "p", "h1", vec![payload(1, "CF_TEXT", b"1")]).unwrap();
    primary.save_snapshot("o", "t", "p", "h2", vec![payload(1, "CF_TEXT", b"2")]).unwrap();
    replica.copy_clip_from("h1", &primary).unwrap();
    replica.copy_clip_from("h2", &primary).unwrap();
    let synced = replica.get_synced_hashes().unwrap();
    assert_eq!(synced, vec!["h1".to_string(), "h2".to_string()]);
}
