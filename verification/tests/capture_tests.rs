use cliphist::capture::{normalize_capture, resolve_format_name, RawFormat};

fn raw(format_id: u32, port_name: Option<&str>, data: &[u8]) -> RawFormat {
    RawFormat { format_id, port_name: port_name.map(|s| s.to_string()), data: data.to_vec() }
}

#[test]
fn suppressed_event_is_dropped() {
    let formats = vec![raw(13, None, b"abc")];
    let r = normalize_capture(formats, "o".to_string(), "t".to_string(), "p".to_string(), true);
    assert!(r.is_none());
}

#[test]
fn empty_session_yields_nothing() {
    let r = normalize_capture(Vec::new(), "o".to_string(), "t".to_string(), "p".to_string(), false);
    assert!(r.is_none());
}

#[test]
fn capture_keeps_every_payload_in_order() {
    let formats = vec![raw(13, None, b"abc"), raw(2, None, &[9u8, 9]), raw(57, None, b"x")];
    let msg = normalize_capture(
        formats,
        "owner.exe".to_string(),
        "Window".to_string(),
        "C:\\x".to_string(),
        false,
    )
    .unwrap();
    assert_eq!(msg.owner, "owner.exe");
    assert_eq!(msg.fg_title, "Window");
    assert_eq!(msg.exe_path, "C:\\x");
    assert_eq!(msg.payloads.len(), 3);
    assert_eq!(msg.payloads[0].format_id, 13);
    assert_eq!(msg.payloads[0].format_name, "CF_UNICODETEXT");
    assert_eq!(msg.payloads[1].format_name, "CF_BITMAP");
    assert_eq!(msg.payloads[2].format_name, "ID_57");
    assert_eq!(msg.payloads[2].data, b"x".to_vec());
}

#[test]
fn hash_depends_on_first_payload_alone() {
    let a = normalize_capture(
        vec![raw(13, None, b"same"), raw(1, None, b"extra")],
        "o".to_string(),
        "t".to_string(),
        "p".to_string(),
        false,
    )
    .unwrap();
    let b = normalize_capture(
        vec![raw(13, None, b"same"), raw(2, None, &[1u8, 2, 3])],
        "o".to_string(),
        "t".to_string(),
        "p".to_string(),
        false,
    )
    .unwrap();
    let c = normalize_capture(
        vec![raw(13, None, b"other")],
        "o".to_string(),
        "t".to_string(),
        "p".to_string(),
        false,
    )
    .unwrap();
    assert_eq!(a.hash, b.hash);
    assert_ne!(a.hash, c.hash);
    assert!(!a.hash.is_empty());
}

#[test]
fn content_hash_exact_value() {
    // FNV-1a (64 bit) of "abc", rendered as lowercase hex
    let msg = normalize_capture(
        vec![raw(1, None, b"abc")],
        "o".to_string(),
        "t".to_string(),
        "p".to_string(),
        false,
    )
    .unwrap();
    assert_eq!(msg.hash, "e71fa2190541574b");
}

#[test]
fn port_name_wins_over_well_known_label() {
    assert_eq!(resolve_format_name(13, Some("MyFormat".to_string())), "MyFormat");
}

#[test]
fn well_known_labels_are_fixed() {
    assert_eq!(resolve_format_name(1, None), "CF_TEXT");
    assert_eq!(resolve_format_name(2, None), "CF_BITMAP");
    assert_eq!(resolve_format_name(13, None), "CF_UNICODETEXT");
    assert_eq!(resolve_format_name(15, None), "CF_HDROP");
    assert_eq!(resolve_format_name(57, None), "ID_57");
    assert_eq!(resolve_format_name(0, None), "ID_0");
    assert_eq!(resolve_format_name(4294967295, None), "ID_4294967295");
}
