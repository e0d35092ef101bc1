use cliphist::app::App;
use cliphist::capture::{normalize_capture, RawFormat};
use cliphist::models::ClipboardPayload;
use cliphist::restore::{EchoFlag, RestoreSession};

fn payload(format_id: u32, name: &str, data: &[u8]) -> ClipboardPayload {
    ClipboardPayload { format_id, format_name: name.to_string(), data: data.to_vec() }
}

#[test]
fn restore_window_suppresses_recapture() {
    let mut flag = EchoFlag::new();
    assert!(!flag.raised);
    let session = RestoreSession::begin(vec![payload(13, "CF_UNICODETEXT", b"abc")], &mut flag)
        .unwrap();
    assert!(flag.raised);
    // the port reports a change notification mid-restore: it is dropped
    let event = normalize_capture(
        vec![RawFormat { format_id: 13, port_name: None, data: b"abc".to_vec() }],
        "o".to_string(),
        "t".to_string(),
        "p".to_string(),
        flag.raised,
    );
    assert!(event.is_none());
    let skipped = session.finish(&mut flag);
    assert_eq!(skipped, 0);
    assert!(!flag.raised);
    // after the restore window the same event is captured again
    let event = normalize_capture(
        vec![RawFormat { format_id: 13, port_name: None, data: b"abc".to_vec() }],
        "o".to_string(),
        "t".to_string(),
        "p".to_string(),
        flag.raised,
    );
    assert!(event.is_some());
}

#[test]
fn restore_of_empty_payload_set_is_noop() {
    let mut flag = EchoFlag::new();
    let session = RestoreSession::begin(Vec::new(), &mut flag);
    assert!(session.is_none());
    assert!(!flag.raised);
}

#[test]
fn restore_skips_failed_formats_and_continues() {
    let mut flag = EchoFlag::new();
    let payloads = vec![
        payload(1, "CF_TEXT", b"a"),
        payload(2, "CF_BITMAP", b"b"),
        payload(13, "CF_UNICODETEXT", b"c"),
    ];
    let mut session = RestoreSession::begin(payloads, &mut flag).unwrap();
    let mut visited = Vec::new();
    while let Some(p) = session.current() {
        visited.push(p.format_id);
        let ok = p.format_id != 2; // one format's buffer fails: skip it, go on
        session.advance(ok);
    }
    assert_eq!(visited, vec![1, 2, 13]);
    let skipped = session.finish(&mut flag);
    assert_eq!(skipped, 1);
    assert!(!flag.raised);
}

#[test]
fn app_restore_of_unknown_hash_is_noop() {
    let app = App::new(":memory:".to_string());
    let mut flag = EchoFlag::new();
    let session = app.restore_clip("absent", &mut flag).unwrap();
    assert!(session.is_none());
    assert!(!flag.raised);
}
