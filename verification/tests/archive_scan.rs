//! The whole pipeline over in-memory zip archives: entry selection, order,
//! per-element errors, and the terminal failure modes.

use std::io::Cursor;
use std::io::Write;

use sesh::read_zip;
use sesh::read_zip_to_end;
use sesh::MalformedJson;
use sesh::ReadZipError;

fn record(username: &str, ms: u64) -> String {
    format!(
        r#"{{"ts":"1970-01-01T00:00:01Z","username":"{username}","platform":"p","ms_played":{ms},"conn_country":"SE"}}"#
    )
}

fn build_zip(entries: &[(&str, &str)]) -> Vec<u8> {
    let mut w = zip::ZipWriter::new(Cursor::new(Vec::new()));
    let options = zip::write::SimpleFileOptions::default();
    for (name, content) in entries {
        w.start_file::<_, ()>(*name, options).expect("start file");
        w.write_all(content.as_bytes()).expect("write entry");
    }
    w.finish().expect("finish zip").into_inner()
}

#[test]
fn matching_entries_are_read_in_order() {
    let a = format!("[{},{}]", record("a1", 1), record("a2", 2));
    let b = format!("[{}]", record("b1", 3));
    let bytes = build_zip(&[
        ("exports/Audio_2021.json", &a),
        ("exports/ReadMeFirst.pdf", "not json at all ["),
        ("exports/Audio_2022.json", &b),
    ]);
    let (items, status) = read_zip(bytes);
    status.expect("scan succeeds");
    assert_eq!(items.len(), 3);
    let names: Vec<&str> = items
        .iter()
        .map(|r| r.as_ref().expect("record").username.as_str())
        .collect();
    assert_eq!(names, vec!["a1", "a2", "b1"]);
}

#[test]
fn non_matching_entries_are_skipped_even_if_broken() {
    // the non-matching entry holds bytes that would fail both the scanner
    // and the decoder; selection by name must keep it unopened
    let bytes = build_zip(&[
        ("notes.txt", "{{{{ not json ["),
        ("Audio.json", "[]"),
        ("audio.JSON", "also not read"),
    ]);
    let (items, status) = read_zip(bytes);
    status.expect("scan succeeds");
    assert_eq!(items.len(), 0);
}

#[test]
fn a_bad_element_does_not_stop_the_stream() {
    let content = format!(r#"[{},{{"ms_played":7}},{}]"#, record("x", 1), record("y", 2));
    let bytes = build_zip(&[("Audio_0.json", &content)]);
    let (items, status) = read_zip(bytes);
    status.expect("scan succeeds");
    assert_eq!(items.len(), 3);
    assert!(items[0].is_ok());
    assert!(items[1].is_err());
    assert!(items[2].is_ok());
    assert_eq!(items[2].as_ref().unwrap().username, "y");
}

#[test]
fn read_zip_to_end_collects_records() {
    let content = format!("[{},{}]", record("x", 1), record("y", 2));
    let bytes = build_zip(&[("Audio_0.json", &content)]);
    let streams = read_zip_to_end(bytes).expect("all records decode");
    assert_eq!(streams.len(), 2);
    assert_eq!(streams[0].username, "x");
    assert_eq!(streams[1].username, "y");
}

#[test]
fn read_zip_to_end_stops_at_a_bad_record() {
    let content = format!(r#"[{},{{"ms_played":7}}]"#, record("x", 1));
    let bytes = build_zip(&[("Audio_0.json", &content)]);
    match read_zip_to_end(bytes) {
        Err(ReadZipError::Serde(_)) => {},
        other => panic!("expected a decode failure, got {other:?}"),
    }
}

#[test]
fn a_malformed_matching_entry_is_fatal_after_prior_elements() {
    let content = format!("[{},\"unterminated", record("early", 5));
    let bytes = build_zip(&[("Audio_0.json", &content)]);
    let (items, status) = read_zip(bytes);
    match status {
        Err(ReadZipError::Malformed(MalformedJson::UnterminatedString)) => {},
        other => panic!("expected a malformed-array failure, got {other:?}"),
    }
    // the element completed before the failure point was still delivered
    assert_eq!(items.len(), 1);
    assert_eq!(items[0].as_ref().unwrap().username, "early");
}

#[test]
fn bytes_that_are_no_archive_are_refused() {
    let (items, status) = read_zip(b"this is not a zip file".to_vec());
    assert!(items.is_empty());
    match status {
        Err(ReadZipError::Zip(_)) | Err(ReadZipError::Io(_)) => {},
        other => panic!("expected an archive failure, got {other:?}"),
    }
}

#[test]
fn empty_archive_yields_no_items() {
    let bytes = build_zip(&[]);
    let (items, status) = read_zip(bytes);
    status.expect("scan succeeds");
    assert_eq!(items.len(), 0);
}

#[test]
fn default_predicate_wants_json_suffix_and_audio() {
    assert!(sesh::archive::matches_default("MyData/Audio_2021.json"));
    assert!(!sesh::archive::matches_default("MyData/Video_2021.json"));
    assert!(!sesh::archive::matches_default("Audio.json.bak"));
    assert!(!sesh::archive::matches_default("audio.json"));
    assert!(sesh::archive::matches_default("Audio.json"));
}
