//! The strict-schema record decoder: required fields, unknown fields,
//! duplicates, value types, and the sentinel-as-null offline timestamp.

use sesh::decode_offline_timestamp;
use sesh::deserialize;
use sesh::DecodeError;

fn full_record() -> &'static [u8] {
    br#"{"ts":"1970-01-01T00:00:01Z","username":"alice","platform":"ios","ms_played":1234,"conn_country":"SE","ip_addr_decrypted":"127.0.0.1","user_agent_decrypted":null,"master_metadata_track_name":"Song","master_metadata_album_artist_name":"Band","master_metadata_album_album_name":"Album","spotify_track_uri":"spotify:track:xyz","episode_name":null,"episode_show_name":null,"spotify_episode_uri":null,"reason_start":"clickrow","reason_end":"trackdone","shuffle":true,"skipped":false,"offline":null,"offline_timestamp":1000,"incognito_mode":false}"#
}

#[test]
fn full_record_decodes() {
    let st = deserialize(full_record()).expect("decodes");
    assert_eq!(st.ts, 1_000_000_000);
    assert_eq!(st.username, "alice");
    assert_eq!(st.platform, "ios");
    assert_eq!(st.ms_played, 1234);
    assert_eq!(st.conn_country, "SE");
    assert_eq!(st.ip_addr_decrypted.as_deref(), Some("127.0.0.1"));
    assert_eq!(st.user_agent_decrypted, None);
    assert_eq!(st.master_metadata_track_name.as_deref(), Some("Song"));
    assert_eq!(st.master_metadata_album_artist_name.as_deref(), Some("Band"));
    assert_eq!(st.master_metadata_album_album_name.as_deref(), Some("Album"));
    assert_eq!(st.spotify_track_uri.as_deref(), Some("spotify:track:xyz"));
    assert_eq!(st.episode_name, None);
    assert_eq!(st.reason_start.as_deref(), Some("clickrow"));
    assert_eq!(st.reason_end.as_deref(), Some("trackdone"));
    assert_eq!(st.shuffle, Some(true));
    assert_eq!(st.skipped, Some(false));
    assert_eq!(st.offline, None);
    assert_eq!(st.offline_timestamp, Some(1_000_000_000));
    assert_eq!(st.incognito_mode, Some(false));
    assert_eq!(st.playtime(), std::time::Duration::from_millis(1234));
}

#[test]
fn minimal_record_leaves_optionals_absent() {
    let st = deserialize(
        br#"{"ts":"1970-01-01T00:00:01Z","username":"u","platform":"p","ms_played":0,"conn_country":"SE"}"#,
    )
    .expect("decodes");
    assert_eq!(st.ms_played, 0);
    assert_eq!(st.master_metadata_track_name, None);
    assert_eq!(st.offline_timestamp, None);
    assert_eq!(st.shuffle, None);
}

#[test]
fn missing_required_field_is_reported() {
    let e = deserialize(br#"{"ms_played": 100}"#).unwrap_err();
    assert_eq!(e, DecodeError::MissingField(b"ts".to_vec()));
}

#[test]
fn missing_username_is_reported_after_ts() {
    let e = deserialize(br#"{"ts":"1970-01-01T00:00:01Z","ms_played":1}"#).unwrap_err();
    assert_eq!(e, DecodeError::MissingField(b"username".to_vec()));
}

#[test]
fn unknown_field_is_rejected() {
    let e = deserialize(
        br#"{"ts":"1970-01-01T00:00:01Z","username":"u","platform":"p","ms_played":0,"conn_country":"SE","extra_field":1}"#,
    )
    .unwrap_err();
    assert_eq!(e, DecodeError::UnknownField(b"extra_field".to_vec()));
}

#[test]
fn duplicated_field_is_rejected() {
    let e = deserialize(br#"{"ms_played":1,"ms_played":2}"#).unwrap_err();
    assert_eq!(e, DecodeError::DuplicateField(b"ms_played".to_vec()));
}

#[test]
fn wrong_value_types_are_rejected() {
    let e = deserialize(br#"{"ms_played":"many"}"#).unwrap_err();
    assert_eq!(e, DecodeError::BadField(b"ms_played".to_vec()));
    let e = deserialize(br#"{"ts":"not a timestamp"}"#).unwrap_err();
    assert_eq!(e, DecodeError::BadField(b"ts".to_vec()));
    let e = deserialize(br#"{"shuffle":1}"#).unwrap_err();
    assert_eq!(e, DecodeError::BadField(b"shuffle".to_vec()));
    let e = deserialize(br#"{"username":null}"#).unwrap_err();
    assert_eq!(e, DecodeError::BadField(b"username".to_vec()));
}

#[test]
fn a_non_object_element_is_a_syntax_error() {
    assert_eq!(deserialize(b"5"), Err(DecodeError::Syntax));
    assert_eq!(deserialize(b"[1,2]"), Err(DecodeError::Syntax));
}

#[test]
fn escaped_strings_are_decoded() {
    let json = format!(
        r#"{{"ts":"1970-01-01T00:00:01Z","username":"a\"b\\c","platform":"p","ms_played":1,"conn_country":"SE","master_metadata_track_name":"sn\u00f6"}}"#
    );
    let st = deserialize(json.as_bytes())
    .expect("decodes");
    assert_eq!(st.username, "a\"b\\c");
    assert_eq!(st.master_metadata_track_name.as_deref(), Some("sn\u{f6}"));
}

#[test]
fn offline_timestamp_zero_is_absent() {
    let st = deserialize(
        br#"{"ts":"1970-01-01T00:00:01Z","username":"u","platform":"p","ms_played":1,"conn_country":"SE","offline_timestamp":0}"#,
    )
    .expect("decodes");
    assert_eq!(st.offline_timestamp, None);
}

#[test]
fn offline_timestamp_nonzero_is_an_instant() {
    let st = deserialize(
        br#"{"ts":"1970-01-01T00:00:01Z","username":"u","platform":"p","ms_played":1,"conn_country":"SE","offline_timestamp":1658592029}"#,
    )
    .expect("decodes");
    assert_eq!(st.offline_timestamp, Some(1_658_592_029_000_000));
}

#[test]
fn decode_offline_timestamp_applies_the_sentinel_rule() {
    assert_eq!(decode_offline_timestamp(0), Some(None));
    assert_eq!(decode_offline_timestamp(1), Some(Some(1_000_000)));
    assert_eq!(decode_offline_timestamp(-1), Some(Some(-1_000_000)));
    // far beyond any representable instant
    assert_eq!(decode_offline_timestamp(i128::MAX), None);
}

#[test]
fn out_of_range_offline_timestamp_is_rejected() {
    let e = deserialize(
        br#"{"ts":"1970-01-01T00:00:01Z","username":"u","platform":"p","ms_played":1,"conn_country":"SE","offline_timestamp":99999999999999999999}"#,
    )
    .unwrap_err();
    assert_eq!(e, DecodeError::BadField(b"offline_timestamp".to_vec()));
}

#[test]
fn track_info_needs_name_and_artist() {
    let st = deserialize(full_record()).expect("decodes");
    let info = sesh::get_track_info(&st).expect("has track info");
    assert_eq!(info.name, "Song");
    assert_eq!(info.artist, "Band");
    let bare = deserialize(
        br#"{"ts":"1970-01-01T00:00:01Z","username":"u","platform":"p","ms_played":1,"conn_country":"SE"}"#,
    )
    .expect("decodes");
    assert!(sesh::get_track_info(&bare).is_none());
}

#[test]
fn ip_address_text_is_validated() {
    let st = deserialize(
        br#"{"ts":"1970-01-01T00:00:01Z","username":"u","platform":"p","ms_played":1,"conn_country":"SE","ip_addr_decrypted":"2001:db8::1"}"#,
    )
    .expect("decodes");
    assert_eq!(st.ip_addr_decrypted.as_deref(), Some("2001:db8::1"));
    let st = deserialize(
        br#"{"ts":"1970-01-01T00:00:01Z","username":"u","platform":"p","ms_played":1,"conn_country":"SE","ip_addr_decrypted":null}"#,
    )
    .expect("decodes");
    assert_eq!(st.ip_addr_decrypted, None);
    let e = deserialize(
        br#"{"ts":"1970-01-01T00:00:01Z","username":"u","platform":"p","ms_played":1,"conn_country":"SE","ip_addr_decrypted":"not an ip"}"#,
    )
    .unwrap_err();
    assert_eq!(e, DecodeError::BadField(b"ip_addr_decrypted".to_vec()));
}
