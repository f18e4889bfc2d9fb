use edulinker_core::streams::store::{MessageStorage, MsgQuery};
use edulinker_core::streams::types::{ConditionalResult, MessageType, OffsetRange, StreamConfig,
    StreamMessage, StreamMode};

fn msg(id: &str, sender: &str, recipient: &str, payload: &str) -> StreamMessage {
    StreamMessage {
        id: String::from(id),
        offset: 0,
        msg_type: MessageType::Text,
        payload: String::from(payload),
        sender_id: String::from(sender),
        recipient_id: String::from(recipient),
        timestamp: String::from("2026-01-01T00:00:00+00:00"),
    }
}

#[test]
fn appends_emit_consecutive_offsets_without_gaps() {
    let mut store = MessageStorage::new(StreamConfig::default());
    let mut last = 0u64;
    for i in 0..5 {
        let stored = store.append(msg(&format!("m{}", i), "a", "b", "{}")).unwrap();
        assert_eq!(stored.offset, last + 1);
        last = stored.offset;
    }
    assert_eq!(store.current_offset(), 5);
}

#[test]
fn duplicate_id_is_refused_and_consumes_no_offset() {
    let mut store = MessageStorage::new(StreamConfig::default());
    store.append(msg("m1", "a", "b", "{}")).unwrap();
    assert!(store.append(msg("m1", "a", "b", "{}")).is_err());
    assert_eq!(store.current_offset(), 1);
    let stored = store.append(msg("m2", "a", "b", "{}")).unwrap();
    assert_eq!(stored.offset, 2);
}

#[test]
fn etag_tracks_offset_and_bytes() {
    let mut store = MessageStorage::new(StreamConfig::default());
    assert_eq!(store.etag().as_str(), "\"0:0\"");
    store.append(msg("m1", "a", "b", "abcd")).unwrap();
    assert_eq!(store.etag().as_str(), "\"1:4\"");
    assert_eq!(store.total_bytes(), 4);
    store.append(msg("m2", "a", "b", "xy")).unwrap();
    assert_eq!(store.etag().as_str(), "\"2:6\"");
}

#[test]
fn delete_lowers_bytes_but_never_the_offset() {
    let mut store = MessageStorage::new(StreamConfig::default());
    store.append(msg("m1", "a", "b", "abcd")).unwrap();
    store.append(msg("m2", "a", "b", "xy")).unwrap();
    assert!(store.delete_message("m1"));
    assert_eq!(store.current_offset(), 2);
    assert_eq!(store.total_bytes(), 2);
    assert_eq!(store.etag().as_str(), "\"2:2\"");
    assert!(!store.delete_message("m1"));
    assert_eq!(store.message_count(), 1);
}

#[test]
fn queries_filter_and_order() {
    let mut store = MessageStorage::new(StreamConfig::default());
    store.append(msg("m1", "alice", "bob", "{}")).unwrap();
    store.append(msg("m2", "bob", "alice", "{}")).unwrap();
    store.append(msg("m3", "carol", "dave", "{}")).unwrap();
    store.append(msg("m4", "alice", "bob", "{}")).unwrap();

    let from = store.get_from_offset(1, 10);
    assert_eq!(from.len(), 3);
    assert_eq!(from[0].id.as_str(), "m2");

    let conv = store.get_conversation("alice", "bob", 0, 10);
    assert_eq!(conv.len(), 3);
    assert_eq!(conv[2].id.as_str(), "m4");

    let mine = store.get_user_messages("carol", 0, 10);
    assert_eq!(mine.len(), 1);
    assert_eq!(mine[0].id.as_str(), "m3");

    let limited = store.query(MsgQuery::FromOffset(0), 2);
    assert_eq!(limited.len(), 2);
    assert_eq!(limited[1].id.as_str(), "m2");

    let found = store.get_by_id("m3").unwrap();
    assert_eq!(found.sender_id.as_str(), "carol");
    assert!(store.get_by_id("nope").is_none());
}

#[test]
fn range_read_reports_extent_and_more() {
    let mut store = MessageStorage::new(StreamConfig::default());
    for i in 0..100 {
        store.append(msg(&format!("m{}", i), "a", "b", "{}")).unwrap();
    }
    let range = OffsetRange { start: 0, end: None };
    let r = store.get_range(&range, 30);
    assert_eq!(r.messages.len(), 30);
    assert_eq!(r.start_offset, 0);
    assert_eq!(r.end_offset, 30);
    assert_eq!(r.total_offset, 100);
    assert!(r.has_more);

    let rest = store.get_range(&OffsetRange { start: 70, end: None }, 50);
    assert_eq!(rest.messages.len(), 30);
    assert_eq!(rest.end_offset, 100);
    assert!(!rest.has_more);
}

#[test]
fn conditional_requests_follow_http_semantics() {
    let mut store = MessageStorage::new(StreamConfig::default());
    store.append(msg("m1", "a", "b", "abcd")).unwrap();
    let etag = store.etag();
    assert_eq!(store.check_etag(None, Some(etag.as_str())), ConditionalResult::NotModified);
    assert_eq!(store.check_etag(None, Some("*")), ConditionalResult::NotModified);
    assert_eq!(store.check_etag(None, Some("\"0:0\"")), ConditionalResult::Proceed);
    assert_eq!(
        store.check_etag(Some("\"stale:0\""), None),
        ConditionalResult::PreconditionFailed,
    );
    assert_eq!(store.check_etag(Some("*"), None), ConditionalResult::Proceed);
    assert_eq!(store.check_etag(Some(etag.as_str()), None), ConditionalResult::Proceed);
}

#[test]
fn recovery_rebuilds_counters_from_records() {
    let mut store = MessageStorage::new(StreamConfig::default());
    store.append(msg("m1", "a", "b", "abcd")).unwrap();
    store.append(msg("m2", "a", "b", "xy")).unwrap();
    let records = store.get_from_offset(0, 10);
    let revived = MessageStorage::recover(StreamConfig::default(), records);
    assert_eq!(revived.current_offset(), 2);
    assert_eq!(revived.total_bytes(), 6);
    assert_eq!(revived.etag().as_str(), "\"2:6\"");
}

#[test]
fn cleanup_prunes_by_timestamp_text_only() {
    let mut store = MessageStorage::new(StreamConfig::default());
    let mut old = msg("m1", "a", "b", "abcd");
    old.timestamp = String::from("2020-01-01T00:00:00+00:00");
    store.append(old).unwrap();
    store.append(msg("m2", "a", "b", "xy")).unwrap();
    let etag_before = store.etag();
    let removed = store.cleanup_old_messages("2025-01-01T00:00:00+00:00");
    assert_eq!(removed, 1);
    assert_eq!(store.message_count(), 1);
    assert_eq!(store.current_offset(), 2);
    assert_eq!(store.etag().as_str(), etag_before.as_str());
}

#[test]
fn named_streams_have_unique_paths() {
    let mut store = MessageStorage::new(StreamConfig::default());
    let created = store.create_stream("foo", StreamMode::Json, Vec::new()).unwrap();
    assert_eq!(created.path.as_str(), "foo");
    assert_eq!(created.etag.as_str(), "\"0:0\"");
    assert!(store.create_stream("foo", StreamMode::Bytes, Vec::new()).is_err());
    store.create_stream("bar", StreamMode::Bytes, Vec::new()).unwrap();
    let listed = store.list_streams();
    assert_eq!(listed.len(), 2);
    assert_eq!(listed[0].path.as_str(), "bar");
    assert!(store.get_stream("foo").is_some());
    assert!(store.delete_stream("foo"));
    assert!(!store.delete_stream("foo"));
    assert!(store.get_stream("foo").is_none());
    let updated = store
        .update_stream_metadata("bar", vec![(String::from("k"), String::from("v"))])
        .unwrap();
    assert_eq!(updated.metadata.len(), 1);
    assert_eq!(updated.metadata[0].0.as_str(), "k");
}
