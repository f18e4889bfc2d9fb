use edulinker_core::streams::protocol::{cap_timeout, default_limit, default_timeout,
    effective_offset, handle_create_stream, handle_delete_stream, handle_get_messages_range,
    handle_get_stream, handle_health, handle_send_message, long_poll_immediate,
    long_poll_should_include, long_poll_timeout_response, message_json_text, sse_catchup,
    sse_should_send, stream_error_status, SseEvent};
use edulinker_core::streams::store::MessageStorage;
use edulinker_core::streams::types::{MessageType, StreamConfig, StreamError, StreamMessage,
    StreamMode};

fn msg(id: &str, sender: &str, recipient: &str) -> StreamMessage {
    StreamMessage {
        id: String::from(id),
        offset: 0,
        msg_type: MessageType::Text,
        payload: String::from("{\"content\":\"hi\"}"),
        sender_id: String::from(sender),
        recipient_id: String::from(recipient),
        timestamp: String::from("2026-01-01T00:00:00+00:00"),
    }
}

#[test]
fn sse_events_frame_correctly() {
    let connected = SseEvent::connected(5);
    assert_eq!(
        connected.to_sse_string().as_str(),
        "id: 5\nevent: connected\ndata: {\"offset\":5}\n\n",
    );
    let heartbeat = SseEvent::heartbeat();
    assert!(heartbeat.to_sse_string().as_str().starts_with("event: heartbeat\ndata: "));
}

#[test]
fn message_json_escapes_and_embeds_payload() {
    let mut m = msg("id\"1", "al\\ice", "bob");
    m.offset = 3;
    let text = message_json_text(&m);
    assert_eq!(
        text.as_str(),
        "{\"id\":\"id\\\"1\",\"offset\":3,\"type\":\"text\",\"payload\":{\"content\":\"hi\"},\"sender_id\":\"al\\\\ice\",\"recipient_id\":\"bob\",\"timestamp\":\"2026-01-01T00:00:00+00:00\"}",
    );
}

#[test]
fn sse_catchup_replays_exactly_the_missed_window() {
    let mut store = MessageStorage::new(StreamConfig::default());
    for i in 0..3 {
        store.append(msg(&format!("m{}", i), "alice", "bob")).unwrap();
    }
    // A subscriber resuming from offset 1 sees offsets 2 and 3, in order.
    let events = sse_catchup(&store, Some("alice"), None, 1);
    assert_eq!(events.len(), 2);
    assert_eq!(events[0].offset, 2);
    assert_eq!(events[1].offset, 3);
    let framed = SseEvent::message(&events[0]).to_sse_string();
    assert!(framed.as_str().starts_with("id: 2\nevent: message\ndata: "));
    // From the head, nothing is replayed.
    assert_eq!(sse_catchup(&store, Some("alice"), None, 0).len(), 0);
}

#[test]
fn sse_catchup_is_unscoped_for_anonymous_subscribers() {
    let mut store = MessageStorage::new(StreamConfig::default());
    for i in 0..3 {
        store.append(msg(&format!("m{}", i), "alice", "bob")).unwrap();
    }
    // No X-User-Id: every stored message past the offset replays, ids 2 and
    // 3 in order, regardless of who sent or received it.
    let events = sse_catchup(&store, None, None, 1);
    assert_eq!(events.len(), 2);
    assert_eq!(events[0].offset, 2);
    assert_eq!(events[1].offset, 3);
    // Anonymous subscribers also see every live message.
    assert!(sse_should_send(&msg("x", "carol", "dave"), None, None));
}

#[test]
fn effective_offset_prefers_last_event_id() {
    assert_eq!(effective_offset(Some("7"), Some(3)), 7);
    assert_eq!(effective_offset(Some("junk"), Some(3)), 3);
    assert_eq!(effective_offset(None, Some(3)), 3);
    assert_eq!(effective_offset(None, None), 0);
}

#[test]
fn live_filter_scopes_by_conversation_or_user() {
    let m = msg("m", "alice", "bob");
    assert!(sse_should_send(&m, Some("alice"), None));
    assert!(sse_should_send(&m, Some("bob"), Some("alice")));
    assert!(!sse_should_send(&m, Some("carol"), None));
    assert!(!sse_should_send(&m, Some("alice"), Some("carol")));
}

#[test]
fn long_poll_answers_immediately_or_waits() {
    let mut store = MessageStorage::new(StreamConfig::default());
    assert!(long_poll_immediate(&store, Some("alice"), None, 0).is_none());
    store.append(msg("m1", "alice", "bob")).unwrap();
    let resp = long_poll_immediate(&store, Some("bob"), None, 0).unwrap();
    assert_eq!(resp.messages.len(), 1);
    assert_eq!(resp.next_offset, 1);
    assert!(!resp.has_more);
    let m2 = store.append(msg("m2", "alice", "bob")).unwrap();
    assert!(long_poll_should_include(&m2, Some("bob"), None, 1));
    assert!(!long_poll_should_include(&m2, Some("bob"), None, 2));
    let timeout = long_poll_timeout_response(9);
    assert_eq!(timeout.next_offset, 9);
    assert!(timeout.messages.is_empty());
    assert_eq!(cap_timeout(90), 60);
    assert_eq!(cap_timeout(10), 10);
    assert_eq!(default_timeout(), 30);
    assert_eq!(default_limit(), 50);
}

#[test]
fn send_message_demands_the_sender_header() {
    let mut store = MessageStorage::new(StreamConfig::default());
    let refused = handle_send_message(
        &mut store,
        None,
        MessageType::Text,
        String::from("bob"),
        String::from("{}"),
    );
    assert!(refused.is_err());
    let stored = handle_send_message(
        &mut store,
        Some("alice"),
        MessageType::Text,
        String::from("bob"),
        String::from("{}"),
    )
    .unwrap();
    assert_eq!(stored.offset, 1);
    assert_eq!(stored.sender_id.as_str(), "alice");
    assert_eq!(stored.id.len(), 36);
}

#[test]
fn conditional_get_on_messages_range() {
    let mut store = MessageStorage::new(StreamConfig::default());
    store.append(msg("m1", "a", "b")).unwrap();
    let etag = store.etag();
    // A client holding the current version gets 304.
    let not_modified = handle_get_messages_range(&store, None, Some(etag.as_str()), None, 0, 10);
    assert_eq!(not_modified.status, 304);
    assert!(not_modified.body.is_none());
    // A stale If-Match gets 412.
    let failed = handle_get_messages_range(&store, Some("\"9:9\""), None, None, 0, 10);
    assert_eq!(failed.status, 412);
    // After another append the same If-None-Match proceeds.
    store.append(msg("m2", "a", "b")).unwrap();
    let ok = handle_get_messages_range(&store, None, Some(etag.as_str()), None, 0, 10);
    assert_eq!(ok.status, 200);
    assert_eq!(ok.etag.as_str(), store.etag().as_str());
}

#[test]
fn range_read_carries_content_range_and_partial_status() {
    let mut store = MessageStorage::new(StreamConfig::default());
    for i in 0..100 {
        store.append(msg(&format!("m{}", i), "a", "b")).unwrap();
    }
    let r = handle_get_messages_range(&store, None, None, Some("offsets=0-"), 0, 30);
    assert_eq!(r.status, 206);
    let body = r.body.unwrap();
    assert_eq!(body.messages.len(), 30);
    assert!(body.has_more);
    assert_eq!(r.content_range.unwrap().as_str(), "offsets=0-30/100");
    let last = handle_get_messages_range(&store, None, None, Some("offsets=70-"), 0, 50);
    assert_eq!(last.status, 200);
    assert_eq!(last.content_range.unwrap().as_str(), "offsets=70-100/100");
}

#[test]
fn stream_creation_honours_if_none_match_star() {
    let mut store = MessageStorage::new(StreamConfig::default());
    let created = handle_create_stream(&mut store, "foo", None, StreamMode::Json, Vec::new());
    assert_eq!(created.status, 201);
    assert!(created.response.success);
    let guarded = handle_create_stream(&mut store, "foo", Some("*"), StreamMode::Json, Vec::new());
    assert_eq!(guarded.status, 412);
    assert!(!guarded.response.success);
    let collided = handle_create_stream(&mut store, "foo", None, StreamMode::Json, Vec::new());
    assert_eq!(collided.status, 409);
}

#[test]
fn stream_get_and_delete_follow_conditionals() {
    let mut store = MessageStorage::new(StreamConfig::default());
    handle_create_stream(&mut store, "foo", None, StreamMode::Json, Vec::new());
    let fresh = handle_get_stream(&store, "foo", None).unwrap().unwrap();
    assert_eq!(fresh.etag.as_str(), "\"0:0\"");
    // Second conditional read with the same ETag: no body.
    let cached = handle_get_stream(&store, "foo", Some("\"0:0\"")).unwrap();
    assert!(cached.is_none());
    // One append later the stream's version moved: the same conditional
    // read answers the body again, under a fresh ETag.
    store.append(msg("m-etag", "a", "b")).unwrap();
    let moved = handle_get_stream(&store, "foo", Some("\"0:0\"")).unwrap().unwrap();
    assert_ne!(moved.etag.as_str(), "\"0:0\"");
    assert_eq!(moved.etag.as_str(), store.etag().as_str());
    assert!(handle_get_stream(&store, "nope", None).is_err());
    // A stale If-Match refuses the delete with 412; * matches.
    let refused = handle_delete_stream(&mut store, "foo", Some("\"9:9\""));
    assert_eq!(refused.status, 412);
    assert!(!refused.response.success);
    let deleted = handle_delete_stream(&mut store, "foo", Some("*"));
    assert_eq!(deleted.status, 200);
    assert!(deleted.response.success);
    let gone = handle_delete_stream(&mut store, "foo", None);
    assert!(!gone.response.success);
}

#[test]
fn health_reports_the_counters() {
    let mut store = MessageStorage::new(StreamConfig::default());
    store.append(msg("m1", "a", "b")).unwrap();
    let health = handle_health(&store);
    assert_eq!(health.message_count, 1);
    assert_eq!(health.current_offset, 1);
    assert_eq!(health.etag.as_str(), store.etag().as_str());
}

#[test]
fn stream_errors_map_to_statuses() {
    assert_eq!(stream_error_status(&StreamError::NotFound(String::from("x"))), 404);
    assert_eq!(stream_error_status(&StreamError::InvalidOffset(3)), 400);
    assert_eq!(stream_error_status(&StreamError::StorageError(String::from("x"))), 500);
}
