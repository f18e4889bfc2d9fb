//! The stream server's protocol surface: the server-sent-event format and
//! its catch-up and live-filter rules, long-poll decisions, conditional
//! stream CRUD, range reads with `Content-Range`, and the error-to-status
//! mapping. The application owns the sockets, timers and broadcast channel
//! and calls in here for every decision.

use vstd::prelude::*;

use crate::json::{append_json_string, json_string, offset_json_text};
use crate::numstr::{dec_rep, dec_val, is_u64_numeral, parse_u64, u64_to_dec};
use crate::platform::{new_uuid, now_rfc3339};
use crate::seqx::prefix_upto;
use crate::streams::store::{check_etag_spec, has_path, in_conversation, involves_user,
    MessageStorage};
use crate::streams::types::msg_views;
use crate::streams::types::{ConditionalResult, CreateStreamResponse,
    DeleteStreamResponse, LongPollResponse, MessageType, OffsetRange, ReadResponse, StreamError,
    StreamInfo, StreamMessage, StreamMessageV, StreamMode};
use crate::text::str_eq;

verus! {

/// The wire name of each message type, as its JSON tag.
pub open spec fn msg_type_name(t: MessageType) -> Seq<char> {
    match t {
        MessageType::Text => "text"@,
        MessageType::File => "file"@,
        MessageType::Image => "image"@,
        MessageType::Typing => "typing"@,
        MessageType::ReadReceipt => "read_receipt"@,
        MessageType::DeliveryReceipt => "delivery_receipt"@,
        MessageType::System => "system"@,
        MessageType::Presence => "presence"@,
    }
}

/// The wire name of a message type.
pub fn msg_type_str(t: MessageType) -> (r: &'static str)
    ensures
        r@ == msg_type_name(t),
{
    match t {
        MessageType::Text => "text",
        MessageType::File => "file",
        MessageType::Image => "image",
        MessageType::Typing => "typing",
        MessageType::ReadReceipt => "read_receipt",
        MessageType::DeliveryReceipt => "delivery_receipt",
        MessageType::System => "system",
        MessageType::Presence => "presence",
    }
}

/// The JSON object for one stream message. The payload field is raw JSON
/// text and is embedded as it stands.
pub open spec fn message_json(m: StreamMessageV) -> Seq<char> {
    "{\"id\":"@ + json_string(m.id) + ",\"offset\":"@ + dec_rep(m.offset as nat) + ",\"type\":\""@
        + msg_type_name(m.msg_type) + "\",\"payload\":"@ + m.payload + ",\"sender_id\":"@
        + json_string(m.sender_id) + ",\"recipient_id\":"@ + json_string(m.recipient_id)
        + ",\"timestamp\":"@ + json_string(m.timestamp) + "}"@
}

/// Renders a stream message as its JSON object.
pub fn message_json_text(m: &StreamMessage) -> (r: String)
    ensures
        r@ == message_json(m@),
{
    let mut r = String::from_str("{\"id\":");
    append_json_string(&mut r, m.id.as_str());
    r.append(",\"offset\":");
    r.append(u64_to_dec(m.offset).as_str());
    r.append(",\"type\":\"");
    r.append(msg_type_str(m.msg_type));
    r.append("\",\"payload\":");
    r.append(m.payload.as_str());
    r.append(",\"sender_id\":");
    append_json_string(&mut r, m.sender_id.as_str());
    r.append(",\"recipient_id\":");
    append_json_string(&mut r, m.recipient_id.as_str());
    r.append(",\"timestamp\":");
    append_json_string(&mut r, m.timestamp.as_str());
    r.append("}");
    proof {
        assert(r@ =~= message_json(m@));
    }
    r
}

/// One server-sent event, before framing.
pub struct SseEvent {
    pub id: String,
    pub event: String,
    pub data: String,
}

/// The wire framing of an event: an `id:` line when the id is non-empty,
/// then the `event:` and `data:` lines and a blank line.
pub open spec fn sse_text(id: Seq<char>, event: Seq<char>, data: Seq<char>) -> Seq<char> {
    (if id.len() > 0 {
        "id: "@ + id + "\n"@
    } else {
        Seq::<char>::empty()
    }) + "event: "@ + event + "\n"@ + "data: "@ + data + "\n\n"@
}

impl SseEvent {
    /// A live `message` event: the offset is the event id, the body is the
    /// message's JSON.
    pub fn message(msg: &StreamMessage) -> (r: SseEvent)
        ensures
            r.id@ == dec_rep(msg@.offset as nat),
            r.event@ == "message"@,
            r.data@ == message_json(msg@),
    {
        SseEvent {
            id: u64_to_dec(msg.offset),
            event: String::from_str("message"),
            data: message_json_text(msg),
        }
    }

    /// A `heartbeat` event carrying the current timestamp.
    pub fn heartbeat() -> (r: SseEvent)
        ensures
            r.id@.len() == 0,
            r.event@ == "heartbeat"@,
    {
        SseEvent {
            id: String::new(),
            event: String::from_str("heartbeat"),
            data: now_rfc3339(),
        }
    }

    /// The `connected` event a subscriber receives first, carrying the
    /// stream's current offset.
    pub fn connected(offset: u64) -> (r: SseEvent)
        ensures
            r.id@ == dec_rep(offset as nat),
            r.event@ == "connected"@,
            r.data@ == crate::json::offset_json(offset),
    {
        SseEvent {
            id: u64_to_dec(offset),
            event: String::from_str("connected"),
            data: offset_json_text(offset),
        }
    }

    /// Frames the event for the wire.
    pub fn to_sse_string(&self) -> (r: String)
        ensures
            r@ == sse_text(self.id@, self.event@, self.data@),
    {
        let mut r = String::new();
        if self.id.as_str().unicode_len() > 0 {
            r.append("id: ");
            r.append(self.id.as_str());
            r.append("\n");
        }
        r.append("event: ");
        r.append(self.event.as_str());
        r.append("\n");
        r.append("data: ");
        r.append(self.data.as_str());
        r.append("\n\n");
        proof {
            assert(r@ =~= sse_text(self.id@, self.event@, self.data@));
        }
        r
    }
}

/// The offset a subscriber resumes from: a numeric `Last-Event-ID` header
/// wins, else the query's offset, else zero.
pub open spec fn effective_offset_spec(last_event_id: Option<Seq<char>>, query_offset: Option<
    u64,
>) -> u64 {
    if last_event_id is Some && is_u64_numeral(last_event_id->0) {
        dec_val(last_event_id->0) as u64
    } else if query_offset is Some {
        query_offset->0
    } else {
        0
    }
}

/// Decides where a subscriber resumes.
pub fn effective_offset(last_event_id: Option<&str>, query_offset: Option<u64>) -> (r: u64)
    ensures
        r == effective_offset_spec(
            match last_event_id {
                Some(h) => Some(h@),
                None => None,
            },
            query_offset,
        ),
{
    match last_event_id {
        Some(h) => {
            match parse_u64(h) {
                Some(v) => v,
                None => match query_offset {
                    Some(q) => q,
                    None => 0,
                },
            }
        },
        None => match query_offset {
            Some(q) => q,
            None => 0,
        },
    }
}

/// Whether a live message belongs on a subscriber's stream: everything when
/// the subscriber named no user; a user's traffic when it named itself; just
/// the watched conversation when it also named a partner.
pub open spec fn sse_live_matches(
    m: StreamMessageV,
    user_id: Option<Seq<char>>,
    with_user: Option<Seq<char>>,
) -> bool {
    match user_id {
        Some(u) => match with_user {
            Some(other) => in_conversation(m, u, other),
            None => involves_user(m, u),
        },
        None => true,
    }
}

/// Evaluates the live filter for one message.
pub fn sse_should_send(m: &StreamMessage, user_id: Option<&str>, with_user: Option<&str>) -> (r:
    bool)
    ensures
        r == sse_live_matches(m@, match user_id {
            Some(u) => Some(u@),
            None => None,
        }, match with_user {
            Some(w) => Some(w@),
            None => None,
        }),
{
    match user_id {
        Some(u) => match with_user {
            Some(other) => (str_eq(m.sender_id.as_str(), u) && str_eq(
                m.recipient_id.as_str(),
                other,
            )) || (str_eq(m.sender_id.as_str(), other) && str_eq(m.recipient_id.as_str(), u)),
            None => str_eq(m.sender_id.as_str(), u) || str_eq(m.recipient_id.as_str(), u),
        },
        None => true,
    }
}

/// The catch-up window a subscriber replays before going live: nothing when
/// it starts at the head, else up to 100 stored messages past its offset.
/// The replay is unconditional for an anonymous subscriber and scoped like
/// the live filter when the subscriber identified itself.
pub fn sse_catchup(
    storage: &MessageStorage,
    user_id: Option<&str>,
    with_user: Option<&str>,
    offset: u64,
) -> (r: Vec<StreamMessage>)
    ensures
        offset == 0 ==> r@.len() == 0,
        offset > 0 ==> msg_views(r@) == prefix_upto(
            storage@.messages.filter(
                |m: StreamMessageV|
                    m.offset > offset && sse_live_matches(m, match user_id {
                        Some(u) => Some(u@),
                        None => None,
                    }, match with_user {
                        Some(w) => Some(w@),
                        None => None,
                    }),
            ),
            100,
        ),
{
    if offset == 0 {
        return Vec::new();
    }
    match user_id {
        Some(u) => {
            match with_user {
                Some(other) => {
                    let r = storage.get_conversation(u, other, offset, 100);
                    proof {
                        assert((|m: StreamMessageV|
                            m.offset > offset && in_conversation(m, u@, other@)) =~= (
                        |m: StreamMessageV|
                            m.offset > offset && sse_live_matches(m, match user_id {
                                Some(u2) => Some(u2@),
                                None => None,
                            }, match with_user {
                                Some(w) => Some(w@),
                                None => None,
                            })));
                    }
                    r
                },
                None => {
                    let r = storage.get_user_messages(u, offset, 100);
                    proof {
                        assert((|m: StreamMessageV|
                            m.offset > offset && involves_user(m, u@)) =~= (
                        |m: StreamMessageV|
                            m.offset > offset && sse_live_matches(m, match user_id {
                                Some(u2) => Some(u2@),
                                None => None,
                            }, match with_user {
                                Some(w) => Some(w@),
                                None => None,
                            })));
                    }
                    r
                },
            }
        },
        None => {
            let r = storage.get_from_offset(offset, 100);
            proof {
                assert((|m: StreamMessageV| m.offset > offset) =~= (|m: StreamMessageV|
                    m.offset > offset && sse_live_matches(m, match user_id {
                        Some(u2) => Some(u2@),
                        None => None,
                    }, match with_user {
                        Some(w) => Some(w@),
                        None => None,
                    })));
            }
            r
        },
    }
}

/// Whether a long poll should return this live message: it must pass the
/// subscriber's filter and lie past the polled offset.
pub open spec fn long_poll_accepts(
    m: StreamMessageV,
    user_id: Option<Seq<char>>,
    with_user: Option<Seq<char>>,
    offset: u64,
) -> bool {
    sse_live_matches(m, user_id, with_user) && m.offset > offset
}

/// Evaluates the long-poll filter for one live message.
pub fn long_poll_should_include(
    m: &StreamMessage,
    user_id: Option<&str>,
    with_user: Option<&str>,
    offset: u64,
) -> (r: bool)
    ensures
        r == long_poll_accepts(m@, match user_id {
            Some(u) => Some(u@),
            None => None,
        }, match with_user {
            Some(w) => Some(w@),
            None => None,
        }, offset),
{
    sse_should_send(m, user_id, with_user) && m.offset > offset
}

/// The immediate phase of a long poll: when stored messages already answer
/// it, they are returned at once with the next offset to poll from; when
/// none do, the caller subscribes and waits.
pub fn long_poll_immediate(
    storage: &MessageStorage,
    user_id: Option<&str>,
    with_user: Option<&str>,
    offset: u64,
) -> (r: Option<LongPollResponse>)
    ensures
        ({
            let stored = prefix_upto(
                storage@.messages.filter(
                    |m: StreamMessageV|
                        m.offset > offset && sse_live_matches(m, match user_id {
                            Some(u) => Some(u@),
                            None => None,
                        }, match with_user {
                            Some(w) => Some(w@),
                            None => None,
                        }),
                ),
                100,
            );
            match r {
                Some(resp) => {
                    &&& stored.len() > 0
                    &&& msg_views(resp.messages@) == stored
                    &&& resp.next_offset == stored.last().offset
                    &&& !resp.has_more
                },
                None => stored.len() == 0,
            }
        }),
{
    let messages = match user_id {
        Some(u) => {
            match with_user {
                Some(other) => {
                    let r = storage.get_conversation(u, other, offset, 100);
                    proof {
                        assert((|m: StreamMessageV|
                            m.offset > offset && in_conversation(m, u@, other@)) =~= (
                        |m: StreamMessageV|
                            m.offset > offset && sse_live_matches(m, match user_id {
                                Some(u2) => Some(u2@),
                                None => None,
                            }, match with_user {
                                Some(w) => Some(w@),
                                None => None,
                            })));
                    }
                    r
                },
                None => {
                    let r = storage.get_user_messages(u, offset, 100);
                    proof {
                        assert((|m: StreamMessageV|
                            m.offset > offset && involves_user(m, u@)) =~= (
                        |m: StreamMessageV|
                            m.offset > offset && sse_live_matches(m, match user_id {
                                Some(u2) => Some(u2@),
                                None => None,
                            }, match with_user {
                                Some(w) => Some(w@),
                                None => None,
                            })));
                    }
                    r
                },
            }
        },
        None => {
            let r = storage.get_from_offset(offset, 100);
            proof {
                assert((|m: StreamMessageV| m.offset > offset) =~= (|m: StreamMessageV|
                    m.offset > offset && sse_live_matches(m, match user_id {
                        Some(u2) => Some(u2@),
                        None => None,
                    }, match with_user {
                        Some(w) => Some(w@),
                        None => None,
                    })));
            }
            r
        },
    };
    if messages.len() == 0 {
        return None;
    }
    let next_offset = messages[messages.len() - 1].offset;
    proof {
        assert(msg_views(messages@).last() == messages@[messages@.len() - 1]@);
    }
    Some(LongPollResponse { messages, next_offset, has_more: false })
}

/// The empty response a long poll returns when it times out: the caller's
/// own offset comes back so it can poll again from the same place.
pub fn long_poll_timeout_response(offset: u64) -> (r: LongPollResponse)
    ensures
        r.messages@.len() == 0,
        r.next_offset == offset,
        !r.has_more,
{
    LongPollResponse { messages: Vec::new(), next_offset: offset, has_more: false }
}

/// Caps a client-chosen long-poll timeout at sixty seconds.
pub fn cap_timeout(secs: u64) -> (r: u64)
    ensures
        r == if secs < 60 {
            secs
        } else {
            60u64
        },
{
    if secs < 60 {
        secs
    } else {
        60
    }
}

/// The default long-poll timeout in seconds.
pub fn default_timeout() -> (r: u64)
    ensures
        r == 30,
{
    30
}

/// The default page size of history reads.
pub fn default_limit() -> (r: usize)
    ensures
        r == 50,
{
    50
}

/// The HTTP status each stream error maps to.
pub fn stream_error_status(e: &StreamError) -> (r: u16)
    ensures
        e is NotFound ==> r == 404,
        e is InvalidOffset ==> r == 400,
        !(e is NotFound) && !(e is InvalidOffset) ==> r == 500,
{
    match e {
        StreamError::NotFound(_) => 404,
        StreamError::InvalidOffset(_) => 400,
        _ => 500,
    }
}

/// The append endpoint: demands `X-Sender-Id`, stamps the message with a
/// fresh id and the current time, and appends it to the default stream.
pub fn handle_send_message(
    storage: &mut MessageStorage,
    sender_id: Option<&str>,
    msg_type: MessageType,
    recipient_id: String,
    payload: String,
) -> (r: Result<StreamMessage, StreamError>)
    requires
        old(storage).wf(),
    ensures
        final(storage).wf(),
        sender_id is None <==> (r matches Err(StreamError::StorageError(m)) && m@
            == "Missing X-Sender-Id header"@),
        sender_id is None ==> final(storage)@ == old(storage)@,
        r is Ok ==> ({
            let stored = r->Ok_0@;
            &&& sender_id is Some
            &&& stored.offset == old(storage)@.current_offset + 1
            &&& stored.msg_type == msg_type
            &&& stored.sender_id == sender_id->0@
            &&& stored.recipient_id == recipient_id@
            &&& stored.payload == payload@
            &&& final(storage)@.messages == old(storage)@.messages.push(stored)
            &&& final(storage)@.current_offset == old(storage)@.current_offset + 1
        }),
        r is Err ==> final(storage)@ == old(storage)@,
{
    proof {
        reveal_strlit("Missing X-Sender-Id header");
        // The store's own failure messages are distinct from the header
        // error, so the missing-header error identifies its cause exactly.
        reveal_strlit("message id already present");
        reveal_strlit("offset counter exhausted");
        reveal_strlit("byte counter exhausted");
        assert("Missing X-Sender-Id header"@[0] == 'M' && "message id already present"@[0] == 'm'
            && "Missing X-Sender-Id header"@ != "message id already present"@);
        assert("Missing X-Sender-Id header"@ != "offset counter exhausted"@);
        assert("Missing X-Sender-Id header"@ != "byte counter exhausted"@);
    }
    let sender = match sender_id {
        Some(s) => s.to_owned(),
        None => {
            return Err(StreamError::StorageError(String::from_str(
                "Missing X-Sender-Id header",
            )));
        },
    };
    let message = StreamMessage {
        id: new_uuid(),
        offset: 0,
        msg_type,
        payload,
        sender_id: sender,
        recipient_id,
        timestamp: now_rfc3339(),
    };
    storage.append(message)
}

/// Outcome of the stream-creation endpoint.
pub struct CreateStreamOutcome {
    pub status: u16,
    pub response: CreateStreamResponse,
}

/// The stream-creation endpoint: `If-None-Match: *` refuses with 412 when
/// the stream already exists; otherwise creation answers 201, and a name
/// collision answers 409.
pub fn handle_create_stream(
    storage: &mut MessageStorage,
    path: &str,
    if_none_match: Option<&str>,
    mode: StreamMode,
    metadata: Vec<(String, String)>,
) -> (r: CreateStreamOutcome)
    requires
        old(storage).wf(),
    ensures
        final(storage).wf(),
        ({
            let guarded = match if_none_match {
                Some(h) => h@ == seq!['*'],
                None => false,
            };
            let existed = has_path(old(storage)@.streams, path@);
            &&& (guarded && existed) ==> r.status == 412 && !r.response.success && final(storage)@ == old(storage)@
            &&& !(guarded && existed) ==> ({
                &&& !existed ==> r.status == 201 && r.response.success
                    && r.response.stream is Some && r.response.stream->0@.path == path@ && final(storage)@.streams == old(storage)@.streams.push(r.response.stream->0@)
                &&& existed ==> r.status == 409 && !r.response.success && final(storage)@ == old(storage)@
            })
        }),
{
    proof {
        reveal_strlit("*");
        assert("*"@ =~= seq!['*']);
        reveal_strlit("Stream already exists");
    }
    let guarded = match if_none_match {
        Some(h) => str_eq(h, "*"),
        None => false,
    };
    if guarded {
        if storage.get_stream(path).is_some() {
            return CreateStreamOutcome {
                status: 412,
                response: CreateStreamResponse {
                    success: false,
                    stream: None,
                    error: Some(String::from_str("Stream already exists")),
                },
            };
        }
    }
    match storage.create_stream(path, mode, metadata) {
        Ok(stream) => CreateStreamOutcome {
            status: 201,
            response: CreateStreamResponse { success: true, stream: Some(stream), error: None },
        },
        Err(e) => CreateStreamOutcome {
            status: 409,
            response: CreateStreamResponse {
                success: false,
                stream: None,
                error: Some(e.message()),
            },
        },
    }
}

/// The stream-read endpoint: 404 for an unknown path, 304 when the client
/// already holds the log's current version, else the descriptor carrying
/// the live counters and ETag. Since every append moves the live ETag, a
/// conditional read with a pre-append ETag answers 200 with the fresh one.
pub fn handle_get_stream(storage: &MessageStorage, path: &str, if_none_match: Option<&str>) -> (r:
    Result<Option<StreamInfo>, StreamError>)
    requires
        storage.wf(),
    ensures
        r is Err <==> !has_path(storage@.streams, path@),
        r is Err ==> (r->Err_0 matches StreamError::NotFound(missing) && missing@ == path@),
        r is Ok ==> ({
            let row = storage@.streams[crate::streams::store::idx_of_path(
                storage@.streams,
                path@,
            )];
            match r->Ok_0 {
                Some(info) => info@ == crate::streams::store::live_view(
                    row,
                    storage@.current_offset,
                    storage@.total_bytes,
                    storage@.etag,
                ) && info@.path == path@ && (match if_none_match {
                    Some(h) => h@ != storage@.etag,
                    None => true,
                }),
                None => (match if_none_match {
                    Some(h) => h@ == storage@.etag,
                    None => false,
                }),
            }
        }),
{
    match storage.get_stream(path) {
        Some(stream) => {
            if let Some(expected) = if_none_match {
                if str_eq(expected, stream.etag.as_str()) {
                    return Ok(None);
                }
            }
            Ok(Some(stream))
        },
        None => Err(StreamError::NotFound(path.to_owned())),
    }
}

/// Outcome of the stream-deletion endpoint.
pub struct DeleteStreamOutcome {
    pub status: u16,
    pub response: DeleteStreamResponse,
}

/// The stream-deletion endpoint: a stale `If-Match` — one that is neither
/// `*` nor the live ETag — refuses with 412 and deletes nothing; otherwise
/// an existing stream is deleted, and an unknown path reports failure.
pub fn handle_delete_stream(storage: &mut MessageStorage, path: &str, if_match: Option<&str>) -> (r:
    DeleteStreamOutcome)
    requires
        old(storage).wf(),
    ensures
        final(storage).wf(),
        ({
            let existed = has_path(old(storage)@.streams, path@);
            let stale = existed && (match if_match {
                Some(m) => m@ != seq!['*'] && m@ != old(storage)@.etag,
                None => false,
            });
            &&& stale ==> r.status == 412 && !r.response.success && final(storage)@ == old(
                storage,
            )@
            &&& !existed ==> r.status == 200 && !r.response.success && final(storage)@ == old(
                storage,
            )@
            &&& existed && !stale ==> ({
                &&& r.status == 200
                &&& r.response.success
                &&& final(storage)@.streams == old(storage)@.streams.remove(
                    crate::streams::store::idx_of_path(old(storage)@.streams, path@),
                )
                &&& final(storage)@.messages == old(storage)@.messages
                &&& final(storage)@.current_offset == old(storage)@.current_offset
                &&& final(storage)@.total_bytes == old(storage)@.total_bytes
                &&& final(storage)@.etag == old(storage)@.etag
            })
        }),
{
    proof {
        reveal_strlit("*");
        assert("*"@ =~= seq!['*']);
        reveal_strlit("ETag mismatch");
        reveal_strlit("Stream not found");
    }
    if let Some(expected) = if_match {
        if let Some(stream) = storage.get_stream(path) {
            if !str_eq(expected, "*") && !str_eq(expected, stream.etag.as_str()) {
                return DeleteStreamOutcome {
                    status: 412,
                    response: DeleteStreamResponse {
                        success: false,
                        error: Some(String::from_str("ETag mismatch")),
                    },
                };
            }
        }
    }
    if storage.delete_stream(path) {
        DeleteStreamOutcome {
            status: 200,
            response: DeleteStreamResponse { success: true, error: None },
        }
    } else {
        DeleteStreamOutcome {
            status: 200,
            response: DeleteStreamResponse {
                success: false,
                error: Some(String::from_str("Stream not found")),
            },
        }
    }
}

/// Outcome of the range-read endpoint./// Outcome of the range-read endpoint.
pub struct RangeReadOutcome {
    pub status: u16,
    pub body: Option<ReadResponse>,
    pub content_range: Option<String>,
    pub etag: String,
}

/// The `Content-Range` header text for a read.
pub open spec fn content_range_text(start: u64, end: u64, total: u64) -> Seq<char> {
    "offsets="@ + dec_rep(start as nat) + "-"@ + dec_rep(end as nat) + "/"@ + dec_rep(total as nat)
}

/// The message-range endpoint: conditional headers may answer 304 or 412
/// with no body; otherwise the read honours an explicit `Range` header
/// (falling back to the query's offset), reports `Content-Range`, and
/// answers 206 while more remains, 200 at the end.
pub fn handle_get_messages_range(
    storage: &MessageStorage,
    if_match: Option<&str>,
    if_none_match: Option<&str>,
    range_header: Option<&str>,
    query_offset: u64,
    limit: usize,
) -> (r: RangeReadOutcome)
    requires
        storage.wf(),
    ensures
        ({
            let cond = check_etag_spec(
                storage@.etag,
                match if_match {
                    Some(m) => Some(m@),
                    None => None,
                },
                match if_none_match {
                    Some(m) => Some(m@),
                    None => None,
                },
            );
            &&& cond is NotModified ==> r.status == 304 && r.body is None
            &&& cond is PreconditionFailed ==> r.status == 412 && r.body is None
            &&& cond is Proceed ==> ({
                let range = match (match range_header {
                    Some(h) => crate::streams::types::parse_range_spec(h@),
                    None => None,
                }) {
                    Some(rg) => rg,
                    None => OffsetRange { start: query_offset, end: None },
                };
                &&& r.body is Some
                &&& ({
                    let body = r.body->0;
                    &&& msg_views(body.messages@) == prefix_upto(
                        storage@.messages.filter(|m: StreamMessageV| m.offset > range.start),
                        limit as int,
                    )
                    &&& body.start_offset == range.start
                    &&& body.total_offset == storage@.current_offset
                    &&& r.status == (if body.has_more {
                        206u16
                    } else {
                        200u16
                    })
                    &&& r.content_range is Some && r.content_range->0@ == content_range_text(
                        body.start_offset,
                        body.end_offset,
                        body.total_offset,
                    )
                })
            })
            &&& r.etag@ == storage@.etag
        }),
{
    let etag = storage.etag();
    match storage.check_etag(if_match, if_none_match) {
        ConditionalResult::NotModified => {
            return RangeReadOutcome { status: 304, body: None, content_range: None, etag };
        },
        ConditionalResult::PreconditionFailed => {
            return RangeReadOutcome { status: 412, body: None, content_range: None, etag };
        },
        ConditionalResult::Proceed => {},
    }
    let range = match range_header {
        Some(h) => {
            match OffsetRange::parse(h) {
                Some(rg) => rg,
                None => OffsetRange { start: query_offset, end: None },
            }
        },
        None => OffsetRange { start: query_offset, end: None },
    };
    let body = storage.get_range(&range, limit);
    let mut content_range = String::from_str("offsets=");
    content_range.append(u64_to_dec(body.start_offset).as_str());
    content_range.append("-");
    content_range.append(u64_to_dec(body.end_offset).as_str());
    content_range.append("/");
    content_range.append(u64_to_dec(body.total_offset).as_str());
    proof {
        assert(content_range@ =~= content_range_text(
            body.start_offset,
            body.end_offset,
            body.total_offset,
        ));
    }
    let status: u16 = if body.has_more {
        206
    } else {
        200
    };
    RangeReadOutcome { status, body: Some(body), content_range: Some(content_range), etag }
}

/// The message-deletion endpoint.
pub fn handle_delete_message(storage: &mut MessageStorage, id: &str) -> (r: DeleteStreamResponse)
    requires
        old(storage).wf(),
    ensures
        final(storage).wf(),
        r.success == crate::streams::store::has_id(old(storage)@.messages, id@),
        !r.success ==> final(storage)@ == old(storage)@,
{
    proof {
        reveal_strlit("Message not found");
    }
    if storage.delete_message(id) {
        DeleteStreamResponse { success: true, error: None }
    } else {
        DeleteStreamResponse { success: false, error: Some(String::from_str("Message not found")) }
    }
}

/// The conversation endpoint: demands `X-User-Id`, then pages through the
/// conversation with the named other user.
pub fn handle_get_conversation(
    storage: &MessageStorage,
    user_id: Option<&str>,
    other_user_id: &str,
    offset: u64,
    limit: usize,
) -> (r: Result<Vec<StreamMessage>, StreamError>)
    ensures
        user_id is None ==> r is Err,
        user_id is Some ==> r is Ok && msg_views(r->Ok_0@) == prefix_upto(
            storage@.messages.filter(
                |m: StreamMessageV|
                    m.offset > offset && in_conversation(m, user_id->0@, other_user_id@),
            ),
            limit as int,
        ),
{
    proof {
        reveal_strlit("Missing X-User-Id header");
    }
    match user_id {
        Some(u) => Ok(storage.get_conversation(u, other_user_id, offset, limit)),
        None => Err(StreamError::StorageError(String::from_str("Missing X-User-Id header"))),
    }
}

/// The liveness endpoint's counters.
pub struct HealthInfo {
    pub message_count: usize,
    pub current_offset: u64,
    pub total_bytes: u64,
    pub etag: String,
}

/// The liveness endpoint: the store's counters in one record.
pub fn handle_health(storage: &MessageStorage) -> (r: HealthInfo)
    ensures
        r.message_count == storage@.messages.len(),
        r.current_offset == storage@.current_offset,
        r.total_bytes == storage@.total_bytes,
        r.etag@ == storage@.etag,
{
    HealthInfo {
        message_count: storage.message_count(),
        current_offset: storage.current_offset(),
        total_bytes: storage.total_bytes(),
        etag: storage.etag(),
    }
}

} // verus!
