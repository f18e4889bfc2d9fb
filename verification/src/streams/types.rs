//! Types of the durable message stream: messages, stream descriptors,
//! conditional-request results and range requests.

use vstd::prelude::*;

use crate::numstr::{dec_val, is_u64_numeral};
use crate::numstr::parse_u64;
use crate::text::{split_on, split_str};

verus! {

/// The kind of a stream message.
#[derive(Clone, Copy, PartialEq, Eq, Structural, Debug)]
pub enum MessageType {
    Text,
    File,
    Image,
    Typing,
    ReadReceipt,
    DeliveryReceipt,
    System,
    Presence,
}

/// One record of the append-only log. `payload` carries the JSON text of the
/// message body; the store does not interpret it. The derived clone serves
/// the host's broadcast channel; verified code copies via `duplicate`,
/// whose contract relates the copy to the original.
#[derive(Clone)]
pub struct StreamMessage {
    pub id: String,
    pub offset: u64,
    pub msg_type: MessageType,
    pub payload: String,
    pub sender_id: String,
    pub recipient_id: String,
    pub timestamp: String,
}

/// The mathematical model of a stream message.
pub ghost struct StreamMessageV {
    pub id: Seq<char>,
    pub offset: u64,
    pub msg_type: MessageType,
    pub payload: Seq<char>,
    pub sender_id: Seq<char>,
    pub recipient_id: Seq<char>,
    pub timestamp: Seq<char>,
}

impl View for StreamMessage {
    type V = StreamMessageV;

    open spec fn view(&self) -> StreamMessageV {
        StreamMessageV {
            id: self.id@,
            offset: self.offset,
            msg_type: self.msg_type,
            payload: self.payload@,
            sender_id: self.sender_id@,
            recipient_id: self.recipient_id@,
            timestamp: self.timestamp@,
        }
    }
}

impl StreamMessage {
    /// A copy holding the same model.
    pub fn duplicate(&self) -> (r: Self)
        ensures
            r@ == self@,
    {
        StreamMessage {
            id: self.id.clone(),
            offset: self.offset,
            msg_type: self.msg_type,
            payload: self.payload.clone(),
            sender_id: self.sender_id.clone(),
            recipient_id: self.recipient_id.clone(),
            timestamp: self.timestamp.clone(),
        }
    }
}

/// The views of a message list.
pub open spec fn msg_views(s: Seq<StreamMessage>) -> Seq<StreamMessageV> {
    s.map_values(|m: StreamMessage| m@)
}

/// Payload of a text message.
pub struct TextPayload {
    pub content: String,
    pub reply_to: Option<String>,
}

/// Payload of a file message referring to a finished upload.
pub struct FilePayload {
    pub upload_id: String,
    pub filename: String,
    pub file_size: u64,
    pub mime_type: String,
    pub thumbnail_url: Option<String>,
}

/// Payload of a typing indicator.
pub struct TypingPayload {
    pub is_typing: bool,
}

/// Payload of a read receipt.
pub struct ReadReceiptPayload {
    pub message_ids: Vec<String>,
    pub read_at: String,
}

/// Payload of a delivery receipt.
pub struct DeliveryReceiptPayload {
    pub message_ids: Vec<String>,
    pub delivered_at: String,
}

/// Payload of a presence notice.
pub struct PresencePayload {
    pub user_id: String,
    pub is_online: bool,
    pub last_seen: Option<String>,
}

/// Configuration of the stream store.
pub struct StreamConfig {
    pub storage_path: String,
    pub max_messages: usize,
    pub retention_secs: u64,
    pub heartbeat_secs: u64,
    pub long_poll_timeout_secs: u64,
}

impl Default for StreamConfig {
    /// The stock configuration: seven days of retention, 30-second
    /// heartbeats and long polls.
    fn default() -> (r: Self)
        ensures
            r.storage_path@ == "streams"@,
            r.max_messages == 10000,
            r.retention_secs == 7 * 24 * 60 * 60,
            r.heartbeat_secs == 30,
            r.long_poll_timeout_secs == 30,
    {
        StreamConfig {
            storage_path: String::from_str("streams"),
            max_messages: 10000,
            retention_secs: 7 * 24 * 60 * 60,
            heartbeat_secs: 30,
            long_poll_timeout_secs: 30,
        }
    }
}

/// Filters a subscriber may apply to the live stream.
pub struct SubscribeOptions {
    pub offset: Option<u64>,
    pub with_user: Option<String>,
    pub channel: Option<String>,
    pub types: Option<Vec<MessageType>>,
}

/// Errors of the stream subsystem.
#[derive(Debug)]
pub enum StreamError {
    NotFound(String),
    InvalidOffset(u64),
    StorageError(String),
    SerializationError(String),
    IoError(String),
}

impl StreamError {
    /// A human-readable rendering for response bodies and logs.
    pub fn message(&self) -> (r: String)
        ensures
            self is NotFound ==> r@ == "stream not found"@,
            self is InvalidOffset ==> r@ == "invalid offset"@,
            self is StorageError ==> r@ == self->StorageError_0@,
            self is SerializationError ==> r@ == self->SerializationError_0@,
            self is IoError ==> r@ == self->IoError_0@,
    {
        match self {
            StreamError::NotFound(_) => String::from_str("stream not found"),
            StreamError::InvalidOffset(_) => String::from_str("invalid offset"),
            StreamError::StorageError(s) => s.clone(),
            StreamError::SerializationError(s) => s.clone(),
            StreamError::IoError(s) => s.clone(),
        }
    }
}

/// Outcome of evaluating `If-Match` / `If-None-Match` headers.
#[derive(Clone, Copy, PartialEq, Eq, Structural, Debug)]
pub enum ConditionalResult {
    Proceed,
    NotModified,
    PreconditionFailed,
}

/// Mode of a named stream.
#[derive(Clone, Copy, PartialEq, Eq, Structural, Debug)]
pub enum StreamMode {
    Json,
    Bytes,
}

impl Default for StreamMode {
    fn default() -> (r: Self)
        ensures
            r == StreamMode::Json,
    {
        StreamMode::Json
    }
}

/// Descriptor of a named stream.
pub struct StreamInfo {
    pub path: String,
    pub mode: StreamMode,
    pub current_offset: u64,
    pub total_bytes: u64,
    pub created_at: String,
    pub updated_at: String,
    pub metadata: Vec<(String, String)>,
    pub etag: String,
}

/// The mathematical model of a stream descriptor.
pub ghost struct StreamInfoV {
    pub path: Seq<char>,
    pub mode: StreamMode,
    pub current_offset: u64,
    pub total_bytes: u64,
    pub created_at: Seq<char>,
    pub updated_at: Seq<char>,
    pub metadata: Seq<(Seq<char>, Seq<char>)>,
    pub etag: Seq<char>,
}

/// The views of a key/value list.
pub open spec fn kv_views(s: Seq<(String, String)>) -> Seq<(Seq<char>, Seq<char>)> {
    s.map_values(|p: (String, String)| (p.0@, p.1@))
}

impl View for StreamInfo {
    type V = StreamInfoV;

    open spec fn view(&self) -> StreamInfoV {
        StreamInfoV {
            path: self.path@,
            mode: self.mode,
            current_offset: self.current_offset,
            total_bytes: self.total_bytes,
            created_at: self.created_at@,
            updated_at: self.updated_at@,
            metadata: kv_views(self.metadata@),
            etag: self.etag@,
        }
    }
}

/// Copies a key/value list so that the copy has the same model.
pub fn dup_kv_list(kv: &Vec<(String, String)>) -> (r: Vec<(String, String)>)
    ensures
        kv_views(r@) == kv_views(kv@),
{
    let mut r: Vec<(String, String)> = Vec::new();
    let mut i: usize = 0;
    while i < kv.len()
        invariant
            0 <= i <= kv@.len(),
            kv_views(r@) =~= kv_views(kv@.subrange(0, i as int)),
        decreases kv@.len() - i,
    {
        let k = kv[i].0.clone();
        let v = kv[i].1.clone();
        let ghost r0 = r@;
        r.push((k, v));
        proof {
            assert(kv_views(r@) =~= kv_views(r0).push((kv@[i as int].0@, kv@[i as int].1@)));
            assert(kv@.subrange(0, i as int + 1) =~= kv@.subrange(0, i as int).push(kv@[i as int]));
            assert(kv_views(kv@.subrange(0, i as int + 1)) =~= kv_views(
                kv@.subrange(0, i as int),
            ).push((kv@[i as int].0@, kv@[i as int].1@)));
        }
        i = i + 1;
    }
    proof {
        assert(kv@.subrange(0, i as int) =~= kv@);
    }
    r
}

impl StreamInfo {
    /// A copy holding the same model.
    pub fn duplicate(&self) -> (r: Self)
        ensures
            r@ == self@,
    {
        StreamInfo {
            path: self.path.clone(),
            mode: self.mode,
            current_offset: self.current_offset,
            total_bytes: self.total_bytes,
            created_at: self.created_at.clone(),
            updated_at: self.updated_at.clone(),
            metadata: dup_kv_list(&self.metadata),
            etag: self.etag.clone(),
        }
    }
}

/// The views of a stream-descriptor list.
pub open spec fn info_views(s: Seq<StreamInfo>) -> Seq<StreamInfoV> {
    s.map_values(|m: StreamInfo| m@)
}

/// Request body for creating a stream.
pub struct CreateStreamRequest {
    pub mode: StreamMode,
    pub metadata: Vec<(String, String)>,
}

/// Response body for creating a stream.
pub struct CreateStreamResponse {
    pub success: bool,
    pub stream: Option<StreamInfo>,
    pub error: Option<String>,
}

/// Response body for deleting a stream or a message.
pub struct DeleteStreamResponse {
    pub success: bool,
    pub error: Option<String>,
}

/// Response body for listing streams.
pub struct ListStreamsResponse {
    pub streams: Vec<StreamInfo>,
    pub total: usize,
}

/// Response body for an append.
pub struct AppendResponse {
    pub success: bool,
    pub offset: u64,
    pub etag: String,
    pub error: Option<String>,
}

/// A read of the log addressed by offsets, with range metadata.
pub struct ReadResponse {
    pub messages: Vec<StreamMessage>,
    pub start_offset: u64,
    pub end_offset: u64,
    pub total_offset: u64,
    pub has_more: bool,
}

/// Response body of a long poll.
pub struct LongPollResponse {
    pub messages: Vec<StreamMessage>,
    pub next_offset: u64,
    pub has_more: bool,
}

/// An explicit offset range taken from a `Range` header.
#[derive(Clone, Copy, PartialEq, Eq, Structural, Debug)]
pub struct OffsetRange {
    pub start: u64,
    pub end: Option<u64>,
}

/// What `OffsetRange::parse` makes of a header value: the text must be
/// `unit=start` or `unit=start-` or `unit=start-end`, with numeric bounds.
pub open spec fn parse_range_spec(s: Seq<char>) -> Option<OffsetRange> {
    let eq_parts = split_on(s, '=');
    if eq_parts.len() != 2 {
        None
    } else {
        let rp = split_on(eq_parts[1], '-');
        if rp.len() > 2 || !is_u64_numeral(rp[0]) {
            None
        } else {
            if rp.len() == 2 && rp[1].len() > 0 {
                if is_u64_numeral(rp[1]) {
                    Some(
                        OffsetRange {
                            start: dec_val(rp[0]) as u64,
                            end: Some(dec_val(rp[1]) as u64),
                        },
                    )
                } else {
                    None
                }
            } else {
                Some(OffsetRange { start: dec_val(rp[0]) as u64, end: None })
            }
        }
    }
}

impl OffsetRange {
    /// Parses a range header value such as `offsets=17-40`; the unit name is
    /// not inspected. A missing or empty upper bound means "to the end".
    pub fn parse(header: &str) -> (r: Option<OffsetRange>)
        ensures
            r == parse_range_spec(header@),
    {
        let eq_parts = split_str(header, '=');
        proof {
            assert(eq_parts@.map_values(|p: String| p@).len() == eq_parts@.len());
        }
        if eq_parts.len() != 2 {
            return None;
        }
        proof {
            assert(eq_parts@.map_values(|p: String| p@)[1] == eq_parts@[1]@);
        }
        let rp = split_str(eq_parts[1].as_str(), '-');
        proof {
            assert(rp@.map_values(|p: String| p@).len() == rp@.len());
            assert(rp@.map_values(|p: String| p@)[0] == rp@[0]@);
        }
        if rp.len() > 2 {
            return None;
        }
        let start = match parse_u64(rp[0].as_str()) {
            Some(v) => v,
            None => {
                return None;
            },
        };
        if rp.len() == 2 {
            proof {
                assert(rp@.map_values(|p: String| p@)[1] == rp@[1]@);
            }
            if rp[1].as_str().unicode_len() > 0 {
                match parse_u64(rp[1].as_str()) {
                    Some(e) => Some(OffsetRange { start, end: Some(e) }),
                    None => None,
                }
            } else {
                Some(OffsetRange { start, end: None })
            }
        } else {
            Some(OffsetRange { start, end: None })
        }
    }
}

} // verus!
