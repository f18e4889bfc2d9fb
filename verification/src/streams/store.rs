//! The message store: an in-memory append-only log with offset assignment,
//! ETag versioning, filtered range reads and a named-stream table. The
//! surrounding application mirrors the log into its database and replays it
//! through `recover` at startup.

use vstd::prelude::*;

use crate::etag::{etag_of, generate_etag};
use crate::platform::now_rfc3339;
use crate::seqx::{lemma_filter_elem_of, lemma_filter_keeps_pairwise, lemma_filter_push,
    lemma_take_of_add, pairwise, prefix_upto};
use crate::text::{lex_lt, str_eq, str_lex_lt};
use crate::streams::types::{info_views, kv_views, msg_views, ConditionalResult, OffsetRange,
    ReadResponse, StreamConfig, StreamError, StreamInfo, StreamInfoV, StreamMessage,
    StreamMessageV, StreamMode};

verus! {

/// The store's accounting measure for one payload: its UTF-8 byte length.
pub open spec fn byte_size_of(payload: Seq<char>) -> nat {
    vstd::utf8::encode_utf8(payload).len()
}

/// The UTF-8 byte length of a payload.
fn payload_size(p: &String) -> (r: usize)
    ensures
        r as nat == byte_size_of(p@),
{
    broadcast use vstd::slice::axiom_spec_len;

    p.as_str().as_bytes().len()
}

/// Total accounted bytes of a message list.
pub open spec fn total_payload_bytes(ms: Seq<StreamMessageV>) -> nat
    decreases ms.len(),
{
    if ms.len() == 0 {
        0
    } else {
        total_payload_bytes(ms.drop_last()) + byte_size_of(ms.last().payload)
    }
}

pub proof fn lemma_tpb_add(a: Seq<StreamMessageV>, b: Seq<StreamMessageV>)
    ensures
        total_payload_bytes(a + b) == total_payload_bytes(a) + total_payload_bytes(b),
    decreases b.len(),
{
    if b.len() == 0 {
        assert(a + b =~= a);
    } else {
        lemma_tpb_add(a, b.drop_last());
        assert((a + b).drop_last() =~= a + b.drop_last());
        assert((a + b).last() == b.last());
    }
}

/// Removing one element lowers the total by exactly that element's size.
pub proof fn lemma_tpb_remove(ms: Seq<StreamMessageV>, i: int)
    requires
        0 <= i < ms.len(),
    ensures
        total_payload_bytes(ms) == total_payload_bytes(ms.remove(i)) + byte_size_of(
            ms[i].payload,
        ),
{
    let left = ms.subrange(0, i);
    let mid = seq![ms[i]];
    let right = ms.subrange(i + 1, ms.len() as int);
    assert(ms =~= left + mid + right);
    assert(ms.remove(i) =~= left + right);
    lemma_tpb_add(left + mid, right);
    lemma_tpb_add(left, mid);
    lemma_tpb_add(left, right);
    assert(mid.drop_last() =~= Seq::<StreamMessageV>::empty());
    assert(total_payload_bytes(Seq::<StreamMessageV>::empty()) == 0);
    assert(mid.last() == ms[i]);
    assert(total_payload_bytes(mid) == byte_size_of(ms[i].payload));
}

/// Whether a message list holds a message with the given id.
pub open spec fn has_id(ms: Seq<StreamMessageV>, id: Seq<char>) -> bool {
    exists|i: int| 0 <= i < ms.len() && (#[trigger] ms[i]).id == id
}

/// The first index holding the given id.
pub open spec fn idx_of_id(ms: Seq<StreamMessageV>, id: Seq<char>) -> int {
    choose|i: int| 0 <= i < ms.len() && (#[trigger] ms[i]).id == id
}

/// Whether a stream list holds a descriptor with the given path.
pub open spec fn has_path(ss: Seq<StreamInfoV>, path: Seq<char>) -> bool {
    exists|i: int| 0 <= i < ss.len() && (#[trigger] ss[i]).path == path
}

/// The first index holding the given path.
pub open spec fn idx_of_path(ss: Seq<StreamInfoV>, path: Seq<char>) -> int {
    choose|i: int| 0 <= i < ss.len() && (#[trigger] ss[i]).path == path
}

/// Offset order on message models.
pub open spec fn offset_lt(a: StreamMessageV, b: StreamMessageV) -> bool {
    a.offset < b.offset
}

/// A stream descriptor as the read endpoints report it: its version fields
/// reflect the store's live counters, since every stream shares the one
/// append-only log. This is what makes a stream's ETag move with appends.
pub open spec fn live_view(
    s: StreamInfoV,
    current_offset: u64,
    total_bytes: u64,
    etag: Seq<char>,
) -> StreamInfoV {
    StreamInfoV { current_offset, total_bytes, etag, ..s }
}

/// The mathematical model of the store.
pub ghost struct StorageV {
    pub messages: Seq<StreamMessageV>,
    pub streams: Seq<StreamInfoV>,
    pub current_offset: u64,
    pub total_bytes: u64,
    pub etag: Seq<char>,
}

/// The message store. One instance owns the default stream's log, the
/// in-memory counters, and the named-stream table.
pub struct MessageStorage {
    config: StreamConfig,
    messages: Vec<StreamMessage>,
    streams: Vec<StreamInfo>,
    current_offset: u64,
    total_bytes: u64,
    etag: String,
}

impl View for MessageStorage {
    type V = StorageV;

    closed spec fn view(&self) -> StorageV {
        StorageV {
            messages: msg_views(self.messages@),
            streams: info_views(self.streams@),
            current_offset: self.current_offset,
            total_bytes: self.total_bytes,
            etag: self.etag@,
        }
    }
}

impl MessageStorage {
    /// The store's invariant: offsets are strictly increasing, at least one,
    /// and never above the counter; ids and stream paths are unique; the
    /// byte counter covers every held payload; the ETag renders the two
    /// counters.
    pub open spec fn wf(&self) -> bool {
        &&& pairwise(self@.messages, |a: StreamMessageV, b: StreamMessageV| offset_lt(a, b))
        &&& forall|i: int|
            0 <= i < self@.messages.len() ==> 1 <= (#[trigger] self@.messages[i]).offset
                <= self@.current_offset
        &&& forall|i: int, j: int|
            0 <= i < j < self@.messages.len() ==> (#[trigger] self@.messages[i]).id != (
            #[trigger] self@.messages[j]).id
        &&& forall|i: int, j: int|
            0 <= i < j < self@.streams.len() ==> (#[trigger] self@.streams[i]).path != (
            #[trigger] self@.streams[j]).path
        &&& self@.total_bytes >= total_payload_bytes(self@.messages)
        &&& self@.etag == etag_of(self@.current_offset, self@.total_bytes)
    }

    /// An empty store.
    pub fn new(config: StreamConfig) -> (r: Self)
        ensures
            r.wf(),
            r@.messages.len() == 0,
            r@.streams.len() == 0,
            r@.current_offset == 0,
            r@.total_bytes == 0,
    {
        let r = MessageStorage {
            config,
            messages: Vec::new(),
            streams: Vec::new(),
            current_offset: 0,
            total_bytes: 0,
            etag: generate_etag(0, 0),
        };
        proof {
            assert(msg_views(r.messages@) =~= Seq::<StreamMessageV>::empty());
            assert(info_views(r.streams@) =~= Seq::<StreamInfoV>::empty());
            assert(total_payload_bytes(r@.messages) == 0);
        }
        r
    }

    /// Rebuilds a store from persisted records: the log is replayed at
    /// startup. The records must arrive in offset order with unique ids;
    /// the counters are rebuilt from them.
    pub fn recover(config: StreamConfig, records: Vec<StreamMessage>) -> (r: Self)
        requires
            pairwise(msg_views(records@), |a: StreamMessageV, b: StreamMessageV| offset_lt(a, b)),
            forall|i: int|
                0 <= i < records@.len() ==> 1 <= (#[trigger] msg_views(records@)[i]).offset,
            forall|i: int, j: int|
                0 <= i < j < records@.len() ==> (#[trigger] msg_views(records@)[i]).id != (
                #[trigger] msg_views(records@)[j]).id,
            total_payload_bytes(msg_views(records@)) <= u64::MAX,
        ensures
            r.wf(),
            r@.messages == msg_views(records@),
            r@.streams.len() == 0,
            r@.current_offset == if records@.len() == 0 {
                0u64
            } else {
                msg_views(records@).last().offset
            },
            r@.total_bytes == total_payload_bytes(msg_views(records@)),
    {
        let mut total: u64 = 0;
        let mut i: usize = 0;
        let max_offset: u64 = if records.len() == 0 {
            0
        } else {
            records[records.len() - 1].offset
        };
        while i < records.len()
            invariant
                0 <= i <= records@.len(),
                total as nat == total_payload_bytes(msg_views(records@).take(i as int)),
                total_payload_bytes(msg_views(records@)) <= u64::MAX,
            decreases records@.len() - i,
        {
            let size = payload_size(&records[i].payload) as u64;
            proof {
                let all = msg_views(records@);
                assert(all.take(i as int + 1).drop_last() =~= all.take(i as int));
                assert(all.take(i as int + 1).last() == all[i as int]);
                assert(all[i as int].payload == records@[i as int].payload@);
                assert(size as nat == byte_size_of(all[i as int].payload));
                assert(total as nat + size as nat == total_payload_bytes(all.take(i as int + 1)));
                lemma_tpb_prefix_le(all, i as int + 1);
                assert(all.take(all.len() as int) =~= all);
            }
            total = total + size;
            i = i + 1;
        }
        proof {
            assert(msg_views(records@).take(records@.len() as int) =~= msg_views(records@));
        }
        let etag = generate_etag(max_offset, total);
        let r = MessageStorage {
            config,
            messages: records,
            streams: Vec::new(),
            current_offset: max_offset,
            total_bytes: total,
            etag,
        };
        proof {
            assert(info_views(r.streams@) =~= Seq::<StreamInfoV>::empty());
            let ms = r@.messages;
            assert forall|k: int| 0 <= k < ms.len() implies 1 <= (#[trigger] ms[k]).offset
                <= r@.current_offset by {
                if k < ms.len() - 1 {
                    assert(offset_lt(ms[k], ms[ms.len() - 1]));
                }
            }
        }
        r
    }

    /// The stock configuration the store was built with.
    pub fn config(&self) -> &StreamConfig {
        &self.config
    }

    /// The current ETag text.
    pub fn etag(&self) -> (r: String)
        ensures
            r@ == self@.etag,
    {
        self.etag.clone()
    }

    /// The byte counter.
    pub fn total_bytes(&self) -> (r: u64)
        ensures
            r == self@.total_bytes,
    {
        self.total_bytes
    }

    /// The offset counter: the offset most recently assigned, not a count.
    pub fn current_offset(&self) -> (r: u64)
        ensures
            r == self@.current_offset,
    {
        self.current_offset
    }

    /// How many messages the log holds right now.
    pub fn message_count(&self) -> (r: usize)
        ensures
            r == self@.messages.len(),
    {
        self.messages.len()
    }

    /// Standard conditional-request semantics over the current ETag:
    /// a failing `If-Match` wins with 412; then a holding `If-None-Match`
    /// answers 304; otherwise the request proceeds. `*` matches anything.
    pub fn check_etag(&self, if_match: Option<&str>, if_none_match: Option<&str>) -> (r:
        ConditionalResult)
        ensures
            r == check_etag_spec(
                self@.etag,
                match if_match {
                    Some(m) => Some(m@),
                    None => None,
                },
                match if_none_match {
                    Some(m) => Some(m@),
                    None => None,
                },
            ),
    {
        proof {
            reveal_strlit("*");
            assert("*"@ =~= seq!['*']);
        }
        if let Some(expected) = if_match {
            if !str_eq(expected, "*") && !str_eq(expected, self.etag.as_str()) {
                return ConditionalResult::PreconditionFailed;
            }
        }
        if let Some(expected) = if_none_match {
            if str_eq(expected, "*") || str_eq(expected, self.etag.as_str()) {
                return ConditionalResult::NotModified;
            }
        }
        ConditionalResult::Proceed
    }

    /// Appends one message: assigns the next offset, accounts its payload,
    /// refreshes the ETag and returns the stored record. The offset counter
    /// moves only on success, so consecutive successful appends emit
    /// consecutive offsets. Fails exactly when the id is already present or
    /// a counter would overflow; failure leaves the store unchanged.
    pub fn append(&mut self, message: StreamMessage) -> (r: Result<StreamMessage, StreamError>)
        requires
            old(self).wf(),
        ensures
            final(self).wf(),
            r is Ok <==> can_append(old(self)@, message@),
            r is Ok ==> appended(old(self)@, final(self)@, message@) && r->Ok_0@ == (
            StreamMessageV { offset: (old(self)@.current_offset + 1) as u64, ..message@ }),
            r is Err ==> final(self)@ == old(self)@ && (r->Err_0 matches StreamError::StorageError(
                m,
            ) && m@ == (if has_id(old(self)@.messages, message@.id) {
                "message id already present"@
            } else if old(self)@.current_offset == u64::MAX {
                "offset counter exhausted"@
            } else {
                "byte counter exhausted"@
            })),
    {
        proof {
            reveal_strlit("message id already present");
            reveal_strlit("offset counter exhausted");
            reveal_strlit("byte counter exhausted");
        }
        if self.index_of_id(message.id.as_str()).is_some() {
            return Err(StreamError::StorageError(String::from_str(
                "message id already present",
            )));
        }
        if self.current_offset == u64::MAX {
            return Err(StreamError::StorageError(String::from_str("offset counter exhausted")));
        }
        let size = payload_size(&message.payload) as u64;
        if size > u64::MAX - self.total_bytes {
            return Err(StreamError::StorageError(String::from_str("byte counter exhausted")));
        }
        let mut stored = message;
        stored.offset = self.current_offset + 1;
        let result = stored.duplicate();
        let ghost pre = self@;
        self.current_offset = self.current_offset + 1;
        self.total_bytes = self.total_bytes + size;
        self.etag = generate_etag(self.current_offset, self.total_bytes);
        self.messages.push(stored);
        proof {
            assert(self@.messages =~= pre.messages.push(result@));
            assert(self@.messages.drop_last() =~= pre.messages);
            assert forall|i: int, j: int| 0 <= i < j < self@.messages.len() implies offset_lt(
                #[trigger] self@.messages[i],
                #[trigger] self@.messages[j],
            ) by {
                if j < self@.messages.len() - 1 {
                    assert(self@.messages[i] == pre.messages[i]);
                    assert(self@.messages[j] == pre.messages[j]);
                } else {
                    assert(self@.messages[i] == pre.messages[i]);
                    assert(pre.messages[i].offset <= pre.current_offset);
                }
            }
        }
        Ok(result)
    }

    /// The first position holding the given message id.
    fn index_of_id(&self, id: &str) -> (r: Option<usize>)
        ensures
            match r {
                Some(i) => i < self@.messages.len() && self@.messages[i as int].id == id@,
                None => !has_id(self@.messages, id@),
            },
    {
        let mut i: usize = 0;
        while i < self.messages.len()
            invariant
                0 <= i <= self@.messages.len(),
                forall|j: int| 0 <= j < i ==> (#[trigger] self@.messages[j]).id != id@,
            decreases self@.messages.len() - i,
        {
            if str_eq(self.messages[i].id.as_str(), id) {
                return Some(i);
            }
            i = i + 1;
        }
        None
    }
}

/// A filter over the log, as the read endpoints use it: everything past an
/// offset, optionally narrowed to a conversation or to one user's traffic.
#[derive(Clone, Copy)]
pub enum MsgQuery<'a> {
    FromOffset(u64),
    Conversation(&'a str, &'a str, u64),
    ForUser(&'a str, u64),
}

/// Whether a message lies in the conversation between two users.
pub open spec fn in_conversation(m: StreamMessageV, a: Seq<char>, b: Seq<char>) -> bool {
    (m.sender_id == a && m.recipient_id == b) || (m.sender_id == b && m.recipient_id == a)
}

/// Whether a message was sent by or addressed to a user.
pub open spec fn involves_user(m: StreamMessageV, u: Seq<char>) -> bool {
    m.sender_id == u || m.recipient_id == u
}

/// Whether a message satisfies a query.
pub open spec fn query_matches(q: MsgQuery<'_>, m: StreamMessageV) -> bool {
    match q {
        MsgQuery::FromOffset(off) => m.offset > off,
        MsgQuery::Conversation(a, b, off) => m.offset > off && in_conversation(m, a@, b@),
        MsgQuery::ForUser(u, off) => m.offset > off && involves_user(m, u@),
    }
}

/// Evaluates a query on one message.
fn query_matches_exec(q: &MsgQuery<'_>, m: &StreamMessage) -> (r: bool)
    ensures
        r == query_matches(*q, m@),
{
    match q {
        MsgQuery::FromOffset(off) => m.offset > *off,
        MsgQuery::Conversation(a, b, off) => m.offset > *off && ((str_eq(m.sender_id.as_str(), a)
            && str_eq(m.recipient_id.as_str(), b)) || (str_eq(m.sender_id.as_str(), b) && str_eq(
            m.recipient_id.as_str(),
            a,
        ))),
        MsgQuery::ForUser(u, off) => m.offset > *off && (str_eq(m.sender_id.as_str(), u) || str_eq(
            m.recipient_id.as_str(),
            u,
        )),
    }
}

impl MessageStorage {
    /// The first `limit` messages matching a query, in log order.
    pub fn query(&self, q: MsgQuery<'_>, limit: usize) -> (r: Vec<StreamMessage>)
        ensures
            msg_views(r@) == prefix_upto(
                self@.messages.filter(|m: StreamMessageV| query_matches(q, m)),
                limit as int,
            ),
    {
        let ghost all = self@.messages;
        let ghost pred = |m: StreamMessageV| query_matches(q, m);
        let mut out: Vec<StreamMessage> = Vec::new();
        let mut i: usize = 0;
        proof {
            assert(all.take(0).filter(pred) =~= Seq::<StreamMessageV>::empty());
            assert(msg_views(out@) =~= Seq::<StreamMessageV>::empty());
        }
        while i < self.messages.len()
            invariant
                0 <= i <= all.len(),
                all == msg_views(self.messages@),
                all.len() == self.messages@.len(),
                pred == (|m: StreamMessageV| query_matches(q, m)),
                out@.len() <= limit,
                msg_views(out@) == all.take(i as int).filter(pred),
            decreases all.len() - i,
        {
            if out.len() == limit {
                proof {
                    assert(all =~= all.take(i as int) + all.skip(i as int));
                    Seq::filter_distributes_over_add(all.take(i as int), all.skip(i as int), pred);
                    lemma_take_of_add(
                        all.take(i as int).filter(pred),
                        all.skip(i as int).filter(pred),
                    );
                    assert(prefix_upto(all.filter(pred), limit as int) == msg_views(out@));
                }
                return out;
            }
            let matched = query_matches_exec(&q, &self.messages[i]);
            proof {
                assert(all.take(i as int + 1) =~= all.take(i as int).push(all[i as int]));
                lemma_filter_push(all.take(i as int), all[i as int], pred);
            }
            if matched {
                let ghost out0 = out@;
                out.push(self.messages[i].duplicate());
                proof {
                    assert(msg_views(out@) =~= msg_views(out0).push(all[i as int]));
                }
            }
            i = i + 1;
        }
        proof {
            assert(all.take(all.len() as int) =~= all);
            Seq::lemma_filter_len(all, pred);
        }
        out
    }

    /// Messages with offsets strictly above the given one, oldest first,
    /// at most `limit` of them.
    pub fn get_from_offset(&self, offset: u64, limit: usize) -> (r: Vec<StreamMessage>)
        ensures
            msg_views(r@) == prefix_upto(
                self@.messages.filter(|m: StreamMessageV| m.offset > offset),
                limit as int,
            ),
    {
        let r = self.query(MsgQuery::FromOffset(offset), limit);
        proof {
            assert((|m: StreamMessageV| query_matches(MsgQuery::FromOffset(offset), m)) =~= (
            |m: StreamMessageV| m.offset > offset));
        }
        r
    }

    /// The conversation between two users past an offset, oldest first.
    pub fn get_conversation(
        &self,
        user_id: &str,
        other_user_id: &str,
        from_offset: u64,
        limit: usize,
    ) -> (r: Vec<StreamMessage>)
        ensures
            msg_views(r@) == prefix_upto(
                self@.messages.filter(
                    |m: StreamMessageV|
                        m.offset > from_offset && in_conversation(m, user_id@, other_user_id@),
                ),
                limit as int,
            ),
    {
        let r = self.query(MsgQuery::Conversation(user_id, other_user_id, from_offset), limit);
        proof {
            assert((|m: StreamMessageV|
                query_matches(
                    MsgQuery::Conversation(user_id, other_user_id, from_offset),
                    m,
                )) =~= (|m: StreamMessageV|
                m.offset > from_offset && in_conversation(m, user_id@, other_user_id@)));
        }
        r
    }

    /// Everything one user sent or received past an offset, oldest first.
    pub fn get_user_messages(&self, user_id: &str, from_offset: u64, limit: usize) -> (r: Vec<
        StreamMessage,
    >)
        ensures
            msg_views(r@) == prefix_upto(
                self@.messages.filter(
                    |m: StreamMessageV|
                        m.offset > from_offset && involves_user(m, user_id@),
                ),
                limit as int,
            ),
    {
        let r = self.query(MsgQuery::ForUser(user_id, from_offset), limit);
        proof {
            assert((|m: StreamMessageV|
                query_matches(MsgQuery::ForUser(user_id, from_offset), m)) =~= (
            |m: StreamMessageV| m.offset > from_offset && involves_user(m, user_id@)));
        }
        r
    }

    /// The message with the given id, if the log holds one.
    pub fn get_by_id(&self, id: &str) -> (r: Option<StreamMessage>)
        ensures
            r is Some <==> has_id(self@.messages, id@),
            r is Some ==> r->0@.id == id@ && self@.messages.contains(r->0@),
    {
        match self.index_of_id(id) {
            Some(i) => {
                proof {
                    assert(self@.messages[i as int].id == id@);
                }
                Some(self.messages[i].duplicate())
            },
            None => None,
        }
    }

    /// A range read with `Content-Range` metadata. The reported end is the
    /// offset of the last returned message (or the range start when nothing
    /// matched); `has_more` says that end fell short of what was asked for.
    pub fn get_range(&self, range: &OffsetRange, limit: usize) -> (r: ReadResponse)
        ensures
            msg_views(r.messages@) == prefix_upto(
                self@.messages.filter(|m: StreamMessageV| m.offset > range.start),
                limit as int,
            ),
            r.start_offset == range.start,
            r.total_offset == self@.current_offset,
            r.end_offset == if msg_views(r.messages@).len() == 0 {
                range.start
            } else {
                msg_views(r.messages@).last().offset
            },
            r.has_more == (r.end_offset < requested_end(*range, self@.current_offset)),
    {
        let current = self.current_offset;
        let messages = self.get_from_offset(range.start, limit);
        let actual_end: u64 = if messages.len() == 0 {
            range.start
        } else {
            messages[messages.len() - 1].offset
        };
        let cap: u64 = match range.end {
            Some(e) => {
                if e < current {
                    e
                } else {
                    current
                }
            },
            None => current,
        };
        proof {
            if messages@.len() > 0 {
                assert(msg_views(messages@).last() == messages@[messages@.len() - 1]@);
            }
        }
        ReadResponse {
            messages,
            start_offset: range.start,
            end_offset: actual_end,
            total_offset: current,
            has_more: actual_end < cap,
        }
    }
}

impl MessageStorage {
    /// Deletes the message with the given id, if any: its bytes leave the
    /// counter and the ETag moves, but the offset counter stays — offsets
    /// are log positions, not a count, so `current_offset` never goes back.
    pub fn delete_message(&mut self, id: &str) -> (r: bool)
        requires
            old(self).wf(),
        ensures
            final(self).wf(),
            r == has_id(old(self)@.messages, id@),
            !r ==> final(self)@ == old(self)@,
            r ==> ({
                let i = idx_of_id(old(self)@.messages, id@);
                &&& final(self)@.messages == old(self)@.messages.remove(i)
                &&& final(self)@.total_bytes == old(self)@.total_bytes - byte_size_of(
                    old(self)@.messages[i].payload,
                )
                &&& final(self)@.current_offset == old(self)@.current_offset
                &&& final(self)@.etag == etag_of(
                    final(self)@.current_offset,
                    final(self)@.total_bytes,
                )
                &&& final(self)@.streams == old(self)@.streams
            }),
    {
        let found = self.index_of_id(id);
        match found {
            None => false,
            Some(i) => {
                proof {
                    let ms = self@.messages;
                    let k = idx_of_id(ms, id@);
                    assert(0 <= k < ms.len() && ms[k].id == id@);
                    if k != i as int {
                        assert(ms[k].id != ms[i as int].id);
                    }
                    lemma_tpb_remove(ms, i as int);
                    lemma_tpb_prefix_le(ms, ms.len() as int);
                }
                let size = payload_size(&self.messages[i].payload) as u64;
                proof {
                    let ms = self@.messages;
                    assert(total_payload_bytes(ms.remove(i as int)) + size as nat
                        == total_payload_bytes(ms));
                }
                let ghost pre = self@;
                let _removed = self.messages.remove(i);
                self.total_bytes = self.total_bytes - size;
                self.etag = generate_etag(self.current_offset, self.total_bytes);
                proof {
                    assert(self@.messages =~= pre.messages.remove(i as int));
                    let ms = pre.messages;
                    let post = self@.messages;
                    assert forall|a: int, b: int| 0 <= a < b < post.len() implies offset_lt(
                        #[trigger] post[a],
                        #[trigger] post[b],
                    ) && post[a].id != post[b].id by {
                        let a0 = if a < i as int {
                            a
                        } else {
                            a + 1
                        };
                        let b0 = if b < i as int {
                            b
                        } else {
                            b + 1
                        };
                        assert(post[a] == ms[a0]);
                        assert(post[b] == ms[b0]);
                    }
                    assert forall|a: int| 0 <= a < post.len() implies 1 <= (
                    #[trigger] post[a]).offset <= self@.current_offset by {
                        let a0 = if a < i as int {
                            a
                        } else {
                            a + 1
                        };
                        assert(post[a] == ms[a0]);
                    }
                }
                true
            },
        }
    }

    /// Removes every message whose timestamp text sorts before the cutoff,
    /// comparing timestamps as text, the way the persistent log's rows are
    /// pruned by their timestamp column. The
    /// counters and the ETag stay as they are: pruning is not a delete.
    pub fn cleanup_old_messages(&mut self, cutoff: &str) -> (r: usize)
        requires
            old(self).wf(),
        ensures
            final(self).wf(),
            final(self)@.messages == old(self)@.messages.filter(
                |m: StreamMessageV| !lex_lt(m.timestamp, cutoff@),
            ),
            final(self)@.current_offset == old(self)@.current_offset,
            final(self)@.total_bytes == old(self)@.total_bytes,
            final(self)@.etag == old(self)@.etag,
            final(self)@.streams == old(self)@.streams,
            r == old(self)@.messages.len() - final(self)@.messages.len(),
    {
        let ghost all = self@.messages;
        let ghost pred = |m: StreamMessageV| !lex_lt(m.timestamp, cutoff@);
        let before = self.messages.len();
        let mut kept: Vec<StreamMessage> = Vec::new();
        let mut i: usize = 0;
        proof {
            assert(all.take(0).filter(pred) =~= Seq::<StreamMessageV>::empty());
            assert(msg_views(kept@) =~= Seq::<StreamMessageV>::empty());
        }
        while i < self.messages.len()
            invariant
                0 <= i <= all.len(),
                all == msg_views(self.messages@),
                all.len() == self.messages@.len(),
                pred == (|m: StreamMessageV| !lex_lt(m.timestamp, cutoff@)),
                msg_views(kept@) == all.take(i as int).filter(pred),
            decreases all.len() - i,
        {
            let stale = str_lex_lt(self.messages[i].timestamp.as_str(), cutoff);
            proof {
                assert(all.take(i as int + 1) =~= all.take(i as int).push(all[i as int]));
                lemma_filter_push(all.take(i as int), all[i as int], pred);
            }
            if !stale {
                let ghost kept0 = kept@;
                kept.push(self.messages[i].duplicate());
                proof {
                    assert(msg_views(kept@) =~= msg_views(kept0).push(all[i as int]));
                }
            }
            i = i + 1;
        }
        proof {
            assert(all.take(all.len() as int) =~= all);
        }
        self.messages = kept;
        proof {
            let post = self@.messages;
            lemma_filter_keeps_pairwise(
                all,
                pred,
                |a: StreamMessageV, b: StreamMessageV| offset_lt(a, b),
            );
            assert(pairwise(all, |a: StreamMessageV, b: StreamMessageV| a.id != b.id));
            lemma_filter_keeps_pairwise(
                all,
                pred,
                |a: StreamMessageV, b: StreamMessageV| a.id != b.id,
            );
            lemma_filter_elem_of(all, pred);
            assert forall|a: int| 0 <= a < post.len() implies 1 <= (#[trigger] post[a]).offset
                <= self@.current_offset by {
                assert(all.contains(post[a]));
                let k = choose|k: int| 0 <= k < all.len() && all[k] == post[a];
                assert(1 <= all[k].offset <= self@.current_offset);
            }
            lemma_tpb_filter_le(all, pred);
            Seq::lemma_filter_len(all, pred);
        }
        before - self.messages.len()
    }

    /// The first position holding the given stream path.
    fn index_of_path(&self, path: &str) -> (r: Option<usize>)
        ensures
            match r {
                Some(i) => i < self@.streams.len() && self@.streams[i as int].path == path@,
                None => !has_path(self@.streams, path@),
            },
    {
        let mut i: usize = 0;
        while i < self.streams.len()
            invariant
                0 <= i <= self@.streams.len(),
                forall|j: int| 0 <= j < i ==> (#[trigger] self@.streams[j]).path != path@,
            decreases self@.streams.len() - i,
        {
            if str_eq(self.streams[i].path.as_str(), path) {
                return Some(i);
            }
            i = i + 1;
        }
        None
    }

    /// Creates a named stream, stamped with the log's live counters and
    /// ETag. Fails exactly when the path is already taken; failure changes
    /// nothing.
    pub fn create_stream(
        &mut self,
        path: &str,
        mode: StreamMode,
        metadata: Vec<(String, String)>,
    ) -> (r: Result<StreamInfo, StreamError>)
        requires
            old(self).wf(),
        ensures
            final(self).wf(),
            r is Ok <==> !has_path(old(self)@.streams, path@),
            r is Err ==> final(self)@ == old(self)@ && r->Err_0 is StorageError,
            r is Ok ==> ({
                let info = r->Ok_0@;
                &&& info.path == path@
                &&& info.mode == mode
                &&& info.current_offset == old(self)@.current_offset
                &&& info.total_bytes == old(self)@.total_bytes
                &&& info.metadata == kv_views(metadata@)
                &&& info.etag == old(self)@.etag
                &&& info.created_at == info.updated_at
                &&& final(self)@.streams == old(self)@.streams.push(info)
                &&& final(self)@.messages == old(self)@.messages
                &&& final(self)@.current_offset == old(self)@.current_offset
                &&& final(self)@.total_bytes == old(self)@.total_bytes
                &&& final(self)@.etag == old(self)@.etag
            }),
    {
        proof {
            reveal_strlit("stream already exists");
        }
        if self.index_of_path(path).is_some() {
            return Err(StreamError::StorageError(String::from_str("stream already exists")));
        }
        let now = now_rfc3339();
        let info = StreamInfo {
            path: path.to_owned(),
            mode,
            current_offset: self.current_offset,
            total_bytes: self.total_bytes,
            created_at: now.clone(),
            updated_at: now,
            metadata,
            etag: self.etag.clone(),
        };
        let result = info.duplicate();
        let ghost pre = self@;
        self.streams.push(info);
        proof {
            assert(self@.streams =~= pre.streams.push(result@));
            assert forall|a: int, b: int| 0 <= a < b < self@.streams.len() implies (
            #[trigger] self@.streams[a]).path != (#[trigger] self@.streams[b]).path by {
                if b < self@.streams.len() - 1 {
                    assert(self@.streams[a] == pre.streams[a]);
                    assert(self@.streams[b] == pre.streams[b]);
                } else {
                    assert(self@.streams[a] == pre.streams[a]);
                    assert(!has_path(pre.streams, path@));
                }
            }
        }
        Ok(result)
    }

    /// The descriptor of a named stream, if it exists, carrying the log's
    /// live counters and ETag: a conditional read therefore sees a new
    /// version after every append or delete.
    pub fn get_stream(&self, path: &str) -> (r: Option<StreamInfo>)
        requires
            self.wf(),
        ensures
            r is Some <==> has_path(self@.streams, path@),
            r is Some ==> r->0@ == live_view(
                self@.streams[idx_of_path(self@.streams, path@)],
                self@.current_offset,
                self@.total_bytes,
                self@.etag,
            ) && r->0@.path == path@,
    {
        match self.index_of_path(path) {
            Some(i) => {
                proof {
                    let ss = self@.streams;
                    let k = idx_of_path(ss, path@);
                    assert(0 <= k < ss.len() && ss[k].path == path@);
                    if k != i as int {
                        assert(ss[k].path != ss[i as int].path);
                    }
                }
                let mut found = self.streams[i].duplicate();
                found.current_offset = self.current_offset;
                found.total_bytes = self.total_bytes;
                found.etag = self.etag.clone();
                Some(found)
            },
            None => None,
        }
    }

    /// All named streams, most recently created first, each carrying the
    /// log's live counters and ETag.
    pub fn list_streams(&self) -> (r: Vec<StreamInfo>)
        ensures
            info_views(r@) == self@.streams.reverse().map_values(
                |s: StreamInfoV|
                    live_view(s, self@.current_offset, self@.total_bytes, self@.etag),
            ),
    {
        let ghost refresh = |s: StreamInfoV|
            live_view(s, self@.current_offset, self@.total_bytes, self@.etag);
        let mut out: Vec<StreamInfo> = Vec::new();
        let mut i: usize = self.streams.len();
        proof {
            assert(info_views(out@) =~~= self@.streams.skip(i as int).reverse().map_values(
                refresh,
            ));
        }
        while i > 0
            invariant
                0 <= i <= self@.streams.len(),
                self@.streams.len() == self.streams@.len(),
                refresh == (|s: StreamInfoV|
                    live_view(s, self@.current_offset, self@.total_bytes, self@.etag)),
                info_views(out@) == self@.streams.skip(i as int).reverse().map_values(refresh),
            decreases i,
        {
            i = i - 1;
            let ghost out0 = out@;
            let mut entry = self.streams[i].duplicate();
            entry.current_offset = self.current_offset;
            entry.total_bytes = self.total_bytes;
            entry.etag = self.etag.clone();
            out.push(entry);
            proof {
                assert(info_views(out@) =~= info_views(out0).push(
                    refresh(self@.streams[i as int]),
                ));
                assert(self@.streams.skip(i as int).reverse() =~= self@.streams.skip(
                    i as int + 1,
                ).reverse().push(self@.streams[i as int]));
                assert(self@.streams.skip(i as int).reverse().map_values(refresh)
                    =~= self@.streams.skip(i as int + 1).reverse().map_values(refresh).push(
                    refresh(self@.streams[i as int]),
                ));
            }
        }
        proof {
            assert(self@.streams.skip(0) =~= self@.streams);
        }
        out
    }

    /// Removes a named stream. Answers whether one was there.
    pub fn delete_stream(&mut self, path: &str) -> (r: bool)
        requires
            old(self).wf(),
        ensures
            final(self).wf(),
            r == has_path(old(self)@.streams, path@),
            !r ==> final(self)@ == old(self)@,
            r ==> ({
                &&& final(self)@.streams == old(self)@.streams.remove(
                    idx_of_path(old(self)@.streams, path@),
                )
                &&& final(self)@.messages == old(self)@.messages
                &&& final(self)@.current_offset == old(self)@.current_offset
                &&& final(self)@.total_bytes == old(self)@.total_bytes
                &&& final(self)@.etag == old(self)@.etag
            }),
    {
        match self.index_of_path(path) {
            None => false,
            Some(i) => {
                proof {
                    let ss = self@.streams;
                    let k = idx_of_path(ss, path@);
                    assert(0 <= k < ss.len() && ss[k].path == path@);
                    if k != i as int {
                        assert(ss[k].path != ss[i as int].path);
                    }
                }
                let ghost pre = self@;
                let _removed = self.streams.remove(i);
                proof {
                    assert(self@.streams =~= pre.streams.remove(i as int));
                    let post = self@.streams;
                    assert forall|a: int, b: int| 0 <= a < b < post.len() implies (
                    #[trigger] post[a]).path != (#[trigger] post[b]).path by {
                        let a0 = if a < i as int {
                            a
                        } else {
                            a + 1
                        };
                        let b0 = if b < i as int {
                            b
                        } else {
                            b + 1
                        };
                        assert(post[a] == pre.streams[a0]);
                        assert(post[b] == pre.streams[b0]);
                    }
                }
                true
            },
        }
    }

    /// Replaces a named stream's metadata and touches its update time.
    /// Answers the refreshed descriptor, or nothing when the path is unknown.
    pub fn update_stream_metadata(&mut self, path: &str, metadata: Vec<(String, String)>) -> (r:
        Option<StreamInfo>)
        requires
            old(self).wf(),
        ensures
            final(self).wf(),
            r is Some <==> has_path(old(self)@.streams, path@),
            r is None ==> final(self)@ == old(self)@,
            r is Some ==> ({
                let i = idx_of_path(old(self)@.streams, path@);
                let info = r->0@;
                &&& info.path == old(self)@.streams[i].path
                &&& info.mode == old(self)@.streams[i].mode
                &&& info.current_offset == old(self)@.current_offset
                &&& info.total_bytes == old(self)@.total_bytes
                &&& info.created_at == old(self)@.streams[i].created_at
                &&& info.etag == old(self)@.etag
                &&& info.metadata == kv_views(metadata@)
                &&& final(self)@.streams == old(self)@.streams.update(i, info)
                &&& final(self)@.messages == old(self)@.messages
                &&& final(self)@.current_offset == old(self)@.current_offset
                &&& final(self)@.total_bytes == old(self)@.total_bytes
                &&& final(self)@.etag == old(self)@.etag
            }),
    {
        match self.index_of_path(path) {
            None => None,
            Some(i) => {
                proof {
                    let ss = self@.streams;
                    let k = idx_of_path(ss, path@);
                    assert(0 <= k < ss.len() && ss[k].path == path@);
                    if k != i as int {
                        assert(ss[k].path != ss[i as int].path);
                    }
                }
                let ghost pre = self@;
                let mut info = self.streams.remove(i);
                info.metadata = metadata;
                info.updated_at = now_rfc3339();
                info.current_offset = self.current_offset;
                info.total_bytes = self.total_bytes;
                info.etag = self.etag.clone();
                let result = info.duplicate();
                self.streams.insert(i, info);
                proof {
                    assert(self@.streams =~= pre.streams.update(i as int, result@));
                    let post = self@.streams;
                    assert forall|a: int, b: int| 0 <= a < b < post.len() implies (
                    #[trigger] post[a]).path != (#[trigger] post[b]).path by {
                        assert(pre.streams[a].path != pre.streams[b].path);
                        assert(post[a].path == pre.streams[a].path);
                        assert(post[b].path == pre.streams[b].path);
                    }
                }
                Some(result)
            },
        }
    }

    /// The default stream's descriptor, reflecting the live counters.
    pub fn get_stream_info(&self) -> (r: StreamInfo)
        ensures
            r@.path == "default"@,
            r@.mode == StreamMode::Json,
            r@.current_offset == self@.current_offset,
            r@.total_bytes == self@.total_bytes,
            r@.etag == self@.etag,
            r@.metadata.len() == 0,
    {
        let r = StreamInfo {
            path: String::from_str("default"),
            mode: StreamMode::Json,
            current_offset: self.current_offset,
            total_bytes: self.total_bytes,
            created_at: String::new(),
            updated_at: now_rfc3339(),
            metadata: Vec::new(),
            etag: self.etag.clone(),
        };
        proof {
            assert(kv_views(r.metadata@) =~= Seq::<(Seq<char>, Seq<char>)>::empty());
        }
        r
    }
}

/// Filtering a list never raises its byte total.
pub proof fn lemma_tpb_filter_le(ms: Seq<StreamMessageV>, pred: spec_fn(StreamMessageV) -> bool)
    ensures
        total_payload_bytes(ms.filter(pred)) <= total_payload_bytes(ms),
    decreases ms.len(),
{
    reveal(Seq::filter);
    if ms.len() > 0 {
        let dl = ms.drop_last();
        lemma_tpb_filter_le(dl, pred);
        if pred(ms.last()) {
            assert(ms.filter(pred) == dl.filter(pred).push(ms.last()));
            assert(dl.filter(pred).push(ms.last()).drop_last() =~= dl.filter(pred));
        }
    }
}

/// The upper offset a range read was asked to reach: the requested end
/// clipped to the log's current offset.
pub open spec fn requested_end(range: OffsetRange, current: u64) -> u64 {
    match range.end {
        Some(e) => if e < current {
            e
        } else {
            current
        },
        None => current,
    }
}

/// Whether an append of this message can succeed on this store state.
pub open spec fn can_append(v: StorageV, m: StreamMessageV) -> bool {
    &&& !has_id(v.messages, m.id)
    &&& v.current_offset < u64::MAX
    &&& v.total_bytes + byte_size_of(m.payload) <= u64::MAX
}

/// The append transition: the stored record is the input with the next
/// offset; both counters advance together and the ETag tracks them.
pub open spec fn appended(pre: StorageV, post: StorageV, m: StreamMessageV) -> bool {
    &&& post.messages == pre.messages.push(
        StreamMessageV { offset: (pre.current_offset + 1) as u64, ..m },
    )
    &&& post.current_offset == pre.current_offset + 1
    &&& post.total_bytes == pre.total_bytes + byte_size_of(m.payload)
    &&& post.etag == etag_of(post.current_offset, post.total_bytes)
    &&& post.streams == pre.streams
}

/// The conditional-request decision for a current ETag and the two headers.
pub open spec fn check_etag_spec(
    etag: Seq<char>,
    if_match: Option<Seq<char>>,
    if_none_match: Option<Seq<char>>,
) -> ConditionalResult {
    if if_match is Some && if_match->0 != seq!['*'] && if_match->0 != etag {
        ConditionalResult::PreconditionFailed
    } else if if_none_match is Some && (if_none_match->0 == seq!['*'] || if_none_match->0
        == etag) {
        ConditionalResult::NotModified
    } else {
        ConditionalResult::Proceed
    }
}

/// Offset monotonicity: across any two consecutive successful appends, the
/// emitted offsets rise by exactly one — strictly increasing, with no gap.
/// Together with the store's invariant (offsets strictly increase along the
/// log) this pins the whole history of emitted offsets.
pub proof fn lemma_append_offsets_gapless(
    s0: StorageV,
    s1: StorageV,
    s2: StorageV,
    m1: StreamMessageV,
    m2: StreamMessageV,
)
    requires
        appended(s0, s1, m1),
        appended(s1, s2, m2),
    ensures
        s1.messages.last().offset == s0.current_offset + 1,
        s2.messages.last().offset == s1.messages.last().offset + 1,
{
}

/// Totals over prefixes never exceed the total over the whole list.
pub proof fn lemma_tpb_prefix_le(ms: Seq<StreamMessageV>, i: int)
    requires
        0 <= i <= ms.len(),
    ensures
        total_payload_bytes(ms.take(i)) <= total_payload_bytes(ms),
    decreases ms.len() - i,
{
    if i == ms.len() {
        assert(ms.take(i) =~= ms);
    } else {
        lemma_tpb_prefix_le(ms, i + 1);
        assert(ms.take(i + 1).drop_last() =~= ms.take(i));
    }
}

} // verus!
