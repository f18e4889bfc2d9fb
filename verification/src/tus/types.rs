//! Types of the resumable-upload subsystem: upload records, configuration
//! and the closed error set of the tus protocol.

use vstd::prelude::*;

use crate::platform::{now_rfc3339, now_unix_ms};
use crate::streams::types::kv_views;
use crate::text::str_eq;

verus! {

/// The protocol version the server speaks and demands.
pub fn tus_version() -> (r: &'static str)
    ensures
        r@ == "1.0.0"@,
{
    "1.0.0"
}

/// The protocol extensions the server advertises, comma-joined as the
/// `Tus-Extension` header carries them.
pub fn tus_extensions() -> (r: &'static str)
    ensures
        r@ == "creation,creation-with-upload,termination,checksum,expiration"@,
{
    "creation,creation-with-upload,termination,checksum,expiration"
}

/// The first value in a key/value list under the given key.
pub open spec fn kv_get(kvs: Seq<(Seq<char>, Seq<char>)>, key: Seq<char>) -> Option<Seq<char>>
    decreases kvs.len(),
{
    if kvs.len() == 0 {
        None
    } else if kvs[0].0 == key {
        Some(kvs[0].1)
    } else {
        kv_get(kvs.drop_first(), key)
    }
}

/// Looks a key up in a key/value list, first match wins.
pub fn kv_lookup<'a>(kvs: &'a Vec<(String, String)>, key: &str) -> (r: Option<&'a String>)
    ensures
        match r {
            Some(v) => kv_get(kv_views(kvs@), key@) == Some(v@),
            None => kv_get(kv_views(kvs@), key@) is None,
        },
{
    let ghost all = kv_views(kvs@);
    let mut i: usize = 0;
    proof {
        assert(all.skip(0) =~= all);
    }
    while i < kvs.len()
        invariant
            0 <= i <= kvs@.len(),
            all == kv_views(kvs@),
            all.len() == kvs@.len(),
            kv_get(all.skip(i as int), key@) == kv_get(all, key@),
        decreases kvs@.len() - i,
    {
        proof {
            assert(all.skip(i as int)[0] == all[i as int]);
            assert(all.skip(i as int).drop_first() =~= all.skip(i as int + 1));
        }
        if str_eq(kvs[i].0.as_str(), key) {
            return Some(&kvs[i].1);
        }
        i = i + 1;
    }
    proof {
        assert(all.skip(i as int) =~= Seq::<(Seq<char>, Seq<char>)>::empty());
    }
    None
}

/// One resumable upload. `updated_at_ms` mirrors `updated_at` as epoch
/// milliseconds, so that expiry is decided by arithmetic rather than by
/// re-parsing the timestamp text.
pub struct TusUpload {
    pub id: String,
    pub length: u64,
    pub offset: u64,
    pub metadata: Vec<(String, String)>,
    pub created_at: String,
    pub updated_at: String,
    pub updated_at_ms: i64,
    pub is_complete: bool,
    pub final_path: Option<String>,
}

/// The mathematical model of an upload record.
pub ghost struct TusUploadV {
    pub id: Seq<char>,
    pub length: u64,
    pub offset: u64,
    pub metadata: Seq<(Seq<char>, Seq<char>)>,
    pub created_at: Seq<char>,
    pub updated_at: Seq<char>,
    pub updated_at_ms: i64,
    pub is_complete: bool,
    pub final_path: Option<Seq<char>>,
}

impl View for TusUpload {
    type V = TusUploadV;

    open spec fn view(&self) -> TusUploadV {
        TusUploadV {
            id: self.id@,
            length: self.length,
            offset: self.offset,
            metadata: kv_views(self.metadata@),
            created_at: self.created_at@,
            updated_at: self.updated_at@,
            updated_at_ms: self.updated_at_ms,
            is_complete: self.is_complete,
            final_path: match self.final_path {
                Some(p) => Some(p@),
                None => None,
            },
        }
    }
}

/// The views of an upload list.
pub open spec fn upload_views(s: Seq<TusUpload>) -> Seq<TusUploadV> {
    s.map_values(|u: TusUpload| u@)
}

impl TusUpload {
    /// A fresh record: nothing received yet, not complete, stamped with the
    /// current time for both creation and update.
    pub fn new(id: String, length: u64, metadata: Vec<(String, String)>) -> (r: Self)
        ensures
            r@.id == id@,
            r@.length == length,
            r@.offset == 0,
            r@.metadata == kv_views(metadata@),
            r@.created_at == r@.updated_at,
            !r@.is_complete,
            r@.final_path is None,
    {
        let now = now_rfc3339();
        let now_ms = now_unix_ms();
        TusUpload {
            id,
            length,
            offset: 0,
            metadata,
            created_at: now.clone(),
            updated_at: now,
            updated_at_ms: now_ms,
            is_complete: false,
            final_path: None,
        }
    }

    /// The `filename` metadata entry, if any.
    pub fn filename(&self) -> (r: Option<&String>)
        ensures
            match r {
                Some(v) => kv_get(self@.metadata, "filename"@) == Some(v@),
                None => kv_get(self@.metadata, "filename"@) is None,
            },
    {
        kv_lookup(&self.metadata, "filename")
    }

    /// The `filetype` metadata entry, if any.
    pub fn filetype(&self) -> (r: Option<&String>)
        ensures
            match r {
                Some(v) => kv_get(self@.metadata, "filetype"@) == Some(v@),
                None => kv_get(self@.metadata, "filetype"@) is None,
            },
    {
        kv_lookup(&self.metadata, "filetype")
    }

    /// The `senderId` metadata entry, if any.
    pub fn sender_id(&self) -> (r: Option<&String>)
        ensures
            match r {
                Some(v) => kv_get(self@.metadata, "senderId"@) == Some(v@),
                None => kv_get(self@.metadata, "senderId"@) is None,
            },
    {
        kv_lookup(&self.metadata, "senderId")
    }

    /// The `recipientId` metadata entry, if any.
    pub fn recipient_id(&self) -> (r: Option<&String>)
        ensures
            match r {
                Some(v) => kv_get(self@.metadata, "recipientId"@) == Some(v@),
                None => kv_get(self@.metadata, "recipientId"@) is None,
            },
    {
        kv_lookup(&self.metadata, "recipientId")
    }

    /// A copy holding the same model.
    pub fn duplicate(&self) -> (r: Self)
        ensures
            r@ == self@,
    {
        TusUpload {
            id: self.id.clone(),
            length: self.length,
            offset: self.offset,
            metadata: crate::streams::types::dup_kv_list(&self.metadata),
            created_at: self.created_at.clone(),
            updated_at: self.updated_at.clone(),
            updated_at_ms: self.updated_at_ms,
            is_complete: self.is_complete,
            final_path: match &self.final_path {
                Some(p) => Some(p.clone()),
                None => None,
            },
        }
    }
}

/// Configuration of the upload store.
pub struct TusConfig {
    pub upload_dir: String,
    pub max_size: u64,
    pub chunk_size: u64,
    pub expiration_secs: u64,
}

impl Default for TusConfig {
    /// The stock configuration: ten-gigabyte ceiling, five-megabyte chunks,
    /// one day until a stale upload expires.
    fn default() -> (r: Self)
        ensures
            r.upload_dir@ == "uploads"@,
            r.max_size == 10 * 1024 * 1024 * 1024,
            r.chunk_size == 5 * 1024 * 1024,
            r.expiration_secs == 24 * 60 * 60,
    {
        TusConfig {
            upload_dir: String::from_str("uploads"),
            max_size: 10 * 1024 * 1024 * 1024,
            chunk_size: 5 * 1024 * 1024,
            expiration_secs: 24 * 60 * 60,
        }
    }
}

/// The closed error set of the upload subsystem.
#[derive(Debug)]
pub enum TusError {
    NotFound(String),
    InvalidOffset { expected: u64, actual: u64 },
    FileTooLarge { size: u64, max: u64 },
    InvalidContentType,
    MissingHeader(String),
    IoError(String),
    StorageError(String),
    ChecksumMismatch,
}

} // verus!
