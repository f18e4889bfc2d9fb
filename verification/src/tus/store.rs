//! The upload store: in-memory upload records with offset tracking,
//! checksum verification before any state moves, atomic-by-design
//! finalization naming, and recovery from persisted sidecar records.
//! The surrounding application performs the matching file operations
//! (create, seek-write, rename, remove) after each successful transition.

use vstd::prelude::*;

use crate::platform::{base64_encode, base64_of, now_rfc3339, now_unix_ms, push_char, sha256,
    sha256_of};
use crate::seqx::{lemma_filter_push, pairwise};
use crate::text::{str_eq, trimmed, trim_spaces};
use crate::tus::types::{kv_get, upload_views, TusConfig, TusError, TusUpload, TusUploadV};

verus! {

/// Characters a finalized file name may keep: ASCII letters and digits,
/// dot, dash, underscore and space.
pub open spec fn is_allowed_name_char(c: char) -> bool {
    ||| 'a' <= c <= 'z'
    ||| 'A' <= c <= 'Z'
    ||| '0' <= c <= '9'
    ||| c == '.'
    ||| c == '-'
    ||| c == '_'
    ||| c == ' '
}

/// A path separator, either direction.
pub open spec fn is_path_sep(c: char) -> bool {
    c == '/' || c == '\\'
}

/// What follows the last path separator.
pub open spec fn basename(s: Seq<char>) -> Seq<char>
    decreases s.len(),
{
    if s.len() == 0 {
        s
    } else if is_path_sep(s.last()) {
        Seq::empty()
    } else {
        basename(s.drop_last()).push(s.last())
    }
}

/// A name with its trailing path separators dropped, so that the last
/// non-empty path component decides the file name.
pub open spec fn strip_trailing_seps(s: Seq<char>) -> Seq<char>
    decreases s.len(),
{
    if s.len() > 0 && is_path_sep(s.last()) {
        strip_trailing_seps(s.drop_last())
    } else {
        s
    }
}

/// What the sanitizer makes of a client-supplied file name: the last
/// non-empty path component ("unknown" when there is none), stripped of
/// every disallowed character, then trimmed.
pub open spec fn sanitized(s: Seq<char>) -> Seq<char> {
    let t = strip_trailing_seps(s);
    let base = if basename(t).len() == 0 {
        "unknown"@
    } else {
        basename(t)
    };
    trimmed(base.filter(|c: char| is_allowed_name_char(c)))
}

/// Whether an exec character is a path separator.
fn is_path_sep_char(c: char) -> (r: bool)
    ensures
        r == is_path_sep(c),
{
    c == '/' || c == '\\'
}

/// Whether an exec character may stay in a file name.
fn is_allowed_name_char_exec(c: char) -> (r: bool)
    ensures
        r == is_allowed_name_char(c),
{
    let v = c as u32;
    (97 <= v && v <= 122) || (65 <= v && v <= 90) || (48 <= v && v <= 57) || c == '.' || c == '-'
        || c == '_' || c == ' '
}

/// Normalizes a client-supplied file name for the completed directory:
/// path components fall away and only harmless characters stay.
pub fn sanitize_filename(filename: &str) -> (r: String)
    ensures
        r@ == sanitized(filename@),
{
    let len = filename.unicode_len();
    // Drop trailing separators: the last non-empty component names the file.
    let mut end: usize = len;
    while end > 0 && is_path_sep_char(filename.get_char(end - 1))
        invariant
            0 <= end <= len,
            len == filename@.len(),
            forall|j: int| end <= j < len ==> is_path_sep(#[trigger] filename@[j]),
        decreases end,
    {
        end = end - 1;
    }
    let ghost stripped = filename@.take(end as int);
    proof {
        lemma_strip_trailing(filename@, end as int);
        assert(strip_trailing_seps(filename@) == stripped);
    }
    // Find what follows the last remaining path separator.
    let mut start: usize = end;
    let mut found_sep = false;
    while start > 0 && !found_sep
        invariant
            0 <= start <= end <= len,
            len == filename@.len(),
            forall|j: int| start <= j < end ==> !is_path_sep(#[trigger] filename@[j]),
            found_sep ==> start > 0 && is_path_sep(filename@[start as int - 1]),
        decreases start + (if found_sep { 0int } else { 1int }),
    {
        let c = filename.get_char(start - 1);
        if c == '/' || c == '\\' {
            found_sep = true;
        } else {
            start = start - 1;
        }
    }
    proof {
        assert(start == 0 || found_sep);
        assert(forall|j: int| start <= j < stripped.len() ==> #[trigger] stripped[j]
            == filename@[j] && !is_path_sep(stripped[j]));
        if start > 0 {
            assert(stripped[start as int - 1] == filename@[start as int - 1]);
            lemma_basename_after_sep(stripped, start as int);
        } else {
            lemma_basename_no_sep(stripped, 0);
            assert(stripped.take(0) =~= Seq::<char>::empty());
            assert(basename(Seq::<char>::empty()) =~= Seq::<char>::empty());
            assert(Seq::<char>::empty() + stripped.skip(0) =~= stripped.skip(0));
        }
        assert(basename(stripped) == stripped.skip(start as int));
        assert(filename@.subrange(start as int, end as int) =~= stripped.skip(start as int));
    }
    let base = filename.substring_char(start, end);
    let base_owned = if base.unicode_len() == 0 {
        proof {
            reveal_strlit("unknown");
        }
        String::from_str("unknown")
    } else {
        base.to_owned()
    };
    let ghost base_view = if basename(stripped).len() == 0 {
        "unknown"@
    } else {
        basename(stripped)
    };
    proof {
        assert(base_owned@ == base_view);
    }
    // Keep only the allowed characters.
    let blen = base_owned.as_str().unicode_len();
    let mut kept = String::new();
    let mut i: usize = 0;
    let ghost pred = |c: char| is_allowed_name_char(c);
    proof {
        assert(base_view.take(0).filter(pred) =~= Seq::<char>::empty());
    }
    while i < blen
        invariant
            0 <= i <= blen,
            blen == base_view.len(),
            base_owned@ == base_view,
            pred == (|c: char| is_allowed_name_char(c)),
            kept@ == base_view.take(i as int).filter(pred),
        decreases blen - i,
    {
        let c = base_owned.as_str().get_char(i);
        proof {
            assert(base_view.take(i as int + 1) =~= base_view.take(i as int).push(
                base_view[i as int],
            ));
            lemma_filter_push(base_view.take(i as int), base_view[i as int], pred);
        }
        if is_allowed_name_char_exec(c) {
            push_char(&mut kept, c);
        }
        i = i + 1;
    }
    proof {
        assert(base_view.take(blen as int) =~= base_view);
    }
    trim_spaces(kept.as_str())
}

/// On a separator-free tail, `basename` splits at any point of the tail.
proof fn lemma_basename_no_sep(s: Seq<char>, start: int)
    requires
        0 <= start <= s.len(),
        forall|j: int| start <= j < s.len() ==> !is_path_sep(#[trigger] s[j]),
    ensures
        basename(s) == basename(s.take(start)) + s.skip(start),
    decreases s.len() - start,
{
    if start == s.len() {
        assert(s.take(start) =~= s);
        assert(s.skip(start) =~= Seq::<char>::empty());
        assert(basename(s) + Seq::<char>::empty() =~= basename(s));
    } else {
        lemma_basename_no_sep(s, start + 1);
        assert(s.take(start + 1).drop_last() =~= s.take(start));
        assert(s.take(start + 1).last() == s[start]);
        assert(basename(s.take(start + 1)) == basename(s.take(start)).push(s[start]));
        assert(basename(s.take(start)).push(s[start]) + s.skip(start + 1) =~= basename(
            s.take(start),
        ) + s.skip(start));
    }
}

/// Dropping the all-separator tail is taking the prefix before it.
proof fn lemma_strip_trailing(s: Seq<char>, end: int)
    requires
        0 <= end <= s.len(),
        forall|j: int| end <= j < s.len() ==> is_path_sep(#[trigger] s[j]),
        end > 0 ==> !is_path_sep(s[end - 1]),
    ensures
        strip_trailing_seps(s) == s.take(end),
    decreases s.len() - end,
{
    if end == s.len() {
        assert(s.take(end) =~= s);
    } else {
        assert(s.drop_last() =~= s.take(s.len() - 1));
        lemma_strip_trailing(s.take(s.len() - 1), end);
        assert(s.take(s.len() - 1).take(end) =~= s.take(end));
    }
}

proof fn lemma_basename_after_sep(s: Seq<char>, start: int)
    requires
        0 < start <= s.len(),
        is_path_sep(s[start - 1]),
        forall|j: int| start <= j < s.len() ==> !is_path_sep(#[trigger] s[j]),
    ensures
        basename(s) == s.skip(start),
{
    lemma_basename_no_sep(s, start);
    assert(s.take(start).last() == s[start - 1]);
    assert(basename(s.take(start)) =~= Seq::<char>::empty());
    assert(Seq::<char>::empty() + s.skip(start) =~= s.skip(start));
}

/// Whether an upload list holds a record with the given id.
pub open spec fn has_uid(us: Seq<TusUploadV>, id: Seq<char>) -> bool {
    exists|i: int| 0 <= i < us.len() && (#[trigger] us[i]).id == id
}

/// The first index holding the given id.
pub open spec fn uid_idx(us: Seq<TusUploadV>, id: Seq<char>) -> int {
    choose|i: int| 0 <= i < us.len() && (#[trigger] us[i]).id == id
}

/// The file name a finished upload is stored under: the sanitized
/// `filename` metadata entry, or `<id>.bin` when none was supplied.
pub open spec fn final_name(u: TusUploadV) -> Seq<char> {
    match kv_get(u.metadata, "filename"@) {
        Some(f) => sanitized(f),
        None => sanitized(u.id + ".bin"@),
    }
}

/// Whether an upload has outlived the expiration window at the given time.
pub open spec fn upload_expired(u: TusUploadV, now_ms: i64, expiration_secs: u64) -> bool {
    now_ms - u.updated_at_ms > expiration_secs * 1000
}

/// An upload list with the expired records dropped.
pub open spec fn without_expired(us: Seq<TusUploadV>, now_ms: i64, expiration_secs: u64) -> Seq<
    TusUploadV,
> {
    us.filter(|u: TusUploadV| !upload_expired(u, now_ms, expiration_secs))
}

/// The mathematical model of the upload store.
pub ghost struct FileStorageV {
    pub uploads: Seq<TusUploadV>,
    pub max_size: u64,
    pub expiration_secs: u64,
    pub partial_dir: Seq<char>,
    pub complete_dir: Seq<char>,
}

/// The upload store: every in-flight upload's record, with the directory
/// names the application keeps the matching files under.
pub struct FileStorage {
    config: TusConfig,
    uploads: Vec<TusUpload>,
    partial_dir: String,
    complete_dir: String,
}

impl View for FileStorage {
    type V = FileStorageV;

    closed spec fn view(&self) -> FileStorageV {
        FileStorageV {
            uploads: upload_views(self.uploads@),
            max_size: self.config.max_size,
            expiration_secs: self.config.expiration_secs,
            partial_dir: self.partial_dir@,
            complete_dir: self.complete_dir@,
        }
    }
}

impl FileStorage {
    /// The store's invariant: ids are unique; an offset never passes the
    /// declared length; exactly the complete records carry a final path,
    /// and a complete record has received everything.
    pub open spec fn wf(&self) -> bool {
        &&& forall|i: int, j: int|
            0 <= i < j < self@.uploads.len() ==> (#[trigger] self@.uploads[i]).id != (
            #[trigger] self@.uploads[j]).id
        &&& forall|i: int|
            0 <= i < self@.uploads.len() ==> (#[trigger] self@.uploads[i]).offset
                <= self@.uploads[i].length
        &&& forall|i: int|
            0 <= i < self@.uploads.len() ==> ((#[trigger] self@.uploads[i]).is_complete
                ==> self@.uploads[i].offset == self@.uploads[i].length
                && self@.uploads[i].final_path is Some)
        &&& forall|i: int|
            0 <= i < self@.uploads.len() ==> (!(#[trigger] self@.uploads[i]).is_complete
                ==> self@.uploads[i].final_path is None)
    }

    /// An empty store over the two directories under the given base.
    pub fn new(config: TusConfig, base_dir: &str) -> (r: Self)
        ensures
            r.wf(),
            r@.uploads.len() == 0,
            r@.max_size == config.max_size,
            r@.expiration_secs == config.expiration_secs,
            r@.partial_dir == base_dir@ + "/partial"@,
            r@.complete_dir == base_dir@ + "/complete"@,
    {
        let mut partial_dir = base_dir.to_owned();
        partial_dir.append("/partial");
        let mut complete_dir = base_dir.to_owned();
        complete_dir.append("/complete");
        let r = FileStorage { config, uploads: Vec::new(), partial_dir, complete_dir };
        proof {
            assert(upload_views(r.uploads@) =~= Seq::<TusUploadV>::empty());
        }
        r
    }

    /// Rebuilds the store from the sidecar records the application read back
    /// from disk. Only records still in flight are kept: completion's commit
    /// point is the rename, so complete records need no recovery. Records
    /// whose fields contradict the invariant are dropped as corrupt.
    pub fn recover(config: TusConfig, base_dir: &str, records: Vec<TusUpload>) -> (r: Self)
        requires
            forall|i: int, j: int|
                0 <= i < j < records@.len() ==> (#[trigger] upload_views(records@)[i]).id != (
                #[trigger] upload_views(records@)[j]).id,
        ensures
            r.wf(),
            r@.uploads == upload_views(records@).filter(
                |u: TusUploadV| !u.is_complete && u.offset <= u.length && u.final_path is None,
            ),
            r@.max_size == config.max_size,
            r@.expiration_secs == config.expiration_secs,
            r@.partial_dir == base_dir@ + "/partial"@,
            r@.complete_dir == base_dir@ + "/complete"@,
    {
        let ghost all = upload_views(records@);
        let ghost pred = |u: TusUploadV| !u.is_complete && u.offset <= u.length && u.final_path
            is None;
        let mut kept: Vec<TusUpload> = Vec::new();
        let mut i: usize = 0;
        proof {
            assert(all.take(0).filter(pred) =~= Seq::<TusUploadV>::empty());
            assert(upload_views(kept@) =~= Seq::<TusUploadV>::empty());
        }
        while i < records.len()
            invariant
                0 <= i <= all.len(),
                all == upload_views(records@),
                all.len() == records@.len(),
                pred == (|u: TusUploadV|
                    !u.is_complete && u.offset <= u.length && u.final_path is None),
                upload_views(kept@) == all.take(i as int).filter(pred),
            decreases all.len() - i,
        {
            let u = &records[i];
            let keep = !u.is_complete && u.offset <= u.length && u.final_path.is_none();
            proof {
                assert(all.take(i as int + 1) =~= all.take(i as int).push(all[i as int]));
                lemma_filter_push(all.take(i as int), all[i as int], pred);
            }
            if keep {
                let ghost kept0 = kept@;
                kept.push(u.duplicate());
                proof {
                    assert(upload_views(kept@) =~= upload_views(kept0).push(all[i as int]));
                }
            }
            i = i + 1;
        }
        proof {
            assert(all.take(all.len() as int) =~= all);
        }
        let mut r = Self::new(config, base_dir);
        r.uploads = kept;
        proof {
            let post = r@.uploads;
            assert(pairwise(all, |a: TusUploadV, b: TusUploadV| a.id != b.id));
            crate::seqx::lemma_filter_keeps_pairwise(
                all,
                pred,
                |a: TusUploadV, b: TusUploadV| a.id != b.id,
            );
            crate::seqx::lemma_filter_elem_of(all, pred);
            assert forall|k: int| 0 <= k < post.len() implies pred(#[trigger] post[k]) by {
                Seq::lemma_filter_pred(all, pred, k);
            }
        }
        r
    }

    /// Where the partial bytes of an upload live.
    pub fn partial_path(&self, id: &str) -> (r: String)
        ensures
            r@ == self@.partial_dir + "/"@ + id@ + ".part"@,
    {
        let mut r = self.partial_dir.clone();
        r.append("/");
        r.append(id);
        r.append(".part");
        r
    }

    /// Where the metadata sidecar of an upload lives.
    pub fn meta_path(&self, id: &str) -> (r: String)
        ensures
            r@ == self@.partial_dir + "/"@ + id@ + ".json"@,
    {
        let mut r = self.partial_dir.clone();
        r.append("/");
        r.append(id);
        r.append(".json");
        r
    }

    /// Where a finished file of the given name lives.
    pub fn complete_path(&self, filename: &str) -> (r: String)
        ensures
            r@ == self@.complete_dir + "/"@ + filename@,
    {
        let mut r = self.complete_dir.clone();
        r.append("/");
        r.append(filename);
        r
    }

    /// The configuration the store was built with.
    pub fn config(&self) -> &TusConfig {
        &self.config
    }

    /// How many uploads are currently tracked.
    pub fn active_upload_count(&self) -> (r: usize)
        ensures
            r == self@.uploads.len(),
    {
        self.uploads.len()
    }

    /// The first position holding the given upload id.
    fn index_of_uid(&self, id: &str) -> (r: Option<usize>)
        ensures
            match r {
                Some(i) => i < self@.uploads.len() && self@.uploads[i as int].id == id@,
                None => !has_uid(self@.uploads, id@),
            },
    {
        let mut i: usize = 0;
        while i < self.uploads.len()
            invariant
                0 <= i <= self@.uploads.len(),
                forall|j: int| 0 <= j < i ==> (#[trigger] self@.uploads[j]).id != id@,
            decreases self@.uploads.len() - i,
        {
            if str_eq(self.uploads[i].id.as_str(), id) {
                return Some(i);
            }
            i = i + 1;
        }
        None
    }

    /// Registers a new upload of the declared length. Fails exactly when the
    /// declaration exceeds the configured ceiling; an existing record under
    /// the same id is replaced, with the insert-replaces semantics of a
    /// keyed table.
    pub fn create_upload(
        &mut self,
        id: String,
        length: u64,
        metadata: Vec<(String, String)>,
    ) -> (r: Result<TusUpload, TusError>)
        requires
            old(self).wf(),
        ensures
            final(self).wf(),
            r is Ok <==> length <= old(self)@.max_size,
            r is Err ==> final(self)@ == old(self)@ && (r->Err_0 matches TusError::FileTooLarge {
                size,
                max,
            } && size == length && max == old(self)@.max_size),
            r is Ok ==> ({
                let rec = r->Ok_0@;
                &&& rec.id == id@
                &&& rec.length == length
                &&& rec.offset == 0
                &&& rec.metadata == crate::streams::types::kv_views(metadata@)
                &&& !rec.is_complete
                &&& rec.final_path is None
                &&& final(self)@.uploads == if has_uid(old(self)@.uploads, id@) {
                    old(self)@.uploads.update(uid_idx(old(self)@.uploads, id@), rec)
                } else {
                    old(self)@.uploads.push(rec)
                }
                &&& final(self)@.max_size == old(self)@.max_size
                &&& final(self)@.expiration_secs == old(self)@.expiration_secs
                &&& final(self)@.partial_dir == old(self)@.partial_dir
                &&& final(self)@.complete_dir == old(self)@.complete_dir
            }),
    {
        if length > self.config.max_size {
            return Err(TusError::FileTooLarge { size: length, max: self.config.max_size });
        }
        let upload = TusUpload::new(id, length, metadata);
        let result = upload.duplicate();
        let found = self.index_of_uid(upload.id.as_str());
        let ghost pre = self@;
        match found {
            Some(i) => {
                proof {
                    let us = pre.uploads;
                    let k = uid_idx(us, upload@.id);
                    assert(0 <= k < us.len() && us[k].id == upload@.id);
                    if k != i as int {
                        assert(us[k].id != us[i as int].id);
                    }
                }
                let _old = self.uploads.remove(i);
                self.uploads.insert(i, upload);
                proof {
                    assert(self@.uploads =~= pre.uploads.update(i as int, result@));
                    lemma_unique_ids_update(pre.uploads, i as int, result@);
                }
            },
            None => {
                self.uploads.push(upload);
                proof {
                    assert(self@.uploads =~= pre.uploads.push(result@));
                    assert forall|a: int, b: int| 0 <= a < b < self@.uploads.len() implies (
                    #[trigger] self@.uploads[a]).id != (#[trigger] self@.uploads[b]).id by {
                        if b < self@.uploads.len() - 1 {
                            assert(self@.uploads[a] == pre.uploads[a]);
                            assert(self@.uploads[b] == pre.uploads[b]);
                        } else {
                            assert(self@.uploads[a] == pre.uploads[a]);
                        }
                    }
                }
            },
        }
        Ok(result)
    }

    /// The record of an upload, or `NotFound`.
    pub fn get_upload(&self, id: &str) -> (r: Result<TusUpload, TusError>)
        requires
            self.wf(),
        ensures
            r is Ok <==> has_uid(self@.uploads, id@),
            r is Ok ==> r->Ok_0@ == self@.uploads[uid_idx(self@.uploads, id@)],
            r is Err ==> (r->Err_0 matches TusError::NotFound(missing) && missing@ == id@),
    {
        match self.index_of_uid(id) {
            Some(i) => {
                proof {
                    let us = self@.uploads;
                    let k = uid_idx(us, id@);
                    assert(0 <= k < us.len() && us[k].id == id@);
                    if k != i as int {
                        assert(us[k].id != us[i as int].id);
                    }
                }
                Ok(self.uploads[i].duplicate())
            },
            None => Err(TusError::NotFound(id.to_owned())),
        }
    }

    /// Accepts one chunk. The offset must equal the record's; the chunk must
    /// not write past the declared length (checked first, so an over-long
    /// chunk is refused as too large even when its checksum is also wrong);
    /// a supplied checksum is then verified before any state moves, so a
    /// failing PATCH leaves the offset untouched. On the chunk that reaches
    /// the declared length the record completes and its final path is fixed.
    /// Returns the new offset.
    pub fn write_chunk(
        &mut self,
        id: &str,
        offset: u64,
        data: &[u8],
        checksum: Option<&str>,
    ) -> (r: Result<u64, TusError>)
        requires
            old(self).wf(),
        ensures
            final(self).wf(),
            r is Ok <==> write_accepted(old(self)@, id@, offset, data@, match checksum {
                Some(c) => Some(c@),
                None => None,
            }),
            r is Err ==> final(self)@ == old(self)@,
            !has_uid(old(self)@.uploads, id@) ==> (r matches Err(TusError::NotFound(missing))
                && missing@ == id@),
            has_uid(old(self)@.uploads, id@) && offset != old(self)@.uploads[uid_idx(
                old(self)@.uploads,
                id@,
            )].offset ==> (r matches Err(TusError::InvalidOffset { expected, actual }) && expected
                == old(self)@.uploads[uid_idx(old(self)@.uploads, id@)].offset && actual == offset),
            ({
                let us = old(self)@.uploads;
                let i = uid_idx(us, id@);
                has_uid(us, id@) && offset == us[i].offset && data@.len() > us[i].length
                    - us[i].offset
            }) ==> r matches Err(TusError::FileTooLarge { .. }),
            ({
                let us = old(self)@.uploads;
                let i = uid_idx(us, id@);
                has_uid(us, id@) && offset == us[i].offset && data@.len() <= us[i].length
                    - us[i].offset && (match checksum {
                    Some(c) => c@ != checksum_text(data@),
                    None => false,
                })
            }) ==> r matches Err(TusError::ChecksumMismatch),
            r is Ok ==> ({
                let us = old(self)@.uploads;
                let i = uid_idx(us, id@);
                let rec = us[i];
                let new_rec = final(self)@.uploads[i];
                let new_offset = rec.offset + data@.len();
                &&& r->Ok_0 == new_offset
                &&& final(self)@.uploads == us.update(i, new_rec)
                &&& new_rec.id == rec.id
                &&& new_rec.length == rec.length
                &&& new_rec.metadata == rec.metadata
                &&& new_rec.created_at == rec.created_at
                &&& new_rec.offset == new_offset
                &&& new_rec.is_complete == (new_offset == rec.length)
                &&& new_rec.final_path == if new_offset == rec.length {
                    Some(old(self)@.complete_dir + "/"@ + final_name(rec))
                } else {
                    None::<Seq<char>>
                }
                &&& final(self)@.max_size == old(self)@.max_size
                &&& final(self)@.expiration_secs == old(self)@.expiration_secs
                &&& final(self)@.partial_dir == old(self)@.partial_dir
                &&& final(self)@.complete_dir == old(self)@.complete_dir
            }),
    {
        let found = self.index_of_uid(id);
        let i = match found {
            Some(i) => i,
            None => {
                return Err(TusError::NotFound(id.to_owned()));
            },
        };
        proof {
            let us = self@.uploads;
            let k = uid_idx(us, id@);
            assert(0 <= k < us.len() && us[k].id == id@);
            if k != i as int {
                assert(us[k].id != us[i as int].id);
            }
        }
        let expected = self.uploads[i].offset;
        if offset != expected {
            return Err(TusError::InvalidOffset { expected, actual: offset });
        }
        let room = self.uploads[i].length - expected;
        if data.len() as u64 > room {
            let size = if data.len() as u64 <= u64::MAX - offset {
                offset + data.len() as u64
            } else {
                u64::MAX
            };
            return Err(TusError::FileTooLarge { size, max: self.uploads[i].length });
        }
        if let Some(given) = checksum {
            let computed = compute_checksum(data);
            if !str_eq(given, computed.as_str()) {
                return Err(TusError::ChecksumMismatch);
            }
        }
        let new_offset = offset + data.len() as u64;
        let ghost pre = self@;
        let mut rec = self.uploads.remove(i);
        rec.offset = new_offset;
        rec.updated_at = now_rfc3339();
        rec.updated_at_ms = now_unix_ms();
        if new_offset == rec.length {
            rec.is_complete = true;
            let name = match rec.filename() {
                Some(f) => {
                    let f2 = f.clone();
                    sanitize_filename(f2.as_str())
                },
                None => {
                    let mut base = rec.id.clone();
                    base.append(".bin");
                    sanitize_filename(base.as_str())
                },
            };
            rec.final_path = Some(self.complete_path(name.as_str()));
        }
        self.uploads.insert(i, rec);
        proof {
            let new_rec = self@.uploads[i as int];
            assert(self@.uploads =~= pre.uploads.update(i as int, new_rec));
            lemma_unique_ids_update(pre.uploads, i as int, new_rec);
        }
        Ok(new_offset)
    }

    /// Forgets an upload, if it is known; deleting the unknown is a no-op,
    /// so termination stays idempotent.
    pub fn delete_upload(&mut self, id: &str) -> (r: Result<(), TusError>)
        requires
            old(self).wf(),
        ensures
            final(self).wf(),
            r is Ok,
            has_uid(old(self)@.uploads, id@) ==> final(self)@.uploads == old(self)@.uploads.remove(uid_idx(old(self)@.uploads, id@)),
            !has_uid(old(self)@.uploads, id@) ==> final(self)@ == old(self)@,
            final(self)@.max_size == old(self)@.max_size,
            final(self)@.expiration_secs == old(self)@.expiration_secs,
            final(self)@.partial_dir == old(self)@.partial_dir,
            final(self)@.complete_dir == old(self)@.complete_dir,
    {
        match self.index_of_uid(id) {
            None => Ok(()),
            Some(i) => {
                proof {
                    let us = self@.uploads;
                    let k = uid_idx(us, id@);
                    assert(0 <= k < us.len() && us[k].id == id@);
                    if k != i as int {
                        assert(us[k].id != us[i as int].id);
                    }
                }
                let ghost pre = self@;
                let _removed = self.uploads.remove(i);
                proof {
                    assert(self@.uploads =~= pre.uploads.remove(i as int));
                    lemma_unique_ids_remove(pre.uploads, i as int);
                }
                Ok(())
            },
        }
    }

    /// Drops every record whose last update lies further back than the
    /// expiration window, measured at the given time. Returns how many left.
    pub fn cleanup_expired_at(&mut self, now_ms: i64) -> (r: usize)
        requires
            old(self).wf(),
        ensures
            final(self).wf(),
            final(self)@.uploads == without_expired(
                old(self)@.uploads,
                now_ms,
                old(self)@.expiration_secs,
            ),
            r == old(self)@.uploads.len() - final(self)@.uploads.len(),
            final(self)@.max_size == old(self)@.max_size,
            final(self)@.expiration_secs == old(self)@.expiration_secs,
            final(self)@.partial_dir == old(self)@.partial_dir,
            final(self)@.complete_dir == old(self)@.complete_dir,
    {
        let ghost exp = self@.expiration_secs;
        let ghost all = self@.uploads;
        let ghost pred = |u: TusUploadV| !upload_expired(u, now_ms, exp);
        let before = self.uploads.len();
        let mut kept: Vec<TusUpload> = Vec::new();
        let mut i: usize = 0;
        proof {
            assert(all.take(0).filter(pred) =~= Seq::<TusUploadV>::empty());
            assert(upload_views(kept@) =~= Seq::<TusUploadV>::empty());
        }
        while i < self.uploads.len()
            invariant
                0 <= i <= all.len(),
                all == upload_views(self.uploads@),
                all.len() == self.uploads@.len(),
                exp == self@.expiration_secs,
                pred == (|u: TusUploadV| !upload_expired(u, now_ms, exp)),
                upload_views(kept@) == all.take(i as int).filter(pred),
            decreases all.len() - i,
        {
            let age: i128 = now_ms as i128 - self.uploads[i].updated_at_ms as i128;
            let window: i128 = self.config.expiration_secs as i128 * 1000;
            proof {
                assert(all.take(i as int + 1) =~= all.take(i as int).push(all[i as int]));
                lemma_filter_push(all.take(i as int), all[i as int], pred);
            }
            if !(age > window) {
                let ghost kept0 = kept@;
                kept.push(self.uploads[i].duplicate());
                proof {
                    assert(upload_views(kept@) =~= upload_views(kept0).push(all[i as int]));
                }
            }
            i = i + 1;
        }
        proof {
            assert(all.take(all.len() as int) =~= all);
        }
        self.uploads = kept;
        proof {
            assert(pairwise(all, |a: TusUploadV, b: TusUploadV| a.id != b.id));
            crate::seqx::lemma_filter_keeps_pairwise(
                all,
                pred,
                |a: TusUploadV, b: TusUploadV| a.id != b.id,
            );
            crate::seqx::lemma_filter_elem_of(all, pred);
            Seq::lemma_filter_len(all, pred);
        }
        before - self.uploads.len()
    }

    /// Reads the clock and drops what has expired by it.
    pub fn cleanup_expired(&mut self) -> (r: usize)
        requires
            old(self).wf(),
        ensures
            final(self).wf(),
            exists|now_ms: i64|
                final(self)@.uploads == #[trigger] without_expired(
                    old(self)@.uploads,
                    now_ms,
                    old(self)@.expiration_secs,
                ),
            r == old(self)@.uploads.len() - final(self)@.uploads.len(),
            final(self)@.max_size == old(self)@.max_size,
            final(self)@.expiration_secs == old(self)@.expiration_secs,
            final(self)@.partial_dir == old(self)@.partial_dir,
            final(self)@.complete_dir == old(self)@.complete_dir,
    {
        let now_ms = now_unix_ms();
        self.cleanup_expired_at(now_ms)
    }
}

/// Updating one element with an equal id keeps ids unique.
proof fn lemma_unique_ids_update(us: Seq<TusUploadV>, i: int, new_rec: TusUploadV)
    requires
        0 <= i < us.len(),
        new_rec.id == us[i].id,
        forall|a: int, b: int|
            0 <= a < b < us.len() ==> (#[trigger] us[a]).id != (#[trigger] us[b]).id,
    ensures
        forall|a: int, b: int|
            0 <= a < b < us.len() ==> (#[trigger] us.update(i, new_rec)[a]).id != (
            #[trigger] us.update(i, new_rec)[b]).id,
{
    let post = us.update(i, new_rec);
    assert forall|a: int, b: int| 0 <= a < b < us.len() implies (#[trigger] post[a]).id != (
    #[trigger] post[b]).id by {
        assert(post[a].id == us[a].id);
        assert(post[b].id == us[b].id);
    }
}

/// Removing one element keeps ids unique.
proof fn lemma_unique_ids_remove(us: Seq<TusUploadV>, i: int)
    requires
        0 <= i < us.len(),
        forall|a: int, b: int|
            0 <= a < b < us.len() ==> (#[trigger] us[a]).id != (#[trigger] us[b]).id,
    ensures
        forall|a: int, b: int|
            0 <= a < b < us.remove(i).len() ==> (#[trigger] us.remove(i)[a]).id != (
            #[trigger] us.remove(i)[b]).id,
{
    let post = us.remove(i);
    assert forall|a: int, b: int| 0 <= a < b < post.len() implies (#[trigger] post[a]).id != (
    #[trigger] post[b]).id by {
        let a0 = if a < i {
            a
        } else {
            a + 1
        };
        let b0 = if b < i {
            b
        } else {
            b + 1
        };
        assert(post[a] == us[a0]);
        assert(post[b] == us[b0]);
    }
}

/// Atomic finalization, the store's half: under the invariant, a complete
/// upload has received exactly its declared length and carries its final
/// path, and an incomplete one carries none — so the path appears at the
/// same transition that completes the record. The matching rename on disk
/// is the application's commit point.
pub proof fn lemma_complete_upload_finalized(s: &FileStorage, i: int)
    requires
        s.wf(),
        0 <= i < s@.uploads.len(),
    ensures
        s@.uploads[i].is_complete ==> s@.uploads[i].offset == s@.uploads[i].length
            && s@.uploads[i].final_path is Some,
        !s@.uploads[i].is_complete ==> s@.uploads[i].final_path is None,
{
}

/// Whether the store accepts this chunk: the upload exists, the client's
/// offset agrees, the chunk stays inside the declared length, and any
/// supplied checksum is exactly the expected text.
pub open spec fn write_accepted(
    v: FileStorageV,
    id: Seq<char>,
    offset: u64,
    data: Seq<u8>,
    checksum: Option<Seq<char>>,
) -> bool {
    let i = uid_idx(v.uploads, id);
    &&& has_uid(v.uploads, id)
    &&& offset == v.uploads[i].offset
    &&& data.len() <= v.uploads[i].length - v.uploads[i].offset
    &&& match checksum {
        Some(c) => c == checksum_text(data),
        None => true,
    }
}

/// The checksum text the protocol expects for a chunk: the token `sha256`,
/// one space, and the base64 of the chunk's SHA-256 digest.
pub open spec fn checksum_text(data: Seq<u8>) -> Seq<char> {
    "sha256 "@ + base64_of(sha256_of(data))
}

/// Computes the checksum text for a chunk.
pub fn compute_checksum(data: &[u8]) -> (r: String)
    ensures
        r@ == checksum_text(data@),
{
    let digest = sha256(data);
    let mut r = String::from_str("sha256 ");
    r.append(base64_encode(digest.as_slice()).as_str());
    r
}

} // verus!
