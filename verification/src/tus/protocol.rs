//! The tus protocol surface: header checks, `Upload-Metadata` parsing,
//! the error-to-status mapping, and the decision core of each endpoint.
//! The application wraps these in its HTTP routes and performs the file
//! operations that a successful transition calls for.

use vstd::prelude::*;

use crate::numstr::{dec_val, is_u64_numeral, parse_u64};
use crate::platform::{base64_decode, base64_decoded, new_uuid, utf8_decoded, utf8_string};
use crate::streams::types::kv_views;
use crate::text::{find_char, first_index_or_len, split_on, split_str, str_eq, trimmed,
    trim_spaces};
use crate::tus::store::{has_uid, uid_idx, write_accepted, FileStorage};
use crate::tus::types::TusError;

verus! {

/// Whether a `Tus-Resumable` header names the one supported version.
pub open spec fn version_ok(header: Option<Seq<char>>) -> bool {
    header == Some("1.0.0"@)
}

/// Checks the `Tus-Resumable` header: absent and unsupported versions are
/// both protocol errors, with distinct messages.
pub fn check_tus_version(header: Option<&str>) -> (r: Result<(), TusError>)
    ensures
        r is Ok <==> version_ok(match header {
            Some(h) => Some(h@),
            None => None,
        }),
        r is Err ==> (r->Err_0 matches TusError::MissingHeader(m) && m@ == (match header {
            Some(_) => "Unsupported Tus-Resumable version"@,
            None => "Tus-Resumable"@,
        })),
{
    match header {
        Some(h) => {
            if str_eq(h, "1.0.0") {
                Ok(())
            } else {
                Err(TusError::MissingHeader(String::from_str(
                    "Unsupported Tus-Resumable version",
                )))
            }
        },
        None => Err(TusError::MissingHeader(String::from_str("Tus-Resumable"))),
    }
}

/// What one comma-separated metadata piece contributes: after trimming, a
/// key, one space, and a base64 value that must decode to UTF-8 text.
/// Anything else contributes nothing.
pub open spec fn pair_of(piece: Seq<char>) -> Option<(Seq<char>, Seq<char>)> {
    let t = trimmed(piece);
    let i = first_index_or_len(t, ' ');
    if i == t.len() {
        None
    } else {
        match base64_decoded(t.skip(i + 1)) {
            Some(bytes) => match utf8_decoded(bytes) {
                Some(v) => Some((t.take(i), v)),
                None => None,
            },
            None => None,
        }
    }
}

/// The pairs contributed by a list of pieces, in order.
pub open spec fn pairs_of(pieces: Seq<Seq<char>>) -> Seq<(Seq<char>, Seq<char>)>
    decreases pieces.len(),
{
    if pieces.len() == 0 {
        Seq::empty()
    } else {
        match pair_of(pieces[0]) {
            Some(p) => seq![p] + pairs_of(pieces.drop_first()),
            None => pairs_of(pieces.drop_first()),
        }
    }
}

/// What `parse_metadata` makes of an `Upload-Metadata` header value.
pub open spec fn metadata_pairs(header: Seq<char>) -> Seq<(Seq<char>, Seq<char>)> {
    pairs_of(split_on(header, ','))
}

/// The pairs of a single piece.
proof fn lemma_pairs_of_one(p: Seq<char>)
    ensures
        pairs_of(seq![p]) == (match pair_of(p) {
            Some(q) => seq![q],
            None => Seq::<(Seq<char>, Seq<char>)>::empty(),
        }),
{
    assert(seq![p].drop_first() =~= Seq::<Seq<char>>::empty());
    assert(pairs_of(Seq::<Seq<char>>::empty()) =~= Seq::<(Seq<char>, Seq<char>)>::empty());
    match pair_of(p) {
        Some(q) => {
            assert(seq![q] + Seq::<(Seq<char>, Seq<char>)>::empty() =~= seq![q]);
        },
        None => {},
    }
}

proof fn lemma_pairs_of_add(a: Seq<Seq<char>>, b: Seq<Seq<char>>)
    ensures
        pairs_of(a + b) == pairs_of(a) + pairs_of(b),
    decreases a.len(),
{
    if a.len() == 0 {
        assert(a + b =~= b);
        assert(pairs_of(a) + pairs_of(b) =~= pairs_of(b));
    } else {
        assert((a + b)[0] == a[0]);
        assert((a + b).drop_first() =~= a.drop_first() + b);
        lemma_pairs_of_add(a.drop_first(), b);
        match pair_of(a[0]) {
            Some(p) => {
                assert(seq![p] + (pairs_of(a.drop_first()) + pairs_of(b)) =~= (seq![p] + pairs_of(
                    a.drop_first(),
                )) + pairs_of(b));
            },
            None => {},
        }
    }
}

/// Parses an `Upload-Metadata` header: a comma-separated list of
/// `key base64(value)` pairs. Malformed pieces contribute nothing.
pub fn parse_metadata(header: &str) -> (r: Vec<(String, String)>)
    ensures
        kv_views(r@) == metadata_pairs(header@),
{
    let pieces = split_str(header, ',');
    let ghost piece_views = pieces@.map_values(|p: String| p@);
    let mut out: Vec<(String, String)> = Vec::new();
    let mut i: usize = 0;
    proof {
        assert(kv_views(out@) =~= Seq::<(Seq<char>, Seq<char>)>::empty());
        assert(pairs_of(piece_views.take(0)) =~= Seq::<(Seq<char>, Seq<char>)>::empty());
    }
    while i < pieces.len()
        invariant
            0 <= i <= pieces@.len(),
            piece_views == pieces@.map_values(|p: String| p@),
            piece_views.len() == pieces@.len(),
            kv_views(out@) == pairs_of(piece_views.take(i as int)),
        decreases pieces@.len() - i,
    {
        proof {
            assert(piece_views.take(i as int + 1) =~= piece_views.take(i as int) + seq![
                piece_views[i as int],
            ]);
            lemma_pairs_of_add(piece_views.take(i as int), seq![piece_views[i as int]]);
            lemma_pairs_of_one(piece_views[i as int]);
            assert(piece_views[i as int] == pieces@[i as int]@);
        }
        let t = trim_spaces(pieces[i].as_str());
        let tlen = t.as_str().unicode_len();
        match find_char(t.as_str(), ' ') {
            None => {},
            Some(sp) => {
                let key = t.as_str().substring_char(0, sp);
                let enc = t.as_str().substring_char(sp + 1, tlen);
                proof {
                    assert(t@.subrange(0, sp as int) =~= t@.take(sp as int));
                    assert(t@.subrange(sp as int + 1, tlen as int) =~= t@.skip(sp as int + 1));
                }
                match base64_decode(enc) {
                    None => {},
                    Some(bytes) => {
                        match utf8_string(bytes) {
                            None => {},
                            Some(value) => {
                                let ghost out0 = out@;
                                let ghost p = (key@, value@);
                                out.push((key.to_owned(), value));
                                proof {
                                    assert(kv_views(out@) =~= kv_views(out0).push(p));
                                    assert(kv_views(out0).push(p) =~= kv_views(out0) + seq![p]);
                                }
                            },
                        }
                    },
                }
            },
        }
        i = i + 1;
    }
    proof {
        assert(piece_views.take(piece_views.len() as int) =~= piece_views);
    }
    out
}

/// The HTTP status each error maps to: 404, 409, 413, 415, 400 and 417 for
/// the protocol errors, 500 for the infrastructure ones.
pub fn tus_status_code(e: &TusError) -> (r: u16)
    ensures
        e is NotFound ==> r == 404,
        e is InvalidOffset ==> r == 409,
        e is FileTooLarge ==> r == 413,
        e is InvalidContentType ==> r == 415,
        e is MissingHeader ==> r == 400,
        e is ChecksumMismatch ==> r == 417,
        e is IoError || e is StorageError ==> r == 500,
{
    match e {
        TusError::NotFound(_) => 404,
        TusError::InvalidOffset { .. } => 409,
        TusError::FileTooLarge { .. } => 413,
        TusError::InvalidContentType => 415,
        TusError::MissingHeader(_) => 400,
        TusError::ChecksumMismatch => 417,
        TusError::IoError(_) => 500,
        TusError::StorageError(_) => 500,
    }
}

/// The headers a creation request carries, plus its body.
pub struct CreateRequest {
    pub tus_resumable: Option<String>,
    pub upload_length: Option<String>,
    pub upload_metadata: Option<String>,
    pub upload_checksum: Option<String>,
    pub body: Vec<u8>,
}

/// What a successful creation answers: the new upload's id, its URL under
/// the mount point, and the offset after any creation-with-upload body.
pub struct CreateOutcome {
    pub upload_id: String,
    pub location: String,
    pub upload_offset: u64,
}

/// Whether a creation request is acceptable against this store state,
/// apart from the id that will be drawn for it.
pub open spec fn create_acceptable(
    max_size: u64,
    length_header: Option<Seq<char>>,
    checksum: Option<Seq<char>>,
    body: Seq<u8>,
) -> bool {
    &&& length_header is Some
    &&& is_u64_numeral(length_header->0)
    &&& dec_val(length_header->0) <= max_size
    &&& body.len() <= dec_val(length_header->0)
    &&& (body.len() > 0 ==> match checksum {
        Some(c) => c == crate::tus::store::checksum_text(body),
        None => true,
    })
}

/// The creation endpoint: demands the version and `Upload-Length` headers,
/// parses the metadata, registers the upload under a fresh id, and accepts
/// a creation-with-upload body in the same request.
pub fn handle_create(store: &mut FileStorage, req: CreateRequest) -> (r: Result<
    CreateOutcome,
    TusError,
>)
    requires
        old(store).wf(),
    ensures
        final(store).wf(),
        r is Ok <==> version_ok(match req.tus_resumable {
            Some(h) => Some(h@),
            None => None,
        }) && create_acceptable(
            old(store)@.max_size,
            match req.upload_length {
                Some(h) => Some(h@),
                None => None,
            },
            match req.upload_checksum {
                Some(h) => Some(h@),
                None => None,
            },
            req.body@,
        ),
        r is Ok ==> ({
            let out = r->Ok_0;
            let us = final(store)@.uploads;
            let length = dec_val(req.upload_length->0@) as u64;
            &&& out.location@ == "/tus/files/"@ + out.upload_id@
            &&& out.upload_offset == req.body@.len()
            &&& has_uid(us, out.upload_id@)
            &&& ({
                let rec = us[uid_idx(us, out.upload_id@)];
                &&& rec.length == length
                &&& rec.offset == req.body@.len()
                &&& rec.metadata == metadata_pairs(
                    match req.upload_metadata {
                        Some(m) => m@,
                        None => Seq::<char>::empty(),
                    },
                )
                &&& rec.is_complete == (req.body@.len() > 0 && req.body@.len() == length)
            })
        }),
        r is Err && !(version_ok(match req.tus_resumable {
            Some(h) => Some(h@),
            None => None,
        }) && req.upload_length is Some && is_u64_numeral(req.upload_length->0@) && dec_val(
            req.upload_length->0@,
        ) <= old(store)@.max_size) ==> final(store)@ == old(store)@,
        ({
            let vok = version_ok(match req.tus_resumable {
                Some(h) => Some(h@),
                None => None,
            });
            let numeral = req.upload_length is Some && is_u64_numeral(req.upload_length->0@);
            let val = dec_val(req.upload_length->0@);
            let fits = val <= old(store)@.max_size;
            &&& !vok ==> (r matches Err(TusError::MissingHeader(m)) && m@ == (
            match req.tus_resumable {
                Some(_) => "Unsupported Tus-Resumable version"@,
                None => "Tus-Resumable"@,
            }))
            &&& vok && !numeral ==> (r matches Err(TusError::MissingHeader(m)) && m@
                == "Upload-Length"@)
            &&& vok && numeral && !fits ==> (r matches Err(TusError::FileTooLarge { size, max })
                && size == val && max == old(store)@.max_size)
            &&& vok && numeral && fits && req.body@.len() > val ==> (r matches Err(
                TusError::FileTooLarge { .. },
            ))
            &&& vok && numeral && fits && req.body@.len() <= val && req.body@.len() > 0 && (
            match req.upload_checksum {
                Some(c) => c@ != crate::tus::store::checksum_text(req.body@),
                None => false,
            }) ==> (r matches Err(TusError::ChecksumMismatch))
            &&& r is Err && vok && numeral && fits ==> exists|id: Seq<char>|
                #[trigger] has_uid(final(store)@.uploads, id) && ({
                    let rec = final(store)@.uploads[uid_idx(final(store)@.uploads, id)];
                    &&& rec.length == val
                    &&& rec.offset == 0
                    &&& !rec.is_complete
                    &&& rec.metadata == metadata_pairs(
                        match req.upload_metadata {
                            Some(m) => m@,
                            None => Seq::<char>::empty(),
                        },
                    )
                })
        }),
{
    proof {
        reveal_strlit("Upload-Length");
    }
    match &req.tus_resumable {
        Some(h) => {
            let checked = check_tus_version(Some(h.as_str()));
            if let Err(e) = checked {
                return Err(e);
            }
        },
        None => {
            let checked = check_tus_version(None);
            if let Err(e) = checked {
                return Err(e);
            }
        },
    }
    let length: u64 = match &req.upload_length {
        Some(h) => {
            match parse_u64(h.as_str()) {
                Some(v) => v,
                None => {
                    return Err(TusError::MissingHeader(String::from_str("Upload-Length")));
                },
            }
        },
        None => {
            return Err(TusError::MissingHeader(String::from_str("Upload-Length")));
        },
    };
    let metadata = match &req.upload_metadata {
        Some(m) => parse_metadata(m.as_str()),
        None => {
            proof {
                assert(kv_views(Seq::<(String, String)>::empty()) =~= Seq::<
                    (Seq<char>, Seq<char>),
                >::empty());
                lemma_metadata_pairs_empty();
            }
            Vec::new()
        },
    };
    let upload_id = new_uuid();
    let ghost pre = store@;
    let created_rec = match store.create_upload(upload_id.clone(), length, metadata) {
        Ok(u) => u,
        Err(e) => {
            return Err(e);
        },
    };
    let ghost mid = store@;
    proof {
        // The freshly created record sits at a unique position under its id.
        let usm = mid.uploads;
        let j: int = if has_uid(pre.uploads, upload_id@) {
            uid_idx(pre.uploads, upload_id@)
        } else {
            usm.len() - 1
        };
        assert(usm[j] == created_rec@);
        assert(usm[j].id == upload_id@);
        assert(has_uid(usm, upload_id@));
        let k = uid_idx(usm, upload_id@);
        assert(0 <= k < usm.len() && usm[k].id == upload_id@);
        if k != j {
            assert(usm[k].id != usm[j].id);
        }
        assert(usm[uid_idx(usm, upload_id@)] == created_rec@);
    }
    let mut upload_offset: u64 = 0;
    if req.body.len() > 0 {
        let checksum_ref: Option<&str> = match &req.upload_checksum {
            Some(c) => Some(c.as_str()),
            None => None,
        };
        match store.write_chunk(upload_id.as_str(), 0, req.body.as_slice(), checksum_ref) {
            Ok(new_offset) => {
                upload_offset = new_offset;
            },
            Err(e) => {
                proof {
                    // The refused body leaves the fresh record registered.
                    assert(has_uid(store@.uploads, upload_id@));
                }
                return Err(e);
            },
        }
        proof {
            // The updated record keeps its unique position.
            let usf = store@.uploads;
            let k = uid_idx(mid.uploads, upload_id@);
            assert(usf[k].id == upload_id@);
            assert(has_uid(usf, upload_id@));
            let k2 = uid_idx(usf, upload_id@);
            assert(0 <= k2 < usf.len() && usf[k2].id == upload_id@);
            if k2 != k {
                assert(usf[k2].id != usf[k].id);
            }
        }
    }
    let mut location = String::from_str("/tus/files/");
    location.append(upload_id.as_str());
    Ok(CreateOutcome { upload_id, location, upload_offset })
}

/// Splitting an empty header yields no pairs.
proof fn lemma_metadata_pairs_empty()
    ensures
        metadata_pairs(Seq::<char>::empty()) == Seq::<(Seq<char>, Seq<char>)>::empty(),
{
    let pieces = split_on(Seq::<char>::empty(), ',');
    assert(pieces == seq![Seq::<char>::empty()]);
    assert(pieces.drop_first() =~= Seq::<Seq<char>>::empty());
    let t = trimmed(Seq::<char>::empty());
    assert(t =~= Seq::<char>::empty());
    assert(pair_of(Seq::<char>::empty()) is None);
    lemma_pairs_of_one(Seq::<char>::empty());
    assert(pairs_of(pieces) =~= Seq::<(Seq<char>, Seq<char>)>::empty());
}

/// The status endpoint: answers an upload's current offset and declared
/// length, for the client to resume from.
pub fn handle_head(store: &FileStorage, id: &str, tus_resumable: Option<&str>) -> (r: Result<
    (u64, u64),
    TusError,
>)
    requires
        store.wf(),
    ensures
        r is Ok <==> version_ok(match tus_resumable {
            Some(h) => Some(h@),
            None => None,
        }) && has_uid(store@.uploads, id@),
        r is Ok ==> ({
            let rec = store@.uploads[uid_idx(store@.uploads, id@)];
            r->Ok_0.0 == rec.offset && r->Ok_0.1 == rec.length
        }),
        !version_ok(match tus_resumable {
            Some(h) => Some(h@),
            None => None,
        }) ==> (r matches Err(TusError::MissingHeader(m)) && m@ == (match tus_resumable {
            Some(_) => "Unsupported Tus-Resumable version"@,
            None => "Tus-Resumable"@,
        })),
        version_ok(match tus_resumable {
            Some(h) => Some(h@),
            None => None,
        }) && !has_uid(store@.uploads, id@) ==> (r matches Err(TusError::NotFound(missing))
            && missing@ == id@),
{
    if let Err(e) = check_tus_version(tus_resumable) {
        return Err(e);
    }
    let upload = store.get_upload(id)?;
    Ok((upload.offset, upload.length))
}

/// The headers a chunk upload carries.
pub struct PatchRequest {
    pub tus_resumable: Option<String>,
    pub content_type: Option<String>,
    pub upload_offset: Option<String>,
    pub upload_checksum: Option<String>,
}

/// The chunk endpoint: demands the version header, the protocol's content
/// type and a numeric `Upload-Offset`, then hands the body to the store.
pub fn handle_patch(store: &mut FileStorage, id: &str, req: &PatchRequest, body: &[u8]) -> (r:
    Result<u64, TusError>)
    requires
        old(store).wf(),
    ensures
        final(store).wf(),
        r is Ok <==> ({
            &&& version_ok(match req.tus_resumable {
                Some(h) => Some(h@),
                None => None,
            })
            &&& (match req.content_type {
                Some(ct) => ct@ == "application/offset+octet-stream"@,
                None => false,
            })
            &&& req.upload_offset is Some
            &&& is_u64_numeral(req.upload_offset->0@)
            &&& write_accepted(
                old(store)@,
                id@,
                (dec_val(req.upload_offset->0@) as u64),
                body@,
                match req.upload_checksum {
                    Some(c) => Some(c@),
                    None => None,
                },
            )
        }),
        r is Err ==> final(store)@ == old(store)@,
        r is Ok ==> ({
            let us = old(store)@.uploads;
            let i = uid_idx(us, id@);
            let rec = us[i];
            let new_rec = final(store)@.uploads[i];
            &&& r->Ok_0 == rec.offset + body@.len()
            &&& final(store)@.uploads == us.update(i, new_rec)
            &&& new_rec.offset == rec.offset + body@.len()
            &&& new_rec.id == rec.id
            &&& new_rec.length == rec.length
            &&& new_rec.is_complete == (rec.offset + body@.len() == rec.length)
        }),
        ({
            let vok = version_ok(match req.tus_resumable {
                Some(h) => Some(h@),
                None => None,
            });
            let ct_ok = match req.content_type {
                Some(ct) => ct@ == "application/offset+octet-stream"@,
                None => false,
            };
            let numeral = req.upload_offset is Some && is_u64_numeral(req.upload_offset->0@);
            let given = dec_val(req.upload_offset->0@) as u64;
            let us = old(store)@.uploads;
            &&& !vok ==> (r matches Err(TusError::MissingHeader(m)) && m@ == (
            match req.tus_resumable {
                Some(_) => "Unsupported Tus-Resumable version"@,
                None => "Tus-Resumable"@,
            }))
            &&& vok && !ct_ok ==> (r matches Err(TusError::InvalidContentType))
            &&& vok && ct_ok && !numeral ==> (r matches Err(TusError::MissingHeader(m)) && m@
                == "Upload-Offset"@)
            &&& vok && ct_ok && numeral && !has_uid(us, id@) ==> (r matches Err(
                TusError::NotFound(missing),
            ) && missing@ == id@)
            &&& vok && ct_ok && numeral && has_uid(us, id@) && given != us[uid_idx(us, id@)].offset
                ==> (r matches Err(TusError::InvalidOffset { expected, actual }) && expected
                == us[uid_idx(us, id@)].offset && actual == given)
            &&& vok && ct_ok && numeral && has_uid(us, id@) && given == us[uid_idx(us, id@)].offset
                && body@.len() > us[uid_idx(us, id@)].length - us[uid_idx(us, id@)].offset ==> (
            r matches Err(TusError::FileTooLarge { .. }))
            &&& vok && ct_ok && numeral && has_uid(us, id@) && given == us[uid_idx(us, id@)].offset
                && body@.len() <= us[uid_idx(us, id@)].length - us[uid_idx(us, id@)].offset && (
            match req.upload_checksum {
                Some(c) => c@ != crate::tus::store::checksum_text(body@),
                None => false,
            }) ==> (r matches Err(TusError::ChecksumMismatch))
        }),
{
    proof {
        reveal_strlit("Upload-Offset");
    }
    match &req.tus_resumable {
        Some(h) => {
            if let Err(e) = check_tus_version(Some(h.as_str())) {
                return Err(e);
            }
        },
        None => {
            if let Err(e) = check_tus_version(None) {
                return Err(e);
            }
        },
    }
    let ct_ok = match &req.content_type {
        Some(ct) => str_eq(ct.as_str(), "application/offset+octet-stream"),
        None => false,
    };
    if !ct_ok {
        return Err(TusError::InvalidContentType);
    }
    let offset: u64 = match &req.upload_offset {
        Some(h) => {
            match parse_u64(h.as_str()) {
                Some(v) => v,
                None => {
                    return Err(TusError::MissingHeader(String::from_str("Upload-Offset")));
                },
            }
        },
        None => {
            return Err(TusError::MissingHeader(String::from_str("Upload-Offset")));
        },
    };
    let checksum_ref: Option<&str> = match &req.upload_checksum {
        Some(c) => Some(c.as_str()),
        None => None,
    };
    store.write_chunk(id, offset, body, checksum_ref)
}

/// The termination endpoint: checks the version, then forgets the upload.
/// Deletion is idempotent.
pub fn handle_delete(store: &mut FileStorage, id: &str, tus_resumable: Option<&str>) -> (r: Result<
    (),
    TusError,
>)
    requires
        old(store).wf(),
    ensures
        final(store).wf(),
        r is Ok <==> version_ok(match tus_resumable {
            Some(h) => Some(h@),
            None => None,
        }),
        r is Err ==> final(store)@ == old(store)@,
        r is Ok ==> (if has_uid(old(store)@.uploads, id@) {
            final(store)@.uploads == old(store)@.uploads.remove(
                uid_idx(old(store)@.uploads, id@),
            )
        } else {
            final(store)@ == old(store)@
        }),
{
    if let Err(e) = check_tus_version(tus_resumable) {
        return Err(e);
    }
    store.delete_upload(id)
}

} // verus!
