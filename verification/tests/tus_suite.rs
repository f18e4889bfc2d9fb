use edulinker_core::tus::protocol::{check_tus_version, handle_create, handle_delete, handle_head,
    handle_patch, parse_metadata, tus_status_code, CreateRequest, PatchRequest};
use edulinker_core::tus::store::{compute_checksum, sanitize_filename, FileStorage};
use edulinker_core::tus::types::{TusConfig, TusError, TusUpload};

fn storage() -> FileStorage {
    FileStorage::new(TusConfig::default(), "/data/uploads")
}

fn filename_meta(name: &str) -> Vec<(String, String)> {
    vec![(String::from("filename"), String::from(name))]
}

#[test]
fn sanitizer_strips_paths_and_bad_characters() {
    assert_eq!(sanitize_filename("a.bin").as_str(), "a.bin");
    assert_eq!(sanitize_filename("../../etc/passwd").as_str(), "passwd");
    assert_eq!(sanitize_filename("dir\\sub\\Report 2.pdf").as_str(), "Report 2.pdf");
    assert_eq!(sanitize_filename("we!rd*na<me>.txt").as_str(), "werdname.txt");
    // Trailing separators fall away; the last non-empty component counts.
    assert_eq!(sanitize_filename("a.bin/").as_str(), "a.bin");
    assert_eq!(sanitize_filename("dir/sub/").as_str(), "sub");
    assert_eq!(sanitize_filename("///").as_str(), "unknown");
    assert_eq!(sanitize_filename("").as_str(), "unknown");
}

#[test]
fn resumable_upload_survives_a_restart() {
    let mut store = storage();
    let total: u64 = 1048576;
    let first = vec![7u8; 524288];
    let second = vec![9u8; 524288];

    let upload = store
        .create_upload(String::from("u1"), total, filename_meta("a.bin"))
        .unwrap();
    assert_eq!(upload.offset, 0);
    assert!(!upload.is_complete);

    let new_offset = store.write_chunk("u1", 0, &first, None).unwrap();
    assert_eq!(new_offset, 524288);

    // Restart: the sidecar records come back through recovery.
    let record = store.get_upload("u1").unwrap();
    let mut revived = FileStorage::recover(
        TusConfig::default(),
        "/data/uploads",
        vec![record],
    );
    let head = revived.get_upload("u1").unwrap();
    assert_eq!(head.offset, 524288);
    assert_eq!(head.length, total);

    let done = revived.write_chunk("u1", 524288, &second, None).unwrap();
    assert_eq!(done, total);
    let finished = revived.get_upload("u1").unwrap();
    assert!(finished.is_complete);
    assert_eq!(
        finished.final_path.unwrap().as_str(),
        "/data/uploads/complete/a.bin",
    );
}

#[test]
fn wrong_offset_is_refused_and_state_stands() {
    let mut store = storage();
    store.create_upload(String::from("u1"), 100, Vec::new()).unwrap();
    match store.write_chunk("u1", 10, &[1, 2, 3], None) {
        Err(TusError::InvalidOffset { expected, actual }) => {
            assert_eq!(expected, 0);
            assert_eq!(actual, 10);
        },
        _ => panic!("expected an offset conflict"),
    }
    assert_eq!(store.get_upload("u1").unwrap().offset, 0);
}

#[test]
fn checksums_gate_the_write() {
    let mut store = storage();
    store.create_upload(String::from("u1"), 100, Vec::new()).unwrap();
    let chunk = [1u8, 2, 3, 4];
    let good = compute_checksum(&chunk);
    assert!(good.as_str().starts_with("sha256 "));
    let wrong = String::from("sha256 AAAAAAAAAAAAAAAAAAAAAAAAAAAAAAAAAAAAAAAAAAA=");
    match store.write_chunk("u1", 0, &chunk, Some(wrong.as_str())) {
        Err(TusError::ChecksumMismatch) => {},
        _ => panic!("expected a checksum mismatch"),
    }
    assert_eq!(store.get_upload("u1").unwrap().offset, 0);
    let advanced = store.write_chunk("u1", 0, &chunk, Some(good.as_str())).unwrap();
    assert_eq!(advanced, 4);
}

#[test]
fn oversize_declarations_and_overruns_are_refused() {
    let mut store = FileStorage::new(
        TusConfig {
            upload_dir: String::from("uploads"),
            max_size: 10,
            chunk_size: 4,
            expiration_secs: 60,
        },
        "/data/uploads",
    );
    match store.create_upload(String::from("big"), 11, Vec::new()) {
        Err(TusError::FileTooLarge { size, max }) => {
            assert_eq!(size, 11);
            assert_eq!(max, 10);
        },
        _ => panic!("expected a size refusal"),
    }
    store.create_upload(String::from("u1"), 4, Vec::new()).unwrap();
    assert!(matches!(
        store.write_chunk("u1", 0, &[0u8; 5], None),
        Err(TusError::FileTooLarge { .. }),
    ));
    assert_eq!(store.get_upload("u1").unwrap().offset, 0);
}

#[test]
fn deletion_is_idempotent_and_expiry_prunes() {
    let mut store = storage();
    store.create_upload(String::from("u1"), 10, Vec::new()).unwrap();
    store.delete_upload("u1").unwrap();
    store.delete_upload("u1").unwrap();
    assert!(store.get_upload("u1").is_err());

    store.create_upload(String::from("u2"), 10, Vec::new()).unwrap();
    let stamp = store.get_upload("u2").unwrap().updated_at_ms;
    let window_ms: i64 = 24 * 60 * 60 * 1000;
    assert_eq!(store.cleanup_expired_at(stamp + window_ms), 0);
    assert_eq!(store.cleanup_expired_at(stamp + window_ms + 1), 1);
    assert_eq!(store.active_upload_count(), 0);
}

#[test]
fn recovery_keeps_only_incomplete_records() {
    let complete = {
        let mut store = storage();
        store.create_upload(String::from("done"), 2, Vec::new()).unwrap();
        store.write_chunk("done", 0, &[1, 2], None).unwrap();
        store.get_upload("done").unwrap()
    };
    let partial = TusUpload::new(String::from("part"), 10, Vec::new());
    let revived = FileStorage::recover(
        TusConfig::default(),
        "/data/uploads",
        vec![complete, partial],
    );
    assert_eq!(revived.active_upload_count(), 1);
    assert_eq!(revived.get_upload("part").unwrap().offset, 0);
}

#[test]
fn version_and_metadata_headers_parse() {
    assert!(check_tus_version(Some("1.0.0")).is_ok());
    assert!(matches!(
        check_tus_version(Some("0.2.2")),
        Err(TusError::MissingHeader(_)),
    ));
    assert!(matches!(check_tus_version(None), Err(TusError::MissingHeader(_))));

    // "YS5iaW4=" is base64 for "a.bin"; the second pair is malformed and drops.
    let pairs = parse_metadata("filename YS5iaW4=, broken");
    assert_eq!(pairs.len(), 1);
    assert_eq!(pairs[0].0.as_str(), "filename");
    assert_eq!(pairs[0].1.as_str(), "a.bin");
    let round = parse_metadata("k dmFsdWU=");
    assert_eq!(round[0].1.as_str(), "value");
}

#[test]
fn error_statuses_follow_the_protocol() {
    assert_eq!(tus_status_code(&TusError::NotFound(String::from("x"))), 404);
    assert_eq!(tus_status_code(&TusError::InvalidOffset { expected: 0, actual: 1 }), 409);
    assert_eq!(tus_status_code(&TusError::FileTooLarge { size: 2, max: 1 }), 413);
    assert_eq!(tus_status_code(&TusError::InvalidContentType), 415);
    assert_eq!(tus_status_code(&TusError::MissingHeader(String::from("x"))), 400);
    assert_eq!(tus_status_code(&TusError::ChecksumMismatch), 417);
    assert_eq!(tus_status_code(&TusError::StorageError(String::from("x"))), 500);
}

#[test]
fn creation_endpoint_demands_its_headers() {
    let mut store = storage();
    let refused = handle_create(
        &mut store,
        CreateRequest {
            tus_resumable: Some(String::from("1.0.0")),
            upload_length: None,
            upload_metadata: None,
            upload_checksum: None,
            body: Vec::new(),
        },
    );
    match refused {
        Err(TusError::MissingHeader(m)) => assert_eq!(m.as_str(), "Upload-Length"),
        _ => panic!("expected the missing length header error"),
    }
    let bad_version = handle_create(
        &mut store,
        CreateRequest {
            tus_resumable: Some(String::from("0.2.2")),
            upload_length: Some(String::from("8")),
            upload_metadata: None,
            upload_checksum: None,
            body: Vec::new(),
        },
    );
    match bad_version {
        Err(TusError::MissingHeader(m)) => {
            assert_eq!(m.as_str(), "Unsupported Tus-Resumable version")
        },
        _ => panic!("expected the version error"),
    }

    let outcome = handle_create(
        &mut store,
        CreateRequest {
            tus_resumable: Some(String::from("1.0.0")),
            upload_length: Some(String::from("1048576")),
            upload_metadata: Some(String::from("filename YS5iaW4=")),
            upload_checksum: None,
            body: Vec::new(),
        },
    )
    .unwrap();
    assert_eq!(outcome.upload_offset, 0);
    assert_eq!(
        outcome.location.as_str(),
        format!("/tus/files/{}", outcome.upload_id.as_str()).as_str(),
    );
    let rec = store.get_upload(outcome.upload_id.as_str()).unwrap();
    assert_eq!(rec.length, 1048576);
    assert_eq!(rec.filename().unwrap().as_str(), "a.bin");
}

#[test]
fn patch_and_head_drive_an_upload_to_completion() {
    let mut store = storage();
    let outcome = handle_create(
        &mut store,
        CreateRequest {
            tus_resumable: Some(String::from("1.0.0")),
            upload_length: Some(String::from("8")),
            upload_metadata: Some(String::from("filename YS5iaW4=")),
            upload_checksum: None,
            body: vec![1, 2, 3, 4],
        },
    )
    .unwrap();
    assert_eq!(outcome.upload_offset, 4);
    let id = outcome.upload_id.as_str();

    let (offset, length) = handle_head(&store, id, Some("1.0.0")).unwrap();
    assert_eq!((offset, length), (4, 8));

    let headers = PatchRequest {
        tus_resumable: Some(String::from("1.0.0")),
        content_type: Some(String::from("application/offset+octet-stream")),
        upload_offset: Some(String::from("4")),
        upload_checksum: None,
    };
    let done = handle_patch(&mut store, id, &headers, &[5, 6, 7, 8]).unwrap();
    assert_eq!(done, 8);
    let rec = store.get_upload(id).unwrap();
    assert!(rec.is_complete);
    assert_eq!(rec.final_path.unwrap().as_str(), "/data/uploads/complete/a.bin");

    let bad_ct = PatchRequest {
        tus_resumable: Some(String::from("1.0.0")),
        content_type: Some(String::from("text/plain")),
        upload_offset: Some(String::from("8")),
        upload_checksum: None,
    };
    assert!(matches!(
        handle_patch(&mut store, id, &bad_ct, &[]),
        Err(TusError::InvalidContentType),
    ));

    handle_delete(&mut store, id, Some("1.0.0")).unwrap();
    assert!(store.get_upload(id).is_err());
}

#[test]
fn patch_endpoint_reports_the_offset_conflict() {
    let mut store = storage();
    let outcome = handle_create(
        &mut store,
        CreateRequest {
            tus_resumable: Some(String::from("1.0.0")),
            upload_length: Some(String::from("100")),
            upload_metadata: None,
            upload_checksum: None,
            body: Vec::new(),
        },
    )
    .unwrap();
    let id = outcome.upload_id.as_str();
    let headers = PatchRequest {
        tus_resumable: Some(String::from("1.0.0")),
        content_type: Some(String::from("application/offset+octet-stream")),
        upload_offset: Some(String::from("10")),
        upload_checksum: None,
    };
    // A fresh upload patched at offset 10: the conflict names both offsets
    // (so the route answers 409) and a following HEAD still shows 0.
    match handle_patch(&mut store, id, &headers, &[1, 2, 3]) {
        Err(e) => {
            assert_eq!(tus_status_code(&e), 409);
            match e {
                TusError::InvalidOffset { expected, actual } => {
                    assert_eq!(expected, 0);
                    assert_eq!(actual, 10);
                },
                _ => panic!("expected an offset conflict"),
            }
        },
        Ok(_) => panic!("expected an offset conflict"),
    }
    let (offset, _) = handle_head(&store, id, Some("1.0.0")).unwrap();
    assert_eq!(offset, 0);
    // An unknown id answers 404 from the endpoint.
    match handle_head(&store, "missing", Some("1.0.0")) {
        Err(TusError::NotFound(m)) => assert_eq!(m.as_str(), "missing"),
        _ => panic!("expected not-found"),
    }
}
