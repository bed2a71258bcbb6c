//! End-to-end upload scenarios: quota admission for direct and chunked
//! uploads, part assembly, and integrity checking.

use media_pipeline::api::{
    admit_chunk, check_integrity, direct_upload_commit, init_chunk_upload_admission,
    prepare_complete_chunk_upload, user_quota_response, ChunkAdmission, CompleteDecision,
    DirectUploadOutcome,
};
use media_pipeline::uploads::{
    abort_chunk_upload, complete_chunk_upload, get_active_chunk_upload, get_uploaded_parts,
    init_chunk_upload, record_uploaded_chunk, used_user_quota, IntegrityCheckType, UploadStore,
    UserUploadQuota,
};

const MB: i64 = 1024 * 1024;
const CHUNK: i64 = 5 * 1024 * 1024;

fn store_with_quota(user: &str, quota: i64) -> UploadStore {
    UploadStore {
        user_quotas: vec![UserUploadQuota { user_id: user.to_string(), upload_quota: quota }],
        user_uploads: vec![],
        chunk_uploads: vec![],
        chunk_information: vec![],
    }
}

#[test]
fn direct_upload_under_quota_commits() {
    let mut store = store_with_quota("owner", 100 * MB);
    let outcome = direct_upload_commit(&mut store, "owner", "obj-1", 40 * MB);
    assert!(matches!(outcome, DirectUploadOutcome::Committed));
    assert_eq!(used_user_quota(&store, "owner"), 40 * MB);
    assert_eq!(store.user_uploads.len(), 1);
}

#[test]
fn direct_upload_over_quota_is_rolled_back() {
    let mut store = store_with_quota("owner", 100 * MB);
    let outcome = direct_upload_commit(&mut store, "owner", "obj-1", 120 * MB);
    assert!(matches!(outcome, DirectUploadOutcome::QuotaExceeded));
    assert_eq!(used_user_quota(&store, "owner"), 0);
    assert_eq!(store.user_uploads.len(), 0);
}

#[test]
fn quota_summary_reports_both_numbers() {
    let mut store = store_with_quota("owner", 100 * MB);
    direct_upload_commit(&mut store, "owner", "obj-1", 10 * MB);
    let summary = user_quota_response(&store, "owner");
    assert_eq!(summary.used_quota, 10 * MB);
    assert_eq!(summary.total_quota, 100 * MB);
}

#[test]
fn resumable_upload_of_three_chunks() {
    let mut store = store_with_quota("owner", 100 * MB);
    assert!(init_chunk_upload_admission(&store, "owner", 15 * 1024 * 1024).is_ok());
    init_chunk_upload(
        &mut store,
        "up-1",
        "aws-up-1",
        "owner",
        "movie.mp4",
        IntegrityCheckType::NoCheck,
        None,
        CHUNK,
    );
    assert!(get_active_chunk_upload(&store, "owner", "up-1").is_some());

    for index in 1..=3u32 {
        match admit_chunk(&store, "owner", "up-1", index, CHUNK as usize) {
            ChunkAdmission::Accept { object_name, aws_upload_id } => {
                assert_eq!(object_name, "up-1");
                assert_eq!(aws_upload_id, "aws-up-1");
            }
            other => panic!("chunk {} not accepted: {:?}", index, other),
        }
        record_uploaded_chunk(
            &mut store,
            "owner",
            "up-1",
            &format!("etag-{}", index),
            index,
            CHUNK,
        );
    }
    assert_eq!(used_user_quota(&store, "owner"), 15 * MB);

    match prepare_complete_chunk_upload(&store, "owner", "up-1") {
        CompleteDecision::Ready { object_name, aws_upload_id, parts } => {
            assert_eq!(object_name, "up-1");
            assert_eq!(aws_upload_id, "aws-up-1");
            assert_eq!(parts.len(), 3);
            for (i, p) in parts.iter().enumerate() {
                assert_eq!(p.part_number as usize, i + 1);
                assert_eq!(p.e_tag, format!("etag-{}", i + 1));
                assert_eq!(p.size, CHUNK);
            }
        }
        other => panic!("not ready: {:?}", other),
    }

    complete_chunk_upload(&mut store, "owner", "up-1");
    // The bytes moved from the chunk upload to one committed upload.
    assert_eq!(used_user_quota(&store, "owner"), 15 * MB);
    assert_eq!(store.user_uploads.len(), 1);
    assert_eq!(store.user_uploads[0].file_size, 15 * MB);
    assert!(get_active_chunk_upload(&store, "owner", "up-1").is_none());
}

#[test]
fn chunk_beyond_quota_is_refused() {
    let mut store = store_with_quota("owner", 12 * MB);
    init_chunk_upload(
        &mut store,
        "up-1",
        "aws-up-1",
        "owner",
        "movie.mp4",
        IntegrityCheckType::NoCheck,
        None,
        CHUNK,
    );
    record_uploaded_chunk(&mut store, "owner", "up-1", "etag-1", 1, CHUNK);
    record_uploaded_chunk(&mut store, "owner", "up-1", "etag-2", 2, CHUNK);
    match admit_chunk(&store, "owner", "up-1", 3, CHUNK as usize) {
        ChunkAdmission::QuotaExceeded { object_name, .. } => assert_eq!(object_name, "up-1"),
        other => panic!("expected quota refusal: {:?}", other),
    }
    // The compensating abort frees every byte the upload held.
    abort_chunk_upload(&mut store, "owner", "up-1");
    assert_eq!(used_user_quota(&store, "owner"), 0);
    assert!(get_active_chunk_upload(&store, "owner", "up-1").is_none());
    assert!(get_uploaded_parts(&store, "owner", "up-1").unwrap().is_empty());
}

#[test]
fn oversized_empty_and_duplicate_chunks_are_refused() {
    let mut store = store_with_quota("owner", 100 * MB);
    init_chunk_upload(
        &mut store,
        "up-1",
        "aws-up-1",
        "owner",
        "movie.mp4",
        IntegrityCheckType::NoCheck,
        None,
        CHUNK,
    );
    assert!(matches!(
        admit_chunk(&store, "owner", "up-1", 1, (CHUNK + 1) as usize),
        ChunkAdmission::TooLarge
    ));
    assert!(matches!(admit_chunk(&store, "owner", "up-1", 1, 0), ChunkAdmission::Empty));
    record_uploaded_chunk(&mut store, "owner", "up-1", "etag-1", 1, CHUNK);
    assert!(matches!(
        admit_chunk(&store, "owner", "up-1", 1, 1024),
        ChunkAdmission::Duplicate
    ));
    assert!(matches!(
        admit_chunk(&store, "owner", "missing", 1, 1024),
        ChunkAdmission::NotFound
    ));
}

#[test]
fn part_gap_is_refused_at_completion() {
    let mut store = store_with_quota("owner", 100 * MB);
    init_chunk_upload(
        &mut store,
        "up-1",
        "aws-up-1",
        "owner",
        "movie.mp4",
        IntegrityCheckType::NoCheck,
        None,
        CHUNK,
    );
    record_uploaded_chunk(&mut store, "owner", "up-1", "etag-1", 1, CHUNK);
    record_uploaded_chunk(&mut store, "owner", "up-1", "etag-3", 3, CHUNK);
    assert!(matches!(
        prepare_complete_chunk_upload(&store, "owner", "up-1"),
        CompleteDecision::PartGap
    ));
}

#[test]
fn completion_without_parts_is_refused() {
    let mut store = store_with_quota("owner", 100 * MB);
    init_chunk_upload(
        &mut store,
        "up-1",
        "aws-up-1",
        "owner",
        "movie.mp4",
        IntegrityCheckType::NoCheck,
        None,
        CHUNK,
    );
    assert!(matches!(
        prepare_complete_chunk_upload(&store, "owner", "up-1"),
        CompleteDecision::NoParts
    ));
    assert!(matches!(
        prepare_complete_chunk_upload(&store, "owner", "missing"),
        CompleteDecision::NotFound
    ));
}

#[test]
fn crc32_mismatch_is_rejected() {
    let expected = "DEADBEEF".to_string();
    let returned = "CAFEBABE".to_string();
    assert!(!check_integrity(IntegrityCheckType::Crc32, Some(&expected), Some(&returned)));
    let same = "DEADBEEF".to_string();
    assert!(check_integrity(IntegrityCheckType::Crc32, Some(&expected), Some(&same)));
    assert!(check_integrity(IntegrityCheckType::Crc32, Some(&expected), None));
    assert!(check_integrity(IntegrityCheckType::Crc32, None, Some(&returned)));
    assert!(check_integrity(IntegrityCheckType::NoCheck, Some(&expected), Some(&returned)));
}

#[test]
fn integrity_check_names() {
    assert_eq!(IntegrityCheckType::NoCheck.as_str(), "none");
    assert_eq!(IntegrityCheckType::Crc32.as_str(), "crc32");
}

#[test]
fn quota_admission_at_init() {
    let store = store_with_quota("owner", 100 * MB);
    let err = init_chunk_upload_admission(&store, "owner", (120 * MB) as usize).unwrap_err();
    assert_eq!(err.error, "quota_exceeded");
    assert!(init_chunk_upload_admission(&store, "owner", (100 * MB) as usize).is_ok());
}

#[test]
fn upload_object_path_layout() {
    assert_eq!(media_pipeline::uploads::get_object_path("abcd"), "upload/abcd");
}

#[test]
fn part_buffer_flushes_past_threshold() {
    let mut buffer = media_pipeline::uploads::PartBuffer::new();
    let chunk = vec![7u8; 3 * 1024 * 1024];
    assert!(buffer.push_chunk(&chunk).is_none());
    let flushed = buffer.push_chunk(&chunk).expect("second chunk crosses the threshold");
    assert_eq!(flushed.0, 1);
    assert_eq!(flushed.1.len(), 6 * 1024 * 1024);
    let tail = vec![1u8; 10];
    assert!(buffer.push_chunk(&tail).is_none());
    let (size, last) = buffer.finish();
    assert_eq!(size, 6 * 1024 * 1024 + 10);
    let last = last.expect("remainder flushes at the end");
    assert_eq!(last.0, 2);
    assert_eq!(last.1.len(), 10);
}
