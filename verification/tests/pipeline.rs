//! The projector, the scan and probe stages, and the transcoder planner.

use media_pipeline::ladder::{plan_renditions, Rendition};
use media_pipeline::media::{AudioData, FileType, VideoData};
use media_pipeline::messages::{
    build_upload_messages, probe_stage_events, transcoder_processed_message,
    ResourceStatusUpdateMessage,
};
use media_pipeline::probe::{create_metadata_object, Media, MediaInfo, Track};
use media_pipeline::resources::{
    apply_status_message, get_active_resource_by_id, get_highest_quality_video_metadata,
    ResourceStore,
};
use media_pipeline::scan::{evaluate_scan_response, scan_skipped, scan_stage_events, ScanOutcome};
use media_pipeline::status::{resource_type_from_str, ResourceStatus, ResourceType};

fn empty_store() -> ResourceStore {
    ResourceStore { resources: vec![], video_metadata: vec![] }
}

fn uploaded(object: &str) -> ResourceStatusUpdateMessage {
    ResourceStatusUpdateMessage::ResourceUploaded {
        user_id: "owner".to_string(),
        object_name: object.to_string(),
        file_name: "movie.mp4".to_string(),
    }
}

fn source_1080p60() -> VideoData {
    VideoData { duration: 120, width: 1920, height: 1080, bitrate: 10_485_760, frame_rate: 60 }
}

#[test]
fn status_walks_the_full_lifecycle() {
    let mut store = empty_store();
    apply_status_message(&mut store, &uploaded("res-1"));
    assert_eq!(store.resources.len(), 1);
    assert_eq!(store.resources[0].resource_status, ResourceStatus::Pending);

    apply_status_message(
        &mut store,
        &ResourceStatusUpdateMessage::ResourceProcessingStarted { object_name: "res-1".to_string() },
    );
    assert_eq!(store.resources[0].resource_status, ResourceStatus::Processing);

    apply_status_message(
        &mut store,
        &ResourceStatusUpdateMessage::ResourceTypeResolved {
            object_name: "res-1".to_string(),
            resource_type: ResourceType::Video,
        },
    );
    assert_eq!(store.resources[0].resource_status, ResourceStatus::TypeResolved);
    assert_eq!(store.resources[0].resource_type, ResourceType::Video);

    let renditions = plan_renditions(&source_1080p60());
    apply_status_message(
        &mut store,
        &transcoder_processed_message("res-1", &renditions, 120),
    );
    assert_eq!(store.resources[0].resource_status, ResourceStatus::Processed);
    assert_eq!(store.video_metadata.len(), 5);
}

#[test]
fn projection_is_idempotent() {
    let mut store = empty_store();
    apply_status_message(&mut store, &uploaded("res-1"));
    apply_status_message(&mut store, &uploaded("res-1"));
    assert_eq!(store.resources.len(), 1);

    let started =
        ResourceStatusUpdateMessage::ResourceProcessingStarted { object_name: "res-1".to_string() };
    apply_status_message(&mut store, &started);
    apply_status_message(&mut store, &started);
    assert_eq!(store.resources.len(), 1);
    assert_eq!(store.resources[0].resource_status, ResourceStatus::Processing);

    let renditions = plan_renditions(&source_1080p60());
    let processed = transcoder_processed_message("res-1", &renditions, 120);
    apply_status_message(&mut store, &processed);
    apply_status_message(&mut store, &processed);
    // Re-delivery writes no second batch of metadata rows.
    assert_eq!(store.video_metadata.len(), 5);
}

#[test]
fn failed_is_absorbing() {
    let mut store = empty_store();
    apply_status_message(&mut store, &uploaded("res-1"));
    apply_status_message(
        &mut store,
        &ResourceStatusUpdateMessage::ResourceProcessingFailed { object_name: "res-1".to_string() },
    );
    assert_eq!(store.resources[0].resource_status, ResourceStatus::Failed);
    apply_status_message(
        &mut store,
        &ResourceStatusUpdateMessage::ResourceProcessingStarted { object_name: "res-1".to_string() },
    );
    assert_eq!(store.resources[0].resource_status, ResourceStatus::Failed);
}

#[test]
fn infected_file_fails_the_resource() {
    let mut store = empty_store();
    apply_status_message(&mut store, &uploaded("res-1"));

    let outcome = evaluate_scan_response(&b"stream: Eicar-Signature FOUND\0".to_vec());
    assert_eq!(outcome, ScanOutcome::Infected);

    let (upload_msg, _status) = build_upload_messages(
        "owner",
        "https://signed.example/res-1",
        "res-1",
        "movie.mp4",
        1024,
    );
    let (next, status) = scan_stage_events(&upload_msg, outcome == ScanOutcome::Clean);
    assert!(next.is_none());
    apply_status_message(&mut store, &status);
    assert_eq!(store.resources[0].resource_status, ResourceStatus::Failed);
}

#[test]
fn clean_scan_moves_on_to_the_probe() {
    let outcome = evaluate_scan_response(&b"stream: OK\0".to_vec());
    assert_eq!(outcome, ScanOutcome::Clean);
    let (upload_msg, _) =
        build_upload_messages("owner", "https://signed.example/res-1", "res-1", "movie.mp4", 9);
    let (next, status) = scan_stage_events(&upload_msg, true);
    let next = next.unwrap();
    assert_eq!(next.object_name, "res-1");
    assert_eq!(next.presigned_url, "https://signed.example/res-1");
    assert!(matches!(
        status,
        ResourceStatusUpdateMessage::ResourceProcessingStarted { .. }
    ));
}

#[test]
fn large_files_skip_the_scan() {
    assert!(scan_skipped(100 * 1024 * 1024, 100));
    assert!(!scan_skipped(100 * 1024 * 1024 - 1, 100));
}

#[test]
fn ladder_for_a_1080p60_source() {
    let renditions = plan_renditions(&source_1080p60());
    assert_eq!(renditions.len(), 5);
    let widths: Vec<u32> = renditions.iter().map(|r| r.width).collect();
    assert_eq!(widths, vec![256, 480, 854, 1280, 1920]);
    let heights: Vec<u32> = renditions.iter().map(|r| r.height).collect();
    assert_eq!(heights, vec![144, 270, 481, 720, 1080]);

    // The top rung runs at 60 fps and earns the half-again boost:
    // min(8388608, 10485760) * 3 / 2.
    let top: &Rendition = &renditions[4];
    assert_eq!(top.frame_rate, 60);
    assert_eq!(top.video_bitrate, 12_582_912);
    assert_eq!(top.maximum_bitrate, 12_582_912 * 3 / 2);
    assert_eq!(top.buffer_size, 2 * 12_582_912);
    assert_eq!(top.keyframe_interval, 300);

    // The lowest rung is capped at 30 fps, no boost.
    let low: &Rendition = &renditions[0];
    assert_eq!(low.frame_rate, 30);
    assert_eq!(low.video_bitrate, 256_000);
    assert_eq!(low.keyframe_interval, 150);
}

#[test]
fn ladder_for_a_narrow_source() {
    let video = VideoData { duration: 5, width: 400, height: 300, bitrate: 100_000, frame_rate: 25 };
    let renditions = plan_renditions(&video);
    assert_eq!(renditions.len(), 1);
    assert_eq!(renditions[0].width, 256);
    assert_eq!(renditions[0].height, 192);
    assert_eq!(renditions[0].frame_rate, 25);
    assert_eq!(renditions[0].video_bitrate, 100_000);
}

#[test]
fn processed_message_carries_one_entry_per_rendition() {
    let renditions = plan_renditions(&source_1080p60());
    let msg = transcoder_processed_message("res-1", &renditions, 120);
    match msg {
        ResourceStatusUpdateMessage::ResourceProcessed { object_name, metadata } => {
            assert_eq!(object_name, "res-1");
            match metadata {
                media_pipeline::messages::ProducedResourceMetadata::Video(list) => {
                    assert_eq!(list.len(), 5);
                    assert_eq!(list[4].width, 1920);
                    assert_eq!(list[4].bitrate, 12_582_912);
                    assert_eq!(list[4].duration, 120);
                }
                other => panic!("wrong metadata: {:?}", other),
            }
        }
        other => panic!("wrong message: {:?}", other),
    }
}

#[test]
fn highest_quality_row_wins() {
    let mut store = empty_store();
    apply_status_message(&mut store, &uploaded("res-1"));
    apply_status_message(
        &mut store,
        &ResourceStatusUpdateMessage::ResourceTypeResolved {
            object_name: "res-1".to_string(),
            resource_type: ResourceType::Video,
        },
    );
    let renditions = plan_renditions(&source_1080p60());
    apply_status_message(&mut store, &transcoder_processed_message("res-1", &renditions, 120));
    let best = get_highest_quality_video_metadata(&store, "res-1").unwrap();
    assert_eq!(best.width, 1920);
    assert_eq!(best.height, 1080);
    assert!(get_highest_quality_video_metadata(&store, "res-2").is_none());
    assert!(get_active_resource_by_id(&store, "res-1").is_some());
}

#[test]
fn probe_classifies_by_general_track_counts() {
    let info = MediaInfo {
        media: Media {
            track: vec![
                Track::General {
                    file_size: "123456".to_string(),
                    duration: Some("5.312".to_string()),
                    format: Some("MPEG-4".to_string()),
                    video_count: Some("1".to_string()),
                    audio_count: Some("1".to_string()),
                    image_count: None,
                    other_count: None,
                },
                Track::Video {
                    width: "1920".to_string(),
                    height: "1080".to_string(),
                    duration: "5.312".to_string(),
                    frame_rate: "29.970".to_string(),
                    bitrate: "10485760".to_string(),
                },
                Track::Audio {
                    duration: "5.312".to_string(),
                    bitrate: "128000".to_string(),
                    sample_rate: "48000".to_string(),
                },
            ],
        },
    };
    match create_metadata_object(&info) {
        FileType::Video { video, audio } => {
            assert_eq!(video.width, 1920);
            assert_eq!(video.height, 1080);
            assert_eq!(video.duration, 5);
            assert_eq!(video.frame_rate, 29);
            assert_eq!(video.bitrate, 10_485_760);
            let audio = audio.unwrap();
            assert_eq!(audio.bitrate, 128_000);
            assert_eq!(audio.sample_rate, 48_000);
        }
        other => panic!("expected video: {:?}", other),
    }
}

#[test]
fn probe_falls_back_to_other() {
    let info = MediaInfo {
        media: Media {
            track: vec![Track::General {
                file_size: "10".to_string(),
                duration: None,
                format: None,
                video_count: Some("0".to_string()),
                audio_count: None,
                image_count: None,
                other_count: None,
            }],
        },
    };
    assert!(matches!(create_metadata_object(&info), FileType::Other));
}

#[test]
fn probe_events_route_by_kind() {
    let video = FileType::Video {
        video: source_1080p60(),
        audio: Some(AudioData { duration: 120, bitrate: 128_000, sample_rate: 48_000 }),
    };
    let (processing, status) = probe_stage_events("https://signed", "res-1", &video);
    assert!(processing.is_some());
    match status {
        ResourceStatusUpdateMessage::ResourceTypeResolved { resource_type, .. } => {
            assert_eq!(resource_type, ResourceType::Video);
        }
        other => panic!("wrong status: {:?}", other),
    }

    let (none, failed) = probe_stage_events("https://signed", "res-1", &FileType::Other);
    assert!(none.is_none());
    assert!(matches!(
        failed,
        ResourceStatusUpdateMessage::ResourceProcessingFailed { .. }
    ));
}

#[test]
fn ladder_rungs_enter_exactly_at_their_width() {
    let mut video =
        VideoData { duration: 1, width: 479, height: 270, bitrate: 1_000_000, frame_rate: 30 };
    assert_eq!(plan_renditions(&video).len(), 1);
    video.width = 480;
    assert_eq!(plan_renditions(&video).len(), 2);
    video.width = 853;
    assert_eq!(plan_renditions(&video).len(), 2);
    video.width = 854;
    assert_eq!(plan_renditions(&video).len(), 3);
    video.width = 1280;
    assert_eq!(plan_renditions(&video).len(), 4);
    video.width = 1919;
    assert_eq!(plan_renditions(&video).len(), 4);
    video.width = 1920;
    assert_eq!(plan_renditions(&video).len(), 5);
}

#[test]
fn resource_type_wire_names_round_trip() {
    assert_eq!(resource_type_from_str("video"), ResourceType::Video);
    assert_eq!(resource_type_from_str("audio"), ResourceType::Audio);
    assert_eq!(resource_type_from_str("image"), ResourceType::Image);
    assert_eq!(resource_type_from_str("other"), ResourceType::Other);
    assert_eq!(resource_type_from_str("anything-else"), ResourceType::Unknown);
    assert_eq!(resource_type_from_str(ResourceType::Video.as_str()), ResourceType::Video);
}

#[test]
fn file_type_names() {
    assert_eq!(FileType::Other.as_str(), "other");
    assert_eq!(ResourceType::Video.as_str(), "video");
    assert_eq!(ResourceStatus::TypeResolved.as_str(), "type_resolved");
    assert!(!FileType::Other.is_media_type());
}
