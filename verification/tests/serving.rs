//! Serving decisions, egress accounting, oEmbed, and the text helpers.

use media_pipeline::api::{
    find_query_param, iframe_html, list_resources, oembed_for_url, resource_metadata,
    set_resource_public_status, OEmbedFailure, OEmbedResourceType, UserInfo,
};
use media_pipeline::ladder::plan_renditions;
use media_pipeline::media::VideoData;
use media_pipeline::messages::{transcoder_processed_message, ResourceStatusUpdateMessage};
use media_pipeline::resources::{apply_status_message, ResourceStore};
use media_pipeline::serve::{
    get_object_path, has_access_to_resource, send_resource_decision, transfer_quota_exceeded,
    update_quota_used, EgressLedger, ServeDecision, TransferQuotaRecord,
};
use media_pipeline::status::{ResourceStatus, ResourceType};

const MB: i64 = 1024 * 1024;

fn caller(id: &str) -> Option<UserInfo> {
    Some(UserInfo {
        user_id: id.to_string(),
        display_name: "Someone".to_string(),
        email: "someone@example.test".to_string(),
    })
}

fn video_store(object: &str, public: bool) -> ResourceStore {
    let mut store = ResourceStore { resources: vec![], video_metadata: vec![] };
    apply_status_message(
        &mut store,
        &ResourceStatusUpdateMessage::ResourceUploaded {
            user_id: "owner".to_string(),
            object_name: object.to_string(),
            file_name: "movie.mp4".to_string(),
        },
    );
    apply_status_message(
        &mut store,
        &ResourceStatusUpdateMessage::ResourceTypeResolved {
            object_name: object.to_string(),
            resource_type: ResourceType::Video,
        },
    );
    let source =
        VideoData { duration: 120, width: 1920, height: 1080, bitrate: 10_485_760, frame_rate: 60 };
    let renditions = plan_renditions(&source);
    apply_status_message(&mut store, &transcoder_processed_message(object, &renditions, 120));
    store.resources[0].is_public = public;
    store
}

#[test]
fn owner_and_public_may_fetch_others_may_not() {
    let store = video_store("res-1", false);
    let res = &store.resources[0];

    assert!(has_access_to_resource(&caller("owner"), res));
    assert!(!has_access_to_resource(&caller("stranger"), res));
    assert!(!has_access_to_resource(&None, res));

    match send_resource_decision(
        Some(res),
        &caller("owner"),
        ResourceType::Video,
        "master.m3u8",
        false,
        1024,
        0,
    ) {
        ServeDecision::Fetch { object_key } => assert_eq!(object_key, "resource/res-1/master.m3u8"),
        other => panic!("owner refused: {:?}", other),
    }
    assert!(matches!(
        send_resource_decision(
            Some(res),
            &caller("stranger"),
            ResourceType::Video,
            "master.m3u8",
            false,
            1024,
            0,
        ),
        ServeDecision::NotFound
    ));
    assert!(matches!(
        send_resource_decision(
            Some(res),
            &caller("owner"),
            ResourceType::Image,
            "master.m3u8",
            false,
            1024,
            0,
        ),
        ServeDecision::NotFound
    ));
    assert!(matches!(
        send_resource_decision(None, &caller("owner"), ResourceType::Video, "f", false, 1024, 0),
        ServeDecision::NotFound
    ));
}

#[test]
fn stream_assets_are_keyed_under_the_resource() {
    let store = video_store("res-1", true);
    let res = &store.resources[0];
    match send_resource_decision(
        Some(res),
        &None,
        ResourceType::Video,
        "stream_2/data0004.ts",
        false,
        1024,
        0,
    ) {
        ServeDecision::Fetch { object_key } => {
            assert_eq!(object_key, "resource/res-1/stream_2/data0004.ts")
        }
        other => panic!("public fetch refused: {:?}", other),
    }
    assert_eq!(get_object_path("res-1"), "resource/res-1");
}

#[test]
fn egress_quota_refuses_after_the_daily_allowance() {
    // 10 MB allowance, 12 MB already served today.
    assert!(transfer_quota_exceeded(true, 10, 12 * MB));
    assert!(!transfer_quota_exceeded(true, 10, 10 * MB));
    assert!(!transfer_quota_exceeded(false, 10, 12 * MB));

    let store = video_store("res-1", true);
    let res = &store.resources[0];
    assert!(matches!(
        send_resource_decision(Some(res), &None, ResourceType::Video, "master.m3u8", true, 10, 12 * MB),
        ServeDecision::PaymentRequired
    ));
}

#[test]
fn egress_ledger_accumulates_and_rolls_over() {
    let mut ledger = EgressLedger { rows: vec![] };
    let today = 20_000u64;
    assert!(update_quota_used(&mut ledger, today, 6 * MB, true, 10).is_ok());
    assert!(update_quota_used(&mut ledger, today, 6 * MB, true, 10).is_ok());
    assert_eq!(ledger.rows.len(), 1);
    assert_eq!(ledger.rows[0].quota_used, 12 * MB);
    // The allowance is spent now.
    assert!(update_quota_used(&mut ledger, today, 1, true, 10).is_err());
    // The next calendar day starts fresh.
    assert!(update_quota_used(&mut ledger, today + 1, 1 * MB, true, 10).is_ok());
    assert_eq!(ledger.rows.len(), 2);
    // Non-positive amounts are rejected.
    assert!(update_quota_used(&mut ledger, today + 1, 0, true, 10).is_err());
}

#[test]
fn ledger_rows_can_be_inspected() {
    let ledger = EgressLedger {
        rows: vec![TransferQuotaRecord { day: 3, quota_used: 7 }],
    };
    assert_eq!(media_pipeline::serve::get_used_daily_quota(&ledger, 3), Some(7));
    assert_eq!(media_pipeline::serve::get_used_daily_quota(&ledger, 4), None);
}

#[test]
fn listing_shows_newest_first_and_skips_other_users() {
    let mut store = video_store("res-1", false);
    apply_status_message(
        &mut store,
        &ResourceStatusUpdateMessage::ResourceUploaded {
            user_id: "owner".to_string(),
            object_name: "res-2".to_string(),
            file_name: "second.mp4".to_string(),
        },
    );
    apply_status_message(
        &mut store,
        &ResourceStatusUpdateMessage::ResourceUploaded {
            user_id: "somebody-else".to_string(),
            object_name: "res-3".to_string(),
            file_name: "third.mp4".to_string(),
        },
    );
    let listed = list_resources(&store, "owner");
    assert_eq!(listed.len(), 2);
    assert_eq!(listed[0].id, "res-2");
    assert_eq!(listed[1].id, "res-1");
    assert_eq!(listed[1].resource_type, "video");
    assert_eq!(listed[1].resource_status, "processed");
    assert_eq!(listed[0].resource_status, "pending");
}

#[test]
fn only_the_owner_flips_the_public_flag() {
    let mut store = video_store("res-1", false);
    assert!(set_resource_public_status(&mut store, "stranger", "res-1", true).is_err());
    assert!(!store.resources[0].is_public);
    assert!(set_resource_public_status(&mut store, "owner", "res-1", true).is_ok());
    assert!(store.resources[0].is_public);
}

#[test]
fn oembed_reply_for_a_video() {
    let store = video_store("res-1", true);
    let reply = oembed_for_url(
        &store,
        "https://media.example/player.html?resource_id=res-1",
        &None,
        "https://media.example/",
    )
    .expect("public video embeds");
    assert_eq!(reply.version, "1.0");
    assert_eq!(reply.title, "movie.mp4");
    assert_eq!(reply.provider_name.as_deref(), Some("Hipsutuubi"));
    assert_eq!(reply.cache_age, Some(3600));
    assert_eq!(
        reply.thumbnail_url.as_deref(),
        Some("https://media.example//resource/res-1/thumbnail.jpg")
    );
    match reply.resource {
        OEmbedResourceType::Video { html, width, height } => {
            assert_eq!(width, 1920);
            assert_eq!(height, 1080);
            assert_eq!(
                html,
                "<iframe width=\"1920\" height=\"1080\" src=\"https://media.example/player.html?resource_id=res-1\" frameborder=\"0\" allow=\"autoplay; picture-in-picture\" allowfullscreen></iframe>"
            );
        }
        other => panic!("wrong oEmbed type: {:?}", other),
    }
}

#[test]
fn oembed_refusals() {
    let store = video_store("res-1", false);
    // Not a URL at all.
    assert_eq!(
        oembed_for_url(&store, "not a url", &None, "https://d/").unwrap_err(),
        OEmbedFailure::BadRequest
    );
    // No resource_id parameter.
    assert_eq!(
        oembed_for_url(&store, "https://d/player.html?x=1", &None, "https://d/").unwrap_err(),
        OEmbedFailure::BadRequest
    );
    // Private video, anonymous caller.
    assert_eq!(
        oembed_for_url(&store, "https://d/player.html?resource_id=res-1", &None, "https://d/")
            .unwrap_err(),
        OEmbedFailure::NotFound
    );
    // Unknown resource.
    assert_eq!(
        oembed_for_url(&store, "https://d/player.html?resource_id=res-9", &None, "https://d/")
            .unwrap_err(),
        OEmbedFailure::NotFound
    );
}

#[test]
fn metadata_reply_for_a_video() {
    let store = video_store("res-1", true);
    let reply = resource_metadata(&store, "res-1", &None).expect("public video has metadata");
    assert_eq!(reply.id, "res-1");
    assert_eq!(reply.name, "movie.mp4");
    assert_eq!(reply.status, "processed");
    let media_pipeline::api::ResourceMetadata::Video { width, height, .. } =
        reply.resource_metadata;
    assert_eq!(width, 1920);
    assert_eq!(height, 1080);

    let private = video_store("res-2", false);
    assert!(resource_metadata(&private, "res-2", &None).is_none());
    assert!(resource_metadata(&private, "res-2", &caller("owner")).is_some());
}

#[test]
fn metadata_reply_picks_the_best_row_wherever_it_sits() {
    let mut store = ResourceStore { resources: vec![], video_metadata: vec![] };
    apply_status_message(
        &mut store,
        &ResourceStatusUpdateMessage::ResourceUploaded {
            user_id: "owner".to_string(),
            object_name: "res-1".to_string(),
            file_name: "movie.mp4".to_string(),
        },
    );
    apply_status_message(
        &mut store,
        &ResourceStatusUpdateMessage::ResourceTypeResolved {
            object_name: "res-1".to_string(),
            resource_type: ResourceType::Video,
        },
    );
    // Best row first, lower rows after: the reply must still carry it.
    media_pipeline::resources::insert_video_metadata(
        &mut store, "res-1", 1920, 1080, 120, 8_000_000, 60,
    );
    media_pipeline::resources::insert_video_metadata(
        &mut store, "res-1", 256, 144, 120, 250_000, 30,
    );
    store.resources[0].is_public = true;
    let reply = resource_metadata(&store, "res-1", &None).unwrap();
    let media_pipeline::api::ResourceMetadata::Video { width, height, bit_rate, .. } =
        reply.resource_metadata;
    assert_eq!((width, height, bit_rate), (1920, 1080, 8_000_000));
}

#[test]
fn query_params_find_the_first_match() {
    let pairs = vec![
        ("a".to_string(), "1".to_string()),
        ("resource_id".to_string(), "first".to_string()),
        ("resource_id".to_string(), "second".to_string()),
    ];
    assert_eq!(find_query_param(&pairs, "resource_id").as_deref(), Some("first"));
    assert_eq!(find_query_param(&pairs, "missing"), None);
}

#[test]
fn iframe_markup_embeds_the_player() {
    let html = iframe_html(640, 360, "https://d/", "abc");
    assert!(html.contains("width=\"640\""));
    assert!(html.contains("height=\"360\""));
    assert!(html.contains("src=\"https://d/player.html?resource_id=abc\""));
}
