//! Queue message bodies exchanged by the pipeline stages.
//!
//! Each message names its resource by `object_name`; status messages are
//! discriminated by their variant.  The binaries serialize these to JSON
//! and back; the logic here only constructs and consumes the typed
//! values.

use vstd::prelude::*;

verus! {

use crate::media::{AudioData, FileType, ImageData, VideoData};
use crate::status::ResourceType;

/// Body of an `upload-queue` message: a fresh upload to scan.
#[derive(Debug)]
pub struct UploadMessage {
    pub presigned_url: String,
    pub file_size: usize,
    pub object_name: String,
}

/// Body of a `scan-queue` message: a clean upload to probe.
#[derive(Debug)]
pub struct ScanMessage {
    pub presigned_url: String,
    pub object_name: String,
}

/// Body of a per-kind processing-queue message: a probed upload with its
/// typed description.
#[derive(Debug)]
pub struct MetadataMessage {
    pub presigned_url: String,
    pub object_name: String,
    pub file_type: FileType,
}

/// Typed metadata carried by a `processed` status message: one entry per
/// produced rendition.
#[derive(Debug)]
pub enum ProducedResourceMetadata {
    Video(Vec<VideoData>),
    Audio(AudioData),
    Image(ImageData),
}

/// Body of a `status-queue` message, discriminated by status.
#[derive(Debug)]
pub enum ResourceStatusUpdateMessage {
    ResourceUploaded { user_id: String, object_name: String, file_name: String },
    ResourceProcessingFailed { object_name: String },
    ResourceProcessingStarted { object_name: String },
    ResourceTypeResolved { object_name: String, resource_type: ResourceType },
    ResourceProcessed { object_name: String, metadata: ProducedResourceMetadata },
}

/// Spec-level value of `ProducedResourceMetadata`.
pub enum ProducedMetadataV {
    Video(Seq<VideoData>),
    Audio(AudioData),
    Image(ImageData),
}

impl View for ProducedResourceMetadata {
    type V = ProducedMetadataV;

    open spec fn view(&self) -> ProducedMetadataV {
        match self {
            ProducedResourceMetadata::Video(v) => ProducedMetadataV::Video(v@),
            ProducedResourceMetadata::Audio(a) => ProducedMetadataV::Audio(*a),
            ProducedResourceMetadata::Image(i) => ProducedMetadataV::Image(*i),
        }
    }
}

/// Spec-level value of `ResourceStatusUpdateMessage`.
pub enum StatusMessageV {
    Uploaded { user_id: Seq<char>, object_name: Seq<char>, file_name: Seq<char> },
    Failed { object_name: Seq<char> },
    Started { object_name: Seq<char> },
    TypeResolved { object_name: Seq<char>, resource_type: ResourceType },
    Processed { object_name: Seq<char>, metadata: ProducedMetadataV },
}

impl View for ResourceStatusUpdateMessage {
    type V = StatusMessageV;

    open spec fn view(&self) -> StatusMessageV {
        match self {
            ResourceStatusUpdateMessage::ResourceUploaded { user_id, object_name, file_name } => {
                StatusMessageV::Uploaded {
                    user_id: user_id@,
                    object_name: object_name@,
                    file_name: file_name@,
                }
            },
            ResourceStatusUpdateMessage::ResourceProcessingFailed { object_name } => {
                StatusMessageV::Failed { object_name: object_name@ }
            },
            ResourceStatusUpdateMessage::ResourceProcessingStarted { object_name } => {
                StatusMessageV::Started { object_name: object_name@ }
            },
            ResourceStatusUpdateMessage::ResourceTypeResolved { object_name, resource_type } => {
                StatusMessageV::TypeResolved {
                    object_name: object_name@,
                    resource_type: *resource_type,
                }
            },
            ResourceStatusUpdateMessage::ResourceProcessed { object_name, metadata } => {
                StatusMessageV::Processed { object_name: object_name@, metadata: metadata@ }
            },
        }
    }
}

/// The two messages emitted when a fresh upload commits: the scan job
/// and the `uploaded` status.
pub fn build_upload_messages(
    user_id: &str,
    presigned_url: &str,
    object_name: &str,
    file_name: &str,
    file_size: usize,
) -> (r: (UploadMessage, ResourceStatusUpdateMessage))
    ensures
        r.0.presigned_url@ == presigned_url@,
        r.0.file_size == file_size,
        r.0.object_name@ == object_name@,
        r.1 matches ResourceStatusUpdateMessage::ResourceUploaded {
            user_id: u,
            object_name: o,
            file_name: f,
        } && u@ == user_id@ && o@ == object_name@ && f@ == file_name@,
{
    (
        UploadMessage {
            presigned_url: presigned_url.to_owned(),
            file_size,
            object_name: object_name.to_owned(),
        },
        ResourceStatusUpdateMessage::ResourceUploaded {
            user_id: user_id.to_owned(),
            object_name: object_name.to_owned(),
            file_name: file_name.to_owned(),
        },
    )
}

/// The events the probe stage emits: a recognized media type goes to its
/// processing queue and resolves the resource type; anything else fails
/// the resource.
pub fn probe_stage_events(presigned_url: &str, object_name: &str, file_type: &FileType) -> (r: (
    Option<MetadataMessage>,
    ResourceStatusUpdateMessage,
))
    ensures
        !(*file_type is Other) ==> (r.0 matches Some(m) && m.presigned_url@ == presigned_url@
            && m.object_name@ == object_name@ && m.file_type == *file_type),
        !(*file_type is Other) ==> (r.1 matches ResourceStatusUpdateMessage::ResourceTypeResolved {
            object_name: o,
            resource_type,
        } && o@ == object_name@ && resource_type == crate::media::spec_resource_type(*file_type)),
        *file_type is Other ==> r.0 is None,
        *file_type is Other ==> (r.1
            matches ResourceStatusUpdateMessage::ResourceProcessingFailed { object_name: o } && o@
            == object_name@),
{
    if file_type.is_media_type() {
        (
            Some(
                MetadataMessage {
                    presigned_url: presigned_url.to_owned(),
                    object_name: object_name.to_owned(),
                    file_type: *file_type,
                },
            ),
            ResourceStatusUpdateMessage::ResourceTypeResolved {
                object_name: object_name.to_owned(),
                resource_type: file_type.resource_type(),
            },
        )
    } else {
        (
            None,
            ResourceStatusUpdateMessage::ResourceProcessingFailed {
                object_name: object_name.to_owned(),
            },
        )
    }
}

/// The `processed` status message the transcoder emits: one metadata
/// entry per produced rendition, each carrying the source duration.
pub fn transcoder_processed_message(
    object_name: &str,
    renditions: &Vec<crate::ladder::Rendition>,
    duration: u32,
) -> (r: ResourceStatusUpdateMessage)
    ensures
        r matches ResourceStatusUpdateMessage::ResourceProcessed { object_name: o, metadata }
            && o@ == object_name@ && (metadata@ matches ProducedMetadataV::Video(list) && list.len()
            == renditions@.len() && forall|j: int|
            0 <= j < list.len() ==> #[trigger] list[j] == (VideoData {
                duration,
                width: renditions@[j].width,
                height: renditions@[j].height,
                bitrate: renditions@[j].video_bitrate,
                frame_rate: renditions@[j].frame_rate,
            })),
{
    let n = renditions.len();
    let mut list: Vec<VideoData> = Vec::new();
    let mut i: usize = 0;
    while i < n
        invariant
            0 <= i <= n,
            n == renditions@.len(),
            list@.len() == i,
            forall|j: int|
                0 <= j < i ==> #[trigger] list@[j] == (VideoData {
                    duration,
                    width: renditions@[j].width,
                    height: renditions@[j].height,
                    bitrate: renditions@[j].video_bitrate,
                    frame_rate: renditions@[j].frame_rate,
                }),
        decreases n - i,
    {
        let rd = &renditions[i];
        list.push(
            VideoData {
                duration,
                width: rd.width,
                height: rd.height,
                bitrate: rd.video_bitrate,
                frame_rate: rd.frame_rate,
            },
        );
        i = i + 1;
    }
    ResourceStatusUpdateMessage::ResourceProcessed {
        object_name: object_name.to_owned(),
        metadata: ProducedResourceMetadata::Video(list),
    }
}

} // verus!
