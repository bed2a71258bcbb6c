//! The canonical resource store and the status projector.
//!
//! One record per uploaded resource, advancing along the lifecycle of
//! `crate::status`; per-rendition video metadata rows arrive when a
//! resource is processed.  The projector consumes status messages and is
//! idempotent: re-applying a message leaves the store unchanged, and no
//! message ever moves a status backwards.

use vstd::prelude::*;

verus! {

use crate::media::VideoData;
use crate::messages::{ProducedMetadataV, StatusMessageV, ResourceStatusUpdateMessage};
use crate::status::{can_advance, status_le, ResourceStatus, ResourceType};

/// One canonical resource record.
#[derive(Debug)]
pub struct ResourceRecord {
    pub id: String,
    pub user_id: String,
    pub is_public: bool,
    pub resource_name: String,
    pub resource_type: ResourceType,
    pub resource_status: ResourceStatus,
    pub deleted: bool,
}

/// One per-rendition video metadata row.
#[derive(Debug)]
pub struct VideoMetadataRecord {
    pub resource_id: String,
    pub width: u32,
    pub height: u32,
    pub duration_seconds: u32,
    pub bit_rate: u32,
    pub frame_rate: u32,
}

/// The resource store: records plus their video metadata rows.
#[derive(Debug)]
pub struct ResourceStore {
    pub resources: Vec<ResourceRecord>,
    pub video_metadata: Vec<VideoMetadataRecord>,
}

/// Spec-level value of a resource record.
#[verifier::ext_equal]
pub struct ResourceRecordV {
    pub id: Seq<char>,
    pub user_id: Seq<char>,
    pub is_public: bool,
    pub resource_name: Seq<char>,
    pub resource_type: ResourceType,
    pub resource_status: ResourceStatus,
    pub deleted: bool,
}

/// Spec-level value of a video metadata row.
#[verifier::ext_equal]
pub struct VideoMetadataRecordV {
    pub resource_id: Seq<char>,
    pub width: u32,
    pub height: u32,
    pub duration_seconds: u32,
    pub bit_rate: u32,
    pub frame_rate: u32,
}

/// Spec-level value of the resource store.
#[verifier::ext_equal]
pub struct ResourceStoreV {
    pub resources: Seq<ResourceRecordV>,
    pub video_metadata: Seq<VideoMetadataRecordV>,
}

impl View for ResourceRecord {
    type V = ResourceRecordV;

    open spec fn view(&self) -> ResourceRecordV {
        ResourceRecordV {
            id: self.id@,
            user_id: self.user_id@,
            is_public: self.is_public,
            resource_name: self.resource_name@,
            resource_type: self.resource_type,
            resource_status: self.resource_status,
            deleted: self.deleted,
        }
    }
}

impl View for VideoMetadataRecord {
    type V = VideoMetadataRecordV;

    open spec fn view(&self) -> VideoMetadataRecordV {
        VideoMetadataRecordV {
            resource_id: self.resource_id@,
            width: self.width,
            height: self.height,
            duration_seconds: self.duration_seconds,
            bit_rate: self.bit_rate,
            frame_rate: self.frame_rate,
        }
    }
}

impl View for ResourceStore {
    type V = ResourceStoreV;

    open spec fn view(&self) -> ResourceStoreV {
        ResourceStoreV {
            resources: self.resources@.map_values(|r: ResourceRecord| r@),
            video_metadata: self.video_metadata@.map_values(|r: VideoMetadataRecord| r@),
        }
    }
}

/// Index of the first record with this id.
pub open spec fn find_resource(rows: Seq<ResourceRecordV>, id: Seq<char>) -> Option<int>
    decreases rows.len(),
{
    if rows.len() == 0 {
        None
    } else if rows[0].id == id {
        Some(0)
    } else {
        match find_resource(rows.drop_first(), id) {
            Some(i) => Some(i + 1),
            None => None,
        }
    }
}

proof fn lemma_find_resource_at(rows: Seq<ResourceRecordV>, id: Seq<char>, i: int)
    requires
        0 <= i <= rows.len(),
        forall|j: int| 0 <= j < i ==> (#[trigger] rows[j]).id != id,
    ensures
        i == rows.len() ==> find_resource(rows, id) is None,
        i < rows.len() && rows[i].id == id ==> find_resource(rows, id) == Some(i),
    decreases i,
{
    if i > 0 {
        assert(forall|j: int|
            0 <= j < i - 1 ==> #[trigger] rows.drop_first()[j] == rows[j + 1]);
        lemma_find_resource_at(rows.drop_first(), id, i - 1);
    }
}

/// What `find_resource` finds is a first match.
pub proof fn lemma_find_resource_some(rows: Seq<ResourceRecordV>, id: Seq<char>)
    requires
        find_resource(rows, id) is Some,
    ensures
        ({
            let i = find_resource(rows, id).unwrap();
            &&& 0 <= i < rows.len()
            &&& rows[i].id == id
            &&& forall|j: int| 0 <= j < i ==> (#[trigger] rows[j]).id != id
        }),
    decreases rows.len(),
{
    if rows.len() > 0 && rows[0].id != id {
        lemma_find_resource_some(rows.drop_first(), id);
        let i = find_resource(rows, id).unwrap();
        assert(rows.drop_first()[i - 1] == rows[i]);
        assert forall|j: int| 0 <= j < i implies (#[trigger] rows[j]).id != id by {
            if j > 0 {
                assert(rows.drop_first()[j - 1] == rows[j]);
            }
        }
    }
}

/// Appending a record with a fresh id makes it the one `find_resource`
/// finds.
proof fn lemma_find_resource_push(rows: Seq<ResourceRecordV>, id: Seq<char>, r: ResourceRecordV)
    requires
        find_resource(rows, id) is None,
        r.id == id,
    ensures
        find_resource(rows.push(r), id) == Some(rows.len() as int),
    decreases rows.len(),
{
    if rows.len() == 0 {
        assert(rows.push(r)[0] == r);
    } else {
        assert(rows.push(r)[0] == rows[0]);
        assert(rows.push(r).drop_first() =~= rows.drop_first().push(r));
        lemma_find_resource_push(rows.drop_first(), id, r);
    }
}

/// Index of the first record with this id, by scan.
fn find_resource_index(store: &ResourceStore, id: &str) -> (r: Option<usize>)
    ensures
        match r {
            Some(i) => find_resource(store@.resources, id@) == Some(i as int),
            None => find_resource(store@.resources, id@) is None,
        },
{
    let n = store.resources.len();
    let mut i: usize = 0;
    while i < n
        invariant
            0 <= i <= n,
            n == store.resources@.len(),
            forall|j: int| 0 <= j < i ==> (#[trigger] store@.resources[j]).id != id@,
        decreases n - i,
    {
        assert(store@.resources[i as int] == store.resources@[i as int]@);
        if crate::text::str_eq(store.resources[i].id.as_str(), id) {
            proof {
                lemma_find_resource_at(store@.resources, id@, i as int);
            }
            return Some(i);
        }
        i = i + 1;
    }
    proof {
        lemma_find_resource_at(store@.resources, id@, n as int);
    }
    None
}

// ------------------------------------------------------------------
// Structural store operations.
// ------------------------------------------------------------------

/// Create a fresh resource record: pending, of unknown type, private.
pub fn create_resource(store: &mut ResourceStore, resource_uuid: &str, user_id: &str, resource_name: &str)
    ensures
        final(store)@.video_metadata == old(store)@.video_metadata,
        final(store)@.resources == old(store)@.resources.push(
            ResourceRecordV {
                id: resource_uuid@,
                user_id: user_id@,
                is_public: false,
                resource_name: resource_name@,
                resource_type: ResourceType::Unknown,
                resource_status: ResourceStatus::Pending,
                deleted: false,
            },
        ),
{
    store.resources.push(
        ResourceRecord {
            id: resource_uuid.to_owned(),
            user_id: user_id.to_owned(),
            is_public: false,
            resource_name: resource_name.to_owned(),
            resource_type: ResourceType::Unknown,
            resource_status: ResourceStatus::Pending,
            deleted: false,
        },
    );
    proof {
        assert(store@.resources =~= old(store)@.resources.push(
            ResourceRecordV {
                id: resource_uuid@,
                user_id: user_id@,
                is_public: false,
                resource_name: resource_name@,
                resource_type: ResourceType::Unknown,
                resource_status: ResourceStatus::Pending,
                deleted: false,
            },
        ));
    }
}

/// Set the status of the record with this id, if one exists.
pub fn update_resource_status(store: &mut ResourceStore, resource_uuid: &str, resource_status: ResourceStatus)
    ensures
        final(store)@.video_metadata == old(store)@.video_metadata,
        final(store)@.resources == (match find_resource(old(store)@.resources, resource_uuid@) {
            Some(i) => old(store)@.resources.update(
                i,
                ResourceRecordV {
                    resource_status: resource_status,
                    ..old(store)@.resources[i]
                },
            ),
            None => old(store)@.resources,
        }),
{
    match find_resource_index(store, resource_uuid) {
        Some(i) => {
            proof {
                lemma_find_resource_some(store@.resources, resource_uuid@);
            }
            let mut row = store.resources.remove(i);
            row.resource_status = resource_status;
            store.resources.insert(i, row);
            proof {
                assert(store@.resources =~= old(store)@.resources.update(
                    i as int,
                    ResourceRecordV {
                        resource_status: resource_status,
                        ..old(store)@.resources[i as int]
                    },
                ));
            }
        },
        None => {
            proof {
                assert(store@.resources =~= old(store)@.resources);
            }
        },
    }
}

/// Set the resolved type of the record with this id, if one exists.
pub fn update_resource_type(store: &mut ResourceStore, resource_uuid: &str, resource_type: ResourceType)
    ensures
        final(store)@.video_metadata == old(store)@.video_metadata,
        final(store)@.resources == (match find_resource(old(store)@.resources, resource_uuid@) {
            Some(i) => old(store)@.resources.update(
                i,
                ResourceRecordV { resource_type: resource_type, ..old(store)@.resources[i] },
            ),
            None => old(store)@.resources,
        }),
{
    match find_resource_index(store, resource_uuid) {
        Some(i) => {
            proof {
                lemma_find_resource_some(store@.resources, resource_uuid@);
            }
            let mut row = store.resources.remove(i);
            row.resource_type = resource_type;
            store.resources.insert(i, row);
            proof {
                assert(store@.resources =~= old(store)@.resources.update(
                    i as int,
                    ResourceRecordV {
                        resource_type: resource_type,
                        ..old(store)@.resources[i as int]
                    },
                ));
            }
        },
        None => {
            proof {
                assert(store@.resources =~= old(store)@.resources);
            }
        },
    }
}

/// Set the public flag of the record with this id, if one exists.
pub fn update_resource_public_status(store: &mut ResourceStore, resource_uuid: &str, is_public: bool)
    ensures
        final(store)@.video_metadata == old(store)@.video_metadata,
        final(store)@.resources == (match find_resource(old(store)@.resources, resource_uuid@) {
            Some(i) => old(store)@.resources.update(
                i,
                ResourceRecordV { is_public: is_public, ..old(store)@.resources[i] },
            ),
            None => old(store)@.resources,
        }),
{
    match find_resource_index(store, resource_uuid) {
        Some(i) => {
            proof {
                lemma_find_resource_some(store@.resources, resource_uuid@);
            }
            let mut row = store.resources.remove(i);
            row.is_public = is_public;
            store.resources.insert(i, row);
            proof {
                assert(store@.resources =~= old(store)@.resources.update(
                    i as int,
                    ResourceRecordV { is_public: is_public, ..old(store)@.resources[i as int] },
                ));
            }
        },
        None => {
            proof {
                assert(store@.resources =~= old(store)@.resources);
            }
        },
    }
}

/// Append one video metadata row.
pub fn insert_video_metadata(
    store: &mut ResourceStore,
    resource_uuid: &str,
    width: u32,
    height: u32,
    duration_seconds: u32,
    bit_rate: u32,
    frame_rate: u32,
)
    ensures
        final(store)@.resources == old(store)@.resources,
        final(store)@.video_metadata == old(store)@.video_metadata.push(
            VideoMetadataRecordV {
                resource_id: resource_uuid@,
                width: width,
                height: height,
                duration_seconds: duration_seconds,
                bit_rate: bit_rate,
                frame_rate: frame_rate,
            },
        ),
{
    store.video_metadata.push(
        VideoMetadataRecord {
            resource_id: resource_uuid.to_owned(),
            width,
            height,
            duration_seconds,
            bit_rate,
            frame_rate,
        },
    );
    proof {
        assert(store@.video_metadata =~= old(store)@.video_metadata.push(
            VideoMetadataRecordV {
                resource_id: resource_uuid@,
                width: width,
                height: height,
                duration_seconds: duration_seconds,
                bit_rate: bit_rate,
                frame_rate: frame_rate,
            },
        ));
        assert(store@.resources =~= old(store)@.resources);
    }
}

// ------------------------------------------------------------------
// Queries over the active projection.
// ------------------------------------------------------------------

/// The first record with this id, provided it is not soft-deleted.
pub open spec fn spec_active_resource(rows: Seq<ResourceRecordV>, id: Seq<char>) -> Option<ResourceRecordV> {
    match find_resource(rows, id) {
        Some(i) => if !rows[i].deleted {
            Some(rows[i])
        } else {
            None
        },
        None => None,
    }
}

/// The active record with this id, if any.
pub fn get_active_resource_by_id<'a>(store: &'a ResourceStore, resource_id: &str) -> (r: Option<
    &'a ResourceRecord,
>)
    ensures
        match r {
            Some(res) => spec_active_resource(store@.resources, resource_id@) == Some(res@),
            None => spec_active_resource(store@.resources, resource_id@) is None,
        },
{
    match find_resource_index(store, resource_id) {
        Some(i) => {
            proof {
                lemma_find_resource_some(store@.resources, resource_id@);
                assert(store@.resources[i as int] == store.resources@[i as int]@);
            }
            let row = &store.resources[i];
            if row.deleted {
                None
            } else {
                Some(row)
            }
        },
        None => None,
    }
}

/// The active records of one user, newest first.
pub open spec fn active_user_resources(rows: Seq<ResourceRecordV>, user: Seq<char>) -> Seq<ResourceRecordV>
    decreases rows.len(),
{
    if rows.len() == 0 {
        Seq::empty()
    } else {
        let rest = active_user_resources(rows.drop_last(), user);
        if rows.last().user_id == user && !rows.last().deleted {
            seq![rows.last()] + rest
        } else {
            rest
        }
    }
}

/// List one user's active resources, newest first.
pub fn get_active_resources_by_user_id<'a>(store: &'a ResourceStore, user_id: &str) -> (r: Vec<
    &'a ResourceRecord,
>)
    ensures
        r@.map_values(|x: &ResourceRecord| x@) == active_user_resources(
            store@.resources,
            user_id@,
        ),
{
    let n = store.resources.len();
    let mut out: Vec<&ResourceRecord> = Vec::new();
    let mut i: usize = 0;
    proof {
        assert(store@.resources.take(0) =~= Seq::<ResourceRecordV>::empty());
        assert(out@.map_values(|x: &ResourceRecord| x@) =~= active_user_resources(
            store@.resources.take(0),
            user_id@,
        ));
    }
    while i < n
        invariant
            0 <= i <= n,
            n == store.resources@.len(),
            n == store@.resources.len(),
            out@.map_values(|x: &ResourceRecord| x@) =~= active_user_resources(
                store@.resources.take(i as int),
                user_id@,
            ),
        decreases n - i,
    {
        proof {
            assert(store@.resources.take(i as int + 1).drop_last() =~= store@.resources.take(
                i as int,
            ));
            assert(store@.resources.take(i as int + 1).last() == store@.resources[i as int]);
            assert(store@.resources[i as int] == store.resources@[i as int]@);
        }
        let row = &store.resources[i];
        if crate::text::str_eq(row.user_id.as_str(), user_id) && !row.deleted {
            out.insert(0, row);
            proof {
                assert(out@.map_values(|x: &ResourceRecord| x@) =~= seq![
                    store@.resources[i as int],
                ] + active_user_resources(store@.resources.take(i as int), user_id@));
            }
        }
        i = i + 1;
    }
    proof {
        assert(store@.resources.take(n as int) =~= store@.resources);
    }
    out
}

/// The best rendition row of one resource (the API view without the id).
#[derive(Clone, Copy, Debug, PartialEq, Eq, Structural)]
pub struct VideoMetadata {
    pub width: u32,
    pub height: u32,
    pub duration_seconds: u32,
    pub bit_rate: u32,
    pub frame_rate: u32,
}

/// A metadata row matches the resource and the returned fields.
pub open spec fn metadata_row_matches(row: VideoMetadataRecordV, id: Seq<char>, m: VideoMetadata) -> bool {
    &&& row.resource_id == id
    &&& row.width == m.width
    &&& row.height == m.height
    &&& row.duration_seconds == m.duration_seconds
    &&& row.bit_rate == m.bit_rate
    &&& row.frame_rate == m.frame_rate
}

/// Some metadata row belongs to this resource.
pub open spec fn has_metadata_row(rows: Seq<VideoMetadataRecordV>, id: Seq<char>) -> bool {
    exists|i: int| 0 <= i < rows.len() && (#[trigger] rows[i]).resource_id == id
}

proof fn lemma_u32_product_fits(a: u64, b: u64)
    requires
        a <= 0xffff_ffffu64,
        b <= 0xffff_ffffu64,
    ensures
        a * b <= 0xffff_fffe_0000_0001u64,
{
    assert(a * b <= 0xffff_ffffu64 * 0xffff_ffffu64) by (nonlinear_arith)
        requires
            a <= 0xffff_ffffu64,
            b <= 0xffff_ffffu64,
    ;
}

/// The highest-quality rendition of one resource: the row whose pixel
/// count (width times height) is largest.
pub fn get_highest_quality_video_metadata(store: &ResourceStore, resource_uuid: &str) -> (r: Option<
    VideoMetadata,
>)
    ensures
        match r {
            Some(m) => {
                &&& exists|i: int|
                    0 <= i < store@.video_metadata.len() && metadata_row_matches(
                        #[trigger] store@.video_metadata[i],
                        resource_uuid@,
                        m,
                    )
                &&& forall|i: int|
                    0 <= i < store@.video_metadata.len() && (#[trigger] store@.video_metadata[i]).resource_id
                        == resource_uuid@ ==> store@.video_metadata[i].width
                        * store@.video_metadata[i].height <= m.width * m.height
            },
            None => !has_metadata_row(store@.video_metadata, resource_uuid@),
        },
{
    let n = store.video_metadata.len();
    let mut best: Option<VideoMetadata> = None;
    let mut i: usize = 0;
    while i < n
        invariant
            0 <= i <= n,
            n == store.video_metadata@.len(),
            n == store@.video_metadata.len(),
            match best {
                Some(m) => {
                    &&& exists|k: int|
                        0 <= k < store@.video_metadata.len() && metadata_row_matches(
                            #[trigger] store@.video_metadata[k],
                            resource_uuid@,
                            m,
                        )
                    &&& forall|k: int|
                        0 <= k < i && (#[trigger] store@.video_metadata[k]).resource_id
                            == resource_uuid@ ==> store@.video_metadata[k].width
                            * store@.video_metadata[k].height <= m.width * m.height
                },
                None => forall|k: int|
                    0 <= k < i ==> (#[trigger] store@.video_metadata[k]).resource_id
                        != resource_uuid@,
            },
        decreases n - i,
    {
        proof {
            assert(store@.video_metadata[i as int] == store.video_metadata@[i as int]@);
        }
        let row = &store.video_metadata[i];
        if crate::text::str_eq(row.resource_id.as_str(), resource_uuid) {
            let candidate = VideoMetadata {
                width: row.width,
                height: row.height,
                duration_seconds: row.duration_seconds,
                bit_rate: row.bit_rate,
                frame_rate: row.frame_rate,
            };
            proof {
                lemma_u32_product_fits(row.width as u64, row.height as u64);
            }
            let product = row.width as u64 * row.height as u64;
            let take = match &best {
                Some(m) => {
                    proof {
                        lemma_u32_product_fits(m.width as u64, m.height as u64);
                    }
                    product > m.width as u64 * m.height as u64
                },
                None => true,
            };
            if take {
                best = Some(candidate);
                proof {
                    assert(metadata_row_matches(
                        store@.video_metadata[i as int],
                        resource_uuid@,
                        candidate,
                    ));
                }
            }
        }
        i = i + 1;
    }
    best
}

// ------------------------------------------------------------------
// The status projector.
// ------------------------------------------------------------------

/// A status advance applied to one record, only ever forward.
pub open spec fn advance_status(s: ResourceStoreV, object: Seq<char>, st: ResourceStatus) -> ResourceStoreV {
    match find_resource(s.resources, object) {
        Some(i) => if can_advance(s.resources[i].resource_status, st) {
            ResourceStoreV {
                resources: s.resources.update(
                    i,
                    ResourceRecordV { resource_status: st, ..s.resources[i] },
                ),
                ..s
            }
        } else {
            s
        },
        None => s,
    }
}

/// The metadata rows a `processed` message contributes for `object`.
pub open spec fn metadata_rows_of(object: Seq<char>, m: ProducedMetadataV) -> Seq<VideoMetadataRecordV> {
    match m {
        ProducedMetadataV::Video(list) => Seq::new(
            list.len(),
            |j: int|
                VideoMetadataRecordV {
                    resource_id: object,
                    width: list[j].width,
                    height: list[j].height,
                    duration_seconds: list[j].duration,
                    bit_rate: list[j].bitrate,
                    frame_rate: list[j].frame_rate,
                },
        ),
        ProducedMetadataV::Audio(_) => Seq::empty(),
        ProducedMetadataV::Image(_) => Seq::empty(),
    }
}

/// What one status message does to the store.
///
/// `uploaded` creates the record unless it already exists; the other
/// messages advance the record's status (and type, and metadata rows)
/// only strictly forward, so a re-delivered message changes nothing.
pub open spec fn apply_spec(s: ResourceStoreV, m: StatusMessageV) -> ResourceStoreV {
    match m {
        StatusMessageV::Uploaded { user_id, object_name, file_name } => {
            match find_resource(s.resources, object_name) {
                Some(_) => s,
                None => ResourceStoreV {
                    resources: s.resources.push(
                        ResourceRecordV {
                            id: object_name,
                            user_id: user_id,
                            is_public: false,
                            resource_name: file_name,
                            resource_type: ResourceType::Unknown,
                            resource_status: ResourceStatus::Pending,
                            deleted: false,
                        },
                    ),
                    ..s
                },
            }
        },
        StatusMessageV::Started { object_name } => advance_status(
            s,
            object_name,
            ResourceStatus::Processing,
        ),
        StatusMessageV::Failed { object_name } => advance_status(
            s,
            object_name,
            ResourceStatus::Failed,
        ),
        StatusMessageV::TypeResolved { object_name, resource_type } => {
            match find_resource(s.resources, object_name) {
                Some(i) => if can_advance(
                    s.resources[i].resource_status,
                    ResourceStatus::TypeResolved,
                ) {
                    ResourceStoreV {
                        resources: s.resources.update(
                            i,
                            ResourceRecordV {
                                resource_status: ResourceStatus::TypeResolved,
                                resource_type: resource_type,
                                ..s.resources[i]
                            },
                        ),
                        ..s
                    }
                } else {
                    s
                },
                None => s,
            }
        },
        StatusMessageV::Processed { object_name, metadata } => {
            match find_resource(s.resources, object_name) {
                Some(i) => if can_advance(
                    s.resources[i].resource_status,
                    ResourceStatus::Processed,
                ) {
                    ResourceStoreV {
                        resources: s.resources.update(
                            i,
                            ResourceRecordV {
                                resource_status: ResourceStatus::Processed,
                                ..s.resources[i]
                            },
                        ),
                        video_metadata: s.video_metadata + metadata_rows_of(object_name, metadata),
                    }
                } else {
                    s
                },
                None => s,
            }
        },
    }
}

/// Apply one status message to the store, exactly as `apply_spec` says.
pub fn apply_status_message(store: &mut ResourceStore, msg: &ResourceStatusUpdateMessage)
    ensures
        final(store)@ == apply_spec(old(store)@, msg@),
{
    match msg {
        ResourceStatusUpdateMessage::ResourceUploaded { user_id, object_name, file_name } => {
            match find_resource_index(store, object_name.as_str()) {
                Some(_) => {
                    proof {
                        assert(store@ =~~= apply_spec(old(store)@, msg@));
                    }
                },
                None => {
                    create_resource(
                        store,
                        object_name.as_str(),
                        user_id.as_str(),
                        file_name.as_str(),
                    );
                    proof {
                        assert(store@ =~~= apply_spec(old(store)@, msg@));
                    }
                },
            }
        },
        ResourceStatusUpdateMessage::ResourceProcessingStarted { object_name } => {
            apply_advance(store, object_name.as_str(), ResourceStatus::Processing);
            proof {
                assert(store@ =~~= apply_spec(old(store)@, msg@));
            }
        },
        ResourceStatusUpdateMessage::ResourceProcessingFailed { object_name } => {
            apply_advance(store, object_name.as_str(), ResourceStatus::Failed);
            proof {
                assert(store@ =~~= apply_spec(old(store)@, msg@));
            }
        },
        ResourceStatusUpdateMessage::ResourceTypeResolved { object_name, resource_type } => {
            match find_resource_index(store, object_name.as_str()) {
                Some(i) => {
                    proof {
                        lemma_find_resource_some(store@.resources, object_name@);
                    }
                    let advance = store.resources[i].resource_status.allows_transition_to(
                        &ResourceStatus::TypeResolved,
                    );
                    if advance {
                        let mut row = store.resources.remove(i);
                        row.resource_status = ResourceStatus::TypeResolved;
                        row.resource_type = *resource_type;
                        store.resources.insert(i, row);
                        proof {
                            assert(store@.resources =~= old(store)@.resources.update(
                                i as int,
                                ResourceRecordV {
                                    resource_status: ResourceStatus::TypeResolved,
                                    resource_type: *resource_type,
                                    ..old(store)@.resources[i as int]
                                },
                            ));
                            assert(store@ =~~= apply_spec(old(store)@, msg@));
                        }
                    } else {
                        proof {
                            assert(store@ =~~= apply_spec(old(store)@, msg@));
                        }
                    }
                },
                None => {
                    proof {
                        assert(store@ =~~= apply_spec(old(store)@, msg@));
                    }
                },
            }
        },
        ResourceStatusUpdateMessage::ResourceProcessed { object_name, metadata } => {
            match find_resource_index(store, object_name.as_str()) {
                Some(i) => {
                    proof {
                        lemma_find_resource_some(store@.resources, object_name@);
                    }
                    let advance = store.resources[i].resource_status.allows_transition_to(
                        &ResourceStatus::Processed,
                    );
                    if advance {
                        update_resource_status(
                            store,
                            object_name.as_str(),
                            ResourceStatus::Processed,
                        );
                        match metadata {
                            crate::messages::ProducedResourceMetadata::Video(list) => {
                                let n = list.len();
                                let mut j: usize = 0;
                                while j < n
                                    invariant
                                        0 <= j <= n,
                                        n == list@.len(),
                                        store@.resources == apply_spec(
                                            old(store)@,
                                            msg@,
                                        ).resources,
                                        store@.video_metadata =~= old(store)@.video_metadata
                                            + metadata_rows_of(
                                            object_name@,
                                            ProducedMetadataV::Video(list@),
                                        ).take(j as int),
                                    decreases n - j,
                                {
                                    let row = &list[j];
                                    insert_video_metadata(
                                        store,
                                        object_name.as_str(),
                                        row.width,
                                        row.height,
                                        row.duration,
                                        row.bitrate,
                                        row.frame_rate,
                                    );
                                    proof {
                                        let rows = metadata_rows_of(
                                            object_name@,
                                            ProducedMetadataV::Video(list@),
                                        );
                                        assert(rows.take(j as int + 1) =~= rows.take(
                                            j as int,
                                        ).push(rows[j as int]));
                                        assert(store@.video_metadata
                                            =~= old(store)@.video_metadata + rows.take(
                                            j as int + 1,
                                        ));
                                    }
                                    j = j + 1;
                                }
                                proof {
                                    let rows = metadata_rows_of(
                                        object_name@,
                                        ProducedMetadataV::Video(list@),
                                    );
                                    assert(rows.take(n as int) =~= rows);
                                    assert(store@ =~~= apply_spec(old(store)@, msg@));
                                }
                            },
                            crate::messages::ProducedResourceMetadata::Audio(_) => {
                                proof {
                                    assert(store@ =~~= apply_spec(old(store)@, msg@));
                                }
                            },
                            crate::messages::ProducedResourceMetadata::Image(_) => {
                                proof {
                                    assert(store@ =~~= apply_spec(old(store)@, msg@));
                                }
                            },
                        }
                    } else {
                        proof {
                            assert(store@ =~~= apply_spec(old(store)@, msg@));
                        }
                    }
                },
                None => {
                    proof {
                        assert(store@ =~~= apply_spec(old(store)@, msg@));
                    }
                },
            }
        },
    }
}

proof fn lemma_find_resource_update(rows: Seq<ResourceRecordV>, i: int, r: ResourceRecordV, id: Seq<char>)
    requires
        0 <= i < rows.len(),
        r.id == rows[i].id,
    ensures
        find_resource(rows.update(i, r), id) == find_resource(rows, id),
    decreases rows.len(),
{
    let updated = rows.update(i, r);
    if i == 0 {
        assert(updated[0] == r);
        assert(updated.drop_first() =~= rows.drop_first());
    } else {
        assert(updated[0] == rows[0]);
        assert(updated.drop_first() =~= rows.drop_first().update(i - 1, r));
        assert(rows.drop_first()[i - 1] == rows[i]);
        lemma_find_resource_update(rows.drop_first(), i - 1, r, id);
    }
}

/// Idempotent projection: applying the same status message twice leaves
/// the store exactly as applying it once does.
pub proof fn lemma_projection_idempotent(s: ResourceStoreV, m: StatusMessageV)
    ensures
        apply_spec(apply_spec(s, m), m) == apply_spec(s, m),
{
    let s1 = apply_spec(s, m);
    match m {
        StatusMessageV::Uploaded { user_id, object_name, file_name } => {
            match find_resource(s.resources, object_name) {
                Some(_) => {},
                None => {
                    assert(s1.resources.last().id == object_name);
                    lemma_find_resource_push(s.resources, object_name, s1.resources.last());
                },
            }
        },
        StatusMessageV::Started { object_name } => {
            match find_resource(s.resources, object_name) {
                Some(i) => {
                    lemma_find_resource_some(s.resources, object_name);
                    if can_advance(s.resources[i].resource_status, ResourceStatus::Processing) {
                        lemma_find_resource_update(s.resources, i, s1.resources[i], object_name);
                    }
                },
                None => {},
            }
        },
        StatusMessageV::Failed { object_name } => {
            match find_resource(s.resources, object_name) {
                Some(i) => {
                    lemma_find_resource_some(s.resources, object_name);
                    if can_advance(s.resources[i].resource_status, ResourceStatus::Failed) {
                        lemma_find_resource_update(s.resources, i, s1.resources[i], object_name);
                    }
                },
                None => {},
            }
        },
        StatusMessageV::TypeResolved { object_name, resource_type } => {
            match find_resource(s.resources, object_name) {
                Some(i) => {
                    lemma_find_resource_some(s.resources, object_name);
                    if can_advance(s.resources[i].resource_status, ResourceStatus::TypeResolved) {
                        lemma_find_resource_update(s.resources, i, s1.resources[i], object_name);
                    }
                },
                None => {},
            }
        },
        StatusMessageV::Processed { object_name, metadata } => {
            match find_resource(s.resources, object_name) {
                Some(i) => {
                    lemma_find_resource_some(s.resources, object_name);
                    if can_advance(s.resources[i].resource_status, ResourceStatus::Processed) {
                        lemma_find_resource_update(s.resources, i, s1.resources[i], object_name);
                    }
                },
                None => {},
            }
        },
    }
}

/// Monotonic status: the projector never removes a record, never changes
/// a record's identity, and only ever moves its status forward along the
/// lifecycle (`Failed` being absorbing).
pub proof fn lemma_projection_monotone(s: ResourceStoreV, m: StatusMessageV, i: int)
    requires
        0 <= i < s.resources.len(),
    ensures
        ({
            let s1 = apply_spec(s, m);
            &&& s1.resources.len() >= s.resources.len()
            &&& s1.resources[i].id == s.resources[i].id
            &&& status_le(s.resources[i].resource_status, s1.resources[i].resource_status)
        }),
{
    match m {
        StatusMessageV::Uploaded { .. } => {},
        StatusMessageV::Started { object_name } => {
            if find_resource(s.resources, object_name) is Some {
                lemma_find_resource_some(s.resources, object_name);
            }
        },
        StatusMessageV::Failed { object_name } => {
            if find_resource(s.resources, object_name) is Some {
                lemma_find_resource_some(s.resources, object_name);
            }
        },
        StatusMessageV::TypeResolved { object_name, .. } => {
            if find_resource(s.resources, object_name) is Some {
                lemma_find_resource_some(s.resources, object_name);
            }
        },
        StatusMessageV::Processed { object_name, .. } => {
            if find_resource(s.resources, object_name) is Some {
                lemma_find_resource_some(s.resources, object_name);
            }
        },
    }
}

/// The store after a whole stream of status messages, in order.
pub open spec fn apply_all(s: ResourceStoreV, msgs: Seq<StatusMessageV>) -> ResourceStoreV
    decreases msgs.len(),
{
    if msgs.len() == 0 {
        s
    } else {
        apply_all(apply_spec(s, msgs[0]), msgs.drop_first())
    }
}

/// Monotonic status over any message stream: however many status
/// messages arrive, and in whatever order, an existing record keeps its
/// identity and its observed statuses only ever advance along the
/// lifecycle.
pub proof fn lemma_projection_monotone_many(s: ResourceStoreV, msgs: Seq<StatusMessageV>, i: int)
    requires
        0 <= i < s.resources.len(),
    ensures
        ({
            let s1 = apply_all(s, msgs);
            &&& s1.resources.len() >= s.resources.len()
            &&& s1.resources[i].id == s.resources[i].id
            &&& status_le(s.resources[i].resource_status, s1.resources[i].resource_status)
        }),
    decreases msgs.len(),
{
    if msgs.len() > 0 {
        let mid = apply_spec(s, msgs[0]);
        lemma_projection_monotone(s, msgs[0], i);
        lemma_projection_monotone_many(mid, msgs.drop_first(), i);
        crate::status::lemma_transitions_monotone(
            s.resources[i].resource_status,
            mid.resources[i].resource_status,
            apply_all(s, msgs).resources[i].resource_status,
        );
    }
}

/// Advance one record's status if the transition is legal.
fn apply_advance(store: &mut ResourceStore, object_name: &str, st: ResourceStatus)
    ensures
        final(store)@ == advance_status(old(store)@, object_name@, st),
{
    match find_resource_index(store, object_name) {
        Some(i) => {
            proof {
                lemma_find_resource_some(store@.resources, object_name@);
            }
            let advance = store.resources[i].resource_status.allows_transition_to(&st);
            if advance {
                update_resource_status(store, object_name, st);
                proof {
                    assert(store@ =~~= advance_status(old(store)@, object_name@, st));
                }
            } else {
                proof {
                    assert(store@ =~~= advance_status(old(store)@, object_name@, st));
                }
            }
        },
        None => {
            proof {
                assert(store@ =~~= advance_status(old(store)@, object_name@, st));
            }
        },
    }
}

} // verus!
