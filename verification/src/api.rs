//! The HTTP-facing request and response shapes, and the decisions each
//! handler takes: quota admission for direct and chunked uploads, the
//! completion checks, the resource listing, and the oEmbed and metadata
//! responses.

use vstd::prelude::*;

verus! {

use crate::resources::{
    active_user_resources, has_metadata_row, metadata_row_matches, spec_active_resource,
    get_active_resource_by_id, get_highest_quality_video_metadata, update_resource_public_status,
    ResourceRecord, ResourceStore, VideoMetadata,
};
use crate::status::{status_name, kind_name, ResourceType};
use crate::serve::spec_has_access_v;
use crate::text::{dec_digits, u32_to_string};
use crate::uploads::{
    quota_of, spec_active_chunk, spec_used_quota, wf, IntegrityCheckType, UploadStore,
    get_active_chunk_upload, insert_new_upload, used_user_quota, user_quota,
};

/// A structured error reply.
#[derive(Debug)]
pub struct ErrorResponse {
    pub error: String,
}

/// The caller's identity, as the authentication layer resolves it.
#[derive(Debug, Clone)]
pub struct UserInfo {
    pub user_id: String,
    pub display_name: String,
    pub email: String,
}

/// The quota summary returned to the owner.
#[derive(Debug)]
pub struct UserQuota {
    pub used_quota: i64,
    pub total_quota: i64,
}

/// Request to open a resumable upload.
#[derive(Debug)]
pub struct NewChunkUploadRequest {
    pub file_name: String,
    pub file_size: usize,
    pub integrity_check_type: IntegrityCheckType,
    pub integrity_check_value: Option<String>,
}

/// Reply to a resumable-upload opening.
#[derive(Debug)]
pub struct NewChunkUploadResponse {
    pub upload_id: String,
    pub chunk_size: usize,
}

/// Request to close a resumable upload.
#[derive(Debug)]
pub struct CompleteUploadRequest {
    pub upload_id: String,
}

/// Request to flip a resource's public flag.
#[derive(Debug)]
pub struct ResourcePublicStatusUpdate {
    pub is_public: bool,
}

/// One resource as listed to its owner.
#[derive(Debug)]
pub struct Resource {
    pub id: String,
    pub is_public: bool,
    pub resource_name: String,
    pub resource_type: String,
    pub resource_status: String,
}

/// The standard oEmbed reply.
#[derive(Debug)]
pub struct OEmbedResponse {
    pub version: String,
    pub title: String,
    pub author_name: Option<String>,
    pub author_url: Option<String>,
    pub provider_name: Option<String>,
    pub provider_url: Option<String>,
    pub cache_age: Option<u32>,
    pub thumbnail_url: Option<String>,
    pub thumbnail_width: Option<u32>,
    pub thumbnail_height: Option<u32>,
    pub resource: OEmbedResourceType,
}

/// The typed part of an oEmbed reply.
#[derive(Debug)]
pub enum OEmbedResourceType {
    Photo { url: String, width: u32, height: u32 },
    Video { html: String, width: u32, height: u32 },
}

/// The typed part of a metadata reply.
#[derive(Debug)]
pub enum ResourceMetadata {
    Video { width: u32, height: u32, duration_seconds: u32, bit_rate: u32, frame_rate: u32 },
}

/// The metadata reply for one resource.
#[derive(Debug)]
pub struct ResourceMetadataResponse {
    pub id: String,
    pub name: String,
    pub status: String,
    pub resource_metadata: ResourceMetadata,
}

// ------------------------------------------------------------------
// Quota summary and upload admission.
// ------------------------------------------------------------------

/// The owner's quota summary.
pub fn user_quota_response(store: &UploadStore, user_id: &str) -> (r: UserQuota)
    requires
        wf(*store),
    ensures
        r.used_quota as int == spec_used_quota(*store, user_id@),
        r.total_quota as int == quota_of(store.user_quotas@, user_id@),
{
    UserQuota {
        used_quota: used_user_quota(store, user_id),
        total_quota: user_quota(store, user_id),
    }
}

/// Outcome of committing a direct upload.
#[derive(Debug, PartialEq, Eq, Structural)]
pub enum DirectUploadOutcome {
    Committed,
    QuotaExceeded,
}

/// Commit a direct upload after its bytes are stored: if the new total
/// would exceed the owner's quota the store is left unchanged (the
/// caller deletes the stored object in compensation); otherwise the
/// upload is recorded and the owner stays within quota only if they
/// were before.
pub fn direct_upload_commit(
    store: &mut UploadStore,
    user_id: &str,
    object_name: &str,
    file_size: i64,
) -> (r: DirectUploadOutcome)
    requires
        wf(*old(store)),
        file_size >= 0,
    ensures
        wf(*final(store)),
        r == DirectUploadOutcome::QuotaExceeded <==> spec_used_quota(*old(store), user_id@)
            + file_size > quota_of(old(store).user_quotas@, user_id@),
        r == DirectUploadOutcome::QuotaExceeded ==> *final(store) == *old(store),
        r == DirectUploadOutcome::Committed ==> spec_used_quota(*final(store), user_id@)
            == spec_used_quota(*old(store), user_id@) + file_size && spec_used_quota(
            *final(store),
            user_id@,
        ) <= quota_of(old(store).user_quotas@, user_id@),
        r == DirectUploadOutcome::Committed ==> crate::uploads::upload_engine_step(
            *old(store),
            *final(store),
        ),
{
    let total = user_quota(store, user_id);
    let used = used_user_quota(store, user_id);
    proof {
        crate::uploads::lemma_used_quota_nonneg(*store, user_id@);
    }
    if used as i128 + file_size as i128 > total as i128 {
        return DirectUploadOutcome::QuotaExceeded;
    }
    proof {
        crate::uploads::lemma_quota_le_max_pub(store.user_quotas@, user_id@);
    }
    insert_new_upload(store, user_id, object_name, file_size);
    proof {
        assert(old(store).user_uploads@.push(store.user_uploads@.last())
            == store.user_uploads@);
        assert(crate::uploads::step_commit(*old(store), *store));
    }
    DirectUploadOutcome::Committed
}

/// Admission for opening a resumable upload: the declared size must fit
/// in the owner's remaining quota.
pub fn init_chunk_upload_admission(store: &UploadStore, user_id: &str, file_size: usize) -> (r:
    Result<(), ErrorResponse>)
    requires
        wf(*store),
    ensures
        r is Err <==> spec_used_quota(*store, user_id@) + file_size > quota_of(
            store.user_quotas@,
            user_id@,
        ),
        r matches Err(e) ==> e.error@ == "quota_exceeded"@,
{
    let total = user_quota(store, user_id);
    let used = used_user_quota(store, user_id);
    proof {
        crate::uploads::lemma_used_quota_nonneg(*store, user_id@);
    }
    if used as i128 + file_size as i128 > total as i128 {
        Err(ErrorResponse { error: String::from_str("quota_exceeded") })
    } else {
        Ok(())
    }
}

/// What the chunk endpoint decides for one arriving chunk.
#[derive(Debug)]
pub enum ChunkAdmission {
    NotFound,
    QuotaExceeded { object_name: String, aws_upload_id: String },
    TooLarge,
    Empty,
    Duplicate,
    Accept { object_name: String, aws_upload_id: String },
}

/// Admit one arriving chunk, in this order: the upload must be active
/// (else not found); the chunk must fit in the owner's remaining quota
/// (else the upload is to be aborted); it must not exceed the declared
/// chunk size, must not be empty, and its part number must be fresh.
pub fn admit_chunk(
    store: &UploadStore,
    user_id: &str,
    upload_id: &str,
    chunk_index: u32,
    chunk_len: usize,
) -> (r: ChunkAdmission)
    requires
        wf(*store),
    ensures
        ({
            let found = spec_active_chunk(store.chunk_uploads@, user_id@, upload_id@);
            let used = spec_used_quota(*store, user_id@);
            let total = quota_of(store.user_quotas@, user_id@);
            &&& r is NotFound <==> found is None
            &&& (match found {
                Some(c) => {
                    &&& (r matches ChunkAdmission::QuotaExceeded { object_name, aws_upload_id }
                        <==> used + chunk_len > total) && (r matches ChunkAdmission::QuotaExceeded {
                        object_name,
                        aws_upload_id,
                    } ==> object_name@ == c.object_name@ && aws_upload_id@ == c.aws_upload_id@)
                    &&& used + chunk_len <= total ==> ({
                        &&& r is TooLarge <==> chunk_len > c.chunk_size
                        &&& chunk_len <= c.chunk_size ==> ({
                            &&& r is Empty <==> chunk_len == 0
                            &&& chunk_len > 0 ==> ({
                                &&& r is Duplicate <==> crate::uploads::has_part_number(
                                    store.chunk_information@,
                                    user_id@,
                                    upload_id@,
                                    chunk_index,
                                )
                                &&& (r matches ChunkAdmission::Accept { object_name, aws_upload_id }
                                    ==> object_name@ == c.object_name@ && aws_upload_id@
                                    == c.aws_upload_id@)
                            })
                        })
                    })
                },
                None => true,
            })
        }),
{
    let upload = match get_active_chunk_upload(store, user_id, upload_id) {
        Some(u) => u,
        None => {
            return ChunkAdmission::NotFound;
        },
    };
    let total = user_quota(store, user_id);
    let used = used_user_quota(store, user_id);
    proof {
        crate::uploads::lemma_used_quota_nonneg(*store, user_id@);
    }
    if used as i128 + chunk_len as i128 > total as i128 {
        return ChunkAdmission::QuotaExceeded {
            object_name: upload.object_name.clone(),
            aws_upload_id: upload.aws_upload_id.clone(),
        };
    }
    if chunk_len as i128 > upload.chunk_size as i128 {
        return ChunkAdmission::TooLarge;
    }
    if chunk_len == 0 {
        return ChunkAdmission::Empty;
    }
    if crate::uploads::has_recorded_part(store, user_id, upload_id, chunk_index) {
        return ChunkAdmission::Duplicate;
    }
    ChunkAdmission::Accept {
        object_name: upload.object_name.clone(),
        aws_upload_id: upload.aws_upload_id.clone(),
    }
}

/// What the completion endpoint decides before the store call.
#[derive(Debug)]
pub enum CompleteDecision {
    NotFound,
    QuotaExceeded { object_name: String, aws_upload_id: String },
    NoParts,
    PartGap,
    Ready { object_name: String, aws_upload_id: String, parts: Vec<crate::uploads::PartListEntry> },
}

/// Decide a completion request: the upload must be active; the owner
/// must be within quota (else the upload is to be aborted); at least one
/// part must be recorded, and the recorded part numbers must run from 1
/// with no gap.  The assembled list is handed back strictly increasing.
pub fn prepare_complete_chunk_upload(store: &UploadStore, user_id: &str, upload_id: &str) -> (r:
    CompleteDecision)
    requires
        wf(*store),
    ensures
        ({
            let found = spec_active_chunk(store.chunk_uploads@, user_id@, upload_id@);
            let used = spec_used_quota(*store, user_id@);
            let total = quota_of(store.user_quotas@, user_id@);
            let parts_count = crate::uploads::count_parts(
                store.chunk_information@,
                user_id@,
                upload_id@,
            );
            &&& r is NotFound <==> found is None
            &&& (match found {
                Some(c) => {
                    &&& (r matches CompleteDecision::QuotaExceeded { .. } <==> used > total)
                    &&& (r matches CompleteDecision::QuotaExceeded { object_name, aws_upload_id }
                        ==> object_name@ == c.object_name@ && aws_upload_id@ == c.aws_upload_id@)
                    &&& used <= total ==> ({
                        &&& r is NoParts <==> parts_count == 0
                        &&& (r is PartGap <==> parts_count > 0 && (parts_count > u32::MAX
                            || exists|k: u32|
                            1 <= k <= parts_count && !crate::uploads::has_part_number(
                                store.chunk_information@,
                                user_id@,
                                upload_id@,
                                k,
                            )))
                        &&& (r matches CompleteDecision::Ready { object_name, aws_upload_id, parts }
                            ==> {
                            &&& object_name@ == c.object_name@
                            &&& aws_upload_id@ == c.aws_upload_id@
                            &&& parts@.len() == parts_count
                            &&& forall|j: int|
                                0 <= j < parts@.len() ==> (#[trigger] parts@[j]).part_number == j
                                    + 1
                            &&& forall|j: int|
                                0 <= j < parts@.len() ==> crate::uploads::recorded_entry(
                                    store.chunk_information@,
                                    user_id@,
                                    upload_id@,
                                    #[trigger] parts@[j],
                                )
                        })
                    })
                },
                None => true,
            })
        }),
{
    let upload = match get_active_chunk_upload(store, user_id, upload_id) {
        Some(u) => u,
        None => {
            return CompleteDecision::NotFound;
        },
    };
    let total = user_quota(store, user_id);
    let used = used_user_quota(store, user_id);
    if used > total {
        return CompleteDecision::QuotaExceeded {
            object_name: upload.object_name.clone(),
            aws_upload_id: upload.aws_upload_id.clone(),
        };
    }
    match crate::uploads::get_uploaded_parts(store, user_id, upload_id) {
        Some(parts) => {
            if parts.len() == 0 {
                return CompleteDecision::NoParts;
            }
            proof {
                // Every number up to the count is recorded: the list
                // itself witnesses it, so no gap condition holds.
                assert forall|k: u32|
                    1 <= k <= crate::uploads::count_parts(
                        store.chunk_information@,
                        user_id@,
                        upload_id@,
                    ) implies crate::uploads::has_part_number(
                    store.chunk_information@,
                    user_id@,
                    upload_id@,
                    k,
                ) by {
                    assert(parts@[k - 1].part_number == k);
                    assert(crate::uploads::recorded_entry(
                        store.chunk_information@,
                        user_id@,
                        upload_id@,
                        parts@[k - 1],
                    ));
                }
            }
            CompleteDecision::Ready {
                object_name: upload.object_name.clone(),
                aws_upload_id: upload.aws_upload_id.clone(),
                parts,
            }
        },
        None => {
            // A recorded part number in range is missing: the list has
            // a gap (a missing number forces a non-zero count).
            CompleteDecision::PartGap
        },
    }
}

/// Whether the declared and returned integrity hashes agree: only a
/// crc32 upload with both a declared and a returned checksum can
/// mismatch.
pub fn check_integrity(
    algorithm: IntegrityCheckType,
    expected: Option<&String>,
    returned: Option<&String>,
) -> (r: bool)
    ensures
        !r <==> (algorithm == IntegrityCheckType::Crc32 && (expected matches Some(e)
            && (returned matches Some(g) && e@ != g@))),
{
    match algorithm {
        IntegrityCheckType::Crc32 => {
            match (expected, returned) {
                (Some(e), Some(g)) => crate::text::str_eq(e.as_str(), g.as_str()),
                _ => true,
            }
        },
        IntegrityCheckType::NoCheck => true,
    }
}

// ------------------------------------------------------------------
// Resource listing, public flag, metadata and oEmbed replies.
// ------------------------------------------------------------------

/// List the caller's active resources, newest first.
pub fn list_resources(store: &ResourceStore, user_id: &str) -> (r: Vec<Resource>)
    ensures
        ({
            let rows = active_user_resources(store@.resources, user_id@);
            &&& r@.len() == rows.len()
            &&& forall|j: int| #![trigger r@[j]]
                0 <= j < r@.len() ==> ({
                    let x = r@[j];
                    &&& x.id@ == rows[j].id
                    &&& x.is_public == rows[j].is_public
                    &&& x.resource_name@ == rows[j].resource_name
                    &&& x.resource_type@ == kind_name(rows[j].resource_type)
                    &&& x.resource_status@ == status_name(rows[j].resource_status)
                })
        }),
{
    let records = crate::resources::get_active_resources_by_user_id(store, user_id);
    let ghost rows = active_user_resources(store@.resources, user_id@);
    let mut out: Vec<Resource> = Vec::new();
    let n = records.len();
    let mut i: usize = 0;
    while i < n
        invariant
            0 <= i <= n,
            n == records@.len(),
            records@.map_values(|x: &ResourceRecord| x@) == rows,
            out@.len() == i,
            forall|j: int| #![trigger out@[j]]
                0 <= j < i ==> ({
                    let x = out@[j];
                    &&& x.id@ == rows[j].id
                    &&& x.is_public == rows[j].is_public
                    &&& x.resource_name@ == rows[j].resource_name
                    &&& x.resource_type@ == kind_name(rows[j].resource_type)
                    &&& x.resource_status@ == status_name(rows[j].resource_status)
                }),
        decreases n - i,
    {
        proof {
            assert(records@.map_values(|x: &ResourceRecord| x@)[i as int] == records@[i as int]@);
        }
        let rec = records[i];
        out.push(
            Resource {
                id: rec.id.clone(),
                is_public: rec.is_public,
                resource_name: rec.resource_name.clone(),
                resource_type: String::from_str(rec.resource_type.as_str()),
                resource_status: String::from_str(rec.resource_status.as_str()),
            },
        );
        i = i + 1;
    }
    out
}

/// Flip the public flag, permitted to the owner alone; anyone else sees
/// the resource as missing and nothing changes.
pub fn set_resource_public_status(
    store: &mut ResourceStore,
    user_id: &str,
    resource_id: &str,
    is_public: bool,
) -> (r: Result<(), ()>)
    ensures
        r is Ok <==> (spec_active_resource(old(store)@.resources, resource_id@) matches Some(res)
            && res.user_id == user_id@),
        r is Err ==> final(store)@ == old(store)@,
        r is Ok ==> ({
            let i = crate::resources::find_resource(old(store)@.resources, resource_id@).unwrap();
            &&& final(store)@.video_metadata == old(store)@.video_metadata
            &&& final(store)@.resources == old(store)@.resources.update(
                i,
                crate::resources::ResourceRecordV {
                    is_public: is_public,
                    ..old(store)@.resources[i]
                },
            )
        }),
{
    let allowed = match get_active_resource_by_id(store, resource_id) {
        Some(res) => crate::text::str_eq(res.user_id.as_str(), user_id),
        None => false,
    };
    if allowed {
        update_resource_public_status(store, resource_id, is_public);
        Ok(())
    } else {
        proof {
            assert(store@ =~~= old(store)@);
        }
        Err(())
    }
}

/// The embeddable player markup for one video resource.
pub open spec fn spec_iframe_html(
    width: u32,
    height: u32,
    domain: Seq<char>,
    resource_id: Seq<char>,
) -> Seq<char> {
    "<iframe width=\""@ + dec_digits(width as int) + "\" height=\""@ + dec_digits(height as int)
        + "\" src=\""@ + domain + "player.html?resource_id="@ + resource_id
        + "\" frameborder=\"0\" allow=\"autoplay; picture-in-picture\" allowfullscreen></iframe>"@
}

/// Build the embeddable player markup.
pub fn iframe_html(width: u32, height: u32, domain: &str, resource_id: &str) -> (r: String)
    ensures
        r@ == spec_iframe_html(width, height, domain@, resource_id@),
{
    let mut s = String::from_str("<iframe width=\"");
    let w = u32_to_string(width);
    s.append(w.as_str());
    s.append("\" height=\"");
    let h = u32_to_string(height);
    s.append(h.as_str());
    s.append("\" src=\"");
    s.append(domain);
    s.append("player.html?resource_id=");
    s.append(resource_id);
    s.append(
        "\" frameborder=\"0\" allow=\"autoplay; picture-in-picture\" allowfullscreen></iframe>",
    );
    proof {
        assert(s@ =~= spec_iframe_html(width, height, domain@, resource_id@));
    }
    s
}

/// The thumbnail URL of one resource.
pub open spec fn spec_thumbnail_url(domain: Seq<char>, resource_id: Seq<char>) -> Seq<char> {
    domain + "/resource/"@ + resource_id + "/thumbnail.jpg"@
}

/// Build the thumbnail URL of one resource.
pub fn thumbnail_url(domain: &str, resource_id: &str) -> (r: String)
    ensures
        r@ == spec_thumbnail_url(domain@, resource_id@),
{
    let mut s = String::new();
    s.append(domain);
    s.append("/resource/");
    s.append(resource_id);
    s.append("/thumbnail.jpg");
    proof {
        assert(s@ =~= spec_thumbnail_url(domain@, resource_id@));
    }
    s
}

/// The first query parameter with this key, if any.
pub open spec fn spec_find_param(pairs: Seq<(Seq<char>, Seq<char>)>, key: Seq<char>) -> Option<
    Seq<char>,
>
    decreases pairs.len(),
{
    if pairs.len() == 0 {
        None
    } else if pairs[0].0 == key {
        Some(pairs[0].1)
    } else {
        spec_find_param(pairs.drop_first(), key)
    }
}

/// Find the first query parameter with this key.
pub fn find_query_param(pairs: &Vec<(String, String)>, key: &str) -> (r: Option<String>)
    ensures
        ({
            let pv = pairs@.map_values(|p: (String, String)| (p.0@, p.1@));
            match r {
                Some(v) => spec_find_param(pv, key@) == Some(v@),
                None => spec_find_param(pv, key@) is None,
            }
        }),
{
    let ghost pv = pairs@.map_values(|p: (String, String)| (p.0@, p.1@));
    let n = pairs.len();
    let mut i: usize = 0;
    proof {
        assert(pv.skip(0) =~= pv);
    }
    while i < n
        invariant
            0 <= i <= n,
            n == pairs@.len(),
            pv == pairs@.map_values(|p: (String, String)| (p.0@, p.1@)),
            spec_find_param(pv, key@) == spec_find_param(pv.skip(i as int), key@),
        decreases n - i,
    {
        proof {
            assert(pv[i as int] == (pairs@[i as int].0@, pairs@[i as int].1@));
            assert(pv.skip(i as int)[0] == pv[i as int]);
        }
        if crate::text::str_eq(pairs[i].0.as_str(), key) {
            return Some(pairs[i].1.clone());
        }
        proof {
            assert(pv.skip(i as int).drop_first() =~= pv.skip(i as int + 1));
        }
        i = i + 1;
    }
    proof {
        assert(pv.skip(n as int) =~= Seq::<(Seq<char>, Seq<char>)>::empty());
    }
    None
}

/// What an oEmbed reply must say for resource `id` named `title`, given
/// the store's metadata rows and the configured domain: the standard
/// fixed fields, the provider, the thumbnail URL, and a player iframe
/// sized to a highest-quality metadata row of the resource.
pub open spec fn spec_oembed_reply(
    resp: OEmbedResponse,
    title: Seq<char>,
    rows: Seq<crate::resources::VideoMetadataRecordV>,
    id: Seq<char>,
    domain: Seq<char>,
) -> bool {
    &&& resp.version@ == "1.0"@
    &&& resp.title@ == title
    &&& resp.author_name is None
    &&& resp.author_url is None
    &&& (resp.provider_name matches Some(p) && p@ == "Hipsutuubi"@)
    &&& (resp.provider_url matches Some(u) && u@ == domain)
    &&& resp.cache_age == Some(3600u32)
    &&& (resp.thumbnail_url matches Some(t) && t@ == spec_thumbnail_url(domain, id))
    &&& resp.thumbnail_width is None
    &&& resp.thumbnail_height is None
    &&& (resp.resource matches OEmbedResourceType::Video { html, width, height } && ({
        &&& exists|i: int|
            0 <= i < rows.len() && (#[trigger] rows[i]).resource_id == id && rows[i].width == width
                && rows[i].height == height
        &&& forall|i: int|
            0 <= i < rows.len() && (#[trigger] rows[i]).resource_id == id ==> rows[i].width
                * rows[i].height <= width * height
        &&& html@ == spec_iframe_html(width, height, domain, id)
    }))
}

/// The oEmbed reply for one video resource with its best rendition.
pub fn oembed_for(resource: &ResourceRecord, metadata: &VideoMetadata, domain: &str) -> (r:
    OEmbedResponse)
    ensures
        r.version@ == "1.0"@,
        r.title@ == resource.resource_name@,
        r.author_name is None && r.author_url is None,
        r.provider_name matches Some(p) && p@ == "Hipsutuubi"@,
        r.provider_url matches Some(u) && u@ == domain@,
        r.cache_age == Some(3600u32),
        r.thumbnail_url matches Some(t) && t@ == spec_thumbnail_url(domain@, resource.id@),
        r.thumbnail_width is None && r.thumbnail_height is None,
        r.resource matches OEmbedResourceType::Video { html, width, height } && width
            == metadata.width && height == metadata.height && html@ == spec_iframe_html(
            metadata.width,
            metadata.height,
            domain@,
            resource.id@,
        ),
{
    let html = iframe_html(metadata.width, metadata.height, domain, resource.id.as_str());
    OEmbedResponse {
        version: String::from_str("1.0"),
        title: resource.resource_name.clone(),
        author_name: None,
        author_url: None,
        provider_name: Some(String::from_str("Hipsutuubi")),
        provider_url: Some(String::from_str(domain)),
        cache_age: Some(3600),
        thumbnail_url: Some(thumbnail_url(domain, resource.id.as_str())),
        thumbnail_width: None,
        thumbnail_height: None,
        resource: OEmbedResourceType::Video { html, width: metadata.width, height: metadata.height },
    }
}

/// Why an oEmbed request yields no reply.
#[derive(Debug, PartialEq, Eq, Structural)]
pub enum OEmbedFailure {
    BadRequest,
    NotFound,
}

/// Answer an oEmbed request from the already-extracted query pairs of
/// the player URL: the URL must name a resource; the resource must be
/// an active video visible to the caller and have metadata.
pub fn oembed_response(
    store: &ResourceStore,
    pairs: Option<&Vec<(String, String)>>,
    user_info: &Option<UserInfo>,
    domain: &str,
) -> (r: Result<OEmbedResponse, OEmbedFailure>)
    ensures
        ({
            let pv = match pairs {
                Some(p) => Some(p@.map_values(|q: (String, String)| (q.0@, q.1@))),
                None => None,
            };
            &&& r == Result::<OEmbedResponse, OEmbedFailure>::Err(OEmbedFailure::BadRequest) <==> (
            pv is None || spec_find_param(pv.unwrap(), "resource_id"@) is None)
            &&& (r matches Ok(resp) ==> ({
                let id = spec_find_param(pv.unwrap(), "resource_id"@).unwrap();
                &&& spec_active_resource(store@.resources, id) matches Some(res)
                &&& res.resource_type == ResourceType::Video
                &&& spec_has_access_v(*user_info, res)
                &&& has_metadata_row(store@.video_metadata, id)
                &&& spec_oembed_reply(
                    resp,
                    (match spec_active_resource(store@.resources, id) {
                        Some(res2) => res2.resource_name,
                        None => Seq::empty(),
                    }),
                    store@.video_metadata,
                    id,
                    domain@,
                )
            }))
            &&& (r == Result::<OEmbedResponse, OEmbedFailure>::Err(OEmbedFailure::NotFound) <==> (
            pv is Some && (spec_find_param(pv.unwrap(), "resource_id"@) matches Some(id) && !({
                &&& spec_active_resource(store@.resources, id) matches Some(res)
                &&& res.resource_type == ResourceType::Video
                &&& spec_has_access_v(*user_info, res)
                &&& has_metadata_row(store@.video_metadata, id)
            }))))
        }),
{
    let pairs = match pairs {
        Some(p) => p,
        None => {
            return Err(OEmbedFailure::BadRequest);
        },
    };
    let resource_id = match find_query_param(pairs, "resource_id") {
        Some(v) => v,
        None => {
            return Err(OEmbedFailure::BadRequest);
        },
    };
    let resource = match get_active_resource_by_id(store, resource_id.as_str()) {
        Some(res) => res,
        None => {
            return Err(OEmbedFailure::NotFound);
        },
    };
    let is_video = match resource.resource_type {
        ResourceType::Video => true,
        _ => false,
    };
    if !is_video {
        return Err(OEmbedFailure::NotFound);
    }
    if !crate::serve::has_access_to_resource(user_info, resource) {
        return Err(OEmbedFailure::NotFound);
    }
    let metadata = match get_highest_quality_video_metadata(store, resource_id.as_str()) {
        Some(m) => m,
        None => {
            return Err(OEmbedFailure::NotFound);
        },
    };
    proof {
        let pv = pairs@.map_values(|q: (String, String)| (q.0@, q.1@));
        let id = spec_find_param(pv, "resource_id"@).unwrap();
        assert(has_metadata_row(store@.video_metadata, id));
        crate::resources::lemma_find_resource_some(store@.resources, id);
        assert(resource.id@ == id);
        let m = choose|i: int|
            0 <= i < store@.video_metadata.len() && metadata_row_matches(
                #[trigger] store@.video_metadata[i],
                id,
                metadata,
            );
        assert(store@.video_metadata[m].resource_id == id
            && store@.video_metadata[m].width == metadata.width
            && store@.video_metadata[m].height == metadata.height);
    }
    Ok(oembed_for(resource, &metadata, domain))
}

/// The decoded query pairs of an absolute URL, or nothing when the URL
/// does not parse: what `url::Url::parse` followed by `query_pairs`
/// yields.
pub uninterp spec fn url_query_params(s: Seq<char>) -> Option<Seq<(Seq<char>, Seq<char>)>>;

/// Relies on `url::Url::parse` and `url::Url::query_pairs`: parse the
/// absolute URL and decode its query string into key-value pairs.
#[verifier::external_body]
fn parse_query_params(s: &str) -> (r: Option<Vec<(String, String)>>)
    ensures
        r is Some <==> url_query_params(s@) is Some,
        (r matches Some(v) ==> v@.map_values(|p: (String, String)| (p.0@, p.1@))
            == url_query_params(s@).unwrap()),
{
    let u = match url::Url::parse(s) {
        Ok(u) => u,
        Err(_) => {
            return None;
        },
    };
    Some(u.query_pairs().into_owned().collect())
}

/// Answer an oEmbed request from the raw player URL.
pub fn oembed_for_url(
    store: &ResourceStore,
    player_url: &str,
    user_info: &Option<UserInfo>,
    domain: &str,
) -> (r: Result<OEmbedResponse, OEmbedFailure>)
    ensures
        r == Result::<OEmbedResponse, OEmbedFailure>::Err(OEmbedFailure::BadRequest) <==> (
        url_query_params(player_url@) is None || spec_find_param(
            url_query_params(player_url@).unwrap(),
            "resource_id"@,
        ) is None),
        (r matches Ok(resp) ==> ({
            let id = spec_find_param(url_query_params(player_url@).unwrap(), "resource_id"@).unwrap();
            &&& spec_active_resource(store@.resources, id) matches Some(res)
            &&& res.resource_type == ResourceType::Video
            &&& spec_has_access_v(*user_info, res)
            &&& has_metadata_row(store@.video_metadata, id)
            &&& spec_oembed_reply(
                resp,
                (match spec_active_resource(store@.resources, id) {
                    Some(res2) => res2.resource_name,
                    None => Seq::empty(),
                }),
                store@.video_metadata,
                id,
                domain@,
            )
        })),
        r == Result::<OEmbedResponse, OEmbedFailure>::Err(OEmbedFailure::NotFound) <==> (
        url_query_params(player_url@) is Some && (spec_find_param(
            url_query_params(player_url@).unwrap(),
            "resource_id"@,
        ) matches Some(id) && !({
            &&& spec_active_resource(store@.resources, id) matches Some(res)
            &&& res.resource_type == ResourceType::Video
            &&& spec_has_access_v(*user_info, res)
            &&& has_metadata_row(store@.video_metadata, id)
        }))),
{
    let pairs = parse_query_params(player_url);
    match pairs {
        Some(p) => oembed_response(store, Some(&p), user_info, domain),
        None => oembed_response(store, None, user_info, domain),
    }
}

/// The metadata reply: only video resources are supported, and only
/// when visible to the caller and carrying metadata.
pub fn resource_metadata(store: &ResourceStore, resource_id: &str, user_info: &Option<UserInfo>) -> (r:
    Option<ResourceMetadataResponse>)
    ensures
        r matches Some(resp) ==> ({
            &&& spec_active_resource(store@.resources, resource_id@) matches Some(res)
            &&& res.resource_type == ResourceType::Video
            &&& resp.id@ == res.id
            &&& resp.name@ == res.resource_name
            &&& resp.status@ == status_name(res.resource_status)
            &&& has_metadata_row(store@.video_metadata, resource_id@)
            &&& (resp.resource_metadata matches ResourceMetadata::Video {
                width,
                height,
                duration_seconds,
                bit_rate,
                frame_rate,
            } && ({
                &&& exists|i: int|
                    0 <= i < store@.video_metadata.len() && metadata_row_matches(
                        #[trigger] store@.video_metadata[i],
                        resource_id@,
                        VideoMetadata { width, height, duration_seconds, bit_rate, frame_rate },
                    )
                &&& forall|i: int|
                    0 <= i < store@.video_metadata.len() && (#[trigger] store@.video_metadata[i]).resource_id
                        == resource_id@ ==> store@.video_metadata[i].width
                        * store@.video_metadata[i].height <= width * height
            }))
        }),
        r is None <==> !({
            &&& spec_active_resource(store@.resources, resource_id@) matches Some(res)
            &&& res.resource_type == ResourceType::Video
            &&& spec_has_access_v(*user_info, res)
            &&& has_metadata_row(store@.video_metadata, resource_id@)
        }),
{
    let resource = match get_active_resource_by_id(store, resource_id) {
        Some(res) => res,
        None => {
            return None;
        },
    };
    if !crate::serve::has_access_to_resource(user_info, resource) {
        return None;
    }
    let is_video = match resource.resource_type {
        ResourceType::Video => true,
        _ => false,
    };
    if !is_video {
        return None;
    }
    let metadata = match get_highest_quality_video_metadata(store, resource_id) {
        Some(m) => m,
        None => {
            return None;
        },
    };
    Some(
        ResourceMetadataResponse {
            id: resource.id.clone(),
            name: resource.resource_name.clone(),
            status: String::from_str(resource.resource_status.as_str()),
            resource_metadata: ResourceMetadata::Video {
                width: metadata.width,
                height: metadata.height,
                duration_seconds: metadata.duration_seconds,
                bit_rate: metadata.bit_rate,
                frame_rate: metadata.frame_rate,
            },
        },
    )
}

} // verus!
