//! The upload engine's datastore: per-owner quotas, committed uploads,
//! and in-progress resumable chunk uploads with their recorded parts.
//!
//! Quota accounting: the bytes a user holds are the sum of committed
//! upload sizes plus the received bytes of their active (not yet
//! completed) chunk uploads.  Every step that grows that sum is admitted
//! only while it stays within the user's quota; completing a chunk upload
//! moves its bytes into a committed row without changing the sum.

use vstd::prelude::*;

verus! {

/// Total bytes a user may store.
#[derive(Debug)]
pub struct UserUploadQuota {
    pub user_id: String,
    pub upload_quota: i64,
}

/// A committed upload: `file_size` bytes held by `user_id`.
#[derive(Debug)]
pub struct UserUpload {
    pub user_id: String,
    pub resource_id: String,
    pub file_size: i64,
}

/// Which integrity check a chunk upload declared.
#[derive(Clone, Copy, Debug, PartialEq, Eq, Structural)]
pub enum IntegrityCheckType {
    NoCheck,
    Crc32,
}

/// Wire name of each integrity check type.
pub open spec fn integrity_check_name(t: IntegrityCheckType) -> Seq<char> {
    match t {
        IntegrityCheckType::NoCheck => "none"@,
        IntegrityCheckType::Crc32 => "crc32"@,
    }
}

impl IntegrityCheckType {
    /// The wire name of this integrity check type.
    pub fn as_str(&self) -> (r: &'static str)
        ensures
            r@ == integrity_check_name(*self),
    {
        match self {
            IntegrityCheckType::NoCheck => "none",
            IntegrityCheckType::Crc32 => "crc32",
        }
    }
}

/// One resumable upload in progress (or kept after completion).
#[derive(Debug)]
pub struct ChunkUpload {
    pub object_name: String,
    pub aws_upload_id: String,
    pub user_id: String,
    pub file_name: String,
    pub file_integrity_algorithm: IntegrityCheckType,
    pub file_integrity_hash: Option<String>,
    pub received_bytes: i64,
    pub chunk_size: i64,
    pub completed: bool,
}

/// One recorded chunk of a resumable upload.
#[derive(Debug)]
pub struct ChunkInformation {
    pub object_name: String,
    pub part_number: u32,
    pub e_tag: String,
    pub user_id: String,
    pub size: i64,
}

/// The upload engine's shared state.
#[derive(Debug)]
pub struct UploadStore {
    pub user_quotas: Vec<UserUploadQuota>,
    pub user_uploads: Vec<UserUpload>,
    pub chunk_uploads: Vec<ChunkUpload>,
    pub chunk_information: Vec<ChunkInformation>,
}

// ------------------------------------------------------------------
// Sums and lookups.
// ------------------------------------------------------------------

/// Sum of committed upload sizes held by `user`.
pub open spec fn sum_completed(rows: Seq<UserUpload>, user: Seq<char>) -> int
    decreases rows.len(),
{
    if rows.len() == 0 {
        0
    } else {
        sum_completed(rows.drop_last(), user) + if rows.last().user_id@ == user {
            rows.last().file_size as int
        } else {
            0
        }
    }
}

/// Sum of received bytes of `user`'s active chunk uploads.
pub open spec fn sum_active_chunks(rows: Seq<ChunkUpload>, user: Seq<char>) -> int
    decreases rows.len(),
{
    if rows.len() == 0 {
        0
    } else {
        sum_active_chunks(rows.drop_last(), user) + if rows.last().user_id@ == user
            && !rows.last().completed {
            rows.last().received_bytes as int
        } else {
            0
        }
    }
}

/// Sum of recorded part sizes of one chunk upload.
pub open spec fn sum_part_sizes(rows: Seq<ChunkInformation>, user: Seq<char>, object: Seq<char>) -> int
    decreases rows.len(),
{
    if rows.len() == 0 {
        0
    } else {
        sum_part_sizes(rows.drop_last(), user, object) + if rows.last().user_id@ == user
            && rows.last().object_name@ == object {
            rows.last().size as int
        } else {
            0
        }
    }
}

/// Bytes `user` currently holds: committed uploads plus active chunk
/// uploads.
pub open spec fn spec_used_quota(store: UploadStore, user: Seq<char>) -> int {
    sum_completed(store.user_uploads@, user) + sum_active_chunks(store.chunk_uploads@, user)
}

/// The quota of `user`: the first quota row, or 0 if none exists.
pub open spec fn quota_of(rows: Seq<UserUploadQuota>, user: Seq<char>) -> int
    decreases rows.len(),
{
    if rows.len() == 0 {
        0
    } else if rows[0].user_id@ == user {
        rows[0].upload_quota as int
    } else {
        quota_of(rows.drop_first(), user)
    }
}

/// Index of the first active chunk upload of (`user`, `object`), if any.
pub open spec fn find_active_chunk(rows: Seq<ChunkUpload>, user: Seq<char>, object: Seq<char>) -> Option<int>
    decreases rows.len(),
{
    if rows.len() == 0 {
        None
    } else if rows[0].user_id@ == user && rows[0].object_name@ == object && !rows[0].completed {
        Some(0)
    } else {
        match find_active_chunk(rows.drop_first(), user, object) {
            Some(i) => Some(i + 1),
            None => None,
        }
    }
}

// ------------------------------------------------------------------
// Well-formedness.
// ------------------------------------------------------------------

/// Store invariant: sizes are non-negative, recorded part numbers are
/// unique per upload, each chunk upload's `received_bytes` equals the sum
/// of its recorded part sizes, and no user's holding exceeds `i64::MAX`.
pub open spec fn wf(store: UploadStore) -> bool {
    &&& forall|i: int|
        0 <= i < store.user_uploads@.len() ==> #[trigger] store.user_uploads@[i].file_size >= 0
    &&& forall|i: int|
        0 <= i < store.chunk_uploads@.len() ==> #[trigger] store.chunk_uploads@[i].received_bytes
            >= 0
    &&& forall|i: int|
        0 <= i < store.chunk_information@.len() ==> #[trigger] store.chunk_information@[i].size >= 1
    &&& forall|i: int, j: int|
        0 <= i < j < store.chunk_uploads@.len() ==> !(#[trigger] same_upload_key(
            store.chunk_uploads@[i],
            store.chunk_uploads@[j],
        ))
    &&& forall|i: int, j: int|
        0 <= i < j < store.chunk_information@.len() ==> !(#[trigger] same_part_key(
            store.chunk_information@[i],
            store.chunk_information@[j],
        ))
    &&& forall|i: int|
        0 <= i < store.chunk_uploads@.len() ==> (#[trigger] store.chunk_uploads@[i]).received_bytes
            as int == sum_part_sizes(
            store.chunk_information@,
            store.chunk_uploads@[i].user_id@,
            store.chunk_uploads@[i].object_name@,
        )
    &&& forall|u: Seq<char>| #[trigger] spec_used_quota(store, u) <= i64::MAX
}

/// Two chunk-upload rows name the same upload.
pub open spec fn same_upload_key(a: ChunkUpload, b: ChunkUpload) -> bool {
    a.user_id@ == b.user_id@ && a.object_name@ == b.object_name@
}

/// Two part rows name the same part of the same upload.
pub open spec fn same_part_key(a: ChunkInformation, b: ChunkInformation) -> bool {
    a.user_id@ == b.user_id@ && a.object_name@ == b.object_name@ && a.part_number == b.part_number
}

// ------------------------------------------------------------------
// Prefix-sum lemmas.
// ------------------------------------------------------------------

proof fn lemma_sum_completed_nonneg(rows: Seq<UserUpload>, user: Seq<char>)
    requires
        forall|i: int| 0 <= i < rows.len() ==> #[trigger] rows[i].file_size >= 0,
    ensures
        sum_completed(rows, user) >= 0,
    decreases rows.len(),
{
    if rows.len() > 0 {
        lemma_sum_completed_nonneg(rows.drop_last(), user);
    }
}

proof fn lemma_sum_completed_prefix(rows: Seq<UserUpload>, user: Seq<char>, i: int)
    requires
        forall|k: int| 0 <= k < rows.len() ==> #[trigger] rows[k].file_size >= 0,
        0 <= i <= rows.len(),
    ensures
        sum_completed(rows.take(i), user) <= sum_completed(rows, user),
        sum_completed(rows.take(i), user) >= 0,
    decreases rows.len() - i,
{
    if i < rows.len() {
        lemma_sum_completed_prefix(rows, user, i + 1);
        assert(rows.take(i + 1).drop_last() =~= rows.take(i));
        assert(rows.take(i + 1).last() == rows[i]);
    } else {
        assert(rows.take(i) =~= rows);
        lemma_sum_completed_nonneg(rows, user);
    }
    lemma_sum_completed_nonneg(rows.take(i), user);
}

proof fn lemma_sum_chunks_nonneg(rows: Seq<ChunkUpload>, user: Seq<char>)
    requires
        forall|i: int| 0 <= i < rows.len() ==> #[trigger] rows[i].received_bytes >= 0,
    ensures
        sum_active_chunks(rows, user) >= 0,
    decreases rows.len(),
{
    if rows.len() > 0 {
        lemma_sum_chunks_nonneg(rows.drop_last(), user);
    }
}

proof fn lemma_sum_chunks_prefix(rows: Seq<ChunkUpload>, user: Seq<char>, i: int)
    requires
        forall|k: int| 0 <= k < rows.len() ==> #[trigger] rows[k].received_bytes >= 0,
        0 <= i <= rows.len(),
    ensures
        sum_active_chunks(rows.take(i), user) <= sum_active_chunks(rows, user),
        sum_active_chunks(rows.take(i), user) >= 0,
    decreases rows.len() - i,
{
    if i < rows.len() {
        lemma_sum_chunks_prefix(rows, user, i + 1);
        assert(rows.take(i + 1).drop_last() =~= rows.take(i));
        assert(rows.take(i + 1).last() == rows[i]);
    } else {
        assert(rows.take(i) =~= rows);
        lemma_sum_chunks_nonneg(rows, user);
    }
    lemma_sum_chunks_nonneg(rows.take(i), user);
}

// ------------------------------------------------------------------
// Lookups.
// ------------------------------------------------------------------

/// The user's quota: the first quota row for `user_id`, or 0.
pub fn user_quota(store: &UploadStore, user_id: &str) -> (r: i64)
    ensures
        r as int == quota_of(store.user_quotas@, user_id@),
{
    let n = store.user_quotas.len();
    let mut i: usize = 0;
    proof {
        assert(store.user_quotas@.skip(0) =~= store.user_quotas@);
    }
    while i < n
        invariant
            0 <= i <= n,
            n == store.user_quotas@.len(),
            quota_of(store.user_quotas@, user_id@) == quota_of(
                store.user_quotas@.skip(i as int),
                user_id@,
            ),
        decreases n - i,
    {
        assert(store.user_quotas@.skip(i as int)[0] == store.user_quotas@[i as int]);
        if crate::text::str_eq(store.user_quotas[i].user_id.as_str(), user_id) {
            return store.user_quotas[i].upload_quota;
        }
        proof {
            assert(store.user_quotas@.skip(i as int).drop_first() =~= store.user_quotas@.skip(
                i as int + 1,
            ));
        }
        i = i + 1;
    }
    proof {
        assert(store.user_quotas@.skip(n as int) =~= Seq::<UserUploadQuota>::empty());
    }
    0
}

/// Bytes the user currently holds; the true sum (the store invariant
/// keeps it within `i64`).
pub fn used_user_quota(store: &UploadStore, user_id: &str) -> (r: i64)
    requires
        wf(*store),
    ensures
        r as int == spec_used_quota(*store, user_id@),
{
    let mut completed: i64 = 0;
    let n1 = store.user_uploads.len();
    let mut i: usize = 0;
    proof {
        lemma_sum_chunks_nonneg(store.chunk_uploads@, user_id@);
        assert(spec_used_quota(*store, user_id@) <= i64::MAX);
    }
    while i < n1
        invariant
            0 <= i <= n1,
            n1 == store.user_uploads@.len(),
            wf(*store),
            completed as int == sum_completed(store.user_uploads@.take(i as int), user_id@),
            completed >= 0,
        decreases n1 - i,
    {
        proof {
            lemma_sum_completed_prefix(store.user_uploads@, user_id@, i as int + 1);
            lemma_sum_chunks_nonneg(store.chunk_uploads@, user_id@);
            assert(spec_used_quota(*store, user_id@) <= i64::MAX);
            assert(rows_take_step_completed(store.user_uploads@, i as int));
        }
        if crate::text::str_eq(store.user_uploads[i].user_id.as_str(), user_id) {
            completed = completed + store.user_uploads[i].file_size;
        }
        i = i + 1;
    }
    proof {
        assert(store.user_uploads@.take(n1 as int) =~= store.user_uploads@);
    }
    let mut active: i64 = 0;
    let n2 = store.chunk_uploads.len();
    let mut j: usize = 0;
    while j < n2
        invariant
            0 <= j <= n2,
            n2 == store.chunk_uploads@.len(),
            wf(*store),
            completed as int == sum_completed(store.user_uploads@, user_id@),
            completed >= 0,
            active as int == sum_active_chunks(store.chunk_uploads@.take(j as int), user_id@),
            active >= 0,
        decreases n2 - j,
    {
        proof {
            lemma_sum_chunks_prefix(store.chunk_uploads@, user_id@, j as int + 1);
            lemma_sum_completed_nonneg(store.user_uploads@, user_id@);
            assert(spec_used_quota(*store, user_id@) <= i64::MAX);
            assert(rows_take_step_chunks(store.chunk_uploads@, j as int));
        }
        let row = &store.chunk_uploads[j];
        if crate::text::str_eq(row.user_id.as_str(), user_id) && !row.completed {
            active = active + row.received_bytes;
        }
        j = j + 1;
    }
    proof {
        assert(store.chunk_uploads@.take(n2 as int) =~= store.chunk_uploads@);
        lemma_sum_completed_nonneg(store.user_uploads@, user_id@);
        lemma_sum_chunks_nonneg(store.chunk_uploads@, user_id@);
        assert(spec_used_quota(*store, user_id@) <= i64::MAX);
    }
    completed + active
}

/// Helper fact: one step of a prefix sum over committed uploads.
spec fn rows_take_step_completed(rows: Seq<UserUpload>, i: int) -> bool {
    0 <= i < rows.len() ==> rows.take(i + 1).drop_last() =~= rows.take(i) && rows.take(i + 1).last()
        == rows[i]
}

/// Helper fact: one step of a prefix sum over chunk uploads.
spec fn rows_take_step_chunks(rows: Seq<ChunkUpload>, i: int) -> bool {
    0 <= i < rows.len() ==> rows.take(i + 1).drop_last() =~= rows.take(i) && rows.take(i + 1).last()
        == rows[i]
}

// ------------------------------------------------------------------
// Key predicates and filters.
// ------------------------------------------------------------------

/// A chunk-upload row belongs to (`user`, `object`).
pub open spec fn upload_key_matches(r: ChunkUpload, user: Seq<char>, object: Seq<char>) -> bool {
    r.user_id@ == user && r.object_name@ == object
}

/// A part row belongs to (`user`, `object`).
pub open spec fn part_key_matches(r: ChunkInformation, user: Seq<char>, object: Seq<char>) -> bool {
    r.user_id@ == user && r.object_name@ == object
}

/// Some chunk-upload row (active or completed) has this key.
pub open spec fn has_upload(rows: Seq<ChunkUpload>, user: Seq<char>, object: Seq<char>) -> bool {
    exists|i: int| 0 <= i < rows.len() && upload_key_matches(#[trigger] rows[i], user, object)
}

/// Some part row has this key.
pub open spec fn has_part_rows(rows: Seq<ChunkInformation>, user: Seq<char>, object: Seq<char>) -> bool {
    exists|i: int| 0 <= i < rows.len() && part_key_matches(#[trigger] rows[i], user, object)
}

/// A part with this number is already recorded for the upload.
pub open spec fn has_part_number(
    rows: Seq<ChunkInformation>,
    user: Seq<char>,
    object: Seq<char>,
    number: u32,
) -> bool {
    exists|i: int|
        0 <= i < rows.len() && part_key_matches(#[trigger] rows[i], user, object) && rows[i].part_number
            == number
}

/// Index of the first chunk-upload row with this key, in any state.
pub open spec fn find_upload(rows: Seq<ChunkUpload>, user: Seq<char>, object: Seq<char>) -> Option<int>
    decreases rows.len(),
{
    if rows.len() == 0 {
        None
    } else if upload_key_matches(rows[0], user, object) {
        Some(0)
    } else {
        match find_upload(rows.drop_first(), user, object) {
            Some(i) => Some(i + 1),
            None => None,
        }
    }
}

/// The first chunk-upload row with this key, provided it is still active.
pub open spec fn spec_active_chunk(rows: Seq<ChunkUpload>, user: Seq<char>, object: Seq<char>) -> Option<
    ChunkUpload,
> {
    match find_upload(rows, user, object) {
        Some(i) => if !rows[i].completed {
            Some(rows[i])
        } else {
            None
        },
        None => None,
    }
}

/// The chunk-upload rows that do not belong to (`user`, `object`).
pub open spec fn without_upload(rows: Seq<ChunkUpload>, user: Seq<char>, object: Seq<char>) -> Seq<
    ChunkUpload,
>
    decreases rows.len(),
{
    if rows.len() == 0 {
        rows
    } else {
        let rest = without_upload(rows.drop_last(), user, object);
        if upload_key_matches(rows.last(), user, object) {
            rest
        } else {
            rest.push(rows.last())
        }
    }
}

/// The part rows that do not belong to (`user`, `object`).
pub open spec fn without_parts(rows: Seq<ChunkInformation>, user: Seq<char>, object: Seq<char>) -> Seq<
    ChunkInformation,
>
    decreases rows.len(),
{
    if rows.len() == 0 {
        rows
    } else {
        let rest = without_parts(rows.drop_last(), user, object);
        if part_key_matches(rows.last(), user, object) {
            rest
        } else {
            rest.push(rows.last())
        }
    }
}

proof fn lemma_find_upload_at(rows: Seq<ChunkUpload>, user: Seq<char>, object: Seq<char>, i: int)
    requires
        0 <= i <= rows.len(),
        forall|j: int| 0 <= j < i ==> !upload_key_matches(#[trigger] rows[j], user, object),
    ensures
        i == rows.len() ==> find_upload(rows, user, object) is None,
        i < rows.len() && upload_key_matches(rows[i], user, object) ==> find_upload(
            rows,
            user,
            object,
        ) == Some(i),
    decreases i,
{
    if i > 0 {
        assert(!upload_key_matches(rows[0], user, object));
        assert(forall|j: int|
            0 <= j < i - 1 ==> #[trigger] rows.drop_first()[j] == rows[j + 1]);
        lemma_find_upload_at(rows.drop_first(), user, object, i - 1);
    }
}

/// When `find_upload` finds an index, it is a first match.
pub proof fn lemma_find_upload_some(rows: Seq<ChunkUpload>, user: Seq<char>, object: Seq<char>)
    requires
        find_upload(rows, user, object) is Some,
    ensures
        ({
            let i = find_upload(rows, user, object).unwrap();
            &&& 0 <= i < rows.len()
            &&& upload_key_matches(rows[i], user, object)
            &&& forall|j: int| 0 <= j < i ==> !upload_key_matches(#[trigger] rows[j], user, object)
        }),
    decreases rows.len(),
{
    if rows.len() > 0 && !upload_key_matches(rows[0], user, object) {
        lemma_find_upload_some(rows.drop_first(), user, object);
        let i = find_upload(rows, user, object).unwrap();
        assert(rows.drop_first()[i - 1] == rows[i]);
        assert forall|j: int| 0 <= j < i implies !upload_key_matches(
            #[trigger] rows[j],
            user,
            object,
        ) by {
            if j > 0 {
                assert(rows.drop_first()[j - 1] == rows[j]);
            }
        }
    }
}

// ------------------------------------------------------------------
// Lookup functions over chunk uploads.
// ------------------------------------------------------------------

/// Index of the first chunk-upload row of (`user_id`, `object_name`).
fn find_upload_index(store: &UploadStore, user_id: &str, object_name: &str) -> (r: Option<usize>)
    ensures
        match r {
            Some(i) => find_upload(store.chunk_uploads@, user_id@, object_name@) == Some(i as int),
            None => find_upload(store.chunk_uploads@, user_id@, object_name@) is None,
        },
{
    let n = store.chunk_uploads.len();
    let mut i: usize = 0;
    while i < n
        invariant
            0 <= i <= n,
            n == store.chunk_uploads@.len(),
            forall|j: int|
                0 <= j < i ==> !upload_key_matches(
                    #[trigger] store.chunk_uploads@[j],
                    user_id@,
                    object_name@,
                ),
        decreases n - i,
    {
        let row = &store.chunk_uploads[i];
        if crate::text::str_eq(row.user_id.as_str(), user_id) && crate::text::str_eq(
            row.object_name.as_str(),
            object_name,
        ) {
            proof {
                lemma_find_upload_at(store.chunk_uploads@, user_id@, object_name@, i as int);
            }
            return Some(i);
        }
        i = i + 1;
    }
    proof {
        lemma_find_upload_at(store.chunk_uploads@, user_id@, object_name@, n as int);
    }
    None
}

/// Whether any chunk-upload row (active or completed) has this key.
pub fn has_chunk_upload(store: &UploadStore, user_id: &str, object_name: &str) -> (r: bool)
    ensures
        r == has_upload(store.chunk_uploads@, user_id@, object_name@),
{
    match find_upload_index(store, user_id, object_name) {
        Some(i) => {
            proof {
                lemma_find_upload_some(store.chunk_uploads@, user_id@, object_name@);
            }
            true
        },
        None => {
            proof {
                assert forall|i: int|
                    0 <= i < store.chunk_uploads@.len() implies !upload_key_matches(
                    #[trigger] store.chunk_uploads@[i],
                    user_id@,
                    object_name@,
                ) by {
                    lemma_find_upload_none(store.chunk_uploads@, user_id@, object_name@, i);
                }
            }
            false
        },
    }
}

proof fn lemma_find_upload_none(rows: Seq<ChunkUpload>, user: Seq<char>, object: Seq<char>, i: int)
    requires
        find_upload(rows, user, object) is None,
        0 <= i < rows.len(),
    ensures
        !upload_key_matches(rows[i], user, object),
    decreases rows.len(),
{
    if i > 0 {
        assert(rows.drop_first()[i - 1] == rows[i]);
        lemma_find_upload_none(rows.drop_first(), user, object, i - 1);
    }
}

/// The active chunk upload of (`user_id`, `upload_id`), if one exists.
pub fn get_active_chunk_upload<'a>(store: &'a UploadStore, user_id: &str, public_upload_id: &str) -> (r:
    Option<&'a ChunkUpload>)
    ensures
        match r {
            Some(c) => spec_active_chunk(store.chunk_uploads@, user_id@, public_upload_id@)
                == Some(*c),
            None => spec_active_chunk(store.chunk_uploads@, user_id@, public_upload_id@) is None,
        },
{
    match find_upload_index(store, user_id, public_upload_id) {
        Some(i) => {
            proof {
                lemma_find_upload_some(store.chunk_uploads@, user_id@, public_upload_id@);
            }
            let row = &store.chunk_uploads[i];
            if row.completed {
                None
            } else {
                Some(row)
            }
        },
        None => None,
    }
}

// ------------------------------------------------------------------
// Effect lemmas for sums.
// ------------------------------------------------------------------

proof fn lemma_sum_chunks_update(rows: Seq<ChunkUpload>, i: int, x: ChunkUpload, user: Seq<char>)
    requires
        0 <= i < rows.len(),
    ensures
        sum_active_chunks(rows.update(i, x), user) == sum_active_chunks(rows, user) - (
        if rows[i].user_id@ == user && !rows[i].completed {
            rows[i].received_bytes as int
        } else {
            0
        }) + (
        if x.user_id@ == user && !x.completed {
            x.received_bytes as int
        } else {
            0
        }),
    decreases rows.len(),
{
    let updated = rows.update(i, x);
    if i == rows.len() - 1 {
        assert(updated.drop_last() =~= rows.drop_last());
        assert(updated.last() == x);
    } else {
        assert(updated.drop_last() =~= rows.drop_last().update(i, x));
        assert(updated.last() == rows.last());
        lemma_sum_chunks_update(rows.drop_last(), i, x, user);
        assert(rows.drop_last()[i] == rows[i]);
    }
}

proof fn lemma_sum_parts_zero(rows: Seq<ChunkInformation>, user: Seq<char>, object: Seq<char>)
    requires
        !has_part_rows(rows, user, object),
    ensures
        sum_part_sizes(rows, user, object) == 0,
    decreases rows.len(),
{
    if rows.len() > 0 {
        assert(!part_key_matches(rows[rows.len() - 1], user, object));
        assert(forall|i: int|
            0 <= i < rows.len() - 1 ==> #[trigger] rows.drop_last()[i] == rows[i]);
        lemma_sum_parts_zero(rows.drop_last(), user, object);
    }
}

proof fn lemma_chunk_row_le_sum(rows: Seq<ChunkUpload>, i: int, user: Seq<char>)
    requires
        forall|k: int| 0 <= k < rows.len() ==> #[trigger] rows[k].received_bytes >= 0,
        0 <= i < rows.len(),
        rows[i].user_id@ == user,
        !rows[i].completed,
    ensures
        rows[i].received_bytes as int <= sum_active_chunks(rows, user),
    decreases rows.len(),
{
    if i == rows.len() - 1 {
        lemma_sum_chunks_nonneg(rows.drop_last(), user);
    } else {
        assert(rows.drop_last()[i] == rows[i]);
        lemma_chunk_row_le_sum(rows.drop_last(), i, user);
    }
}

/// A quota is an `i64` field, so it never exceeds `i64::MAX`.
pub proof fn lemma_quota_le_max_pub(rows: Seq<UserUploadQuota>, user: Seq<char>)
    ensures
        quota_of(rows, user) <= i64::MAX,
    decreases rows.len(),
{
    if rows.len() > 0 && rows[0].user_id@ != user {
        lemma_quota_le_max_pub(rows.drop_first(), user);
    }
}

/// In a well-formed store every holding is a sum of non-negative sizes.
pub proof fn lemma_used_quota_nonneg(store: UploadStore, user: Seq<char>)
    requires
        wf(store),
    ensures
        spec_used_quota(store, user) >= 0,
{
    lemma_sum_completed_nonneg(store.user_uploads@, user);
    lemma_sum_chunks_nonneg(store.chunk_uploads@, user);
}

// ------------------------------------------------------------------
// Mutating operations.
// ------------------------------------------------------------------

/// Open a new resumable upload: one fresh chunk-upload row with nothing
/// received yet.  Holds no bytes, so nobody's quota use changes.
pub fn init_chunk_upload(
    store: &mut UploadStore,
    object_name: &str,
    aws_upload_id: &str,
    user_id: &str,
    file_name: &str,
    integrity_check_type: IntegrityCheckType,
    integrity_check_value: Option<&str>,
    chunk_size: i64,
)
    requires
        wf(*old(store)),
        chunk_size >= 0,
        !has_upload(old(store).chunk_uploads@, user_id@, object_name@),
        !has_part_rows(old(store).chunk_information@, user_id@, object_name@),
    ensures
        wf(*final(store)),
        final(store).user_uploads@ == old(store).user_uploads@,
        final(store).user_quotas@ == old(store).user_quotas@,
        final(store).chunk_information@ == old(store).chunk_information@,
        ({
            let r = final(store).chunk_uploads@.last();
            &&& final(store).chunk_uploads@ == old(store).chunk_uploads@.push(r)
            &&& r.object_name@ == object_name@
            &&& r.aws_upload_id@ == aws_upload_id@
            &&& r.user_id@ == user_id@
            &&& r.file_name@ == file_name@
            &&& r.file_integrity_algorithm == integrity_check_type
            &&& (match (r.file_integrity_hash, integrity_check_value) {
                (Some(a), Some(b)) => a@ == b@,
                (Option::<String>::None, Option::<&str>::None) => true,
                _ => false,
            })
            &&& r.received_bytes == 0
            &&& r.chunk_size == chunk_size
            &&& !r.completed
        }),
        forall|u: Seq<char>| #[trigger] spec_used_quota(*final(store), u) == spec_used_quota(
            *old(store),
            u,
        ),
        upload_engine_step(*old(store), *final(store)),
{
    let hash: Option<String> = match integrity_check_value {
        Some(s) => Some(s.to_owned()),
        None => None,
    };
    let row = ChunkUpload {
        object_name: object_name.to_owned(),
        aws_upload_id: aws_upload_id.to_owned(),
        user_id: user_id.to_owned(),
        file_name: file_name.to_owned(),
        file_integrity_algorithm: integrity_check_type,
        file_integrity_hash: hash,
        received_bytes: 0,
        chunk_size,
        completed: false,
    };
    store.chunk_uploads.push(row);
    proof {
        let new_rows = store.chunk_uploads@;
        let olds = old(store).chunk_uploads@;
        assert(new_rows.drop_last() =~= olds);
        assert forall|u: Seq<char>| #[trigger] spec_used_quota(*store, u) == spec_used_quota(
            *old(store),
            u,
        ) by {
            assert(sum_active_chunks(new_rows, u) == sum_active_chunks(olds, u));
        }
        lemma_sum_parts_zero(store.chunk_information@, user_id@, object_name@);
        assert forall|i: int, j: int|
            0 <= i < j < new_rows.len() implies !(#[trigger] same_upload_key(
            new_rows[i],
            new_rows[j],
        )) by {
            if j == new_rows.len() - 1 {
                assert(!upload_key_matches(olds[i], user_id@, object_name@));
            }
        }
        assert(step_init(*old(store), *store));
    }
}

/// Record one uploaded chunk: append its part row and count its bytes
/// against the upload and the user's quota.  Admission (the quota bound
/// in the precondition) keeps the user within quota.
pub fn record_uploaded_chunk(
    store: &mut UploadStore,
    user_id: &str,
    public_upload_id: &str,
    e_tag: &str,
    part_number: u32,
    size: i64,
)
    requires
        wf(*old(store)),
        size >= 1,
        spec_active_chunk(old(store).chunk_uploads@, user_id@, public_upload_id@) is Some,
        !has_part_number(old(store).chunk_information@, user_id@, public_upload_id@, part_number),
        spec_used_quota(*old(store), user_id@) + size <= quota_of(
            old(store).user_quotas@,
            user_id@,
        ),
    ensures
        wf(*final(store)),
        final(store).user_uploads@ == old(store).user_uploads@,
        final(store).user_quotas@ == old(store).user_quotas@,
        ({
            let i = find_upload(old(store).chunk_uploads@, user_id@, public_upload_id@).unwrap();
            let old_row = old(store).chunk_uploads@[i];
            let new_row = final(store).chunk_uploads@[i];
            &&& final(store).chunk_uploads@ == old(store).chunk_uploads@.update(i, new_row)
            &&& new_row.received_bytes == old_row.received_bytes + size
            &&& new_row.object_name@ == old_row.object_name@
            &&& new_row.aws_upload_id@ == old_row.aws_upload_id@
            &&& new_row.user_id@ == old_row.user_id@
            &&& new_row.file_name@ == old_row.file_name@
            &&& new_row.file_integrity_algorithm == old_row.file_integrity_algorithm
            &&& new_row.file_integrity_hash == old_row.file_integrity_hash
            &&& new_row.chunk_size == old_row.chunk_size
            &&& !new_row.completed
        }),
        ({
            let p = final(store).chunk_information@.last();
            &&& final(store).chunk_information@ == old(store).chunk_information@.push(p)
            &&& p.object_name@ == public_upload_id@
            &&& p.user_id@ == user_id@
            &&& p.part_number == part_number
            &&& p.e_tag@ == e_tag@
            &&& p.size == size
        }),
        spec_used_quota(*final(store), user_id@) == spec_used_quota(*old(store), user_id@) + size,
        spec_used_quota(*final(store), user_id@) <= quota_of(old(store).user_quotas@, user_id@),
        forall|u: Seq<char>|
            u != user_id@ ==> #[trigger] spec_used_quota(*final(store), u) == spec_used_quota(
                *old(store),
                u,
            ),
        upload_engine_step(*old(store), *final(store)),
{
    proof {
        lemma_find_upload_some(old(store).chunk_uploads@, user_id@, public_upload_id@);
        lemma_quota_le_max_pub(old(store).user_quotas@, user_id@);
        lemma_chunk_row_le_sum(
            old(store).chunk_uploads@,
            find_upload(old(store).chunk_uploads@, user_id@, public_upload_id@).unwrap(),
            user_id@,
        );
        lemma_sum_completed_nonneg(old(store).user_uploads@, user_id@);
        lemma_sum_chunks_nonneg(old(store).chunk_uploads@, user_id@);
    }
    let i = find_upload_index(store, user_id, public_upload_id).unwrap();
    let ghost idx = i as int;
    let ghost olds = old(store).chunk_uploads@;
    let mut row = store.chunk_uploads.remove(i);
    row.received_bytes = row.received_bytes + size;
    store.chunk_uploads.insert(i, row);
    proof {
        assert(store.chunk_uploads@ =~= olds.update(
            idx,
            store.chunk_uploads@[idx],
        ));
    }
    store.chunk_information.push(
        ChunkInformation {
            object_name: public_upload_id.to_owned(),
            part_number,
            e_tag: e_tag.to_owned(),
            user_id: user_id.to_owned(),
            size,
        },
    );
    proof {
        let new_rows = store.chunk_uploads@;
        let new_row = new_rows[idx];
        let old_row = olds[idx];
        let new_parts = store.chunk_information@;
        let old_parts = old(store).chunk_information@;
        assert(new_parts.drop_last() =~= old_parts);
        // Sums over chunk uploads change only for this user, by `size`.
        assert forall|u: Seq<char>| true implies #[trigger] sum_active_chunks(new_rows, u)
            == sum_active_chunks(olds, u) + (if u == user_id@ { size as int } else { 0 }) by {
            lemma_sum_chunks_update(olds, idx, new_row, u);
        }
        // Part sums: the pushed part counts only toward this upload's key.
        assert forall|j: int| 0 <= j < new_rows.len() implies (#[trigger] new_rows[j]).received_bytes
            as int == sum_part_sizes(new_parts, new_rows[j].user_id@, new_rows[j].object_name@) by {
            if j == idx {
                assert(sum_part_sizes(new_parts, user_id@, public_upload_id@) == sum_part_sizes(
                    old_parts,
                    user_id@,
                    public_upload_id@,
                ) + size);
            } else {
                assert(olds[j] == new_rows[j]);
                // Distinct rows have distinct keys, so the new part does not count here.
                if j < idx {
                    assert(!same_upload_key(olds[j], olds[idx]));
                } else {
                    assert(!same_upload_key(olds[idx], olds[j]));
                }
                assert(!(new_rows[j].user_id@ == user_id@ && new_rows[j].object_name@
                    == public_upload_id@));
            }
        }
        // Part-key uniqueness: the new part's number was free.
        assert forall|a: int, b: int|
            0 <= a < b < new_parts.len() implies !(#[trigger] same_part_key(
            new_parts[a],
            new_parts[b],
        )) by {
            assert(new_parts[a] == old_parts[a]);
            if b == new_parts.len() - 1 {
                assert(!(part_key_matches(old_parts[a], user_id@, public_upload_id@)
                    && old_parts[a].part_number == part_number));
            } else {
                assert(new_parts[b] == old_parts[b]);
                assert(!same_part_key(old_parts[a], old_parts[b]));
            }
        }
        // Upload-key uniqueness survives the in-place update.
        assert forall|a: int, b: int|
            0 <= a < b < new_rows.len() implies !(#[trigger] same_upload_key(
            new_rows[a],
            new_rows[b],
        )) by {
            assert(!same_upload_key(olds[a], olds[b]));
            if a != idx {
                assert(new_rows[a] == olds[a]);
            } else {
                assert(new_rows[a].user_id@ == olds[a].user_id@ && new_rows[a].object_name@
                    == olds[a].object_name@);
            }
            if b != idx {
                assert(new_rows[b] == olds[b]);
            } else {
                assert(new_rows[b].user_id@ == olds[b].user_id@ && new_rows[b].object_name@
                    == olds[b].object_name@);
            }
        }
        assert forall|u: Seq<char>| true implies #[trigger] spec_used_quota(*store, u)
            <= i64::MAX by {
            assert(sum_active_chunks(new_rows, u) == sum_active_chunks(olds, u) + (
            if u == user_id@ {
                size as int
            } else {
                0
            }));
            assert(spec_used_quota(*old(store), u) <= i64::MAX);
            if u == user_id@ {
                lemma_quota_le_max_pub(old(store).user_quotas@, u);
            }
        }
        assert(olds.update(idx, new_row) == store.chunk_uploads@);
        assert(step_record(*old(store), *store));
    }
}

/// Close a resumable upload: mark its row completed and commit its bytes
/// as one completed upload.  The bytes move between the two sums, so
/// nobody's quota use changes.
pub fn complete_chunk_upload(store: &mut UploadStore, user_id: &str, public_upload_id: &str)
    requires
        wf(*old(store)),
        spec_active_chunk(old(store).chunk_uploads@, user_id@, public_upload_id@) is Some,
    ensures
        wf(*final(store)),
        final(store).user_quotas@ == old(store).user_quotas@,
        final(store).chunk_information@ == old(store).chunk_information@,
        ({
            let i = find_upload(old(store).chunk_uploads@, user_id@, public_upload_id@).unwrap();
            let old_row = old(store).chunk_uploads@[i];
            let new_row = final(store).chunk_uploads@[i];
            &&& final(store).chunk_uploads@ == old(store).chunk_uploads@.update(i, new_row)
            &&& new_row.completed
            &&& new_row.received_bytes == old_row.received_bytes
            &&& new_row.object_name@ == old_row.object_name@
            &&& new_row.aws_upload_id@ == old_row.aws_upload_id@
            &&& new_row.user_id@ == old_row.user_id@
            &&& new_row.file_name@ == old_row.file_name@
            &&& new_row.file_integrity_algorithm == old_row.file_integrity_algorithm
            &&& new_row.file_integrity_hash == old_row.file_integrity_hash
            &&& new_row.chunk_size == old_row.chunk_size
        }),
        ({
            let i = find_upload(old(store).chunk_uploads@, user_id@, public_upload_id@).unwrap();
            let r = final(store).user_uploads@.last();
            &&& final(store).user_uploads@ == old(store).user_uploads@.push(r)
            &&& r.user_id@ == user_id@
            &&& r.resource_id@ == public_upload_id@
            &&& r.file_size == old(store).chunk_uploads@[i].received_bytes
        }),
        forall|u: Seq<char>| #[trigger] spec_used_quota(*final(store), u) == spec_used_quota(
            *old(store),
            u,
        ),
        upload_engine_step(*old(store), *final(store)),
{
    proof {
        lemma_find_upload_some(old(store).chunk_uploads@, user_id@, public_upload_id@);
    }
    let i = find_upload_index(store, user_id, public_upload_id).unwrap();
    let ghost idx = i as int;
    let ghost olds = old(store).chunk_uploads@;
    let mut row = store.chunk_uploads.remove(i);
    let received = row.received_bytes;
    row.completed = true;
    store.chunk_uploads.insert(i, row);
    proof {
        assert(store.chunk_uploads@ =~= olds.update(idx, store.chunk_uploads@[idx]));
    }
    store.user_uploads.push(
        UserUpload {
            user_id: user_id.to_owned(),
            resource_id: public_upload_id.to_owned(),
            file_size: received,
        },
    );
    proof {
        let new_rows = store.chunk_uploads@;
        let new_row = new_rows[idx];
        let new_uploads = store.user_uploads@;
        assert(new_uploads.drop_last() =~= old(store).user_uploads@);
        assert forall|u: Seq<char>| #[trigger] spec_used_quota(*store, u) == spec_used_quota(
            *old(store),
            u,
        ) by {
            lemma_sum_chunks_update(olds, idx, new_row, u);
            assert(sum_completed(new_uploads, u) == sum_completed(old(store).user_uploads@, u) + (
            if u == user_id@ {
                received as int
            } else {
                0
            }));
        }
        assert forall|j: int| 0 <= j < new_rows.len() implies (#[trigger] new_rows[j]).received_bytes
            as int == sum_part_sizes(
            store.chunk_information@,
            new_rows[j].user_id@,
            new_rows[j].object_name@,
        ) by {
            if j != idx {
                assert(olds[j] == new_rows[j]);
            }
        }
        assert forall|a: int, b: int|
            0 <= a < b < new_rows.len() implies !(#[trigger] same_upload_key(
            new_rows[a],
            new_rows[b],
        )) by {
            assert(!same_upload_key(olds[a], olds[b]));
            if a != idx {
                assert(new_rows[a] == olds[a]);
            } else {
                assert(new_rows[a].user_id@ == olds[a].user_id@ && new_rows[a].object_name@
                    == olds[a].object_name@);
            }
            if b != idx {
                assert(new_rows[b] == olds[b]);
            } else {
                assert(new_rows[b].user_id@ == olds[b].user_id@ && new_rows[b].object_name@
                    == olds[b].object_name@);
            }
        }
        assert forall|u: Seq<char>| true implies #[trigger] spec_used_quota(*store, u)
            <= i64::MAX by {
            assert(spec_used_quota(*store, u) == spec_used_quota(*old(store), u));
            assert(spec_used_quota(*old(store), u) <= i64::MAX);
        }
        assert(old(store).user_uploads@.push(new_uploads.last()) == store.user_uploads@);
        assert(olds.update(idx, new_row) == store.chunk_uploads@);
        assert(step_complete(*old(store), *store));
    }
}

/// Commit a direct upload of `file_size` bytes for `user_id`.
pub fn insert_new_upload(store: &mut UploadStore, user_id: &str, resource_id: &str, file_size: i64)
    requires
        wf(*old(store)),
        file_size >= 0,
        spec_used_quota(*old(store), user_id@) + file_size <= i64::MAX,
    ensures
        wf(*final(store)),
        final(store).user_quotas@ == old(store).user_quotas@,
        final(store).chunk_uploads@ == old(store).chunk_uploads@,
        final(store).chunk_information@ == old(store).chunk_information@,
        ({
            let r = final(store).user_uploads@.last();
            &&& final(store).user_uploads@ == old(store).user_uploads@.push(r)
            &&& r.user_id@ == user_id@
            &&& r.resource_id@ == resource_id@
            &&& r.file_size == file_size
        }),
        spec_used_quota(*final(store), user_id@) == spec_used_quota(*old(store), user_id@)
            + file_size,
        forall|u: Seq<char>|
            u != user_id@ ==> #[trigger] spec_used_quota(*final(store), u) == spec_used_quota(
                *old(store),
                u,
            ),
{
    store.user_uploads.push(
        UserUpload {
            user_id: user_id.to_owned(),
            resource_id: resource_id.to_owned(),
            file_size,
        },
    );
    proof {
        assert(store.user_uploads@.drop_last() =~= old(store).user_uploads@);
        assert forall|u: Seq<char>| true implies #[trigger] spec_used_quota(*store, u)
            == spec_used_quota(*old(store), u) + (if u == user_id@ { file_size as int } else { 0 })
            by {
            assert(sum_completed(store.user_uploads@, u) == sum_completed(
                old(store).user_uploads@,
                u,
            ) + (if u == user_id@ { file_size as int } else { 0 }));
        }
    }
}

proof fn lemma_without_upload_keys(rows: Seq<ChunkUpload>, user: Seq<char>, object: Seq<char>)
    requires
        forall|i: int, j: int|
            0 <= i < j < rows.len() ==> !(#[trigger] same_upload_key(rows[i], rows[j])),
    ensures
        ({
            let kept = without_upload(rows, user, object);
            &&& forall|k: int|
                0 <= k < kept.len() ==> !upload_key_matches(#[trigger] kept[k], user, object)
            &&& forall|k: int|
                0 <= k < kept.len() ==> exists|m: int|
                    0 <= m < rows.len() && #[trigger] kept[k] == rows[m]
            &&& forall|a: int, b: int|
                0 <= a < b < kept.len() ==> !(#[trigger] same_upload_key(kept[a], kept[b]))
        }),
    decreases rows.len(),
{
    if rows.len() > 0 {
        let prefix = rows.drop_last();
        assert(forall|i: int, j: int|
            0 <= i < j < prefix.len() ==> !(#[trigger] same_upload_key(prefix[i], prefix[j])));
        lemma_without_upload_keys(prefix, user, object);
        let kept_prefix = without_upload(prefix, user, object);
        let kept = without_upload(rows, user, object);
        let x = rows.last();
        assert forall|k: int|
            0 <= k < kept.len() implies exists|m: int|
            0 <= m < rows.len() && #[trigger] kept[k] == rows[m] by {
            if k < kept_prefix.len() {
                assert(kept[k] == kept_prefix[k]);
                let m = choose|m: int| 0 <= m < prefix.len() && kept_prefix[k] == prefix[m];
                assert(kept[k] == rows[m]);
            } else {
                assert(kept[k] == x);
                assert(kept[k] == rows[rows.len() - 1]);
            }
        }
        if !upload_key_matches(x, user, object) {
            assert forall|a: int, b: int|
                0 <= a < b < kept.len() implies !(#[trigger] same_upload_key(kept[a], kept[b])) by {
                if b == kept.len() - 1 {
                    assert(kept[b] == x);
                    let m = choose|m: int| 0 <= m < prefix.len() && kept[a] == prefix[m];
                    assert(rows[m] == prefix[m]);
                    assert(!same_upload_key(rows[m], rows[rows.len() - 1]));
                } else {
                    assert(kept[a] == kept_prefix[a] && kept[b] == kept_prefix[b]);
                }
            }
        }
    }
}

proof fn lemma_without_parts_keys(rows: Seq<ChunkInformation>, user: Seq<char>, object: Seq<char>)
    requires
        forall|i: int, j: int|
            0 <= i < j < rows.len() ==> !(#[trigger] same_part_key(rows[i], rows[j])),
    ensures
        ({
            let kept = without_parts(rows, user, object);
            &&& forall|k: int|
                0 <= k < kept.len() ==> !part_key_matches(#[trigger] kept[k], user, object)
            &&& forall|k: int|
                0 <= k < kept.len() ==> exists|m: int|
                    0 <= m < rows.len() && #[trigger] kept[k] == rows[m]
            &&& forall|a: int, b: int|
                0 <= a < b < kept.len() ==> !(#[trigger] same_part_key(kept[a], kept[b]))
        }),
    decreases rows.len(),
{
    if rows.len() > 0 {
        let prefix = rows.drop_last();
        assert(forall|i: int, j: int|
            0 <= i < j < prefix.len() ==> !(#[trigger] same_part_key(prefix[i], prefix[j])));
        lemma_without_parts_keys(prefix, user, object);
        let kept_prefix = without_parts(prefix, user, object);
        let kept = without_parts(rows, user, object);
        let x = rows.last();
        assert forall|k: int|
            0 <= k < kept.len() implies exists|m: int|
            0 <= m < rows.len() && #[trigger] kept[k] == rows[m] by {
            if k < kept_prefix.len() {
                assert(kept[k] == kept_prefix[k]);
                let m = choose|m: int| 0 <= m < prefix.len() && kept_prefix[k] == prefix[m];
                assert(kept[k] == rows[m]);
            } else {
                assert(kept[k] == x);
                assert(kept[k] == rows[rows.len() - 1]);
            }
        }
        if !part_key_matches(x, user, object) {
            assert forall|a: int, b: int|
                0 <= a < b < kept.len() implies !(#[trigger] same_part_key(kept[a], kept[b])) by {
                if b == kept.len() - 1 {
                    assert(kept[b] == x);
                    let m = choose|m: int| 0 <= m < prefix.len() && kept[a] == prefix[m];
                    assert(rows[m] == prefix[m]);
                    assert(!same_part_key(rows[m], rows[rows.len() - 1]));
                } else {
                    assert(kept[a] == kept_prefix[a] && kept[b] == kept_prefix[b]);
                }
            }
        }
    }
}

proof fn lemma_sum_active_without(
    rows: Seq<ChunkUpload>,
    user: Seq<char>,
    object: Seq<char>,
    who: Seq<char>,
)
    requires
        forall|i: int| 0 <= i < rows.len() ==> #[trigger] rows[i].received_bytes >= 0,
    ensures
        sum_active_chunks(without_upload(rows, user, object), who) <= sum_active_chunks(rows, who),
    decreases rows.len(),
{
    if rows.len() > 0 {
        let prefix = rows.drop_last();
        lemma_sum_active_without(prefix, user, object, who);
        let x = rows.last();
        if upload_key_matches(x, user, object) {
            if x.user_id@ == who && !x.completed {
                assert(x.received_bytes >= 0);
            }
        } else {
            assert(without_upload(rows, user, object).drop_last() =~= without_upload(
                prefix,
                user,
                object,
            ));
        }
    }
}

proof fn lemma_sum_parts_without(
    rows: Seq<ChunkInformation>,
    user: Seq<char>,
    object: Seq<char>,
    who: Seq<char>,
    what: Seq<char>,
)
    requires
        who != user || what != object,
    ensures
        sum_part_sizes(without_parts(rows, user, object), who, what) == sum_part_sizes(
            rows,
            who,
            what,
        ),
    decreases rows.len(),
{
    if rows.len() > 0 {
        let prefix = rows.drop_last();
        lemma_sum_parts_without(prefix, user, object, who, what);
        let x = rows.last();
        if !part_key_matches(x, user, object) {
            assert(without_parts(rows, user, object).drop_last() =~= without_parts(
                prefix,
                user,
                object,
            ));
            assert(without_parts(rows, user, object).last() == x);
        }
    }
}

/// Abort a resumable upload: delete its chunk-upload row and every part
/// recorded for it (a ChunkUpload owns its parts; the delete cascades).
/// Frees whatever the upload held, so nobody's quota use grows.
pub fn abort_chunk_upload(store: &mut UploadStore, user_id: &str, object_name: &str)
    requires
        wf(*old(store)),
    ensures
        wf(*final(store)),
        final(store).user_quotas@ == old(store).user_quotas@,
        final(store).user_uploads@ == old(store).user_uploads@,
        final(store).chunk_uploads@ == without_upload(
            old(store).chunk_uploads@,
            user_id@,
            object_name@,
        ),
        final(store).chunk_information@ == without_parts(
            old(store).chunk_information@,
            user_id@,
            object_name@,
        ),
        !has_upload(final(store).chunk_uploads@, user_id@, object_name@),
        !has_part_rows(final(store).chunk_information@, user_id@, object_name@),
        forall|u: Seq<char>| #[trigger] spec_used_quota(*final(store), u) <= spec_used_quota(
            *old(store),
            u,
        ),
        upload_engine_step(*old(store), *final(store)),
{
    let ghost orig_rows = store.chunk_uploads@;
    let ghost orig_parts = store.chunk_information@;
    let mut src_rows: Vec<ChunkUpload> = Vec::new();
    core::mem::swap(&mut src_rows, &mut store.chunk_uploads);
    let mut kept_rows: Vec<ChunkUpload> = Vec::new();
    proof {
        assert(src_rows@.skip(0) =~= orig_rows);
        assert(orig_rows.take(0) =~= Seq::<ChunkUpload>::empty());
    }
    while src_rows.len() > 0
        invariant
            src_rows@ =~= orig_rows.skip(orig_rows.len() - src_rows.len()),
            src_rows@.len() <= orig_rows.len(),
            kept_rows@ =~= without_upload(
                orig_rows.take(orig_rows.len() - src_rows.len()),
                user_id@,
                object_name@,
            ),
        decreases src_rows.len(),
    {
        let ghost k = orig_rows.len() - src_rows@.len();
        let x = src_rows.remove(0);
        proof {
            assert(x == orig_rows[k]);
            assert(src_rows@ =~= orig_rows.skip(k + 1));
            assert(orig_rows.take(k + 1).drop_last() =~= orig_rows.take(k));
            assert(orig_rows.take(k + 1).last() == orig_rows[k]);
        }
        if crate::text::str_eq(x.user_id.as_str(), user_id) && crate::text::str_eq(
            x.object_name.as_str(),
            object_name,
        ) {
            // dropped
        } else {
            kept_rows.push(x);
        }
    }
    proof {
        assert(orig_rows.take(orig_rows.len() as int) =~= orig_rows);
    }
    store.chunk_uploads = kept_rows;
    let mut src_parts: Vec<ChunkInformation> = Vec::new();
    core::mem::swap(&mut src_parts, &mut store.chunk_information);
    let mut kept_parts: Vec<ChunkInformation> = Vec::new();
    proof {
        assert(src_parts@.skip(0) =~= orig_parts);
        assert(orig_parts.take(0) =~= Seq::<ChunkInformation>::empty());
    }
    while src_parts.len() > 0
        invariant
            src_parts@ =~= orig_parts.skip(orig_parts.len() - src_parts.len()),
            src_parts@.len() <= orig_parts.len(),
            kept_parts@ =~= without_parts(
                orig_parts.take(orig_parts.len() - src_parts.len()),
                user_id@,
                object_name@,
            ),
        decreases src_parts.len(),
    {
        let ghost k = orig_parts.len() - src_parts@.len();
        let x = src_parts.remove(0);
        proof {
            assert(x == orig_parts[k]);
            assert(src_parts@ =~= orig_parts.skip(k + 1));
            assert(orig_parts.take(k + 1).drop_last() =~= orig_parts.take(k));
            assert(orig_parts.take(k + 1).last() == orig_parts[k]);
        }
        if crate::text::str_eq(x.user_id.as_str(), user_id) && crate::text::str_eq(
            x.object_name.as_str(),
            object_name,
        ) {
            // dropped
        } else {
            kept_parts.push(x);
        }
    }
    proof {
        assert(orig_parts.take(orig_parts.len() as int) =~= orig_parts);
    }
    store.chunk_information = kept_parts;
    proof {
        let new_rows = store.chunk_uploads@;
        let new_parts = store.chunk_information@;
        lemma_without_upload_keys(orig_rows, user_id@, object_name@);
        lemma_without_parts_keys(orig_parts, user_id@, object_name@);
        assert forall|i: int|
            0 <= i < new_rows.len() implies #[trigger] new_rows[i].received_bytes >= 0 by {
            let m = choose|m: int| 0 <= m < orig_rows.len() && new_rows[i] == orig_rows[m];
        }
        assert forall|i: int|
            0 <= i < new_parts.len() implies #[trigger] new_parts[i].size >= 1 by {
            let m = choose|m: int| 0 <= m < orig_parts.len() && new_parts[i] == orig_parts[m];
        }
        assert forall|j: int| 0 <= j < new_rows.len() implies (#[trigger] new_rows[j]).received_bytes
            as int == sum_part_sizes(new_parts, new_rows[j].user_id@, new_rows[j].object_name@) by {
            let m = choose|m: int| 0 <= m < orig_rows.len() && new_rows[j] == orig_rows[m];
            assert(!upload_key_matches(new_rows[j], user_id@, object_name@));
            lemma_sum_parts_without(
                orig_parts,
                user_id@,
                object_name@,
                new_rows[j].user_id@,
                new_rows[j].object_name@,
            );
        }
        assert forall|u: Seq<char>| #[trigger] spec_used_quota(*store, u) <= spec_used_quota(
            *old(store),
            u,
        ) by {
            lemma_sum_active_without(orig_rows, user_id@, object_name@, u);
        }
        assert forall|u: Seq<char>| true implies #[trigger] spec_used_quota(*store, u)
            <= i64::MAX by {
            assert(spec_used_quota(*store, u) <= spec_used_quota(*old(store), u));
            assert(spec_used_quota(*old(store), u) <= i64::MAX);
        }
        assert(without_upload(old(store).chunk_uploads@, user_id@, object_name@)
            == store.chunk_uploads@);
        assert(step_abort(*old(store), *store));
    }
}

// ------------------------------------------------------------------
// Part assembly at completion.
// ------------------------------------------------------------------

/// One entry of the ordered part list handed to the object store at
/// completion.
#[derive(Debug)]
pub struct PartListEntry {
    pub part_number: u32,
    pub e_tag: String,
    pub size: i64,
}

/// How many parts are recorded for (`user`, `object`).
pub open spec fn count_parts(rows: Seq<ChunkInformation>, user: Seq<char>, object: Seq<char>) -> int
    decreases rows.len(),
{
    if rows.len() == 0 {
        0
    } else {
        count_parts(rows.drop_last(), user, object) + if part_key_matches(
            rows.last(),
            user,
            object,
        ) {
            1int
        } else {
            0int
        }
    }
}

/// Index of the first part of (`user`, `object`) numbered `n`.
pub open spec fn find_part(
    rows: Seq<ChunkInformation>,
    user: Seq<char>,
    object: Seq<char>,
    n: u32,
) -> Option<int>
    decreases rows.len(),
{
    if rows.len() == 0 {
        None
    } else if part_key_matches(rows[0], user, object) && rows[0].part_number == n {
        Some(0)
    } else {
        match find_part(rows.drop_first(), user, object, n) {
            Some(i) => Some(i + 1),
            None => None,
        }
    }
}

/// `p` matches a recorded part row of (`user`, `object`).
pub open spec fn recorded_entry(
    rows: Seq<ChunkInformation>,
    user: Seq<char>,
    object: Seq<char>,
    p: PartListEntry,
) -> bool {
    exists|m: int|
        0 <= m < rows.len() && part_key_matches(#[trigger] rows[m], user, object)
            && rows[m].part_number == p.part_number && rows[m].e_tag@ == p.e_tag@ && rows[m].size
            == p.size
}

/// Find one recorded part by number, copying out its tag and size.
fn find_part_entry(store: &UploadStore, user_id: &str, object_name: &str, n: u32) -> (r: Option<
    PartListEntry,
>)
    ensures
        match r {
            Some(p) => {
                &&& p.part_number == n
                &&& recorded_entry(store.chunk_information@, user_id@, object_name@, p)
            },
            None => !has_part_number(store.chunk_information@, user_id@, object_name@, n),
        },
{
    let len = store.chunk_information.len();
    let mut i: usize = 0;
    while i < len
        invariant
            0 <= i <= len,
            len == store.chunk_information@.len(),
            forall|j: int|
                0 <= j < i ==> !(part_key_matches(
                    #[trigger] store.chunk_information@[j],
                    user_id@,
                    object_name@,
                ) && store.chunk_information@[j].part_number == n),
        decreases len - i,
    {
        let row = &store.chunk_information[i];
        if row.part_number == n && crate::text::str_eq(row.user_id.as_str(), user_id)
            && crate::text::str_eq(row.object_name.as_str(), object_name) {
            let entry = PartListEntry { part_number: n, e_tag: row.e_tag.clone(), size: row.size };
            proof {
                assert(part_key_matches(store.chunk_information@[i as int], user_id@, object_name@)
                    && store.chunk_information@[i as int].part_number == entry.part_number
                    && store.chunk_information@[i as int].e_tag@ == entry.e_tag@
                    && store.chunk_information@[i as int].size == entry.size);
            }
            return Some(entry);
        }
        i = i + 1;
    }
    None
}

/// Count the parts recorded for one upload.
pub fn count_any_parts(store: &UploadStore, user_id: &str, object_name: &str) -> (r: usize)
    ensures
        r as int == count_parts(store.chunk_information@, user_id@, object_name@),
{
    let len = store.chunk_information.len();
    let mut count: usize = 0;
    let mut i: usize = 0;
    while i < len
        invariant
            0 <= i <= len,
            len == store.chunk_information@.len(),
            count as int == count_parts(
                store.chunk_information@.take(i as int),
                user_id@,
                object_name@,
            ),
            count <= i,
        decreases len - i,
    {
        proof {
            assert(store.chunk_information@.take(i as int + 1).drop_last()
                =~= store.chunk_information@.take(i as int));
            assert(store.chunk_information@.take(i as int + 1).last()
                == store.chunk_information@[i as int]);
        }
        let row = &store.chunk_information[i];
        if crate::text::str_eq(row.user_id.as_str(), user_id) && crate::text::str_eq(
            row.object_name.as_str(),
            object_name,
        ) {
            count = count + 1;
        }
        i = i + 1;
    }
    proof {
        assert(store.chunk_information@.take(len as int) =~= store.chunk_information@);
    }
    count
}

/// Whether a part with this number is already recorded for the upload.
pub fn has_recorded_part(store: &UploadStore, user_id: &str, object_name: &str, n: u32) -> (r: bool)
    ensures
        r == has_part_number(store.chunk_information@, user_id@, object_name@, n),
{
    match find_part_entry(store, user_id, object_name, n) {
        Some(p) => {
            proof {
                let m = choose|m: int|
                    0 <= m < store.chunk_information@.len() && part_key_matches(
                        #[trigger] store.chunk_information@[m],
                        user_id@,
                        object_name@,
                    ) && store.chunk_information@[m].part_number == p.part_number
                        && store.chunk_information@[m].e_tag@ == p.e_tag@
                        && store.chunk_information@[m].size == p.size;
                assert(part_key_matches(store.chunk_information@[m], user_id@, object_name@)
                    && store.chunk_information@[m].part_number == n);
            }
            true
        },
        None => false,
    }
}

/// Assemble the ordered part list of a resumable upload: part 1 up to
/// the recorded count, strictly increasing with no gaps.  `None` when a
/// number in that range was never recorded (a gap).
pub fn get_uploaded_parts(store: &UploadStore, user_id: &str, object_name: &str) -> (r: Option<
    Vec<PartListEntry>,
>)
    ensures
        match r {
            Some(parts) => {
                &&& parts@.len() == count_parts(store.chunk_information@, user_id@, object_name@)
                &&& count_parts(store.chunk_information@, user_id@, object_name@) <= u32::MAX
                &&& forall|j: int|
                    0 <= j < parts@.len() ==> (#[trigger] parts@[j]).part_number == j + 1
                &&& forall|a: int, b: int|
                    0 <= a < b < parts@.len() ==> parts@[a].part_number < parts@[b].part_number
                &&& forall|j: int|
                    0 <= j < parts@.len() ==> recorded_entry(
                        store.chunk_information@,
                        user_id@,
                        object_name@,
                        #[trigger] parts@[j],
                    )
            },
            None => count_parts(store.chunk_information@, user_id@, object_name@) > u32::MAX
                || exists|k: u32|
                1 <= k <= count_parts(store.chunk_information@, user_id@, object_name@)
                    && !has_part_number(store.chunk_information@, user_id@, object_name@, k),
        },
{
    // Count the recorded parts of this upload.
    let count = count_any_parts(store, user_id, object_name);
    if count > u32::MAX as usize {
        // More parts than an object-store part number can carry.
        return None;
    }
    let mut parts: Vec<PartListEntry> = Vec::new();
    let mut n: u32 = 0;
    while (n as usize) < count
        invariant
            0 <= n as usize <= count,
            count as int == count_parts(store.chunk_information@, user_id@, object_name@),
            count <= u32::MAX as usize,
            parts@.len() == n as int,
            forall|j: int| 0 <= j < parts@.len() ==> (#[trigger] parts@[j]).part_number == j + 1,
            forall|j: int|
                0 <= j < parts@.len() ==> recorded_entry(
                    store.chunk_information@,
                    user_id@,
                    object_name@,
                    #[trigger] parts@[j],
                ),
        decreases count - n,
    {
        let wanted = n + 1;
        let ghost old_parts = parts@;
        match find_part_entry(store, user_id, object_name, wanted) {
            Some(p) => {
                let ghost pv = p;
                parts.push(p);
                proof {
                    assert(parts@ =~= old_parts.push(pv));
                    assert forall|j: int|
                        0 <= j < parts@.len() implies recorded_entry(
                        store.chunk_information@,
                        user_id@,
                        object_name@,
                        #[trigger] parts@[j],
                    ) by {
                        if j < parts@.len() - 1 {
                            assert(parts@[j] == old_parts[j]);
                        } else {
                            assert(parts@[j] == pv);
                        }
                    }
                }
            },
            None => {
                return None;
            },
        }
        n = wanted;
    }
    Some(parts)
}

/// The ingest object-store prefix for raw uploads.
pub fn get_object_path(object_name: &str) -> (r: String)
    ensures
        r@ == "upload/"@ + object_name@,
{
    let mut s = String::from_str("upload/");
    s.append(object_name);
    s
}

/// Bytes per uploaded part: a part is flushed once the buffer exceeds
/// this (the object store's minimum part size).
pub const PART_THRESHOLD: usize = 5242880;

/// The streaming buffer of a direct upload: bytes accumulate until they
/// exceed the part threshold, then leave as one numbered part.
pub struct PartBuffer {
    pub buffer: Vec<u8>,
    pub part_number: u32,
    pub file_size: u64,
}

impl PartBuffer {
    /// A fresh buffer: nothing received, first part is number 1.
    pub fn new() -> (r: PartBuffer)
        ensures
            r.buffer@ == Seq::<u8>::empty(),
            r.part_number == 1,
            r.file_size == 0,
    {
        PartBuffer { buffer: Vec::new(), part_number: 1, file_size: 0 }
    }

    /// Take in one chunk from the request stream.  When the buffer then
    /// exceeds the part threshold, its contents leave as the next part.
    pub fn push_chunk(&mut self, chunk: &[u8]) -> (r: Option<(u32, Vec<u8>)>)
        requires
            old(self).file_size + chunk@.len() <= u64::MAX,
            old(self).part_number < u32::MAX,
        ensures
            final(self).file_size == old(self).file_size + chunk@.len(),
            ({
                let grown = old(self).buffer@ + chunk@;
                if grown.len() > PART_THRESHOLD {
                    &&& (r matches Some(p) && p.0 == old(self).part_number && p.1@ == grown)
                    &&& final(self).buffer@ == Seq::<u8>::empty()
                    &&& final(self).part_number == old(self).part_number + 1
                } else {
                    &&& r is None
                    &&& final(self).buffer@ == grown
                    &&& final(self).part_number == old(self).part_number
                }
            }),
    {
        let n = chunk.len();
        let mut i: usize = 0;
        while i < n
            invariant
                0 <= i <= n,
                n == chunk@.len(),
                self.buffer@ == old(self).buffer@ + chunk@.take(i as int),
                self.part_number == old(self).part_number,
                self.file_size == old(self).file_size,
            decreases n - i,
        {
            self.buffer.push(chunk[i]);
            proof {
                assert(old(self).buffer@ + chunk@.take(i as int + 1) =~= (old(self).buffer@
                    + chunk@.take(i as int)).push(chunk@[i as int]));
            }
            i = i + 1;
        }
        proof {
            assert(chunk@.take(n as int) =~= chunk@);
        }
        self.file_size = self.file_size + n as u64;
        if self.buffer.len() > PART_THRESHOLD {
            let number = self.part_number;
            let mut out: Vec<u8> = Vec::new();
            core::mem::swap(&mut out, &mut self.buffer);
            self.part_number = number + 1;
            Some((number, out))
        } else {
            None
        }
    }

    /// Close the stream: whatever remains buffered leaves as one last
    /// part; an empty remainder yields nothing.
    pub fn finish(self) -> (r: (u64, Option<(u32, Vec<u8>)>))
        ensures
            r.0 == self.file_size,
            self.buffer@.len() > 0 ==> (r.1 matches Some(p) && p.0 == self.part_number && p.1@
                == self.buffer@),
            self.buffer@.len() == 0 ==> r.1 is None,
    {
        let size = self.file_size;
        if self.buffer.len() > 0 {
            let number = self.part_number;
            (size, Some((number, self.buffer)))
        } else {
            (size, None)
        }
    }
}

/// Opening an upload: one fresh chunk-upload row with nothing received.
pub open spec fn step_init(pre: UploadStore, post: UploadStore) -> bool {
    exists|r: ChunkUpload|
        {
            &&& post.chunk_uploads@ == pre.chunk_uploads@.push(r)
            &&& r.received_bytes == 0
            &&& !r.completed
            &&& post.user_uploads@ == pre.user_uploads@
            &&& post.user_quotas@ == pre.user_quotas@
        }
}

/// Recording an admitted chunk: one active upload's received bytes grow
/// by a size that still fits the owner's quota.
pub open spec fn step_record(pre: UploadStore, post: UploadStore) -> bool {
    exists|i: int, r: ChunkUpload| #![trigger pre.chunk_uploads@.update(i, r)]
        {
            &&& 0 <= i < pre.chunk_uploads@.len()
            &&& !pre.chunk_uploads@[i].completed
            &&& !r.completed
            &&& r.user_id@ == pre.chunk_uploads@[i].user_id@
            &&& r.received_bytes > pre.chunk_uploads@[i].received_bytes
            &&& spec_used_quota(pre, pre.chunk_uploads@[i].user_id@) + (r.received_bytes
                - pre.chunk_uploads@[i].received_bytes) <= quota_of(
                pre.user_quotas@,
                pre.chunk_uploads@[i].user_id@,
            )
            &&& post.chunk_uploads@ == pre.chunk_uploads@.update(i, r)
            &&& post.user_uploads@ == pre.user_uploads@
            &&& post.user_quotas@ == pre.user_quotas@
        }
}

/// Completing an upload: its row turns completed and its bytes commit as
/// one upload row of the same owner.
pub open spec fn step_complete(pre: UploadStore, post: UploadStore) -> bool {
    exists|i: int, r: UserUpload| #![trigger pre.user_uploads@.push(r), pre.chunk_uploads@[i]]
        {
            &&& 0 <= i < pre.chunk_uploads@.len()
            &&& !pre.chunk_uploads@[i].completed
            &&& post.chunk_uploads@ == pre.chunk_uploads@.update(
                i,
                ChunkUpload { completed: true, ..pre.chunk_uploads@[i] },
            )
            &&& post.user_uploads@ == pre.user_uploads@.push(r)
            &&& r.user_id@ == pre.chunk_uploads@[i].user_id@
            &&& r.file_size == pre.chunk_uploads@[i].received_bytes
            &&& post.user_quotas@ == pre.user_quotas@
        }
}

/// Committing an admitted direct upload: one upload row whose size still
/// fits the owner's quota.
pub open spec fn step_commit(pre: UploadStore, post: UploadStore) -> bool {
    exists|r: UserUpload|
        {
            &&& post.user_uploads@ == pre.user_uploads@.push(r)
            &&& r.file_size >= 0
            &&& spec_used_quota(pre, r.user_id@) + r.file_size <= quota_of(
                pre.user_quotas@,
                r.user_id@,
            )
            &&& post.chunk_uploads@ == pre.chunk_uploads@
            &&& post.user_quotas@ == pre.user_quotas@
        }
}

/// Aborting an upload: its rows disappear; nothing else moves.
pub open spec fn step_abort(pre: UploadStore, post: UploadStore) -> bool {
    exists|user: Seq<char>, object: Seq<char>|
        {
            &&& post.chunk_uploads@ == without_upload(pre.chunk_uploads@, user, object)
            &&& post.user_uploads@ == pre.user_uploads@
            &&& post.user_quotas@ == pre.user_quotas@
        }
}

/// One successful step of the upload engine, as the mutating operations
/// describe their effect on the rows.
pub open spec fn upload_engine_step(pre: UploadStore, post: UploadStore) -> bool {
    ||| step_init(pre, post)
    ||| step_record(pre, post)
    ||| step_complete(pre, post)
    ||| step_commit(pre, post)
    ||| step_abort(pre, post)
}

/// Quota conservation: after any successful step of the upload engine, a
/// user who was within quota is still within quota.  Recording a chunk
/// and committing a direct upload are admitted only within quota;
/// opening an upload adds nothing; completing one moves its bytes
/// between the two sums; an abort only frees.
pub proof fn lemma_quota_conservation(pre: UploadStore, post: UploadStore, user: Seq<char>)
    requires
        wf(pre),
        spec_used_quota(pre, user) <= quota_of(pre.user_quotas@, user),
        upload_engine_step(pre, post),
    ensures
        spec_used_quota(post, user) <= quota_of(post.user_quotas@, user),
{
    if step_init(pre, post) {
        let r = choose|r: ChunkUpload|
            {
                &&& post.chunk_uploads@ == pre.chunk_uploads@.push(r)
                &&& r.received_bytes == 0
                &&& !r.completed
                &&& post.user_uploads@ == pre.user_uploads@
                &&& post.user_quotas@ == pre.user_quotas@
            };
        assert(post.chunk_uploads@.drop_last() =~= pre.chunk_uploads@);
        assert(sum_active_chunks(post.chunk_uploads@, user) == sum_active_chunks(
            pre.chunk_uploads@,
            user,
        ));
    } else if step_record(pre, post) {
        let (i, r) = choose|i: int, r: ChunkUpload| #![trigger pre.chunk_uploads@.update(i, r)]
            {
                &&& 0 <= i < pre.chunk_uploads@.len()
                &&& !pre.chunk_uploads@[i].completed
                &&& !r.completed
                &&& r.user_id@ == pre.chunk_uploads@[i].user_id@
                &&& r.received_bytes > pre.chunk_uploads@[i].received_bytes
                &&& spec_used_quota(pre, pre.chunk_uploads@[i].user_id@) + (r.received_bytes
                    - pre.chunk_uploads@[i].received_bytes) <= quota_of(
                    pre.user_quotas@,
                    pre.chunk_uploads@[i].user_id@,
                )
                &&& post.chunk_uploads@ == pre.chunk_uploads@.update(i, r)
                &&& post.user_uploads@ == pre.user_uploads@
                &&& post.user_quotas@ == pre.user_quotas@
            };
        lemma_sum_chunks_update(pre.chunk_uploads@, i, r, user);
        if pre.chunk_uploads@[i].user_id@ != user {
            assert(spec_used_quota(post, user) == spec_used_quota(pre, user));
        }
    } else if step_complete(pre, post) {
        let (i, r) = choose|i: int, r: UserUpload| #![trigger pre.user_uploads@.push(r), pre.chunk_uploads@[i]]
            {
                &&& 0 <= i < pre.chunk_uploads@.len()
                &&& !pre.chunk_uploads@[i].completed
                &&& post.chunk_uploads@ == pre.chunk_uploads@.update(
                    i,
                    ChunkUpload { completed: true, ..pre.chunk_uploads@[i] },
                )
                &&& post.user_uploads@ == pre.user_uploads@.push(r)
                &&& r.user_id@ == pre.chunk_uploads@[i].user_id@
                &&& r.file_size == pre.chunk_uploads@[i].received_bytes
                &&& post.user_quotas@ == pre.user_quotas@
            };
        lemma_sum_chunks_update(pre.chunk_uploads@, i, post.chunk_uploads@[i], user);
        assert(post.user_uploads@.drop_last() =~= pre.user_uploads@);
        assert(sum_completed(post.user_uploads@, user) == sum_completed(pre.user_uploads@, user)
            + (if r.user_id@ == user {
            r.file_size as int
        } else {
            0
        }));
        assert(spec_used_quota(post, user) == spec_used_quota(pre, user));
    } else if step_commit(pre, post) {
        let r = choose|r: UserUpload|
            {
                &&& post.user_uploads@ == pre.user_uploads@.push(r)
                &&& r.file_size >= 0
                &&& spec_used_quota(pre, r.user_id@) + r.file_size <= quota_of(
                    pre.user_quotas@,
                    r.user_id@,
                )
                &&& post.chunk_uploads@ == pre.chunk_uploads@
                &&& post.user_quotas@ == pre.user_quotas@
            };
        assert(post.user_uploads@.drop_last() =~= pre.user_uploads@);
        if r.user_id@ != user {
            assert(spec_used_quota(post, user) == spec_used_quota(pre, user));
        }
    } else {
        let (u0, o0) = choose|u0: Seq<char>, o0: Seq<char>|
            {
                &&& post.chunk_uploads@ == without_upload(pre.chunk_uploads@, u0, o0)
                &&& post.user_uploads@ == pre.user_uploads@
                &&& post.user_quotas@ == pre.user_quotas@
            };
        lemma_sum_active_without(pre.chunk_uploads@, u0, o0, user);
    }
}

/// Part completeness: in a well-formed store, a chunk upload's received
/// bytes equal the sum of its recorded part sizes.
pub proof fn lemma_part_completeness(
    store: UploadStore,
    user: Seq<char>,
    object: Seq<char>,
    i: int,
)
    requires
        wf(store),
        0 <= i < store.chunk_uploads@.len(),
        upload_key_matches(store.chunk_uploads@[i], user, object),
    ensures
        store.chunk_uploads@[i].received_bytes as int == sum_part_sizes(
            store.chunk_information@,
            user,
            object,
        ),
{
    assert(store.chunk_uploads@[i].user_id@ == user);
    assert(store.chunk_uploads@[i].object_name@ == object);
}

} // verus!
