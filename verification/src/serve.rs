//! The serving path: access control, the per-day egress ledger, and the
//! decision taken for each asset request.
//!
//! A resource may be served to anyone when it is public, and otherwise
//! only to its owner.  When data quotas are enabled, a request is
//! refused once today's egress total exceeds the configured daily
//! allowance; the total grows by each served object's length.

use vstd::prelude::*;

verus! {

use crate::api::UserInfo;
use crate::resources::ResourceRecord;
use crate::status::ResourceType;

/// The egress object-store prefix for one resource's artifacts.
pub fn get_object_path(object_name: &str) -> (r: String)
    ensures
        r@ == "resource/"@ + object_name@,
{
    let mut s = String::from_str("resource/");
    s.append(object_name);
    s
}

/// One day's egress ledger row: `day` counts whole days, `quota_used`
/// bytes served that day.
#[derive(Debug)]
pub struct TransferQuotaRecord {
    pub day: u64,
    pub quota_used: i64,
}

/// The egress ledger: at most one row per day.
#[derive(Debug)]
pub struct EgressLedger {
    pub rows: Vec<TransferQuotaRecord>,
}

/// Index of the first row of this day.
pub open spec fn find_day(rows: Seq<TransferQuotaRecord>, day: u64) -> Option<int>
    decreases rows.len(),
{
    if rows.len() == 0 {
        None
    } else if rows[0].day == day {
        Some(0)
    } else {
        match find_day(rows.drop_first(), day) {
            Some(i) => Some(i + 1),
            None => None,
        }
    }
}

proof fn lemma_find_day_at(rows: Seq<TransferQuotaRecord>, day: u64, i: int)
    requires
        0 <= i <= rows.len(),
        forall|j: int| 0 <= j < i ==> (#[trigger] rows[j]).day != day,
    ensures
        i == rows.len() ==> find_day(rows, day) is None,
        i < rows.len() && rows[i].day == day ==> find_day(rows, day) == Some(i),
    decreases i,
{
    if i > 0 {
        assert(forall|j: int|
            0 <= j < i - 1 ==> #[trigger] rows.drop_first()[j] == rows[j + 1]);
        lemma_find_day_at(rows.drop_first(), day, i - 1);
    }
}

proof fn lemma_find_day_some(rows: Seq<TransferQuotaRecord>, day: u64)
    requires
        find_day(rows, day) is Some,
    ensures
        ({
            let i = find_day(rows, day).unwrap();
            0 <= i < rows.len() && rows[i].day == day
        }),
    decreases rows.len(),
{
    if rows.len() > 0 && rows[0].day != day {
        lemma_find_day_some(rows.drop_first(), day);
        let i = find_day(rows, day).unwrap();
        assert(rows.drop_first()[i - 1] == rows[i]);
    }
}

/// Index of the first row of this day, by scan.
fn find_day_index(ledger: &EgressLedger, day: u64) -> (r: Option<usize>)
    ensures
        match r {
            Some(i) => find_day(ledger.rows@, day) == Some(i as int),
            None => find_day(ledger.rows@, day) is None,
        },
{
    let n = ledger.rows.len();
    let mut i: usize = 0;
    while i < n
        invariant
            0 <= i <= n,
            n == ledger.rows@.len(),
            forall|j: int| 0 <= j < i ==> (#[trigger] ledger.rows@[j]).day != day,
        decreases n - i,
    {
        if ledger.rows[i].day == day {
            proof {
                lemma_find_day_at(ledger.rows@, day, i as int);
            }
            return Some(i);
        }
        i = i + 1;
    }
    proof {
        lemma_find_day_at(ledger.rows@, day, n as int);
    }
    None
}

/// Today's running egress total, if a row exists for today.
pub open spec fn spec_used_daily_quota(rows: Seq<TransferQuotaRecord>, today: u64) -> Option<i64> {
    match find_day(rows, today) {
        Some(i) => Some(rows[i].quota_used),
        None => None,
    }
}

/// Read today's running egress total.
pub fn get_used_daily_quota(ledger: &EgressLedger, today: u64) -> (r: Option<i64>)
    ensures
        r == spec_used_daily_quota(ledger.rows@, today),
{
    match find_day_index(ledger, today) {
        Some(i) => {
            proof {
                lemma_find_day_some(ledger.rows@, today);
            }
            Some(ledger.rows[i].quota_used)
        },
        None => None,
    }
}

/// Add served bytes to today's ledger row, creating the row if today has
/// none yet.  A non-positive amount is rejected and changes nothing.
pub fn update_daily_quota(ledger: &mut EgressLedger, today: u64, amount_used: i64) -> (r: Result<
    (),
    String,
>)
    requires
        ({
            match spec_used_daily_quota(old(ledger).rows@, today) {
                Some(used) => used + amount_used <= i64::MAX,
                None => true,
            }
        }),
    ensures
        r is Err <==> amount_used <= 0,
        amount_used <= 0 ==> final(ledger).rows@ == old(ledger).rows@,
        amount_used > 0 ==> spec_used_daily_quota(final(ledger).rows@, today) == Some(
            ((match spec_used_daily_quota(old(ledger).rows@, today) {
                Some(used) => used + amount_used,
                None => amount_used as int,
            }) as i64),
        ),
        amount_used > 0 ==> final(ledger).rows@.len() <= old(ledger).rows@.len() + 1,
{
    if amount_used <= 0 {
        return Err(String::from_str("Amount used must be greater than zero"));
    }
    match find_day_index(ledger, today) {
        Some(i) => {
            proof {
                lemma_find_day_some(ledger.rows@, today);
            }
            let mut row = ledger.rows.remove(i);
            row.quota_used = row.quota_used + amount_used;
            ledger.rows.insert(i, row);
            proof {
                assert(ledger.rows@ =~= old(ledger).rows@.update(i as int, ledger.rows@[i as int]));
                lemma_find_day_update(old(ledger).rows@, i as int, ledger.rows@[i as int], today);
            }
        },
        None => {
            ledger.rows.push(TransferQuotaRecord { day: today, quota_used: amount_used });
            proof {
                lemma_find_day_push(
                    old(ledger).rows@,
                    today,
                    TransferQuotaRecord { day: today, quota_used: amount_used },
                );
            }
        },
    }
    Ok(())
}

proof fn lemma_find_day_update(rows: Seq<TransferQuotaRecord>, i: int, r: TransferQuotaRecord, day: u64)
    requires
        0 <= i < rows.len(),
        r.day == rows[i].day,
    ensures
        find_day(rows.update(i, r), day) == find_day(rows, day),
    decreases rows.len(),
{
    let updated = rows.update(i, r);
    if i == 0 {
        assert(updated[0] == r);
        assert(updated.drop_first() =~= rows.drop_first());
    } else {
        assert(updated[0] == rows[0]);
        assert(updated.drop_first() =~= rows.drop_first().update(i - 1, r));
        assert(rows.drop_first()[i - 1] == rows[i]);
        lemma_find_day_update(rows.drop_first(), i - 1, r, day);
    }
}

proof fn lemma_find_day_push(rows: Seq<TransferQuotaRecord>, day: u64, r: TransferQuotaRecord)
    requires
        find_day(rows, day) is None,
        r.day == day,
    ensures
        find_day(rows.push(r), day) == Some(rows.len() as int),
    decreases rows.len(),
{
    if rows.len() == 0 {
        assert(rows.push(r)[0] == r);
    } else {
        assert(rows.push(r)[0] == rows[0]);
        assert(rows.push(r).drop_first() =~= rows.drop_first().push(r));
        lemma_find_day_push(rows.drop_first(), day, r);
    }
}

/// Whether today's egress total already exceeds the daily allowance.
/// Quotas that are disabled never refuse anything.
pub open spec fn spec_transfer_quota_exceeded(
    enabled: bool,
    daily_quota_mb: i64,
    used_today: int,
) -> bool {
    enabled && used_today > daily_quota_mb * 1048576
}

/// Decide whether the daily egress allowance is spent.
pub fn transfer_quota_exceeded(enabled: bool, daily_quota_mb: i64, used_today: i64) -> (r: bool)
    requires
        0 <= daily_quota_mb <= 0x7fff_ffffi64,
    ensures
        r == spec_transfer_quota_exceeded(enabled, daily_quota_mb, used_today as int),
{
    if enabled {
        used_today > daily_quota_mb * 1048576
    } else {
        false
    }
}

/// Account served bytes against today's ledger, refusing once the
/// allowance is already spent.
pub fn update_quota_used(
    ledger: &mut EgressLedger,
    today: u64,
    amount: i64,
    enabled: bool,
    daily_quota_mb: i64,
) -> (r: Result<(), String>)
    requires
        0 <= daily_quota_mb <= 0x7fff_ffffi64,
        ({
            match spec_used_daily_quota(old(ledger).rows@, today) {
                Some(used) => used + amount <= i64::MAX,
                None => true,
            }
        }),
    ensures
        ({
            let used = match spec_used_daily_quota(old(ledger).rows@, today) {
                Some(u) => u as int,
                None => 0int,
            };
            &&& spec_transfer_quota_exceeded(enabled, daily_quota_mb, used) ==> r is Err
                && final(ledger).rows@ == old(ledger).rows@
            &&& !spec_transfer_quota_exceeded(enabled, daily_quota_mb, used) && amount <= 0 ==> r
                is Err && final(ledger).rows@ == old(ledger).rows@
            &&& !spec_transfer_quota_exceeded(enabled, daily_quota_mb, used) && amount > 0 ==> r
                is Ok && spec_used_daily_quota(final(ledger).rows@, today) == Some(
                ((match spec_used_daily_quota(old(ledger).rows@, today) {
                    Some(u) => u + amount,
                    None => amount as int,
                }) as i64),
            )
        }),
{
    let used = match get_used_daily_quota(ledger, today) {
        Some(u) => u,
        None => 0,
    };
    if transfer_quota_exceeded(enabled, daily_quota_mb, used) {
        return Err(String::from_str("Transfer quota exceeded"));
    }
    update_daily_quota(ledger, today, amount)
}

/// Serving authorization over spec-level records: public resources are
/// open to anyone; private ones only to their owner.
pub open spec fn spec_has_access_v(caller: Option<UserInfo>, resource: crate::resources::ResourceRecordV) -> bool {
    resource.is_public || (match caller {
        Some(u) => u.user_id@ == resource.user_id,
        None => false,
    })
}

/// Serving authorization: public resources are open to anyone; private
/// ones only to their owner.
pub open spec fn spec_has_access(caller: Option<UserInfo>, resource: ResourceRecord) -> bool {
    spec_has_access_v(caller, resource@)
}

/// Whether the caller may see this resource.
pub fn has_access_to_resource(user_info: &Option<UserInfo>, resource: &ResourceRecord) -> (r: bool)
    ensures
        r == spec_has_access(*user_info, *resource),
{
    if resource.is_public {
        return true;
    }
    match user_info {
        Some(u) => crate::text::str_eq(u.user_id.as_str(), resource.user_id.as_str()),
        None => false,
    }
}

/// What the serving path decides for one asset request.
#[derive(Debug)]
pub enum ServeDecision {
    NotFound,
    PaymentRequired,
    Fetch { object_key: String },
}

/// Decide one asset request: the resource must exist (active), be of the
/// requested type, and be visible to the caller; then the egress
/// allowance must not already be spent; then the object is fetched under
/// `resource/{id}/{file}`.
///
/// A `Fetch` decision implies the resource is public or the caller owns
/// it: that is the authorized-serve rule.
pub fn send_resource_decision(
    resource: Option<&ResourceRecord>,
    user_info: &Option<UserInfo>,
    resource_type: ResourceType,
    file_in_directory: &str,
    quotas_enabled: bool,
    daily_quota_mb: i64,
    used_today: i64,
) -> (r: ServeDecision)
    requires
        0 <= daily_quota_mb <= 0x7fff_ffffi64,
    ensures
        ({
            let ok = match resource {
                Some(res) => res.resource_type == resource_type && spec_has_access(
                    *user_info,
                    *res,
                ),
                None => false,
            };
            &&& !ok ==> r is NotFound
            &&& ok && spec_transfer_quota_exceeded(quotas_enabled, daily_quota_mb, used_today as int)
                ==> r is PaymentRequired
            &&& ok && !spec_transfer_quota_exceeded(
                quotas_enabled,
                daily_quota_mb,
                used_today as int,
            ) ==> (r matches ServeDecision::Fetch { object_key } && object_key@ == "resource/"@
                + resource.unwrap().id@ + "/"@ + file_in_directory@)
            &&& (r matches ServeDecision::Fetch { object_key } ==> (resource matches Some(res)
                && (res.is_public || (user_info matches Some(u) && u.user_id@ == res.user_id@))))
        }),
{
    match resource {
        Some(res) => {
            let type_matches = match (res.resource_type, resource_type) {
                (ResourceType::Unknown, ResourceType::Unknown) => true,
                (ResourceType::Video, ResourceType::Video) => true,
                (ResourceType::Audio, ResourceType::Audio) => true,
                (ResourceType::Image, ResourceType::Image) => true,
                (ResourceType::Other, ResourceType::Other) => true,
                _ => false,
            };
            if !type_matches {
                return ServeDecision::NotFound;
            }
            if !has_access_to_resource(user_info, res) {
                return ServeDecision::NotFound;
            }
            if transfer_quota_exceeded(quotas_enabled, daily_quota_mb, used_today) {
                return ServeDecision::PaymentRequired;
            }
            let mut key = String::from_str("resource/");
            key.append(res.id.as_str());
            key.append("/");
            key.append(file_in_directory);
            proof {
                assert(key@ =~= "resource/"@ + res.id@ + "/"@ + file_in_directory@);
            }
            ServeDecision::Fetch { object_key: key }
        },
        None => ServeDecision::NotFound,
    }
}

} // verus!
