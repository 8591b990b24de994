//! Creating and listing campaigns: what a request must hold to be
//! accepted, and the shape a campaign is answered with.
//!
//! A campaign always names a registered target, only invariants that target
//! offers, and a time budget between one second and the sandbox's limit;
//! nothing else reaches the store.

use vstd::prelude::*;

use crate::api::error::ApiError;
use crate::api::runs::is_not_found;
use crate::api::util::is_bad_request;
use crate::ids::{id_text, uuid_text};
use crate::instant::{instant_of, nanos_since_epoch, parse_rfc3339, rfc3339_instant};
use crate::store::{CampaignFilter, CampaignRecord, CampaignStatus, NewCampaign};
use crate::targets::{blank, is_blank, Target, TargetRegistry};
use crate::text::{push_signed_decimal, push_str, same_text, signed_decimal};

verus! {

/// HTTP 201, the status of a created campaign.
pub const CREATED: u16 = 201;

/// Page size of a listing that names none.
pub const DEFAULT_LIST_LIMIT: i64 = 50;

/// The largest page a listing returns.
pub const MAX_LIST_LIMIT: i64 = 200;

/// The body of a request to create a campaign.
#[derive(Debug, Clone)]
pub struct CreateCampaignRequest {
    pub target_id: String,
    pub name: String,
    pub invariant_ids: Vec<String>,
    pub time_budget_secs: i64,
}

/// The query of a request to list campaigns: all optional.
#[derive(Debug, Clone, Default)]
pub struct ListCampaignsQuery {
    pub status: Option<String>,
    pub target_id: Option<String>,
    pub since: Option<String>,
    pub until: Option<String>,
    pub limit: Option<i64>,
    pub offset: Option<i64>,
}

/// A campaign as the API answers with it.
#[derive(Debug, Clone)]
pub struct CampaignDto {
    pub id: String,
    pub target_id: String,
    pub name: String,
    pub invariant_ids: Vec<String>,
    pub time_budget_secs: i32,
    pub status: CampaignStatus,
    pub run_id: String,
    /// Nanoseconds since the Unix epoch.
    pub created_at: i128,
}

/// Whether the target offers an invariant with this id.
pub open spec fn offers(t: Target, id: Seq<char>) -> bool {
    exists|j: int|
        0 <= j < t.available_invariants@.len() && #[trigger] t.available_invariants@[j].id@ == id
}

/// The position of the first of `ids`, from `k` on, that the target does
/// not offer.
pub open spec fn first_unknown(t: Target, ids: Seq<String>, k: int) -> Option<int>
    decreases ids.len() - k,
{
    if k < 0 || k >= ids.len() {
        None
    } else if !offers(t, ids[k]@) {
        Some(k)
    } else {
        first_unknown(t, ids, k + 1)
    }
}

/// Whether a registered target has this id.
pub open spec fn registered(ts: Seq<Target>, id: Seq<char>) -> bool {
    exists|i: int| 0 <= i < ts.len() && #[trigger] ts[i].id@ == id
}

/// The registered target with this id (ids are unique in a registry).
pub open spec fn target_named(ts: Seq<Target>, id: Seq<char>) -> Target {
    ts[choose|i: int| 0 <= i < ts.len() && #[trigger] ts[i].id@ == id]
}

/// Why a request to create a campaign is refused, as its error code and
/// message, or `None` if it is accepted. The checks run in this order and
/// the first that fails decides.
pub open spec fn create_refusal(ts: Seq<Target>, body: CreateCampaignRequest, max_secs: i64) -> Option<
    (Seq<char>, Seq<char>),
> {
    if !registered(ts, body.target_id@) {
        Some(("unknown_target"@, "no target with id `"@ + body.target_id@ + "`"@))
    } else if is_blank(body.name@) {
        Some(("invalid_name"@, "name must not be empty"@))
    } else if let Some(k) = first_unknown(target_named(ts, body.target_id@), body.invariant_ids@, 0) {
        Some(
            (
                "unknown_invariant"@,
                "target `"@ + body.target_id@ + "` has no invariant `"@ + body.invariant_ids@[k]@
                    + "`"@,
            ),
        )
    } else if body.time_budget_secs < 1 || body.time_budget_secs > max_secs {
        Some(
            (
                "invalid_time_budget"@,
                "timeBudgetSecs must be between 1 and "@ + signed_decimal(max_secs as int)
                    + " (the configured JOB_TIMEOUT_SECONDS)"@,
            ),
        )
    } else {
        None
    }
}

/// A request naming a registered target, a name that is not blank and a
/// budget within limits is accepted exactly when each invariant id it names
/// is the id (not the name or anything else) of an invariant the target
/// makes available; otherwise it is refused as `unknown_invariant`, naming
/// the first id the target has no invariant with.
pub proof fn lemma_invariants_are_checked_by_id(
    ts: Seq<Target>,
    body: CreateCampaignRequest,
    max_secs: i64,
)
    requires
        registered(ts, body.target_id@),
        !is_blank(body.name@),
        1 <= body.time_budget_secs <= max_secs,
    ensures
        create_refusal(ts, body, max_secs) is None <==> forall|k: int|
            0 <= k < body.invariant_ids@.len() ==> exists|j: int|
                0 <= j < target_named(ts, body.target_id@).available_invariants@.len()
                    && (#[trigger] target_named(ts, body.target_id@).available_invariants@[j]).id@
                    == (#[trigger] body.invariant_ids@[k])@,
        create_refusal(ts, body, max_secs) matches Some((code, message)) ==> code
            == "unknown_invariant"@ && exists|k: int|
            0 <= k < body.invariant_ids@.len() && message == "target `"@ + body.target_id@
                + "` has no invariant `"@ + (#[trigger] body.invariant_ids@[k])@ + "`"@
                && (forall|j: int|
                0 <= j < target_named(ts, body.target_id@).available_invariants@.len() ==> (
                #[trigger] target_named(ts, body.target_id@).available_invariants@[j]).id@
                    != body.invariant_ids@[k]@) && forall|m: int|
                0 <= m < k ==> exists|j: int|
                    0 <= j < target_named(ts, body.target_id@).available_invariants@.len() && (
                    #[trigger] target_named(ts, body.target_id@).available_invariants@[j]).id@
                        == (#[trigger] body.invariant_ids@[m])@,
{
    let t = target_named(ts, body.target_id@);
    let ids = body.invariant_ids@;
    lemma_first_unknown(t, ids, 0);
}

/// Where the first id the target does not offer lies, and that every id
/// before it is offered.
proof fn lemma_first_unknown(t: Target, ids: Seq<String>, k: int)
    requires
        0 <= k,
    ensures
        match first_unknown(t, ids, k) {
            Some(u) => k <= u < ids.len() && !offers(t, ids[u]@) && forall|m: int|
                k <= m < u ==> offers(t, #[trigger] ids[m]@),
            None => forall|m: int| k <= m < ids.len() ==> offers(t, #[trigger] ids[m]@),
        },
    decreases ids.len() - k,
{
    if k < ids.len() && offers(t, ids[k]@) {
        lemma_first_unknown(t, ids, k + 1);
    }
}

/// Whether the target offers an invariant with this id.
fn target_offers(t: &Target, id: &str) -> (r: bool)
    ensures
        r == offers(*t, id@),
        r <==> exists|j: int|
            0 <= j < t.available_invariants@.len() && (#[trigger] t.available_invariants@[j]).id@
                == id@,
{
    let mut j: usize = 0;
    while j < t.available_invariants.len()
        invariant
            j <= t.available_invariants@.len(),
            forall|m: int| 0 <= m < j ==> t.available_invariants@[m].id@ != id@,
        decreases t.available_invariants.len() - j,
    {
        if same_text(t.available_invariants[j].id.as_str(), id) {
            assert(t.available_invariants@[j as int].id@ == id@);
            return true;
        }
        j = j + 1;
    }
    false
}

/// What a request to create a campaign stores, or why it is refused: an
/// unknown target, a blank name, an invariant the target does not offer
/// (the first such), or a budget outside 1 to `max_time_budget_secs`, in
/// that order, each answered with 400 (see `create_refusal`). An accepted
/// request stores its target, name, invariants and budget as given.
#[verifier::loop_isolation(false)]
pub fn validate_new_campaign(
    targets: &TargetRegistry,
    body: CreateCampaignRequest,
    max_time_budget_secs: i64,
) -> (r: Result<NewCampaign, ApiError>)
    ensures
        match create_refusal(targets@, body, max_time_budget_secs) {
            Some((code, message)) => r is Err && is_bad_request(r->Err_0, code, message),
            None => r is Ok && ({
                let n = r->Ok_0;
                &&& n.target_id == body.target_id
                &&& n.name == body.name
                &&& n.invariant_ids == body.invariant_ids
                &&& n.time_budget_secs == body.time_budget_secs as i32
            }),
        },
{
    let t = match targets.get(body.target_id.as_str()) {
        Some(t) => t,
        None => {
            let mut m = String::from_str("no target with id `");
            push_str(&mut m, body.target_id.as_str());
            push_str(&mut m, "`");
            return Err(ApiError::bad_request("unknown_target", m));
        },
    };
    proof {
        let i = choose|i: int|
            0 <= i < targets@.len() && #[trigger] targets@[i].id@ == body.target_id@;
        assert(targets@[i] == *t);
    }
    if blank(body.name.as_str()) {
        return Err(ApiError::bad_request("invalid_name", String::from_str("name must not be empty")));
    }
    let ids = &body.invariant_ids;
    let mut k: usize = 0;
    while k < ids.len()
        invariant
            k <= ids@.len(),
            first_unknown(*t, ids@, 0) == first_unknown(*t, ids@, k as int),
        decreases ids.len() - k,
    {
        if !target_offers(t, ids[k].as_str()) {
            assert(first_unknown(*t, ids@, k as int) == Some(k as int));
            let mut m = String::from_str("target `");
            push_str(&mut m, body.target_id.as_str());
            push_str(&mut m, "` has no invariant `");
            push_str(&mut m, ids[k].as_str());
            push_str(&mut m, "`");
            return Err(ApiError::bad_request("unknown_invariant", m));
        }
        k = k + 1;
    }
    if body.time_budget_secs < 1 || body.time_budget_secs > max_time_budget_secs {
        let mut m = String::from_str("timeBudgetSecs must be between 1 and ");
        push_signed_decimal(&mut m, max_time_budget_secs as i128);
        push_str(&mut m, " (the configured JOB_TIMEOUT_SECONDS)");
        return Err(ApiError::bad_request("invalid_time_budget", m));
    }
    Ok(
        NewCampaign {
            target_id: body.target_id,
            name: body.name,
            invariant_ids: body.invariant_ids,
            time_budget_secs: body.time_budget_secs as i32,
        },
    )
}

/// The status a listing filter names, by its lower-case name.
pub open spec fn status_named(s: Seq<char>) -> Option<CampaignStatus> {
    if s == "queued"@ {
        Some(CampaignStatus::Queued)
    } else if s == "running"@ {
        Some(CampaignStatus::Running)
    } else if s == "completed"@ {
        Some(CampaignStatus::Completed)
    } else if s == "cancelled"@ {
        Some(CampaignStatus::Cancelled)
    } else if s == "failed"@ {
        Some(CampaignStatus::Failed)
    } else {
        None
    }
}

/// The status a filter names; any other text is refused with 400
/// `invalid_status`, "`{raw}` is not a valid status".
pub fn parse_campaign_status(raw: &str) -> (r: Result<CampaignStatus, ApiError>)
    ensures
        match status_named(raw@) {
            Some(s) => r == Ok::<CampaignStatus, ApiError>(s),
            None => r is Err && is_bad_request(
                r->Err_0,
                "invalid_status"@,
                "`"@ + raw@ + "` is not a valid status"@,
            ),
        },
{
    if same_text(raw, "queued") {
        Ok(CampaignStatus::Queued)
    } else if same_text(raw, "running") {
        Ok(CampaignStatus::Running)
    } else if same_text(raw, "completed") {
        Ok(CampaignStatus::Completed)
    } else if same_text(raw, "cancelled") {
        Ok(CampaignStatus::Cancelled)
    } else if same_text(raw, "failed") {
        Ok(CampaignStatus::Failed)
    } else {
        let mut m = String::from_str("`");
        push_str(&mut m, raw);
        push_str(&mut m, "` is not a valid status");
        Err(ApiError::bad_request("invalid_status", m))
    }
}

/// The instant an RFC 3339 timestamp names, in nanoseconds since the
/// epoch; any other text is refused with 400 `invalid_date`, "`{raw}` is
/// not a valid ISO 8601 timestamp".
pub fn parse_datetime(raw: &str) -> (r: Result<i128, ApiError>)
    ensures
        match rfc3339_instant(raw@) {
            Some((secs, nanos)) => r is Ok && r->Ok_0 == instant_of(secs, nanos),
            None => r is Err && is_bad_request(
                r->Err_0,
                "invalid_date"@,
                "`"@ + raw@ + "` is not a valid ISO 8601 timestamp"@,
            ),
        },
{
    match parse_rfc3339(raw) {
        Some((secs, nanos)) => Ok(nanos_since_epoch(secs, nanos)),
        None => {
            let mut m = String::from_str("`");
            push_str(&mut m, raw);
            push_str(&mut m, "` is not a valid ISO 8601 timestamp");
            Err(ApiError::bad_request("invalid_date", m))
        },
    }
}

/// The page size a listing asks for: 50 if it names none, brought into
/// 1 to 200.
pub open spec fn page_limit(limit: Option<i64>) -> i64 {
    let v = match limit {
        Some(l) => l,
        None => DEFAULT_LIST_LIMIT,
    };
    if v < 1 {
        1
    } else if v > MAX_LIST_LIMIT {
        MAX_LIST_LIMIT
    } else {
        v
    }
}

/// How many campaigns a listing skips: none if it names none or a
/// negative number.
pub open spec fn page_offset(offset: Option<i64>) -> i64 {
    match offset {
        Some(o) => if o < 0 {
            0
        } else {
            o
        },
        None => 0,
    }
}

/// What a text filter comes to.
pub open spec fn parsed_status(s: Option<String>) -> Option<Option<CampaignStatus>> {
    match s {
        None => Some(None),
        Some(t) => match status_named(t@) {
            Some(st) => Some(Some(st)),
            None => None,
        },
    }
}

/// What an instant filter comes to.
pub open spec fn parsed_instant(s: Option<String>) -> Option<Option<int>> {
    match s {
        None => Some(None),
        Some(t) => match rfc3339_instant(t@) {
            Some((secs, nanos)) => Some(Some(instant_of(secs, nanos))),
            None => None,
        },
    }
}

/// Whether `o` holds exactly what `p` says.
pub open spec fn instant_matches(o: Option<i128>, p: Option<int>) -> bool {
    match (o, p) {
        (Some(a), Some(b)) => a == b,
        (None, None) => true,
        _ => false,
    }
}

/// The filter a listing query asks for. Its status, `since` and `until`
/// are read in that order and the first that cannot be read refuses the
/// query (as `parse_campaign_status` and `parse_datetime` do); the target
/// id is taken as given; the limit and offset as `page_limit` and
/// `page_offset` say.
pub fn campaign_filter(query: ListCampaignsQuery) -> (r: Result<CampaignFilter, ApiError>)
    ensures
        parsed_status(query.status) is None ==> r is Err && is_bad_request(
            r->Err_0,
            "invalid_status"@,
            "`"@ + query.status->0@ + "` is not a valid status"@,
        ),
        parsed_status(query.status) is Some && parsed_instant(query.since) is None ==> r is Err
            && is_bad_request(
            r->Err_0,
            "invalid_date"@,
            "`"@ + query.since->0@ + "` is not a valid ISO 8601 timestamp"@,
        ),
        parsed_status(query.status) is Some && parsed_instant(query.since) is Some
            && parsed_instant(query.until) is None ==> r is Err && is_bad_request(
            r->Err_0,
            "invalid_date"@,
            "`"@ + query.until->0@ + "` is not a valid ISO 8601 timestamp"@,
        ),
        parsed_status(query.status) is Some && parsed_instant(query.since) is Some
            && parsed_instant(query.until) is Some ==> r is Ok && ({
            let f = r->Ok_0;
            &&& Some(f.status) == parsed_status(query.status)
            &&& f.target_id == query.target_id
            &&& instant_matches(f.since, parsed_instant(query.since)->0)
            &&& instant_matches(f.until, parsed_instant(query.until)->0)
            &&& f.limit == page_limit(query.limit)
            &&& f.offset == page_offset(query.offset)
        }),
{
    let status = match &query.status {
        Some(s) => match parse_campaign_status(s.as_str()) {
            Ok(st) => Some(st),
            Err(e) => return Err(e),
        },
        None => None,
    };
    let since = match &query.since {
        Some(s) => match parse_datetime(s.as_str()) {
            Ok(t) => Some(t),
            Err(e) => return Err(e),
        },
        None => None,
    };
    let until = match &query.until {
        Some(s) => match parse_datetime(s.as_str()) {
            Ok(t) => Some(t),
            Err(e) => return Err(e),
        },
        None => None,
    };
    let requested: i64 = match query.limit {
        Some(l) => l,
        None => DEFAULT_LIST_LIMIT,
    };
    let limit: i64 = if requested < 1 {
        1
    } else if requested > MAX_LIST_LIMIT {
        MAX_LIST_LIMIT
    } else {
        requested
    };
    let offset: i64 = match query.offset {
        Some(o) => if o < 0 {
            0
        } else {
            o
        },
        None => 0,
    };
    Ok(CampaignFilter { status, target_id: query.target_id, since, until, limit, offset })
}

impl CampaignDto {
    /// The wire shape of a stored campaign: ids as their hyphenated text,
    /// everything else as stored.
    pub fn from_record(r: &CampaignRecord) -> (d: Self)
        ensures
            d.id@ == uuid_text(r.id),
            d.target_id == r.target_id,
            d.name == r.name,
            d.invariant_ids@ == r.invariant_ids@,
            d.time_budget_secs == r.time_budget_secs,
            d.status == r.status,
            d.run_id@ == uuid_text(r.run_id),
            d.created_at == r.created_at,
    {
        CampaignDto {
            id: id_text(r.id),
            target_id: r.target_id.clone(),
            name: r.name.clone(),
            invariant_ids: r.invariant_ids.clone(),
            time_budget_secs: r.time_budget_secs,
            status: r.status,
            run_id: id_text(r.run_id),
            created_at: r.created_at,
        }
    }
}

impl CampaignDto {
    pub open spec fn shows(self, r: CampaignRecord) -> bool {
        &&& self.id@ == uuid_text(r.id)
        &&& self.target_id == r.target_id
        &&& self.name == r.name
        &&& self.invariant_ids@ == r.invariant_ids@
        &&& self.time_budget_secs == r.time_budget_secs
        &&& self.status == r.status
        &&& self.run_id@ == uuid_text(r.run_id)
        &&& self.created_at == r.created_at
    }
}

/// The answer to a campaign just created: 201 and the campaign.
pub fn campaign_created(record: &CampaignRecord) -> (r: (u16, CampaignDto))
    ensures
        r.0 == CREATED,
        r.1.shows(*record),
{
    (CREATED, CampaignDto::from_record(record))
}

/// The answer to a listing, given the campaigns the store returned: each
/// one's wire shape, in the store's order.
pub fn list_campaigns(records: &Vec<CampaignRecord>) -> (r: Vec<CampaignDto>)
    ensures
        r@.len() == records@.len(),
        forall|i: int| 0 <= i < records@.len() ==> #[trigger] r@[i].shows(records@[i]),
{
    let mut out: Vec<CampaignDto> = Vec::new();
    let mut i: usize = 0;
    while i < records.len()
        invariant
            i <= records@.len(),
            out@.len() == i,
            forall|k: int| 0 <= k < i ==> #[trigger] out@[k].shows(records@[k]),
        decreases records.len() - i,
    {
        out.push(CampaignDto::from_record(&records[i]));
        i = i + 1;
    }
    out
}

/// The answer to a request naming campaign `id` (to read it, or to cancel
/// it), given what the store came back with: the campaign, or 404
/// `campaign_not_found`, "no campaign with id {id}".
pub fn get_campaign(id: u128, found: Option<CampaignRecord>) -> (r: Result<CampaignDto, ApiError>)
    ensures
        match found {
            Some(c) => r is Ok && r->Ok_0.shows(c),
            None => r is Err && is_not_found(
                r->Err_0,
                "campaign_not_found"@,
                "no campaign with id "@ + uuid_text(id),
            ),
        },
{
    match found {
        Some(c) => Ok(CampaignDto::from_record(&c)),
        None => {
            let mut m = String::from_str("no campaign with id ");
            let t = id_text(id);
            push_str(&mut m, t.as_str());
            Err(ApiError::not_found("campaign_not_found", m))
        },
    }
}

/// The answer to a request to cancel campaign `id`; the same as reading it,
/// given what the store's cancellation came back with.
pub fn cancel_campaign(id: u128, found: Option<CampaignRecord>) -> (r: Result<CampaignDto, ApiError>)
    ensures
        match found {
            Some(c) => r is Ok && r->Ok_0.shows(c),
            None => r is Err && is_not_found(
                r->Err_0,
                "campaign_not_found"@,
                "no campaign with id "@ + uuid_text(id),
            ),
        },
{
    get_campaign(id, found)
}

} // verus!
