//! The quotas and the data that the views show.
//!
//! Percentages are held in a type `P` of the caller's choosing: the library carries
//! them from the response to the views and never computes with them.
use crate::calendar::{
    calc_days_at, clock_reading, has_next_month_start, lemma_days_within_month,
    lemma_month_contains_unique, lemma_month_span, lemma_month_start_monotone, month_contains,
    month_length, month_start, month_with_successor, next_month, next_month_start,
    utc_year_month, whole_days_until, MAX_YEAR, NANOS_PER_SECOND,
};
use vstd::prelude::*;

verus! {

/// One quota of the Copilot API response.
#[derive(Debug, Clone, Copy, PartialEq)]
pub struct QuotaEntry<P> {
    pub entitlement: u64,
    pub remaining: u64,
    pub unlimited: bool,
    pub percent_remaining: P,
}

/// The quota snapshots of the Copilot API response.
#[derive(Debug, Clone, Copy, PartialEq)]
pub struct QuotaSnapshots<P> {
    pub chat: QuotaEntry<P>,
    pub completions: QuotaEntry<P>,
    pub premium_interactions: QuotaEntry<P>,
}

/// The Copilot API response, with the reset date as a Unix timestamp and the nanoseconds
/// past that second.
#[derive(Debug, Clone, Copy, PartialEq)]
pub struct CopilotUserResponse<P> {
    pub quota_snapshots: QuotaSnapshots<P>,
    pub quota_reset_date_utc: i64,
    pub quota_reset_date_nanos: u32,
}

/// A quota under the label that the views show.
#[derive(Debug, Clone, PartialEq)]
pub struct QuotaInfo<P> {
    pub label: String,
    pub entitlement: u64,
    pub remaining: u64,
    pub unlimited: bool,
    pub percent_remaining: P,
}

/// Everything the views show: the quotas, the days left until the reset and in the
/// current month, and the reset date as a Unix timestamp.
#[derive(Debug, Clone, PartialEq)]
pub struct DisplayData<P> {
    pub quotas: Vec<QuotaInfo<P>>,
    pub days_remaining: i64,
    pub days_total: i64,
    pub reset_date: i64,
}

/// Label of the chat quota.
pub open spec fn chat_label() -> Seq<char> {
    "Chat"@
}

/// Label of the code-completion quota.
pub open spec fn completions_label() -> Seq<char> {
    "Code Completions"@
}

/// Label of the premium-request quota.
pub open spec fn premium_label() -> Seq<char> {
    "Premium"@
}

/// `q` shows `entry` under `label`.
pub open spec fn shows_entry<P>(q: QuotaInfo<P>, label: Seq<char>, entry: QuotaEntry<P>) -> bool {
    &&& q.label@ == label
    &&& q.entitlement == entry.entitlement
    &&& q.remaining == entry.remaining
    &&& q.unlimited == entry.unlimited
    &&& q.percent_remaining == entry.percent_remaining
}

/// `q` is an unlimited quota under `label`, with no counts.
pub open spec fn is_unlimited_quota<P>(q: QuotaInfo<P>, label: Seq<char>, full_percent: P) -> bool {
    &&& q.label@ == label
    &&& q.entitlement == 0
    &&& q.remaining == 0
    &&& q.unlimited
    &&& q.percent_remaining == full_percent
}

/// The day counts of `data` are those seen from the instant `now_secs` + `now_nanos`,
/// for a reset `reset_nanos` nanoseconds past the second `data.reset_date`.
pub open spec fn days_seen_from<P>(data: DisplayData<P>, reset_nanos: int, now_secs: int, now_nanos: int) -> bool {
    &&& data.days_remaining == whole_days_until(data.reset_date as int, reset_nanos, now_secs, now_nanos)
    &&& forall|y: int, m: int|
        1 <= m <= 12 && #[trigger] month_contains(y, m, now_secs) ==> data.days_total
            == month_length(y, m)
    &&& 0 <= data.days_remaining
    &&& 28 <= data.days_total <= 31
}

/// `data` shows `response`: chat, code completions and premium requests, in that order,
/// and the response's reset date.
pub open spec fn shows_response<P>(data: DisplayData<P>, response: CopilotUserResponse<P>) -> bool {
    &&& data.quotas.len() == 3
    &&& shows_entry(data.quotas[0], chat_label(), response.quota_snapshots.chat)
    &&& shows_entry(data.quotas[1], completions_label(), response.quota_snapshots.completions)
    &&& shows_entry(data.quotas[2], premium_label(), response.quota_snapshots.premium_interactions)
    &&& data.reset_date == response.quota_reset_date_utc
}

/// `data` shows a premium percentage entered by hand: chat and code completions unlimited
/// with `full_percent`, then premium requests with the given entitlement, remaining count
/// and percentage.
pub open spec fn shows_manual<P>(data: DisplayData<P>, percent_remaining: P, entitlement: u64, remaining: u64, full_percent: P) -> bool {
    &&& data.quotas.len() == 3
    &&& is_unlimited_quota(data.quotas[0], chat_label(), full_percent)
    &&& is_unlimited_quota(data.quotas[1], completions_label(), full_percent)
    &&& data.quotas[2].label@ == premium_label()
    &&& data.quotas[2].entitlement == entitlement
    &&& data.quotas[2].remaining == remaining
    &&& !data.quotas[2].unlimited
    &&& data.quotas[2].percent_remaining == percent_remaining
}

/// The reset of `data` is midnight UTC on the first of the month after the one that holds
/// the instant `now_secs`, and no more days remain than the month has.
pub open spec fn resets_next_month<P>(data: DisplayData<P>, now_secs: int) -> bool {
    &&& forall|y: int, m: int|
        1 <= m <= 12 && #[trigger] month_contains(y, m, now_secs) ==> data.reset_date
            == month_start(next_month(y, m).0, next_month(y, m).1)
    &&& data.days_remaining <= data.days_total
}

/// Shows `entry` under `label`.
pub fn quota_from_entry<P: Copy>(label: &str, entry: &QuotaEntry<P>) -> (res: QuotaInfo<P>)
    ensures
        shows_entry(res, label@, *entry),
{
    QuotaInfo {
        label: label.to_owned(),
        entitlement: entry.entitlement,
        remaining: entry.remaining,
        unlimited: entry.unlimited,
        percent_remaining: entry.percent_remaining,
    }
}

/// The data shown for an API response, seen from the instant `now_secs` + `now_nanos`.
pub fn display_data_from_response_at<P: Copy>(
    response: &CopilotUserResponse<P>,
    now_secs: i64,
    now_nanos: u32,
) -> (res: DisplayData<P>)
    requires
        has_next_month_start(now_secs as int),
    ensures
        shows_response(res, *response),
        days_seen_from(res, response.quota_reset_date_nanos as int, now_secs as int, now_nanos as int),
        res.quotas.len() == 3,
        res.quotas[0].label@ == "Chat"@,
        res.quotas[0].entitlement == response.quota_snapshots.chat.entitlement,
        res.quotas[0].remaining == response.quota_snapshots.chat.remaining,
        res.quotas[0].unlimited == response.quota_snapshots.chat.unlimited,
        res.quotas[0].percent_remaining == response.quota_snapshots.chat.percent_remaining,
        res.quotas[1].label@ == "Code Completions"@,
        res.quotas[1].entitlement == response.quota_snapshots.completions.entitlement,
        res.quotas[1].remaining == response.quota_snapshots.completions.remaining,
        res.quotas[1].unlimited == response.quota_snapshots.completions.unlimited,
        res.quotas[1].percent_remaining == response.quota_snapshots.completions.percent_remaining,
        res.quotas[2].label@ == "Premium"@,
        res.quotas[2].entitlement == response.quota_snapshots.premium_interactions.entitlement,
        res.quotas[2].remaining == response.quota_snapshots.premium_interactions.remaining,
        res.quotas[2].unlimited == response.quota_snapshots.premium_interactions.unlimited,
        res.quotas[2].percent_remaining == response.quota_snapshots.premium_interactions.percent_remaining,
        res.reset_date == response.quota_reset_date_utc,
{
    let s = &response.quota_snapshots;
    let (days_remaining, days_total) = calc_days_at(
        response.quota_reset_date_utc,
        response.quota_reset_date_nanos,
        now_secs,
        now_nanos,
    );
    let mut quotas: Vec<QuotaInfo<P>> = Vec::new();
    quotas.push(quota_from_entry("Chat", &s.chat));
    quotas.push(quota_from_entry("Code Completions", &s.completions));
    quotas.push(quota_from_entry("Premium", &s.premium_interactions));
    DisplayData {
        quotas,
        days_remaining,
        days_total,
        reset_date: response.quota_reset_date_utc,
    }
}

/// As `display_data_from_response_at`, for any instant: `None` exactly when the instant
/// does not lie in a month whose following month chrono represents.
pub fn display_data_from_response_for<P: Copy>(
    response: &CopilotUserResponse<P>,
    now_secs: i64,
    now_nanos: u32,
) -> (res: Option<DisplayData<P>>)
    ensures
        res is Some <==> has_next_month_start(now_secs as int),
        res matches Some(d) ==> shows_response(d, *response),
        res matches Some(d) ==> days_seen_from(d, response.quota_reset_date_nanos as int, now_secs as int, now_nanos as int),
{
    match month_with_successor(now_secs) {
        Some(_) => Some(display_data_from_response_at(response, now_secs, now_nanos)),
        None => None,
    }
}

/// The data shown for an API response, seen from the current instant of the system clock.
/// `None` when the clock reads before 1970 or a month whose following month chrono cannot
/// represent: no argument decides success, only that reading of the clock; what is done
/// with a reading is `display_data_from_response_for`.
pub fn display_data_from_response<P: Copy>(response: &CopilotUserResponse<P>) -> (res: Option<DisplayData<P>>)
    ensures
        res matches Some(d) ==> shows_response(d, *response),
        res matches Some(d) ==> exists|secs: int, nanos: int| has_next_month_start(secs) && 0 <= nanos < NANOS_PER_SECOND && #[trigger] days_seen_from(d, response.quota_reset_date_nanos as int, secs, nanos),
{
    match clock_reading() {
        Some((now_secs, now_nanos)) => {
            let res = display_data_from_response_for(response, now_secs, now_nanos);
            if let Some(d) = &res {
                assert(days_seen_from(*d, response.quota_reset_date_nanos as int, now_secs as int, now_nanos as int));
            }
            res
        },
        None => None,
    }
}

/// The data shown for a response holds, in this order, the chat quota under "Chat", the
/// code-completion quota under "Code Completions" and the premium-request quota under
/// "Premium", each with the counts, flag and percentage of its own snapshot, and the
/// response's reset date.
pub proof fn lemma_each_snapshot_under_its_label<P>(data: DisplayData<P>, response: CopilotUserResponse<P>)
    requires
        shows_response(data, response),
    ensures
        data.quotas.len() == 3,
        data.quotas[0].label@ == "Chat"@,
        data.quotas[0].entitlement == response.quota_snapshots.chat.entitlement,
        data.quotas[0].remaining == response.quota_snapshots.chat.remaining,
        data.quotas[0].unlimited == response.quota_snapshots.chat.unlimited,
        data.quotas[0].percent_remaining == response.quota_snapshots.chat.percent_remaining,
        data.quotas[1].label@ == "Code Completions"@,
        data.quotas[1].entitlement == response.quota_snapshots.completions.entitlement,
        data.quotas[1].remaining == response.quota_snapshots.completions.remaining,
        data.quotas[1].unlimited == response.quota_snapshots.completions.unlimited,
        data.quotas[1].percent_remaining == response.quota_snapshots.completions.percent_remaining,
        data.quotas[2].label@ == "Premium"@,
        data.quotas[2].entitlement == response.quota_snapshots.premium_interactions.entitlement,
        data.quotas[2].remaining == response.quota_snapshots.premium_interactions.remaining,
        data.quotas[2].unlimited == response.quota_snapshots.premium_interactions.unlimited,
        data.quotas[2].percent_remaining == response.quota_snapshots.premium_interactions.percent_remaining,
        data.reset_date == response.quota_reset_date_utc,
{
}

/// The data shown when the premium-request percentage was entered by hand, seen from the
/// instant `now_secs` + `now_nanos`, with the reset at midnight UTC on the first of the next
/// month. `full_percent` is the percentage given to the unlimited quotas.
pub fn build_data_from_percent_at<P: Copy>(
    percent_remaining: P,
    entitlement: u64,
    remaining: u64,
    full_percent: P,
    now_secs: i64,
    now_nanos: u32,
) -> (res: DisplayData<P>)
    requires
        has_next_month_start(now_secs as int),
    ensures
        shows_manual(res, percent_remaining, entitlement, remaining, full_percent),
        resets_next_month(res, now_secs as int),
        days_seen_from(res, 0, now_secs as int, now_nanos as int),
{
    proof {
        lemma_month_start_monotone(MAX_YEAR as int, 12, MAX_YEAR + 1, 1);
    }
    let (year, month) = utc_year_month(now_secs).unwrap();
    let reset = next_month_start(year, month);
    let (days_remaining, days_total) = calc_days_at(reset, 0, now_secs, now_nanos);
    proof {
        assert forall|y: int, m: int| 1 <= m <= 12 && #[trigger] month_contains(y, m, now_secs as int) implies reset == month_start(next_month(y, m).0, next_month(y, m).1) by {
            lemma_month_contains_unique(y, m, year as int, month as int, now_secs as int);
        }
        lemma_month_span(year as int, month as int);
        lemma_days_within_month(reset as int, now_secs as int, now_nanos as int, month_length(year as int, month as int));
    }
    let mut quotas: Vec<QuotaInfo<P>> = Vec::new();
    quotas.push(QuotaInfo {
        label: "Chat".to_owned(),
        entitlement: 0,
        remaining: 0,
        unlimited: true,
        percent_remaining: full_percent,
    });
    quotas.push(QuotaInfo {
        label: "Code Completions".to_owned(),
        entitlement: 0,
        remaining: 0,
        unlimited: true,
        percent_remaining: full_percent,
    });
    quotas.push(QuotaInfo {
        label: "Premium".to_owned(),
        entitlement,
        remaining,
        unlimited: false,
        percent_remaining,
    });
    DisplayData { quotas, days_remaining, days_total, reset_date: reset }
}

/// As `build_data_from_percent_at`, for any instant: `None` exactly when the instant does
/// not lie in a month whose following month chrono represents.
pub fn build_data_from_percent_for<P: Copy>(
    percent_remaining: P,
    entitlement: u64,
    remaining: u64,
    full_percent: P,
    now_secs: i64,
    now_nanos: u32,
) -> (res: Option<DisplayData<P>>)
    ensures
        res is Some <==> has_next_month_start(now_secs as int),
        res matches Some(d) ==> shows_manual(d, percent_remaining, entitlement, remaining, full_percent),
        res matches Some(d) ==> resets_next_month(d, now_secs as int),
        res matches Some(d) ==> days_seen_from(d, 0, now_secs as int, now_nanos as int),
{
    match month_with_successor(now_secs) {
        Some(_) => Some(build_data_from_percent_at(percent_remaining, entitlement, remaining, full_percent, now_secs, now_nanos)),
        None => None,
    }
}

/// The data shown when the premium-request percentage was entered by hand, seen from the
/// current instant of the system clock. `None` when the clock reads before 1970 or a month
/// whose following month chrono cannot represent: no argument decides success, only that
/// reading of the clock; what is done with a reading is `build_data_from_percent_for`.
pub fn build_data_from_percent<P: Copy>(
    percent_remaining: P,
    entitlement: u64,
    remaining: u64,
    full_percent: P,
) -> (res: Option<DisplayData<P>>)
    ensures
        res matches Some(d) ==> shows_manual(d, percent_remaining, entitlement, remaining, full_percent),
        res matches Some(d) ==> exists|secs: int, nanos: int| has_next_month_start(secs) && 0 <= nanos < NANOS_PER_SECOND && #[trigger] days_seen_from(d, 0, secs, nanos) && resets_next_month(d, secs),
{
    match clock_reading() {
        Some((now_secs, now_nanos)) => {
            let res = build_data_from_percent_for(percent_remaining, entitlement, remaining, full_percent, now_secs, now_nanos);
            if let Some(d) = &res {
                assert(days_seen_from(*d, 0, now_secs as int, now_nanos as int));
            }
            res
        },
        None => None,
    }
}

/// The first quota labelled `label` stands at index `i`.
pub open spec fn is_first_labelled<P>(quotas: Seq<QuotaInfo<P>>, label: Seq<char>, i: int) -> bool {
    &&& 0 <= i < quotas.len()
    &&& quotas[i].label@ == label
    &&& forall|j: int| 0 <= j < i ==> quotas[j].label@ != label
}

/// What the daily budget of premium requests is worked out from: the premium requests
/// remaining and the days until the reset.
#[derive(Debug, Clone, Copy, PartialEq, Eq)]
pub struct DailyBudget {
    pub remaining: u64,
    pub days_remaining: i64,
}

/// The daily budget of premium requests, from the first quota labelled "Premium". `None`
/// when there is no such quota, when it is unlimited, or when no day remains.
pub fn daily_budget<P>(data: &DisplayData<P>) -> (res: Option<DailyBudget>)
    ensures
        (forall|i: int| 0 <= i < data.quotas.len() ==> data.quotas[i].label@ != premium_label()) ==> res is None,
        forall|i: int| #[trigger] is_first_labelled(data.quotas@, premium_label(), i) ==> res == (if data.quotas[i].unlimited || data.days_remaining <= 0 { None::<DailyBudget> } else { Some(DailyBudget { remaining: data.quotas[i].remaining, days_remaining: data.days_remaining }) }),
{
    let premium = "Premium".to_owned();
    let mut i: usize = 0;
    while i < data.quotas.len()
        invariant
            0 <= i <= data.quotas.len(),
            premium@ == premium_label(),
            forall|j: int| 0 <= j < i ==> data.quotas[j].label@ != premium_label(),
        decreases data.quotas.len() - i,
    {
        if data.quotas[i].label == premium {
            let q = &data.quotas[i];
            proof {
                assert forall|k: int| #[trigger] is_first_labelled(data.quotas@, premium_label(), k) implies k == i by {
                    if k < i {
                    } else if k > i {
                        assert(data.quotas[i as int].label@ == premium_label());
                    }
                }
            }
            if q.unlimited || data.days_remaining <= 0 {
                return None;
            }
            return Some(DailyBudget { remaining: q.remaining, days_remaining: data.days_remaining });
        }
        i += 1;
    }
    None
}

/// Positions, in order, of the quotas that are not unlimited.
pub fn metered_indices<P>(data: &DisplayData<P>) -> (res: Vec<usize>)
    ensures
        forall|k: int| 0 <= k < res.len() ==> res[k] < data.quotas.len() && !data.quotas[res[k] as int].unlimited,
        forall|k1: int, k2: int| 0 <= k1 < k2 < res.len() ==> res[k1] < res[k2],
        forall|i: int| 0 <= i < data.quotas.len() && !data.quotas[i].unlimited ==> exists|k: int| 0 <= k < res.len() && res[k] == i,
{
    let mut res: Vec<usize> = Vec::new();
    let mut i: usize = 0;
    while i < data.quotas.len()
        invariant
            0 <= i <= data.quotas.len(),
            forall|k: int| 0 <= k < res.len() ==> res[k] < i && !data.quotas[res[k] as int].unlimited,
            forall|k1: int, k2: int| 0 <= k1 < k2 < res.len() ==> res[k1] < res[k2],
            forall|j: int| 0 <= j < i && !data.quotas[j].unlimited ==> exists|k: int| 0 <= k < res.len() && res[k] == j,
        decreases data.quotas.len() - i,
    {
        let ghost before = res@;
        if !data.quotas[i].unlimited {
            res.push(i);
        }
        proof {
            assert forall|j: int| 0 <= j < i + 1 && !data.quotas[j].unlimited implies exists|k: int| 0 <= k < res.len() && res[k] == j by {
                if j < i {
                    let k = choose|k: int| 0 <= k < before.len() && before[k] == j;
                    assert(res[k] == j);
                } else {
                    assert(res[res.len() - 1] == j);
                }
            }
        }
        i += 1;
    }
    res
}

} // verus!
