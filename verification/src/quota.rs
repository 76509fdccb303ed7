//! The quota of an account: the reply of the billing service, and what it does
//! to the account.

use vstd::prelude::*;
use vstd::string::*;
use crate::account::{AccountView, QuotaAmount, ZcodeAccount, normalized};
use crate::clock::{is_time_in_millis, time_of_day_in_millis};
use crate::credentials_file::{first_text, value_string};
use crate::json::{Json, JsonNumber, JsonView, copied_number, integer};
use crate::text::{is_blank, joined, outcome, same_text, trimmed};

verus! {

/// The version of the client that is assumed where none is found.
pub const DEFAULT_APP_VERSION: &'static str = "3.3.4";

/// The address of the billing service.
pub const BILLING_BALANCE_URL: &'static str = "https://zcode.z.ai/api/v1/zcode-plan/billing/balance";

/// The version that a command printed, where it succeeded and printed one.
pub open spec fn printed_version(output: Option<(bool, Seq<char>)>) -> Seq<char> {
    match output {
        Some((success, printed)) => if success && !is_blank(printed) {
            trimmed(printed)
        } else {
            DEFAULT_APP_VERSION@
        },
        None => DEFAULT_APP_VERSION@,
    }
}

/// The version of the client. `output` is whether the command that prints it
/// succeeded and what it printed, where it could be run.
pub fn detect_app_version(output: Option<(bool, String)>) -> (res: String)
    ensures
        res@ == printed_version(
            match output {
                Some((success, printed)) => Some((success, printed@)),
                None => None,
            },
        ),
{
    match output {
        Some((success, printed)) => {
            let version = printed.as_str().trim();
            if success && !version.is_empty() {
                return version.to_owned();
            }
        },
        None => {},
    }
    DEFAULT_APP_VERSION.to_owned()
}

/// The address from which the quota is asked.
pub fn billing_url(app_version: &str) -> (res: String)
    ensures
        res@ == BILLING_BALANCE_URL@ + "?app_version="@ + app_version@,
{
    let mut res = joined(BILLING_BALANCE_URL, "?app_version=");
    res.append(app_version);
    res
}

/// What became of a request for the quota: it was not answered, it was answered
/// with a status that is no success, its answer could not be read, or it
/// brought a value.
#[derive(Debug, PartialEq)]
pub enum QuotaReply {
    Unanswered(String),
    Refused(String),
    Unreadable(String),
    Answered(Json),
}

/// The value that a request for the quota brought, or the message of its
/// failure.
pub fn quota_payload(reply: QuotaReply) -> (res: Result<Json, String>)
    ensures
        outcome(res) == match reply {
            QuotaReply::Unanswered(message) => Err::<JsonView, Seq<char>>(
                "请求 ZCode 配额失败: "@ + message@,
            ),
            QuotaReply::Refused(status) => Err("请求 ZCode 配额失败: HTTP "@ + status@),
            QuotaReply::Unreadable(message) => Err("解析 ZCode 配额失败: "@ + message@),
            QuotaReply::Answered(value) => Ok(value@),
        },
{
    match reply {
        QuotaReply::Unanswered(message) => Err(joined("请求 ZCode 配额失败: ", message.as_str())),
        QuotaReply::Refused(status) => Err(joined("请求 ZCode 配额失败: HTTP ", status.as_str())),
        QuotaReply::Unreadable(message) => Err(joined("解析 ZCode 配额失败: ", message.as_str())),
        QuotaReply::Answered(value) => Ok(value),
    }
}

/// The items of an array; none where the value is no array.
pub open spec fn items_of(value: Option<JsonView>) -> Seq<JsonView> {
    match value {
        Some(JsonView::Array(items)) => items,
        _ => Seq::empty(),
    }
}

/// The items of the array `name` among the data of a reply.
pub open spec fn data_items(payload: JsonView, name: Seq<char>) -> Seq<JsonView> {
    match payload.get("data"@) {
        Some(data) => items_of(data.get(name)),
        None => Seq::empty(),
    }
}

/// The plans that a reply lists.
pub open spec fn plans_of(payload: JsonView) -> Seq<JsonView> {
    data_items(payload, "plans"@)
}

/// The balances that a reply lists.
pub open spec fn balances_of(payload: JsonView) -> Seq<JsonView> {
    data_items(payload, "balances"@)
}

fn copied_data_items(payload: &Json, name: &str) -> (res: Vec<Json>)
    ensures
        res.deep_view() == data_items(payload@, name@),
{
    match payload.get("data") {
        Some(data) => match data.get(name) {
            Some(value) => match value.copied() {
                Json::Array(items) => {
                    assert(items.deep_view() =~= value@->Array_0);
                    return items;
                },
                _ => {},
            },
            None => {},
        },
        None => {},
    }
    let none: Vec<Json> = Vec::new();
    assert(none.deep_view() =~= Seq::<JsonView>::empty());
    none
}

/// Whether a reply says that the request succeeded: its code is zero.
pub open spec fn is_success(payload: JsonView) -> bool {
    match payload.get("code"@) {
        Some(code) => integer(code) == Some(0i64),
        None => false,
    }
}

/// Whether a reply says that the request succeeded.
fn says_success(payload: &Json) -> (res: bool)
    ensures
        res == is_success(payload@),
{
    match payload.get("code") {
        Some(code) => match code.as_i64() {
            Some(n) => n == 0,
            None => false,
        },
        None => false,
    }
}

/// The message of a reply that says that the request failed.
pub open spec fn failure_message(payload: JsonView) -> Seq<char> {
    match payload.get_text("msg"@) {
        Some(message) => message,
        None => "ZCode 配额接口返回失败"@,
    }
}

/// Whether a plan is active.
pub open spec fn is_active(plan: JsonView) -> bool {
    plan.get_text("status"@) == Some("active"@)
}

/// The first active plan.
pub open spec fn first_active(plans: Seq<JsonView>) -> Option<JsonView>
    decreases plans.len(),
{
    if plans.len() == 0 {
        None
    } else if is_active(plans.first()) {
        Some(plans.first())
    } else {
        first_active(plans.drop_first())
    }
}

/// The plan that counts: the first active one, or else the first.
pub open spec fn chosen_plan(plans: Seq<JsonView>) -> Option<JsonView> {
    if first_active(plans) is Some {
        first_active(plans)
    } else if plans.len() > 0 {
        Some(plans.first())
    } else {
        None
    }
}

/// The members of a plan that may name it.
pub open spec fn plan_names() -> Seq<Seq<char>> {
    seq!["name"@, "plan_id"@]
}

/// The name of the plan that counts.
pub open spec fn plan_type_of(plans: Seq<JsonView>) -> Option<Seq<char>> {
    match chosen_plan(plans) {
        Some(plan) => normalized(first_text(plan, plan_names())),
        None => None,
    }
}

fn plan_is_active(plan: &Json) -> (res: bool)
    ensures
        res == is_active(plan@),
{
    match plan.get("status") {
        Some(status) => match status.as_text() {
            Some(text) => same_text(text, "active"),
            None => false,
        },
        None => false,
    }
}

fn plan_name(plan: &Json) -> (res: Option<String>)
    ensures
        res.deep_view() == normalized(first_text(plan@, plan_names())),
{
    let keys = ["name", "plan_id"];
    let names = keys.as_slice();
    assert(names.deep_view() =~= plan_names());
    value_string(plan, names)
}

fn chosen_plan_name(plans: &Vec<Json>) -> (res: Option<String>)
    ensures
        res.deep_view() == plan_type_of(plans.deep_view()),
{
    let ghost all = plans.deep_view();
    let mut i: usize = 0;
    assert(all.skip(0) =~= all);
    while i < plans.len()
        invariant
            i <= plans@.len(),
            all == plans.deep_view(),
            first_active(all) == first_active(all.skip(i as int)),
        decreases plans@.len() - i,
    {
        assert(all.skip(i as int).first() == plans@[i as int]@);
        assert(all.skip(i as int).drop_first() =~= all.skip(i + 1));
        if plan_is_active(&plans[i]) {
            return plan_name(&plans[i]);
        }
        i = i + 1;
    }
    assert(first_active(all) is None);
    if plans.len() > 0 {
        assert(all.first() == plans@[0]@);
        plan_name(&plans[0])
    } else {
        None
    }
}

/// When a balance is reset: the end of its period, or else its expiry, where
/// that is an integer.
pub open spec fn reset_time(balance: JsonView) -> Option<i64> {
    let named = match balance.get("period_end"@) {
        Some(value) => Some(value),
        None => balance.get("expires_at"@),
    };
    match named {
        Some(value) => integer(value),
        None => None,
    }
}

/// The earliest time at which one of the balances is reset.
pub open spec fn earliest_reset(balances: Seq<JsonView>) -> Option<i64>
    decreases balances.len(),
{
    if balances.len() == 0 {
        None
    } else {
        match (earliest_reset(balances.drop_last()), reset_time(balances.last())) {
            (Some(before), Some(time)) => if time < before {
                Some(time)
            } else {
                Some(before)
            },
            (Some(before), None) => Some(before),
            (None, time) => time,
        }
    }
}

fn balance_reset_time(balance: &Json) -> (res: Option<i64>)
    ensures
        res == reset_time(balance@),
{
    match balance.get("period_end") {
        Some(value) => value.as_i64(),
        None => match balance.get("expires_at") {
            Some(value) => value.as_i64(),
            None => None,
        },
    }
}

fn earliest_balance_reset(balances: &Vec<Json>) -> (res: Option<i64>)
    ensures
        res == earliest_reset(balances.deep_view()),
{
    let ghost all = balances.deep_view();
    let mut earliest: Option<i64> = None;
    let mut i: usize = 0;
    while i < balances.len()
        invariant
            i <= balances@.len(),
            all == balances.deep_view(),
            earliest == earliest_reset(all.take(i as int)),
        decreases balances@.len() - i,
    {
        assert(all.take(i + 1).drop_last() =~= all.take(i as int));
        assert(all.take(i + 1).last() == balances@[i as int]@);
        let time = balance_reset_time(&balances[i]);
        earliest = match (earliest, time) {
            (Some(before), Some(time)) => if time < before {
                Some(time)
            } else {
                Some(before)
            },
            (Some(before), None) => Some(before),
            (None, time) => time,
        };
        i = i + 1;
    }
    assert(all.take(i as int) =~= all);
    earliest
}

/// The time of the earliest reset is that of one of the balances, and no balance
/// is reset before it; there is none if and only if no balance has one.
pub proof fn no_balance_is_reset_earlier(balances: Seq<JsonView>)
    ensures
        match earliest_reset(balances) {
            Some(time) => {
                &&& exists|i: int|
                    0 <= i < balances.len() && reset_time(#[trigger] balances[i]) == Some(time)
                &&& forall|i: int|
                    0 <= i < balances.len() && reset_time(#[trigger] balances[i]) is Some ==> time
                        <= reset_time(balances[i])->0
            },
            None => forall|i: int|
                0 <= i < balances.len() ==> reset_time(#[trigger] balances[i]) is None,
        },
    decreases balances.len(),
{
    if balances.len() > 0 {
        let shorter = balances.drop_last();
        no_balance_is_reset_earlier(shorter);
        assert forall|i: int| 0 <= i < shorter.len() implies shorter[i] == #[trigger] balances[i] by {}
        assert(balances.last() == balances[balances.len() - 1]);
        if earliest_reset(balances) is Some && earliest_reset(shorter) is Some {
            let k = choose|k: int|
                0 <= k < shorter.len() && reset_time(#[trigger] shorter[k]) == earliest_reset(
                    shorter,
                );
            assert(balances[k] == shorter[k]);
        }
    }
}

/// The number that a value is, where it is one.
pub open spec fn number_of(value: Option<JsonView>) -> Option<JsonNumber> {
    match value {
        Some(JsonView::Number(n)) => Some(n),
        _ => None,
    }
}

/// The units of a balance that are left: those that remain, or else those that
/// are available.
pub open spec fn remaining_units(balance: JsonView) -> Option<JsonNumber> {
    match balance.get("remaining_units"@) {
        Some(value) => number_of(Some(value)),
        None => number_of(balance.get("available_units"@)),
    }
}

/// The numbers that the member `name` of each balance is.
pub open spec fn units_named(balances: Seq<JsonView>, name: Seq<char>) -> Seq<Option<JsonNumber>> {
    balances.map_values(|balance: JsonView| number_of(balance.get(name)))
}

/// The units of each balance that are left.
pub open spec fn units_left(balances: Seq<JsonView>) -> Seq<Option<JsonNumber>> {
    balances.map_values(|balance: JsonView| remaining_units(balance))
}

/// The numbers of which the quota of an account is the sums, one for each
/// balance; where a balance gives none, nothing is added for it.
#[derive(Debug, PartialEq)]
pub struct QuotaUnits {
    pub total: Vec<Option<JsonNumber>>,
    pub used: Vec<Option<JsonNumber>>,
    pub remaining: Vec<Option<JsonNumber>>,
}

fn number_in(value: Option<&Json>) -> (res: Option<JsonNumber>)
    ensures
        res == number_of(
            match value {
                Some(value) => Some(value@),
                None => None,
            },
        ),
{
    match value {
        Some(Json::Number(n)) => Some(copied_number(n)),
        _ => None,
    }
}

/// The numbers of which the quota that a reply gives is the sums.
pub fn quota_units(payload: &Json) -> (res: QuotaUnits)
    ensures
        res.total@ == units_named(balances_of(payload@), "total_units"@),
        res.used@ == units_named(balances_of(payload@), "used_units"@),
        res.remaining@ == units_left(balances_of(payload@)),
{
    let balances = copied_data_items(payload, "balances");
    let ghost all = balances.deep_view();
    let mut total: Vec<Option<JsonNumber>> = Vec::new();
    let mut used: Vec<Option<JsonNumber>> = Vec::new();
    let mut remaining: Vec<Option<JsonNumber>> = Vec::new();
    let mut i: usize = 0;
    while i < balances.len()
        invariant
            i <= balances@.len(),
            all == balances.deep_view(),
            total@.len() == i,
            used@.len() == i,
            remaining@.len() == i,
            forall|k: int| 0 <= k < i ==> #[trigger] total@[k] == number_of(all[k].get("total_units"@)),
            forall|k: int| 0 <= k < i ==> #[trigger] used@[k] == number_of(all[k].get("used_units"@)),
            forall|k: int| 0 <= k < i ==> #[trigger] remaining@[k] == remaining_units(all[k]),
        decreases balances@.len() - i,
    {
        assert(all[i as int] == balances@[i as int]@);
        let balance = &balances[i];
        total.push(number_in(balance.get("total_units")));
        used.push(number_in(balance.get("used_units")));
        remaining.push(
            match balance.get("remaining_units") {
                Some(value) => number_in(Some(value)),
                None => number_in(balance.get("available_units")),
            },
        );
        i = i + 1;
    }
    QuotaUnits { total, used, remaining }
}

/// The sums of the units of all balances.
#[derive(Debug, Clone, Copy, PartialEq)]
pub struct QuotaTotals {
    pub total: QuotaAmount,
    pub used: QuotaAmount,
    pub remaining: QuotaAmount,
}

/// What a reply that says success makes of an account at the time `now`.
pub open spec fn with_quota(
    account: AccountView,
    payload: JsonView,
    totals: QuotaTotals,
    now: i64,
) -> AccountView {
    AccountView {
        plan_type: plan_type_of(plans_of(payload)),
        quota_total: Some(totals.total),
        quota_used: Some(totals.used),
        quota_remaining: Some(totals.remaining),
        quota_reset_at: earliest_reset(balances_of(payload)),
        subscription_raw: Some(JsonView::Array(plans_of(payload))),
        quota_raw: Some(JsonView::Array(balances_of(payload))),
        usage_updated_at: Some(now),
        quota_query_last_error: None,
        quota_query_last_error_at: None,
        ..account
    }
}

/// Takes over the quota that a reply gives, at the time `now` in milliseconds.
/// `totals` are the sums of the numbers that `quota_units` lists. A reply that
/// does not say success leaves the account as it is.
pub fn apply_quota_payload_at(
    account: &mut ZcodeAccount,
    payload: &Json,
    totals: QuotaTotals,
    now: i64,
) -> (res: Result<(), String>)
    ensures
        match res {
            Ok(_) => is_success(payload@) && final(account)@ == with_quota(
                old(account)@,
                payload@,
                totals,
                now,
            ),
            Err(message) => !is_success(payload@) && message@ == failure_message(payload@)
                && *final(account) == *old(account),
        },
{
    if !says_success(payload) {
        match payload.get("msg") {
            Some(value) => match value.as_text() {
                Some(text) => return Err(text.to_owned()),
                None => {},
            },
            None => {},
        }
        return Err("ZCode 配额接口返回失败".to_owned());
    }
    let plans = copied_data_items(payload, "plans");
    let balances = copied_data_items(payload, "balances");
    account.plan_type = chosen_plan_name(&plans);
    account.quota_total = Some(totals.total);
    account.quota_used = Some(totals.used);
    account.quota_remaining = Some(totals.remaining);
    account.quota_reset_at = earliest_balance_reset(&balances);
    let ghost plan_views = plans.deep_view();
    let ghost balance_views = balances.deep_view();
    let subscription = Json::Array(plans);
    let quota = Json::Array(balances);
    assert(subscription@->Array_0 =~= plan_views);
    assert(quota@->Array_0 =~= balance_views);
    account.subscription_raw = Some(subscription);
    account.quota_raw = Some(quota);
    account.usage_updated_at = Some(now);
    account.quota_query_last_error = None;
    account.quota_query_last_error_at = None;
    Ok(())
}

/// `apply_quota_payload_at` with the time of day.
pub fn apply_quota_payload(account: &mut ZcodeAccount, payload: &Json, totals: QuotaTotals) -> (res:
    Result<(), String>)
    ensures
        match res {
            Ok(_) => is_success(payload@) && exists|now: i64|
                is_time_in_millis(now) && final(account)@ == #[trigger] with_quota(
                    old(account)@,
                    payload@,
                    totals,
                    now,
                ),
            Err(message) => !is_success(payload@) && message@ == failure_message(payload@)
                && *final(account) == *old(account),
        },
{
    apply_quota_payload_at(account, payload, totals, time_of_day_in_millis())
}

/// An account of which asking the quota failed with `message` at the time `now`.
pub open spec fn with_quota_error(account: AccountView, message: Seq<char>, now: i64) -> AccountView {
    AccountView {
        quota_query_last_error: Some(message),
        quota_query_last_error_at: Some(now),
        ..account
    }
}

/// What asking the quota of an account comes to at the time `now`: the account
/// to be stored, and the error to be reported.
pub open spec fn quota_refreshed(
    account: AccountView,
    payload: Result<JsonView, Seq<char>>,
    totals: QuotaTotals,
    now: i64,
) -> (AccountView, Result<(), Seq<char>>) {
    match payload {
        Err(message) => (with_quota_error(account, message, now), Err(message)),
        Ok(payload) => if is_success(payload) {
            (with_quota(account, payload, totals, now), Ok(()))
        } else {
            (
                with_quota_error(account, failure_message(payload), now),
                Err(failure_message(payload)),
            )
        },
    }
}

/// What asking the quota of an account comes to at the time `now`, where
/// `payload` is what the request brought: the account to be stored, and the
/// error to be reported.
pub fn refresh_account_quota_at(
    account: ZcodeAccount,
    payload: Result<Json, String>,
    totals: QuotaTotals,
    now: i64,
) -> (res: (ZcodeAccount, Result<(), String>))
    ensures
        (res.0@, outcome(res.1)) == quota_refreshed(account@, outcome(payload), totals, now),
{
    let mut account = account;
    match payload {
        Ok(payload) => match apply_quota_payload_at(&mut account, &payload, totals, now) {
            Ok(_) => (account, Ok(())),
            Err(message) => {
                account.quota_query_last_error = Some(message.clone());
                account.quota_query_last_error_at = Some(now);
                (account, Err(message))
            },
        },
        Err(message) => {
            account.quota_query_last_error = Some(message.clone());
            account.quota_query_last_error_at = Some(now);
            (account, Err(message))
        },
    }
}

/// `refresh_account_quota_at` with the time of day.
pub fn refresh_account_quota(
    account: ZcodeAccount,
    payload: Result<Json, String>,
    totals: QuotaTotals,
) -> (res: (ZcodeAccount, Result<(), String>))
    ensures
        exists|now: i64|
            is_time_in_millis(now) && (res.0@, outcome(res.1)) == #[trigger] quota_refreshed(
                account@,
                outcome(payload),
                totals,
                now,
            ),
{
    refresh_account_quota_at(account, payload, totals, time_of_day_in_millis())
}

/// Asking the quota changes nothing of an account but its plan and its quota;
/// where it fails, nothing but the last error.
pub proof fn quota_leaves_the_identity(
    account: AccountView,
    payload: Result<JsonView, Seq<char>>,
    totals: QuotaTotals,
    now: i64,
)
    ensures
        ({
            let (after, error) = quota_refreshed(account, payload, totals, now);
            &&& after.id == account.id
            &&& after.provider == account.provider
            &&& after.email == account.email
            &&& after.user_id == account.user_id
            &&& after.display_name == account.display_name
            &&& after.avatar_url == account.avatar_url
            &&& after.expires_at == account.expires_at
            &&& after.access_token == account.access_token
            &&& after.refresh_token == account.refresh_token
            &&& after.zcode_jwt_token == account.zcode_jwt_token
            &&& after.tags == account.tags
            &&& after.user_info_raw == account.user_info_raw
            &&& after.created_at == account.created_at
            &&& after.last_used == account.last_used
            &&& error is Err ==> {
                &&& after.plan_type == account.plan_type
                &&& after.quota_total == account.quota_total
                &&& after.quota_used == account.quota_used
                &&& after.quota_remaining == account.quota_remaining
                &&& after.quota_reset_at == account.quota_reset_at
                &&& after.quota_raw == account.quota_raw
                &&& after.subscription_raw == account.subscription_raw
                &&& after.usage_updated_at == account.usage_updated_at
            }
            &&& error is Ok ==> after.quota_query_last_error is None
        }),
{
}

/// The account of which the quota is to be asked, out of what loading it gave.
pub fn account_to_refresh(loaded: Option<ZcodeAccount>) -> (res: Result<ZcodeAccount, String>)
    ensures
        match loaded {
            Some(account) => res == Ok::<ZcodeAccount, String>(account),
            None => res matches Err(message) && message@ == "ZCode 账号不存在"@,
        },
{
    match loaded {
        Some(account) => Ok(account),
        None => Err("ZCode 账号不存在".to_owned()),
    }
}

/// What asking the quota of an account answers, out of the error to be reported
/// and of what storing the account gave: the error goes before what was stored.
pub fn quota_answer(reported: Result<(), String>, stored: Result<ZcodeAccount, String>) -> (res:
    Result<ZcodeAccount, String>)
    ensures
        res == match reported {
            Ok(_) => stored,
            Err(message) => Err::<ZcodeAccount, String>(message),
        },
{
    match reported {
        Ok(_) => stored,
        Err(message) => Err(message),
    }
}

/// What bringing an account in from the client answers: the account as asking
/// its quota left it, or as it was stored before where that failed.
pub fn refreshed_or_stored(refreshed: Result<ZcodeAccount, String>, stored: ZcodeAccount) -> (res:
    ZcodeAccount)
    ensures
        res == match refreshed {
            Ok(account) => account,
            Err(_) => stored,
        },
{
    match refreshed {
        Ok(account) => account,
        Err(_) => stored,
    }
}

/// The number of requests that succeeded.
pub open spec fn succeeded(refreshed: Seq<bool>) -> nat {
    refreshed.filter(|done: bool| done).len()
}

/// The number of accounts of which the quota could be asked, where `refreshed`
/// says of each account whether it could.
pub fn refresh_all_accounts(refreshed: Result<Vec<bool>, String>) -> (res: Result<i32, String>)
    requires
        refreshed matches Ok(each) ==> each@.len() <= i32::MAX,
    ensures
        match (refreshed, res) {
            (Ok(each), Ok(count)) => count == succeeded(each@),
            (Err(message), Err(text)) => text@ == message@,
            _ => false,
        },
{
    let each = match refreshed {
        Ok(each) => each,
        Err(message) => return Err(message),
    };
    let mut success: i32 = 0;
    let mut i: usize = 0;
    let ghost done = |done: bool| done;
    proof {
        reveal(Seq::filter);
        assert(each@.take(0).filter(done).len() == 0);
    }
    while i < each.len()
        invariant
            i <= each@.len(),
            each@.len() <= i32::MAX,
            done == (|done: bool| done),
            0 <= success <= i,
            success == each@.take(i as int).filter(done).len(),
        decreases each@.len() - i,
    {
        reveal(Seq::filter);
        assert(each@.take(i + 1).drop_last() =~= each@.take(i as int));
        if each[i] {
            success = success + 1;
        }
        i = i + 1;
    }
    assert(each@.take(i as int) =~= each@);
    Ok(success)
}

/// A balance is reset at the end of its period, whatever its expiry is. The
/// expiry counts only where no end of the period is named, and what is no
/// integer is no time.
pub proof fn balances_are_reset_at_the_end_of_their_period(balance: JsonView, time: i64)
    ensures
        balance.get("period_end"@) == Some(JsonView::Number(JsonNumber::NegInt(time)))
            ==> reset_time(balance) == Some(time),
        time >= 0 && balance.get("period_end"@) == Some(
            JsonView::Number(JsonNumber::PosInt(time as u64)),
        ) ==> reset_time(balance) == Some(time),
        balance.get("period_end"@) is Some ==> reset_time(balance) == integer(
            balance.get("period_end"@)->0,
        ),
        balance.get("period_end"@) is None && balance.get("expires_at"@) is Some ==> reset_time(
            balance,
        ) == integer(balance.get("expires_at"@)->0),
        balance.get("period_end"@) is None && balance.get("expires_at"@) is None ==> reset_time(
            balance,
        ) is None,
{
}

/// A reply says success if and only if its code is the integer zero.
pub proof fn only_the_code_zero_is_success(payload: JsonView)
    ensures
        is_success(payload) <==> payload.get("code"@) == Some(
            JsonView::Number(JsonNumber::PosInt(0)),
        ) || payload.get("code"@) == Some(JsonView::Number(JsonNumber::NegInt(0))),
{
}

/// The plans and the balances of a reply are the items of the arrays of these
/// names among its data, all of them and in their order; there are none where
/// there is no such array.
pub proof fn replies_list_plans_and_balances(
    payload: JsonView,
    data: JsonView,
    items: Seq<JsonView>,
)
    ensures
        payload.get("data"@) == Some(data) && data.get("plans"@) == Some(JsonView::Array(items))
            ==> plans_of(payload) == items,
        payload.get("data"@) == Some(data) && !(data.get("plans"@) matches Some(JsonView::Array(_)))
            ==> plans_of(payload).len() == 0,
        payload.get("data"@) == Some(data) && data.get("balances"@) == Some(JsonView::Array(items))
            ==> balances_of(payload) == items,
        payload.get("data"@) == Some(data) && !(data.get("balances"@) matches Some(
            JsonView::Array(_),
        )) ==> balances_of(payload).len() == 0,
        payload.get("data"@) is None ==> plans_of(payload).len() == 0 && balances_of(payload).len()
            == 0,
{
}

proof fn lemma_first_active(plans: Seq<JsonView>)
    ensures
        match first_active(plans) {
            Some(plan) => exists|at: int|
                {
                    &&& 0 <= at < plans.len()
                    &&& #[trigger] plans[at] == plan
                    &&& plan.get("status"@) == Some(JsonView::Text("active"@))
                    &&& forall|k: int|
                        0 <= k < at ==> (#[trigger] plans[k]).get("status"@) != Some(
                            JsonView::Text("active"@),
                        )
                },
            None => forall|k: int|
                0 <= k < plans.len() ==> (#[trigger] plans[k]).get("status"@) != Some(
                    JsonView::Text("active"@),
                ),
        },
    decreases plans.len(),
{
    if plans.len() > 0 {
        if is_active(plans.first()) {
            assert(plans[0] == plans.first());
        } else {
            let rest = plans.drop_first();
            lemma_first_active(rest);
            assert forall|k: int| 0 < k < plans.len() implies #[trigger] plans[k] == rest[k - 1] by {}
            assert(plans[0].get("status"@) != Some(JsonView::Text("active"@)));
            if first_active(rest) is Some {
                let plan = first_active(rest)->0;
                let at = choose|at: int|
                    {
                        &&& 0 <= at < rest.len()
                        &&& #[trigger] rest[at] == plan
                        &&& plan.get("status"@) == Some(JsonView::Text("active"@))
                        &&& forall|k: int|
                            0 <= k < at ==> (#[trigger] rest[k]).get("status"@) != Some(
                                JsonView::Text("active"@),
                            )
                    };
                assert(plans[at + 1] == plan);
                assert forall|k: int| 0 <= k < at + 1 implies (#[trigger] plans[k]).get("status"@)
                    != Some(JsonView::Text("active"@)) by {
                    if k > 0 {
                        assert(plans[k] == rest[k - 1]);
                    }
                }
            }
        }
    }
}

/// The plan of an account is the first of which the status is `active`, and the
/// first of all where none is. It is called by its member `name`, or by its
/// `plan_id` where that is no text, without the white space around it.
pub proof fn the_first_active_plan_counts(plans: Seq<JsonView>, at: int)
    requires
        0 <= at < plans.len(),
        forall|k: int|
            0 <= k < at ==> (#[trigger] plans[k]).get("status"@) != Some(
                JsonView::Text("active"@),
            ),
        plans[at].get("status"@) == Some(JsonView::Text("active"@)) || at == 0 && forall|k: int|
            0 <= k < plans.len() ==> (#[trigger] plans[k]).get("status"@) != Some(
                JsonView::Text("active"@),
            ),
    ensures
        ({
            let name = if plans[at].get("name"@) matches Some(JsonView::Text(_)) {
                plans[at].get_text("name"@)
            } else {
                plans[at].get_text("plan_id"@)
            };
            &&& name is Some && trimmed(name->0).len() > 0 ==> plan_type_of(plans) == Some(
                trimmed(name->0),
            )
            &&& name is None || trimmed(name->0).len() == 0 ==> plan_type_of(plans) is None
        }),
{
    lemma_first_active(plans);
    if first_active(plans) is Some {
        let plan = first_active(plans)->0;
        let found = choose|found: int|
            {
                &&& 0 <= found < plans.len()
                &&& #[trigger] plans[found] == plan
                &&& plan.get("status"@) == Some(JsonView::Text("active"@))
                &&& forall|k: int|
                    0 <= k < found ==> (#[trigger] plans[k]).get("status"@) != Some(
                        JsonView::Text("active"@),
                    )
            };
        assert(plans[found].get("status"@) == Some(JsonView::Text("active"@)));
        assert(found == at);
    }
    assert(chosen_plan(plans) == Some(plans[at]));
    assert(plan_names().drop_first() =~= seq!["plan_id"@]);
    assert(plan_names().drop_first().drop_first() =~= Seq::<Seq<char>>::empty());
    assert(first_text(plans[at], Seq::empty()) is None);
    assert(first_text(plans[at], seq!["plan_id"@]) == plans[at].get_text("plan_id"@));
}

/// Without a plan the account has no plan.
pub proof fn without_plans_there_is_no_plan(plans: Seq<JsonView>)
    requires
        plans.len() == 0,
    ensures
        plan_type_of(plans) is None,
{
}

/// The units of each balance are counted in its place: those that its members of
/// these names give as numbers. Of the units that are left, the available ones
/// count only where the remaining ones are not named.
pub proof fn units_of_each_balance_count(balances: Seq<JsonView>, name: Seq<char>, i: int, n: JsonNumber)
    requires
        0 <= i < balances.len(),
    ensures
        units_named(balances, name).len() == balances.len(),
        units_left(balances).len() == balances.len(),
        units_named(balances, name)[i] == Some(n) <==> balances[i].get(name) == Some(
            JsonView::Number(n),
        ),
        balances[i].get("remaining_units"@) is Some ==> (units_left(balances)[i] == Some(n)
            <==> balances[i].get("remaining_units"@) == Some(JsonView::Number(n))),
        balances[i].get("remaining_units"@) is None ==> (units_left(balances)[i] == Some(n)
            <==> balances[i].get("available_units"@) == Some(JsonView::Number(n))),
{
}

/// A reply with the code zero gives the account the sums, the plan, the time of
/// the earliest reset, and the plans and balances as they were sent, notes the
/// time, and clears the last error.
pub proof fn successful_replies_are_taken_over(
    account: AccountView,
    payload: JsonView,
    totals: QuotaTotals,
    now: i64,
)
    requires
        payload.get("code"@) == Some(JsonView::Number(JsonNumber::PosInt(0))) || payload.get(
            "code"@,
        ) == Some(JsonView::Number(JsonNumber::NegInt(0))),
    ensures
        ({
            let (after, reported) = quota_refreshed(account, Ok(payload), totals, now);
            &&& reported is Ok
            &&& after.quota_total == Some(totals.total)
            &&& after.quota_used == Some(totals.used)
            &&& after.quota_remaining == Some(totals.remaining)
            &&& after.subscription_raw == Some(JsonView::Array(plans_of(payload)))
            &&& after.quota_raw == Some(JsonView::Array(balances_of(payload)))
            &&& after.plan_type == plan_type_of(plans_of(payload))
            &&& after.quota_reset_at == earliest_reset(balances_of(payload))
            &&& after.usage_updated_at == Some(now)
            &&& after.quota_query_last_error is None
            &&& after.quota_query_last_error_at is None
        }),
{
}

/// A reply with the code zero gives the account the earliest of the times at
/// which its balances are reset. With one balance that names the end of its
/// period, that is the time, whatever else the balance names.
pub proof fn quotas_are_reset_with_the_earliest_balance(
    account: AccountView,
    payload: JsonView,
    totals: QuotaTotals,
    now: i64,
    data: JsonView,
    balances: Seq<JsonView>,
    time: i64,
    i: int,
)
    requires
        payload.get("code"@) == Some(JsonView::Number(JsonNumber::PosInt(0))),
        payload.get("data"@) == Some(data),
        data.get("balances"@) == Some(JsonView::Array(balances)),
        0 <= i < balances.len(),
        time >= 0,
        balances[i].get("period_end"@) == Some(JsonView::Number(JsonNumber::PosInt(time as u64))),
    ensures
        ({
            let reset = quota_refreshed(account, Ok(payload), totals, now).0.quota_reset_at;
            &&& reset is Some && reset->0 <= time
            &&& balances.len() == 1 ==> reset == Some(time)
            &&& (forall|k: int|
                0 <= k < balances.len() ==> exists|end: i64|
                    time <= end && #[trigger] integer((#[trigger] balances[k]).get("period_end"@)->0)
                        == Some(end) && balances[k].get("period_end"@) is Some) ==> reset == Some(
                time,
            )
        }),
{
    no_balance_is_reset_earlier(balances);
    assert(reset_time(balances[i]) == Some(time));
    let reset = earliest_reset(balances);
    let k = choose|k: int|
        0 <= k < balances.len() && reset_time(#[trigger] balances[k]) == Some(reset->0);
    assert(balances[k].get("period_end"@) is Some ==> integer(balances[k].get("period_end"@)->0)
        == Some(reset->0));
}

/// A reply with any other code, or none, changes nothing of the account but the
/// last error, which is the message of the reply where it has one.
pub proof fn refusals_are_noted(
    account: AccountView,
    payload: JsonView,
    totals: QuotaTotals,
    now: i64,
)
    requires
        payload.get("code"@) != Some(JsonView::Number(JsonNumber::PosInt(0))),
        payload.get("code"@) != Some(JsonView::Number(JsonNumber::NegInt(0))),
    ensures
        ({
            let (after, reported) = quota_refreshed(account, Ok(payload), totals, now);
            let message = match payload.get("msg"@) {
                Some(JsonView::Text(text)) => text,
                _ => "ZCode 配额接口返回失败"@,
            };
            &&& reported == Err::<(), Seq<char>>(message)
            &&& after == AccountView {
                quota_query_last_error: Some(message),
                quota_query_last_error_at: Some(now),
                ..account
            }
        }),
{
}

/// A request that failed changes nothing of the account but the last error,
/// which is the message of the failure.
pub proof fn failures_are_noted(
    account: AccountView,
    message: Seq<char>,
    totals: QuotaTotals,
    now: i64,
)
    ensures
        ({
            let (after, reported) = quota_refreshed(account, Err(message), totals, now);
            &&& reported == Err::<(), Seq<char>>(message)
            &&& after == AccountView {
                quota_query_last_error: Some(message),
                quota_query_last_error_at: Some(now),
                ..account
            }
        }),
{
}

/// Each request that succeeded counts once, and no other does.
pub proof fn each_success_counts_once(refreshed: Seq<bool>, next: bool)
    ensures
        succeeded(Seq::empty()) == 0,
        succeeded(refreshed.push(next)) == succeeded(refreshed) + if next {
            1int
        } else {
            0int
        },
{
    reveal(Seq::filter);
    assert(refreshed.push(next).drop_last() =~= refreshed);
}

/// The version is what the command printed, without the white space around it,
/// where it succeeded and printed more than white space; else one is assumed.
pub proof fn versions_are_printed_or_assumed(success: bool, printed: Seq<char>)
    ensures
        success && trimmed(printed).len() > 0 ==> printed_version(Some((success, printed)))
            == trimmed(printed),
        !success || trimmed(printed).len() == 0 ==> printed_version(Some((success, printed)))
            == "3.3.4"@,
        printed_version(None) == "3.3.4"@,
{
}

/// The quota is asked at this address, with the version of the client.
pub proof fn quotas_are_asked_with_the_version(
    success: bool,
    printed: String,
    version: String,
    assumed: String,
    asked: &str,
    url: String,
)
    requires
        call_ensures(detect_app_version, (Some((success, printed)),), version),
        call_ensures(detect_app_version, (None,), assumed),
        call_ensures(billing_url, (asked,), url),
    ensures
        url@ == "https://zcode.z.ai/api/v1/zcode-plan/billing/balance"@ + "?app_version"@ + "="@
            + asked@,
        success && trimmed(printed@).len() > 0 ==> version@ == trimmed(printed@),
        !success || trimmed(printed@).len() == 0 ==> version@ == "3.3.4"@,
        assumed@ == "3.3.4"@,
{
    reveal_strlit("?app_version=");
    reveal_strlit("?app_version");
    reveal_strlit("=");
    assert("?app_version="@ =~= "?app_version"@ + "="@);
    let url_start = "https://zcode.z.ai/api/v1/zcode-plan/billing/balance"@;
    assert(url_start + ("?app_version"@ + "="@) + asked@ =~= url_start + "?app_version"@ + "="@
        + asked@);
}

/// A request brings its answer, or a message that says how it failed.
pub proof fn replies_are_answers_or_failures(
    text: String,
    value: Json,
    unanswered: Result<Json, String>,
    refused: Result<Json, String>,
    unreadable: Result<Json, String>,
    answered: Result<Json, String>,
)
    requires
        call_ensures(quota_payload, (QuotaReply::Unanswered(text),), unanswered),
        call_ensures(quota_payload, (QuotaReply::Refused(text),), refused),
        call_ensures(quota_payload, (QuotaReply::Unreadable(text),), unreadable),
        call_ensures(quota_payload, (QuotaReply::Answered(value),), answered),
    ensures
        unanswered is Err && unanswered->Err_0@ == "请求 ZCode 配额失败: "@ + text@,
        refused is Err && refused->Err_0@ == "请求 ZCode 配额失败: HTTP "@ + text@,
        unreadable is Err && unreadable->Err_0@ == "解析 ZCode 配额失败: "@ + text@,
        answered is Ok && answered->Ok_0@ == value@,
{
}

/// The sums of the quota are over these members of each balance.
pub proof fn sums_are_over_each_balance(
    payload: &Json,
    res: QuotaUnits,
    balances: Seq<JsonView>,
    i: int,
    n: JsonNumber,
)
    requires
        call_ensures(quota_units, (payload,), res),
        payload@.get("data"@) is Some,
        payload@.get("data"@)->0.get("balances"@) == Some(JsonView::Array(balances)),
        0 <= i < balances.len(),
    ensures
        res.total@.len() == balances.len(),
        res.used@.len() == balances.len(),
        res.remaining@.len() == balances.len(),
        res.total@[i] == Some(n) <==> balances[i].get("total_units"@) == Some(JsonView::Number(n)),
        res.used@[i] == Some(n) <==> balances[i].get("used_units"@) == Some(JsonView::Number(n)),
        balances[i].get("remaining_units"@) is Some ==> (res.remaining@[i] == Some(n)
            <==> balances[i].get("remaining_units"@) == Some(JsonView::Number(n))),
        balances[i].get("remaining_units"@) is None ==> (res.remaining@[i] == Some(n)
            <==> balances[i].get("available_units"@) == Some(JsonView::Number(n))),
{
}

/// Asking the quota of an account stores what a reply with the code zero gives,
/// and reports and stores the message of any other.
pub proof fn refreshed_quotas_are_stored(
    account: ZcodeAccount,
    payload: Result<Json, String>,
    totals: QuotaTotals,
    now: i64,
    res: (ZcodeAccount, Result<(), String>),
)
    requires
        call_ensures(refresh_account_quota_at, (account, payload, totals, now), res),
    ensures
        ({
            let is_zero = payload is Ok && (payload->Ok_0@.get("code"@) == Some(
                JsonView::Number(JsonNumber::PosInt(0)),
            ) || payload->Ok_0@.get("code"@) == Some(JsonView::Number(JsonNumber::NegInt(0))));
            let after = res.0@;
            &&& is_zero <==> res.1 is Ok
            &&& is_zero ==> {
                &&& after.quota_total == Some(totals.total)
                &&& after.quota_used == Some(totals.used)
                &&& after.quota_remaining == Some(totals.remaining)
                &&& after.plan_type == plan_type_of(plans_of(payload->Ok_0@))
                &&& after.quota_reset_at == earliest_reset(balances_of(payload->Ok_0@))
                &&& after.subscription_raw == Some(JsonView::Array(plans_of(payload->Ok_0@)))
                &&& after.quota_raw == Some(JsonView::Array(balances_of(payload->Ok_0@)))
                &&& after.usage_updated_at == Some(now)
                &&& after.quota_query_last_error is None
                &&& after.quota_query_last_error_at is None
            }
            &&& !is_zero ==> after == (AccountView {
                quota_query_last_error: Some(res.1->Err_0@),
                quota_query_last_error_at: Some(now),
                ..account@
            })
            &&& payload is Err ==> res.1 is Err && res.1->Err_0@ == payload->Err_0@
            &&& payload is Ok && !is_zero ==> res.1->Err_0@ == match payload->Ok_0@.get("msg"@) {
                Some(JsonView::Text(text)) => text,
                _ => "ZCode 配额接口返回失败"@,
            }
            &&& after.id == account@.id
            &&& after.provider == account@.provider
            &&& after.email == account@.email
            &&& after.user_id == account@.user_id
            &&& after.access_token == account@.access_token
            &&& after.refresh_token == account@.refresh_token
            &&& after.zcode_jwt_token == account@.zcode_jwt_token
            &&& after.tags == account@.tags
        }),
{
    if payload is Ok {
        only_the_code_zero_is_success(payload->Ok_0@);
    }
    quota_leaves_the_identity(account@, outcome(payload), totals, now);
}

/// Asking the quota at the time of day comes to what asking it at some time
/// does.
pub proof fn quotas_are_refreshed_at_some_time(
    account: ZcodeAccount,
    payload: Result<Json, String>,
    totals: QuotaTotals,
    res: (ZcodeAccount, Result<(), String>),
)
    requires
        call_ensures(refresh_account_quota, (account, payload, totals), res),
    ensures
        exists|now: i64|
            is_time_in_millis(now) && (res.0@, outcome(res.1)) == #[trigger] quota_refreshed(
                account@,
                outcome(payload),
                totals,
                now,
            ),
        res.0@.access_token == account@.access_token,
        res.0@.refresh_token == account@.refresh_token,
        res.0@.zcode_jwt_token == account@.zcode_jwt_token,
        payload is Err ==> res.1 is Err && res.1->Err_0@ == payload->Err_0@
            && res.0@.quota_query_last_error == Some(payload->Err_0@),
{
    let now = choose|now: i64|
            is_time_in_millis(now) && (res.0@, outcome(res.1)) == #[trigger] quota_refreshed(
            account@,
            outcome(payload),
            totals,
            now,
        );
    quota_leaves_the_identity(account@, outcome(payload), totals, now);
}

/// An account must be there to be asked for its quota; the error of asking goes
/// before what was stored, and an account that could not be asked is answered as
/// it was stored.
pub proof fn quota_answers_follow_the_request(
    account: ZcodeAccount,
    message: String,
    stored: Result<ZcodeAccount, String>,
    found: Result<ZcodeAccount, String>,
    missed: Result<ZcodeAccount, String>,
    fine: Result<ZcodeAccount, String>,
    failed: Result<ZcodeAccount, String>,
    refreshed: Result<ZcodeAccount, String>,
    kept: ZcodeAccount,
)
    requires
        call_ensures(account_to_refresh, (Some(account),), found),
        call_ensures(account_to_refresh, (None,), missed),
        call_ensures(quota_answer, (Ok(()), stored), fine),
        call_ensures(quota_answer, (Err(message), stored), failed),
        call_ensures(refreshed_or_stored, (refreshed, account), kept),
    ensures
        found is Ok && found->Ok_0 == account,
        missed is Err && missed->Err_0@ == "ZCode 账号不存在"@,
        fine == stored,
        failed is Err && failed->Err_0@ == message@,
        refreshed is Ok ==> kept == refreshed->Ok_0,
        refreshed is Err ==> kept == account,
{
}

/// Asking all quotas answers how many of the requests succeeded.
pub proof fn successes_are_counted(
    each: Vec<bool>,
    more: Vec<bool>,
    next: bool,
    res: Result<i32, String>,
    more_res: Result<i32, String>,
    message: String,
    failed: Result<i32, String>,
)
    requires
        each@.len() < i32::MAX,
        more@ == each@.push(next),
        call_ensures(refresh_all_accounts, (Ok(each),), res),
        call_ensures(refresh_all_accounts, (Ok(more),), more_res),
        call_ensures(refresh_all_accounts, (Err(message),), failed),
    ensures
        res is Ok && more_res is Ok,
        each@.len() == 0 ==> res->Ok_0 == 0,
        next ==> more_res->Ok_0 == res->Ok_0 + 1,
        !next ==> more_res->Ok_0 == res->Ok_0,
        failed is Err && failed->Err_0@ == message@,
{
    each_success_counts_once(each@, next);
    if each@.len() == 0 {
        assert(each@ =~= Seq::<bool>::empty());
    }
}

/// Taking a reply over into an account gives the account what a reply with the
/// code zero gives, and leaves it untouched by any other, whose message is the
/// error.
pub proof fn replies_are_applied_or_refused(
    account: &mut ZcodeAccount,
    payload: &Json,
    totals: QuotaTotals,
    now: i64,
    res: Result<(), String>,
)
    requires
        call_ensures(apply_quota_payload_at, (account, payload, totals, now), res),
    ensures
        ({
            let is_zero = payload@.get("code"@) == Some(JsonView::Number(JsonNumber::PosInt(0)))
                || payload@.get("code"@) == Some(JsonView::Number(JsonNumber::NegInt(0)));
            &&& res is Ok <==> is_zero
            &&& res is Err ==> *final(account) == *old(account)
            &&& res is Err ==> res->Err_0@ == match payload@.get("msg"@) {
                Some(JsonView::Text(text)) => text,
                _ => "ZCode 配额接口返回失败"@,
            }
            &&& res is Ok ==> final(account)@ == (AccountView {
                plan_type: plan_type_of(plans_of(payload@)),
                quota_total: Some(totals.total),
                quota_used: Some(totals.used),
                quota_remaining: Some(totals.remaining),
                quota_reset_at: earliest_reset(balances_of(payload@)),
                subscription_raw: Some(JsonView::Array(plans_of(payload@))),
                quota_raw: Some(JsonView::Array(balances_of(payload@))),
                usage_updated_at: Some(now),
                quota_query_last_error: None,
                quota_query_last_error_at: None,
                ..old(account)@
            })
        }),
{
    only_the_code_zero_is_success(payload@);
}

/// At the time of day the same is taken over.
pub proof fn replies_are_applied_at_the_time_of_day(
    account: &mut ZcodeAccount,
    payload: &Json,
    totals: QuotaTotals,
    res: Result<(), String>,
)
    requires
        call_ensures(apply_quota_payload, (account, payload, totals), res),
    ensures
        ({
            let is_zero = payload@.get("code"@) == Some(JsonView::Number(JsonNumber::PosInt(0)))
                || payload@.get("code"@) == Some(JsonView::Number(JsonNumber::NegInt(0)));
            &&& res is Ok <==> is_zero
            &&& res is Err ==> *final(account) == *old(account)
            &&& res is Ok ==> {
                &&& final(account)@.quota_total == Some(totals.total)
                &&& final(account)@.quota_used == Some(totals.used)
                &&& final(account)@.quota_remaining == Some(totals.remaining)
                &&& final(account)@.plan_type == plan_type_of(plans_of(payload@))
                &&& final(account)@.quota_reset_at == earliest_reset(balances_of(payload@))
                &&& final(account)@.quota_raw == Some(JsonView::Array(balances_of(payload@)))
                &&& final(account)@.subscription_raw == Some(JsonView::Array(plans_of(payload@)))
                &&& final(account)@.quota_query_last_error is None
                &&& final(account)@.access_token == old(account)@.access_token
                &&& final(account)@.refresh_token == old(account)@.refresh_token
                &&& final(account)@.zcode_jwt_token == old(account)@.zcode_jwt_token
            }
        }),
{
    only_the_code_zero_is_success(payload@);
}

/// At the time of day, a reply with the code zero notes the time that the clock
/// showed, in milliseconds, as the time of the usage, and any other as the time
/// of the error.
pub proof fn replies_are_noted_at_the_time_of_day(
    account: ZcodeAccount,
    payload: Result<Json, String>,
    totals: QuotaTotals,
    res: (ZcodeAccount, Result<(), String>),
    changed: &mut ZcodeAccount,
    value: &Json,
    applied: Result<(), String>,
)
    requires
        call_ensures(refresh_account_quota, (account, payload, totals), res),
        call_ensures(apply_quota_payload, (changed, value, totals), applied),
    ensures
        res.1 is Ok ==> res.0@.usage_updated_at is Some && is_time_in_millis(
            res.0@.usage_updated_at->0,
        ),
        res.1 is Err ==> res.0@.quota_query_last_error_at is Some && is_time_in_millis(
            res.0@.quota_query_last_error_at->0,
        ),
        applied is Ok ==> final(changed)@.usage_updated_at is Some && is_time_in_millis(
            final(changed)@.usage_updated_at->0,
        ),
{
}

}
