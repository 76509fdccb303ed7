//! The index of accounts, and what storing, listing and removing accounts does
//! to it.

use vstd::prelude::*;
use vstd::string::*;
use vstd::utf8::*;
use crate::account::{
    AccountView, ZcodeAccount, distinct_tags, lemma_unknown_email_not_blank,
    normal_providers_stay, normalize_optional, normalize_provider, normalize_string,
    normalize_tags, normalized, normalized_provider, normalized_tags, normalizing_is_idempotent,
    normalizing_tags_is_idempotent, tags_are_added_in_turn, two_providers_are_known,
    unknown_email,
};
use crate::account_files::{
    account_id, account_identity, file_of_account, identifier, is_safe_id,
    made_identifiers_are_not_blank, safe_account_id, safe_id, safe_identifiers_name_files,
};
use crate::clock::{is_time, time_of_day};
use crate::crypto::md5_hex;
use crate::ordering::{
    LastUsed, latest_first, sort_latest_first, sorted_lists_stay, sorting_keeps_the_records,
    sorting_repeats_no_record, used_at_time, used_then,
};
use crate::path::PathStyle;
use crate::text::{
    ascii_lower, first_position, is_blank, joined, lemma_first_position, lemma_found_first,
    lists_text, outcome, reading, trimmed, trimming_is_idempotent,
};

verus! {

/// What the index says of one account.
#[derive(Debug, PartialEq)]
pub struct ZcodeAccountSummary {
    pub id: String,
    pub last_used: i64,
}

/// What a `ZcodeAccountSummary` stands for.
pub struct SummaryView {
    pub id: Seq<char>,
    pub last_used: i64,
}

/// The index of accounts: one summary for each account, and the account that
/// the client's own profile uses.
#[derive(Debug, PartialEq)]
pub struct ZcodeAccountIndex {
    pub accounts: Vec<ZcodeAccountSummary>,
    pub current_account_id: Option<String>,
}

/// What a `ZcodeAccountIndex` stands for.
pub struct IndexView {
    pub accounts: Seq<SummaryView>,
    pub current_account_id: Option<Seq<char>>,
}

impl DeepView for ZcodeAccountSummary {
    type V = SummaryView;

    open spec fn deep_view(&self) -> SummaryView {
        SummaryView { id: self.id@, last_used: self.last_used }
    }
}

impl View for ZcodeAccountIndex {
    type V = IndexView;

    open spec fn view(&self) -> IndexView {
        IndexView {
            accounts: self.accounts.deep_view(),
            current_account_id: self.current_account_id.deep_view(),
        }
    }
}

impl DeepView for ZcodeAccountIndex {
    type V = IndexView;

    open spec fn deep_view(&self) -> IndexView {
        self@
    }
}

impl LastUsed for ZcodeAccountSummary {
    open spec fn used(view: SummaryView) -> i64 {
        view.last_used
    }

    fn used_at(&self) -> (res: i64) {
        self.last_used
    }
}

impl LastUsed for ZcodeAccount {
    open spec fn used(view: AccountView) -> i64 {
        view.last_used
    }

    fn used_at(&self) -> (res: i64) {
        self.last_used
    }
}

impl Default for ZcodeAccountIndex {
    /// The index of no accounts.
    fn default() -> (res: ZcodeAccountIndex)
        ensures
            res@ == empty_index(),
    {
        let res = ZcodeAccountIndex { accounts: Vec::new(), current_account_id: None };
        assert(res@.accounts =~= Seq::<SummaryView>::empty());
        res
    }
}

/// The index of no accounts.
pub open spec fn empty_index() -> IndexView {
    IndexView { accounts: Seq::empty(), current_account_id: None }
}

impl AccountView {
    /// What the index says of the account.
    pub open spec fn summary(self) -> SummaryView {
        SummaryView { id: self.id, last_used: self.last_used }
    }
}

impl ZcodeAccount {
    /// What the index says of the account.
    pub fn summary(&self) -> (res: ZcodeAccountSummary)
        ensures
            res.deep_view() == self@.summary(),
    {
        ZcodeAccountSummary { id: self.id.clone(), last_used: self.last_used }
    }
}

/// The identifiers of the accounts of an index.
pub open spec fn account_ids(accounts: Seq<SummaryView>) -> Seq<Seq<char>> {
    accounts.map_values(|summary: SummaryView| summary.id)
}

/// What is to be read as the index: nothing where there is no file or a blank
/// one, and else its content.
pub open spec fn index_content(read: Option<Result<Seq<char>, Seq<char>>>) -> Result<
    Option<Seq<char>>,
    Seq<char>,
> {
    match read {
        None => Ok(None),
        Some(Err(message)) => Err("读取 ZCode 账号索引失败: "@ + message),
        Some(Ok(content)) => if is_blank(content) {
            Ok(None)
        } else {
            Ok(Some(content))
        },
    }
}

/// What is to be read as the index, out of what reading its file gave.
pub fn index_text(read: Option<Result<String, String>>) -> (res: Result<Option<String>, String>)
    ensures
        outcome(res) == index_content(reading(read)),
{
    match read {
        None => Ok(None),
        Some(Err(message)) => Err(joined("读取 ZCode 账号索引失败: ", message.as_str())),
        Some(Ok(content)) => {
            if content.as_str().trim().is_empty() {
                Ok(None)
            } else {
                Ok(Some(content))
            }
        },
    }
}

/// The index that a file holds, where `parsed` is what its content was parsed
/// into; the empty index where there was nothing to parse.
pub fn load_index(parsed: Option<Result<ZcodeAccountIndex, String>>) -> (res: Result<
    ZcodeAccountIndex,
    String,
>)
    ensures
        outcome(res) == match parsed {
            None => Ok::<IndexView, Seq<char>>(empty_index()),
            Some(Ok(index)) => Ok(index@),
            Some(Err(message)) => Err("解析 ZCode 账号索引失败: "@ + message@),
        },
{
    match parsed {
        None => Ok(ZcodeAccountIndex::default()),
        Some(Ok(index)) => Ok(index),
        Some(Err(message)) => Err(joined("解析 ZCode 账号索引失败: ", message.as_str())),
    }
}

/// An account in its normal form, with the identifier that it gets where it
/// has none.
pub open spec fn prepared(value: AccountView) -> Result<AccountView, Seq<char>> {
    match normalized_provider(value.provider) {
        Err(message) => Err(message),
        Ok(provider) => {
            let email = match normalized(Some(value.email)) {
                Some(email) => email,
                None => unknown_email(),
            };
            let user_id = normalized(value.user_id);
            let tags = match value.tags {
                Some(tags) => tags,
                None => Seq::empty(),
            };
            Ok(
                AccountView {
                    id: if is_blank(value.id) {
                        identifier(provider, account_identity(user_id, Some(email))->0)
                    } else {
                        value.id
                    },
                    provider,
                    email,
                    user_id,
                    display_name: normalized(value.display_name),
                    avatar_url: normalized(value.avatar_url),
                    refresh_token: normalized(value.refresh_token),
                    plan_type: normalized(value.plan_type),
                    tags: normalized_tags(tags),
                    ..value
                },
            )
        },
    }
}

/// An account in its normal form, with the identifier that it gets where it has
/// none.
pub fn prepare_account(value: ZcodeAccount) -> (res: Result<ZcodeAccount, String>)
    ensures
        outcome(res) == prepared(value@),
        res is Ok && is_blank(value@.id) ==> is_safe_id(res->Ok_0@.id),
{
    let provider = match normalize_provider(value.provider.as_str()) {
        Ok(provider) => provider,
        Err(message) => return Err(message),
    };
    let ghost given = value@;
    let mut value = value;
    let email = match normalize_string(Some(value.email.as_str())) {
        Some(email) => email,
        None => "unknown@zcode.local".to_owned(),
    };
    proof {
        lemma_unknown_email_not_blank();
        if !is_blank(given.email) {
            trimming_is_idempotent(given.email);
        }
        assert(!is_blank(email@));
    }
    value.provider = provider;
    value.email = email;
    value.user_id = normalize_optional(&value.user_id);
    value.display_name = normalize_optional(&value.display_name);
    value.avatar_url = normalize_optional(&value.avatar_url);
    value.refresh_token = normalize_optional(&value.refresh_token);
    value.plan_type = normalize_optional(&value.plan_type);
    value.tags = match value.tags {
        Some(tags) => normalize_tags(tags),
        None => {
            let none: Vec<String> = Vec::new();
            assert(none.deep_view() =~= Seq::<Seq<char>>::empty());
            normalize_tags(none)
        },
    };
    if value.id.as_str().trim().is_empty() {
        let user_id = match &value.user_id {
            Some(user_id) => Some(user_id.as_str()),
            None => None,
        };
        value.id = account_id(value.provider.as_str(), user_id, Some(value.email.as_str()));
    }
    Ok(value)
}

/// An account with what is to be kept of the one that is stored already.
pub open spec fn merged(value: AccountView, existing: Option<AccountView>) -> AccountView {
    match existing {
        None => value,
        Some(old) => {
            let with_labels = AccountView {
                tags: if value.tags is None {
                    old.tags
                } else {
                    value.tags
                },
                plan_type: if value.plan_type is None {
                    old.plan_type
                } else {
                    value.plan_type
                },
                created_at: if old.created_at > 0 {
                    old.created_at
                } else {
                    value.created_at
                },
                ..value
            };
            if value.quota_raw is None {
                AccountView {
                    quota_total: old.quota_total,
                    quota_used: old.quota_used,
                    quota_remaining: old.quota_remaining,
                    quota_reset_at: old.quota_reset_at,
                    quota_query_last_error: old.quota_query_last_error,
                    quota_query_last_error_at: old.quota_query_last_error_at,
                    usage_updated_at: old.usage_updated_at,
                    subscription_raw: old.subscription_raw,
                    quota_raw: old.quota_raw,
                    ..with_labels
                }
            } else {
                with_labels
            }
        },
    }
}

/// An account with what is to be kept of the one that is stored already.
pub fn merge_account(value: ZcodeAccount, existing: Option<ZcodeAccount>) -> (res: ZcodeAccount)
    ensures
        res@ == merged(value@, existing.deep_view()),
{
    let mut value = value;
    match existing {
        None => {},
        Some(old) => {
            if value.tags.is_none() {
                value.tags = old.tags;
            }
            if value.plan_type.is_none() {
                value.plan_type = old.plan_type;
            }
            if value.quota_raw.is_none() {
                value.quota_total = old.quota_total;
                value.quota_used = old.quota_used;
                value.quota_remaining = old.quota_remaining;
                value.quota_reset_at = old.quota_reset_at;
                value.quota_query_last_error = old.quota_query_last_error;
                value.quota_query_last_error_at = old.quota_query_last_error_at;
                value.usage_updated_at = old.usage_updated_at;
                value.subscription_raw = old.subscription_raw;
                value.quota_raw = old.quota_raw;
            }
            if old.created_at > 0 {
                value.created_at = old.created_at;
            }
        },
    }
    value
}

/// An account with `now` for each of its times that is not set.
pub open spec fn stamped(value: AccountView, now: i64) -> AccountView {
    AccountView {
        created_at: if value.created_at <= 0 {
            now
        } else {
            value.created_at
        },
        last_used: if value.last_used <= 0 {
            now
        } else {
            value.last_used
        },
        ..value
    }
}

/// The account that is stored for `value` at the time `now`, where `existing`
/// is stored already. Its identifier must be one that can name a file.
pub open spec fn stored_account(value: AccountView, existing: Option<AccountView>, now: i64) -> Result<
    AccountView,
    Seq<char>,
> {
    match prepared(value) {
        Ok(value) => match safe_id(value.id) {
            Ok(_) => Ok(stamped(merged(value, existing), now)),
            Err(message) => Err(message),
        },
        Err(message) => Err(message),
    }
}

/// The summaries of an index with `summary` in the place of the one with its
/// identifier, or behind all others.
pub open spec fn with_summary(accounts: Seq<SummaryView>, summary: SummaryView) -> Seq<SummaryView> {
    match first_position(account_ids(accounts), summary.id) {
        Some(i) => accounts.update(i, summary),
        None => accounts.push(summary),
    }
}

/// Whether `after` is `before` with `summary` put into it and its summaries
/// sorted, the account used last first.
pub open spec fn index_with(before: IndexView, summary: SummaryView, after: IndexView) -> bool {
    &&& after.current_account_id == before.current_account_id
    &&& latest_first::<ZcodeAccountSummary>(
        after.accounts,
        with_summary(before.accounts, summary),
    )
}

/// Puts `summary` into the index.
pub fn put_summary(index: ZcodeAccountIndex, summary: ZcodeAccountSummary) -> (res:
    ZcodeAccountIndex)
    ensures
        index_with(index@, summary.deep_view(), res@),
{
    let ghost before = index.accounts.deep_view();
    let ghost view = summary.deep_view();
    let mut accounts = index.accounts;
    let mut i: usize = 0;
    while i < accounts.len()
        invariant
            i <= accounts@.len(),
            before == accounts.deep_view(),
            before == index@.accounts,
            view == summary.deep_view(),
            forall|k: int| 0 <= k < i ==> (#[trigger] before[k]).id != view.id,
        decreases accounts@.len() - i,
    {
        assert(before[i as int] == accounts@[i as int].deep_view());
        if accounts[i].id == summary.id {
            proof {
                assert(account_ids(before)[i as int] == before[i as int].id);
                assert forall|k: int| 0 <= k < i implies account_ids(before)[k] != view.id by {
                    assert(account_ids(before)[k] == before[k].id);
                }
                lemma_found_first(account_ids(before), view.id, i as int);
            }
            accounts.set(i, summary);
            assert(accounts.deep_view() =~= with_summary(before, view));
            return ZcodeAccountIndex {
                accounts: sort_latest_first(accounts),
                current_account_id: index.current_account_id,
            };
        }
        i = i + 1;
    }
    proof {
        lemma_first_position(account_ids(before), view.id);
        if first_position(account_ids(before), view.id) is Some {
            let k = first_position(account_ids(before), view.id)->0;
            assert(account_ids(before)[k] == before[k].id);
        }
    }
    accounts.push(summary);
    assert(accounts.deep_view() =~= with_summary(before, view));
    ZcodeAccountIndex {
        accounts: sort_latest_first(accounts),
        current_account_id: index.current_account_id,
    }
}

/// Whether `res` is what storing `value` at the time `now` gives: the account to
/// be stored, and the index with its summary.
pub open spec fn upserted(
    value: AccountView,
    existing: Option<AccountView>,
    index: IndexView,
    now: i64,
    res: Result<(ZcodeAccount, ZcodeAccountIndex), String>,
) -> bool {
    match stored_account(value, existing, now) {
        Err(message) => res matches Err(text) && text@ == message,
        Ok(account) => res matches Ok(stored) && stored.0@ == account && index_with(
            index,
            account.summary(),
            stored.1@,
        ),
    }
}

/// What storing `value` at the time `now` gives, where `existing` is what is
/// stored under its identifier already. An account of a known provider that has
/// no identifier of its own is never refused.
pub fn upsert_account_at(
    value: ZcodeAccount,
    existing: Option<ZcodeAccount>,
    index: ZcodeAccountIndex,
    now: i64,
) -> (res: Result<(ZcodeAccount, ZcodeAccountIndex), String>)
    ensures
        upserted(value@, existing.deep_view(), index@, now, res),
        prepared(value@) is Ok && is_blank(value@.id) ==> res is Ok,
{
    let ghost given = value@;
    let value = match prepare_account(value) {
        Ok(value) => value,
        Err(message) => return Err(message),
    };
    proof {
        if is_blank(given.id) {
            safe_identifiers_name_files(PathStyle::Unix, Seq::empty(), value@.id);
        }
    }
    match safe_account_id(value.id.as_str()) {
        Ok(_) => {},
        Err(message) => return Err(message),
    }
    let mut value = merge_account(value, existing);
    if value.created_at <= 0 {
        value.created_at = now;
    }
    if value.last_used <= 0 {
        value.last_used = now;
    }
    let summary = value.summary();
    Ok((value, put_summary(index, summary)))
}

/// `upsert_account_at` with the time of day.
pub fn upsert_account(
    value: ZcodeAccount,
    existing: Option<ZcodeAccount>,
    index: ZcodeAccountIndex,
) -> (res: Result<(ZcodeAccount, ZcodeAccountIndex), String>)
    ensures
        exists|now: i64| is_time(now) && #[trigger]
            upserted(value@, existing.deep_view(), index@, now, res),
        res is Ok <==> prepared(value@) is Ok && safe_id(prepared(value@)->Ok_0.id) is Ok,
        prepared(value@) is Ok && is_blank(value@.id) ==> res is Ok,
{
    upsert_account_at(value, existing, index, time_of_day())
}

/// The accounts that could be loaded, in their order.
pub open spec fn present(loaded: Seq<Option<AccountView>>) -> Seq<AccountView>
    decreases loaded.len(),
{
    if loaded.len() == 0 {
        Seq::empty()
    } else {
        match loaded.last() {
            Some(account) => present(loaded.drop_last()).push(account),
            None => present(loaded.drop_last()),
        }
    }
}

fn present_accounts(loaded: Vec<Option<ZcodeAccount>>) -> (res: Vec<ZcodeAccount>)
    ensures
        res.deep_view() == present(loaded.deep_view()),
{
    let ghost all = loaded.deep_view();
    let mut rest = loaded;
    let mut res: Vec<ZcodeAccount> = Vec::new();
    let ghost mut done: int = 0;
    assert(res.deep_view() =~= present(all.take(0)));
    assert(rest.deep_view() =~= all.skip(0));
    while rest.len() > 0
        invariant
            0 <= done <= all.len(),
            rest.deep_view() == all.skip(done),
            res.deep_view() == present(all.take(done)),
        decreases rest@.len(),
    {
        let ghost waiting = rest.deep_view();
        let ghost before = res.deep_view();
        let next = rest.remove(0);
        proof {
            assert(waiting[0] == next.deep_view());
            assert(all.skip(done)[0] == next.deep_view());
            assert(rest.deep_view() =~= waiting.skip(1));
            assert(waiting.skip(1) =~= all.skip(done + 1));
            assert(all.take(done + 1).drop_last() =~= all.take(done));
            done = done + 1;
        }
        match next {
            Some(account) => {
                res.push(account);
                assert(res.deep_view() =~= before.push(account@));
            },
            None => {},
        }
    }
    assert(all.take(done) =~= all);
    res
}

/// The accounts of the index that could be loaded, the account used last first.
/// `loaded` is what loading each account of the index gave, in the order of the
/// index.
pub fn list_accounts_checked(loaded: Result<Vec<Option<ZcodeAccount>>, String>) -> (res: Result<
    Vec<ZcodeAccount>,
    String,
>)
    ensures
        match loaded {
            Err(message) => res matches Err(text) && text@ == message@,
            Ok(loaded) => res matches Ok(accounts) && latest_first::<ZcodeAccount>(
                accounts.deep_view(),
                present(loaded.deep_view()),
            ),
        },
{
    match loaded {
        Err(message) => Err(message),
        Ok(loaded) => Ok(sort_latest_first(present_accounts(loaded))),
    }
}

/// Whether the identifier of a summary is none of `ids`.
pub open spec fn listed_in_none(ids: Seq<Seq<char>>) -> spec_fn(SummaryView) -> bool {
    |summary: SummaryView| !ids.contains(summary.id)
}

/// An index without the accounts `ids`.
pub open spec fn index_without(index: IndexView, ids: Seq<Seq<char>>) -> IndexView {
    IndexView {
        accounts: index.accounts.filter(listed_in_none(ids)),
        current_account_id: match index.current_account_id {
            Some(id) => if ids.contains(id) {
                None
            } else {
                Some(id)
            },
            None => None,
        },
    }
}

/// Whether the files of all of `ids` can be named: the error of the first that
/// cannot.
pub open spec fn all_name_files(ids: Seq<Seq<char>>) -> Result<(), Seq<char>> {
    if forall|i: int| 0 <= i < ids.len() ==> safe_id(#[trigger] ids[i]) is Ok {
        Ok(())
    } else {
        Err("ZCode 账号 ID 非法"@)
    }
}

fn check_file_names(ids: &[String]) -> (res: Result<(), String>)
    ensures
        outcome(res) == all_name_files(ids.deep_view()),
{
    let mut i: usize = 0;
    while i < ids.len()
        invariant
            i <= ids@.len(),
            forall|k: int| 0 <= k < i ==> safe_id(#[trigger] ids.deep_view()[k]) is Ok,
        decreases ids@.len() - i,
    {
        assert(ids.deep_view()[i as int] == ids@[i as int]@);
        match safe_account_id(ids[i].as_str()) {
            Ok(_) => {},
            Err(message) => return Err(message),
        }
        i = i + 1;
    }
    Ok(())
}

/// The index without the accounts `ids`, which is stored in any case, and
/// whether the files of all of them can be named.
pub fn remove_accounts(index: ZcodeAccountIndex, ids: &[String]) -> (res: (
    ZcodeAccountIndex,
    Result<(), String>,
))
    ensures
        res.0@ == index_without(index@, ids.deep_view()),
        outcome(res.1) == all_name_files(ids.deep_view()),
{
    let named = check_file_names(ids);
    let ghost all = index.accounts.deep_view();
    let ghost kept = listed_in_none(ids.deep_view());
    let mut rest = index.accounts;
    let mut accounts: Vec<ZcodeAccountSummary> = Vec::new();
    let ghost mut done: int = 0;
    proof {
        reveal(Seq::filter);
        assert(accounts.deep_view() =~= all.take(0).filter(kept));
        assert(rest.deep_view() =~= all.skip(0));
    }
    while rest.len() > 0
        invariant
            0 <= done <= all.len(),
            kept == listed_in_none(ids.deep_view()),
            rest.deep_view() == all.skip(done),
            accounts.deep_view() == all.take(done).filter(kept),
        decreases rest@.len(),
    {
        reveal(Seq::filter);
        let ghost waiting = rest.deep_view();
        let ghost before = accounts.deep_view();
        let next = rest.remove(0);
        proof {
            assert(waiting[0] == next.deep_view());
            assert(all.skip(done)[0] == next.deep_view());
            assert(rest.deep_view() =~= waiting.skip(1));
            assert(waiting.skip(1) =~= all.skip(done + 1));
            assert(all.take(done + 1).drop_last() =~= all.take(done));
            done = done + 1;
        }
        if !lists_text(ids, next.id.as_str()) {
            accounts.push(next);
            assert(accounts.deep_view() =~= before.push(next.deep_view()));
        }
    }
    assert(all.take(done) =~= all);
    let current_account_id = match index.current_account_id {
        Some(id) => {
            if lists_text(ids, id.as_str()) {
                None
            } else {
                Some(id)
            }
        },
        None => None,
    };
    (ZcodeAccountIndex { accounts, current_account_id }, named)
}

/// The index without the account `id`, which is stored in any case, and whether
/// its file can be named.
pub fn remove_account(index: ZcodeAccountIndex, id: &str) -> (res: (
    ZcodeAccountIndex,
    Result<(), String>,
))
    ensures
        res.0@ == index_without(index@, seq![id@]),
        outcome(res.1) == match safe_id(id@) {
            Ok(_) => Ok::<(), Seq<char>>(()),
            Err(message) => Err(message),
        },
{
    let mut ids: Vec<String> = Vec::new();
    ids.push(id.to_owned());
    let listed = ids.as_slice();
    assert(listed.deep_view() =~= seq![id@]);
    assert(listed.deep_view()[0] == id@);
    remove_accounts(index, listed)
}

/// The account `loaded` with other tags, as it is to be stored.
pub fn update_account_tags(loaded: Option<ZcodeAccount>, tags: Vec<String>) -> (res: Result<
    ZcodeAccount,
    String,
>)
    ensures
        outcome(res) == match loaded {
            None => Err::<AccountView, Seq<char>>("ZCode 账号不存在"@),
            Some(account) => Ok(
                AccountView { tags: normalized_tags(tags.deep_view()), ..account@ },
            ),
        },
{
    match loaded {
        None => Err("ZCode 账号不存在".to_owned()),
        Some(account) => {
            let mut account = account;
            account.tags = normalize_tags(tags);
            Ok(account)
        },
    }
}

/// The account that the client's own profile uses.
pub fn current_account_id(index: Result<ZcodeAccountIndex, String>) -> (res: Result<
    Option<String>,
    String,
>)
    ensures
        outcome(res) == match index {
            Ok(index) => Ok::<Option<Seq<char>>, Seq<char>>(index@.current_account_id),
            Err(message) => Err(message@),
        },
{
    match index {
        Ok(index) => Ok(index.current_account_id),
        Err(message) => Err(message),
    }
}

/// Whether `res` is what giving `account` to the client's own profile at the
/// time `now` stores: the account as used just now, and the index with its
/// summary and with it as the current account.
pub open spec fn injected(
    account: AccountView,
    existing: Option<AccountView>,
    index: IndexView,
    now: i64,
    res: Result<(ZcodeAccount, ZcodeAccountIndex), String>,
) -> bool {
    match stored_account(AccountView { last_used: now, ..account }, existing, now) {
        Err(message) => res matches Err(text) && text@ == message,
        Ok(account) => res matches Ok(stored) && {
            &&& stored.0@ == account
            &&& stored.1@.current_account_id == Some(account.id)
            &&& latest_first::<ZcodeAccountSummary>(
                stored.1@.accounts,
                with_summary(index.accounts, account.summary()),
            )
        },
    }
}

/// What giving the account `loaded` to the client's own profile at the time
/// `now` stores, where `written` is what writing its credentials file gave and
/// `existing` is what is stored under its identifier.
pub fn inject_to_default_at(
    loaded: Option<ZcodeAccount>,
    written: Result<(), String>,
    existing: Option<ZcodeAccount>,
    index: ZcodeAccountIndex,
    now: i64,
) -> (res: Result<(ZcodeAccount, ZcodeAccountIndex), String>)
    ensures
        match (loaded, written) {
            (None, _) => res matches Err(message) && message@ == "ZCode 账号不存在"@,
            (Some(_), Err(text)) => res matches Err(message) && message@ == text@,
            (Some(account), Ok(_)) => injected(account@, existing.deep_view(), index@, now, res),
        },
{
    let mut account = match loaded {
        None => return Err("ZCode 账号不存在".to_owned()),
        Some(account) => account,
    };
    match written {
        Err(message) => return Err(message),
        Ok(_) => {},
    }
    account.last_used = now;
    match upsert_account_at(account, existing, index, now) {
        Err(message) => Err(message),
        Ok((account, index)) => {
            let mut index = index;
            index.current_account_id = Some(account.id.clone());
            Ok((account, index))
        },
    }
}

/// `inject_to_default_at` with the time of day.
pub fn inject_to_default(
    loaded: Option<ZcodeAccount>,
    written: Result<(), String>,
    existing: Option<ZcodeAccount>,
    index: ZcodeAccountIndex,
) -> (res: Result<(ZcodeAccount, ZcodeAccountIndex), String>)
    ensures
        match (loaded, written) {
            (None, _) => res matches Err(message) && message@ == "ZCode 账号不存在"@,
            (Some(_), Err(text)) => res matches Err(message) && message@ == text@,
            (Some(account), Ok(_)) => exists|now: i64|
                is_time(now) && #[trigger]
                    injected(account@, existing.deep_view(), index@, now, res),
        },
{
    inject_to_default_at(loaded, written, existing, index, time_of_day())
}

/// An account in its normal form is its own normal form.
pub proof fn preparing_is_idempotent(value: AccountView)
    requires
        prepared(value) is Ok,
    ensures
        prepared(prepared(value)->Ok_0) == prepared(value),
{
    let once = prepared(value)->Ok_0;
    normal_providers_stay(value.provider);
    lemma_unknown_email_not_blank();
    trimming_is_idempotent(value.email);
    normalizing_is_idempotent(value.user_id);
    normalizing_is_idempotent(value.display_name);
    normalizing_is_idempotent(value.avatar_url);
    normalizing_is_idempotent(value.refresh_token);
    normalizing_is_idempotent(value.plan_type);
    let tags = match value.tags {
        Some(tags) => tags,
        None => Seq::empty(),
    };
    normalizing_tags_is_idempotent(tags);
    made_identifiers_are_not_blank(
        once.provider,
        account_identity(once.user_id, Some(once.email))->0,
    );
    assert(prepared(once)->Ok_0 == once);
}

/// Storing an account keeps the time at which it was first stored, and leaves
/// no time unset where the clock shows a positive time.
pub proof fn storing_keeps_the_creation_time(
    value: AccountView,
    existing: Option<AccountView>,
    now: i64,
)
    requires
        stored_account(value, existing, now) is Ok,
    ensures
        ({
            let stored = stored_account(value, existing, now)->Ok_0;
            &&& existing is Some && existing->0.created_at > 0 ==> stored.created_at
                == existing->0.created_at
            &&& now > 0 ==> stored.created_at > 0 && stored.last_used > 0
            &&& value.last_used > 0 ==> stored.last_used == value.last_used
        }),
{
}

/// Storing an account without tags leaves the stored ones in place, and storing
/// it without a quota reply leaves the stored quota in place.
pub proof fn storing_keeps_what_is_not_given(value: AccountView, old: AccountView, now: i64)
    requires
        stored_account(value, Some(old), now) is Ok,
    ensures
        ({
            let stored = stored_account(value, Some(old), now)->Ok_0;
            &&& prepared(value)->Ok_0.tags is None ==> stored.tags == old.tags
            &&& normalized(value.plan_type) is None ==> stored.plan_type == old.plan_type
            &&& value.quota_raw is None ==> {
                &&& stored.quota_total == old.quota_total
                &&& stored.quota_used == old.quota_used
                &&& stored.quota_remaining == old.quota_remaining
                &&& stored.quota_reset_at == old.quota_reset_at
                &&& stored.quota_query_last_error == old.quota_query_last_error
                &&& stored.quota_query_last_error_at == old.quota_query_last_error_at
                &&& stored.usage_updated_at == old.usage_updated_at
                &&& stored.subscription_raw == old.subscription_raw
                &&& stored.quota_raw == old.quota_raw
            }
        }),
{
}

/// Whether an account is in its normal form.
pub open spec fn is_normal(account: AccountView) -> bool {
    prepared(account) == Ok::<AccountView, Seq<char>>(account)
}

/// What is stored is in its normal form, where what is stored already is.
pub proof fn stored_accounts_are_normal(
    value: AccountView,
    existing: Option<AccountView>,
    now: i64,
)
    requires
        stored_account(value, existing, now) is Ok,
        existing matches Some(old) ==> is_normal(old),
    ensures
        is_normal(stored_account(value, existing, now)->Ok_0),
{
    preparing_is_idempotent(value);
}

/// An account that is stored has an identifier that names its file.
pub proof fn stored_accounts_name_files(
    value: AccountView,
    existing: Option<AccountView>,
    now: i64,
    style: PathStyle,
    directory: Seq<char>,
)
    requires
        stored_account(value, existing, now) is Ok,
    ensures
        file_of_account(
            style,
            Ok(directory),
            stored_account(value, existing, now)->Ok_0.id,
        ) is Ok,
{
}

/// Storing an account once more as it was stored changes nothing of the account
/// and nothing of the index, whatever the time then is. What was stored before
/// is in its normal form and has one summary for each account, and both times of
/// the account are set.
pub proof fn storing_again_changes_nothing(
    value: AccountView,
    existing: Option<AccountView>,
    now: i64,
    later: i64,
    before: IndexView,
    after: IndexView,
    again: IndexView,
)
    requires
        stored_account(value, existing, now) is Ok,
        existing matches Some(old) ==> is_normal(old),
        stored_account(value, existing, now)->Ok_0.created_at > 0,
        stored_account(value, existing, now)->Ok_0.last_used > 0,
        has_distinct_accounts(before.accounts),
        index_with(before, stored_account(value, existing, now)->Ok_0.summary(), after),
        index_with(after, stored_account(value, existing, now)->Ok_0.summary(), again),
    ensures
        ({
            let stored = stored_account(value, existing, now)->Ok_0;
            stored_account(stored, Some(stored), later) == Ok::<AccountView, Seq<char>>(stored)
        }),
        again == after,
{
    let stored = stored_account(value, existing, now)->Ok_0;
    stored_accounts_are_normal(value, existing, now);
    assert(stored_account(stored, Some(stored), later)->Ok_0 == stored);
    storing_again_leaves_the_index(before, stored.summary(), after, again);
}

/// Putting a summary into an index that was sorted with it leaves the index as
/// it is.
pub proof fn storing_again_leaves_the_index(
    before: IndexView,
    summary: SummaryView,
    after: IndexView,
    again: IndexView,
)
    requires
        has_distinct_accounts(before.accounts),
        index_with(before, summary, after),
        index_with(after, summary, again),
    ensures
        again == after,
{
    storing_replaces_one_summary(before, summary, after, summary);
    let ids = account_ids(after.accounts);
    lemma_first_position(ids, summary.id);
    let k = choose|k: int| 0 <= k < after.accounts.len() && after.accounts[k] == summary;
    assert(ids[k] == summary.id);
    assert(ids.contains(summary.id));
    let i = first_position(ids, summary.id)->0;
    assert(ids[i] == after.accounts[i].id);
    assert(i == k);
    assert(with_summary(after.accounts, summary) =~= after.accounts);
    sorted_lists_stay::<ZcodeAccountSummary>(
        after.accounts,
        with_summary(before.accounts, summary),
        again.accounts,
    );
}

/// Whether each account has one summary only.
pub open spec fn has_distinct_accounts(accounts: Seq<SummaryView>) -> bool {
    account_ids(accounts).no_duplicates()
}

/// Storing an account gives it exactly one summary and leaves the summaries of
/// the other accounts as they were.
pub proof fn storing_replaces_one_summary(
    before: IndexView,
    summary: SummaryView,
    after: IndexView,
    other: SummaryView,
)
    requires
        index_with(before, summary, after),
        has_distinct_accounts(before.accounts),
    ensures
        has_distinct_accounts(after.accounts),
        after.accounts.contains(summary),
        other.id != summary.id ==> (after.accounts.contains(other) <==> before.accounts.contains(
            other,
        )),
        other.id == summary.id && after.accounts.contains(other) ==> other == summary,
        after.current_account_id == before.current_account_id,
{
    let old = before.accounts;
    let put = with_summary(old, summary);
    let ids = account_ids(old);
    lemma_first_position(ids, summary.id);
    let at = match first_position(ids, summary.id) {
        Some(i) => i,
        None => old.len() as int,
    };
    assert(put[at] == summary);
    assert forall|k: int| 0 <= k < old.len() implies ids[k] == old[k].id by {}
    assert forall|i: int, j: int| 0 <= i < put.len() && 0 <= j < put.len() && i != j implies
        account_ids(put)[i] != account_ids(put)[j] by {
        assert(account_ids(put)[i] == put[i].id);
        assert(account_ids(put)[j] == put[j].id);
        if i != at && j != at {
            assert(ids[i] != ids[j]);
        } else {
            let k = if i == at {
                j
            } else {
                i
            };
            assert(put[k] == old[k]);
            assert(ids[k] == old[k].id);
            if first_position(ids, summary.id) is Some {
                assert(ids[at] != ids[k]);
            } else {
                assert(ids.contains(ids[k]));
            }
        }
    }
    lemma_sorting_keeps_accounts_distinct(after.accounts, put);
    sorting_keeps_the_records::<ZcodeAccountSummary>(after.accounts, put, summary);
    sorting_keeps_the_records::<ZcodeAccountSummary>(after.accounts, put, other);
    assert(put.contains(summary));
    if other.id != summary.id {
        if old.contains(other) {
            let k = choose|k: int| 0 <= k < old.len() && old[k] == other;
            assert(ids[k] == other.id);
            assert(put[k] == other);
        }
        if put.contains(other) {
            let k = choose|k: int| 0 <= k < put.len() && put[k] == other;
            assert(old[k] == other);
        }
    } else if put.contains(other) {
        let k = choose|k: int| 0 <= k < put.len() && put[k] == other;
        assert(account_ids(put)[k] == other.id);
        assert(account_ids(put)[at] == summary.id);
        assert(k == at);
    }
}

/// Storing an account adds its identifier to those that the index lists, where
/// it is not among them, and changes nothing of which accounts it lists where it
/// is.
pub proof fn storing_adds_one_identifier(
    before: IndexView,
    summary: SummaryView,
    after: IndexView,
)
    requires
        index_with(before, summary, after),
        has_distinct_accounts(before.accounts),
    ensures
        has_distinct_accounts(after.accounts),
        forall|id: Seq<char>| #[trigger]
            account_ids(after.accounts).contains(id) <==> account_ids(before.accounts).contains(id)
                || id == summary.id,
        after.accounts.len() == before.accounts.len() + if account_ids(before.accounts).contains(
            summary.id,
        ) {
            0int
        } else {
            1int
        },
{
    let old = account_ids(before.accounts);
    let new = account_ids(after.accounts);
    storing_replaces_one_summary(before, summary, after, summary);
    lemma_first_position(old, summary.id);
    sorting_keeps_the_records::<ZcodeAccountSummary>(
        after.accounts,
        with_summary(before.accounts, summary),
        summary,
    );
    assert forall|id: Seq<char>| #[trigger] new.contains(id) <==> old.contains(id) || id
        == summary.id by {
        if new.contains(id) && id != summary.id {
            let k = choose|k: int| 0 <= k < new.len() && new[k] == id;
            let record = after.accounts[k];
            storing_replaces_one_summary(before, summary, after, record);
            assert(after.accounts.contains(record));
            let j = choose|j: int| 0 <= j < before.accounts.len() && before.accounts[j] == record;
            assert(old[j] == id);
        }
        if old.contains(id) && id != summary.id {
            let k = choose|k: int| 0 <= k < old.len() && old[k] == id;
            let record = before.accounts[k];
            storing_replaces_one_summary(before, summary, after, record);
            assert(before.accounts.contains(record));
            let j = choose|j: int| 0 <= j < after.accounts.len() && after.accounts[j] == record;
            assert(new[j] == id);
        }
        if id == summary.id {
            let k = choose|k: int| 0 <= k < after.accounts.len() && after.accounts[k] == summary;
            assert(new[k] == id);
        }
    }
}

proof fn lemma_sorting_keeps_accounts_distinct(
    sorted: Seq<SummaryView>,
    items: Seq<SummaryView>,
)
    requires
        latest_first::<ZcodeAccountSummary>(sorted, items),
        has_distinct_accounts(items),
    ensures
        has_distinct_accounts(sorted),
{
    assert forall|i: int, j: int| 0 <= i < items.len() && 0 <= j < items.len() && i != j implies
        items[i] != items[j] by {
        assert(account_ids(items)[i] != account_ids(items)[j]);
    }
    sorting_repeats_no_record::<ZcodeAccountSummary>(sorted, items);
    assert forall|i: int, j: int| 0 <= i < sorted.len() && 0 <= j < sorted.len() && i != j implies
        account_ids(sorted)[i] != account_ids(sorted)[j] by {
        assert(sorted[i] != sorted[j]);
        sorting_keeps_the_records::<ZcodeAccountSummary>(sorted, items, sorted[i]);
        sorting_keeps_the_records::<ZcodeAccountSummary>(sorted, items, sorted[j]);
        let a = choose|a: int| 0 <= a < items.len() && items[a] == sorted[i];
        let b = choose|b: int| 0 <= b < items.len() && items[b] == sorted[j];
        assert(account_ids(items)[a] != account_ids(items)[b]);
    }
}

/// After accounts are removed none of them has a summary or is the current
/// account, and all others are as they were.
pub proof fn removed_accounts_are_gone(
    index: IndexView,
    ids: Seq<Seq<char>>,
    summary: SummaryView,
)
    ensures
        ({
            let left = index_without(index, ids);
            &&& left.accounts.contains(summary) <==> index.accounts.contains(summary)
                && !ids.contains(summary.id)
            &&& left.current_account_id is Some ==> !ids.contains(left.current_account_id->0)
            &&& index.current_account_id is Some && !ids.contains(index.current_account_id->0)
                ==> left.current_account_id == index.current_account_id
            &&& index_without(left, ids) == left
            &&& has_distinct_accounts(index.accounts) ==> has_distinct_accounts(left.accounts)
        }),
{
    let kept = listed_in_none(ids);
    let all = index.accounts;
    let left = index_without(index, ids);
    if left.accounts.contains(summary) {
        all.lemma_filter_contains_rev(kept, summary);
        let k = choose|k: int| 0 <= k < left.accounts.len() && left.accounts[k] == summary;
        all.lemma_filter_pred(kept, k);
    }
    if all.contains(summary) && !ids.contains(summary.id) {
        let k = choose|k: int| 0 <= k < all.len() && all[k] == summary;
        all.lemma_filter_contains(kept, k);
    }
    lemma_filter_twice(all, kept);
    if has_distinct_accounts(all) {
        lemma_filter_keeps_accounts_distinct(all, kept);
    }
}

proof fn lemma_filter_twice(accounts: Seq<SummaryView>, kept: spec_fn(SummaryView) -> bool)
    ensures
        accounts.filter(kept).filter(kept) == accounts.filter(kept),
    decreases accounts.len(),
{
    reveal(Seq::filter);
    if accounts.len() > 0 {
        let shorter = accounts.drop_last();
        lemma_filter_twice(shorter, kept);
        if kept(accounts.last()) {
            assert(shorter.filter(kept).push(accounts.last()).drop_last() =~= shorter.filter(kept));
        }
    }
}

proof fn lemma_filter_keeps_accounts_distinct(
    accounts: Seq<SummaryView>,
    kept: spec_fn(SummaryView) -> bool,
)
    requires
        has_distinct_accounts(accounts),
    ensures
        has_distinct_accounts(accounts.filter(kept)),
    decreases accounts.len(),
{
    reveal(Seq::filter);
    let ids = account_ids(accounts);
    if accounts.len() > 0 {
        let shorter = accounts.drop_last();
        assert forall|i: int, j: int|
            0 <= i < shorter.len() && 0 <= j < shorter.len() && i != j implies account_ids(
            shorter,
        )[i] != account_ids(shorter)[j] by {
            assert(ids[i] != ids[j]);
        }
        lemma_filter_keeps_accounts_distinct(shorter, kept);
        let before = shorter.filter(kept);
        let all = accounts.filter(kept);
        if kept(accounts.last()) {
            let last = accounts.len() - 1;
            assert forall|i: int, j: int|
                0 <= i < all.len() && 0 <= j < all.len() && i != j implies account_ids(all)[i]
                != account_ids(all)[j] by {
                let k = if i < before.len() {
                    i
                } else {
                    j
                };
                assert(before.contains(before[k]));
                shorter.lemma_filter_contains_rev(kept, before[k]);
                let a = choose|a: int| 0 <= a < shorter.len() && shorter[a] == before[k];
                assert(ids[a] != ids[last]);
                if i < before.len() && j < before.len() {
                    assert(account_ids(before)[i] != account_ids(before)[j]);
                }
            }
        }
    }
}

/// Giving an account to the client's own profile makes it the current account,
/// and the index lists it.
pub proof fn the_current_account_is_listed(
    account: AccountView,
    existing: Option<AccountView>,
    index: IndexView,
    now: i64,
    res: Result<(ZcodeAccount, ZcodeAccountIndex), String>,
)
    requires
        injected(account, existing, index, now, res),
        res is Ok,
    ensures
        res->Ok_0.1@.current_account_id == Some(res->Ok_0.0@.id),
        account_ids(res->Ok_0.1@.accounts).contains(res->Ok_0.0@.id),
{
    let summary = res->Ok_0.0@.summary();
    let after = res->Ok_0.1@.accounts;
    let put = with_summary(index.accounts, summary);
    lemma_first_position(account_ids(index.accounts), summary.id);
    let at = match first_position(account_ids(index.accounts), summary.id) {
        Some(i) => i,
        None => index.accounts.len() as int,
    };
    assert(put[at] == summary);
    assert(put.contains(summary));
    sorting_keeps_the_records::<ZcodeAccountSummary>(after, put, summary);
    let k = choose|k: int| 0 <= k < after.len() && after[k] == summary;
    assert(account_ids(after)[k] == summary.id);
}

/// Whenever an account is stored, its tokens, its expiry and its user's data are
/// those given; its user, its names, its picture and its refresh token are those
/// given without the white space around them, and missing only where they were
/// missing or blank.
pub proof fn storing_keeps_what_is_given(
    value: AccountView,
    existing: Option<AccountView>,
    now: i64,
)
    requires
        stored_account(value, existing, now) is Ok,
    ensures
        ({
            let stored = stored_account(value, existing, now)->Ok_0;
            let keeps = |given: Option<Seq<char>>, kept: Option<Seq<char>>|
                if given is Some && trimmed(given->0).len() > 0 {
                    kept == Some(trimmed(given->0))
                } else {
                    kept is None
                };
            &&& stored.access_token == value.access_token
            &&& stored.zcode_jwt_token == value.zcode_jwt_token
            &&& stored.expires_at == value.expires_at
            &&& stored.user_info_raw == value.user_info_raw
            &&& keeps(value.refresh_token, stored.refresh_token)
            &&& keeps(value.user_id, stored.user_id)
            &&& keeps(value.display_name, stored.display_name)
            &&& keeps(value.avatar_url, stored.avatar_url)
            &&& stored.provider == ascii_lower(trimmed(value.provider))
            &&& trimmed(value.email).len() > 0 ==> stored.email == trimmed(value.email)
            &&& trimmed(value.email).len() == 0 ==> stored.email == "unknown@zcode.local"@
        }),
{
}

/// A stored account keeps the identifier that it was given. One without gets
/// `zcode_` and the digest of its provider and its user, or its address where it
/// has no user.
pub proof fn stored_accounts_have_their_identifier(
    value: AccountView,
    existing: Option<AccountView>,
    now: i64,
)
    requires
        stored_account(value, existing, now) is Ok,
    ensures
        ({
            let stored = stored_account(value, existing, now)->Ok_0;
            let has_user = value.user_id is Some && trimmed(value.user_id->0).len() > 0;
            let identity = if has_user {
                trimmed(value.user_id->0)
            } else if trimmed(value.email).len() > 0 {
                trimmed(value.email)
            } else {
                "unknown@zcode.local"@
            };
            &&& trimmed(value.id).len() > 0 ==> stored.id == value.id
            &&& trimmed(value.id).len() == 0 ==> stored.id == "zcode_"@ + md5_hex(
                encode_utf8(ascii_lower(trimmed(value.provider)) + ":"@ + identity),
            )
        }),
{
    lemma_unknown_email_not_blank();
    trimming_is_idempotent(value.email);
    if value.user_id is Some {
        trimming_is_idempotent(value.user_id->0);
    }
}

/// Storing gives an account the tags and the plan that were given, in their
/// normal form, and those that it had where none were given; the same holds of
/// the quota, which counts as given where the reply of the service came with it.
pub proof fn storing_replaces_what_is_given(
    value: AccountView,
    existing: Option<AccountView>,
    now: i64,
)
    requires
        stored_account(value, existing, now) is Ok,
    ensures
        ({
            let stored = stored_account(value, existing, now)->Ok_0;
            let names_tags = value.tags is Some && exists|k: int|
                0 <= k < value.tags->0.len() && !is_blank(#[trigger] value.tags->0[k]);
            let names_plan = value.plan_type is Some && trimmed(value.plan_type->0).len() > 0;
            let quota = if value.quota_raw is None && existing is Some {
                existing->0
            } else {
                value
            };
            &&& names_tags ==> stored.tags == Some(distinct_tags(value.tags->0))
            &&& !names_tags && existing is Some ==> stored.tags == existing->0.tags
            &&& !names_tags && existing is None ==> stored.tags is None
            &&& names_plan ==> stored.plan_type == Some(trimmed(value.plan_type->0))
            &&& !names_plan && existing is Some ==> stored.plan_type == existing->0.plan_type
            &&& !names_plan && existing is None ==> stored.plan_type is None
            &&& stored.quota_total == quota.quota_total
            &&& stored.quota_used == quota.quota_used
            &&& stored.quota_remaining == quota.quota_remaining
            &&& stored.quota_reset_at == quota.quota_reset_at
            &&& stored.quota_query_last_error == quota.quota_query_last_error
            &&& stored.quota_query_last_error_at == quota.quota_query_last_error_at
            &&& stored.usage_updated_at == quota.usage_updated_at
            &&& stored.subscription_raw == quota.subscription_raw
            &&& stored.quota_raw == quota.quota_raw
        }),
{
    if value.tags is Some {
        tags_are_added_in_turn(value.tags->0, Seq::empty());
    } else {
        assert(distinct_tags(Seq::empty()).len() == 0);
    }
}

/// The time at which an account was first stored stays, then counts the one that
/// was given, and then the time of day; of its last use the one that was given
/// counts, and then the time of day.
pub proof fn stored_times_are_set(
    value: AccountView,
    existing: Option<AccountView>,
    now: i64,
)
    requires
        stored_account(value, existing, now) is Ok,
    ensures
        ({
            let stored = stored_account(value, existing, now)->Ok_0;
            let was_stored = existing is Some && existing->0.created_at > 0;
            &&& was_stored ==> stored.created_at == existing->0.created_at
            &&& !was_stored && value.created_at > 0 ==> stored.created_at == value.created_at
            &&& !was_stored && value.created_at <= 0 ==> stored.created_at == now
            &&& value.last_used > 0 ==> stored.last_used == value.last_used
            &&& value.last_used <= 0 ==> stored.last_used == now
        }),
{
}

/// Storing an account with an identifier of its own succeeds if and only if its
/// provider is one of the two and the identifier can name a file; the provider
/// is looked at first.
pub proof fn storing_succeeds_for_known_providers(
    value: AccountView,
    existing: Option<AccountView>,
    now: i64,
)
    requires
        trimmed(value.id).len() > 0,
    ensures
        ({
            let provider = ascii_lower(trimmed(value.provider));
            let stored = stored_account(value, existing, now);
            if provider != "zai"@ && provider != "bigmodel"@ {
                stored == Err::<AccountView, Seq<char>>("不支持的 ZCode OAuth provider"@)
            } else if safe_id(value.id) is Err {
                stored == Err::<AccountView, Seq<char>>("ZCode 账号 ID 非法"@)
            } else {
                stored is Ok
            }
        }),
{
}

/// The summary of an account tells its identifier and its last use. It takes the
/// place of the first summary with its identifier, or stands behind all others
/// where there is none.
pub proof fn summaries_are_replaced_in_place(
    accounts: Seq<SummaryView>,
    account: AccountView,
    at: int,
)
    ensures
        account.summary().id == account.id,
        account.summary().last_used == account.last_used,
        0 <= at < accounts.len() && accounts[at].id == account.id && (forall|k: int|
            0 <= k < at ==> (#[trigger] accounts[k]).id != account.id) ==> with_summary(
            accounts,
            account.summary(),
        ) == accounts.update(at, account.summary()),
        (forall|k: int| 0 <= k < accounts.len() ==> (#[trigger] accounts[k]).id != account.id)
            ==> with_summary(accounts, account.summary()) == accounts.push(account.summary()),
{
    let ids = account_ids(accounts);
    assert forall|k: int| 0 <= k < accounts.len() implies #[trigger] ids[k] == accounts[k].id by {}
    lemma_first_position(ids, account.id);
    if 0 <= at < accounts.len() && accounts[at].id == account.id && (forall|k: int|
        0 <= k < at ==> (#[trigger] accounts[k]).id != account.id) {
        assert forall|k: int| 0 <= k < at implies ids[k] != account.id by {
            assert(ids[k] == accounts[k].id);
        }
        lemma_found_first(ids, account.id, at);
    }
    if first_position(ids, account.id) is Some {
        assert(accounts[first_position(ids, account.id)->0].id == account.id);
    }
}

/// In a sorted index no account was used later than one before it, the accounts
/// are those that were sorted, and those used at one time keep their order.
pub proof fn sorted_summaries_descend(
    sorted: Seq<SummaryView>,
    items: Seq<SummaryView>,
    i: int,
    j: int,
    time: i64,
)
    requires
        latest_first::<ZcodeAccountSummary>(sorted, items),
    ensures
        0 <= i < j < sorted.len() ==> sorted[i].last_used >= sorted[j].last_used,
        sorted.to_multiset() == items.to_multiset(),
        sorted.filter(|summary: SummaryView| summary.last_used == time) == items.filter(
            |summary: SummaryView| summary.last_used == time,
        ),
{
    if 0 <= i < j < sorted.len() {
        assert(<ZcodeAccountSummary as LastUsed>::used(sorted[i])
            >= <ZcodeAccountSummary as LastUsed>::used(sorted[j]));
    }
    assert(used_at_time::<ZcodeAccountSummary>(time) =~= (|summary: SummaryView|
        summary.last_used == time));
    assert(used_then::<ZcodeAccountSummary>(sorted, time) == used_then::<ZcodeAccountSummary>(
        items,
        time,
    ));
}

/// In a sorted list of accounts none was used later than one before it, the
/// accounts are those that were sorted, and those used at one time keep their
/// order.
pub proof fn sorted_accounts_descend(
    sorted: Seq<AccountView>,
    items: Seq<AccountView>,
    i: int,
    j: int,
    time: i64,
)
    requires
        latest_first::<ZcodeAccount>(sorted, items),
    ensures
        0 <= i < j < sorted.len() ==> sorted[i].last_used >= sorted[j].last_used,
        sorted.to_multiset() == items.to_multiset(),
        sorted.filter(|account: AccountView| account.last_used == time) == items.filter(
            |account: AccountView| account.last_used == time,
        ),
{
    if 0 <= i < j < sorted.len() {
        assert(<ZcodeAccount as LastUsed>::used(sorted[i]) >= <ZcodeAccount as LastUsed>::used(
            sorted[j],
        ));
    }
    assert(used_at_time::<ZcodeAccount>(time) =~= (|account: AccountView|
        account.last_used == time));
    assert(used_then::<ZcodeAccount>(sorted, time) == used_then::<ZcodeAccount>(items, time));
}

/// Storing an account puts its summary into the index, keeps the summary of each
/// other account and which account is the current one, and leaves the latest
/// first.
pub proof fn stored_accounts_are_in_the_index(
    value: AccountView,
    existing: Option<AccountView>,
    index: IndexView,
    now: i64,
    res: Result<(ZcodeAccount, ZcodeAccountIndex), String>,
    other: SummaryView,
    i: int,
    j: int,
)
    requires
        upserted(value, existing, index, now, res),
        account_ids(index.accounts).no_duplicates(),
        res is Ok,
    ensures
        ({
            let account = res->Ok_0.0@;
            let after = res->Ok_0.1@;
            &&& stored_account(value, existing, now) == Ok::<AccountView, Seq<char>>(account)
            &&& after.current_account_id == index.current_account_id
            &&& after.accounts.contains(
                (SummaryView { id: account.id, last_used: account.last_used }),
            )
            &&& other.id == account.id && after.accounts.contains(other) ==> other.last_used
                == account.last_used
            &&& other.id != account.id ==> (after.accounts.contains(other)
                <==> index.accounts.contains(other))
            &&& account_ids(after.accounts).no_duplicates()
            &&& 0 <= i < j < after.accounts.len() ==> after.accounts[i].last_used
                >= after.accounts[j].last_used
        }),
{
    let account = res->Ok_0.0@;
    let after = res->Ok_0.1@;
    storing_replaces_one_summary(index, account.summary(), after, other);
    sorted_summaries_descend(
        after.accounts,
        with_summary(index.accounts, account.summary()),
        i,
        j,
        0,
    );
}

/// An account that is given to the client's own profile is stored as used at
/// that time and otherwise as it is, becomes the current account, and leaves the
/// summaries of the others as they were.
pub proof fn given_accounts_are_current(
    account: AccountView,
    existing: Option<AccountView>,
    index: IndexView,
    now: i64,
    res: Result<(ZcodeAccount, ZcodeAccountIndex), String>,
    other: SummaryView,
)
    requires
        injected(account, existing, index, now, res),
        account_ids(index.accounts).no_duplicates(),
    ensures
        res is Err <==> stored_account(account, existing, now) is Err,
        res matches Err(message) ==> stored_account(account, existing, now) == Err::<
            AccountView,
            Seq<char>,
        >(message@),
        res matches Ok((stored, after)) ==> {
            &&& stored@ == AccountView {
                last_used: now,
                ..stored_account(account, existing, now)->Ok_0
            }
            &&& after@.current_account_id == Some(stored@.id)
            &&& after@.accounts.contains((SummaryView { id: stored@.id, last_used: now }))
            &&& other.id != stored@.id ==> (after@.accounts.contains(other)
                <==> index.accounts.contains(other))
            &&& account_ids(after@.accounts).no_duplicates()
        },
{
    if res is Ok {
        let stored = res->Ok_0.0@;
        let after = res->Ok_0.1@;
        let listed = IndexView {
            accounts: after.accounts,
            current_account_id: index.current_account_id,
        };
        storing_replaces_one_summary(index, stored.summary(), listed, other);
    }
}

/// Removing accounts looks at each summary in turn: it goes if its identifier is
/// one of those named, and stays in its place if not.
pub proof fn removing_looks_at_each_summary(
    index: IndexView,
    summary: SummaryView,
    ids: Seq<Seq<char>>,
)
    ensures
        ({
            let longer = IndexView { accounts: index.accounts.push(summary), ..index };
            let left = index_without(index, ids);
            &&& ids.contains(summary.id) ==> index_without(longer, ids) == left
            &&& !ids.contains(summary.id) ==> index_without(longer, ids).accounts
                == left.accounts.push(summary)
            &&& index_without(longer, ids).current_account_id == left.current_account_id
            &&& index.accounts.len() == 0 ==> left.accounts.len() == 0
            &&& match index.current_account_id {
                Some(id) => if ids.contains(id) {
                    left.current_account_id is None
                } else {
                    left.current_account_id == Some(id)
                },
                None => left.current_account_id is None,
            }
        }),
{
    reveal(Seq::filter);
    assert(index.accounts.push(summary).drop_last() =~= index.accounts);
}

/// Removing accounts reports an error if and only if one of the identifiers can
/// name no file.
pub proof fn removing_reports_bad_identifiers(ids: Seq<Seq<char>>)
    ensures
        (exists|i: int| 0 <= i < ids.len() && safe_id(#[trigger] ids[i]) is Err) ==> all_name_files(
            ids,
        ) == Err::<(), Seq<char>>("ZCode 账号 ID 非法"@),
        (forall|i: int| 0 <= i < ids.len() ==> safe_id(#[trigger] ids[i]) is Ok) ==> all_name_files(
            ids,
        ) is Ok,
{
}

/// Each account that could be loaded is listed, in its place among the others,
/// and nothing is listed for one that could not.
pub proof fn loaded_accounts_are_listed(
    loaded: Seq<Option<AccountView>>,
    next: Option<AccountView>,
)
    ensures
        present(Seq::empty()).len() == 0,
        next is None ==> present(loaded.push(next)) == present(loaded),
        next is Some ==> present(loaded.push(next)) == present(loaded).push(next->0),
{
    assert(loaded.push(next).drop_last() =~= loaded);
}

/// The index is read from its file where that holds more than white space; where
/// there is no such file nothing is read, and where reading failed that is the
/// error. An index out of nothing lists no account and has no current one.
pub proof fn indexes_are_read_from_their_file(content: Seq<char>, message: Seq<char>)
    ensures
        index_content(None) == Ok::<Option<Seq<char>>, Seq<char>>(None),
        trimmed(content).len() == 0 ==> index_content(Some(Ok(content))) == Ok::<
            Option<Seq<char>>,
            Seq<char>,
        >(None),
        trimmed(content).len() > 0 ==> index_content(Some(Ok(content))) == Ok::<
            Option<Seq<char>>,
            Seq<char>,
        >(Some(content)),
        index_content(Some(Err(message))) == Err::<Option<Seq<char>>, Seq<char>>(
            "读取 ZCode 账号索引失败: "@ + message,
        ),
        empty_index().accounts.len() == 0,
        empty_index().current_account_id is None,
{
}

/// What is seen of an index is the index: the identifier and the last use of
/// each account in its place, and the current account.
pub proof fn indexes_are_seen_whole(index: ZcodeAccountIndex, i: int)
    ensures
        index@.accounts.len() == index.accounts@.len(),
        index@.current_account_id == index.current_account_id.deep_view(),
        0 <= i < index.accounts@.len() ==> {
            &&& index@.accounts[i].id == index.accounts@[i].id@
            &&& index@.accounts[i].last_used == index.accounts@[i].last_used
            &&& account_ids(index@.accounts)[i] == index.accounts@[i].id@
        },
{
}

/// Loading the index gives what its file was parsed into, the empty index where
/// there was nothing to parse, and else says what failed.
pub proof fn indexes_are_loaded(
    index: ZcodeAccountIndex,
    message: String,
    content: String,
    loaded: Result<ZcodeAccountIndex, String>,
    empty: Result<ZcodeAccountIndex, String>,
    broken: Result<ZcodeAccountIndex, String>,
    nothing: Result<Option<String>, String>,
    unread: Result<Option<String>, String>,
    text: Result<Option<String>, String>,
)
    requires
        call_ensures(load_index, (Some(Ok(index)),), loaded),
        call_ensures(load_index, (None,), empty),
        call_ensures(load_index, (Some(Err(message)),), broken),
        call_ensures(index_text, (None,), nothing),
        call_ensures(index_text, (Some(Err(message)),), unread),
        call_ensures(index_text, (Some(Ok(content)),), text),
    ensures
        loaded is Ok && loaded->Ok_0@ == index@,
        empty is Ok && empty->Ok_0@.accounts.len() == 0 && empty->Ok_0@.current_account_id is None,
        broken is Err && broken->Err_0@ == "解析 ZCode 账号索引失败: "@ + message@,
        nothing is Ok && nothing->Ok_0 is None,
        unread is Err && unread->Err_0@ == "读取 ZCode 账号索引失败: "@ + message@,
        text is Ok,
        trimmed(content@).len() == 0 ==> text->Ok_0 is None,
        trimmed(content@).len() > 0 ==> text->Ok_0 is Some && text->Ok_0->0@ == content@,
{
    assert(reading(None) is None);
    assert(reading(Some(Err(message))) == Some(Err::<Seq<char>, Seq<char>>(message@)));
    assert(reading(Some(Ok(content))) == Some(Ok::<Seq<char>, Seq<char>>(content@)));
}

/// Storing an account at a given time keeps its tokens, its user's data and its
/// names, and puts its summary into the index, which keeps those of the others.
pub proof fn upserting_keeps_the_account(
    value: ZcodeAccount,
    existing: Option<ZcodeAccount>,
    index: ZcodeAccountIndex,
    now: i64,
    res: Result<(ZcodeAccount, ZcodeAccountIndex), String>,
    other: SummaryView,
)
    requires
        call_ensures(upsert_account_at, (value, existing, index, now), res),
        account_ids(index@.accounts).no_duplicates(),
    ensures
        ({
            let provider = ascii_lower(trimmed(value.provider@));
            let is_known = provider == "zai"@ || provider == "bigmodel"@;
            &&& !is_known ==> res is Err && res->Err_0@ == "不支持的 ZCode OAuth provider"@
            &&& is_known && trimmed(value.id@).len() == 0 ==> res is Ok
            &&& is_known && trimmed(value.id@).len() > 0 ==> (res is Ok <==> safe_id(value.id@) is Ok)
            &&& is_known && res is Err ==> res->Err_0@ == "ZCode 账号 ID 非法"@
        }),
        res matches Ok((stored, after)) ==> {
            let keeps = |given: Option<Seq<char>>, kept: Option<Seq<char>>|
                if given is Some && trimmed(given->0).len() > 0 {
                    kept == Some(trimmed(given->0))
                } else {
                    kept is None
                };
            &&& stored@.access_token == value@.access_token
            &&& stored@.zcode_jwt_token == value@.zcode_jwt_token
            &&& stored@.expires_at == value@.expires_at
            &&& stored@.user_info_raw == value@.user_info_raw
            &&& keeps(value@.refresh_token, stored@.refresh_token)
            &&& keeps(value@.user_id, stored@.user_id)
            &&& keeps(value@.display_name, stored@.display_name)
            &&& keeps(value@.avatar_url, stored@.avatar_url)
            &&& after@.current_account_id == index@.current_account_id
            &&& after@.accounts.contains(
                (SummaryView { id: stored@.id, last_used: stored@.last_used }),
            )
            &&& other.id != stored@.id ==> (after@.accounts.contains(other)
                <==> index@.accounts.contains(other))
            &&& account_ids(after@.accounts).no_duplicates()
        },
{
    if res is Ok {
        storing_keeps_what_is_given(value@, existing.deep_view(), now);
        stored_accounts_are_in_the_index(
            value@,
            existing.deep_view(),
            index@,
            now,
            res,
            other,
            0,
            0,
        );
    }
    two_providers_are_known(value@.provider);
}

/// Storing an account at the time of day keeps the same of it, and comes to what
/// storing it at some time does.
pub proof fn upserting_at_the_time_of_day_keeps_the_account(
    value: ZcodeAccount,
    existing: Option<ZcodeAccount>,
    index: ZcodeAccountIndex,
    res: Result<(ZcodeAccount, ZcodeAccountIndex), String>,
)
    requires
        call_ensures(upsert_account, (value, existing, index), res),
    ensures
        exists|now: i64| is_time(now) && #[trigger]
            upserted(value@, existing.deep_view(), index@, now, res),
        res matches Ok((stored, after)) ==> {
            let token = value@.refresh_token;
            &&& stored@.access_token == value@.access_token
            &&& stored@.zcode_jwt_token == value@.zcode_jwt_token
            &&& stored@.user_info_raw == value@.user_info_raw
            &&& token is Some && trimmed(token->0).len() > 0 ==> stored@.refresh_token == Some(
                trimmed(token->0),
            )
            &&& token is None || trimmed(token->0).len() == 0 ==> stored@.refresh_token is None
            &&& trimmed(value@.id).len() > 0 ==> stored@.id == value@.id
            &&& after@.current_account_id == index@.current_account_id
        },
        res is Err ==> {
            let provider = ascii_lower(trimmed(value.provider@));
            if provider == "zai"@ || provider == "bigmodel"@ {
                res->Err_0@ == "ZCode 账号 ID 非法"@
            } else {
                res->Err_0@ == "不支持的 ZCode OAuth provider"@
            }
        },
{
    let now = choose|now: i64| is_time(now) && #[trigger]
        upserted(value@, existing.deep_view(), index@, now, res);
    if res is Ok {
        storing_keeps_what_is_given(value@, existing.deep_view(), now);
        stored_accounts_have_their_identifier(value@, existing.deep_view(), now);
    }
    two_providers_are_known(value@.provider);
}

/// Merging an account with the stored one keeps what was given of it, and of the
/// stored one what was not given.
pub proof fn merging_keeps_what_is_given(
    value: ZcodeAccount,
    old: ZcodeAccount,
    alone: ZcodeAccount,
    both: ZcodeAccount,
)
    requires
        call_ensures(merge_account, (value, None), alone),
        call_ensures(merge_account, (value, Some(old)), both),
    ensures
        alone@ == value@,
        both@.id == value@.id,
        both@.access_token == value@.access_token,
        both@.refresh_token == value@.refresh_token,
        both@.zcode_jwt_token == value@.zcode_jwt_token,
        both@.user_info_raw == value@.user_info_raw,
        both@.last_used == value@.last_used,
        both@.tags == if value@.tags is Some {
            value@.tags
        } else {
            old@.tags
        },
        both@.plan_type == if value@.plan_type is Some {
            value@.plan_type
        } else {
            old@.plan_type
        },
        both@.created_at == if old@.created_at > 0 {
            old@.created_at
        } else {
            value@.created_at
        },
        both@.quota_raw == if value@.quota_raw is Some {
            value@.quota_raw
        } else {
            old@.quota_raw
        },
        value@.quota_raw is Some ==> both@.quota_total == value@.quota_total && both@.quota_used
            == value@.quota_used && both@.quota_remaining == value@.quota_remaining
            && both@.quota_reset_at == value@.quota_reset_at,
        value@.quota_raw is None ==> both@.quota_total == old@.quota_total && both@.quota_used
            == old@.quota_used && both@.quota_remaining == old@.quota_remaining
            && both@.quota_reset_at == old@.quota_reset_at,
{
}

/// An account in its normal form has a known provider, an address, and else what
/// was given without the white space around it.
pub proof fn prepared_accounts_keep_what_is_given(
    value: ZcodeAccount,
    res: Result<ZcodeAccount, String>,
)
    requires
        call_ensures(prepare_account, (value,), res),
    ensures
        res is Ok <==> ascii_lower(trimmed(value.provider@)) == "zai"@ || ascii_lower(
            trimmed(value.provider@),
        ) == "bigmodel"@,
        res is Err ==> res->Err_0@ == "不支持的 ZCode OAuth provider"@,
        res matches Ok(account) ==> {
            let keeps = |given: Option<Seq<char>>, kept: Option<Seq<char>>|
                if given is Some && trimmed(given->0).len() > 0 {
                    kept == Some(trimmed(given->0))
                } else {
                    kept is None
                };
            &&& account@.provider == ascii_lower(trimmed(value@.provider))
            &&& keeps(value@.refresh_token, account@.refresh_token)
            &&& keeps(value@.user_id, account@.user_id)
            &&& keeps(value@.display_name, account@.display_name)
            &&& keeps(value@.avatar_url, account@.avatar_url)
            &&& keeps(value@.plan_type, account@.plan_type)
            &&& account@.access_token == value@.access_token
            &&& account@.zcode_jwt_token == value@.zcode_jwt_token
            &&& account@.user_info_raw == value@.user_info_raw
            &&& account@.expires_at == value@.expires_at
            &&& account@.created_at == value@.created_at
            &&& account@.last_used == value@.last_used
            &&& account@.quota_raw == value@.quota_raw
            &&& trimmed(value@.id).len() > 0 ==> account@.id == value@.id
            &&& trimmed(value@.id).len() == 0 ==> is_safe_id(account@.id)
        },
{
    two_providers_are_known(value@.provider);
}

/// Listing the accounts gives each that could be loaded once, the latest first;
/// the error of loading the index is that of listing.
pub proof fn listings_hold_the_loaded_accounts(
    loaded: Vec<Option<ZcodeAccount>>,
    message: String,
    res: Result<Vec<ZcodeAccount>, String>,
    failed: Result<Vec<ZcodeAccount>, String>,
    i: int,
    j: int,
)
    requires
        call_ensures(list_accounts_checked, (Ok(loaded),), res),
        call_ensures(list_accounts_checked, (Err(message),), failed),
    ensures
        failed is Err && failed->Err_0@ == message@,
        res is Ok,
        res->Ok_0.deep_view().to_multiset() == present(loaded.deep_view()).to_multiset(),
        0 <= i < j < res->Ok_0@.len() ==> res->Ok_0@[i].last_used >= res->Ok_0@[j].last_used,
{
    let listed = res->Ok_0.deep_view();
    sorted_accounts_descend(listed, present(loaded.deep_view()), i, j, 0);
    assert(listed.len() == res->Ok_0@.len());
    if 0 <= i < j < listed.len() {
        assert(listed[i] == res->Ok_0@[i]@ && listed[j] == res->Ok_0@[j]@);
    }
}

/// Removing accounts takes the summaries of those named out of the index, and the
/// current account where it is named, keeps all others in their order, and says
/// whether each identifier can name a file.
pub proof fn removals_take_the_named_accounts(
    index: ZcodeAccountIndex,
    ids: &[String],
    id: &str,
    many: (ZcodeAccountIndex, Result<(), String>),
    one: (ZcodeAccountIndex, Result<(), String>),
)
    requires
        call_ensures(remove_accounts, (index, ids), many),
        call_ensures(remove_account, (index, id), one),
    ensures
        many.0@.accounts == index@.accounts.filter(
            |summary: SummaryView| !ids.deep_view().contains(summary.id),
        ),
        one.0@.accounts == index@.accounts.filter(|summary: SummaryView| summary.id != id@),
        ({
            let current = index@.current_account_id;
            &&& current is Some && ids.deep_view().contains(current->0)
                ==> many.0@.current_account_id is None
            &&& current is None || !ids.deep_view().contains(current->0)
                ==> many.0@.current_account_id == current
            &&& current == Some(id@) ==> one.0@.current_account_id is None
            &&& current != Some(id@) ==> one.0@.current_account_id == current
        }),
        many.1 is Ok <==> forall|i: int|
            0 <= i < ids@.len() ==> safe_id((#[trigger] ids@[i])@) is Ok,
        many.1 is Err ==> many.1->Err_0@ == "ZCode 账号 ID 非法"@,
        one.1 is Ok <==> safe_id(id@) is Ok,
        one.1 is Err ==> one.1->Err_0@ == "ZCode 账号 ID 非法"@,
{
    let named = ids.deep_view();
    assert(listed_in_none(named) =~= (|summary: SummaryView| !named.contains(summary.id)));
    let only = seq![id@];
    assert(only[0] == id@);
    assert forall|text: Seq<char>| #[trigger] only.contains(text) <==> text == id@ by {
        if text == id@ {
            assert(only[0] == text);
        }
    }
    assert(listed_in_none(only) =~= (|summary: SummaryView| summary.id != id@));
    assert forall|i: int| 0 <= i < ids@.len() implies named[i] == (#[trigger] ids@[i])@ by {}
    assert forall|i: int| 0 <= i < named.len() implies #[trigger] named[i] == ids@[i]@ by {}
}

/// Changing the tags of an account changes nothing else of it; an account that
/// is not there is an error.
pub proof fn tags_alone_are_changed(
    account: ZcodeAccount,
    tags: Vec<String>,
    res: Result<ZcodeAccount, String>,
    missed: Result<ZcodeAccount, String>,
)
    requires
        call_ensures(update_account_tags, (Some(account), tags), res),
        call_ensures(update_account_tags, (None, tags), missed),
    ensures
        missed is Err && missed->Err_0@ == "ZCode 账号不存在"@,
        res is Ok,
        res->Ok_0@ == (AccountView { tags: res->Ok_0@.tags, ..account@ }),
        (exists|k: int| 0 <= k < tags@.len() && !is_blank((#[trigger] tags@[k])@))
            ==> res->Ok_0@.tags == Some(distinct_tags(tags.deep_view())),
        (forall|k: int| 0 <= k < tags@.len() ==> is_blank((#[trigger] tags@[k])@))
            ==> res->Ok_0@.tags is None,
{
    let given = tags.deep_view();
    tags_are_added_in_turn(given, Seq::empty());
    assert forall|k: int| 0 <= k < tags@.len() implies given[k] == (#[trigger] tags@[k])@ by {}
    assert forall|k: int| 0 <= k < given.len() implies #[trigger] given[k] == tags@[k]@ by {}
    if exists|k: int| 0 <= k < tags@.len() && !is_blank((#[trigger] tags@[k])@) {
        let k = choose|k: int| 0 <= k < tags@.len() && !is_blank((#[trigger] tags@[k])@);
        assert(!is_blank(given[k]));
    }
}

/// The current account is the one that the index names.
pub proof fn the_current_account_is_named_by_the_index(
    index: ZcodeAccountIndex,
    message: String,
    res: Result<Option<String>, String>,
    failed: Result<Option<String>, String>,
)
    requires
        call_ensures(current_account_id, (Ok(index),), res),
        call_ensures(current_account_id, (Err(message),), failed),
    ensures
        res is Ok,
        res->Ok_0 is Some <==> index.current_account_id is Some,
        res->Ok_0 is Some ==> res->Ok_0->0@ == index.current_account_id->0@,
        failed is Err && failed->Err_0@ == message@,
{
    assert(res->Ok_0.deep_view() == index.current_account_id.deep_view());
}

/// An account that was written for the client's own profile becomes the current
/// account, is stored as used at that time, and keeps its tokens. One that is not
/// there, or could not be written, changes nothing.
pub proof fn injected_accounts_become_current(
    account: ZcodeAccount,
    existing: Option<ZcodeAccount>,
    index: ZcodeAccountIndex,
    now: i64,
    message: String,
    res: Result<(ZcodeAccount, ZcodeAccountIndex), String>,
    missed: Result<(ZcodeAccount, ZcodeAccountIndex), String>,
    unwritten: Result<(ZcodeAccount, ZcodeAccountIndex), String>,
    other: SummaryView,
)
    requires
        call_ensures(inject_to_default_at, (Some(account), Ok(()), existing, index, now), res),
        call_ensures(inject_to_default_at, (None, Ok(()), existing, index, now), missed),
        call_ensures(
            inject_to_default_at,
            (Some(account), Err(message), existing, index, now),
            unwritten,
        ),
        account_ids(index@.accounts).no_duplicates(),
    ensures
        missed is Err && missed->Err_0@ == "ZCode 账号不存在"@,
        unwritten is Err && unwritten->Err_0@ == message@,
        res is Ok <==> stored_account(account@, existing.deep_view(), now) is Ok,
        res matches Ok((stored, after)) ==> {
            &&& stored@.last_used == now
            &&& stored@.access_token == account@.access_token
            &&& stored@.zcode_jwt_token == account@.zcode_jwt_token
            &&& stored@.user_info_raw == account@.user_info_raw
            &&& after@.current_account_id == Some(stored@.id)
            &&& after@.accounts.contains((SummaryView { id: stored@.id, last_used: now }))
            &&& other.id != stored@.id ==> (after@.accounts.contains(other)
                <==> index@.accounts.contains(other))
        },
{
    given_accounts_are_current(account@, existing.deep_view(), index@, now, res, other);
    if res is Ok {
        storing_keeps_what_is_given(account@, existing.deep_view(), now);
    }
}

/// The same holds at the time of day.
pub proof fn injected_accounts_become_current_at_the_time_of_day(
    account: ZcodeAccount,
    existing: Option<ZcodeAccount>,
    index: ZcodeAccountIndex,
    message: String,
    res: Result<(ZcodeAccount, ZcodeAccountIndex), String>,
    missed: Result<(ZcodeAccount, ZcodeAccountIndex), String>,
    unwritten: Result<(ZcodeAccount, ZcodeAccountIndex), String>,
)
    requires
        call_ensures(inject_to_default, (Some(account), Ok(()), existing, index), res),
        call_ensures(inject_to_default, (None, Ok(()), existing, index), missed),
        call_ensures(inject_to_default, (Some(account), Err(message), existing, index), unwritten),
        account_ids(index@.accounts).no_duplicates(),
    ensures
        missed is Err && missed->Err_0@ == "ZCode 账号不存在"@,
        unwritten is Err && unwritten->Err_0@ == message@,
        exists|now: i64| is_time(now) && #[trigger]
            injected(account@, existing.deep_view(), index@, now, res),
        res matches Ok((stored, after)) ==> {
            &&& stored@.access_token == account@.access_token
            &&& stored@.zcode_jwt_token == account@.zcode_jwt_token
            &&& after@.current_account_id == Some(stored@.id)
            &&& after@.accounts.contains(
                (SummaryView { id: stored@.id, last_used: stored@.last_used }),
            )
        },
{
    let now = choose|now: i64| is_time(now) && #[trigger]
        injected(account@, existing.deep_view(), index@, now, res);
    if res is Ok {
        given_accounts_are_current(
            account@,
            existing.deep_view(),
            index@,
            now,
            res,
            res->Ok_0.0@.summary(),
        );
        storing_keeps_what_is_given(account@, existing.deep_view(), now);
    }
}

/// A summary that is put into an index takes the place of the one with its
/// identifier or stands behind all others, and the index is then sorted, the
/// latest first.
pub proof fn summaries_are_put_into_the_index(
    account: &ZcodeAccount,
    summary: ZcodeAccountSummary,
    index: ZcodeAccountIndex,
    res: ZcodeAccountIndex,
    i: int,
    j: int,
    time: i64,
)
    requires
        call_ensures(ZcodeAccount::summary, (account,), summary),
        call_ensures(put_summary, (index, summary), res),
    ensures
        summary.id@ == account.id@,
        summary.last_used == account.last_used,
        res@.current_account_id == index@.current_account_id,
        0 <= i < j < res@.accounts.len() ==> res@.accounts[i].last_used
            >= res@.accounts[j].last_used,
        ({
            let put = with_summary(index@.accounts, account@.summary());
            &&& res@.accounts.to_multiset() == put.to_multiset()
            &&& res@.accounts.filter(|one: SummaryView| one.last_used == time) == put.filter(
                |one: SummaryView| one.last_used == time,
            )
        }),
{
    assert(summary.deep_view() == account@.summary());
    sorted_summaries_descend(
        res@.accounts,
        with_summary(index@.accounts, account@.summary()),
        i,
        j,
        time,
    );
}

/// At the time of day, an account without a time of its last use gets the time
/// that the clock showed, one that has such a time keeps it, and one that is
/// given to the client's own profile gets the time in any case.
pub proof fn stored_accounts_get_the_time_of_day(
    value: ZcodeAccount,
    existing: Option<ZcodeAccount>,
    index: ZcodeAccountIndex,
    stored: Result<(ZcodeAccount, ZcodeAccountIndex), String>,
    given: Result<(ZcodeAccount, ZcodeAccountIndex), String>,
)
    requires
        call_ensures(upsert_account, (value, existing, index), stored),
        call_ensures(inject_to_default, (Some(value), Ok(()), existing, index), given),
    ensures
        stored matches Ok((account, _)) ==> {
            &&& value.last_used > 0 ==> account@.last_used == value.last_used
            &&& value.last_used <= 0 ==> is_time(account@.last_used)
            &&& value.created_at <= 0 && existing is None ==> is_time(account@.created_at)
        },
        given matches Ok((account, _)) ==> is_time(account@.last_used),
{
    let at = choose|now: i64| is_time(now) && #[trigger]
        upserted(value@, existing.deep_view(), index@, now, stored);
    if stored is Ok {
        stored_times_are_set(value@, existing.deep_view(), at);
    }
    let then = choose|now: i64| is_time(now) && #[trigger]
        injected(value@, existing.deep_view(), index@, now, given);
    if given is Ok {
        let used = AccountView { last_used: then, ..value@ };
        stored_times_are_set(used, existing.deep_view(), then);
    }
}

}
