//! Taking accounts out of the cockpit and bringing them in.

use vstd::prelude::*;
use vstd::string::*;
use crate::account::{AccountView, ZcodeAccount};
use crate::account_files::{account_identity, identifier};
use crate::index::{
    IndexView, account_ids, has_distinct_accounts, index_with, stored_account,
    storing_adds_one_identifier,
};
use crate::json::{Json, JsonView, json_parse, member, parse_json};
use crate::text::{is_blank, joined, lists_text, outcome, trimmed};

verus! {

/// Whether an account is one of `ids`, or `ids` names none.
pub open spec fn is_selected(ids: Seq<Seq<char>>) -> spec_fn(AccountView) -> bool {
    |account: AccountView| ids.len() == 0 || ids.contains(account.id)
}

/// The accounts among `values` that are to be taken out: those named by
/// `account_ids`, or all where it names none.
pub fn serialize_accounts_for_export(values: Vec<ZcodeAccount>, account_ids: &[String]) -> (res: Vec<
    ZcodeAccount,
>)
    ensures
        res.deep_view() == values.deep_view().filter(is_selected(account_ids.deep_view())),
{
    let ghost all = values.deep_view();
    let ghost selected = is_selected(account_ids.deep_view());
    let mut rest = values;
    let mut res: Vec<ZcodeAccount> = Vec::new();
    let ghost mut done: int = 0;
    proof {
        reveal(Seq::filter);
        assert(res.deep_view() =~= all.take(0).filter(selected));
        assert(rest.deep_view() =~= all.skip(0));
    }
    while rest.len() > 0
        invariant
            0 <= done <= all.len(),
            selected == is_selected(account_ids.deep_view()),
            rest.deep_view() == all.skip(done),
            res.deep_view() == all.take(done).filter(selected),
        decreases rest@.len(),
    {
        reveal(Seq::filter);
        let ghost waiting = rest.deep_view();
        let ghost before = res.deep_view();
        let next = rest.remove(0);
        proof {
            assert(waiting[0] == next.deep_view());
            assert(all.skip(done)[0] == next.deep_view());
            assert(rest.deep_view() =~= waiting.skip(1));
            assert(waiting.skip(1) =~= all.skip(done + 1));
            assert(all.take(done + 1).drop_last() =~= all.take(done));
            assert(account_ids.deep_view().len() == account_ids@.len());
            done = done + 1;
        }
        if account_ids.len() == 0 || lists_text(account_ids, next.id.as_str()) {
            res.push(next);
            assert(res.deep_view() =~= before.push(next.deep_view()));
        }
    }
    assert(all.take(done) =~= all);
    res
}

/// The accounts that are to be taken out, where `listed` is what listing all
/// accounts gave.
pub fn export_accounts(listed: Result<Vec<ZcodeAccount>, String>, account_ids: &[String]) -> (res:
    Result<Vec<ZcodeAccount>, String>)
    ensures
        outcome(res) == match listed {
            Ok(values) => Ok::<Seq<AccountView>, Seq<char>>(
                values.deep_view().filter(is_selected(account_ids.deep_view())),
            ),
            Err(message) => Err(message@),
        },
{
    match listed {
        Ok(values) => Ok(serialize_accounts_for_export(values, account_ids)),
        Err(message) => Err(message),
    }
}

/// Naming no accounts takes all of them out.
pub proof fn naming_none_takes_all(values: Seq<AccountView>)
    ensures
        values.filter(is_selected(Seq::empty())) == values,
    decreases values.len(),
{
    reveal(Seq::filter);
    if values.len() > 0 {
        naming_none_takes_all(values.drop_last());
        assert(values.drop_last().push(values.last()) =~= values);
    } else {
        assert(values.filter(is_selected(Seq::empty())) =~= values);
    }
}

/// An account is taken out if and only if it is there and is named, where any
/// account is named.
pub proof fn named_accounts_are_taken(
    values: Seq<AccountView>,
    ids: Seq<Seq<char>>,
    account: AccountView,
)
    requires
        ids.len() > 0,
    ensures
        values.filter(is_selected(ids)).contains(account) <==> values.contains(account)
            && ids.contains(account.id),
{
    let selected = is_selected(ids);
    let taken = values.filter(selected);
    if taken.contains(account) {
        values.lemma_filter_contains_rev(selected, account);
        let k = choose|k: int| 0 <= k < taken.len() && taken[k] == account;
        values.lemma_filter_pred(selected, k);
    }
    if values.contains(account) && ids.contains(account.id) {
        let k = choose|k: int| 0 <= k < values.len() && values[k] == account;
        values.lemma_filter_contains(selected, k);
    }
}

/// The items that a text to be brought in lists, out of what it was parsed
/// into: an array lists its items, an object those of its array `accounts`, or
/// else itself.
pub open spec fn listed_items(root: Result<JsonView, Seq<char>>) -> Result<
    Seq<JsonView>,
    Seq<char>,
> {
    match root {
        Err(message) => Err("JSON 解析失败: "@ + message),
        Ok(JsonView::Array(items)) => Ok(items),
        Ok(JsonView::Object(members)) => match member(members, "accounts"@) {
            Some(JsonView::Array(items)) => Ok(items),
            _ => Ok(seq![JsonView::Object(members)]),
        },
        Ok(_) => Err("ZCode 导入数据必须是对象或数组"@),
    }
}

/// The items that a text to be brought in lists, where `root` is what it was
/// parsed into.
pub fn items_to_import(root: Result<Json, String>) -> (res: Result<Vec<Json>, String>)
    ensures
        outcome(res) == listed_items(outcome(root)),
{
    let root = match root {
        Ok(root) => root,
        Err(message) => return Err(joined("JSON 解析失败: ", message.as_str())),
    };
    match root.get("accounts") {
        Some(value) => match value.copied() {
            Json::Array(items) => {
                assert(items.deep_view() =~= value@->Array_0);
                return Ok(items);
            },
            _ => {},
        },
        None => {},
    }
    let ghost view = root@;
    match root {
        Json::Array(items) => {
            assert(items.deep_view() =~= view->Array_0);
            Ok(items)
        },
        Json::Object(members) => {
            let mut items: Vec<Json> = Vec::new();
            items.push(Json::Object(members));
            assert(items.deep_view() =~= seq![view]);
            Ok(items)
        },
        _ => Err("ZCode 导入数据必须是对象或数组".to_owned()),
    }
}

/// The items that the text `content` lists.
pub fn import_items(content: &str) -> (res: Result<Vec<Json>, String>)
    ensures
        outcome(res) == listed_items(json_parse(content@)),
{
    items_to_import(parse_json(content))
}

/// An account to be brought in, out of what an item was decoded into. It needs
/// its tokens, and it gets its identifier anew.
pub open spec fn imported(decoded: Result<AccountView, Seq<char>>) -> Result<
    AccountView,
    Seq<char>,
> {
    match decoded {
        Err(message) => Err("ZCode 导入账号格式无效: "@ + message),
        Ok(account) => if is_blank(account.access_token) || is_blank(account.zcode_jwt_token) {
            Err("ZCode 导入账号缺少必要 Token"@)
        } else {
            Ok(AccountView { id: Seq::empty(), ..account })
        },
    }
}

/// The accounts to be brought in, or the first error.
pub open spec fn all_imported(decoded: Seq<Result<AccountView, Seq<char>>>) -> Result<
    Seq<AccountView>,
    Seq<char>,
>
    decreases decoded.len(),
{
    if decoded.len() == 0 {
        Ok(Seq::empty())
    } else {
        match (all_imported(decoded.drop_last()), imported(decoded.last())) {
            (Err(message), _) => Err(message),
            (Ok(_), Err(message)) => Err(message),
            (Ok(before), Ok(account)) => Ok(before.push(account)),
        }
    }
}

/// What the results in a list stand for.
pub open spec fn outcomes(results: Seq<Result<ZcodeAccount, String>>) -> Seq<
    Result<AccountView, Seq<char>>,
> {
    results.map_values(|one: Result<ZcodeAccount, String>| outcome(one))
}

fn import_account(decoded: Result<ZcodeAccount, String>) -> (res: Result<ZcodeAccount, String>)
    ensures
        outcome(res) == imported(outcome(decoded)),
{
    match decoded {
        Err(message) => Err(joined("ZCode 导入账号格式无效: ", message.as_str())),
        Ok(account) => {
            if account.access_token.as_str().trim().is_empty()
                || account.zcode_jwt_token.as_str().trim().is_empty() {
                return Err("ZCode 导入账号缺少必要 Token".to_owned());
            }
            let mut account = account;
            account.id = String::new();
            Ok(account)
        },
    }
}

proof fn lemma_first_import_error(decoded: Seq<Result<AccountView, Seq<char>>>, at: int)
    requires
        0 < at <= decoded.len(),
        all_imported(decoded.take(at)) is Err,
    ensures
        all_imported(decoded) == all_imported(decoded.take(at)),
    decreases decoded.len() - at,
{
    if at < decoded.len() {
        assert(decoded.take(at + 1).drop_last() =~= decoded.take(at));
        lemma_first_import_error(decoded, at + 1);
    } else {
        assert(decoded.take(at) =~= decoded);
    }
}

/// The accounts to be brought in, where `decoded` is what each item was decoded
/// into; or the first error.
pub fn parse_import_accounts(decoded: Vec<Result<ZcodeAccount, String>>) -> (res: Result<
    Vec<ZcodeAccount>,
    String,
>)
    ensures
        outcome(res) == all_imported(outcomes(decoded@)),
{
    let ghost all = outcomes(decoded@);
    let mut rest = decoded;
    let mut accounts: Vec<ZcodeAccount> = Vec::new();
    let ghost mut done: int = 0;
    assert(outcomes(rest@) =~= all.skip(0));
    assert(accounts.deep_view() =~= Seq::<AccountView>::empty());
    while rest.len() > 0
        invariant
            0 <= done <= all.len(),
            outcomes(rest@) == all.skip(done),
            all_imported(all.take(done)) == Ok::<Seq<AccountView>, Seq<char>>(accounts.deep_view()),
            all == outcomes(decoded@),
        decreases rest@.len(),
    {
        let ghost waiting = outcomes(rest@);
        let ghost before = accounts.deep_view();
        let next = rest.remove(0);
        proof {
            assert(waiting[0] == outcome(next));
            assert(all.skip(done)[0] == outcome(next));
            assert(outcomes(rest@) =~= waiting.skip(1));
            assert(waiting.skip(1) =~= all.skip(done + 1));
            assert(all.take(done + 1).drop_last() =~= all.take(done));
            assert(all.take(done + 1).last() == outcome(next));
            done = done + 1;
        }
        match import_account(next) {
            Ok(account) => {
                accounts.push(account);
                assert(accounts.deep_view() =~= before.push(account@));
            },
            Err(message) => {
                proof {
                    lemma_first_import_error(all, done);
                }
                return Err(message);
            },
        }
    }
    assert(all.take(done) =~= all);
    Ok(accounts)
}

/// Accounts that are brought in have both tokens and no identifier of their own.
pub proof fn imported_accounts_have_tokens(decoded: Seq<Result<AccountView, Seq<char>>>)
    requires
        all_imported(decoded) is Ok,
    ensures
        all_imported(decoded)->Ok_0.len() == decoded.len(),
        forall|i: int|
            0 <= i < decoded.len() ==> {
                let account = #[trigger] all_imported(decoded)->Ok_0[i];
                &&& decoded[i] is Ok
                &&& account == AccountView { id: Seq::empty(), ..decoded[i]->Ok_0 }
                &&& !is_blank(account.access_token)
                &&& !is_blank(account.zcode_jwt_token)
            },
    decreases decoded.len(),
{
    if decoded.len() > 0 {
        let shorter = decoded.drop_last();
        imported_accounts_have_tokens(shorter);
        assert forall|i: int| 0 <= i < decoded.len() implies {
            let account = #[trigger] all_imported(decoded)->Ok_0[i];
            &&& decoded[i] is Ok
            &&& account == AccountView { id: Seq::empty(), ..decoded[i]->Ok_0 }
            &&& !is_blank(account.access_token)
            &&& !is_blank(account.zcode_jwt_token)
        } by {
            if i < shorter.len() {
                assert(all_imported(decoded)->Ok_0[i] == all_imported(shorter)->Ok_0[i]);
                assert(decoded[i] == shorter[i]);
            }
        }
    }
}

/// An import on its way: the accounts that wait to be stored, and those that
/// were stored.
#[derive(Debug, PartialEq)]
pub struct ImportRun {
    pub waiting: Vec<ZcodeAccount>,
    pub stored: Vec<ZcodeAccount>,
}

/// What an `ImportRun` stands for.
pub struct ImportRunView {
    pub waiting: Seq<AccountView>,
    pub stored: Seq<AccountView>,
}

impl View for ImportRun {
    type V = ImportRunView;

    open spec fn view(&self) -> ImportRunView {
        ImportRunView { waiting: self.waiting.deep_view(), stored: self.stored.deep_view() }
    }
}

/// What an import does next: it stores an account, or it is over.
#[derive(Debug, PartialEq)]
pub enum ImportStep {
    Store(ZcodeAccount),
    Finish(Result<Vec<ZcodeAccount>, String>),
}

/// What an `ImportStep` stands for.
pub enum ImportStepView {
    Store(AccountView),
    Finish(Result<Seq<AccountView>, Seq<char>>),
}

impl View for ImportStep {
    type V = ImportStepView;

    open spec fn view(&self) -> ImportStepView {
        match self {
            ImportStep::Store(account) => ImportStepView::Store(account@),
            ImportStep::Finish(result) => ImportStepView::Finish(outcome(*result)),
        }
    }
}

/// An import that is over.
pub open spec fn ended(result: Result<Seq<AccountView>, Seq<char>>) -> (
    ImportRunView,
    ImportStepView,
) {
    (
        ImportRunView { waiting: Seq::empty(), stored: Seq::empty() },
        ImportStepView::Finish(result),
    )
}

/// The next account is to be stored; where none waits, the import is over.
pub open spec fn next_step(run: ImportRunView) -> (ImportRunView, ImportStepView) {
    if run.waiting.len() == 0 {
        ended(Ok(run.stored))
    } else {
        (
            ImportRunView { waiting: run.waiting.drop_first(), ..run },
            ImportStepView::Store(run.waiting.first()),
        )
    }
}

/// How an import begins, out of what parsing its text gave.
pub open spec fn begun(parsed: Result<Seq<AccountView>, Seq<char>>) -> (
    ImportRunView,
    ImportStepView,
) {
    match parsed {
        Ok(accounts) => next_step(ImportRunView { waiting: accounts, stored: Seq::empty() }),
        Err(message) => ended(Err(message)),
    }
}

/// How an import goes on, out of what storing an account gave.
pub open spec fn continued(run: ImportRunView, result: Result<AccountView, Seq<char>>) -> (
    ImportRunView,
    ImportStepView,
) {
    match result {
        Ok(account) => next_step(ImportRunView { stored: run.stored.push(account), ..run }),
        Err(message) => ended(Err(message)),
    }
}

fn end_import(result: Result<Vec<ZcodeAccount>, String>) -> (res: (ImportRun, ImportStep))
    ensures
        (res.0@, res.1@) == ended(outcome(result)),
{
    let run = ImportRun { waiting: Vec::new(), stored: Vec::new() };
    assert(run@.waiting =~= Seq::<AccountView>::empty());
    assert(run@.stored =~= Seq::<AccountView>::empty());
    (run, ImportStep::Finish(result))
}

fn next_import_step(run: ImportRun) -> (res: (ImportRun, ImportStep))
    ensures
        (res.0@, res.1@) == next_step(run@),
{
    let ghost waiting = run@.waiting;
    assert(waiting.len() == run.waiting@.len());
    let mut run = run;
    if run.waiting.len() == 0 {
        return end_import(Ok(run.stored));
    }
    let account = run.waiting.remove(0);
    assert(account@ == waiting.first());
    assert(run.waiting.deep_view() =~= waiting.drop_first());
    (run, ImportStep::Store(account))
}

/// Begins an import, out of what parsing its text gave: where that failed
/// nothing is stored.
pub fn begin_import(parsed: Result<Vec<ZcodeAccount>, String>) -> (res: (ImportRun, ImportStep))
    ensures
        (res.0@, res.1@) == begun(outcome(parsed)),
{
    match parsed {
        Ok(accounts) => {
            let run = ImportRun { waiting: accounts, stored: Vec::new() };
            assert(run@.stored =~= Seq::<AccountView>::empty());
            next_import_step(run)
        },
        Err(message) => end_import(Err(message)),
    }
}

/// Goes on with an import, out of what storing an account gave: the first
/// failure ends it.
pub fn import_from_json(run: ImportRun, result: Result<ZcodeAccount, String>) -> (res: (
    ImportRun,
    ImportStep,
))
    ensures
        (res.0@, res.1@) == continued(run@, outcome(result)),
{
    match result {
        Ok(account) => {
            let ghost before = run@.stored;
            let mut run = run;
            run.stored.push(account);
            assert(run@.stored =~= before.push(account@));
            next_import_step(run)
        },
        Err(message) => end_import(Err(message)),
    }
}

/// Where an import stands after its first stores gave `results`.
pub open spec fn import_after(
    parsed: Result<Seq<AccountView>, Seq<char>>,
    results: Seq<Result<AccountView, Seq<char>>>,
) -> (ImportRunView, ImportStepView)
    decreases results.len(),
{
    if results.len() == 0 {
        begun(parsed)
    } else {
        continued(import_after(parsed, results.drop_last()).0, results.last())
    }
}

/// The results of stores that all succeeded.
pub open spec fn successes(stored: Seq<AccountView>) -> Seq<Result<AccountView, Seq<char>>> {
    stored.map_values(|account: AccountView| Ok::<AccountView, Seq<char>>(account))
}

/// An import stores its accounts in their order. It ends with all that was
/// stored, in that order, once every account is, and with the message of the
/// first failure otherwise.
pub proof fn imports_store_in_order(
    accounts: Seq<AccountView>,
    stored: Seq<AccountView>,
    message: Seq<char>,
)
    requires
        stored.len() <= accounts.len(),
    ensures
        ({
            let (run, step) = import_after(Ok(accounts), successes(stored));
            if stored.len() == accounts.len() {
                step == ImportStepView::Finish(Ok(stored))
            } else {
                &&& step == ImportStepView::Store(accounts[stored.len() as int])
                &&& run.waiting == accounts.skip(stored.len() as int + 1)
                &&& run.stored == stored
                &&& import_after(Ok(accounts), successes(stored).push(Err(message))).1
                    == ImportStepView::Finish(Err(message))
            }
        }),
    decreases stored.len(),
{
    let results = successes(stored);
    if stored.len() == 0 {
        assert(stored =~= Seq::<AccountView>::empty());
        if accounts.len() > 0 {
            assert(accounts.drop_first() =~= accounts.skip(1));
        }
    } else {
        let shorter = stored.drop_last();
        imports_store_in_order(accounts, shorter, message);
        assert(results.drop_last() =~= successes(shorter));
        assert(results.last() == Ok::<AccountView, Seq<char>>(stored.last()));
        assert(shorter.push(stored.last()) =~= stored);
        let rest = accounts.skip(shorter.len() as int + 1);
        if stored.len() < accounts.len() {
            assert(rest.first() == accounts[stored.len() as int]);
            assert(rest.drop_first() =~= accounts.skip(stored.len() as int + 1));
        }
    }
    assert(results.push(Err(message)).drop_last() =~= results);
}

/// What storing the accounts of an import in turn met and left: what was stored
/// under each identifier already, the times, the accounts as they were stored,
/// and the index before the first store and after each.
pub struct ImportTrace {
    pub existing: Seq<Option<AccountView>>,
    pub times: Seq<i64>,
    pub stored: Seq<AccountView>,
    pub indexes: Seq<IndexView>,
}

impl ImportTrace {
    /// Whether the account at `i` was stored and put into the index.
    pub open spec fn stores(self, accounts: Seq<AccountView>, i: int) -> bool {
        &&& stored_account(accounts[i], self.existing[i], self.times[i]) == Ok::<
            AccountView,
            Seq<char>,
        >(self.stored[i])
        &&& index_with(self.indexes[i], self.stored[i].summary(), self.indexes[i + 1])
    }

    /// Whether all of `accounts` were stored in turn, beginning with an index
    /// that has one summary for each account.
    pub open spec fn is_of(self, accounts: Seq<AccountView>) -> bool {
        &&& self.stored.len() == accounts.len()
        &&& self.indexes.len() == accounts.len() + 1
        &&& has_distinct_accounts(self.indexes[0].accounts)
        &&& forall|i: int| 0 <= i < accounts.len() ==> #[trigger] self.stores(accounts, i)
    }
}

proof fn lemma_trace(accounts: Seq<AccountView>, trace: ImportTrace, k: int)
    requires
        trace.is_of(accounts),
        0 <= k <= accounts.len(),
    ensures
        ({
            let before = account_ids(trace.indexes[0].accounts);
            let after = account_ids(trace.indexes[k].accounts);
            &&& has_distinct_accounts(trace.indexes[k].accounts)
            &&& forall|i: int| 0 <= i < k ==> after.contains((#[trigger] trace.stored[i]).id)
            &&& forall|id: Seq<char>| before.contains(id) ==> #[trigger] after.contains(id)
            &&& (forall|i: int|
                0 <= i < k ==> before.contains((#[trigger] trace.stored[i]).id)) ==> {
                &&& after.len() == before.len()
                &&& forall|id: Seq<char>| #[trigger] after.contains(id) ==> before.contains(id)
            }
        }),
    decreases k,
{
    if k > 0 {
        lemma_trace(accounts, trace, k - 1);
        assert(trace.stores(accounts, k - 1));
        storing_adds_one_identifier(
            trace.indexes[k - 1],
            trace.stored[k - 1].summary(),
            trace.indexes[k],
        );
    }
}

/// Each account that is imported is stored under the identifier that its
/// provider and its user make, whatever identifier the text gave it, and the
/// index then lists it.
pub proof fn imported_accounts_are_listed(
    decoded: Seq<Result<AccountView, Seq<char>>>,
    trace: ImportTrace,
)
    requires
        all_imported(decoded) is Ok,
        trace.is_of(all_imported(decoded)->Ok_0),
    ensures
        trace.stored.len() == decoded.len(),
        has_distinct_accounts(trace.indexes.last().accounts),
        forall|i: int|
            0 <= i < decoded.len() ==> {
                let account = #[trigger] trace.stored[i];
                &&& account.id == identifier(
                    account.provider,
                    account_identity(account.user_id, Some(account.email))->0,
                )
                &&& account_ids(trace.indexes.last().accounts).contains(account.id)
            },
{
    let accounts = all_imported(decoded)->Ok_0;
    imported_accounts_have_tokens(decoded);
    lemma_trace(accounts, trace, accounts.len() as int);
    assert forall|i: int| 0 <= i < decoded.len() implies {
        let account = #[trigger] trace.stored[i];
        &&& account.id == identifier(
            account.provider,
            account_identity(account.user_id, Some(account.email))->0,
        )
        &&& account_ids(trace.indexes.last().accounts).contains(account.id)
    } by {
        assert(trace.stores(accounts, i));
        assert(accounts[i].id == Seq::<char>::empty());
        assert(is_blank(accounts[i].id));
    }
}

/// Importing the same text again stores the accounts under the same identifiers
/// and adds no summary to the index.
pub proof fn importing_again_adds_nothing(
    decoded: Seq<Result<AccountView, Seq<char>>>,
    first: ImportTrace,
    second: ImportTrace,
)
    requires
        all_imported(decoded) is Ok,
        first.is_of(all_imported(decoded)->Ok_0),
        second.is_of(all_imported(decoded)->Ok_0),
        second.indexes[0] == first.indexes.last(),
    ensures
        forall|i: int|
            0 <= i < decoded.len() ==> (#[trigger] second.stored[i]).id == first.stored[i].id,
        second.indexes.last().accounts.len() == first.indexes.last().accounts.len(),
        has_distinct_accounts(second.indexes.last().accounts),
        forall|id: Seq<char>| #[trigger]
            account_ids(second.indexes.last().accounts).contains(id) <==> account_ids(
                first.indexes.last().accounts,
            ).contains(id),
{
    let accounts = all_imported(decoded)->Ok_0;
    imported_accounts_have_tokens(decoded);
    imported_accounts_are_listed(decoded, first);
    assert forall|i: int| 0 <= i < decoded.len() implies (#[trigger] second.stored[i]).id
        == first.stored[i].id by {
        assert(first.stores(accounts, i));
        assert(second.stores(accounts, i));
    }
    assert forall|i: int| 0 <= i < accounts.len() implies account_ids(
        second.indexes[0].accounts,
    ).contains((#[trigger] second.stored[i]).id) by {
        assert(second.stored[i].id == first.stored[i].id);
    }
    lemma_trace(accounts, second, accounts.len() as int);
    assert(account_ids(second.indexes.last().accounts).len()
        == second.indexes.last().accounts.len());
}

/// Accounts are looked at in turn: each that is named, or each where none are
/// named, is taken out in its place, and no other is.
pub proof fn accounts_are_taken_in_turn(
    values: Seq<AccountView>,
    next: AccountView,
    ids: Seq<Seq<char>>,
)
    ensures
        Seq::<AccountView>::empty().filter(is_selected(ids)).len() == 0,
        ids.len() == 0 || ids.contains(next.id) ==> values.push(next).filter(is_selected(ids))
            == values.filter(is_selected(ids)).push(next),
        ids.len() > 0 && !ids.contains(next.id) ==> values.push(next).filter(is_selected(ids))
            == values.filter(is_selected(ids)),
{
    reveal(Seq::filter);
    assert(values.push(next).drop_last() =~= values);
}

/// A text to be brought in lists the items of its array, or of the array
/// `accounts` of its object: as many as the array has, and each in its place. An
/// object without such an array is the one item itself.
pub proof fn all_items_are_listed(
    items: Seq<JsonView>,
    root: JsonView,
    i: int,
)
    ensures
        root == JsonView::Array(items) ==> {
            &&& listed_items(Ok(root)) is Ok
            &&& listed_items(Ok(root))->Ok_0.len() == items.len()
            &&& 0 <= i < items.len() ==> listed_items(Ok(root))->Ok_0[i] == items[i]
        },
        root is Object && root.get("accounts"@) == Some(JsonView::Array(items)) ==> {
            &&& listed_items(Ok(root)) is Ok
            &&& listed_items(Ok(root))->Ok_0.len() == items.len()
            &&& 0 <= i < items.len() ==> listed_items(Ok(root))->Ok_0[i] == items[i]
        },
        root is Object && !(root.get("accounts"@) matches Some(JsonView::Array(_))) ==> {
            &&& listed_items(Ok(root)) is Ok
            &&& listed_items(Ok(root))->Ok_0.len() == 1
            &&& listed_items(Ok(root))->Ok_0[0] == root
        },
{
}

/// A text that is no JSON, or neither an object nor an array, lists no items:
/// the error says which.
pub proof fn other_texts_are_refused(root: JsonView, message: Seq<char>)
    ensures
        root !is Array && root !is Object ==> listed_items(Ok(root)) == Err::<
            Seq<JsonView>,
            Seq<char>,
        >("ZCode 导入数据必须是对象或数组"@),
        listed_items(Err(message)) == Err::<Seq<JsonView>, Seq<char>>(
            "JSON 解析失败: "@ + message,
        ),
{
}

/// An account that was decoded and has both tokens is brought in as it is but
/// for its identifier, which is dropped.
pub proof fn accounts_with_tokens_are_brought_in(account: AccountView, message: Seq<char>)
    ensures
        trimmed(account.access_token).len() > 0 && trimmed(account.zcode_jwt_token).len() > 0
            ==> imported(Ok(account)) == Ok::<AccountView, Seq<char>>(
            AccountView { id: Seq::empty(), ..account },
        ),
        trimmed(account.access_token).len() == 0 || trimmed(account.zcode_jwt_token).len() == 0
            ==> imported(Ok(account)) == Err::<AccountView, Seq<char>>(
            "ZCode 导入账号缺少必要 Token"@,
        ),
        imported(Err(message)) == Err::<AccountView, Seq<char>>(
            "ZCode 导入账号格式无效: "@ + message,
        ),
{
}

/// Accounts are brought in together: one more is put behind the others where it
/// can be brought in and they can; the first that cannot decides the error.
pub proof fn accounts_are_brought_in_together(
    decoded: Seq<Result<AccountView, Seq<char>>>,
    next: Result<AccountView, Seq<char>>,
)
    ensures
        all_imported(Seq::empty()) == Ok::<Seq<AccountView>, Seq<char>>(Seq::empty()),
        all_imported(decoded) is Err ==> all_imported(decoded.push(next)) == all_imported(decoded),
        all_imported(decoded) is Ok && imported(next) is Err ==> all_imported(decoded.push(next))
            == Err::<Seq<AccountView>, Seq<char>>(imported(next)->Err_0),
        all_imported(decoded) is Ok && imported(next) is Ok ==> all_imported(decoded.push(next))
            == Ok::<Seq<AccountView>, Seq<char>>(
            all_imported(decoded)->Ok_0.push(imported(next)->Ok_0),
        ),
{
    assert(decoded.push(next).drop_last() =~= decoded);
}

/// All accounts of a text are brought in, each in its place and as it was
/// decoded but for its identifier, where each was decoded and has both tokens.
pub proof fn complete_accounts_are_all_brought_in(decoded: Seq<Result<AccountView, Seq<char>>>)
    requires
        forall|i: int|
            0 <= i < decoded.len() ==> {
                &&& (#[trigger] decoded[i]) is Ok
                &&& trimmed(decoded[i]->Ok_0.access_token).len() > 0
                &&& trimmed(decoded[i]->Ok_0.zcode_jwt_token).len() > 0
            },
    ensures
        all_imported(decoded) is Ok,
        all_imported(decoded)->Ok_0.len() == decoded.len(),
        forall|i: int|
            0 <= i < decoded.len() ==> #[trigger] all_imported(decoded)->Ok_0[i] == (AccountView {
                id: Seq::empty(),
                ..decoded[i]->Ok_0
            }),
    decreases decoded.len(),
{
    if decoded.len() > 0 {
        let shorter = decoded.drop_last();
        assert forall|i: int| 0 <= i < shorter.len() implies {
            &&& (#[trigger] shorter[i]) is Ok
            &&& trimmed(shorter[i]->Ok_0.access_token).len() > 0
            &&& trimmed(shorter[i]->Ok_0.zcode_jwt_token).len() > 0
        } by {
            assert(shorter[i] == decoded[i]);
        }
        complete_accounts_are_all_brought_in(shorter);
        assert(decoded[decoded.len() - 1] is Ok);
        imported_accounts_have_tokens(decoded);
    }
}

/// A text that could not be parsed ends the import at once with its message, and
/// one that lists no accounts ends it with none.
pub proof fn imports_without_accounts_end_at_once(message: Seq<char>)
    ensures
        import_after(Err(message), Seq::empty()).1 == ImportStepView::Finish(Err(message)),
        import_after(Ok(Seq::empty()), Seq::empty()).1 == ImportStepView::Finish(
            Ok(Seq::<AccountView>::empty()),
        ),
{
}

/// An import begins with the first account, goes on with the next after each
/// that was stored, and keeps what was stored in its order.
pub proof fn imports_go_on_with_the_next(
    run: ImportRunView,
    account: AccountView,
    message: Seq<char>,
)
    ensures
        run.waiting.len() > 0 ==> {
            let (after, step) = continued(run, Ok(account));
            &&& step == ImportStepView::Store(run.waiting[0])
            &&& after.waiting == run.waiting.skip(1)
            &&& after.stored == run.stored.push(account)
        },
        run.waiting.len() == 0 ==> continued(run, Ok(account)).1 == ImportStepView::Finish(
            Ok(run.stored.push(account)),
        ),
        continued(run, Err(message)).1 == ImportStepView::Finish(Err(message)),
{
    if run.waiting.len() > 0 {
        assert(run.waiting.drop_first() =~= run.waiting.skip(1));
    }
}

/// An export takes each account that is named, or each where none are named, in
/// its place, and fails where the accounts cannot be listed.
pub proof fn exports_hold_the_named_accounts(
    values: Vec<ZcodeAccount>,
    ids: &[String],
    message: String,
    selected: Vec<ZcodeAccount>,
    exported: Result<Vec<ZcodeAccount>, String>,
    failed: Result<Vec<ZcodeAccount>, String>,
    account: AccountView,
)
    requires
        call_ensures(serialize_accounts_for_export, (values, ids), selected),
        call_ensures(export_accounts, (Ok(values), ids), exported),
        call_ensures(export_accounts, (Err(message), ids), failed),
    ensures
        exported is Ok && exported->Ok_0.deep_view() == selected.deep_view(),
        failed is Err && failed->Err_0@ == message@,
        ids@.len() == 0 ==> selected.deep_view() == values.deep_view(),
        ids@.len() > 0 ==> (selected.deep_view().contains(account)
            <==> values.deep_view().contains(account) && ids.deep_view().contains(account.id)),
        selected.deep_view() == values.deep_view().filter(
            |value: AccountView| ids@.len() == 0 || ids.deep_view().contains(value.id),
        ),
{
    assert(ids.deep_view().len() == ids@.len());
    assert(is_selected(ids.deep_view()) =~= (|value: AccountView|
        ids@.len() == 0 || ids.deep_view().contains(value.id)));
    if ids@.len() == 0 {
        assert(ids.deep_view() =~= Seq::<Seq<char>>::empty());
        naming_none_takes_all(values.deep_view());
    } else {
        named_accounts_are_taken(values.deep_view(), ids.deep_view(), account);
    }
}

/// An import lists the items of the array, or of the array `accounts` of the
/// object, that its text holds: as many as there are, and each in its place. Any
/// other object is the one item itself.
pub proof fn imports_list_all_items(
    content: &str,
    res: Result<Vec<Json>, String>,
    items: Seq<JsonView>,
    i: int,
)
    requires
        call_ensures(import_items, (content,), res),
    ensures
        json_parse(content@) matches Ok(root) ==> {
            &&& root == JsonView::Array(items) || root is Object && root.get("accounts"@) == Some(
                JsonView::Array(items),
            ) ==> {
                &&& res is Ok
                &&& res->Ok_0@.len() == items.len()
                &&& 0 <= i < items.len() ==> res->Ok_0@[i]@ == items[i]
            }
            &&& root is Object && (root.get("accounts"@) is None || root.get("accounts"@)->0
                !is Array) ==> res is Ok && res->Ok_0@.len() == 1 && res->Ok_0@[0]@ == root
            &&& root !is Object && root !is Array ==> res is Err && res->Err_0@
                == "ZCode 导入数据必须是对象或数组"@
        },
        json_parse(content@) matches Err(message) ==> res is Err && res->Err_0@
            == "JSON 解析失败: "@ + message,
{
    if json_parse(content@) is Ok {
        all_items_are_listed(items, json_parse(content@)->Ok_0, i);
    }
    if res is Ok {
        let seen = res->Ok_0.deep_view();
        assert(seen.len() == res->Ok_0@.len());
        assert forall|k: int| 0 <= k < seen.len() implies seen[k] == #[trigger] res->Ok_0@[k]@ by {}
        if 0 <= i < seen.len() {
            assert(seen[i] == res->Ok_0@[i]@);
        }
        if seen.len() > 0 {
            assert(seen[0] == res->Ok_0@[0]@);
        }
    }
}

/// The items of a parsed value are listed as those of its text are.
pub proof fn parsed_values_list_all_items(
    root: Json,
    res: Result<Vec<Json>, String>,
    items: Seq<JsonView>,
    i: int,
    message: String,
    failed: Result<Vec<Json>, String>,
)
    requires
        call_ensures(items_to_import, (Ok(root),), res),
        call_ensures(items_to_import, (Err(message),), failed),
    ensures
        root@ == JsonView::Array(items) || root@ is Object && root@.get("accounts"@) == Some(
            JsonView::Array(items),
        ) ==> {
            &&& res is Ok
            &&& res->Ok_0@.len() == items.len()
            &&& 0 <= i < items.len() ==> res->Ok_0@[i]@ == items[i]
        },
        root@ is Object && (root@.get("accounts"@) is None || root@.get("accounts"@)->0 !is Array)
            ==> res is Ok && res->Ok_0@.len() == 1 && res->Ok_0@[0]@ == root@,
        failed is Err && failed->Err_0@ == "JSON 解析失败: "@ + message@,
{
    all_items_are_listed(items, root@, i);
    if res is Ok {
        let seen = res->Ok_0.deep_view();
        assert(seen.len() == res->Ok_0@.len());
        if 0 <= i < seen.len() {
            assert(seen[i] == res->Ok_0@[i]@);
        }
        if seen.len() > 0 {
            assert(seen[0] == res->Ok_0@[0]@);
        }
    }
}

/// Bringing accounts in succeeds if and only if each was decoded and has both
/// tokens; each is then brought in as it was decoded but for its identifier.
pub proof fn imports_need_both_tokens(
    decoded: Vec<Result<ZcodeAccount, String>>,
    res: Result<Vec<ZcodeAccount>, String>,
    i: int,
)
    requires
        call_ensures(parse_import_accounts, (decoded,), res),
    ensures
        res is Ok <==> forall|k: int|
            0 <= k < decoded@.len() ==> {
                &&& (#[trigger] decoded@[k]) is Ok
                &&& trimmed(decoded@[k]->Ok_0.access_token@).len() > 0
                &&& trimmed(decoded@[k]->Ok_0.zcode_jwt_token@).len() > 0
            },
        res is Ok ==> res->Ok_0@.len() == decoded@.len(),
        res is Ok && 0 <= i < decoded@.len() ==> res->Ok_0@[i]@ == (AccountView {
            id: Seq::empty(),
            ..decoded@[i]->Ok_0@
        }),
{
    let seen = outcomes(decoded@);
    assert forall|k: int| 0 <= k < decoded@.len() implies seen[k] == outcome(
        #[trigger] decoded@[k],
    ) by {}
    if res is Ok {
        imported_accounts_have_tokens(seen);
        assert(res->Ok_0.deep_view() == all_imported(seen)->Ok_0);
        assert forall|k: int| 0 <= k < decoded@.len() implies {
            &&& (#[trigger] decoded@[k]) is Ok
            &&& trimmed(decoded@[k]->Ok_0.access_token@).len() > 0
            &&& trimmed(decoded@[k]->Ok_0.zcode_jwt_token@).len() > 0
        } by {
            assert(seen[k] == outcome(decoded@[k]));
            assert(all_imported(seen)->Ok_0[k] == AccountView {
                id: Seq::empty(),
                ..seen[k]->Ok_0
            });
        }
        if 0 <= i < decoded@.len() {
            assert(res->Ok_0.deep_view()[i] == res->Ok_0@[i]@);
            assert(seen[i] == outcome(decoded@[i]));
        }
    } else if forall|k: int|
        0 <= k < decoded@.len() ==> {
            &&& (#[trigger] decoded@[k]) is Ok
            &&& trimmed(decoded@[k]->Ok_0.access_token@).len() > 0
            &&& trimmed(decoded@[k]->Ok_0.zcode_jwt_token@).len() > 0
        } {
        assert forall|k: int| 0 <= k < seen.len() implies {
            &&& (#[trigger] seen[k]) is Ok
            &&& trimmed(seen[k]->Ok_0.access_token).len() > 0
            &&& trimmed(seen[k]->Ok_0.zcode_jwt_token).len() > 0
        } by {
            assert(seen[k] == outcome(decoded@[k]));
        }
        complete_accounts_are_all_brought_in(seen);
    }
}

/// The first account that was not decoded, or lacks a token, decides the error.
pub proof fn the_first_bad_account_is_reported(
    decoded: Vec<Result<ZcodeAccount, String>>,
    res: Result<Vec<ZcodeAccount>, String>,
    at: int,
)
    requires
        call_ensures(parse_import_accounts, (decoded,), res),
        0 <= at < decoded@.len(),
        forall|k: int|
            0 <= k < at ==> {
                &&& (#[trigger] decoded@[k]) is Ok
                &&& trimmed(decoded@[k]->Ok_0.access_token@).len() > 0
                &&& trimmed(decoded@[k]->Ok_0.zcode_jwt_token@).len() > 0
            },
    ensures
        decoded@[at] is Err ==> res is Err && res->Err_0@ == "ZCode 导入账号格式无效: "@
            + decoded@[at]->Err_0@,
        decoded@[at] is Ok && (trimmed(decoded@[at]->Ok_0.access_token@).len() == 0 || trimmed(
            decoded@[at]->Ok_0.zcode_jwt_token@,
        ).len() == 0) ==> res is Err && res->Err_0@ == "ZCode 导入账号缺少必要 Token"@,
{
    let seen = outcomes(decoded@);
    let before = seen.take(at);
    assert forall|k: int| 0 <= k < before.len() implies {
        &&& (#[trigger] before[k]) is Ok
        &&& trimmed(before[k]->Ok_0.access_token).len() > 0
        &&& trimmed(before[k]->Ok_0.zcode_jwt_token).len() > 0
    } by {
        assert(before[k] == outcome(decoded@[k]));
    }
    complete_accounts_are_all_brought_in(before);
    assert(seen[at] == outcome(decoded@[at]));
    accounts_are_brought_in_together(before, seen[at]);
    assert(before.push(seen[at]) =~= seen.take(at + 1));
    if imported(seen[at]) is Err {
        lemma_first_import_error(seen, at + 1);
    }
}

/// An import stores its first account, then each next one, and ends with all
/// that were stored or with the first failure.
pub proof fn imports_run_through_their_accounts(
    parsed: Result<Vec<ZcodeAccount>, String>,
    begun_with: (ImportRun, ImportStep),
    run: ImportRun,
    result: Result<ZcodeAccount, String>,
    went_on: (ImportRun, ImportStep),
)
    requires
        call_ensures(begin_import, (parsed,), begun_with),
        call_ensures(import_from_json, (run, result), went_on),
    ensures
        parsed is Err ==> begun_with.1@ == ImportStepView::Finish(Err(parsed->Err_0@)),
        parsed is Ok && parsed->Ok_0@.len() == 0 ==> begun_with.1@ == ImportStepView::Finish(
            Ok(Seq::<AccountView>::empty()),
        ),
        parsed is Ok && parsed->Ok_0@.len() > 0 ==> {
            &&& begun_with.1@ == ImportStepView::Store(parsed->Ok_0@[0]@)
            &&& begun_with.0@.waiting == parsed->Ok_0.deep_view().skip(1)
            &&& begun_with.0@.stored.len() == 0
        },
        result is Err ==> went_on.1@ == ImportStepView::Finish(Err(result->Err_0@)),
        result is Ok && run@.waiting.len() == 0 ==> went_on.1@ == ImportStepView::Finish(
            Ok(run@.stored.push(result->Ok_0@)),
        ),
        result is Ok && run@.waiting.len() > 0 ==> {
            &&& went_on.1@ == ImportStepView::Store(run@.waiting[0])
            &&& went_on.0@.waiting == run@.waiting.skip(1)
            &&& went_on.0@.stored == run@.stored.push(result->Ok_0@)
        },
{
    if parsed is Ok {
        let accounts = parsed->Ok_0.deep_view();
        assert(accounts.len() == parsed->Ok_0@.len());
        if accounts.len() > 0 {
            assert(accounts[0] == parsed->Ok_0@[0]@);
            assert(accounts.drop_first() =~= accounts.skip(1));
        }
    }
    if result is Ok {
        imports_go_on_with_the_next(run@, result->Ok_0@, Seq::empty());
    }
}

/// What is seen of an import is the import: what waits, what was stored, and
/// what is next.
pub proof fn imports_are_seen_whole(
    run: ImportRun,
    account: ZcodeAccount,
    result: Result<Vec<ZcodeAccount>, String>,
    results: Seq<Result<ZcodeAccount, String>>,
    i: int,
)
    ensures
        run@.waiting == run.waiting.deep_view(),
        run@.stored == run.stored.deep_view(),
        ImportStep::Store(account)@ == ImportStepView::Store(account@),
        ImportStep::Finish(result)@ == ImportStepView::Finish(outcome(result)),
        outcomes(results).len() == results.len(),
        0 <= i < results.len() ==> outcomes(results)[i] == outcome(results[i]),
{
}

}
