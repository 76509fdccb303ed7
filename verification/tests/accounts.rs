//! Accounts: their normal form, their identifiers and files, and the index.

use zcode_cockpit::account::QuotaAmount;
use zcode_cockpit::account::ZcodeAccount;
use zcode_cockpit::account::normalize_optional;
use zcode_cockpit::account::normalize_provider;
use zcode_cockpit::account::normalize_string;
use zcode_cockpit::account::normalize_tags;
use zcode_cockpit::account_files::account_id;
use zcode_cockpit::account_files::account_id_or;
use zcode_cockpit::account_files::account_path;
use zcode_cockpit::account_files::accounts_dir;
use zcode_cockpit::account_files::accounts_index_path_string;
use zcode_cockpit::account_files::safe_account_id;
use zcode_cockpit::index::ZcodeAccountIndex;
use zcode_cockpit::index::ZcodeAccountSummary;
use zcode_cockpit::index::current_account_id;
use zcode_cockpit::index::index_text;
use zcode_cockpit::index::inject_to_default;
use zcode_cockpit::index::inject_to_default_at;
use zcode_cockpit::index::list_accounts_checked;
use zcode_cockpit::index::load_index;
use zcode_cockpit::index::prepare_account;
use zcode_cockpit::index::remove_account;
use zcode_cockpit::index::remove_accounts;
use zcode_cockpit::index::update_account_tags;
use zcode_cockpit::index::upsert_account;
use zcode_cockpit::index::upsert_account_at;
use zcode_cockpit::json::Json;
use zcode_cockpit::path::PathStyle;

const UNIX: PathStyle = PathStyle::Unix;

fn text(value: &str) -> String {
    value.to_string()
}

fn account(id: &str, last_used: i64) -> ZcodeAccount {
    ZcodeAccount {
        id: text(id),
        provider: text("zai"),
        email: text("a@example.com"),
        user_id: None,
        display_name: None,
        avatar_url: None,
        access_token: text("access"),
        refresh_token: None,
        zcode_jwt_token: text("jwt"),
        expires_at: None,
        plan_type: None,
        quota_total: None,
        quota_used: None,
        quota_remaining: None,
        quota_reset_at: None,
        quota_query_last_error: None,
        quota_query_last_error_at: None,
        usage_updated_at: None,
        tags: None,
        user_info_raw: None,
        subscription_raw: None,
        quota_raw: None,
        created_at: 0,
        last_used,
    }
}

fn summary(id: &str, last_used: i64) -> ZcodeAccountSummary {
    ZcodeAccountSummary { id: text(id), last_used }
}

fn index(accounts: Vec<ZcodeAccountSummary>, current: Option<&str>) -> ZcodeAccountIndex {
    ZcodeAccountIndex { accounts, current_account_id: current.map(text) }
}

fn ids(index: &ZcodeAccountIndex) -> Vec<&str> {
    index.accounts.iter().map(|summary| summary.id.as_str()).collect()
}

#[test]
fn account_id_is_stable() {
    assert_eq!(
        account_id("zai", Some("user-1"), Some("first@example.com")),
        account_id("zai", Some("user-1"), Some("second@example.com"))
    );
    assert_eq!(
        account_id("zai", Some("user-1"), Some("first@example.com")),
        "zcode_25b7711dcf5785fcfec68e7ae96313f9"
    );
}

#[test]
fn identifiers_fall_back_to_the_address_and_to_chance() {
    assert_eq!(
        account_id("zai", Some(" "), Some(" a@b ")),
        account_id_or("zai", None, Some("a@b"), "unused")
    );
    assert_eq!(
        account_id_or("zai", None, None, "user-1"),
        "zcode_25b7711dcf5785fcfec68e7ae96313f9"
    );
    let first = account_id("zai", None, None);
    assert_eq!(first.len(), 38);
    assert!(first.starts_with("zcode_"));
    assert!(first[6..].chars().all(|c| c.is_ascii_digit() || ('a'..='f').contains(&c)));
    assert_ne!(first, account_id("zai", None, None));
}

#[test]
fn tags_are_trimmed_and_deduplicated_case_insensitively() {
    assert_eq!(
        normalize_tags(vec![
            " Work ".to_string(),
            "work".to_string(),
            "Team".to_string(),
            "".to_string(),
        ]),
        Some(vec!["Work".to_string(), "Team".to_string()])
    );
    assert_eq!(normalize_tags(Vec::new()), None);
}

#[test]
fn tags_differ_beyond_ascii_case() {
    assert_eq!(
        normalize_tags(vec![text("É"), text("é"), text("  "), text("é")]),
        Some(vec![text("É"), text("é")])
    );
    assert_eq!(normalize_tags(vec![text(" "), text("\u{3000}")]), None);
}

#[test]
fn texts_are_trimmed_or_dropped() {
    assert_eq!(normalize_string(Some("\u{a0} x y\t")), Some(text("x y")));
    assert_eq!(normalize_string(Some("\u{200b}")), Some(text("\u{200b}")));
    assert_eq!(normalize_string(Some(" \n")), None);
    assert_eq!(normalize_string(None), None);
    assert_eq!(normalize_optional(&Some(text(" z "))), Some(text("z")));
}

#[test]
fn providers_are_known_by_name() {
    assert_eq!(normalize_provider(" ZAI ").unwrap(), "zai");
    assert_eq!(normalize_provider("BigModel").unwrap(), "bigmodel");
    assert_eq!(normalize_provider("other").unwrap_err(), "不支持的 ZCode OAuth provider");
    assert_eq!(normalize_provider("").unwrap_err(), "不支持的 ZCode OAuth provider");
}

#[test]
fn account_files_lie_in_their_directory() {
    assert_eq!(accounts_dir(UNIX, Ok(text("/data"))).unwrap(), "/data/zcode_accounts");
    assert_eq!(
        accounts_index_path_string(UNIX, Ok(text("/data/"))).unwrap(),
        "/data/zcode_accounts.json"
    );
    assert_eq!(accounts_index_path_string(UNIX, Err(text("no"))).unwrap_err(), "no");
    assert_eq!(
        account_path(UNIX, Ok(text("/data/zcode_accounts")), " zcode_1 ").unwrap(),
        "/data/zcode_accounts/zcode_1.json"
    );
    for id in ["", "  ", "../x", "a/b", "a\\b", "a..b", "a b", "é"] {
        assert_eq!(account_path(UNIX, Ok(text("/d")), id).unwrap_err(), "ZCode 账号 ID 非法");
    }
    assert_eq!(account_path(UNIX, Err(text("no")), "..").unwrap_err(), "no");
    assert_eq!(safe_account_id(" a.B-9_ ").unwrap(), "a.B-9_");
}

#[test]
fn account_files_are_named_on_windows_too() {
    assert_eq!(
        accounts_index_path_string(PathStyle::Windows, Ok(text(r"C:\d"))).unwrap(),
        r"C:\d\zcode_accounts.json"
    );
    assert_eq!(
        account_path(PathStyle::Windows, Ok(text(r"C:\d\")), "zcode_1").unwrap(),
        r"C:\d\zcode_1.json"
    );
}

#[test]
fn a_missing_or_blank_index_is_empty() {
    assert_eq!(index_text(None).unwrap(), None);
    assert_eq!(index_text(Some(Ok(text(" \n")))).unwrap(), None);
    assert_eq!(index_text(Some(Ok(text("{}")))).unwrap(), Some(text("{}")));
    assert_eq!(
        index_text(Some(Err(text("denied")))).unwrap_err(),
        "读取 ZCode 账号索引失败: denied"
    );
    assert_eq!(load_index(None).unwrap(), index(Vec::new(), None));
    assert_eq!(
        load_index(Some(Err(text("bad")))).unwrap_err(),
        "解析 ZCode 账号索引失败: bad"
    );
    let kept = load_index(Some(Ok(index(vec![summary("a", 1)], Some("a"))))).unwrap();
    assert_eq!(kept, index(vec![summary("a", 1)], Some("a")));
}

#[test]
fn accounts_are_brought_into_their_normal_form() {
    let mut value = account("  ", 5);
    value.provider = text(" ZAI");
    value.email = text("  ");
    value.user_id = Some(text(" user-1 "));
    value.display_name = Some(text(" "));
    value.tags = Some(vec![text("b "), text("B")]);
    let prepared = prepare_account(value).unwrap();
    assert_eq!(prepared.id, "zcode_25b7711dcf5785fcfec68e7ae96313f9");
    assert_eq!(prepared.provider, "zai");
    assert_eq!(prepared.email, "unknown@zcode.local");
    assert_eq!(prepared.user_id, Some(text("user-1")));
    assert_eq!(prepared.display_name, None);
    assert_eq!(prepared.tags, Some(vec![text("b")]));
    let before = format!("{:?}", prepared);
    assert_eq!(format!("{:?}", prepare_account(prepared).unwrap()), before);

    let mut unknown = account("x", 5);
    unknown.provider = text("other");
    assert_eq!(prepare_account(unknown).unwrap_err(), "不支持的 ZCode OAuth provider");
}

#[test]
fn stored_accounts_keep_what_is_not_given() {
    let mut old = account("x", 9);
    old.created_at = 3;
    old.tags = Some(vec![text("old")]);
    old.plan_type = Some(text("plan"));
    old.quota_total = Some(QuotaAmount { bits: 7 });
    old.quota_raw = Some(Json::Array(Vec::new()));
    let mut value = account("x", 0);
    value.created_at = 8;
    value.quota_query_last_error = Some(text("lost"));
    let (stored, _) =
        upsert_account_at(value, Some(old), index(Vec::new(), None), 42).unwrap();
    assert_eq!(stored.created_at, 3);
    assert_eq!(stored.last_used, 42);
    assert_eq!(stored.tags, Some(vec![text("old")]));
    assert_eq!(stored.plan_type, Some(text("plan")));
    assert_eq!(stored.quota_total, Some(QuotaAmount { bits: 7 }));
    assert_eq!(stored.quota_raw, Some(Json::Array(Vec::new())));
    assert_eq!(stored.quota_query_last_error, None);
}

#[test]
fn stored_accounts_replace_what_is_given() {
    let mut old = account("x", 9);
    old.tags = Some(vec![text("old")]);
    old.quota_total = Some(QuotaAmount { bits: 7 });
    let mut value = account("x", 11);
    value.tags = Some(vec![text("new")]);
    value.quota_raw = Some(Json::Null);
    let (stored, _) =
        upsert_account_at(value, Some(old), index(Vec::new(), None), 42).unwrap();
    assert_eq!(stored.tags, Some(vec![text("new")]));
    assert_eq!(stored.quota_total, None);
    assert_eq!(stored.created_at, 42);
    assert_eq!(stored.last_used, 11);
}

#[test]
fn the_index_lists_the_account_used_last_first() {
    let before = index(vec![summary("a", 30), summary("b", 20), summary("c", 20)], Some("b"));
    let (_, after) = upsert_account_at(account("c", 25), None, before, 1).unwrap();
    assert_eq!(ids(&after), ["a", "c", "b"]);
    assert_eq!(after.current_account_id, Some(text("b")));
    let (_, after) = upsert_account_at(account("d", 20), None, after, 1).unwrap();
    assert_eq!(ids(&after), ["a", "c", "b", "d"]);
    let (stored, after) = upsert_account(account("d", 0), None, after).unwrap();
    assert!(stored.last_used > 1_600_000_000);
    assert_eq!(ids(&after), ["d", "a", "c", "b"]);
}

#[test]
fn accounts_that_cannot_be_loaded_are_not_listed() {
    let listed = list_accounts_checked(Ok(vec![
        Some(account("a", 1)),
        None,
        Some(account("b", 2)),
        Some(account("c", 1)),
    ]))
    .unwrap();
    let names: Vec<&str> = listed.iter().map(|account| account.id.as_str()).collect();
    assert_eq!(names, ["b", "a", "c"]);
    assert_eq!(list_accounts_checked(Err(text("no"))).unwrap_err(), "no");
}

#[test]
fn removed_accounts_leave_the_index() {
    let all = || index(vec![summary("a", 3), summary("b", 2), summary("c", 1)], Some("b"));
    let (left, named) = remove_accounts(all(), &[text("b"), text("z")]);
    assert_eq!(left, index(vec![summary("a", 3), summary("c", 1)], None));
    assert_eq!(named, Ok(()));
    let (left, named) = remove_account(all(), "c");
    assert_eq!(left, index(vec![summary("a", 3), summary("b", 2)], Some("b")));
    assert_eq!(named, Ok(()));
    assert_eq!(remove_accounts(all(), &[]), (all(), Ok(())));
}

#[test]
fn identifiers_that_name_no_file_are_refused() {
    let refused = Err(text("ZCode 账号 ID 非法"));
    let before = || index(vec![summary("a", 3), summary("../x", 2)], None);
    for id in ["../x", "a/b", r"a\b", "a..b", "账号", "a b"] {
        assert_eq!(upsert_account_at(account(id, 5), None, before(), 42), refused);
        assert_eq!(upsert_account(account(id, 5), None, before()), refused);
        let injected = inject_to_default_at(Some(account(id, 5)), Ok(()), None, before(), 42);
        assert_eq!(injected, refused);
        let injected = inject_to_default(Some(account(id, 5)), Ok(()), None, before());
        assert_eq!(injected, refused);
    }
    let (stored, after) = upsert_account_at(account(" x ", 5), None, before(), 42).unwrap();
    assert_eq!(stored.id, " x ");
    assert_eq!(ids(&after), [" x ", "a", "../x"]);
    let mut unknown = account("../x", 5);
    unknown.provider = text("other");
    assert_eq!(
        upsert_account_at(unknown, None, before(), 42).unwrap_err(),
        "不支持的 ZCode OAuth provider"
    );
    let (left, named) = remove_accounts(before(), &[text("a"), text("../x")]);
    assert_eq!(left, index(Vec::new(), None));
    assert_eq!(named.unwrap_err(), "ZCode 账号 ID 非法");
    let (left, named) = remove_account(before(), "../x");
    assert_eq!(ids(&left), ["a"]);
    assert_eq!(named.unwrap_err(), "ZCode 账号 ID 非法");
}

#[test]
fn tags_are_changed_but_not_cleared() {
    assert_eq!(update_account_tags(None, Vec::new()).unwrap_err(), "ZCode 账号不存在");
    let tagged = || {
        let mut value = account("x", 1);
        value.tags = Some(vec![text("old")]);
        value
    };
    let changed = update_account_tags(Some(tagged()), vec![text(" new ")]).unwrap();
    assert_eq!(changed.tags, Some(vec![text("new")]));
    let cleared = update_account_tags(Some(tagged()), Vec::new()).unwrap();
    assert_eq!(cleared.tags, None);
    let (stored, _) =
        upsert_account_at(cleared, Some(tagged()), index(Vec::new(), None), 1).unwrap();
    assert_eq!(stored.tags, Some(vec![text("old")]));
}

#[test]
fn the_current_account_is_the_one_given_to_the_client() {
    let before = || index(vec![summary("a", 30), summary("b", 20)], Some("a"));
    let (stored, after) =
        inject_to_default_at(Some(account("b", 20)), Ok(()), None, before(), 40).unwrap();
    assert_eq!(stored.last_used, 40);
    assert_eq!(after, index(vec![summary("b", 40), summary("a", 30)], Some("b")));
    assert_eq!(current_account_id(Ok(after)).unwrap(), Some(text("b")));
    assert_eq!(current_account_id(Err(text("no"))).unwrap_err(), "no");
    assert_eq!(
        inject_to_default(None, Ok(()), None, before()).unwrap_err(),
        "ZCode 账号不存在"
    );
    assert_eq!(
        inject_to_default(Some(account("b", 20)), Err(text("disk full")), None, before())
            .unwrap_err(),
        "disk full"
    );
    let (stored, _) =
        inject_to_default(Some(account("b", 20)), Ok(()), None, before()).unwrap();
    assert!(stored.last_used > 1_600_000_000);
}

#[test]
fn summaries_say_when_an_account_was_used() {
    assert_eq!(account("x", 12).summary(), summary("x", 12));
    assert_eq!(ZcodeAccountIndex::default(), index(Vec::new(), None));
}

#[test]
fn normal_forms_are_stable() {
    let once = normalize_string(Some("\t a b \u{3000}"));
    assert_eq!(normalize_optional(&once), once);
    let provider = normalize_provider(" bigMODEL ").unwrap();
    assert_eq!(normalize_provider(&provider).unwrap(), provider);
    let tags = normalize_tags(vec![text(" X"), text("y "), text("x"), text("Z")]).unwrap();
    assert_eq!(tags, vec![text("X"), text("y"), text("Z")]);
    assert_eq!(normalize_tags(vec![text("X"), text("y"), text("Z")]), Some(tags));
}

#[test]
fn storing_or_removing_twice_changes_nothing_more() {
    let stored_once = || {
        upsert_account_at(account("x", 5), None, index(Vec::new(), None), 42).unwrap()
    };
    let (first, listed) = stored_once();
    let (second, listed_again) =
        upsert_account_at(first, Some(stored_once().0), listed, 77).unwrap();
    assert_eq!(second, stored_once().0);
    assert_eq!(listed_again, stored_once().1);
    let (once, _) = remove_account(index(vec![summary("a", 3), summary("b", 2)], Some("a")), "a");
    assert_eq!(once, index(vec![summary("b", 2)], None));
    assert_eq!(remove_account(once, "a").0, index(vec![summary("b", 2)], None));
}
