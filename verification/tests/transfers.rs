//! Taking accounts out and bringing them in.

use zcode_cockpit::account::ZcodeAccount;
use zcode_cockpit::account_files::account_id;
use zcode_cockpit::index::upsert_account_at;
use zcode_cockpit::index::ZcodeAccountIndex;
use zcode_cockpit::json::Json;
use zcode_cockpit::json::JsonNumber;
use zcode_cockpit::transfer::begin_import;
use zcode_cockpit::transfer::export_accounts;
use zcode_cockpit::transfer::import_from_json;
use zcode_cockpit::transfer::import_items;
use zcode_cockpit::transfer::items_to_import;
use zcode_cockpit::transfer::parse_import_accounts;
use zcode_cockpit::transfer::serialize_accounts_for_export;
use zcode_cockpit::transfer::ImportStep;

fn text(value: &str) -> String {
    value.to_string()
}

fn sample_account() -> ZcodeAccount {
    ZcodeAccount {
        id: text("zcode_fixture"),
        provider: text("zai"),
        email: text("fixture@example.com"),
        user_id: Some(text("fixture-user")),
        display_name: Some(text("Fixture User")),
        avatar_url: Some(text("https://example.com/avatar.png")),
        access_token: text("access-token"),
        refresh_token: Some(text("refresh-token")),
        zcode_jwt_token: text("zcode-jwt-token"),
        expires_at: Some(1_900_000_000),
        plan_type: None,
        quota_total: None,
        quota_used: None,
        quota_remaining: None,
        quota_reset_at: None,
        quota_query_last_error: Some(text("stale error")),
        quota_query_last_error_at: Some(1),
        usage_updated_at: None,
        tags: Some(vec![text("work")]),
        user_info_raw: Some(Json::Object(vec![
            (text("user_id"), Json::Text(text("fixture-user"))),
            (text("email"), Json::Text(text("fixture@example.com"))),
            (text("name"), Json::Text(text("Fixture User"))),
            (text("avatar"), Json::Text(text("https://example.com/avatar.png"))),
        ])),
        subscription_raw: None,
        quota_raw: None,
        created_at: 1_700_000_000,
        last_used: 1_700_000_001,
    }
}

const SAMPLE: &str = r#"{
    "id": "zcode_fixture",
    "provider": "zai",
    "email": "fixture@example.com",
    "user_id": "fixture-user",
    "display_name": "Fixture User",
    "avatar_url": "https://example.com/avatar.png",
    "access_token": "access-token",
    "refresh_token": "refresh-token",
    "zcode_jwt_token": "zcode-jwt-token",
    "expires_at": 1900000000,
    "quota_query_last_error": "stale error",
    "quota_query_last_error_at": 1,
    "tags": ["work"],
    "user_info_raw": {
        "user_id": "fixture-user",
        "email": "fixture@example.com",
        "name": "Fixture User",
        "avatar": "https://example.com/avatar.png"
    },
    "created_at": 1700000000,
    "last_used": 1700000001
}"#;

fn decoded(item: &Json) -> Result<ZcodeAccount, String> {
    let field = |name: &str| {
        item.get(name)
            .and_then(|value| value.as_text())
            .map(text)
            .ok_or_else(|| format!("missing field `{}`", name))
    };
    let mut account = sample_account();
    account.id = field("id")?;
    account.access_token = field("access_token")?;
    account.zcode_jwt_token = field("zcode_jwt_token")?;
    Ok(account)
}

fn parsed(content: &str) -> Result<Vec<ZcodeAccount>, String> {
    parse_import_accounts(import_items(content)?.iter().map(decoded).collect())
}

#[test]
fn import_parser_accepts_export_wrapper_and_requires_tokens() {
    let accepted = parsed(&format!(r#"{{"accounts":[{}]}}"#, SAMPLE)).unwrap();
    assert_eq!(accepted.len(), 1);
    assert!(accepted[0].id.is_empty());

    let invalid = SAMPLE.replace("zcode-jwt-token", "");
    let error = parsed(&invalid).unwrap_err();
    assert!(error.contains("缺少必要 Token"));
}

#[test]
fn export_serializer_respects_selected_account_ids() {
    let pair = || {
        let first = sample_account();
        let mut second = sample_account();
        second.id = "zcode_second".to_string();
        second.user_id = Some("fixture-user-2".to_string());
        second.email = "second@example.com".to_string();
        vec![first, second]
    };
    let selected = serialize_accounts_for_export(pair(), &["zcode_second".to_string()]);
    assert_eq!(selected.len(), 1);
    assert_eq!(selected[0].id, "zcode_second");

    let all = serialize_accounts_for_export(pair(), &[]);
    assert_eq!(all.len(), 2);
}

#[test]
fn exports_need_the_list_of_accounts() {
    assert_eq!(export_accounts(Err(text("no")), &[]).unwrap_err(), "no");
    let none = export_accounts(Ok(vec![sample_account()]), &[text("other")]).unwrap();
    assert!(none.is_empty());
    let all = export_accounts(Ok(vec![sample_account()]), &[]).unwrap();
    assert_eq!(all, vec![sample_account()]);
}

#[test]
fn imports_are_arrays_or_objects() {
    let one = |n: u64| Json::Number(JsonNumber::PosInt(n));
    assert_eq!(import_items("[1,2]").unwrap(), vec![one(1), one(2)]);
    assert_eq!(import_items(r#"{"accounts":[3]}"#).unwrap(), vec![one(3)]);
    assert_eq!(
        import_items(r#"{"accounts":3}"#).unwrap(),
        vec![Json::Object(vec![(text("accounts"), one(3))])]
    );
    assert_eq!(import_items("7").unwrap_err(), "ZCode 导入数据必须是对象或数组");
    assert!(import_items("{").unwrap_err().starts_with("JSON 解析失败: "));
    assert_eq!(items_to_import(Err(text("eof"))).unwrap_err(), "JSON 解析失败: eof");
    assert_eq!(items_to_import(Ok(Json::Object(Vec::new()))).unwrap().len(), 1);
}

#[test]
fn the_first_failing_item_stops_an_import() {
    let blank = || {
        let mut account = sample_account();
        account.access_token = text(" ");
        account
    };
    assert_eq!(
        parse_import_accounts(vec![Ok(sample_account()), Err(text("bad")), Ok(blank())])
            .unwrap_err(),
        "ZCode 导入账号格式无效: bad"
    );
    assert_eq!(
        parse_import_accounts(vec![Ok(blank()), Err(text("bad"))]).unwrap_err(),
        "ZCode 导入账号缺少必要 Token"
    );
    let imported = parse_import_accounts(vec![Ok(sample_account()), Ok(sample_account())]).unwrap();
    assert_eq!(imported.len(), 2);
    let mut expected = sample_account();
    expected.id = String::new();
    assert_eq!(imported[1], expected);
}

fn account(user: &str) -> ZcodeAccount {
    let mut account = sample_account();
    account.id = String::new();
    account.user_id = Some(text(user));
    account
}

#[test]
fn imports_store_their_accounts_in_turn() {
    let (run, step) = begin_import(Ok(vec![account("a"), account("b")]));
    assert_eq!(step, ImportStep::Store(account("a")));
    let (run, step) = import_from_json(run, Ok(account("stored a")));
    assert_eq!(step, ImportStep::Store(account("b")));
    assert_eq!(run.stored, vec![account("stored a")]);
    let (_, step) = import_from_json(run, Ok(account("stored b")));
    assert_eq!(step, ImportStep::Finish(Ok(vec![account("stored a"), account("stored b")])));
}

#[test]
fn failures_end_an_import() {
    let (_, step) = begin_import(Err(text("bad")));
    assert_eq!(step, ImportStep::Finish(Err(text("bad"))));
    let (_, step) = begin_import(Ok(Vec::new()));
    assert_eq!(step, ImportStep::Finish(Ok(Vec::new())));
    let (run, _) = begin_import(Ok(vec![account("a"), account("b")]));
    let (run, step) = import_from_json(run, Err(text("full")));
    assert_eq!(step, ImportStep::Finish(Err(text("full"))));
    assert!(run.waiting.is_empty());
}

#[test]
fn importing_again_adds_no_summary() {
    let import = |index: ZcodeAccountIndex, now: i64| {
        let decoded = vec![Ok(account("a")), Ok(account("b")), Ok(account("a"))];
        let mut index = index;
        let (mut run, mut step) = begin_import(parse_import_accounts(decoded));
        loop {
            match step {
                ImportStep::Store(next) => {
                    let (stored, after) = upsert_account_at(next, None, index, now).unwrap();
                    index = after;
                    let (on, todo) = import_from_json(run, Ok(stored));
                    run = on;
                    step = todo;
                }
                ImportStep::Finish(result) => return (result.unwrap(), index),
            }
        }
    };
    let (first, index) = import(ZcodeAccountIndex::default(), 10);
    assert_eq!(first.len(), 3);
    assert_eq!(index.accounts.len(), 2);
    assert_eq!(first[0].id, account_id("zai", Some("a"), None));
    assert_eq!(first[2].id, first[0].id);
    let (second, again) = import(index, 20);
    assert_eq!(again.accounts.len(), 2);
    let ids = |accounts: &[ZcodeAccount]| -> Vec<String> {
        accounts.iter().map(|account| account.id.clone()).collect()
    };
    assert_eq!(ids(&second), ids(&first));
}

#[test]
fn numbers_are_told_apart() {
    let items = import_items("[18446744073709551615,-9223372036854775808,0,1e3]").unwrap();
    assert_eq!(items[0], Json::Number(JsonNumber::PosInt(u64::MAX)));
    assert_eq!(items[1], Json::Number(JsonNumber::NegInt(i64::MIN)));
    assert_eq!(items[2], Json::Number(JsonNumber::PosInt(0)));
    assert!(matches!(items[3], Json::Number(JsonNumber::Other(_))));
    assert_eq!(items[0].as_i64(), None);
    assert_eq!(items[1].as_i64(), Some(i64::MIN));
    assert_eq!(items[3].as_i64(), None);
}
