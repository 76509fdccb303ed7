//! Quotas: the request, its reply, and what the reply does to an account.

use zcode_cockpit::account::QuotaAmount;
use zcode_cockpit::account::ZcodeAccount;
use zcode_cockpit::json::Json;
use zcode_cockpit::json::JsonNumber;
use zcode_cockpit::quota::account_to_refresh;
use zcode_cockpit::quota::apply_quota_payload;
use zcode_cockpit::quota::apply_quota_payload_at;
use zcode_cockpit::quota::billing_url;
use zcode_cockpit::quota::detect_app_version;
use zcode_cockpit::quota::quota_answer;
use zcode_cockpit::quota::quota_payload;
use zcode_cockpit::quota::quota_units;
use zcode_cockpit::quota::refresh_account_quota;
use zcode_cockpit::quota::refresh_account_quota_at;
use zcode_cockpit::quota::refresh_all_accounts;
use zcode_cockpit::quota::refreshed_or_stored;
use zcode_cockpit::quota::QuotaReply;
use zcode_cockpit::quota::QuotaTotals;
use zcode_cockpit::transfer::import_items;

fn text(value: &str) -> String {
    value.to_string()
}

fn json(source: &str) -> Json {
    import_items(&format!("[{}]", source)).unwrap().remove(0)
}

fn amount(value: f64) -> QuotaAmount {
    QuotaAmount { bits: value.to_bits() }
}

fn value_of(number: &JsonNumber) -> f64 {
    match number {
        JsonNumber::PosInt(n) => *n as f64,
        JsonNumber::NegInt(n) => *n as f64,
        JsonNumber::Other(n) => n.as_f64().unwrap(),
    }
}

fn sum(numbers: &[Option<JsonNumber>]) -> QuotaAmount {
    amount(numbers.iter().map(|number| number.as_ref().map_or(0.0, value_of)).sum())
}

fn totals(payload: &Json) -> QuotaTotals {
    let units = quota_units(payload);
    QuotaTotals {
        total: sum(&units.total),
        used: sum(&units.used),
        remaining: sum(&units.remaining),
    }
}

fn sample_account() -> ZcodeAccount {
    ZcodeAccount {
        id: text("zcode_fixture"),
        provider: text("zai"),
        email: text("fixture@example.com"),
        user_id: Some(text("fixture-user")),
        display_name: Some(text("Fixture User")),
        avatar_url: Some(text("https://example.com/avatar.png")),
        access_token: text("access-token"),
        refresh_token: Some(text("refresh-token")),
        zcode_jwt_token: text("zcode-jwt-token"),
        expires_at: Some(1_900_000_000),
        plan_type: None,
        quota_total: None,
        quota_used: None,
        quota_remaining: None,
        quota_reset_at: None,
        quota_query_last_error: Some(text("stale error")),
        quota_query_last_error_at: Some(1),
        usage_updated_at: None,
        tags: Some(vec![text("work")]),
        user_info_raw: Some(Json::Object(vec![
            (text("user_id"), Json::Text(text("fixture-user"))),
            (text("email"), Json::Text(text("fixture@example.com"))),
            (text("name"), Json::Text(text("Fixture User"))),
            (text("avatar"), Json::Text(text("https://example.com/avatar.png"))),
        ])),
        subscription_raw: None,
        quota_raw: None,
        created_at: 1_700_000_000,
        last_used: 1_700_000_001,
    }
}

const MODELS: &str = r#"{
    "code": 0,
    "data": {
        "plans": [
            {"name": "Expired Plan", "status": "expired"},
            {
                "plan_id": "zcode-v3-start-plan-0615",
                "name": "ZCode Start Plan",
                "status": "active"
            }
        ],
        "balances": [
            {
                "show_name": "GLM-5.2",
                "total_units": 3000000,
                "used_units": 0,
                "remaining_units": 3000000,
                "available_units": 3000000,
                "period_end": 1783785599,
                "expires_at": 1783785599
            },
            {
                "show_name": "GLM-5-Turbo",
                "total_units": 2000000,
                "used_units": 250000,
                "remaining_units": 1750000,
                "available_units": 1750000,
                "period_end": 1783785599,
                "expires_at": 1783785599
            }
        ]
    }
}"#;

#[test]
fn quota_payload_aggregates_models_and_prefers_active_plan() {
    let mut account = sample_account();
    let payload = json(MODELS);
    apply_quota_payload(&mut account, &payload, totals(&payload)).unwrap();

    assert_eq!(account.plan_type.as_deref(), Some("ZCode Start Plan"));
    assert_eq!(account.quota_total, Some(amount(5_000_000.0)));
    assert_eq!(account.quota_used, Some(amount(250_000.0)));
    assert_eq!(account.quota_remaining, Some(amount(4_750_000.0)));
    assert_eq!(account.quota_reset_at, Some(1_783_785_599));
    assert!(matches!(&account.quota_raw, Some(Json::Array(items)) if items.len() == 2));
    assert!(account.usage_updated_at.is_some());
    assert!(account.quota_query_last_error.is_none());
    assert!(account.quota_query_last_error_at.is_none());
}

#[test]
fn quota_payload_surfaces_api_error_without_overwriting_existing_values() {
    let mut account = sample_account();
    account.plan_type = Some("Existing Plan".to_string());
    let payload = json(r#"{"code": 3001, "msg": "app_version is required"}"#);
    let error = apply_quota_payload(&mut account, &payload, totals(&payload)).unwrap_err();
    assert_eq!(error, "app_version is required");
    assert_eq!(account.plan_type.as_deref(), Some("Existing Plan"));
    let mut unchanged = sample_account();
    unchanged.plan_type = Some("Existing Plan".to_string());
    assert_eq!(account, unchanged);
}

#[test]
fn replies_without_code_zero_are_failures() {
    for payload in ["{}", r#"{"code":"0"}"#, r#"{"code":0.5,"msg":3}"#, "null", "[0]"] {
        let payload = json(payload);
        let error =
            apply_quota_payload(&mut sample_account(), &payload, totals(&payload)).unwrap_err();
        assert_eq!(error, "ZCode 配额接口返回失败");
    }
}

#[test]
fn replies_without_data_empty_the_quota() {
    let mut account = sample_account();
    account.plan_type = Some(text("Existing Plan"));
    let payload = json(r#"{"code":0}"#);
    apply_quota_payload_at(&mut account, &payload, totals(&payload), 99).unwrap();
    assert_eq!(account.plan_type, None);
    assert_eq!(account.quota_reset_at, None);
    assert_eq!(account.quota_raw, Some(Json::Array(Vec::new())));
    assert_eq!(account.subscription_raw, Some(Json::Array(Vec::new())));
    assert_eq!(account.usage_updated_at, Some(99));
}

#[test]
fn plans_are_chosen_by_status_and_named_by_their_first_text() {
    let chosen = |plans: &str| {
        let payload = json(&format!(r#"{{"code":0,"data":{{"plans":{}}}}}"#, plans));
        let mut account = sample_account();
        apply_quota_payload_at(&mut account, &payload, totals(&payload), 1).unwrap();
        account.plan_type
    };
    assert_eq!(chosen(r#"[{"name":"a"},{"name":"b"}]"#), Some(text("a")));
    assert_eq!(
        chosen(r#"[{"name":"a"},{"plan_id":" b ","status":"active"},{"name":"c","status":"active"}]"#),
        Some(text("b"))
    );
    assert_eq!(chosen(r#"[{"name":" ","plan_id":"b"}]"#), None);
    assert_eq!(chosen(r#"{"name":"a"}"#), None);
}

#[test]
fn the_earliest_reset_counts() {
    let reset = |balances: &str| {
        let payload = json(&format!(r#"{{"code":0,"data":{{"balances":{}}}}}"#, balances));
        let mut account = sample_account();
        apply_quota_payload_at(&mut account, &payload, totals(&payload), 1).unwrap();
        account.quota_reset_at
    };
    assert_eq!(reset(r#"[{"period_end":9},{"expires_at":4},{"period_end":7}]"#), Some(4));
    assert_eq!(reset(r#"[{"period_end":null,"expires_at":4}]"#), None);
    assert_eq!(reset(r#"[{"period_end":-3},{"period_end":18446744073709551615}]"#), Some(-3));
    assert_eq!(reset("[]"), None);
}

#[test]
fn units_are_listed_for_each_balance() {
    let payload = json(
        r#"{"data":{"balances":[{"total_units":1,"used_units":-2,"available_units":3},{"total_units":"4","remaining_units":null,"available_units":5},{"remaining_units":0.5}]}}"#,
    );
    let units = quota_units(&payload);
    assert_eq!(units.total, vec![Some(JsonNumber::PosInt(1)), None, None]);
    assert_eq!(units.used, vec![Some(JsonNumber::NegInt(-2)), None, None]);
    assert_eq!(units.remaining.len(), 3);
    assert_eq!(units.remaining[0], Some(JsonNumber::PosInt(3)));
    assert_eq!(units.remaining[1], None);
    assert_eq!(sum(&units.remaining), amount(3.5));
}

#[test]
fn refreshing_stores_the_quota_or_the_error() {
    let payload = json(MODELS);
    let sums = totals(&payload);
    let (stored, result) = refresh_account_quota_at(sample_account(), Ok(payload), sums, 50);
    assert_eq!(result, Ok(()));
    assert_eq!(stored.usage_updated_at, Some(50));
    assert_eq!(stored.quota_query_last_error, None);

    let refused = json(r#"{"code":1,"msg":"m"}"#);
    let (stored, result) = refresh_account_quota_at(sample_account(), Ok(refused), sums, 51);
    assert_eq!(result, Err(text("m")));
    assert_eq!(stored.quota_query_last_error, Some(text("m")));
    assert_eq!(stored.quota_query_last_error_at, Some(51));
    assert_eq!(stored.quota_total, None);

    let (stored, result) = refresh_account_quota(sample_account(), Err(text("down")), sums);
    assert_eq!(result, Err(text("down")));
    assert_eq!(stored.quota_query_last_error, Some(text("down")));
    assert!(stored.quota_query_last_error_at > Some(1_600_000_000_000));
}

#[test]
fn failed_requests_have_their_messages() {
    assert_eq!(
        quota_payload(QuotaReply::Unanswered(text("timeout"))).unwrap_err(),
        "请求 ZCode 配额失败: timeout"
    );
    assert_eq!(
        quota_payload(QuotaReply::Refused(text("401 Unauthorized"))).unwrap_err(),
        "请求 ZCode 配额失败: HTTP 401 Unauthorized"
    );
    assert_eq!(
        quota_payload(QuotaReply::Unreadable(text("eof"))).unwrap_err(),
        "解析 ZCode 配额失败: eof"
    );
    assert_eq!(quota_payload(QuotaReply::Answered(json("[1]"))).unwrap(), json("[1]"));
}

#[test]
fn the_request_names_the_version() {
    assert_eq!(detect_app_version(None), "3.3.4");
    assert_eq!(detect_app_version(Some((true, text(" 4.0.1\n")))), "4.0.1");
    assert_eq!(detect_app_version(Some((false, text("4.0.1")))), "3.3.4");
    assert_eq!(detect_app_version(Some((true, text(" ")))), "3.3.4");
    assert_eq!(
        billing_url("3.3.4"),
        "https://zcode.z.ai/api/v1/zcode-plan/billing/balance?app_version=3.3.4"
    );
}

#[test]
fn successes_are_counted() {
    assert_eq!(refresh_all_accounts(Ok(vec![true, false, true])).unwrap(), 2);
    assert_eq!(refresh_all_accounts(Ok(Vec::new())).unwrap(), 0);
    assert_eq!(refresh_all_accounts(Err(text("no"))).unwrap_err(), "no");
}

#[test]
fn quotas_are_asked_of_accounts_that_are_there() {
    assert_eq!(account_to_refresh(None).unwrap_err(), "ZCode 账号不存在");
    assert_eq!(account_to_refresh(Some(sample_account())), Ok(sample_account()));
}

#[test]
fn the_error_of_a_quota_goes_before_what_was_stored() {
    let lost = || Err(text("lost"));
    assert_eq!(quota_answer(Ok(()), Ok(sample_account())), Ok(sample_account()));
    assert_eq!(quota_answer(Ok(()), Err(text("full"))).unwrap_err(), "full");
    assert_eq!(quota_answer(lost(), Ok(sample_account())).unwrap_err(), "lost");
    assert_eq!(quota_answer(lost(), Err(text("full"))).unwrap_err(), "lost");
}

#[test]
fn accounts_that_are_not_refreshed_are_answered_as_stored() {
    let mut newer = sample_account();
    newer.plan_type = Some(text("ZCode Start Plan"));
    let refreshed = refreshed_or_stored(Ok(newer), sample_account());
    assert_eq!(refreshed.plan_type, Some(text("ZCode Start Plan")));
    assert_eq!(refreshed_or_stored(Err(text("lost")), sample_account()), sample_account());
}
