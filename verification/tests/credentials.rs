//! Credentials: their encrypted form, the file that holds them, and where it
//! lies.

use zcode_cockpit::account::ZcodeAccount;
use zcode_cockpit::credential::CREDENTIAL_PREFIX;
use zcode_cockpit::credential::HostIdentity;
use zcode_cockpit::credential::credential_key;
use zcode_cockpit::credential::credential_key_from_fallback;
use zcode_cockpit::credential::credential_secret_for_home;
use zcode_cockpit::credential::decode_component;
use zcode_cockpit::credential::decrypt_credential;
use zcode_cockpit::credential::decrypt_credential_with_key;
use zcode_cockpit::credential::encrypt_credential;
use zcode_cockpit::credential::encrypt_credential_with_nonce;
use zcode_cockpit::credential::fallback_credential_secret;
use zcode_cockpit::credential::opened_text;
use zcode_cockpit::credential::platform_name;
use zcode_cockpit::credential::sealed_credential_text;
use zcode_cockpit::credential::username;
use zcode_cockpit::credentials_file::ACTIVE_PROVIDER_KEY;
use zcode_cockpit::credentials_file::WriteNonces;
use zcode_cockpit::credentials_file::ZCODE_JWT_KEY;
use zcode_cockpit::credentials_file::account_from_credentials_path;
use zcode_cockpit::credentials_file::account_from_credentials_path_with_home;
use zcode_cockpit::credentials_file::account_from_credentials_path_with_home_at;
use zcode_cockpit::credentials_file::account_with_user_info;
use zcode_cockpit::credentials_file::credentials_path_for_instance_root;
use zcode_cockpit::credentials_file::decrypted_value;
use zcode_cockpit::credentials_file::default_credentials_path;
use zcode_cockpit::credentials_file::default_data_root_dir;
use zcode_cockpit::credentials_file::default_setting_path;
use zcode_cockpit::credentials_file::import_from_local;
use zcode_cockpit::credentials_file::inject_to_instance_root;
use zcode_cockpit::credentials_file::official_user_info;
use zcode_cockpit::credentials_file::read_json_map;
use zcode_cockpit::credentials_file::resolve_default_v2_dir;
use zcode_cockpit::credentials_file::value_string;
use zcode_cockpit::credentials_file::write_account_to_credentials_path;
use zcode_cockpit::credentials_file::write_account_to_credentials_path_with_home;
use zcode_cockpit::credentials_file::write_account_to_credentials_path_with_nonces;
use zcode_cockpit::json::Json;
use zcode_cockpit::json::find_member;
use zcode_cockpit::path::join_path;
use zcode_cockpit::path::path_style;
use zcode_cockpit::path::PathStyle;
use zcode_cockpit::transfer::import_items;

const UNIX: PathStyle = PathStyle::Unix;

fn text(value: &str) -> String {
    value.to_string()
}

fn json(source: &str) -> Json {
    import_items(&format!("[{}]", source)).unwrap().remove(0)
}

fn host() -> HostIdentity {
    HostIdentity {
        secret: None,
        os: text("linux"),
        user: Some(text("tester")),
        username: None,
    }
}

fn sample_account() -> ZcodeAccount {
    ZcodeAccount {
        id: text("zcode_fixture"),
        provider: text("zai"),
        email: text("fixture@example.com"),
        user_id: Some(text("fixture-user")),
        display_name: Some(text("Fixture User")),
        avatar_url: Some(text("https://example.com/avatar.png")),
        access_token: text("access-token"),
        refresh_token: Some(text("refresh-token")),
        zcode_jwt_token: text("zcode-jwt-token"),
        expires_at: Some(1_900_000_000),
        plan_type: None,
        quota_total: None,
        quota_used: None,
        quota_remaining: None,
        quota_reset_at: None,
        quota_query_last_error: Some(text("stale error")),
        quota_query_last_error_at: Some(1),
        usage_updated_at: None,
        tags: Some(vec![text("work")]),
        user_info_raw: Some(json(
            r#"{"user_id":"fixture-user","email":"fixture@example.com","name":"Fixture User","avatar":"https://example.com/avatar.png"}"#,
        )),
        subscription_raw: None,
        quota_raw: None,
        created_at: 1_700_000_000,
        last_used: 1_700_000_001,
    }
}

fn nonces() -> WriteNonces {
    WriteNonces {
        provider: [1; 12],
        access_token: [2; 12],
        refresh_token: [3; 12],
        user_info: [4; 12],
        zcode_jwt_token: [5; 12],
    }
}

#[test]
fn credential_cipher_matches_official_shape_and_round_trips() {
    let home = "/tmp/zcode-cipher-test-home";
    let encrypted = encrypt_credential("secret-value", home, &host()).unwrap();
    assert!(encrypted.starts_with(CREDENTIAL_PREFIX));
    assert_eq!(encrypted[CREDENTIAL_PREFIX.len()..].split('.').count(), 3);
    let lengths: Vec<usize> =
        encrypted[CREDENTIAL_PREFIX.len()..].split('.').map(str::len).collect();
    assert_eq!(lengths, [16, 22, 16]);
    assert_eq!(decrypt_credential(&encrypted, home, &host()).unwrap(), "secret-value");
}

#[test]
fn decrypts_fixed_official_enc_v1_fixture() {
    let key = credential_key_from_fallback("darwin", "/Users/zcode-test", "test-user");
    let encrypted =
        "enc:v1:AAECAwQFBgcICQoL.NTIF8rgqI66J7hvPIwTD8g.QTtgwDlfAEvz72ttQggYC2KZyVwLVA";
    assert_eq!(
        decrypt_credential_with_key(encrypted, &key).unwrap(),
        "official-fixture-token"
    );
}

#[test]
fn encrypting_with_the_fixture_nonce_gives_the_fixture() {
    let key = credential_key_from_fallback("darwin", "/Users/zcode-test", "test-user");
    let nonce = [0, 1, 2, 3, 4, 5, 6, 7, 8, 9, 10, 11];
    assert_eq!(
        encrypt_credential_with_nonce("official-fixture-token", &key, &nonce).unwrap(),
        "enc:v1:AAECAwQFBgcICQoL.NTIF8rgqI66J7hvPIwTD8g.QTtgwDlfAEvz72ttQggYC2KZyVwLVA"
    );
}

#[test]
fn fallback_credential_secret_matches_official_material() {
    assert_eq!(
        fallback_credential_secret("darwin", "/Users/zcode-test", "test-user"),
        "zcode-credential-fallback:darwin:/Users/zcode-test:test-user"
    );
}

#[test]
fn secrets_come_from_the_environment_unless_empty() {
    let mut identity = host();
    assert_eq!(
        credential_secret_for_home("/home/a", &identity),
        "zcode-credential-fallback:linux:/home/a:tester"
    );
    identity.secret = Some(String::new());
    assert_eq!(
        credential_secret_for_home("/home/a", &identity),
        "zcode-credential-fallback:linux:/home/a:tester"
    );
    identity.secret = Some(text("s3"));
    assert_eq!(credential_secret_for_home("/home/a", &identity), "s3");
}

#[test]
fn platforms_and_users_have_their_names() {
    assert_eq!(platform_name("macos"), "darwin");
    assert_eq!(platform_name("windows"), "win32");
    assert_eq!(platform_name("linux"), "linux");
    assert_eq!(username(&Some(text("a")), &Some(text("b"))), "a");
    assert_eq!(username(&None, &Some(text("b"))), "b");
    assert_eq!(username(&None, &None), "unknown");
}

#[test]
fn the_key_is_the_digest_of_the_secret() {
    let identity = HostIdentity {
        secret: Some(text("abc")),
        os: text("linux"),
        user: None,
        username: None,
    };
    let expected: [u8; 32] = [
        0xba, 0x78, 0x16, 0xbf, 0x8f, 0x01, 0xcf, 0xea, 0x41, 0x41, 0x40, 0xde, 0x5d, 0xae, 0x22,
        0x23, 0xb0, 0x03, 0x61, 0xa3, 0x96, 0x17, 0x7a, 0x9c, 0xb4, 0x10, 0xff, 0x61, 0xf2, 0x00,
        0x15, 0xad,
    ];
    assert_eq!(credential_key("/home/a", &identity), expected);
}

#[test]
fn texts_without_the_prefix_stay() {
    assert_eq!(decrypt_credential("plain", "/h", &host()).unwrap(), "plain");
    assert_eq!(decrypt_credential("", "/h", &host()).unwrap(), "");
}

#[test]
fn malformed_credentials_are_refused() {
    let key = [7u8; 32];
    let refused = |value: &str| decrypt_credential_with_key(value, &key).unwrap_err();
    assert_eq!(refused("enc:v1:a.b"), "ZCode 凭据密文格式无效");
    assert_eq!(refused("enc:v1:a.b.c.d"), "ZCode 凭据密文格式无效");
    assert!(refused("enc:v1:!!.AA.AA").starts_with("解析 ZCode 凭据密文失败: "));
    assert!(refused("enc:v1:AA.=.AA").starts_with("解析 ZCode 凭据密文失败: "));
    assert_eq!(refused("enc:v1:AAAA.AAAA.AAAA"), "ZCode 凭据密文参数无效");
    assert_eq!(
        refused("enc:v1:AAECAwQFBgcICQoL.NTIF8rgqI66J7hvPIwTD8g.QTtgwDlfAEvz72ttQggYC2KZyVwLVA"),
        "ZCode 凭据解密失败，当前用户或 HOME 与写入环境不一致"
    );
}

#[test]
fn parts_are_base64_without_padding() {
    assert_eq!(decode_component("AAEC_-8").unwrap(), vec![0, 1, 2, 0xff, 0xef]);
    assert_eq!(decode_component("").unwrap(), Vec::<u8>::new());
    assert!(decode_component("AAEC==").is_err());
    assert!(decode_component("A").is_err());
    assert!(decode_component("AB").is_err());
}

#[test]
fn opened_bytes_must_be_text() {
    assert_eq!(opened_text(Some(vec![0xe4, 0xbd, 0xa0])).unwrap(), "你");
    assert!(opened_text(Some(vec![0xff]))
        .unwrap_err()
        .starts_with("ZCode 凭据不是有效 UTF-8: "));
    assert_eq!(
        opened_text(None).unwrap_err(),
        "ZCode 凭据解密失败，当前用户或 HOME 与写入环境不一致"
    );
}

#[test]
fn sealed_bytes_become_three_parts() {
    let sealed: Vec<u8> = (0..19).collect();
    assert_eq!(
        sealed_credential_text(&[0; 12], sealed).unwrap(),
        "enc:v1:AAAAAAAAAAAAAAAA.AwQFBgcICQoLDA0ODxAREg.AAEC"
    );
    assert_eq!(
        sealed_credential_text(&[0; 12], vec![0; 15]).unwrap_err(),
        "ZCode 凭据加密结果无效"
    );
}

#[test]
fn credentials_of_another_user_are_refused() {
    let encrypted = encrypt_credential("secret-value", "/home/a", &host()).unwrap();
    assert_eq!(
        decrypt_credential(&encrypted, "/home/b", &host()).unwrap_err(),
        "ZCode 凭据解密失败，当前用户或 HOME 与写入环境不一致"
    );
}

#[test]
fn credentials_write_and_read_round_trip_in_instance_directory() {
    let root = "/tmp/zcode-credentials-round-trip";
    let path = credentials_path_for_instance_root(UNIX, root);
    assert_eq!(path, "/tmp/zcode-credentials-round-trip/data/.zcode/v2/credentials.json");
    let existing = r#"{"preserved":"value","oauth:bigmodel:access_token":"obsolete"}"#;

    let account = sample_account();
    let credential_home = "/Users/zcode-round-trip-test";
    let content = write_account_to_credentials_path_with_home(
        &account,
        Some(Ok(text(existing))),
        credential_home,
        &host(),
    )
    .unwrap();
    let written = read_json_map(Some(Ok(content.clone()))).unwrap();
    assert_eq!(find_member(&written, "preserved"), Some(&Json::Text(text("value"))));
    assert!(find_member(&written, "oauth:bigmodel:access_token").is_none());
    assert!(find_member(&written, ACTIVE_PROVIDER_KEY)
        .and_then(|value| value.as_text())
        .is_some_and(|value| value.starts_with(CREDENTIAL_PREFIX)));

    let restored =
        account_from_credentials_path_with_home(Some(Ok(content)), credential_home, &host())
            .unwrap();
    assert_eq!(restored.provider, account.provider);
    assert_eq!(restored.email, account.email);
    assert_eq!(restored.user_id, account.user_id);
    assert_eq!(restored.access_token, account.access_token);
    assert_eq!(restored.refresh_token, account.refresh_token);
    assert_eq!(restored.zcode_jwt_token, account.zcode_jwt_token);
}

#[test]
fn the_members_of_a_user_are_told_by_their_provider() {
    let mut account = sample_account();
    account.provider = text(" BigModel ");
    account.refresh_token = Some(text("  "));
    account.user_info_raw = None;
    account.display_name = None;
    let content = write_account_to_credentials_path_with_nonces(
        &account,
        Some(Ok(text(
            r#"{"oauth:zai:user_info":"x","oauth:bigmodel:refresh_token":"y","keep":[1,2.5,{"a":null}]}"#,
        ))),
        "/h",
        &host(),
        &nonces(),
    )
    .unwrap();
    let written = read_json_map(Some(Ok(content.clone()))).unwrap();
    assert!(find_member(&written, "oauth:zai:user_info").is_none());
    assert!(find_member(&written, "oauth:bigmodel:refresh_token").is_none());
    assert_eq!(find_member(&written, "keep"), Some(&json(r#"[1,2.5,{"a":null}]"#)));
    let meaning = |name: &str| decrypted_value(&written, name, "/h", &host()).unwrap();
    assert_eq!(meaning(ACTIVE_PROVIDER_KEY), Some(text("bigmodel")));
    assert_eq!(meaning("oauth:bigmodel:access_token"), Some(text("access-token")));
    assert_eq!(meaning(ZCODE_JWT_KEY), Some(text("zcode-jwt-token")));
    let info = json(&meaning("oauth:bigmodel:user_info").unwrap());
    assert_eq!(info.get("name"), Some(&Json::Null));
    assert_eq!(info.get("user_id"), Some(&Json::Text(text("fixture-user"))));

    let restored =
        account_from_credentials_path_with_home_at(Some(Ok(content)), "/h", &host(), 77).unwrap();
    assert_eq!(restored.provider, "bigmodel");
    assert_eq!(restored.refresh_token, None);
    assert_eq!(restored.display_name, None);
    assert_eq!(restored.created_at, 77);
    assert_eq!(restored.last_used, 77);
}

#[test]
fn equal_nonces_write_equal_files_and_chance_does_not() {
    let account = sample_account();
    let fixed = || {
        write_account_to_credentials_path_with_nonces(&account, None, "/h", &host(), &nonces())
            .unwrap()
    };
    assert_eq!(fixed(), fixed());
    let by_chance =
        || write_account_to_credentials_path(&account, None, Some("/h"), &host()).unwrap();
    assert_ne!(by_chance(), by_chance());
    assert!(fixed().starts_with("{\n  \""));
}

#[test]
fn credentials_files_that_cannot_be_read_are_refused() {
    let refused = |read: Option<Result<String, String>>| read_json_map(read).unwrap_err();
    assert_eq!(refused(Some(Err(text("denied")))), "读取 ZCode 凭据失败: denied");
    assert!(refused(Some(Ok(text("{")))).starts_with("解析 ZCode 凭据失败: "));
    assert_eq!(refused(Some(Ok(text("[]")))), "ZCode 凭据文件必须是 JSON 对象");
    assert!(read_json_map(None).unwrap().is_empty());
    let too_deep = format!("{{\"a\":{}{}}}", "[".repeat(128), "]".repeat(128));
    assert!(refused(Some(Ok(too_deep))).starts_with("解析 ZCode 凭据失败: "));
}

#[test]
fn incomplete_credentials_are_refused_in_order() {
    let refused = |content: &str| {
        account_from_credentials_path_with_home(Some(Ok(text(content))), "/h", &host()).unwrap_err()
    };
    assert_eq!(refused("{}"), "ZCode 本地凭据缺少 active provider");
    assert_eq!(
        refused(r#"{"oauth:active_provider":"other"}"#),
        "不支持的 ZCode OAuth provider"
    );
    assert_eq!(
        refused(r#"{"oauth:active_provider":"zai"}"#),
        "ZCode 本地凭据缺少 access token"
    );
    assert_eq!(
        refused(r#"{"oauth:active_provider":"zai","oauth:zai:access_token":"t"}"#),
        "ZCode 本地凭据缺少 zcode JWT"
    );
    assert_eq!(
        refused(
            r#"{"oauth:active_provider":"zai","oauth:zai:access_token":"t","oauth:zai:refresh_token":"enc:v1:"}"#
        ),
        "ZCode 凭据密文格式无效"
    );
}

#[test]
fn unencrypted_credentials_are_read_too() {
    let content = r#"{"oauth:active_provider":" ZAI ","oauth:zai:access_token":"t","zcodejwttoken":"j","oauth:zai:user_info":"{\"id\":\" u1 \",\"displayName\":\"N\",\"picture\":\"P\"}"}"#;
    let account =
        account_from_credentials_path_with_home(Some(Ok(text(content))), "/h", &host()).unwrap();
    assert_eq!(account.provider, "zai");
    assert_eq!(account.user_id, Some(text("u1")));
    assert_eq!(account.email, "unknown@zcode.local");
    assert_eq!(account.display_name, Some(text("N")));
    assert_eq!(account.avatar_url, Some(text("P")));
    assert_eq!(account.refresh_token, None);
    assert_eq!(account.id, "zcode_281d6cf6ca19ded8b565c5e6ff2c3471");
}

#[test]
fn user_data_that_cannot_be_parsed_count_as_none() {
    let content = r#"{"oauth:active_provider":"zai","oauth:zai:access_token":"t","zcodejwttoken":"j","oauth:zai:user_info":"not json"}"#;
    let account =
        account_from_credentials_path_with_home(Some(Ok(text(content))), "/h", &host()).unwrap();
    assert_eq!(account.user_id, None);
    assert_eq!(account.user_info_raw, Some(Json::Object(Vec::new())));
}

#[test]
fn the_first_text_among_the_names_counts() {
    let value = json(r#"{"a":1,"b":"  ","c":"x"}"#);
    assert_eq!(value_string(&value, &["a", "c", "b"]), Some(text("x")));
    assert_eq!(value_string(&value, &["a", "b", "c"]), None);
    assert_eq!(value_string(&value, &["z"]), None);
    assert_eq!(value_string(&json("[]"), &["a"]), None);
}

#[test]
fn accounts_are_made_of_the_user_data() {
    let account = account_with_user_info(
        text("zai"),
        text("a"),
        None,
        text("j"),
        json(r#"{"sub":"s","email":" e@x ","nickName":"n"}"#),
        5,
    );
    assert_eq!(account.user_id, Some(text("s")));
    assert_eq!(account.email, "e@x");
    assert_eq!(account.display_name, Some(text("n")));
    assert_eq!(account.id, "zcode_4e2b956899a81c71b9b424d697197997");
    assert_eq!(account.tags, None);
    assert_eq!(account.created_at, 5);
}

#[test]
fn user_data_that_came_with_the_account_are_kept() {
    let mut account = sample_account();
    account.user_info_raw = Some(json(r#"{"custom":[true,false]}"#));
    assert_eq!(official_user_info(&account), json(r#"{"custom":[true,false]}"#));
}

#[test]
fn the_settings_may_move_the_data() {
    let moved = Some(text(r#"{"dataBaseDir":" /mnt/data "}"#));
    assert_eq!(resolve_default_v2_dir(UNIX, Some("/home/u"), None).unwrap(), "/home/u/.zcode/v2");
    assert_eq!(
        resolve_default_v2_dir(UNIX, Some("/home/u"), moved.clone()).unwrap(),
        "/mnt/data/.zcode/v2"
    );
    assert_eq!(
        default_credentials_path(UNIX, Some("/home/u"), moved.clone()).unwrap(),
        "/mnt/data/.zcode/v2/credentials.json"
    );
    assert_eq!(default_data_root_dir(UNIX, Some("/home/u"), moved).unwrap(), "/mnt/data/.zcode");
    assert_eq!(
        default_data_root_dir(UNIX, Some("/home/u"), Some(text("not json"))).unwrap(),
        "/home/u/.zcode"
    );
    assert_eq!(
        default_credentials_path(UNIX, Some("/home/u/"), Some(text(r#"{"dataBaseDir":3}"#))).unwrap(),
        "/home/u/.zcode/v2/credentials.json"
    );
    assert_eq!(default_setting_path(UNIX, "/home/u"), "/home/u/.zcode/v2/setting.json");
}

#[test]
fn without_a_home_nothing_is_found() {
    let missing = "无法获取用户主目录";
    assert_eq!(resolve_default_v2_dir(UNIX, None, None).unwrap_err(), missing);
    assert_eq!(default_credentials_path(UNIX, None, None).unwrap_err(), missing);
    assert_eq!(default_data_root_dir(UNIX, None, None).unwrap_err(), missing);
    assert_eq!(account_from_credentials_path(None, None, &host()).unwrap_err(), missing);
    assert_eq!(
        write_account_to_credentials_path(&sample_account(), None, None, &host()).unwrap_err(),
        missing
    );
    assert_eq!(import_from_local(None, None, &host()).unwrap_err(), missing);
    assert_eq!(
        inject_to_instance_root(Some(sample_account()), None, None, &host()).unwrap_err(),
        missing
    );
}

#[test]
fn local_accounts_need_a_credentials_file() {
    assert_eq!(
        import_from_local(None, Some("/h"), &host()).unwrap_err(),
        "未找到 ZCode 本地 credentials.json"
    );
    let content =
        write_account_to_credentials_path(&sample_account(), None, Some("/h"), &host()).unwrap();
    let account = import_from_local(Some(Ok(content)), Some("/h"), &host()).unwrap();
    assert_eq!(account.email, "fixture@example.com");
}

#[test]
fn accounts_are_given_to_instances() {
    assert_eq!(
        inject_to_instance_root(None, None, Some("/h"), &host()).unwrap_err(),
        "ZCode 账号不存在"
    );
    let (account, content) =
        inject_to_instance_root(Some(sample_account()), None, Some("/h"), &host()).unwrap();
    assert_eq!(account, sample_account());
    let restored = account_from_credentials_path(Some(Ok(content)), Some("/h"), &host()).unwrap();
    assert_eq!(restored.access_token, "access-token");
}

#[test]
fn user_data_are_read_back_up_to_a_depth() {
    let nested = |levels: usize| {
        let mut value = Json::Null;
        for _ in 1..levels {
            value = Json::Array(vec![value]);
        }
        Json::Object(vec![(text("user_id"), Json::Text(text("u"))), (text("deep"), value)])
    };
    for (levels, user_id) in [(127, Some(text("u"))), (128, None)] {
        let mut account = sample_account();
        account.user_info_raw = Some(nested(levels));
        let content =
            write_account_to_credentials_path(&account, None, Some("/h"), &host()).unwrap();
        let restored =
            account_from_credentials_path(Some(Ok(content)), Some("/h"), &host()).unwrap();
        assert_eq!(restored.user_id, user_id);
        assert_eq!(restored.access_token, "access-token");
    }
}

#[test]
fn files_are_read_up_to_a_depth() {
    let file = |levels: usize| {
        format!("{{\"a\":{}{}}}", "[".repeat(levels - 1), "]".repeat(levels - 1))
    };
    let values = read_json_map(Some(Ok(file(127)))).unwrap();
    assert_eq!(values.len(), 1);
    assert!(read_json_map(Some(Ok(file(128)))).is_err());
    let content = write_account_to_credentials_path(
        &sample_account(),
        Some(Ok(file(127))),
        Some("/h"),
        &host(),
    )
    .unwrap();
    let written = read_json_map(Some(Ok(content))).unwrap();
    assert_eq!(find_member(&written, "a"), find_member(&values, "a"));
}

#[test]
fn numbers_and_texts_survive_a_rewrite() {
    let existing = r#"{"n":[0,-1,18446744073709551615,-9223372036854775808,0.25,1e300],"t":"\u0000\"\\\n你😀","b":true,"o":{"x":{}}}"#;
    let content = write_account_to_credentials_path(
        &sample_account(),
        Some(Ok(text(existing))),
        Some("/h"),
        &host(),
    )
    .unwrap();
    let before = read_json_map(Some(Ok(text(existing)))).unwrap();
    let after = read_json_map(Some(Ok(content))).unwrap();
    for name in ["n", "t", "b", "o"] {
        assert!(find_member(&before, name).is_some());
        assert_eq!(find_member(&after, name), find_member(&before, name));
    }
}

#[test]
fn windows_paths_are_joined_as_windows_does() {
    let windows = PathStyle::Windows;
    assert_eq!(
        credentials_path_for_instance_root(windows, r"C:\i"),
        r"C:\i\data/.zcode/v2\credentials.json"
    );
    assert_eq!(
        credentials_path_for_instance_root(windows, r"C:\i\"),
        r"C:\i\data/.zcode/v2\credentials.json"
    );
    assert_eq!(
        credentials_path_for_instance_root(windows, "C:/i/"),
        r"C:/i/data/.zcode/v2\credentials.json"
    );
    assert_eq!(
        credentials_path_for_instance_root(windows, "c:"),
        r"c:data/.zcode/v2\credentials.json"
    );
    assert_eq!(
        credentials_path_for_instance_root(windows, r"\\?\C:\i"),
        r"\\?\C:\i\data\.zcode\v2\credentials.json"
    );
    assert_eq!(
        default_credentials_path(
            windows,
            Some(r"C:\Users\u"),
            Some(text(r#"{"dataBaseDir":"D:\\data"}"#))
        )
        .unwrap(),
        r"D:\data\.zcode/v2\credentials.json"
    );
    assert_eq!(
        default_data_root_dir(windows, Some(r"C:\Users\u"), None).unwrap(),
        r"C:\Users\u\.zcode"
    );
    assert_eq!(path_style("windows"), PathStyle::Windows);
    assert_eq!(path_style("linux"), PathStyle::Unix);
    assert_eq!(path_style("macos"), PathStyle::Unix);
    assert_eq!(join_path(UNIX, r"a\", "b"), r"a\/b");
    assert_eq!(join_path(windows, "", "b"), "b");
    assert_eq!(join_path(windows, "1:", "b"), r"1:\b");
    assert_eq!(join_path(windows, r"\\?\C:\a\\b", "x"), r"\\?\C:\a\b\x");
    assert_eq!(join_path(windows, r"\\?\C:\a\\\", "x"), r"\\?\C:\a\x");
    assert_eq!(join_path(windows, r"\\?\UNC\s\h\\d", "x"), r"\\?\UNC\s\h\d\x");
    assert_eq!(join_path(windows, r"C:\a\\b", "x"), r"C:\a\\b\x");
}

#[test]
fn written_members_have_the_official_shape() {
    let account = sample_account();
    let content =
        write_account_to_credentials_path(&account, None, Some("/h"), &host()).unwrap();
    let written = read_json_map(Some(Ok(content))).unwrap();
    for name in [
        ACTIVE_PROVIDER_KEY,
        ZCODE_JWT_KEY,
        "oauth:zai:access_token",
        "oauth:zai:refresh_token",
        "oauth:zai:user_info",
    ] {
        let member = find_member(&written, name).and_then(|value| value.as_text()).unwrap();
        assert!(member.starts_with(CREDENTIAL_PREFIX));
        let parts: Vec<&str> = member[CREDENTIAL_PREFIX.len()..].split('.').collect();
        assert_eq!(parts.len(), 3);
        assert_eq!((parts[0].len(), parts[1].len()), (16, 22));
    }
    assert_eq!(written.len(), 5);
}
