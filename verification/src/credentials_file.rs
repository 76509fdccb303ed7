//! The file in which the ZCode client keeps its credentials: where it lies, how
//! an account is read out of it, and how an account is written into it.

use vstd::prelude::*;
use vstd::string::*;
use vstd::utf8::*;
use crate::account::{
    AccountView, ZcodeAccount, lemma_unknown_email_not_blank, normal_providers_stay,
    normalize_optional, normalize_provider, normalize_string, normalized, normalized_provider,
    unknown_email,
};
use crate::account_files::{account_id, account_identity, identifier};
use crate::clock::{is_time, time_of_day};
use crate::credential::{
    HostIdentity, credential_fits, credential_key, decrypt_credential, decrypted,
    encrypt_credential_with_nonce, encrypted, has_official_shape, key_for_home,
};
use crate::crypto::{draw_nonce, is_drawn_nonce, md5_hex};
use crate::encoding::base64_fits;
use crate::json::{
    Json, JsonView, Members, alike_values_hold_the_same_texts, compact_json, find_member,
    json_compact, json_parse, json_pretty, json_view, lemma_with, lemma_with_text_keeps_nesting,
    lemma_without, lemma_without_keeps_nesting, max_nesting, member, members_view, parse_json,
    pretty_json, reads_back, remove_member, set_member, stayed, with, without,
};
use crate::path::{
    PathStyle, is_plain, is_verbatim, join_path, lemma_joined_base, path_below,
    paths_below_different_bases_differ, same_base, separator, written_below,
};
use crate::text::{
    ascii_lower, is_blank, joined, outcome, reading, trimmed, trimming_is_idempotent,
};

verus! {

/// The credentials file, below the directory of its version.
pub const CREDENTIALS_FILE: &'static str = "credentials.json";

/// The settings file, below the directory of its version.
pub const SETTINGS_FILE: &'static str = "setting.json";

/// The member that names the provider in use.
pub const ACTIVE_PROVIDER_KEY: &'static str = "oauth:active_provider";

/// The member that holds the ZCode token.
pub const ZCODE_JWT_KEY: &'static str = "zcodejwttoken";

/// The directory that the setting `dataBaseDir` names.
pub open spec fn named_base(settings: Result<JsonView, Seq<char>>) -> Option<Seq<char>> {
    match settings {
        Ok(value) => normalized(value.get_text("dataBaseDir"@)),
        Err(_) => None,
    }
}

/// The directory that the setting `dataBaseDir` names, where `settings` is what
/// the settings file was parsed into.
pub fn data_base_dir(settings: &Json) -> (res: Option<String>)
    ensures
        res.deep_view() == named_base(Ok(settings@)),
{
    match settings.get("dataBaseDir") {
        Some(value) => normalize_string(value.as_text()),
        None => None,
    }
}

/// The directory below which the client keeps its data: the one that the
/// settings name, or else the user's home.
pub open spec fn data_base(home: Seq<char>, setting: Option<Seq<char>>) -> Seq<char> {
    match setting {
        Some(content) => match named_base(json_parse(content)) {
            Some(base) => base,
            None => home,
        },
        None => home,
    }
}

/// What a path below the client's data is, where the user's home may not be
/// known.
pub open spec fn below_data_base(
    style: PathStyle,
    home: Option<Seq<char>>,
    setting: Option<Seq<char>>,
    relative: Seq<char>,
) -> Result<Seq<char>, Seq<char>> {
    match home {
        None => Err("无法获取用户主目录"@),
        Some(home) => Ok(path_below(style, data_base(home, setting), relative)),
    }
}

fn base_path(style: PathStyle, home: Option<&str>, setting: Option<String>, relative: &str) -> (res:
    Result<String, String>)
    ensures
        outcome(res) == below_data_base(style, home.deep_view(), setting.deep_view(), relative@),
{
    let home = match home {
        None => return Err("无法获取用户主目录".to_owned()),
        Some(home) => home,
    };
    match setting {
        Some(content) => match parse_json(content.as_str()) {
            Ok(value) => match data_base_dir(&value) {
                Some(base) => Ok(join_path(style, base.as_str(), relative)),
                None => Ok(join_path(style, home, relative)),
            },
            Err(_) => Ok(join_path(style, home, relative)),
        },
        None => Ok(join_path(style, home, relative)),
    }
}

/// The directory of the client's files. `setting` is what the settings file
/// below the user's home holds, where it can be read.
pub fn resolve_default_v2_dir(style: PathStyle, home: Option<&str>, setting: Option<String>) -> (res:
    Result<String, String>)
    ensures
        outcome(res) == below_data_base(style, home.deep_view(), setting.deep_view(), ".zcode/v2"@),
{
    base_path(style, home, setting, ".zcode/v2")
}

/// The settings file below the user's home.
pub fn default_setting_path(style: PathStyle, home: &str) -> (res: String)
    ensures
        res@ == path_below(style, path_below(style, home@, ".zcode/v2"@), SETTINGS_FILE@),
{
    join_path(style, join_path(style, home, ".zcode/v2").as_str(), SETTINGS_FILE)
}

/// The credentials file of the client's own profile.
pub fn default_credentials_path(style: PathStyle, home: Option<&str>, setting: Option<String>) -> (res:
    Result<String, String>)
    ensures
        outcome(res) == match below_data_base(
            style,
            home.deep_view(),
            setting.deep_view(),
            ".zcode/v2"@,
        ) {
            Ok(directory) => Ok::<Seq<char>, Seq<char>>(path_below(style, directory, CREDENTIALS_FILE@)),
            Err(message) => Err(message),
        },
{
    match resolve_default_v2_dir(style, home, setting) {
        Ok(directory) => Ok(join_path(style, directory.as_str(), CREDENTIALS_FILE)),
        Err(message) => Err(message),
    }
}

/// The directory above the one of the client's files.
pub fn default_data_root_dir(style: PathStyle, home: Option<&str>, setting: Option<String>) -> (res:
    Result<String, String>)
    ensures
        outcome(res) == below_data_base(style, home.deep_view(), setting.deep_view(), ".zcode"@),
{
    base_path(style, home, setting, ".zcode")
}

/// The directory of the client's files lies in the root directory of its data,
/// under the name of its version.
pub proof fn files_lie_in_the_data_root(style: PathStyle, base: Seq<char>)
    ensures
        ({
            let inner = if style is Windows && is_verbatim(base) {
                '\\'
            } else {
                '/'
            };
            path_below(style, base, ".zcode/v2"@) == path_below(style, base, ".zcode"@).push(inner)
                + "v2"@
        }),
{
    reveal_strlit(".zcode/v2");
    reveal_strlit(".zcode");
    reveal_strlit("v2");
    let inner = if style is Windows && is_verbatim(base) {
        '\\'
    } else {
        '/'
    };
    assert(written_below(style, base, ".zcode/v2"@) =~= written_below(
        style,
        base,
        ".zcode"@,
    ).push(inner) + "v2"@);
    assert(path_below(style, base, ".zcode/v2"@) =~= path_below(style, base, ".zcode"@).push(inner)
        + "v2"@);
}

/// The credentials file of the managed instance with the root directory `root`.
pub open spec fn instance_credentials(style: PathStyle, root: Seq<char>) -> Seq<char> {
    path_below(style, path_below(style, root, "data/.zcode/v2"@), CREDENTIALS_FILE@)
}

/// The credentials file of the managed instance with the root directory `root`.
pub fn credentials_path_for_instance_root(style: PathStyle, root: &str) -> (res: String)
    ensures
        res@ == instance_credentials(style, root@),
{
    join_path(style, join_path(style, root, "data/.zcode/v2").as_str(), CREDENTIALS_FILE)
}

/// Two managed instances with different root directories have different
/// credentials files.
pub proof fn instances_have_their_own_credentials(
    style: PathStyle,
    first: Seq<char>,
    second: Seq<char>,
)
    requires
        !same_base(style, first, second),
    ensures
        instance_credentials(style, first) != instance_credentials(style, second),
{
    reveal_strlit("data/.zcode/v2");
    paths_below_different_bases_differ(style, first, second, "data/.zcode/v2"@);
    let a = path_below(style, first, "data/.zcode/v2"@);
    let b = path_below(style, second, "data/.zcode/v2"@);
    assert(is_plain("data/.zcode/v2"@));
    lemma_joined_base(style, first, "data/.zcode/v2"@);
    lemma_joined_base(style, second, "data/.zcode/v2"@);
    if a.push(separator(style)) == b.push(separator(style)) {
        assert(a.push(separator(style)).drop_last() =~= a);
        assert(b.push(separator(style)).drop_last() =~= b);
    }
    paths_below_different_bases_differ(style, a, b, CREDENTIALS_FILE@);
}

/// The members that the credentials file holds, out of what it was parsed into.
pub open spec fn file_members(parsed: Result<JsonView, Seq<char>>) -> Result<Members, Seq<char>> {
    match parsed {
        Err(message) => Err("解析 ZCode 凭据失败: "@ + message),
        Ok(JsonView::Object(members)) => Ok(members),
        Ok(_) => Err("ZCode 凭据文件必须是 JSON 对象"@),
    }
}

/// The members that the credentials file holds, out of what reading it gave;
/// none where there is no file.
pub open spec fn read_members(read: Option<Result<Seq<char>, Seq<char>>>) -> Result<
    Members,
    Seq<char>,
> {
    match read {
        None => Ok(Seq::empty()),
        Some(Err(message)) => Err("读取 ZCode 凭据失败: "@ + message),
        Some(Ok(content)) => file_members(json_parse(content)),
    }
}

/// What a result with members stands for.
pub open spec fn members_outcome(res: Result<Vec<(String, Json)>, String>) -> Result<
    Members,
    Seq<char>,
> {
    match res {
        Ok(members) => Ok(members_view(members@)),
        Err(message) => Err(message@),
    }
}

/// The members that the credentials file holds, where `parsed` is what its
/// content was parsed into.
pub fn members_of_file(parsed: Result<Json, String>) -> (res: Result<Vec<(String, Json)>, String>)
    ensures
        members_outcome(res) == file_members(outcome(parsed)),
{
    match parsed {
        Err(message) => Err(joined("解析 ZCode 凭据失败: ", message.as_str())),
        Ok(value) => {
            let ghost view = value@;
            match value {
                Json::Object(members) => {
                    assert(view->Object_0 =~= members_view(members@));
                    Ok(members)
                },
                _ => Err("ZCode 凭据文件必须是 JSON 对象".to_owned()),
            }
        },
    }
}

/// The members that the credentials file holds, out of what reading it gave.
pub fn read_json_map(read: Option<Result<String, String>>) -> (res: Result<
    Vec<(String, Json)>,
    String,
>)
    ensures
        members_outcome(res) == read_members(reading(read)),
        res matches Ok(members) ==> JsonView::Object(members_view(members@)).nested_within(
            max_nesting(),
        ),
{
    match read {
        None => {
            let members: Vec<(String, Json)> = Vec::new();
            assert(members_view(members@) =~= Seq::<(Seq<char>, JsonView)>::empty());
            Ok(members)
        },
        Some(Err(message)) => Err(joined("读取 ZCode 凭据失败: ", message.as_str())),
        Some(Ok(content)) => members_of_file(parse_json(content.as_str())),
    }
}

/// What the member `name` means under `key`, where it is a text.
pub open spec fn decrypted_member(values: Members, name: Seq<char>, key: Seq<u8>) -> Result<
    Option<Seq<char>>,
    Seq<char>,
> {
    match JsonView::Object(values).get_text(name) {
        None => Ok(None),
        Some(text) => match decrypted(text, key) {
            Ok(plain) => Ok(Some(plain)),
            Err(message) => Err(message),
        },
    }
}

/// What the member `name` means under the key for the home directory `home`.
pub fn decrypted_value(
    values: &Vec<(String, Json)>,
    name: &str,
    home: &str,
    host: &HostIdentity,
) -> (res: Result<Option<String>, String>)
    ensures
        outcome(res) == decrypted_member(
            members_view(values@),
            name@,
            key_for_home(home@, host@),
        ),
{
    match find_member(values, name) {
        None => Ok(None),
        Some(value) => match value.as_text() {
            None => Ok(None),
            Some(text) => match decrypt_credential(text, home, host) {
                Ok(plain) => Ok(Some(plain)),
                Err(message) => Err(message),
            },
        },
    }
}

/// The text of the first of the members `names` that holds one.
pub open spec fn first_text(value: JsonView, names: Seq<Seq<char>>) -> Option<Seq<char>>
    decreases names.len(),
{
    if names.len() == 0 {
        None
    } else if value.get_text(names.first()) is Some {
        value.get_text(names.first())
    } else {
        first_text(value, names.drop_first())
    }
}

/// The text of the first of the members `keys` that holds one, in its normal
/// form.
pub fn value_string(value: &Json, keys: &[&str]) -> (res: Option<String>)
    ensures
        res.deep_view() == normalized(first_text(value@, keys.deep_view())),
{
    let mut i: usize = 0;
    let ghost names = keys.deep_view();
    assert(names.skip(0) =~= names);
    while i < keys.len()
        invariant
            i <= keys@.len(),
            names == keys.deep_view(),
            first_text(value@, names) == first_text(value@, names.skip(i as int)),
        decreases keys@.len() - i,
    {
        assert(names.skip(i as int).first() == keys@[i as int]@);
        assert(names.skip(i as int).drop_first() =~= names.skip(i + 1));
        match value.get(keys[i]) {
            Some(held) => match held.as_text() {
                Some(text) => return normalize_string(Some(text)),
                None => {},
            },
            None => {},
        }
        i = i + 1;
    }
    None
}

/// The members of the user's data that may name the user.
pub open spec fn user_id_names() -> Seq<Seq<char>> {
    seq!["user_id"@, "id"@, "customerNumber"@, "sub"@]
}

/// The members of the user's data that may hold the address.
pub open spec fn email_names() -> Seq<Seq<char>> {
    seq!["email"@]
}

/// The members of the user's data that may hold the name to be shown.
pub open spec fn display_names() -> Seq<Seq<char>> {
    seq!["name"@, "displayName"@, "username"@, "nickName"@, "customerName"@]
}

/// The members of the user's data that may hold the picture.
pub open spec fn avatar_names() -> Seq<Seq<char>> {
    seq!["avatar"@, "avatarUrl"@, "picture"@]
}

/// The address that the user's data hold, or the one of an account without any.
pub open spec fn email_of(user_info: JsonView) -> Seq<char> {
    match normalized(first_text(user_info, email_names())) {
        Some(email) => email,
        None => unknown_email(),
    }
}

/// The account of a user at `provider` with these tokens, of which nothing else
/// is known.
pub open spec fn account_of_user(
    provider: Seq<char>,
    access_token: Seq<char>,
    refresh_token: Option<Seq<char>>,
    zcode_jwt_token: Seq<char>,
    user_info: JsonView,
    now: i64,
) -> AccountView {
    let user_id = normalized(first_text(user_info, user_id_names()));
    let email = email_of(user_info);
    AccountView {
        id: identifier(provider, account_identity(user_id, Some(email))->0),
        provider,
        email,
        user_id,
        display_name: normalized(first_text(user_info, display_names())),
        avatar_url: normalized(first_text(user_info, avatar_names())),
        access_token,
        refresh_token,
        zcode_jwt_token,
        expires_at: None,
        plan_type: None,
        quota_total: None,
        quota_used: None,
        quota_remaining: None,
        quota_reset_at: None,
        quota_query_last_error: None,
        quota_query_last_error_at: None,
        usage_updated_at: None,
        tags: None,
        user_info_raw: Some(user_info),
        subscription_raw: None,
        quota_raw: None,
        created_at: now,
        last_used: now,
    }
}

/// The account of a user at `provider` with these tokens, of which nothing else
/// is known.
pub fn account_with_user_info(
    provider: String,
    access_token: String,
    refresh_token: Option<String>,
    zcode_jwt_token: String,
    user_info: Json,
    now: i64,
) -> (res: ZcodeAccount)
    ensures
        res@ == account_of_user(
            provider@,
            access_token@,
            refresh_token.deep_view(),
            zcode_jwt_token@,
            user_info@,
            now,
        ),
{
    let user_id_keys = ["user_id", "id", "customerNumber", "sub"];
    let email_keys = ["email"];
    let display_keys = ["name", "displayName", "username", "nickName", "customerName"];
    let avatar_keys = ["avatar", "avatarUrl", "picture"];
    let user_id_slice = user_id_keys.as_slice();
    let email_slice = email_keys.as_slice();
    let display_slice = display_keys.as_slice();
    let avatar_slice = avatar_keys.as_slice();
    assert(user_id_slice.deep_view() =~= user_id_names());
    assert(email_slice.deep_view() =~= email_names());
    assert(display_slice.deep_view() =~= display_names());
    assert(avatar_slice.deep_view() =~= avatar_names());
    let user_id = value_string(&user_info, user_id_slice);
    let email = match value_string(&user_info, email_slice) {
        Some(email) => email,
        None => "unknown@zcode.local".to_owned(),
    };
    proof {
        lemma_unknown_email_not_blank();
        let found = first_text(user_info@, email_names());
        if found is Some {
            trimming_is_idempotent(found->0);
        }
        assert(!is_blank(email@));
    }
    let display_name = value_string(&user_info, display_slice);
    let avatar_url = value_string(&user_info, avatar_slice);
    let id = account_id(
        provider.as_str(),
        match &user_id {
            Some(user_id) => Some(user_id.as_str()),
            None => None,
        },
        Some(email.as_str()),
    );
    ZcodeAccount {
        id,
        provider,
        email,
        user_id,
        display_name,
        avatar_url,
        access_token,
        refresh_token,
        zcode_jwt_token,
        expires_at: None,
        plan_type: None,
        quota_total: None,
        quota_used: None,
        quota_remaining: None,
        quota_reset_at: None,
        quota_query_last_error: None,
        quota_query_last_error_at: None,
        usage_updated_at: None,
        tags: None,
        user_info_raw: Some(user_info),
        subscription_raw: None,
        quota_raw: None,
        created_at: now,
        last_used: now,
    }
}

/// The name of the member that holds `item` of the user at `provider`.
pub open spec fn oauth_name(provider: Seq<char>, item: Seq<char>) -> Seq<char> {
    "oauth:"@ + provider + ":"@ + item
}

fn oauth_key(provider: &str, item: &str) -> (res: String)
    ensures
        res@ == oauth_name(provider@, item@),
{
    let mut res = joined("oauth:", provider);
    res.append(":");
    res.append(item);
    res
}

/// A value that must be there: `missing` is the error where it is not.
pub open spec fn demanded(
    found: Result<Option<Seq<char>>, Seq<char>>,
    missing: Seq<char>,
) -> Result<Seq<char>, Seq<char>> {
    match found {
        Ok(Some(text)) => Ok(text),
        Ok(None) => Err(missing),
        Err(message) => Err(message),
    }
}

fn demand(found: Result<Option<String>, String>, missing: &str) -> (res: Result<String, String>)
    ensures
        outcome(res) == demanded(outcome(found), missing@),
{
    match found {
        Ok(Some(text)) => Ok(text),
        Ok(None) => Err(missing.to_owned()),
        Err(message) => Err(message),
    }
}

/// The user's data: what their text is parsed into, or an empty object.
pub open spec fn parsed_user_info(text: Option<Seq<char>>) -> JsonView {
    match text {
        Some(text) => match json_parse(text) {
            Ok(value) => value,
            Err(_) => JsonView::Object(Seq::empty()),
        },
        None => JsonView::Object(Seq::empty()),
    }
}

fn parse_user_info(text: Option<String>) -> (res: Json)
    ensures
        res@ == parsed_user_info(text.deep_view()),
{
    match text {
        Some(text) => match parse_json(text.as_str()) {
            Ok(value) => return value,
            Err(_) => {},
        },
        None => {},
    }
    let members: Vec<(String, Json)> = Vec::new();
    let res = Json::Object(members);
    assert(res@->Object_0 =~= Seq::<(Seq<char>, JsonView)>::empty());
    res
}

/// The account that the members of a credentials file hold under `key`. The
/// error is the one of the first of these that fails: the provider, its name,
/// the access token, the refresh token, the ZCode token, the user's data.
pub open spec fn account_of_members(values: Members, key: Seq<u8>, now: i64) -> Result<
    AccountView,
    Seq<char>,
> {
    match demanded(
        decrypted_member(values, ACTIVE_PROVIDER_KEY@, key),
        "ZCode 本地凭据缺少 active provider"@,
    ) {
        Err(message) => Err(message),
        Ok(named) => match normalized_provider(named) {
            Err(message) => Err(message),
            Ok(provider) => {
                let access_token = demanded(
                    decrypted_member(values, oauth_name(provider, "access_token"@), key),
                    "ZCode 本地凭据缺少 access token"@,
                );
                let refresh_token = decrypted_member(
                    values,
                    oauth_name(provider, "refresh_token"@),
                    key,
                );
                let zcode_jwt_token = demanded(
                    decrypted_member(values, ZCODE_JWT_KEY@, key),
                    "ZCode 本地凭据缺少 zcode JWT"@,
                );
                let user_info = decrypted_member(values, oauth_name(provider, "user_info"@), key);
                match (access_token, refresh_token, zcode_jwt_token, user_info) {
                    (Err(message), _, _, _) => Err(message),
                    (Ok(_), Err(message), _, _) => Err(message),
                    (Ok(_), Ok(_), Err(message), _) => Err(message),
                    (Ok(_), Ok(_), Ok(_), Err(message)) => Err(message),
                    (Ok(access), Ok(refresh), Ok(jwt), Ok(info)) => Ok(
                        account_of_user(
                            provider,
                            access,
                            refresh,
                            jwt,
                            parsed_user_info(info),
                            now,
                        ),
                    ),
                }
            },
        },
    }
}

/// The account that the members of a credentials file hold under the key for
/// the home directory `home`.
pub fn account_from_members(
    values: &Vec<(String, Json)>,
    home: &str,
    host: &HostIdentity,
    now: i64,
) -> (res: Result<ZcodeAccount, String>)
    ensures
        outcome(res) == account_of_members(
            members_view(values@),
            key_for_home(home@, host@),
            now,
        ),
{
    let named = match demand(
        decrypted_value(values, ACTIVE_PROVIDER_KEY, home, host),
        "ZCode 本地凭据缺少 active provider",
    ) {
        Ok(named) => named,
        Err(message) => return Err(message),
    };
    let provider = match normalize_provider(named.as_str()) {
        Ok(provider) => provider,
        Err(message) => return Err(message),
    };
    let access_key = oauth_key(provider.as_str(), "access_token");
    let access_token = match demand(
        decrypted_value(values, access_key.as_str(), home, host),
        "ZCode 本地凭据缺少 access token",
    ) {
        Ok(token) => token,
        Err(message) => return Err(message),
    };
    let refresh_key = oauth_key(provider.as_str(), "refresh_token");
    let refresh_token = match decrypted_value(values, refresh_key.as_str(), home, host) {
        Ok(token) => token,
        Err(message) => return Err(message),
    };
    let zcode_jwt_token = match demand(
        decrypted_value(values, ZCODE_JWT_KEY, home, host),
        "ZCode 本地凭据缺少 zcode JWT",
    ) {
        Ok(token) => token,
        Err(message) => return Err(message),
    };
    let info_key = oauth_key(provider.as_str(), "user_info");
    let info = match decrypted_value(values, info_key.as_str(), home, host) {
        Ok(info) => info,
        Err(message) => return Err(message),
    };
    let user_info = parse_user_info(info);
    Ok(
        account_with_user_info(
            provider,
            access_token,
            refresh_token,
            zcode_jwt_token,
            user_info,
            now,
        ),
    )
}

/// The account that a credentials file holds under `key`, out of what reading
/// it gave.
pub open spec fn account_of_file(
    read: Option<Result<Seq<char>, Seq<char>>>,
    key: Seq<u8>,
    now: i64,
) -> Result<AccountView, Seq<char>> {
    match read_members(read) {
        Ok(values) => account_of_members(values, key, now),
        Err(message) => Err(message),
    }
}

/// The account that a credentials file holds under the key for the home
/// directory `home`, as read at the time `now`.
pub fn account_from_credentials_path_with_home_at(
    read: Option<Result<String, String>>,
    home: &str,
    host: &HostIdentity,
    now: i64,
) -> (res: Result<ZcodeAccount, String>)
    ensures
        outcome(res) == account_of_file(reading(read), key_for_home(home@, host@), now),
{
    match read_json_map(read) {
        Ok(values) => account_from_members(&values, home, host, now),
        Err(message) => Err(message),
    }
}

/// `account_from_credentials_path_with_home_at` with the time of day.
pub fn account_from_credentials_path_with_home(
    read: Option<Result<String, String>>,
    home: &str,
    host: &HostIdentity,
) -> (res: Result<ZcodeAccount, String>)
    ensures
        exists|now: i64|
            is_time(now) && outcome(res) == #[trigger] account_of_file(
                reading(read),
                key_for_home(home@, host@),
                now,
            ),
{
    account_from_credentials_path_with_home_at(read, home, host, time_of_day())
}

/// The account that a credentials file holds for the user with the home
/// directory `home`, as read at the time of day.
pub fn account_from_credentials_path(
    read: Option<Result<String, String>>,
    home: Option<&str>,
    host: &HostIdentity,
) -> (res: Result<ZcodeAccount, String>)
    ensures
        match home {
            None => res matches Err(message) && message@ == "无法获取用户主目录"@,
            Some(home) => exists|now: i64|
            is_time(now) && outcome(res) == #[trigger] account_of_file(
                    reading(read),
                    key_for_home(home@, host@),
                    now,
                ),
        },
{
    match home {
        None => Err("无法获取用户主目录".to_owned()),
        Some(home) => account_from_credentials_path_with_home(read, home, host),
    }
}

/// The account that the client's own profile uses, out of what reading its
/// credentials file gave.
pub fn import_from_local(
    read: Option<Result<String, String>>,
    home: Option<&str>,
    host: &HostIdentity,
) -> (res: Result<ZcodeAccount, String>)
    ensures
        match (home, read) {
            (None, _) => res matches Err(message) && message@ == "无法获取用户主目录"@,
            (Some(_), None) => res matches Err(message) && message@
                == "未找到 ZCode 本地 credentials.json"@,
            (Some(home), Some(_)) => exists|now: i64|
            is_time(now) && outcome(res) == #[trigger] account_of_file(
                    reading(read),
                    key_for_home(home@, host@),
                    now,
                ),
        },
{
    if home.is_some() && read.is_none() {
        return Err("未找到 ZCode 本地 credentials.json".to_owned());
    }
    account_from_credentials_path(read, home, host)
}

/// An optional text as JSON, `null` where there is none.
pub open spec fn text_or_null(value: Option<Seq<char>>) -> JsonView {
    match value {
        Some(text) => JsonView::Text(text),
        None => JsonView::Null,
    }
}

fn json_text_or_null(value: &Option<String>) -> (res: Json)
    ensures
        res@ == text_or_null(value.deep_view()),
{
    match value {
        Some(text) => Json::Text(text.clone()),
        None => Json::Null,
    }
}

/// The user's data as the client keeps them: those that came with the account,
/// or else an object made of its fields.
pub open spec fn user_info_of(account: AccountView) -> JsonView {
    match account.user_info_raw {
        Some(value) => value,
        None => JsonView::Object(
            seq![
                ("user_id"@, text_or_null(account.user_id)),
                ("email"@, JsonView::Text(account.email)),
                ("name"@, text_or_null(account.display_name)),
                ("avatar"@, text_or_null(account.avatar_url)),
            ],
        ),
    }
}

/// The user's data as the client keeps them.
pub fn official_user_info(account: &ZcodeAccount) -> (res: Json)
    ensures
        res@ == user_info_of(account@),
{
    match &account.user_info_raw {
        Some(value) => value.copied(),
        None => {
            let mut members: Vec<(String, Json)> = Vec::new();
            members.push(("user_id".to_owned(), json_text_or_null(&account.user_id)));
            members.push(("email".to_owned(), Json::Text(account.email.clone())));
            members.push(("name".to_owned(), json_text_or_null(&account.display_name)));
            members.push(("avatar".to_owned(), json_text_or_null(&account.avatar_url)));
            let ghost listed = members@;
            let res = Json::Object(members);
            proof {
                let wanted = user_info_of(account@)->Object_0;
                assert(listed.len() == 4 && wanted.len() == 4);
                assert forall|i: int| 0 <= i < 4 implies res@->Object_0[i] == #[trigger] wanted[i] by {
                    assert(res@->Object_0[i] == (listed[i].0@, json_view(listed[i].1)));
                }
                assert(res@->Object_0 =~= wanted);
            }
            res
        },
    }
}

/// The nonces with which the members of a credentials file are encrypted.
#[derive(Debug, PartialEq)]
pub struct WriteNonces {
    pub provider: [u8; 12],
    pub access_token: [u8; 12],
    pub refresh_token: [u8; 12],
    pub user_info: [u8; 12],
    pub zcode_jwt_token: [u8; 12],
}

/// Whether all of the nonces were drawn by chance.
pub open spec fn are_drawn(nonces: WriteNonces) -> bool {
    &&& is_drawn_nonce(nonces.provider@)
    &&& is_drawn_nonce(nonces.access_token@)
    &&& is_drawn_nonce(nonces.refresh_token@)
    &&& is_drawn_nonce(nonces.user_info@)
    &&& is_drawn_nonce(nonces.zcode_jwt_token@)
}

/// The members without those of the user at `provider`.
pub open spec fn without_user(values: Members, provider: Seq<char>) -> Members {
    without(
        without(
            without(values, oauth_name(provider, "access_token"@)),
            oauth_name(provider, "refresh_token"@),
        ),
        oauth_name(provider, "user_info"@),
    )
}

/// The members without those of any user.
pub open spec fn without_users(values: Members) -> Members {
    without_user(without_user(values, "zai"@), "bigmodel"@)
}

fn clear_user(values: &mut Vec<(String, Json)>, provider: &str)
    ensures
        members_view(final(values)@) == without_user(members_view(old(values)@), provider@),
{
    remove_member(values, oauth_key(provider, "access_token").as_str());
    remove_member(values, oauth_key(provider, "refresh_token").as_str());
    remove_member(values, oauth_key(provider, "user_info").as_str());
}

/// The members with `value`, encrypted under `key`, as the member `name`.
pub open spec fn with_encrypted(
    values: Result<Members, Seq<char>>,
    name: Seq<char>,
    value: Seq<char>,
    key: Seq<u8>,
    nonce: Seq<u8>,
) -> Result<Members, Seq<char>> {
    match (values, encrypted(value, key, nonce)) {
        (Err(message), _) => Err(message),
        (Ok(_), Err(message)) => Err(message),
        (Ok(values), Ok(text)) => Ok(with(values, name, JsonView::Text(text))),
    }
}

fn put_encrypted(
    values: Vec<(String, Json)>,
    name: &str,
    value: &str,
    key: &[u8; 32],
    nonce: &[u8; 12],
) -> (res: Result<Vec<(String, Json)>, String>)
    ensures
        members_outcome(res) == with_encrypted(
            Ok(members_view(values@)),
            name@,
            value@,
            key@,
            nonce@,
        ),
        res is Ok <==> credential_fits(encode_utf8(value@).len()),
        res is Ok ==> holds_encrypted(members_view(res->Ok_0@), name@, value@, key@),
        res is Ok ==> forall|other: Seq<char>|
            other != name@ ==> #[trigger] member(members_view(res->Ok_0@), other) == member(
                members_view(values@),
                other,
            ),
        res is Ok && JsonView::Object(members_view(values@)).nested_within(max_nesting())
            ==> JsonView::Object(members_view(res->Ok_0@)).nested_within(max_nesting()),
{
    let ghost before = members_view(values@);
    match encrypt_credential_with_nonce(value, key, nonce) {
        Err(message) => Err(message),
        Ok(text) => {
            let ghost sealed = text@;
            let mut values = values;
            set_member(&mut values, name, Json::Text(text));
            proof {
                let after = members_view(values@);
                assert(after == with(before, name@, JsonView::Text(sealed)));
                assert forall|other: Seq<char>| #[trigger]
                    member(after, other) == if other == name@ {
                        Some(JsonView::Text(sealed))
                    } else {
                        member(before, other)
                    } by {
                    lemma_with(before, name@, JsonView::Text(sealed), other);
                }
                assert(member(after, name@) == Some(JsonView::Text(sealed)));
                if JsonView::Object(before).nested_within(max_nesting()) {
                    lemma_with_text_keeps_nesting(before, name@, sealed, max_nesting());
                }
            }
            Ok(values)
        },
    }
}

/// What writing an account into a credentials file with the members `values`
/// leaves as its members. `user_info` is the text of the user's data.
pub open spec fn with_account(
    values: Members,
    account: AccountView,
    user_info: Seq<char>,
    key: Seq<u8>,
    nonces: WriteNonces,
) -> Result<Members, Seq<char>> {
    match normalized_provider(account.provider) {
        Err(message) => Err(message),
        Ok(provider) => {
            let with_provider = with_encrypted(
                Ok(without_users(values)),
                ACTIVE_PROVIDER_KEY@,
                provider,
                key,
                nonces.provider@,
            );
            let with_access = with_encrypted(
                with_provider,
                oauth_name(provider, "access_token"@),
                account.access_token,
                key,
                nonces.access_token@,
            );
            let with_refresh = match normalized(account.refresh_token) {
                Some(token) => with_encrypted(
                    with_access,
                    oauth_name(provider, "refresh_token"@),
                    token,
                    key,
                    nonces.refresh_token@,
                ),
                None => with_access,
            };
            let with_info = with_encrypted(
                with_refresh,
                oauth_name(provider, "user_info"@),
                user_info,
                key,
                nonces.user_info@,
            );
            with_encrypted(
                with_info,
                ZCODE_JWT_KEY@,
                account.zcode_jwt_token,
                key,
                nonces.zcode_jwt_token@,
            )
        },
    }
}

/// Whether a text can be encrypted.
pub open spec fn can_be_encrypted(text: Seq<char>) -> bool {
    credential_fits(encode_utf8(text).len())
}

/// Whether all that is written of an account can be encrypted.
pub open spec fn account_fits(account: AccountView, user_info: Seq<char>) -> bool {
    &&& can_be_encrypted(account.access_token)
    &&& normalized(account.refresh_token) is Some ==> can_be_encrypted(
        normalized(account.refresh_token)->0,
    )
    &&& can_be_encrypted(user_info)
    &&& can_be_encrypted(account.zcode_jwt_token)
}

/// Whether the member `name` is the encrypted form of `plain` under `key`.
pub open spec fn holds_encrypted(
    values: Members,
    name: Seq<char>,
    plain: Seq<char>,
    key: Seq<u8>,
) -> bool {
    match JsonView::Object(values).get_text(name) {
        Some(text) => has_official_shape(text, encode_utf8(plain).len()) && decrypted(text, key)
            == Ok::<Seq<char>, Seq<char>>(plain),
        None => false,
    }
}

/// Whether the members `after` hold `account` under `key`, with `user_info` for
/// the text of its user's data.
pub open spec fn holds_account(
    after: Members,
    account: AccountView,
    user_info: Seq<char>,
    key: Seq<u8>,
) -> bool {
    let provider = normalized_provider(account.provider)->Ok_0;
    &&& normalized_provider(account.provider) is Ok
    &&& holds_encrypted(after, ACTIVE_PROVIDER_KEY@, provider, key)
    &&& holds_encrypted(after, oauth_name(provider, "access_token"@), account.access_token, key)
    &&& match normalized(account.refresh_token) {
        Some(token) => holds_encrypted(after, oauth_name(provider, "refresh_token"@), token, key),
        None => member(after, oauth_name(provider, "refresh_token"@)) is None,
    }
    &&& holds_encrypted(after, oauth_name(provider, "user_info"@), user_info, key)
    &&& holds_encrypted(after, ZCODE_JWT_KEY@, account.zcode_jwt_token, key)
}

/// Whether a member is one that writing an account sets or removes.
pub open spec fn is_account_member(name: Seq<char>) -> bool {
    ||| name == ACTIVE_PROVIDER_KEY@
    ||| name == ZCODE_JWT_KEY@
    ||| is_user_member(name, "zai"@)
    ||| is_user_member(name, "bigmodel"@)
}

/// Whether a member is one of the user at `provider`.
pub open spec fn is_user_member(name: Seq<char>, provider: Seq<char>) -> bool {
    ||| name == oauth_name(provider, "access_token"@)
    ||| name == oauth_name(provider, "refresh_token"@)
    ||| name == oauth_name(provider, "user_info"@)
}

proof fn lemma_without_user(values: Members, provider: Seq<char>, name: Seq<char>)
    ensures
        member(without_user(values, provider), name) == if is_user_member(name, provider) {
            None
        } else {
            member(values, name)
        },
        JsonView::Object(values).nested_within(max_nesting()) ==> JsonView::Object(
            without_user(values, provider),
        ).nested_within(max_nesting()),
{
    let access = oauth_name(provider, "access_token"@);
    let refresh = oauth_name(provider, "refresh_token"@);
    let info = oauth_name(provider, "user_info"@);
    let once = without(values, access);
    let twice = without(once, refresh);
    lemma_without(values, access, name);
    lemma_without(once, refresh, name);
    lemma_without(twice, info, name);
    if JsonView::Object(values).nested_within(max_nesting()) {
        lemma_without_keeps_nesting(values, access, max_nesting());
        lemma_without_keeps_nesting(once, refresh, max_nesting());
        lemma_without_keeps_nesting(twice, info, max_nesting());
    }
}

proof fn lemma_member_names_differ()
    ensures
        oauth_name("zai"@, "access_token"@).len() == 22,
        oauth_name("zai"@, "refresh_token"@).len() == 23,
        oauth_name("zai"@, "user_info"@).len() == 19,
        oauth_name("bigmodel"@, "access_token"@).len() == 27,
        oauth_name("bigmodel"@, "refresh_token"@).len() == 28,
        oauth_name("bigmodel"@, "user_info"@).len() == 24,
        ACTIVE_PROVIDER_KEY@.len() == 21,
        ZCODE_JWT_KEY@.len() == 13,
{
    reveal_strlit("oauth:");
    reveal_strlit("zai");
    reveal_strlit("bigmodel");
    reveal_strlit(":");
    reveal_strlit("access_token");
    reveal_strlit("refresh_token");
    reveal_strlit("user_info");
    reveal_strlit("oauth:active_provider");
    reveal_strlit("zcodejwttoken");
}

proof fn lemma_providers_can_be_encrypted()
    ensures
        can_be_encrypted("zai"@),
        can_be_encrypted("bigmodel"@),
{
    reveal_strlit("zai");
    reveal_strlit("bigmodel");
    is_ascii_chars_encode_utf8("zai"@);
    is_ascii_chars_encode_utf8("bigmodel"@);
}

/// The members of a credentials file after `account` is written into it, where
/// `values` are its members, `user_info` is the text of the user's data, and
/// `nonces` are the nonces to encrypt with.
#[verifier::rlimit(50)]
#[verifier::spinoff_prover]
pub fn members_with_account(
    values: Vec<(String, Json)>,
    account: &ZcodeAccount,
    user_info: &str,
    key: &[u8; 32],
    nonces: &WriteNonces,
) -> (res: Result<Vec<(String, Json)>, String>)
    ensures
        members_outcome(res) == with_account(
            members_view(values@),
            account@,
            user_info@,
            key@,
            *nonces,
        ),
        res is Ok <==> normalized_provider(account@.provider) is Ok && account_fits(
            account@,
            user_info@,
        ),
        res is Ok ==> holds_account(members_view(res->Ok_0@), account@, user_info@, key@),
        res is Ok ==> forall|name: Seq<char>|
            !is_account_member(name) ==> #[trigger] member(members_view(res->Ok_0@), name)
                == member(members_view(values@), name),
        res is Ok ==> forall|name: Seq<char>|
            (is_user_member(name, "zai"@) || is_user_member(name, "bigmodel"@))
                && !is_user_member(name, normalized_provider(account@.provider)->Ok_0)
                ==> #[trigger] member(members_view(res->Ok_0@), name) is None,
        res is Ok && JsonView::Object(members_view(values@)).nested_within(max_nesting())
            ==> JsonView::Object(members_view(res->Ok_0@)).nested_within(max_nesting()),
{
    let ghost given = members_view(values@);
    let mut values = values;
    clear_user(&mut values, "zai");
    clear_user(&mut values, "bigmodel");
    let ghost cleared = members_view(values@);
    proof {
        lemma_member_names_differ();
        lemma_providers_can_be_encrypted();
        assert forall|name: Seq<char>| #[trigger]
            member(cleared, name) == if is_user_member(name, "zai"@) || is_user_member(
                name,
                "bigmodel"@,
            ) {
                None
            } else {
                member(given, name)
            } by {
            lemma_without_user(given, "zai"@, name);
            lemma_without_user(without_user(given, "zai"@), "bigmodel"@, name);
        }
        lemma_without_user(given, "zai"@, ZCODE_JWT_KEY@);
        lemma_without_user(without_user(given, "zai"@), "bigmodel"@, ZCODE_JWT_KEY@);
    }
    let provider = match normalize_provider(account.provider.as_str()) {
        Ok(provider) => provider,
        Err(message) => return Err(message),
    };
    let values = match put_encrypted(
        values,
        ACTIVE_PROVIDER_KEY,
        provider.as_str(),
        key,
        &nonces.provider,
    ) {
        Ok(values) => values,
        Err(message) => return Err(message),
    };
    let access_key = oauth_key(provider.as_str(), "access_token");
    let values = match put_encrypted(
        values,
        access_key.as_str(),
        account.access_token.as_str(),
        key,
        &nonces.access_token,
    ) {
        Ok(values) => values,
        Err(message) => return Err(message),
    };
    let refresh_key = oauth_key(provider.as_str(), "refresh_token");
    let values = match normalize_optional(&account.refresh_token) {
        Some(token) => match put_encrypted(
            values,
            refresh_key.as_str(),
            token.as_str(),
            key,
            &nonces.refresh_token,
        ) {
            Ok(values) => values,
            Err(message) => return Err(message),
        },
        None => values,
    };
    let ghost with_refresh = members_view(values@);
    proof {
        assert(member(cleared, refresh_key@) is None);
        assert(match normalized(account@.refresh_token) {
            Some(token) => holds_encrypted(with_refresh, refresh_key@, token, key@),
            None => member(with_refresh, refresh_key@) is None,
        });
    }
    let info_key = oauth_key(provider.as_str(), "user_info");
    let values = match put_encrypted(
        values,
        info_key.as_str(),
        user_info,
        key,
        &nonces.user_info,
    ) {
        Ok(values) => values,
        Err(message) => return Err(message),
    };
    put_encrypted(
        values,
        ZCODE_JWT_KEY,
        account.zcode_jwt_token.as_str(),
        key,
        &nonces.zcode_jwt_token,
    )
}

/// The text of the credentials file after `account` is written into the one
/// that reading gave.
pub open spec fn written_text(
    read: Option<Result<Seq<char>, Seq<char>>>,
    account: AccountView,
    key: Seq<u8>,
    nonces: WriteNonces,
) -> Result<Seq<char>, Seq<char>> {
    match read_members(read) {
        Err(message) => Err(message),
        Ok(values) => match with_account(
            values,
            account,
            json_compact(user_info_of(account)),
            key,
            nonces,
        ) {
            Err(message) => Err(message),
            Ok(members) => Ok(json_pretty(JsonView::Object(members))),
        },
    }
}

/// Whether `text` is a credentials file that holds `account` under `key`, holds
/// nothing of a user at another provider, and holds the other members of
/// `values` as they were.
pub open spec fn is_file_with_account(
    text: Seq<char>,
    values: Members,
    account: AccountView,
    key: Seq<u8>,
) -> bool {
    let info = user_info_of(account);
    match json_parse(text) {
        Ok(JsonView::Object(after)) => {
            &&& holds_account(after, account, json_compact(info), key)
            &&& info.nested_within(max_nesting()) ==> reads_back(json_compact(info), info)
            &&& forall|name: Seq<char>|
                !is_account_member(name) ==> stayed(
                    member(values, name),
                    #[trigger] member(after, name),
                )
            &&& forall|name: Seq<char>|
                (is_user_member(name, "zai"@) || is_user_member(name, "bigmodel"@))
                    && !is_user_member(name, normalized_provider(account.provider)->Ok_0)
                    ==> #[trigger] member(after, name) is None
        },
        _ => false,
    }
}

proof fn lemma_file_with_account(
    text: Seq<char>,
    values: Members,
    after: Members,
    account: AccountView,
    key: Seq<u8>,
)
    requires
        reads_back(text, JsonView::Object(after)),
        holds_account(after, account, json_compact(user_info_of(account)), key),
        user_info_of(account).nested_within(max_nesting()) ==> reads_back(
            json_compact(user_info_of(account)),
            user_info_of(account),
        ),
        forall|name: Seq<char>|
            !is_account_member(name) ==> #[trigger] member(after, name) == member(values, name),
        forall|name: Seq<char>|
            (is_user_member(name, "zai"@) || is_user_member(name, "bigmodel"@))
                && !is_user_member(name, normalized_provider(account.provider)->Ok_0)
                ==> #[trigger] member(after, name) is None,
    ensures
        is_file_with_account(text, values, account, key),
{
    let whole = JsonView::Object(after);
    let parsed = json_parse(text)->Ok_0;
    let provider = normalized_provider(account.provider)->Ok_0;
    alike_values_hold_the_same_texts(whole, parsed, max_nesting(), ZCODE_JWT_KEY@);
    alike_values_hold_the_same_texts(whole, parsed, max_nesting(), ACTIVE_PROVIDER_KEY@);
    alike_values_hold_the_same_texts(
        whole,
        parsed,
        max_nesting(),
        oauth_name(provider, "access_token"@),
    );
    alike_values_hold_the_same_texts(
        whole,
        parsed,
        max_nesting(),
        oauth_name(provider, "refresh_token"@),
    );
    alike_values_hold_the_same_texts(
        whole,
        parsed,
        max_nesting(),
        oauth_name(provider, "user_info"@),
    );
    assert(parsed is Object);
    let read = parsed->Object_0;
    assert forall|name: Seq<char>| !is_account_member(name) implies stayed(
        member(values, name),
        #[trigger] member(read, name),
    ) by {
        assert(whole.get(name) == member(after, name));
        assert(parsed.get(name) == member(read, name));
    }
    assert forall|name: Seq<char>|
        (is_user_member(name, "zai"@) || is_user_member(name, "bigmodel"@)) && !is_user_member(
            name,
            provider,
        ) implies #[trigger] member(read, name) is None by {
        assert(member(after, name) is None);
        alike_values_hold_the_same_texts(whole, parsed, max_nesting(), name);
        assert(whole.get(name) == member(after, name));
        assert(parsed.get(name) == member(read, name));
    }
}

/// Whether `res` is what writing `account` into the credentials file that
/// `read` gave comes to: it succeeds if and only if the file could be read as
/// an object, the provider is known and all texts can be encrypted; the text is
/// then a file that holds the account.
pub open spec fn is_written(
    read: Option<Result<Seq<char>, Seq<char>>>,
    account: AccountView,
    key: Seq<u8>,
    res: Result<Seq<char>, Seq<char>>,
) -> bool {
    &&& res is Ok <==> {
        &&& read_members(read) is Ok
        &&& normalized_provider(account.provider) is Ok
        &&& account_fits(account, json_compact(user_info_of(account)))
    }
    &&& res matches Ok(text) ==> is_file_with_account(
        text,
        read_members(read)->Ok_0,
        account,
        key,
    )
}

/// The text of the credentials file after `account` is written into the one
/// that `read` gave, under the key for the home directory `home` and with the
/// nonces `nonces`.
pub fn write_account_to_credentials_path_with_nonces(
    account: &ZcodeAccount,
    read: Option<Result<String, String>>,
    home: &str,
    host: &HostIdentity,
    nonces: &WriteNonces,
) -> (res: Result<String, String>)
    ensures
        outcome(res) == written_text(reading(read), account@, key_for_home(home@, host@), *nonces),
        is_written(reading(read), account@, key_for_home(home@, host@), outcome(res)),
{
    let values = match read_json_map(read) {
        Ok(values) => values,
        Err(message) => return Err(message),
    };
    let ghost given = members_view(values@);
    let info = official_user_info(account);
    let user_info = match compact_json(&info) {
        Ok(text) => text,
        Err(message) => return Err(joined("序列化 ZCode 用户信息失败: ", message.as_str())),
    };
    let key = credential_key(home, host);
    match members_with_account(values, account, user_info.as_str(), &key, nonces) {
        Err(message) => Err(message),
        Ok(members) => {
            let ghost after = members_view(members@);
            let whole = Json::Object(members);
            assert(whole@->Object_0 =~= after);
            match pretty_json(&whole) {
                Ok(text) => {
                    proof {
                        lemma_file_with_account(text@, given, after, account@, key@);
                    }
                    Ok(text)
                },
                Err(message) => Err(joined("序列化 ZCode 凭据失败: ", message.as_str())),
            }
        },
    }
}

/// The text of the credentials file after `account` is written into the one
/// that `read` gave, under the key for the home directory `home` and with
/// nonces by chance.
pub fn write_account_to_credentials_path_with_home(
    account: &ZcodeAccount,
    read: Option<Result<String, String>>,
    home: &str,
    host: &HostIdentity,
) -> (res: Result<String, String>)
    ensures
        exists|nonces: WriteNonces|
            are_drawn(nonces) && outcome(res) == #[trigger] written_text(
                reading(read),
                account@,
                key_for_home(home@, host@),
                nonces,
            ),
        is_written(reading(read), account@, key_for_home(home@, host@), outcome(res)),
{
    let nonces = WriteNonces {
        provider: draw_nonce(),
        access_token: draw_nonce(),
        refresh_token: draw_nonce(),
        user_info: draw_nonce(),
        zcode_jwt_token: draw_nonce(),
    };
    write_account_to_credentials_path_with_nonces(account, read, home, host, &nonces)
}

/// The text of the credentials file after `account` is written into the one
/// that `read` gave, for the user with the home directory `home`.
pub fn write_account_to_credentials_path(
    account: &ZcodeAccount,
    read: Option<Result<String, String>>,
    home: Option<&str>,
    host: &HostIdentity,
) -> (res: Result<String, String>)
    ensures
        match home {
            None => res matches Err(message) && message@ == "无法获取用户主目录"@,
            Some(home) => {
                &&& exists|nonces: WriteNonces|
                    are_drawn(nonces) && outcome(res) == #[trigger] written_text(
                        reading(read),
                        account@,
                        key_for_home(home@, host@),
                        nonces,
                    )
                &&& is_written(reading(read), account@, key_for_home(home@, host@), outcome(res))
            },
        },
{
    match home {
        None => Err("无法获取用户主目录".to_owned()),
        Some(home) => write_account_to_credentials_path_with_home(account, read, home, host),
    }
}

/// The account `loaded` as given to a managed instance, and the text of the
/// instance's credentials file with it. `read` is what reading that file gave.
pub fn inject_to_instance_root(
    loaded: Option<ZcodeAccount>,
    read: Option<Result<String, String>>,
    home: Option<&str>,
    host: &HostIdentity,
) -> (res: Result<(ZcodeAccount, String), String>)
    ensures
        match (loaded, home) {
            (None, _) => res matches Err(message) && message@ == "ZCode 账号不存在"@,
            (Some(_), None) => res matches Err(message) && message@ == "无法获取用户主目录"@,
            (Some(account), Some(home)) => {
                let written = match res {
                    Ok((_, text)) => Ok(text@),
                    Err(message) => Err(message@),
                };
                &&& exists|nonces: WriteNonces|
                    are_drawn(nonces) && written == #[trigger] written_text(
                        reading(read),
                        account@,
                        key_for_home(home@, host@),
                        nonces,
                    )
                &&& is_written(reading(read), account@, key_for_home(home@, host@), written)
                &&& res matches Ok((value, _)) ==> value == account
            },
        },
{
    match loaded {
        None => Err("ZCode 账号不存在".to_owned()),
        Some(account) => match write_account_to_credentials_path(&account, read, home, host) {
            Ok(text) => Ok((account, text)),
            Err(message) => Err(message),
        },
    }
}

proof fn lemma_first_text_alike(value: JsonView, other: JsonView, names: Seq<Seq<char>>)
    requires
        value.alike(other, max_nesting()),
    ensures
        first_text(value, names) == first_text(other, names),
    decreases names.len(),
{
    if names.len() > 0 {
        alike_values_hold_the_same_texts(value, other, max_nesting(), names.first());
        lemma_first_text_alike(value, other, names.drop_first());
    }
}

/// Reading the credentials file that an account was written into gives the
/// provider and the tokens of the account back, and its user too unless more
/// than 127 arrays and objects stand one in another in the user's data.
pub proof fn written_accounts_are_read_back(
    text: Seq<char>,
    values: Members,
    account: AccountView,
    key: Seq<u8>,
    now: i64,
)
    requires
        is_file_with_account(text, values, account, key),
    ensures
        ({
            let restored = account_of_file(Some(Ok(text)), key, now)->Ok_0;
            &&& account_of_file(Some(Ok(text)), key, now) is Ok
            &&& restored.provider == normalized_provider(account.provider)->Ok_0
            &&& restored.access_token == account.access_token
            &&& restored.refresh_token == normalized(account.refresh_token)
            &&& restored.zcode_jwt_token == account.zcode_jwt_token
            &&& user_info_of(account).nested_within(max_nesting()) ==> is_of_user(
                restored,
                user_info_of(account),
            )
        }),
{
    let info = user_info_of(account);
    normal_providers_stay(account.provider);
    if info.nested_within(max_nesting()) {
        let parsed = json_parse(json_compact(info))->Ok_0;
        lemma_first_text_alike(info, parsed, user_id_names());
        lemma_first_text_alike(info, parsed, email_names());
        lemma_first_text_alike(info, parsed, display_names());
        lemma_first_text_alike(info, parsed, avatar_names());
    }
}

/// Whether `account` is one of the user whom the data `info` describe.
pub open spec fn is_of_user(account: AccountView, info: JsonView) -> bool {
    &&& account.user_id == normalized(first_text(info, user_id_names()))
    &&& account.email == email_of(info)
    &&& account.display_name == normalized(first_text(info, display_names()))
    &&& account.avatar_url == normalized(first_text(info, avatar_names()))
    &&& account.id == identifier(
        account.provider,
        account_identity(account.user_id, Some(account.email))->0,
    )
    &&& account.user_info_raw is Some
    &&& info.alike(account.user_info_raw->0, max_nesting())
}

/// Of an account without data of its user, the user's fields themselves are
/// written: what is read back are their normal forms.
pub proof fn user_fields_are_read_back(account: AccountView)
    requires
        account.user_info_raw is None,
    ensures
        ({
            let info = user_info_of(account);
            &&& info.nested_within(max_nesting())
            &&& normalized(first_text(info, user_id_names())) == normalized(account.user_id)
            &&& email_of(info) == match normalized(Some(account.email)) {
                Some(email) => email,
                None => unknown_email(),
            }
            &&& normalized(first_text(info, display_names())) == normalized(account.display_name)
            &&& normalized(first_text(info, avatar_names())) == normalized(account.avatar_url)
        }),
{
    let info = user_info_of(account);
    let members = info->Object_0;
    assert forall|i: int| 0 <= i < members.len() implies (
    #[trigger] info->Object_0[i]).1.nested_within((max_nesting() - 1) as nat) by {}
    reveal_strlit("user_id");
    reveal_strlit("email");
    reveal_strlit("name");
    reveal_strlit("avatar");
    reveal_strlit("id");
    reveal_strlit("customerNumber");
    reveal_strlit("sub");
    reveal_strlit("displayName");
    reveal_strlit("username");
    reveal_strlit("nickName");
    reveal_strlit("customerName");
    reveal_strlit("avatarUrl");
    reveal_strlit("picture");
    assert("picture"@[0] == 'p' && "user_id"@[0] == 'u');
    assert("user_id"@.len() == 7);
    assert("email"@.len() == 5);
    assert("name"@.len() == 4);
    assert("avatar"@.len() == 6);
    assert("id"@.len() == 2);
    assert("customerNumber"@.len() == 14);
    assert("sub"@.len() == 3);
    assert("displayName"@.len() == 11);
    assert("username"@.len() == 8);
    assert("nickName"@.len() == 8);
    assert("customerName"@.len() == 12);
    assert("avatarUrl"@.len() == 9);
    assert("picture"@.len() == 7);
    lemma_user_info_member(account, "id"@);
    lemma_user_info_member(account, "customerNumber"@);
    lemma_user_info_member(account, "sub"@);
    lemma_user_info_member(account, "displayName"@);
    lemma_user_info_member(account, "username"@);
    lemma_user_info_member(account, "nickName"@);
    lemma_user_info_member(account, "customerName"@);
    lemma_user_info_member(account, "avatarUrl"@);
    lemma_user_info_member(account, "picture"@);
    lemma_user_info_member(account, "user_id"@);
    lemma_user_info_member(account, "email"@);
    lemma_user_info_member(account, "name"@);
    lemma_user_info_member(account, "avatar"@);
    lemma_only_first_text(info, user_id_names());
    lemma_only_first_text(info, email_names());
    lemma_only_first_text(info, display_names());
    lemma_only_first_text(info, avatar_names());
}

proof fn lemma_user_info_member(account: AccountView, name: Seq<char>)
    requires
        account.user_info_raw is None,
    ensures
        user_info_of(account).get(name) == if name == "avatar"@ {
            Some(text_or_null(account.avatar_url))
        } else if name == "name"@ {
            Some(text_or_null(account.display_name))
        } else if name == "email"@ {
            Some(JsonView::Text(account.email))
        } else if name == "user_id"@ {
            Some(text_or_null(account.user_id))
        } else {
            None
        },
{
    let all = user_info_of(account)->Object_0;
    let three = all.drop_last();
    let two = three.drop_last();
    let one = two.drop_last();
    assert(one.len() == 1);
    assert(one.drop_last().len() == 0);
    assert(all.last() == all[3] && three.last() == all[2] && two.last() == all[1] && one.last()
        == all[0]);
    assert(member(one.drop_last(), name) is None);
    assert(member(one, name) == if all[0].0 == name {
        Some(all[0].1)
    } else {
        None
    });
    assert(member(two, name) == if all[1].0 == name {
        Some(all[1].1)
    } else {
        member(one, name)
    });
    assert(member(three, name) == if all[2].0 == name {
        Some(all[2].1)
    } else {
        member(two, name)
    });
}

proof fn lemma_only_first_text(value: JsonView, names: Seq<Seq<char>>)
    requires
        names.len() > 0,
        forall|i: int| 0 < i < names.len() ==> value.get_text(#[trigger] names[i]) is None,
    ensures
        first_text(value, names) == value.get_text(names[0]),
    decreases names.len(),
{
    reveal_with_fuel(first_text, 2);
    let rest = names.drop_first();
    if rest.len() > 0 {
        assert forall|i: int| 0 < i < rest.len() implies value.get_text(
            #[trigger] rest[i],
        ) is None by {
            assert(rest[i] == names[i + 1]);
        }
        assert(rest[0] == names[1]);
        lemma_only_first_text(value, rest);
    }
}

/// The client keeps its data in the directory that its settings name, without
/// the white space around it, and in the user's home where they name none or
/// cannot be parsed.
pub proof fn settings_move_the_data(home: Seq<char>, content: Seq<char>)
    ensures
        ({
            let named = json_parse(content)->Ok_0.get("dataBaseDir"@);
            let is_named = json_parse(content) is Ok && named is Some && named->0 is Text
                && trimmed(named->0->Text_0).len() > 0;
            &&& is_named ==> data_base(home, Some(content)) == trimmed(named->0->Text_0)
            &&& !is_named ==> data_base(home, Some(content)) == home
        }),
        data_base(home, None) == home,
{
}

/// The client's files lie below its data, and nowhere where the home is not
/// known.
pub proof fn files_lie_below_the_data(
    style: PathStyle,
    home: Seq<char>,
    setting: Option<Seq<char>>,
    relative: Seq<char>,
)
    ensures
        below_data_base(style, Some(home), setting, relative) == Ok::<Seq<char>, Seq<char>>(
            path_below(style, data_base(home, setting), relative),
        ),
        below_data_base(style, None, setting, relative) == Err::<Seq<char>, Seq<char>>(
            "无法获取用户主目录"@,
        ),
        instance_credentials(style, home) == path_below(
            style,
            path_below(style, home, "data/.zcode/v2"@),
            "credentials.json"@,
        ),
        CREDENTIALS_FILE@ == "credentials.json"@,
        SETTINGS_FILE@ == "setting.json"@,
{
}

/// A credentials file holds the members of its object. Where there is no file
/// there are none; one that cannot be read or parsed, or is no object, is
/// refused.
pub proof fn credentials_files_are_objects(content: Seq<char>, message: Seq<char>)
    ensures
        read_members(None) == Ok::<Members, Seq<char>>(Seq::empty()),
        read_members(Some(Err(message))) == Err::<Members, Seq<char>>(
            "读取 ZCode 凭据失败: "@ + message,
        ),
        json_parse(content) matches Err(text) ==> read_members(Some(Ok(content))) == Err::<
            Members,
            Seq<char>,
        >("解析 ZCode 凭据失败: "@ + text),
        json_parse(content) matches Ok(JsonView::Object(members)) ==> read_members(
            Some(Ok(content)),
        ) == Ok::<Members, Seq<char>>(members),
        json_parse(content) is Ok && json_parse(content)->Ok_0 !is Object ==> read_members(
            Some(Ok(content)),
        ) == Err::<Members, Seq<char>>("ZCode 凭据文件必须是 JSON 对象"@),
{
}

/// A member that is a text means what it decrypts to; any other means nothing.
pub proof fn members_mean_what_they_decrypt_to(values: Members, name: Seq<char>, key: Seq<u8>)
    ensures
        match member(values, name) {
            Some(JsonView::Text(text)) => match decrypted(text, key) {
                Ok(plain) => decrypted_member(values, name, key) == Ok::<
                    Option<Seq<char>>,
                    Seq<char>,
                >(Some(plain)),
                Err(message) => decrypted_member(values, name, key) == Err::<
                    Option<Seq<char>>,
                    Seq<char>,
                >(message),
            },
            _ => decrypted_member(values, name, key) == Ok::<Option<Seq<char>>, Seq<char>>(None),
        },
{
}

/// The first of the members named that holds a text counts, whatever the later
/// ones hold; where none holds one there is none.
pub proof fn the_first_text_counts(value: JsonView, names: Seq<Seq<char>>, at: int)
    ensures
        0 <= at < names.len() && value.get_text(names[at]) is Some && (forall|k: int|
            0 <= k < at ==> value.get_text(#[trigger] names[k]) is None) ==> first_text(value, names)
            == value.get_text(names[at]),
        (forall|k: int| 0 <= k < names.len() ==> value.get_text(#[trigger] names[k]) is None)
            ==> first_text(value, names) is None,
    decreases names.len(),
{
    if names.len() > 0 {
        assert(names.first() == names[0]);
        if value.get_text(names[0]) is None {
            let rest = names.drop_first();
            the_first_text_counts(value, rest, at - 1);
            assert forall|k: int| 0 <= k < rest.len() implies #[trigger] rest[k] == names[k + 1] by {}
        }
    }
}

proof fn lemma_chain(value: JsonView, name: Seq<char>, rest: Seq<Seq<char>>)
    ensures
        first_text(value, seq![name] + rest) == if value.get_text(name) is Some {
            value.get_text(name)
        } else {
            first_text(value, rest)
        },
        first_text(value, Seq::empty()) is None,
{
    assert((seq![name] + rest).first() == name);
    assert((seq![name] + rest).drop_first() =~= rest);
}

/// The user of an account is named by the first of these members of the user's
/// data that holds a text, without the white space around it: `user_id`, `id`,
/// `customerNumber`, `sub`. A user who is named by one of them alone is named by
/// that one.
pub proof fn users_are_named_by_their_data(
    provider: Seq<char>,
    access: Seq<char>,
    refresh: Option<Seq<char>>,
    jwt: Seq<char>,
    info: JsonView,
    now: i64,
)
    ensures
        ({
            let account = account_of_user(provider, access, refresh, jwt, info, now);
            let named = if info.get_text("user_id"@) is Some {
                info.get_text("user_id"@)
            } else if info.get_text("id"@) is Some {
                info.get_text("id"@)
            } else if info.get_text("customerNumber"@) is Some {
                info.get_text("customerNumber"@)
            } else {
                info.get_text("sub"@)
            };
            &&& named is Some && trimmed(named->0).len() > 0 ==> account.user_id == Some(
                trimmed(named->0),
            )
            &&& named is None || trimmed(named->0).len() == 0 ==> account.user_id is None
        }),
{
    lemma_chain(info, "sub"@, Seq::empty());
    lemma_chain(info, "customerNumber"@, seq!["sub"@]);
    lemma_chain(info, "id"@, seq!["customerNumber"@, "sub"@]);
    lemma_chain(info, "user_id"@, seq!["id"@, "customerNumber"@, "sub"@]);
    assert(seq!["sub"@] + Seq::<Seq<char>>::empty() =~= seq!["sub"@]);
    assert(seq!["customerNumber"@] + seq!["sub"@] =~= seq!["customerNumber"@, "sub"@]);
    assert(seq!["id"@] + seq!["customerNumber"@, "sub"@] =~= seq![
        "id"@,
        "customerNumber"@,
        "sub"@,
    ]);
    assert(seq!["user_id"@] + seq!["id"@, "customerNumber"@, "sub"@] =~= user_id_names());
}

/// The name that is shown of a user is the first of these members of the user's
/// data that holds a text: `name`, `displayName`, `username`, `nickName`,
/// `customerName`; the picture is the first of `avatar`, `avatarUrl`, `picture`;
/// and the address is `email`. The white space around them does not count, and
/// an address that is missing or blank is replaced.
pub proof fn users_are_shown_by_their_data(
    provider: Seq<char>,
    access: Seq<char>,
    refresh: Option<Seq<char>>,
    jwt: Seq<char>,
    info: JsonView,
    now: i64,
)
    ensures
        ({
            let account = account_of_user(provider, access, refresh, jwt, info, now);
            let name = if info.get_text("name"@) is Some {
                info.get_text("name"@)
            } else if info.get_text("displayName"@) is Some {
                info.get_text("displayName"@)
            } else if info.get_text("username"@) is Some {
                info.get_text("username"@)
            } else if info.get_text("nickName"@) is Some {
                info.get_text("nickName"@)
            } else {
                info.get_text("customerName"@)
            };
            let avatar = if info.get_text("avatar"@) is Some {
                info.get_text("avatar"@)
            } else if info.get_text("avatarUrl"@) is Some {
                info.get_text("avatarUrl"@)
            } else {
                info.get_text("picture"@)
            };
            let email = info.get_text("email"@);
            &&& name is Some && trimmed(name->0).len() > 0 ==> account.display_name == Some(
                trimmed(name->0),
            )
            &&& name is None || trimmed(name->0).len() == 0 ==> account.display_name is None
            &&& avatar is Some && trimmed(avatar->0).len() > 0 ==> account.avatar_url == Some(
                trimmed(avatar->0),
            )
            &&& avatar is None || trimmed(avatar->0).len() == 0 ==> account.avatar_url is None
            &&& email is Some && trimmed(email->0).len() > 0 ==> account.email == trimmed(email->0)
            &&& email is None || trimmed(email->0).len() == 0 ==> account.email
                == "unknown@zcode.local"@
        }),
{
    lemma_chain(info, "customerName"@, Seq::empty());
    lemma_chain(info, "nickName"@, seq!["customerName"@]);
    lemma_chain(info, "username"@, seq!["nickName"@, "customerName"@]);
    lemma_chain(info, "displayName"@, seq!["username"@, "nickName"@, "customerName"@]);
    lemma_chain(info, "name"@, seq!["displayName"@, "username"@, "nickName"@, "customerName"@]);
    assert(seq!["customerName"@] + Seq::<Seq<char>>::empty() =~= seq!["customerName"@]);
    assert(seq!["nickName"@] + seq!["customerName"@] =~= seq!["nickName"@, "customerName"@]);
    assert(seq!["username"@] + seq!["nickName"@, "customerName"@] =~= seq![
        "username"@,
        "nickName"@,
        "customerName"@,
    ]);
    assert(seq!["displayName"@] + seq!["username"@, "nickName"@, "customerName"@] =~= seq![
        "displayName"@,
        "username"@,
        "nickName"@,
        "customerName"@,
    ]);
    assert(seq!["name"@] + seq!["displayName"@, "username"@, "nickName"@, "customerName"@]
        =~= display_names());
    lemma_chain(info, "picture"@, Seq::empty());
    lemma_chain(info, "avatarUrl"@, seq!["picture"@]);
    lemma_chain(info, "avatar"@, seq!["avatarUrl"@, "picture"@]);
    assert(seq!["picture"@] + Seq::<Seq<char>>::empty() =~= seq!["picture"@]);
    assert(seq!["avatarUrl"@] + seq!["picture"@] =~= seq!["avatarUrl"@, "picture"@]);
    assert(seq!["avatar"@] + seq!["avatarUrl"@, "picture"@] =~= avatar_names());
    lemma_chain(info, "email"@, Seq::empty());
    assert(seq!["email"@] + Seq::<Seq<char>>::empty() =~= email_names());
}

/// The account of a user has the provider, the tokens and the user's data that
/// are given and the times of its reading, its identifier is the digest of its
/// provider and of its user, or of its address where it has no user, and nothing
/// else is known of it.
pub proof fn accounts_of_users_are_new(
    provider: Seq<char>,
    access: Seq<char>,
    refresh: Option<Seq<char>>,
    jwt: Seq<char>,
    info: JsonView,
    now: i64,
)
    ensures
        ({
            let account = account_of_user(provider, access, refresh, jwt, info, now);
            let identity = if account.user_id is Some {
                account.user_id->0
            } else {
                account.email
            };
            &&& account.id == "zcode_"@ + md5_hex(encode_utf8(provider + ":"@ + identity))
            &&& account.provider == provider
            &&& account.access_token == access
            &&& account.refresh_token == refresh
            &&& account.zcode_jwt_token == jwt
            &&& account.user_info_raw == Some(info)
            &&& account.created_at == now
            &&& account.last_used == now
            &&& account.expires_at is None
            &&& account.plan_type is None
            &&& account.quota_total is None
            &&& account.quota_used is None
            &&& account.quota_remaining is None
            &&& account.quota_reset_at is None
            &&& account.quota_query_last_error is None
            &&& account.quota_query_last_error_at is None
            &&& account.usage_updated_at is None
            &&& account.tags is None
            &&& account.subscription_raw is None
            &&& account.quota_raw is None
        }),
{
    let user = first_text(info, user_id_names());
    let email = first_text(info, email_names());
    if user is Some {
        trimming_is_idempotent(user->0);
    }
    if email is Some {
        trimming_is_idempotent(email->0);
    }
    lemma_unknown_email_not_blank();
}

/// An account that is read out of the members of a credentials file has the
/// provider that they name and the tokens that they hold for it, and is the
/// account of the user whose data they hold; data that cannot be parsed count as
/// none.
pub proof fn accounts_are_read_member_by_member(values: Members, key: Seq<u8>, now: i64)
    requires
        account_of_members(values, key, now) is Ok,
    ensures
        ({
            let account = account_of_members(values, key, now)->Ok_0;
            let file = JsonView::Object(values);
            let of_user = "oauth:"@ + account.provider + ":"@;
            let named = file.get_text("oauth:active_provider"@);
            let access = file.get_text(of_user + "access_token"@);
            let refresh = file.get_text(of_user + "refresh_token"@);
            let jwt = file.get_text("zcodejwttoken"@);
            let info = file.get_text(of_user + "user_info"@);
            &&& named is Some && decrypted(named->0, key) is Ok
            &&& account.provider == ascii_lower(trimmed(decrypted(named->0, key)->Ok_0))
            &&& account.provider == "zai"@ || account.provider == "bigmodel"@
            &&& access is Some && decrypted(access->0, key) == Ok::<Seq<char>, Seq<char>>(
                account.access_token,
            )
            &&& refresh is None ==> account.refresh_token is None
            &&& refresh is Some ==> account.refresh_token is Some && decrypted(refresh->0, key)
                == Ok::<Seq<char>, Seq<char>>(account.refresh_token->0)
            &&& jwt is Some && decrypted(jwt->0, key) == Ok::<Seq<char>, Seq<char>>(
                account.zcode_jwt_token,
            )
            &&& account.user_info_raw is Some
            &&& info is None ==> account.user_info_raw->0 == JsonView::Object(Seq::empty())
            &&& info is Some ==> {
                let plain = decrypted(info->0, key);
                &&& plain is Ok
                &&& json_parse(plain->Ok_0) matches Ok(value) ==> account.user_info_raw->0 == value
                &&& json_parse(plain->Ok_0) is Err ==> account.user_info_raw->0
                    == JsonView::Object(Seq::empty())
            }
            &&& account == account_of_user(
                account.provider,
                account.access_token,
                account.refresh_token,
                account.zcode_jwt_token,
                account.user_info_raw->0,
                now,
            )
        }),
{
    let account = account_of_members(values, key, now)->Ok_0;
    let of_user = "oauth:"@ + account.provider + ":"@;
    assert(oauth_name(account.provider, "access_token"@) =~= of_user + "access_token"@);
    assert(oauth_name(account.provider, "refresh_token"@) =~= of_user + "refresh_token"@);
    assert(oauth_name(account.provider, "user_info"@) =~= of_user + "user_info"@);
}

/// The user of an account that is read out of a credentials file is named by the
/// first of the members `user_id`, `id`, `customerNumber` and `sub` of the user's
/// data that holds a text; two users who are named otherwise get identifiers made
/// of their own names.
pub proof fn read_accounts_are_of_their_user(
    content: Seq<char>,
    key: Seq<u8>,
    now: i64,
    user: Seq<char>,
)
    requires
        account_of_file(Some(Ok(content)), key, now) is Ok,
        trimmed(user).len() > 0,
    ensures
        ({
            let account = account_of_file(Some(Ok(content)), key, now)->Ok_0;
            let info = account.user_info_raw->0;
            let is_named = {
                ||| info.get("user_id"@) == Some(JsonView::Text(user))
                ||| info.get_text("user_id"@) is None && info.get("id"@) == Some(
                    JsonView::Text(user),
                )
                ||| info.get_text("user_id"@) is None && info.get_text("id"@) is None && info.get(
                    "customerNumber"@,
                ) == Some(JsonView::Text(user))
                ||| info.get_text("user_id"@) is None && info.get_text("id"@) is None
                    && info.get_text("customerNumber"@) is None && info.get("sub"@) == Some(
                    JsonView::Text(user),
                )
            };
            is_named ==> {
                &&& account.user_id == Some(trimmed(user))
                &&& account.id == "zcode_"@ + md5_hex(
                    encode_utf8(account.provider + ":"@ + trimmed(user)),
                )
            }
        }),
{
    let values = json_parse(content)->Ok_0->Object_0;
    accounts_are_read_member_by_member(values, key, now);
    let account = account_of_file(Some(Ok(content)), key, now)->Ok_0;
    users_are_named_by_their_data(
        account.provider,
        account.access_token,
        account.refresh_token,
        account.zcode_jwt_token,
        account.user_info_raw->0,
        now,
    );
    accounts_of_users_are_new(
        account.provider,
        account.access_token,
        account.refresh_token,
        account.zcode_jwt_token,
        account.user_info_raw->0,
        now,
    );
}

/// Reading an account succeeds if and only if the file names a known provider and
/// holds both tokens, and all that it holds of the user can be decrypted. The
/// error is the one of the first of these that fails.
pub proof fn complete_credentials_are_read(values: Members, key: Seq<u8>, now: i64)
    ensures
        ({
            let file = JsonView::Object(values);
            let read = account_of_members(values, key, now);
            let named = file.get_text("oauth:active_provider"@);
            let provider = ascii_lower(trimmed(decrypted(named->0, key)->Ok_0));
            let of_user = "oauth:"@ + provider + ":"@;
            let access = file.get_text(of_user + "access_token"@);
            let refresh = file.get_text(of_user + "refresh_token"@);
            let jwt = file.get_text("zcodejwttoken"@);
            let info = file.get_text(of_user + "user_info"@);
            if named is None {
                read == Err::<AccountView, Seq<char>>("ZCode 本地凭据缺少 active provider"@)
            } else if decrypted(named->0, key) is Err {
                read == Err::<AccountView, Seq<char>>(decrypted(named->0, key)->Err_0)
            } else if provider != "zai"@ && provider != "bigmodel"@ {
                read == Err::<AccountView, Seq<char>>("不支持的 ZCode OAuth provider"@)
            } else if access is None {
                read == Err::<AccountView, Seq<char>>("ZCode 本地凭据缺少 access token"@)
            } else if decrypted(access->0, key) is Err {
                read == Err::<AccountView, Seq<char>>(decrypted(access->0, key)->Err_0)
            } else if refresh is Some && decrypted(refresh->0, key) is Err {
                read == Err::<AccountView, Seq<char>>(decrypted(refresh->0, key)->Err_0)
            } else if jwt is None {
                read == Err::<AccountView, Seq<char>>("ZCode 本地凭据缺少 zcode JWT"@)
            } else if decrypted(jwt->0, key) is Err {
                read == Err::<AccountView, Seq<char>>(decrypted(jwt->0, key)->Err_0)
            } else if info is Some && decrypted(info->0, key) is Err {
                read == Err::<AccountView, Seq<char>>(decrypted(info->0, key)->Err_0)
            } else {
                read is Ok
            }
        }),
{
    let named = JsonView::Object(values).get_text("oauth:active_provider"@);
    let provider = ascii_lower(trimmed(decrypted(named->0, key)->Ok_0));
    let of_user = "oauth:"@ + provider + ":"@;
    assert(oauth_name(provider, "access_token"@) =~= of_user + "access_token"@);
    assert(oauth_name(provider, "refresh_token"@) =~= of_user + "refresh_token"@);
    assert(oauth_name(provider, "user_info"@) =~= of_user + "user_info"@);
}

/// A credentials file is read as its members are; one of which the members
/// cannot be had is refused with that error.
pub proof fn files_are_read_by_their_members(
    read: Option<Result<Seq<char>, Seq<char>>>,
    key: Seq<u8>,
    now: i64,
)
    ensures
        read_members(read) matches Ok(values) ==> account_of_file(read, key, now)
            == account_of_members(values, key, now),
        read_members(read) matches Err(message) ==> account_of_file(read, key, now) == Err::<
            AccountView,
            Seq<char>,
        >(message),
{
}

/// The user's data are written as they came with the account. Where none came
/// they are an object of the user, the address, the name and the picture, `null`
/// standing for what is missing.
pub proof fn user_data_are_kept_or_made(account: AccountView, name: Seq<char>)
    ensures
        account.user_info_raw matches Some(value) ==> user_info_of(account) == value,
        account.user_info_raw is None ==> {
            let info = user_info_of(account);
            let shown = |field: Option<Seq<char>>, value: Option<JsonView>|
                if field is Some {
                    value == Some(JsonView::Text(field->0))
                } else {
                    value == Some(JsonView::Null)
                };
            &&& info is Object
            &&& shown(account.user_id, info.get("user_id"@))
            &&& info.get("email"@) == Some(JsonView::Text(account.email))
            &&& shown(account.display_name, info.get("name"@))
            &&& shown(account.avatar_url, info.get("avatar"@))
            &&& name != "user_id"@ && name != "email"@ && name != "name"@ && name != "avatar"@
                ==> info.get(name) is None
        },
{
    if account.user_info_raw is None {
        reveal_strlit("user_id");
        reveal_strlit("email");
        reveal_strlit("name");
        reveal_strlit("avatar");
        assert("user_id"@.len() == 7 && "email"@.len() == 5);
        assert("name"@.len() == 4 && "avatar"@.len() == 6);
        lemma_user_info_member(account, "user_id"@);
        lemma_user_info_member(account, "email"@);
        lemma_user_info_member(account, "name"@);
        lemma_user_info_member(account, "avatar"@);
        lemma_user_info_member(account, name);
    }
}

/// Writing an account sets or removes members of these eight names and no
/// others.
pub proof fn accounts_take_eight_members(name: Seq<char>)
    ensures
        is_account_member(name) <==> {
            ||| name == "oauth:active_provider"@
            ||| name == "zcodejwttoken"@
            ||| name == "oauth:zai:access_token"@
            ||| name == "oauth:zai:refresh_token"@
            ||| name == "oauth:zai:user_info"@
            ||| name == "oauth:bigmodel:access_token"@
            ||| name == "oauth:bigmodel:refresh_token"@
            ||| name == "oauth:bigmodel:user_info"@
        },
        is_user_member(name, "zai"@) <==> {
            ||| name == "oauth:zai:access_token"@
            ||| name == "oauth:zai:refresh_token"@
            ||| name == "oauth:zai:user_info"@
        },
        is_user_member(name, "bigmodel"@) <==> {
            ||| name == "oauth:bigmodel:access_token"@
            ||| name == "oauth:bigmodel:refresh_token"@
            ||| name == "oauth:bigmodel:user_info"@
        },
{
    reveal_strlit("oauth:");
    reveal_strlit(":");
    reveal_strlit("zai");
    reveal_strlit("bigmodel");
    reveal_strlit("access_token");
    reveal_strlit("refresh_token");
    reveal_strlit("user_info");
    reveal_strlit("oauth:zai:access_token");
    reveal_strlit("oauth:zai:refresh_token");
    reveal_strlit("oauth:zai:user_info");
    reveal_strlit("oauth:bigmodel:access_token");
    reveal_strlit("oauth:bigmodel:refresh_token");
    reveal_strlit("oauth:bigmodel:user_info");
    assert(oauth_name("zai"@, "access_token"@) =~= "oauth:zai:access_token"@);
    assert(oauth_name("zai"@, "refresh_token"@) =~= "oauth:zai:refresh_token"@);
    assert(oauth_name("zai"@, "user_info"@) =~= "oauth:zai:user_info"@);
    assert(oauth_name("bigmodel"@, "access_token"@) =~= "oauth:bigmodel:access_token"@);
    assert(oauth_name("bigmodel"@, "refresh_token"@) =~= "oauth:bigmodel:refresh_token"@);
    assert(oauth_name("bigmodel"@, "user_info"@) =~= "oauth:bigmodel:user_info"@);
}

/// A member that holds a text encrypted is one that begins with `enc:v1:` and
/// decrypts to the text.
pub proof fn encrypted_members_decrypt(
    values: Members,
    name: Seq<char>,
    plain: Seq<char>,
    key: Seq<u8>,
)
    requires
        holds_encrypted(values, name, plain, key),
    ensures
        member(values, name) matches Some(JsonView::Text(_)),
        "enc:v1:"@.is_prefix_of(member(values, name)->0->Text_0),
        has_official_shape(member(values, name)->0->Text_0, encode_utf8(plain).len()),
        decrypted(member(values, name)->0->Text_0, key) == Ok::<Seq<char>, Seq<char>>(plain),
{
}

/// A credentials file into which an account was written names the provider of
/// the account and holds its tokens and its user's data, each encrypted, under
/// the names of that provider; a refresh token that is missing or blank is not
/// in it, and neither is anything of the other provider.
pub proof fn written_files_hold_the_account(
    text: Seq<char>,
    values: Members,
    account: AccountView,
    key: Seq<u8>,
)
    requires
        is_file_with_account(text, values, account, key),
    ensures
        ({
            let provider = ascii_lower(trimmed(account.provider));
            let of_user = "oauth:"@ + provider + ":"@;
            let after = json_parse(text)->Ok_0->Object_0;
            let token = account.refresh_token;
            &&& json_parse(text) matches Ok(JsonView::Object(_))
            &&& provider == "zai"@ || provider == "bigmodel"@
            &&& holds_encrypted(after, "oauth:active_provider"@, provider, key)
            &&& holds_encrypted(after, of_user + "access_token"@, account.access_token, key)
            &&& token is Some && trimmed(token->0).len() > 0 ==> holds_encrypted(
                after,
                of_user + "refresh_token"@,
                trimmed(token->0),
                key,
            )
            &&& token is None || trimmed(token->0).len() == 0 ==> member(
                after,
                of_user + "refresh_token"@,
            ) is None
            &&& holds_encrypted(
                after,
                of_user + "user_info"@,
                json_compact(user_info_of(account)),
                key,
            )
            &&& holds_encrypted(after, "zcodejwttoken"@, account.zcode_jwt_token, key)
            &&& provider == "zai"@ ==> {
                &&& member(after, "oauth:bigmodel:access_token"@) is None
                &&& member(after, "oauth:bigmodel:refresh_token"@) is None
                &&& member(after, "oauth:bigmodel:user_info"@) is None
            }
            &&& provider == "bigmodel"@ ==> {
                &&& member(after, "oauth:zai:access_token"@) is None
                &&& member(after, "oauth:zai:refresh_token"@) is None
                &&& member(after, "oauth:zai:user_info"@) is None
            }
        }),
{
    let provider = ascii_lower(trimmed(account.provider));
    let of_user = "oauth:"@ + provider + ":"@;
    let after = json_parse(text)->Ok_0->Object_0;
    assert(oauth_name(provider, "access_token"@) =~= of_user + "access_token"@);
    assert(oauth_name(provider, "refresh_token"@) =~= of_user + "refresh_token"@);
    assert(oauth_name(provider, "user_info"@) =~= of_user + "user_info"@);
    lemma_other_members_are_gone(text, values, account, key, "oauth:bigmodel:access_token"@);
    lemma_other_members_are_gone(text, values, account, key, "oauth:bigmodel:refresh_token"@);
    lemma_other_members_are_gone(text, values, account, key, "oauth:bigmodel:user_info"@);
    lemma_other_members_are_gone(text, values, account, key, "oauth:zai:access_token"@);
    lemma_other_members_are_gone(text, values, account, key, "oauth:zai:refresh_token"@);
    lemma_other_members_are_gone(text, values, account, key, "oauth:zai:user_info"@);
}

proof fn lemma_other_members_are_gone(
    text: Seq<char>,
    values: Members,
    account: AccountView,
    key: Seq<u8>,
    name: Seq<char>,
)
    requires
        is_file_with_account(text, values, account, key),
    ensures
        is_user_member(name, "bigmodel"@) && ascii_lower(trimmed(account.provider)) == "zai"@
            ==> member(json_parse(text)->Ok_0->Object_0, name) is None,
        is_user_member(name, "zai"@) && ascii_lower(trimmed(account.provider)) == "bigmodel"@
            ==> member(json_parse(text)->Ok_0->Object_0, name) is None,
        is_user_member("oauth:bigmodel:access_token"@, "bigmodel"@),
        is_user_member("oauth:bigmodel:refresh_token"@, "bigmodel"@),
        is_user_member("oauth:bigmodel:user_info"@, "bigmodel"@),
        is_user_member("oauth:zai:access_token"@, "zai"@),
        is_user_member("oauth:zai:refresh_token"@, "zai"@),
        is_user_member("oauth:zai:user_info"@, "zai"@),
{
    lemma_member_names_differ();
    accounts_take_eight_members("oauth:bigmodel:access_token"@);
    accounts_take_eight_members("oauth:bigmodel:refresh_token"@);
    accounts_take_eight_members("oauth:bigmodel:user_info"@);
    accounts_take_eight_members("oauth:zai:access_token"@);
    accounts_take_eight_members("oauth:zai:refresh_token"@);
    accounts_take_eight_members("oauth:zai:user_info"@);
    reveal_strlit("zai");
    reveal_strlit("bigmodel");
    assert("zai"@.len() != "bigmodel"@.len());
    let after = json_parse(text)->Ok_0->Object_0;
    if is_user_member(name, "bigmodel"@) && ascii_lower(trimmed(account.provider)) == "zai"@ {
        assert(!is_user_member(name, "zai"@));
        assert(member(after, name) is None);
    }
    if is_user_member(name, "zai"@) && ascii_lower(trimmed(account.provider)) == "bigmodel"@ {
        assert(!is_user_member(name, "bigmodel"@));
        assert(member(after, name) is None);
    }
}

/// Each member that is none of the eight of an account is in the written file if
/// and only if it was there before, and texts are what they were.
pub proof fn other_members_stay(
    text: Seq<char>,
    values: Members,
    account: AccountView,
    key: Seq<u8>,
    name: Seq<char>,
)
    requires
        is_file_with_account(text, values, account, key),
        name != "oauth:active_provider"@,
        name != "zcodejwttoken"@,
        name != "oauth:zai:access_token"@,
        name != "oauth:zai:refresh_token"@,
        name != "oauth:zai:user_info"@,
        name != "oauth:bigmodel:access_token"@,
        name != "oauth:bigmodel:refresh_token"@,
        name != "oauth:bigmodel:user_info"@,
    ensures
        ({
            let before = member(values, name);
            let after = json_parse(text)->Ok_0.get(name);
            &&& before is Some <==> after is Some
            &&& stayed(before, after)
            &&& before matches Some(JsonView::Text(kept)) ==> after == Some(JsonView::Text(kept))
        }),
{
    accounts_take_eight_members(name);
    let after = json_parse(text)->Ok_0->Object_0;
    assert(stayed(member(values, name), member(after, name)));
}

/// Writing an account succeeds if and only if the file can be read, the provider
/// is one of the two, and the tokens and the user's data can be encrypted.
pub proof fn accounts_of_known_providers_are_written(
    read: Option<Result<Seq<char>, Seq<char>>>,
    account: AccountView,
    key: Seq<u8>,
    res: Result<Seq<char>, Seq<char>>,
)
    requires
        is_written(read, account, key, res),
    ensures
        ({
            let provider = ascii_lower(trimmed(account.provider));
            let token = account.refresh_token;
            let fits = |text: Seq<char>|
                encode_utf8(text).len() <= 0x10_0000_0000 && base64_fits(encode_utf8(text).len());
            &&& res is Ok <==> {
                &&& read_members(read) is Ok
                &&& provider == "zai"@ || provider == "bigmodel"@
                &&& fits(account.access_token)
                &&& fits(account.zcode_jwt_token)
                &&& fits(json_compact(user_info_of(account)))
                &&& token is Some && trimmed(token->0).len() > 0 ==> fits(trimmed(token->0))
            }
            &&& res matches Ok(text) ==> is_file_with_account(
                text,
                read_members(read)->Ok_0,
                account,
                key,
            )
        }),
{
}

/// The files of the client's own profile lie below its data under these names,
/// and those of an instance below its root.
pub proof fn credentials_lie_below_the_data(
    style: PathStyle,
    home: &str,
    setting: Option<String>,
    root: &str,
    directory: Result<String, String>,
    credentials: Result<String, String>,
    data_root: Result<String, String>,
    homeless: Result<String, String>,
    settings: String,
    of_instance: String,
)
    requires
        call_ensures(resolve_default_v2_dir, (style, Some(home), setting), directory),
        call_ensures(default_credentials_path, (style, Some(home), setting), credentials),
        call_ensures(default_data_root_dir, (style, Some(home), setting), data_root),
        call_ensures(default_credentials_path, (style, None, setting), homeless),
        call_ensures(default_setting_path, (style, home), settings),
        call_ensures(credentials_path_for_instance_root, (style, root), of_instance),
    ensures
        ({
            let base = data_base(home@, setting.deep_view());
            &&& directory is Ok && directory->Ok_0@ == path_below(style, base, ".zcode/v2"@)
            &&& data_root is Ok && data_root->Ok_0@ == path_below(style, base, ".zcode"@)
            &&& credentials is Ok && credentials->Ok_0@ == path_below(
                style,
                path_below(style, base, ".zcode/v2"@),
                "credentials.json"@,
            )
        }),
        homeless is Err && homeless->Err_0@ == "无法获取用户主目录"@,
        settings@ == path_below(style, path_below(style, home@, ".zcode/v2"@), "setting.json"@),
        of_instance@ == path_below(
            style,
            path_below(style, root@, "data/.zcode/v2"@),
            "credentials.json"@,
        ),
{
}

/// The members of a credentials file are those of its object, and each means
/// what its text decrypts to for the home.
pub proof fn credentials_files_are_read(
    read: Option<Result<String, String>>,
    members: Result<Vec<(String, Json)>, String>,
    values: &Vec<(String, Json)>,
    name: &str,
    home: &str,
    host: &HostIdentity,
    meaning: Result<Option<String>, String>,
)
    requires
        call_ensures(read_json_map, (read,), members),
        call_ensures(decrypted_value, (values, name, home, host), meaning),
    ensures
        read is None ==> members is Ok && members->Ok_0@.len() == 0,
        read matches Some(Ok(content)) ==> (json_parse(content@) matches Ok(JsonView::Object(after))
            ==> members is Ok && members_view(members->Ok_0@) == after),
        read matches Some(Err(message)) ==> members is Err && members->Err_0@
            == "读取 ZCode 凭据失败: "@ + message@,
        match member(members_view(values@), name@) {
            Some(JsonView::Text(text)) => outcome(meaning) == match decrypted(
                text,
                key_for_home(home@, host@),
            ) {
                Ok(plain) => Ok::<Option<Seq<char>>, Seq<char>>(Some(plain)),
                Err(message) => Err(message),
            },
            _ => meaning is Ok && meaning->Ok_0 is None,
        },
{
    if read is None {
        assert(members_outcome(members) == Ok::<Members, Seq<char>>(Seq::empty()));
        assert(members_view(members->Ok_0@).len() == members->Ok_0@.len());
    }
}

/// The text that is read is that of the first name that holds one, without the
/// white space around it.
pub proof fn first_texts_are_read(value: &Json, keys: &[&str], res: Option<String>, at: int)
    requires
        call_ensures(value_string, (value, keys), res),
    ensures
        0 <= at < keys@.len() && value@.get_text(keys@[at]@) is Some && (forall|k: int|
            0 <= k < at ==> value@.get_text((#[trigger] keys@[k])@) is None) ==> {
            let text = value@.get_text(keys@[at]@)->0;
            &&& trimmed(text).len() > 0 ==> res is Some && res->0@ == trimmed(text)
            &&& trimmed(text).len() == 0 ==> res is None
        },
        (forall|k: int| 0 <= k < keys@.len() ==> value@.get_text((#[trigger] keys@[k])@) is None)
            ==> res is None,
{
    let names = keys.deep_view();
    assert forall|k: int| 0 <= k < names.len() implies #[trigger] names[k] == keys@[k]@ by {}
    the_first_text_counts(value@, names, at);
    assert(res.deep_view() == normalized(first_text(value@, names)));
}

/// The account of a user is named, shown and told by the user's data, and has
/// the tokens that are given.
pub proof fn accounts_are_made_of_user_data(
    provider: String,
    access: String,
    refresh: Option<String>,
    jwt: String,
    info: Json,
    now: i64,
    res: ZcodeAccount,
)
    requires
        call_ensures(account_with_user_info, (provider, access, refresh, jwt, info, now), res),
    ensures
        ({
            let named = if info@.get_text("user_id"@) is Some {
                info@.get_text("user_id"@)
            } else if info@.get_text("id"@) is Some {
                info@.get_text("id"@)
            } else if info@.get_text("customerNumber"@) is Some {
                info@.get_text("customerNumber"@)
            } else {
                info@.get_text("sub"@)
            };
            &&& named is Some && trimmed(named->0).len() > 0 ==> res@.user_id == Some(
                trimmed(named->0),
            ) && res@.id == "zcode_"@ + md5_hex(
                encode_utf8(provider@ + ":"@ + trimmed(named->0)),
            )
            &&& named is None || trimmed(named->0).len() == 0 ==> res@.user_id is None && res@.id
                == "zcode_"@ + md5_hex(encode_utf8(provider@ + ":"@ + res@.email))
        }),
        res@.provider == provider@,
        res@.access_token == access@,
        res@.refresh_token == refresh.deep_view(),
        res@.zcode_jwt_token == jwt@,
        res@.user_info_raw == Some(info@),
        res@.created_at == now,
        res@.last_used == now,
        res@ == account_of_user(provider@, access@, refresh.deep_view(), jwt@, info@, now),
{
    users_are_named_by_their_data(provider@, access@, refresh.deep_view(), jwt@, info@, now);
    accounts_of_users_are_new(provider@, access@, refresh.deep_view(), jwt@, info@, now);
}

/// Reading a credentials file at a given time gives the account that its members
/// hold under the key of the home, or the error of its members.
pub proof fn accounts_are_read_from_files(
    content: String,
    home: &str,
    host: &HostIdentity,
    now: i64,
    res: Result<ZcodeAccount, String>,
    values: &Vec<(String, Json)>,
    from_members: Result<ZcodeAccount, String>,
)
    requires
        call_ensures(
            account_from_credentials_path_with_home_at,
            (Some(Ok(content)), home, host, now),
            res,
        ),
        call_ensures(account_from_members, (values, home, host, now), from_members),
    ensures
        outcome(from_members) == account_of_members(
            members_view(values@),
            key_for_home(home@, host@),
            now,
        ),
        json_parse(content@) matches Ok(JsonView::Object(members)) ==> outcome(res)
            == account_of_members(members, key_for_home(home@, host@), now),
        json_parse(content@) matches Err(message) ==> res is Err && res->Err_0@
            == "解析 ZCode 凭据失败: "@ + message,
        json_parse(content@) is Ok && json_parse(content@)->Ok_0 !is Object ==> res is Err
            && res->Err_0@ == "ZCode 凭据文件必须是 JSON 对象"@,
{
    assert(reading(Some(Ok(content))) == Some(Ok::<Seq<char>, Seq<char>>(content@)));
}

/// An account that is brought in from the client is read from its credentials
/// file under the key of the home: it has the tokens of the file, and its user is
/// the one whom the user's data name. Without a home, or without a file, there is
/// none.
pub proof fn local_accounts_are_of_their_user(
    content: String,
    home: &str,
    host: &HostIdentity,
    res: Result<ZcodeAccount, String>,
    missing: Result<ZcodeAccount, String>,
    homeless: Result<ZcodeAccount, String>,
    user: Seq<char>,
)
    requires
        call_ensures(import_from_local, (Some(Ok(content)), Some(home), host), res),
        call_ensures(import_from_local, (None, Some(home), host), missing),
        call_ensures(import_from_local, (Some(Ok(content)), None, host), homeless),
        trimmed(user).len() > 0,
    ensures
        missing is Err && missing->Err_0@ == "未找到 ZCode 本地 credentials.json"@,
        homeless is Err && homeless->Err_0@ == "无法获取用户主目录"@,
        exists|now: i64|
            is_time(now) && outcome(res) == #[trigger] account_of_file(
                Some(Ok(content@)),
                key_for_home(home@, host@),
                now,
            ),
        res is Ok ==> {
            let info = res->Ok_0@.user_info_raw->0;
            let is_named = {
                ||| info.get("user_id"@) == Some(JsonView::Text(user))
                ||| info.get_text("user_id"@) is None && info.get("id"@) == Some(
                    JsonView::Text(user),
                )
                ||| info.get_text("user_id"@) is None && info.get_text("id"@) is None && info.get(
                    "customerNumber"@,
                ) == Some(JsonView::Text(user))
                ||| info.get_text("user_id"@) is None && info.get_text("id"@) is None
                    && info.get_text("customerNumber"@) is None && info.get("sub"@) == Some(
                    JsonView::Text(user),
                )
            };
            is_named ==> res->Ok_0@.user_id == Some(trimmed(user)) && res->Ok_0@.id == "zcode_"@
                + md5_hex(encode_utf8(res->Ok_0@.provider + ":"@ + trimmed(user)))
        },
{
    assert(reading(Some(Ok(content))) == Some(Ok::<Seq<char>, Seq<char>>(content@)));
    let key = key_for_home(home@, host@);
    let now = choose|now: i64|
            is_time(now) && outcome(res) == #[trigger] account_of_file(Some(Ok(content@)), key, now);
    if res is Ok {
        read_accounts_are_of_their_user(content@, key, now, user);
    }
}

/// Reading at the time of day comes to what reading at some time does, and needs
/// the home.
pub proof fn accounts_are_read_at_some_time(
    read: Option<Result<String, String>>,
    home: &str,
    host: &HostIdentity,
    with_home: Result<ZcodeAccount, String>,
    res: Result<ZcodeAccount, String>,
    homeless: Result<ZcodeAccount, String>,
)
    requires
        call_ensures(account_from_credentials_path_with_home, (read, home, host), with_home),
        call_ensures(account_from_credentials_path, (read, Some(home), host), res),
        call_ensures(account_from_credentials_path, (read, None, host), homeless),
    ensures
        homeless is Err && homeless->Err_0@ == "无法获取用户主目录"@,
        exists|now: i64|
            is_time(now) && outcome(res) == #[trigger] account_of_file(
                reading(read),
                key_for_home(home@, host@),
                now,
            ),
        exists|now: i64|
            is_time(now) && outcome(with_home) == #[trigger] account_of_file(
                reading(read),
                key_for_home(home@, host@),
                now,
            ),
{
}

/// The user's data of an account are written as they came, or made of its
/// fields.
pub proof fn user_data_are_official(account: &ZcodeAccount, res: Json)
    requires
        call_ensures(official_user_info, (account,), res),
    ensures
        account@.user_info_raw is Some ==> res@ == account@.user_info_raw->0,
        account@.user_info_raw is None ==> {
            &&& res@.get("email"@) == Some(JsonView::Text(account@.email))
            &&& account@.user_id is Some ==> res@.get("user_id"@) == Some(
                JsonView::Text(account@.user_id->0),
            )
            &&& account@.user_id is None ==> res@.get("user_id"@) == Some(JsonView::Null)
            &&& account@.display_name is Some ==> res@.get("name"@) == Some(
                JsonView::Text(account@.display_name->0),
            )
            &&& account@.display_name is None ==> res@.get("name"@) == Some(JsonView::Null)
            &&& account@.avatar_url is Some ==> res@.get("avatar"@) == Some(
                JsonView::Text(account@.avatar_url->0),
            )
            &&& account@.avatar_url is None ==> res@.get("avatar"@) == Some(JsonView::Null)
        },
{
    user_data_are_kept_or_made(account@, Seq::empty());
}

/// Writing an account into a credentials file and reading the file back under
/// the same home gives the provider, the tokens and the user of the account back.
/// Writing succeeds whatever the nonces are, or for none.
pub proof fn written_accounts_come_back(
    account: &ZcodeAccount,
    read: Option<Result<String, String>>,
    home: &str,
    host: &HostIdentity,
    nonces: &WriteNonces,
    by_nonces: Result<String, String>,
    by_chance: Result<String, String>,
    for_user: Result<String, String>,
    homeless: Result<String, String>,
    now: i64,
    again: Result<ZcodeAccount, String>,
)
    requires
        call_ensures(
            write_account_to_credentials_path_with_nonces,
            (account, read, home, host, nonces),
            by_nonces,
        ),
        call_ensures(
            write_account_to_credentials_path_with_home,
            (account, read, home, host),
            by_chance,
        ),
        call_ensures(write_account_to_credentials_path, (account, read, Some(home), host), for_user),
        call_ensures(write_account_to_credentials_path, (account, read, None, host), homeless),
        by_chance is Ok ==> call_ensures(
            account_from_credentials_path_with_home_at,
            (Some(Ok(by_chance->Ok_0)), home, host, now),
            again,
        ),
    ensures
        homeless is Err && homeless->Err_0@ == "无法获取用户主目录"@,
        by_nonces is Ok <==> by_chance is Ok,
        for_user is Ok <==> by_chance is Ok,
        by_chance is Ok ==> {
            let token = account@.refresh_token;
            &&& again is Ok
            &&& again->Ok_0@.provider == ascii_lower(trimmed(account@.provider))
            &&& again->Ok_0@.access_token == account@.access_token
            &&& again->Ok_0@.zcode_jwt_token == account@.zcode_jwt_token
            &&& token is Some && trimmed(token->0).len() > 0 ==> again->Ok_0@.refresh_token == Some(
                trimmed(token->0),
            )
            &&& token is None || trimmed(token->0).len() == 0 ==> again->Ok_0@.refresh_token is None
        },
        for_user is Ok ==> is_file_with_account(
            for_user->Ok_0@,
            read_members(reading(read))->Ok_0,
            account@,
            key_for_home(home@, host@),
        ),
        by_nonces is Ok ==> is_file_with_account(
            by_nonces->Ok_0@,
            read_members(reading(read))->Ok_0,
            account@,
            key_for_home(home@, host@),
        ),
        by_chance is Ok ==> is_file_with_account(
            by_chance->Ok_0@,
            read_members(reading(read))->Ok_0,
            account@,
            key_for_home(home@, host@),
        ),
{
    if by_chance is Ok {
        let text = by_chance->Ok_0;
        let key = key_for_home(home@, host@);
        assert(reading(Some(Ok(text))) == Some(Ok::<Seq<char>, Seq<char>>(text@)));
        written_accounts_are_read_back(
            text@,
            read_members(reading(read))->Ok_0,
            account@,
            key,
            now,
        );
    }
}

/// An account is given to an instance by writing it into the credentials file of
/// the instance; the account itself stays as it is, and must be there.
pub proof fn instances_are_given_the_account(
    account: ZcodeAccount,
    read: Option<Result<String, String>>,
    home: &str,
    host: &HostIdentity,
    res: Result<(ZcodeAccount, String), String>,
    missed: Result<(ZcodeAccount, String), String>,
    homeless: Result<(ZcodeAccount, String), String>,
)
    requires
        call_ensures(inject_to_instance_root, (Some(account), read, Some(home), host), res),
        call_ensures(inject_to_instance_root, (None, read, Some(home), host), missed),
        call_ensures(inject_to_instance_root, (Some(account), read, None, host), homeless),
    ensures
        missed is Err && missed->Err_0@ == "ZCode 账号不存在"@,
        homeless is Err && homeless->Err_0@ == "无法获取用户主目录"@,
        res matches Ok((kept, text)) ==> kept == account && is_file_with_account(
            text@,
            read_members(reading(read))->Ok_0,
            account@,
            key_for_home(home@, host@),
        ),
        res is Ok <==> {
            &&& read_members(reading(read)) is Ok
            &&& normalized_provider(account@.provider) is Ok
            &&& account_fits(account@, json_compact(user_info_of(account@)))
        },
{
}

/// The directory that settings name and the members of a file are taken out of
/// parsed values as they stand there.
pub proof fn parsed_files_are_taken_as_they_are(
    settings: &Json,
    base: Option<String>,
    parsed: Result<Json, String>,
    members: Result<Vec<(String, Json)>, String>,
)
    requires
        call_ensures(data_base_dir, (settings,), base),
        call_ensures(members_of_file, (parsed,), members),
    ensures
        ({
            let named = settings@.get_text("dataBaseDir"@);
            &&& named is Some && trimmed(named->0).len() > 0 ==> base is Some && base->0@
                == trimmed(named->0)
            &&& named is None || trimmed(named->0).len() == 0 ==> base is None
        }),
        parsed is Err ==> members is Err && members->Err_0@ == "解析 ZCode 凭据失败: "@
            + parsed->Err_0@,
        parsed is Ok && parsed->Ok_0@ !is Object ==> members is Err && members->Err_0@
            == "ZCode 凭据文件必须是 JSON 对象"@,
        parsed is Ok && parsed->Ok_0@ is Object ==> members is Ok && JsonView::Object(
            members_view(members->Ok_0@),
        ) == parsed->Ok_0@,
{
    assert(base.deep_view() == named_base(Ok(settings@)));
}

/// Members into which an account was written hold the account under the names of
/// its provider, and every other member but those eight as it was.
pub proof fn members_are_given_the_account(
    values: Vec<(String, Json)>,
    account: &ZcodeAccount,
    info: &str,
    key: &[u8; 32],
    nonces: &WriteNonces,
    res: Result<Vec<(String, Json)>, String>,
    name: Seq<char>,
)
    requires
        call_ensures(members_with_account, (values, account, info, key, nonces), res),
        res is Ok,
    ensures
        ({
            let provider = ascii_lower(trimmed(account@.provider));
            let of_user = "oauth:"@ + provider + ":"@;
            let after = members_view(res->Ok_0@);
            let token = account@.refresh_token;
            &&& provider == "zai"@ || provider == "bigmodel"@
            &&& holds_encrypted(after, "oauth:active_provider"@, provider, key@)
            &&& holds_encrypted(after, of_user + "access_token"@, account@.access_token, key@)
            &&& token is Some && trimmed(token->0).len() > 0 ==> holds_encrypted(
                after,
                of_user + "refresh_token"@,
                trimmed(token->0),
                key@,
            )
            &&& token is None || trimmed(token->0).len() == 0 ==> member(
                after,
                of_user + "refresh_token"@,
            ) is None
            &&& holds_encrypted(after, of_user + "user_info"@, info@, key@)
            &&& holds_encrypted(after, "zcodejwttoken"@, account@.zcode_jwt_token, key@)
            &&& {
                &&& name != "oauth:active_provider"@
                &&& name != "zcodejwttoken"@
                &&& name != "oauth:zai:access_token"@
                &&& name != "oauth:zai:refresh_token"@
                &&& name != "oauth:zai:user_info"@
                &&& name != "oauth:bigmodel:access_token"@
                &&& name != "oauth:bigmodel:refresh_token"@
                &&& name != "oauth:bigmodel:user_info"@
            } ==> member(after, name) == member(members_view(values@), name)
        }),
{
    let provider = ascii_lower(trimmed(account@.provider));
    let of_user = "oauth:"@ + provider + ":"@;
    assert(oauth_name(provider, "access_token"@) =~= of_user + "access_token"@);
    assert(oauth_name(provider, "refresh_token"@) =~= of_user + "refresh_token"@);
    assert(oauth_name(provider, "user_info"@) =~= of_user + "user_info"@);
    accounts_take_eight_members(name);
}

/// An account that is read at the time of day has the time that the clock showed
/// for both of its times.
pub proof fn read_accounts_have_the_time_of_day(
    read: Option<Result<String, String>>,
    home: &str,
    host: &HostIdentity,
    res: Result<ZcodeAccount, String>,
    with_home: Result<ZcodeAccount, String>,
    local: Result<ZcodeAccount, String>,
)
    requires
        call_ensures(account_from_credentials_path, (read, Some(home), host), res),
        call_ensures(account_from_credentials_path_with_home, (read, home, host), with_home),
        call_ensures(import_from_local, (read, Some(home), host), local),
    ensures
        res is Ok ==> is_time(res->Ok_0@.created_at) && res->Ok_0@.last_used
            == res->Ok_0@.created_at,
        with_home is Ok ==> is_time(with_home->Ok_0@.created_at) && with_home->Ok_0@.last_used
            == with_home->Ok_0@.created_at,
        local is Ok ==> is_time(local->Ok_0@.created_at) && local->Ok_0@.last_used
            == local->Ok_0@.created_at,
{
}

/// What is written for a home, also into the file of an instance, is encrypted
/// with nonces that were drawn by chance.
pub proof fn files_are_written_with_drawn_nonces(
    account: ZcodeAccount,
    read: Option<Result<String, String>>,
    home: &str,
    host: &HostIdentity,
    res: Result<String, String>,
    given: Result<(ZcodeAccount, String), String>,
)
    requires
        call_ensures(write_account_to_credentials_path, (&account, read, Some(home), host), res),
        call_ensures(inject_to_instance_root, (Some(account), read, Some(home), host), given),
    ensures
        exists|nonces: WriteNonces|
            {
                &&& is_drawn_nonce(nonces.provider@)
                &&& is_drawn_nonce(nonces.access_token@)
                &&& is_drawn_nonce(nonces.refresh_token@)
                &&& is_drawn_nonce(nonces.user_info@)
                &&& is_drawn_nonce(nonces.zcode_jwt_token@)
                &&& outcome(res) == #[trigger] written_text(
                    reading(read),
                    account@,
                    key_for_home(home@, host@),
                    nonces,
                )
            },
        given is Ok ==> exists|nonces: WriteNonces|
            {
                &&& is_drawn_nonce(nonces.provider@)
                &&& is_drawn_nonce(nonces.access_token@)
                &&& is_drawn_nonce(nonces.refresh_token@)
                &&& is_drawn_nonce(nonces.user_info@)
                &&& is_drawn_nonce(nonces.zcode_jwt_token@)
                &&& Ok::<Seq<char>, Seq<char>>(given->Ok_0.1@) == #[trigger] written_text(
                    reading(read),
                    account@,
                    key_for_home(home@, host@),
                    nonces,
                )
            },
{
}

/// A file is written in turn: the members of the users are removed, and the
/// provider, the access token, the refresh token where there is one, the user's
/// data and the ZCode token are put in, each encrypted with its own nonce.
pub proof fn files_are_written_in_turn(
    read: Option<Result<Seq<char>, Seq<char>>>,
    account: AccountView,
    key: Seq<u8>,
    nonces: WriteNonces,
)
    requires
        written_text(read, account, key, nonces) is Ok,
    ensures
        ({
            let provider = ascii_lower(trimmed(account.provider));
            let of_user = "oauth:"@ + provider + ":"@;
            let token = account.refresh_token;
            let sealed = |text: Seq<char>, nonce: Seq<u8>|
                JsonView::Text(encrypted(text, key, nonce)->Ok_0);
            let cleared = without_users(read_members(read)->Ok_0);
            let named = with(
                cleared,
                "oauth:active_provider"@,
                sealed(provider, nonces.provider@),
            );
            let accessed = with(
                named,
                of_user + "access_token"@,
                sealed(account.access_token, nonces.access_token@),
            );
            let refreshed = if token is Some && trimmed(token->0).len() > 0 {
                with(
                    accessed,
                    of_user + "refresh_token"@,
                    sealed(trimmed(token->0), nonces.refresh_token@),
                )
            } else {
                accessed
            };
            let informed = with(
                refreshed,
                of_user + "user_info"@,
                sealed(json_compact(user_info_of(account)), nonces.user_info@),
            );
            written_text(read, account, key, nonces)->Ok_0 == json_pretty(
                JsonView::Object(
                    with(
                        informed,
                        "zcodejwttoken"@,
                        sealed(account.zcode_jwt_token, nonces.zcode_jwt_token@),
                    ),
                ),
            )
        }),
{
    let provider = ascii_lower(trimmed(account.provider));
    let of_user = "oauth:"@ + provider + ":"@;
    assert(oauth_name(provider, "access_token"@) =~= of_user + "access_token"@);
    assert(oauth_name(provider, "refresh_token"@) =~= of_user + "refresh_token"@);
    assert(oauth_name(provider, "user_info"@) =~= of_user + "user_info"@);
}

}
