//! Managed instances of the ZCode client: their profiles, the store that lists
//! them, and their directories.

use vstd::prelude::*;
use vstd::string::*;
use crate::account::{normalize_string, normalized};
use crate::clock::{is_time_in_millis, time_of_day_in_millis};
use crate::credentials_file::data_base;
use crate::crypto::{draw_uuid, is_drawn_uuid, is_random_uuid};
use crate::json::{
    Json, JsonView, Members, alike_values_hold_the_same_texts, json_parse, json_pretty,
    lemma_without, lemma_without_keeps_nesting, max_nesting, member, members_view, parse_json,
    pretty_json, reads_back, remove_member, stayed, without,
};
use crate::path::{
    PathStyle, below, closed_base, join_path, path_below, path_style,
    paths_below_different_bases_differ, same_base, style_of, written_below,
};
use crate::text::{
    ascii_lower, copied_text, first_position, is_blank, joined, lemma_first_position,
    lemma_found_first, outcome, reading, same_text, trimmed,
};

verus! {

/// The file of the instance store, below the data directory.
pub const INSTANCES_FILE: &'static str = "zcode_instances.json";

/// How an instance is launched.
#[derive(Debug, Clone, Copy, PartialEq)]
pub enum InstanceLaunchMode {
    App,
}

/// The speed at which an instance runs.
#[derive(Debug, Clone, Copy, PartialEq)]
pub enum CodexAppSpeed {
    Standard,
}

/// One managed instance.
#[derive(Debug, PartialEq)]
pub struct InstanceProfile {
    pub id: String,
    pub name: String,
    pub user_data_dir: String,
    pub working_dir: Option<String>,
    pub extra_args: String,
    pub bind_account_id: Option<String>,
    pub launch_mode: InstanceLaunchMode,
    pub app_speed: CodexAppSpeed,
    pub created_at: i64,
    pub last_launched_at: Option<i64>,
    pub last_pid: Option<u32>,
}

/// What an `InstanceProfile` stands for.
pub struct InstanceView {
    pub id: Seq<char>,
    pub name: Seq<char>,
    pub user_data_dir: Seq<char>,
    pub working_dir: Option<Seq<char>>,
    pub extra_args: Seq<char>,
    pub bind_account_id: Option<Seq<char>>,
    pub launch_mode: InstanceLaunchMode,
    pub app_speed: CodexAppSpeed,
    pub created_at: i64,
    pub last_launched_at: Option<i64>,
    pub last_pid: Option<u32>,
}

impl View for InstanceProfile {
    type V = InstanceView;

    open spec fn view(&self) -> InstanceView {
        InstanceView {
            id: self.id@,
            name: self.name@,
            user_data_dir: self.user_data_dir@,
            working_dir: self.working_dir.deep_view(),
            extra_args: self.extra_args@,
            bind_account_id: self.bind_account_id.deep_view(),
            launch_mode: self.launch_mode,
            app_speed: self.app_speed,
            created_at: self.created_at,
            last_launched_at: self.last_launched_at,
            last_pid: self.last_pid,
        }
    }
}

impl DeepView for InstanceProfile {
    type V = InstanceView;

    open spec fn deep_view(&self) -> InstanceView {
        self@
    }
}

/// The settings of the client's own profile.
#[derive(Debug, PartialEq)]
pub struct DefaultInstanceSettings {
    pub bind_account_id: Option<String>,
    pub extra_args: String,
    pub follow_local_account: bool,
    pub last_pid: Option<u32>,
}

/// What a `DefaultInstanceSettings` stands for.
pub struct SettingsView {
    pub bind_account_id: Option<Seq<char>>,
    pub extra_args: Seq<char>,
    pub follow_local_account: bool,
    pub last_pid: Option<u32>,
}

impl View for DefaultInstanceSettings {
    type V = SettingsView;

    open spec fn view(&self) -> SettingsView {
        SettingsView {
            bind_account_id: self.bind_account_id.deep_view(),
            extra_args: self.extra_args@,
            follow_local_account: self.follow_local_account,
            last_pid: self.last_pid,
        }
    }
}

impl DeepView for DefaultInstanceSettings {
    type V = SettingsView;

    open spec fn deep_view(&self) -> SettingsView {
        self@
    }
}

/// The managed instances, and the settings of the client's own profile.
#[derive(Debug, PartialEq)]
pub struct InstanceStore {
    pub instances: Vec<InstanceProfile>,
    pub default_settings: DefaultInstanceSettings,
}

/// What an `InstanceStore` stands for.
pub struct StoreView {
    pub instances: Seq<InstanceView>,
    pub default_settings: SettingsView,
}

impl View for InstanceStore {
    type V = StoreView;

    open spec fn view(&self) -> StoreView {
        StoreView {
            instances: self.instances.deep_view(),
            default_settings: self.default_settings@,
        }
    }
}

impl DeepView for InstanceStore {
    type V = StoreView;

    open spec fn deep_view(&self) -> StoreView {
        self@
    }
}

impl InstanceProfile {
    /// A copy of the profile.
    pub fn copied(&self) -> (res: InstanceProfile)
        ensures
            res@ == self@,
    {
        InstanceProfile {
            id: self.id.clone(),
            name: self.name.clone(),
            user_data_dir: self.user_data_dir.clone(),
            working_dir: copied_text(&self.working_dir),
            extra_args: self.extra_args.clone(),
            bind_account_id: copied_text(&self.bind_account_id),
            launch_mode: self.launch_mode,
            app_speed: self.app_speed,
            created_at: self.created_at,
            last_launched_at: self.last_launched_at,
            last_pid: self.last_pid,
        }
    }
}

impl DefaultInstanceSettings {
    /// A copy of the settings.
    pub fn copied(&self) -> (res: DefaultInstanceSettings)
        ensures
            res@ == self@,
    {
        DefaultInstanceSettings {
            bind_account_id: copied_text(&self.bind_account_id),
            extra_args: self.extra_args.clone(),
            follow_local_account: self.follow_local_account,
            last_pid: self.last_pid,
        }
    }
}

/// The file of the instance store, below the data directory.
pub fn instances_path(style: PathStyle, data_dir: Result<String, String>) -> (res: Result<
    String,
    String,
>)
    ensures
        outcome(res) == below(style, outcome(data_dir), INSTANCES_FILE@),
{
    match data_dir {
        Ok(base) => Ok(join_path(style, base.as_str(), INSTANCES_FILE)),
        Err(message) => Err(message),
    }
}

/// The settings of the client's own profile, out of what loading the store gave.
pub fn load_default_settings(store: Result<InstanceStore, String>) -> (res: Result<
    DefaultInstanceSettings,
    String,
>)
    ensures
        outcome(res) == match store {
            Ok(store) => Ok::<SettingsView, Seq<char>>(store@.default_settings),
            Err(message) => Err(message@),
        },
{
    match store {
        Ok(store) => Ok(store.default_settings),
        Err(message) => Err(message),
    }
}

/// An optional binding as it is given for a change: whether there is one, and
/// the account to bind or none.
pub open spec fn binding(value: Option<Option<String>>) -> Option<Option<Seq<char>>> {
    match value {
        Some(bind) => Some(bind.deep_view()),
        None => None,
    }
}

/// The settings of the client's own profile after a change.
pub open spec fn changed_settings(
    settings: SettingsView,
    bind_account_id: Option<Option<Seq<char>>>,
    extra_args: Option<Seq<char>>,
) -> SettingsView {
    SettingsView {
        bind_account_id: match bind_account_id {
            Some(bind) => bind,
            None => settings.bind_account_id,
        },
        follow_local_account: if bind_account_id is Some {
            false
        } else {
            settings.follow_local_account
        },
        extra_args: match extra_args {
            Some(args) => trimmed(args),
            None => settings.extra_args,
        },
        ..settings
    }
}

/// Changes the settings of the client's own profile: the store with the changed
/// settings, and the settings.
pub fn update_default_settings(
    store: InstanceStore,
    bind_account_id: Option<Option<String>>,
    extra_args: Option<String>,
    _follow_local_account: Option<bool>,
) -> (res: (InstanceStore, DefaultInstanceSettings))
    ensures
        res.1@ == changed_settings(
            store@.default_settings,
            binding(bind_account_id),
            extra_args.deep_view(),
        ),
        res.0@ == (StoreView { default_settings: res.1@, ..store@ }),
{
    let mut settings = store.default_settings;
    match bind_account_id {
        Some(bind) => {
            settings.bind_account_id = bind;
            settings.follow_local_account = false;
        },
        None => {},
    }
    match extra_args {
        Some(args) => {
            settings.extra_args = args.as_str().trim().to_owned();
        },
        None => {},
    }
    let value = settings.copied();
    (InstanceStore { instances: store.instances, default_settings: settings }, value)
}

/// Where the client keeps the data of its own profile on a platform.
pub open spec fn user_data_dir_of(
    style: PathStyle,
    platform: Seq<char>,
    home: Option<Seq<char>>,
    app_data: Option<Seq<char>>,
) -> Result<Seq<char>, Seq<char>> {
    if platform == "macos"@ {
        match home {
            Some(home) => Ok(path_below(style, home, "Library/Application Support/ZCode"@)),
            None => Err("无法获取用户主目录"@),
        }
    } else if platform == "windows"@ {
        match app_data {
            Some(app_data) => Ok(path_below(style, app_data, "ZCode"@)),
            None => Err("无法获取 APPDATA"@),
        }
    } else if platform == "linux"@ {
        match home {
            Some(home) => Ok(path_below(style, home, ".config/ZCode"@)),
            None => Err("无法获取用户主目录"@),
        }
    } else {
        Err("ZCode 多开仅支持 macOS、Windows 和 Linux"@)
    }
}

/// Where the client keeps the data of its own profile on a platform.
pub fn default_user_data_dir_for(
    style: PathStyle,
    platform: &str,
    home: Option<&str>,
    app_data: Option<&str>,
) -> (res: Result<String, String>)
    ensures
        outcome(res) == user_data_dir_of(style, platform@, home.deep_view(), app_data.deep_view()),
{
    if same_text(platform, "macos") {
        match home {
            Some(home) => Ok(join_path(style, home, "Library/Application Support/ZCode")),
            None => Err("无法获取用户主目录".to_owned()),
        }
    } else if same_text(platform, "windows") {
        match app_data {
            Some(app_data) => Ok(join_path(style, app_data, "ZCode")),
            None => Err("无法获取 APPDATA".to_owned()),
        }
    } else if same_text(platform, "linux") {
        match home {
            Some(home) => Ok(join_path(style, home, ".config/ZCode")),
            None => Err("无法获取用户主目录".to_owned()),
        }
    } else {
        Err("ZCode 多开仅支持 macOS、Windows 和 Linux".to_owned())
    }
}

/// Where the client keeps the data of its own profile on the platform `os`,
/// which uses `APPDATA` on Windows and the user's home elsewhere.
pub fn get_default_user_data_dir(os: &str, home: Option<&str>, app_data: Option<&str>) -> (res:
    Result<String, String>)
    ensures
        outcome(res) == user_data_dir_of(style_of(os@), os@, home.deep_view(), app_data.deep_view()),
{
    default_user_data_dir_for(path_style(os), os, home, app_data)
}

/// The directory below which managed instances are kept.
pub open spec fn instances_root(style: PathStyle, home: Option<Seq<char>>) -> Result<
    Seq<char>,
    Seq<char>,
> {
    match home {
        Some(home) => Ok(path_below(style, home, ".antigravity_cockpit/instances/zcode"@)),
        None => Err("无法获取用户主目录"@),
    }
}

/// The directory below which managed instances are kept.
pub fn get_instances_root_dir(style: PathStyle, home: Option<&str>) -> (res: Result<String, String>)
    ensures
        outcome(res) == instances_root(style, home.deep_view()),
{
    match home {
        Some(home) => Ok(join_path(style, home, ".antigravity_cockpit/instances/zcode")),
        None => Err("无法获取用户主目录".to_owned()),
    }
}

/// The directories that a new instance starts from.
#[derive(Debug, PartialEq)]
pub struct InstanceDefaults {
    pub root_dir: String,
    pub default_user_data_dir: String,
}

/// What an `InstanceDefaults` stands for.
pub struct DefaultsView {
    pub root_dir: Seq<char>,
    pub default_user_data_dir: Seq<char>,
}

impl DeepView for InstanceDefaults {
    type V = DefaultsView;

    open spec fn deep_view(&self) -> DefaultsView {
        DefaultsView {
            root_dir: self.root_dir@,
            default_user_data_dir: self.default_user_data_dir@,
        }
    }
}

/// The directories that a new instance starts from on the platform `os`.
pub fn get_instance_defaults(os: &str, home: Option<&str>, app_data: Option<&str>) -> (res: Result<
    InstanceDefaults,
    String,
>)
    ensures
        outcome(res) == match (
            instances_root(style_of(os@), home.deep_view()),
            user_data_dir_of(style_of(os@), os@, home.deep_view(), app_data.deep_view()),
        ) {
            (Err(message), _) => Err::<DefaultsView, Seq<char>>(message),
            (Ok(_), Err(message)) => Err(message),
            (Ok(root_dir), Ok(default_user_data_dir)) => Ok(
                DefaultsView { root_dir, default_user_data_dir },
            ),
        },
{
    let root_dir = match get_instances_root_dir(path_style(os), home) {
        Ok(directory) => directory,
        Err(message) => return Err(message),
    };
    let default_user_data_dir = match get_default_user_data_dir(os, home, app_data) {
        Ok(directory) => directory,
        Err(message) => return Err(message),
    };
    Ok(InstanceDefaults { root_dir, default_user_data_dir })
}

/// The directories of a managed instance, below its root directory: that of the
/// client's window sessions, and that of the client's files.
#[derive(Debug, PartialEq)]
pub struct RootDirectories {
    pub session: String,
    pub data: String,
}

/// The directories that an instance with the root directory `root` needs.
pub fn initialize_empty_root(style: PathStyle, root: &str) -> (res: RootDirectories)
    ensures
        res.session@ == path_below(style, root@, "electron/session"@),
        res.data@ == path_below(style, root@, "data/.zcode/v2"@),
{
    RootDirectories {
        session: join_path(style, root, "electron/session"),
        data: join_path(style, root, "data/.zcode/v2"),
    }
}

/// The directories of the instance with the root directory `root`: those of its
/// window sessions, of its files, of its window data, and of its home.
pub open spec fn instance_directories(style: PathStyle, root: Seq<char>) -> Seq<Seq<char>> {
    seq![
        path_below(style, root, "electron/session"@),
        path_below(style, root, "data/.zcode/v2"@),
        path_below(style, root, "electron"@),
        path_below(style, root, "data"@),
    ]
}

/// No directory of a managed instance is one of an instance with another root
/// directory.
pub proof fn instances_have_their_own_directories(
    style: PathStyle,
    first: Seq<char>,
    second: Seq<char>,
)
    requires
        !same_base(style, first, second),
    ensures
        forall|i: int, j: int|
            0 <= i < 4 && 0 <= j < 4 ==> #[trigger] instance_directories(style, first)[i]
                != #[trigger] instance_directories(style, second)[j],
{
    reveal_strlit("electron/session");
    reveal_strlit("data/.zcode/v2");
    reveal_strlit("electron");
    reveal_strlit("data");
    paths_below_different_bases_differ(style, first, second, "electron/session"@);
    paths_below_different_bases_differ(style, first, second, "data/.zcode/v2"@);
    paths_below_different_bases_differ(style, first, second, "electron"@);
    paths_below_different_bases_differ(style, first, second, "data"@);
    lemma_directory_ends(style, first);
    lemma_directory_ends(style, second);
}

proof fn lemma_directory_ends(style: PathStyle, root: Seq<char>)
    ensures
        ({
            let session = path_below(style, root, "electron/session"@);
            let files = path_below(style, root, "data/.zcode/v2"@);
            let electron = path_below(style, root, "electron"@);
            let data = path_below(style, root, "data"@);
            &&& session.last() == 'n' && session[session.len() - 8] != 'e'
            &&& files.last() == '2'
            &&& electron.last() == 'n' && electron[electron.len() - 8] == 'e'
            &&& data.last() == 'a'
        }),
{
    reveal_strlit("electron/session");
    reveal_strlit("data/.zcode/v2");
    reveal_strlit("electron");
    reveal_strlit("data");
    let closed = closed_base(style, root);
    let session = written_below(style, root, "electron/session"@);
    let electron = written_below(style, root, "electron"@);
    assert(session.len() == 16 && electron.len() == 8);
    assert((closed + session)[closed.len() as int + 8] == session[8]);
    assert((closed + electron)[closed.len() as int] == electron[0]);
    assert((closed + session).last() == session[15]);
    assert((closed + electron).last() == electron[7]);
}

/// A step in which a directory is filled: it is copied, or it is created.
#[derive(Debug, PartialEq)]
pub enum RootStep {
    Copy { from: String, to: String },
    Create { directory: String },
}

/// What a `RootStep` stands for.
pub enum RootStepView {
    Copy { from: Seq<char>, to: Seq<char> },
    Create { directory: Seq<char> },
}

impl DeepView for RootStep {
    type V = RootStepView;

    open spec fn deep_view(&self) -> RootStepView {
        match self {
            RootStep::Copy { from, to } => RootStepView::Copy { from: from@, to: to@ },
            RootStep::Create { directory } => RootStepView::Create { directory: directory@ },
        }
    }
}

/// A directory that is copied from `source` to `to` where `source` is there, and
/// else is created as `otherwise`.
pub open spec fn filling(
    source: Seq<char>,
    is_there: bool,
    to: Seq<char>,
    otherwise: Seq<char>,
) -> RootStepView {
    if is_there {
        RootStepView::Copy { from: source, to }
    } else {
        RootStepView::Create { directory: otherwise }
    }
}

/// How an instance gets its window data from the client's own profile, which
/// keeps them in `source`.
pub fn copy_electron_step(style: PathStyle, root: &str, source: &str, is_there: bool) -> (res:
    RootStep)
    ensures
        res.deep_view() == filling(
            source@,
            is_there,
            path_below(style, root@, "electron"@),
            path_below(style, root@, "electron"@),
        ),
{
    if is_there {
        RootStep::Copy { from: source.to_owned(), to: join_path(style, root, "electron") }
    } else {
        RootStep::Create { directory: join_path(style, root, "electron") }
    }
}

/// How an instance gets its files from the client's own profile, which keeps
/// them in `source`.
pub fn copy_data_step(style: PathStyle, root: &str, source: &str, is_there: bool) -> (res:
    RootStep)
    ensures
        res.deep_view() == filling(
            source@,
            is_there,
            path_below(style, root@, "data/.zcode"@),
            path_below(style, root@, "data/.zcode/v2"@),
        ),
{
    if is_there {
        RootStep::Copy { from: source.to_owned(), to: join_path(style, root, "data/.zcode") }
    } else {
        RootStep::Create { directory: join_path(style, root, "data/.zcode/v2") }
    }
}

/// The settings file of the instance with the root directory `root`.
pub fn managed_setting_path(style: PathStyle, root: &str) -> (res: String)
    ensures
        res@ == path_below(style, root@, "data/.zcode/v2/setting.json"@),
{
    join_path(style, root, "data/.zcode/v2/setting.json")
}

/// The settings of an instance without a directory of their own, out of what
/// the settings file was parsed into; nothing where they name none.
pub open spec fn sanitized(parsed: Result<JsonView, Seq<char>>) -> Result<
    Option<Members>,
    Seq<char>,
> {
    match parsed {
        Err(message) => Err("解析 ZCode 实例设置失败: "@ + message),
        Ok(JsonView::Object(members)) => if member(members, "dataBaseDir"@) is Some {
            Ok(Some(without(members, "dataBaseDir"@)))
        } else {
            Ok(None)
        },
        Ok(_) => Err("ZCode 实例 setting.json 必须是 JSON 对象"@),
    }
}

/// The text that the settings file of an instance is to hold, out of what
/// reading it gave; nothing where it may stay as it is.
pub open spec fn sanitized_text(read: Option<Result<Seq<char>, Seq<char>>>) -> Result<
    Option<Seq<char>>,
    Seq<char>,
> {
    match read {
        None => Ok(None),
        Some(Err(message)) => Err("读取 ZCode 实例设置失败: "@ + message),
        Some(Ok(content)) => match sanitized(json_parse(content)) {
            Err(message) => Err(message),
            Ok(None) => Ok(None),
            Ok(Some(members)) => Ok(Some(json_pretty(JsonView::Object(members)))),
        },
    }
}

/// The settings of an instance without a directory of their own, where `parsed`
/// is what the settings file was parsed into; nothing where they name none.
pub fn sanitize_settings(parsed: Result<Json, String>) -> (res: Result<Option<Json>, String>)
    ensures
        outcome(res) == match sanitized(outcome(parsed)) {
            Ok(Some(members)) => Ok::<Option<JsonView>, Seq<char>>(
                Some(JsonView::Object(members)),
            ),
            Ok(None) => Ok(None),
            Err(message) => Err(message),
        },
{
    match parsed {
        Err(message) => Err(joined("解析 ZCode 实例设置失败: ", message.as_str())),
        Ok(value) => {
            let ghost view = value@;
            match value {
                Json::Object(members) => {
                    assert(view->Object_0 =~= members_view(members@));
                    let mut members = members;
                    if remove_member(&mut members, "dataBaseDir") {
                        let ghost kept = members_view(members@);
                        let res = Json::Object(members);
                        assert(res@->Object_0 =~= kept);
                        Ok(Some(res))
                    } else {
                        Ok(None)
                    }
                },
                _ => Err("ZCode 实例 setting.json 必须是 JSON 对象".to_owned()),
            }
        },
    }
}

/// Whether `text` is a settings file that names no directory of its own and
/// holds the other settings of `members` as they were.
pub open spec fn is_sanitized(text: Seq<char>, members: Members) -> bool {
    match json_parse(text) {
        Ok(JsonView::Object(after)) => {
            &&& member(after, "dataBaseDir"@) is None
            &&& forall|name: Seq<char>|
                name != "dataBaseDir"@ ==> stayed(
                    member(members, name),
                    #[trigger] member(after, name),
                )
        },
        _ => false,
    }
}

/// The text that the settings file of an instance is to hold, out of what
/// reading it gave; nothing where it may stay as it is. The settings then name
/// no directory of their own, and the other settings are as they were.
pub fn sanitize_managed_setting(read: Option<Result<String, String>>) -> (res: Result<
    Option<String>,
    String,
>)
    ensures
        outcome(res) == sanitized_text(reading(read)),
        res matches Ok(Some(text)) ==> {
            let content = reading(read)->0->Ok_0;
            is_sanitized(text@, json_parse(content)->Ok_0->Object_0)
        },
{
    let content = match read {
        None => return Ok(None),
        Some(Err(message)) => {
            return Err(joined("读取 ZCode 实例设置失败: ", message.as_str()));
        },
        Some(Ok(content)) => content,
    };
    let parsed = parse_json(content.as_str());
    let ghost before = outcome(parsed);
    match sanitize_settings(parsed) {
        Err(message) => Err(message),
        Ok(None) => Ok(None),
        Ok(Some(value)) => {
            proof {
                lemma_without_keeps_nesting(
                    before->Ok_0->Object_0,
                    "dataBaseDir"@,
                    max_nesting(),
                );
            }
            match pretty_json(&value) {
                Ok(text) => {
                    proof {
                        lemma_sanitized(text@, before->Ok_0->Object_0);
                    }
                    Ok(Some(text))
                },
                Err(message) => Err(joined("序列化 ZCode 实例设置失败: ", message.as_str())),
            }
        },
    }
}

proof fn lemma_sanitized(text: Seq<char>, members: Members)
    requires
        reads_back(text, JsonView::Object(without(members, "dataBaseDir"@))),
    ensures
        is_sanitized(text, members),
{
    let kept = without(members, "dataBaseDir"@);
    let whole = JsonView::Object(kept);
    let parsed = json_parse(text)->Ok_0;
    alike_values_hold_the_same_texts(whole, parsed, max_nesting(), "dataBaseDir"@);
    lemma_without(members, "dataBaseDir"@, "dataBaseDir"@);
    let after = parsed->Object_0;
    assert(whole.get("dataBaseDir"@) is None);
    assert(parsed.get("dataBaseDir"@) == member(after, "dataBaseDir"@));
    assert forall|name: Seq<char>| name != "dataBaseDir"@ implies stayed(
        member(members, name),
        #[trigger] member(after, name),
    ) by {
        lemma_without(members, "dataBaseDir"@, name);
        assert(whole.get(name) == member(kept, name));
        assert(parsed.get(name) == member(after, name));
    }
}

/// Settings that were sanitized, or that needed no sanitizing, do not move the
/// data of the instance elsewhere; sanitizing them once more changes nothing.
pub proof fn sanitized_settings_cannot_move_the_data(
    content: Seq<char>,
    text: Seq<char>,
    home: Seq<char>,
)
    requires
        match sanitized_text(Some(Ok(content))) {
            Ok(Some(_)) => is_sanitized(text, json_parse(content)->Ok_0->Object_0),
            Ok(None) => text == content,
            Err(_) => false,
        },
    ensures
        data_base(home, Some(text)) == home,
        sanitized_text(Some(Ok(text))) == Ok::<Option<Seq<char>>, Seq<char>>(None),
{
    let parsed = json_parse(text)->Ok_0;
    assert(parsed.get("dataBaseDir"@) is None);
}

/// The identifiers of instances.
pub open spec fn instance_ids(instances: Seq<InstanceView>) -> Seq<Seq<char>> {
    instances.map_values(|instance: InstanceView| instance.id)
}

/// Where the instance `id` stands in the store.
pub open spec fn instance_position(store: StoreView, id: Seq<char>) -> Option<int> {
    first_position(instance_ids(store.instances), id)
}

/// Where the instance `id` stands in the store.
pub fn find_instance(store: &InstanceStore, id: &str) -> (res: Option<usize>)
    ensures
        match res {
            Some(i) => instance_position(store@, id@) == Some(i as int) && i < store.instances@.len(),
            None => instance_position(store@, id@) is None,
        },
{
    let ghost all = store@.instances;
    let mut i: usize = 0;
    while i < store.instances.len()
        invariant
            i <= store.instances@.len(),
            all == store@.instances,
            forall|k: int| 0 <= k < i ==> (#[trigger] instance_ids(all)[k]) != id@,
        decreases store.instances@.len() - i,
    {
        assert(all[i as int] == store.instances@[i as int]@);
        assert(instance_ids(all)[i as int] == store.instances@[i as int].id@);
        if same_text(store.instances[i].id.as_str(), id) {
            proof {
                lemma_found_first(instance_ids(all), id@, i as int);
            }
            return Some(i);
        }
        i = i + 1;
    }
    proof {
        lemma_first_position(instance_ids(all), id@);
    }
    None
}

/// What is known of the directory that is to be the root of a new instance:
/// whether it is a directory, whether it is one that holds anything, and how
/// its path is shown.
#[derive(Debug, PartialEq)]
pub struct RootState {
    pub is_directory: bool,
    pub holds_anything: bool,
    pub shown: String,
}

/// What a new instance is to be made of.
#[derive(Debug, PartialEq)]
pub struct CreateInstanceParams {
    pub name: String,
    pub user_data_dir: String,
    pub working_dir: Option<String>,
    pub extra_args: String,
    pub bind_account_id: Option<String>,
    pub copy_source_instance_id: Option<String>,
    pub init_mode: Option<String>,
}

/// How the root directory of a new instance gets its content.
#[derive(Debug, PartialEq)]
pub enum InitAction {
    UseExisting,
    InitializeEmpty,
    CopyInstance(String),
    CopyDefault,
}

/// What an `InitAction` stands for.
pub enum InitActionView {
    UseExisting,
    InitializeEmpty,
    CopyInstance(Seq<char>),
    CopyDefault,
}

impl DeepView for InitAction {
    type V = InitActionView;

    open spec fn deep_view(&self) -> InitActionView {
        match self {
            InitAction::UseExisting => InitActionView::UseExisting,
            InitAction::InitializeEmpty => InitActionView::InitializeEmpty,
            InitAction::CopyInstance(source) => InitActionView::CopyInstance(source@),
            InitAction::CopyDefault => InitActionView::CopyDefault,
        }
    }
}

/// How the root directory of a new instance gets its content, or why it cannot.
pub open spec fn init_action(
    store: StoreView,
    init_mode: Option<Seq<char>>,
    copy_source: Option<Seq<char>>,
    root: RootState,
) -> Result<InitActionView, Seq<char>> {
    let mode = match init_mode {
        Some(mode) => ascii_lower(mode),
        None => "copy"@,
    };
    if mode == "existingdir"@ || mode == "existing_dir"@ {
        if root.is_directory {
            Ok(InitActionView::UseExisting)
        } else {
            Err("所选 ZCode 实例目录不存在或不是目录"@)
        }
    } else if root.holds_anything {
        Err("ZCode 实例目标目录必须为空: "@ + root.shown@)
    } else if mode == "empty"@ {
        Ok(InitActionView::InitializeEmpty)
    } else if copy_source is Some && copy_source->0 != "__default__"@ {
        match instance_position(store, copy_source->0) {
            Some(i) => Ok(InitActionView::CopyInstance(store.instances[i].user_data_dir)),
            None => Err("复制来源实例不存在"@),
        }
    } else {
        Ok(InitActionView::CopyDefault)
    }
}

fn choose_init_action(store: &InstanceStore, params: &CreateInstanceParams, root: &RootState) -> (res:
    Result<InitAction, String>)
    ensures
        outcome(res) == init_action(
            store@,
            params.init_mode.deep_view(),
            params.copy_source_instance_id.deep_view(),
            *root,
        ),
{
    let mode = match &params.init_mode {
        Some(mode) => mode.as_str().to_ascii_lowercase(),
        None => {
            proof {
                reveal_strlit("copy");
                assert(ascii_lower("copy"@) =~= "copy"@);
            }
            "copy".to_owned()
        },
    };
    if same_text(mode.as_str(), "existingdir") || same_text(mode.as_str(), "existing_dir") {
        if root.is_directory {
            return Ok(InitAction::UseExisting);
        }
        return Err("所选 ZCode 实例目录不存在或不是目录".to_owned());
    }
    if root.holds_anything {
        return Err(joined("ZCode 实例目标目录必须为空: ", root.shown.as_str()));
    }
    if same_text(mode.as_str(), "empty") {
        return Ok(InitAction::InitializeEmpty);
    }
    match &params.copy_source_instance_id {
        Some(source) => {
            if !same_text(source.as_str(), "__default__") {
                match find_instance(store, source.as_str()) {
                    Some(i) => {
                        assert(store@.instances[i as int] == store.instances@[i as int]@);
                        return Ok(
                            InitAction::CopyInstance(store.instances[i].user_data_dir.clone()),
                        );
                    },
                    None => return Err("复制来源实例不存在".to_owned()),
                }
            }
        },
        None => {},
    }
    Ok(InitAction::CopyDefault)
}

/// A result that stands for nothing but success.
pub open spec fn checked(res: Result<(), String>) -> Result<(), Seq<char>> {
    match res {
        Ok(_) => Ok(()),
        Err(message) => Err(message@),
    }
}

/// What a new instance is called and how its root directory gets its content,
/// or why there can be none. `name` is what normalizing its name gave, `unique`
/// is whether name and directory are not taken, and `root` is what is known of
/// its directory.
pub fn prepare_instance(
    store: &InstanceStore,
    params: &CreateInstanceParams,
    name: Result<String, String>,
    unique: Result<(), String>,
    root: &RootState,
) -> (res: Result<(String, InitAction), String>)
    ensures
        match (
            outcome(name),
            checked(unique),
            init_action(
                store@,
                params.init_mode.deep_view(),
                params.copy_source_instance_id.deep_view(),
                *root,
            ),
        ) {
            (Err(message), _, _) => res matches Err(text) && text@ == message,
            (Ok(_), failed, action) => if is_blank(params.user_data_dir@) {
                res matches Err(text) && text@ == "实例目录不能为空"@
            } else {
                match (failed, action) {
                    (Err(message), _) => res matches Err(text) && text@ == message,
                    (Ok(_), Err(message)) => res matches Err(text) && text@ == message,
                    (Ok(_), Ok(action)) => res matches Ok(plan) && name matches Ok(given) && plan.0@
                        == given@ && plan.1.deep_view() == action,
                }
            },
        },
{
    let name = match name {
        Ok(name) => name,
        Err(message) => return Err(message),
    };
    if params.user_data_dir.as_str().trim().is_empty() {
        return Err("实例目录不能为空".to_owned());
    }
    match unique {
        Ok(_) => {},
        Err(message) => return Err(message),
    }
    match choose_init_action(store, params, root) {
        Ok(action) => Ok((name, action)),
        Err(message) => Err(message),
    }
}

/// The profile of a new instance.
pub open spec fn new_instance(
    params: CreateInstanceParams,
    name: Seq<char>,
    id: Seq<char>,
    now: i64,
) -> InstanceView {
    InstanceView {
        id,
        name,
        user_data_dir: trimmed(params.user_data_dir@),
        working_dir: params.working_dir.deep_view(),
        extra_args: trimmed(params.extra_args@),
        bind_account_id: params.bind_account_id.deep_view(),
        launch_mode: InstanceLaunchMode::App,
        app_speed: CodexAppSpeed::Standard,
        created_at: now,
        last_launched_at: None,
        last_pid: None,
    }
}

/// The store with a new instance behind all others.
pub open spec fn with_instance(store: StoreView, instance: InstanceView) -> StoreView {
    StoreView { instances: store.instances.push(instance), ..store }
}

/// The new instance with the identifier `id`, made at the time `now`, and the
/// store with it. `initialized` is what filling its root directory gave.
pub fn create_instance_at(
    store: InstanceStore,
    params: CreateInstanceParams,
    name: String,
    initialized: Result<(), String>,
    id: String,
    now: i64,
) -> (res: Result<(InstanceProfile, InstanceStore), String>)
    ensures
        match initialized {
            Err(message) => res matches Err(text) && text@ == message@,
            Ok(_) => res matches Ok(made) && made.0@ == new_instance(params, name@, id@, now)
                && made.1@ == with_instance(store@, made.0@),
        },
{
    match initialized {
        Err(message) => return Err(message),
        Ok(_) => {},
    }
    let instance = InstanceProfile {
        id,
        name,
        user_data_dir: params.user_data_dir.as_str().trim().to_owned(),
        working_dir: params.working_dir,
        extra_args: params.extra_args.as_str().trim().to_owned(),
        bind_account_id: params.bind_account_id,
        launch_mode: InstanceLaunchMode::App,
        app_speed: CodexAppSpeed::Standard,
        created_at: now,
        last_launched_at: None,
        last_pid: None,
    };
    let ghost before = store.instances.deep_view();
    let mut store = store;
    store.instances.push(instance.copied());
    assert(store.instances.deep_view() =~= before.push(instance@));
    Ok((instance, store))
}

/// `create_instance_at` with an identifier by chance and the time of day.
pub fn create_instance(
    store: InstanceStore,
    params: CreateInstanceParams,
    name: String,
    initialized: Result<(), String>,
) -> (res: Result<(InstanceProfile, InstanceStore), String>)
    ensures
        match initialized {
            Err(message) => res matches Err(text) && text@ == message@,
            Ok(_) => res matches Ok(made) && is_random_uuid(made.0@.id) && is_drawn_uuid(
                made.0@.id,
            ) && is_time_in_millis(made.0@.created_at) && made.0@ == new_instance(
                params,
                name@,
                made.0@.id,
                made.0@.created_at,
            ) && made.1@ == with_instance(store@, made.0@),
        },
{
    create_instance_at(store, params, name, initialized, draw_uuid(), time_of_day_in_millis())
}

/// What is to be changed of an instance.
#[derive(Debug, PartialEq)]
pub struct UpdateInstanceParams {
    pub instance_id: String,
    pub name: Option<String>,
    pub working_dir: Option<String>,
    pub extra_args: Option<String>,
    pub bind_account_id: Option<Option<String>>,
}

/// An instance after a change, where `name` is its new name if it gets one.
pub open spec fn changed_instance(
    instance: InstanceView,
    params: UpdateInstanceParams,
    name: Option<Seq<char>>,
) -> InstanceView {
    InstanceView {
        name: match name {
            Some(name) => name,
            None => instance.name,
        },
        working_dir: match params.working_dir {
            Some(directory) => normalized(Some(directory@)),
            None => instance.working_dir,
        },
        extra_args: match params.extra_args {
            Some(args) => trimmed(args@),
            None => instance.extra_args,
        },
        bind_account_id: match params.bind_account_id {
            Some(bind) => bind.deep_view(),
            None => instance.bind_account_id,
        },
        ..instance
    }
}

/// The store with the instance at `i` replaced.
pub open spec fn with_instance_at(store: StoreView, i: int, instance: InstanceView) -> StoreView {
    StoreView { instances: store.instances.update(i, instance), ..store }
}

/// Changes an instance: the changed instance and the store with it. `name` is
/// what normalizing its new name gave, where it gets one, and `unique` is
/// whether that name is not taken.
pub fn update_instance(
    store: InstanceStore,
    params: UpdateInstanceParams,
    name: Result<String, String>,
    unique: Result<(), String>,
) -> (res: Result<(InstanceProfile, InstanceStore), String>)
    ensures
        match instance_position(store@, params.instance_id@) {
            None => res matches Err(text) && text@ == "ZCode 实例不存在"@,
            Some(i) => match (params.name, outcome(name), checked(unique)) {
                (Some(_), Err(message), _) => res matches Err(text) && text@ == message,
                (Some(_), Ok(_), Err(message)) => res matches Err(text) && text@ == message,
                (Some(_), Ok(new_name), Ok(_)) => res matches Ok(changed) && changed.0@
                    == changed_instance(store@.instances[i], params, Some(new_name)) && changed.1@
                    == with_instance_at(store@, i, changed.0@),
                (None, _, _) => res matches Ok(changed) && changed.0@ == changed_instance(
                    store@.instances[i],
                    params,
                    None,
                ) && changed.1@ == with_instance_at(store@, i, changed.0@),
            },
        },
{
    let i: usize = match find_instance(&store, params.instance_id.as_str()) {
        Some(i) => i,
        None => return Err("ZCode 实例不存在".to_owned()),
    };
    let ghost before = store.instances.deep_view();
    assert(before[i as int] == store.instances@[i as int]@);
    let mut instance = store.instances[i].copied();
    if params.name.is_some() {
        match name {
            Ok(name) => {
                match unique {
                    Ok(_) => {},
                    Err(message) => return Err(message),
                }
                instance.name = name;
            },
            Err(message) => return Err(message),
        }
    }
    match params.working_dir {
        Some(directory) => {
            instance.working_dir = normalize_string(Some(directory.as_str()));
        },
        None => {},
    }
    match params.extra_args {
        Some(args) => {
            instance.extra_args = args.as_str().trim().to_owned();
        },
        None => {},
    }
    match params.bind_account_id {
        Some(bind) => {
            instance.bind_account_id = bind;
        },
        None => {},
    }
    let value = instance.copied();
    let mut store = store;
    store.instances.set(i, instance);
    assert(store.instances.deep_view() =~= before.update(i as int, value@));
    Ok((value, store))
}

/// The root directory of the instance `instance_id`.
pub fn instance_directory(store: &InstanceStore, instance_id: &str) -> (res: Result<String, String>)
    ensures
        outcome(res) == match instance_position(store@, instance_id@) {
            Some(i) => Ok::<Seq<char>, Seq<char>>(store@.instances[i].user_data_dir),
            None => Err("ZCode 实例不存在"@),
        },
{
    match find_instance(store, instance_id) {
        Some(i) => {
            assert(store@.instances[i as int] == store.instances@[i as int]@);
            Ok(store.instances[i].user_data_dir.clone())
        },
        None => Err("ZCode 实例不存在".to_owned()),
    }
}

/// The store without the instance `instance_id`. `deleted` is what deleting its
/// root directory gave.
pub fn delete_instance(store: InstanceStore, instance_id: &str, deleted: Result<(), String>) -> (res:
    Result<InstanceStore, String>)
    ensures
        outcome(res) == match (instance_position(store@, instance_id@), checked(deleted)) {
            (None, _) => Err::<StoreView, Seq<char>>("ZCode 实例不存在"@),
            (Some(_), Err(message)) => Err(message),
            (Some(i), Ok(_)) => Ok(
                StoreView { instances: store@.instances.remove(i), ..store@ },
            ),
        },
{
    let i: usize = match find_instance(&store, instance_id) {
        Some(i) => i,
        None => return Err("ZCode 实例不存在".to_owned()),
    };
    match deleted {
        Ok(_) => {},
        Err(message) => return Err(message),
    }
    let ghost before = store.instances.deep_view();
    let mut store = store;
    store.instances.remove(i);
    assert(store.instances.deep_view() =~= before.remove(i as int));
    Ok(store)
}

/// The store after the process of an instance, or of the client's own profile
/// where none is named, was noted at the time `now`.
pub open spec fn with_pid(
    store: StoreView,
    instance_id: Option<Seq<char>>,
    pid: Option<u32>,
    launched: bool,
    now: i64,
) -> Result<StoreView, Seq<char>> {
    match instance_id {
        Some(id) => match instance_position(store, id) {
            None => Err("ZCode 实例不存在"@),
            Some(i) => {
                let instance = store.instances[i];
                Ok(
                    with_instance_at(
                        store,
                        i,
                        InstanceView {
                            last_pid: pid,
                            last_launched_at: if launched {
                                Some(now)
                            } else {
                                instance.last_launched_at
                            },
                            ..instance
                        },
                    ),
                )
            },
        },
        None => Ok(
            StoreView {
                default_settings: SettingsView { last_pid: pid, ..store.default_settings },
                ..store
            },
        ),
    }
}

/// Notes the process of an instance, or of the client's own profile where none
/// is named, at the time `now`.
pub fn update_pid_at(
    store: InstanceStore,
    instance_id: Option<&str>,
    pid: Option<u32>,
    launched: bool,
    now: i64,
) -> (res: Result<InstanceStore, String>)
    ensures
        outcome(res) == with_pid(store@, instance_id.deep_view(), pid, launched, now),
{
    let mut store = store;
    match instance_id {
        Some(id) => {
            let i: usize = match find_instance(&store, id) {
                Some(i) => i,
                None => return Err("ZCode 实例不存在".to_owned()),
            };
            let ghost before = store.instances.deep_view();
            assert(before[i as int] == store.instances@[i as int]@);
            let mut instance = store.instances[i].copied();
            instance.last_pid = pid;
            if launched {
                instance.last_launched_at = Some(now);
            }
            let ghost view = instance@;
            store.instances.set(i, instance);
            assert(store.instances.deep_view() =~= before.update(i as int, view));
        },
        None => {
            let mut settings = store.default_settings;
            settings.last_pid = pid;
            store.default_settings = settings;
        },
    }
    Ok(store)
}

/// Notes that an instance was started with the process `pid`, at the time of
/// day.
pub fn mark_started(store: InstanceStore, instance_id: Option<&str>, pid: u32) -> (res: Result<
    InstanceStore,
    String,
>)
    ensures
        exists|now: i64|
            is_time_in_millis(now) && outcome(res) == #[trigger] with_pid(
                store@,
                instance_id.deep_view(),
                Some(pid),
                true,
                now,
            ),
{
    update_pid_at(store, instance_id, Some(pid), true, time_of_day_in_millis())
}

/// Notes that an instance has no process any more.
pub fn mark_stopped(store: InstanceStore, instance_id: Option<&str>) -> (res: Result<
    InstanceStore,
    String,
>)
    ensures
        outcome(res) == with_pid(store@, instance_id.deep_view(), None, false, 0),
{
    update_pid_at(store, instance_id, None, false, 0)
}

/// The store without any process.
pub open spec fn without_pids(store: StoreView) -> StoreView {
    StoreView {
        instances: store.instances.map_values(
            |instance: InstanceView| InstanceView { last_pid: None, ..instance },
        ),
        default_settings: SettingsView { last_pid: None, ..store.default_settings },
    }
}

/// Notes that no instance has a process any more.
pub fn clear_all_pids(store: InstanceStore) -> (res: InstanceStore)
    ensures
        res@ == without_pids(store@),
{
    let ghost before = store.instances.deep_view();
    let ghost wanted = without_pids(store@).instances;
    let mut settings = store.default_settings;
    settings.last_pid = None;
    let mut instances = store.instances;
    let mut i: usize = 0;
    while i < instances.len()
        invariant
            i <= instances@.len(),
            instances@.len() == before.len(),
            wanted.len() == before.len(),
            forall|k: int| 0 <= k < before.len() ==> #[trigger] wanted[k] == (InstanceView {
                last_pid: None,
                ..before[k]
            }),
            forall|k: int| 0 <= k < i ==> (#[trigger] instances@[k])@ == wanted[k],
            forall|k: int| i <= k < before.len() ==> (#[trigger] instances@[k])@ == before[k],
        decreases instances@.len() - i,
    {
        let mut instance = instances[i].copied();
        instance.last_pid = None;
        assert(instance@ == wanted[i as int]);
        instances.set(i, instance);
        i = i + 1;
    }
    assert(instances.deep_view() =~= wanted);
    InstanceStore { instances, default_settings: settings }
}

/// Whether a profile has been set up: the client's own where its directory and
/// its credentials file are there, a managed one where its credentials file is
/// there or its window data are.
pub fn is_profile_initialized(
    is_default: bool,
    root_exists: bool,
    credentials_exist: bool,
    electron_holds_anything: bool,
) -> (res: bool)
    ensures
        res == if is_default {
            root_exists && credentials_exist
        } else {
            credentials_exist || electron_holds_anything
        },
{
    if is_default {
        return root_exists && credentials_exist;
    }
    credentials_exist || electron_holds_anything
}

/// Whether no two instances have the same identifier.
pub open spec fn has_distinct_instances(store: StoreView) -> bool {
    instance_ids(store.instances).no_duplicates()
}

/// A new instance of which the identifier is not taken stands behind all others,
/// is found by its identifier, and leaves the others as they were.
pub proof fn new_instances_are_found(store: StoreView, instance: InstanceView, other: Seq<char>)
    requires
        !instance_ids(store.instances).contains(instance.id),
    ensures
        ({
            let after = with_instance(store, instance);
            &&& instance_position(after, instance.id) == Some(store.instances.len() as int)
            &&& other != instance.id ==> instance_position(after, other) == instance_position(
                store,
                other,
            )
            &&& forall|i: int|
                0 <= i < store.instances.len() ==> #[trigger] after.instances[i]
                    == store.instances[i]
            &&& after.default_settings == store.default_settings
            &&& has_distinct_instances(store) ==> has_distinct_instances(after)
        }),
{
    let after = with_instance(store, instance);
    let ids = instance_ids(store.instances);
    assert(instance_ids(after.instances) =~= ids.push(instance.id));
    assert(instance_ids(after.instances).drop_last() =~= ids);
    lemma_first_position(ids, instance.id);
    if first_position(ids, instance.id) is Some {
        assert(ids.contains(instance.id));
    }
    assert forall|i: int, j: int|
        has_distinct_instances(store) && 0 <= i < after.instances.len() && 0 <= j
            < after.instances.len() && i != j implies instance_ids(after.instances)[i]
        != instance_ids(after.instances)[j] by {
        let k = if i < ids.len() {
            i
        } else {
            j
        };
        assert(ids.contains(ids[k]));
    }
}

/// Changing an instance in place leaves all identifiers and all other instances
/// as they were.
pub proof fn changes_touch_one_instance(store: StoreView, i: int, instance: InstanceView)
    requires
        0 <= i < store.instances.len(),
        instance.id == store.instances[i].id,
    ensures
        ({
            let after = with_instance_at(store, i, instance);
            &&& instance_ids(after.instances) == instance_ids(store.instances)
            &&& after.instances.len() == store.instances.len()
            &&& forall|k: int|
                0 <= k < store.instances.len() && k != i ==> #[trigger] after.instances[k]
                    == store.instances[k]
            &&& after.default_settings == store.default_settings
        }),
{
    let after = with_instance_at(store, i, instance);
    assert(instance_ids(after.instances) =~= instance_ids(store.instances));
}

/// An instance keeps its identifier, its directory and its history through every
/// change.
pub proof fn changes_keep_the_identity(
    instance: InstanceView,
    params: UpdateInstanceParams,
    name: Option<Seq<char>>,
)
    ensures
        ({
            let after = changed_instance(instance, params, name);
            &&& after.id == instance.id
            &&& after.user_data_dir == instance.user_data_dir
            &&& after.created_at == instance.created_at
            &&& after.last_launched_at == instance.last_launched_at
            &&& after.last_pid == instance.last_pid
            &&& after.launch_mode == instance.launch_mode
            &&& after.app_speed == instance.app_speed
        }),
{
}

/// A deleted instance is not found any more, and each other one is there as
/// before.
pub proof fn deleted_instances_are_gone(store: StoreView, id: Seq<char>, other: InstanceView)
    requires
        has_distinct_instances(store),
        instance_position(store, id) is Some,
    ensures
        ({
            let i = instance_position(store, id)->0;
            let left = store.instances.remove(i);
            &&& !instance_ids(left).contains(id)
            &&& other.id != id ==> (left.contains(other) <==> store.instances.contains(other))
            &&& instance_ids(left).no_duplicates()
        }),
{
    let all = store.instances;
    let ids = instance_ids(all);
    lemma_first_position(ids, id);
    let i = instance_position(store, id)->0;
    let left = all.remove(i);
    assert forall|k: int| 0 <= k < left.len() implies #[trigger] left[k] == all[if k < i {
        k
    } else {
        k + 1
    }] by {}
    assert forall|k: int| 0 <= k < left.len() implies instance_ids(left)[k] != id by {
        let from = if k < i {
            k
        } else {
            k + 1
        };
        assert(instance_ids(left)[k] == left[k].id);
        assert(ids[from] == all[from].id);
        assert(ids[from] != ids[i]);
    }
    assert forall|a: int, b: int|
        0 <= a < left.len() && 0 <= b < left.len() && a != b implies instance_ids(left)[a]
        != instance_ids(left)[b] by {
        let from = if a < i {
            a
        } else {
            a + 1
        };
        let to = if b < i {
            b
        } else {
            b + 1
        };
        assert(left[a] == all[from] && left[b] == all[to]);
        assert(ids[from] != ids[to]);
    }
    if other.id != id {
        if left.contains(other) {
            let k = choose|k: int| 0 <= k < left.len() && left[k] == other;
            assert(all[if k < i {
                k
            } else {
                k + 1
            }] == other);
        }
        if all.contains(other) {
            let k = choose|k: int| 0 <= k < all.len() && all[k] == other;
            assert(ids[k] == other.id);
            assert(left[if k < i {
                k
            } else {
                k - 1
            }] == other);
        }
    }
}

/// After an instance was started and stopped it has no process, and the time of
/// its launch is still known.
pub proof fn stopping_keeps_the_launch_time(
    store: StoreView,
    id: Seq<char>,
    pid: u32,
    launched_at: i64,
    stopped_at: i64,
)
    requires
        instance_position(store, id) is Some,
    ensures
        ({
            let i = instance_position(store, id)->0;
            let started = with_pid(store, Some(id), Some(pid), true, launched_at)->Ok_0;
            let stopped = with_pid(started, Some(id), None, false, stopped_at);
            &&& with_pid(store, Some(id), Some(pid), true, launched_at) is Ok
            &&& started.instances[i].last_pid == Some(pid)
            &&& started.instances[i].last_launched_at == Some(launched_at)
            &&& stopped == Ok::<StoreView, Seq<char>>(
                with_instance_at(
                    store,
                    i,
                    (InstanceView {
                        last_pid: None,
                        last_launched_at: Some(launched_at),
                        ..store.instances[i]
                    }),
                ),
            )
        }),
{
    let ids = instance_ids(store.instances);
    lemma_first_position(ids, id);
    let i = instance_position(store, id)->0;
    let started = with_pid(store, Some(id), Some(pid), true, launched_at)->Ok_0;
    changes_touch_one_instance(store, i, started.instances[i]);
    let stopped = with_pid(started, Some(id), None, false, stopped_at)->Ok_0;
    assert(stopped.instances =~= store.instances.update(
        i,
        InstanceView {
            last_pid: None,
            last_launched_at: Some(launched_at),
            ..store.instances[i]
        },
    ));
}

/// Once all processes are cleared no profile has one, and clearing them once
/// more changes nothing.
pub proof fn cleared_processes_stay_cleared(store: StoreView)
    ensures
        ({
            let cleared = without_pids(store);
            &&& cleared.default_settings.last_pid is None
            &&& forall|i: int|
                0 <= i < cleared.instances.len() ==> (#[trigger] cleared.instances[i]).last_pid is None
            &&& instance_ids(cleared.instances) == instance_ids(store.instances)
            &&& without_pids(cleared) == cleared
        }),
{
    let cleared = without_pids(store);
    assert(instance_ids(cleared.instances) =~= instance_ids(store.instances));
    assert(without_pids(cleared).instances =~= cleared.instances);
}

/// A change of the settings of the client's own profile sets the account and the
/// arguments that are given, without the white space around the latter; naming
/// an account, or none, ends the following of the local account.
pub proof fn settings_take_what_is_given(
    settings: SettingsView,
    bind: Option<Option<Seq<char>>>,
    args: Option<Seq<char>>,
)
    ensures
        ({
            let after = changed_settings(settings, bind, args);
            &&& bind is Some ==> after.bind_account_id == bind->0 && !after.follow_local_account
            &&& bind is None ==> after.bind_account_id == settings.bind_account_id
                && after.follow_local_account == settings.follow_local_account
            &&& args is Some ==> after.extra_args == trimmed(args->0)
            &&& args is None ==> after.extra_args == settings.extra_args
            &&& after.last_pid == settings.last_pid
        }),
{
}

/// A binding that is given for a change tells whether there is one, and the
/// account to bind.
pub proof fn bindings_are_seen_whole(id: String)
    ensures
        binding(None) is None,
        binding(Some(None)) == Some(None::<Seq<char>>),
        binding(Some(Some(id))) == Some(Some(id@)),
{
}

/// The client keeps its data below the user's home on macOS and Linux and below
/// `APPDATA` on Windows, each under its own name, and nowhere where that is not
/// known or on any other platform.
pub proof fn platforms_have_their_data_directory(
    style: PathStyle,
    os: Seq<char>,
    home: Option<Seq<char>>,
    app_data: Option<Seq<char>>,
)
    ensures
        ({
            let directory = user_data_dir_of(style, os, home, app_data);
            &&& os == "macos"@ && home is Some ==> directory == Ok::<Seq<char>, Seq<char>>(
                path_below(style, home->0, "Library/Application Support/ZCode"@),
            )
            &&& os == "linux"@ && home is Some ==> directory == Ok::<Seq<char>, Seq<char>>(
                path_below(style, home->0, ".config/ZCode"@),
            )
            &&& os == "windows"@ && app_data is Some ==> directory == Ok::<Seq<char>, Seq<char>>(
                path_below(style, app_data->0, "ZCode"@),
            )
            &&& (os == "macos"@ || os == "linux"@) && home is None ==> directory == Err::<
                Seq<char>,
                Seq<char>,
            >("无法获取用户主目录"@)
            &&& os == "windows"@ && app_data is None ==> directory == Err::<Seq<char>, Seq<char>>(
                "无法获取 APPDATA"@,
            )
            &&& os != "macos"@ && os != "linux"@ && os != "windows"@ ==> directory == Err::<
                Seq<char>,
                Seq<char>,
            >("ZCode 多开仅支持 macOS、Windows 和 Linux"@)
        }),
{
    reveal_strlit("macos");
    reveal_strlit("linux");
    reveal_strlit("windows");
    assert("macos"@[0] == 'm' && "linux"@[0] == 'l');
    assert("windows"@.len() == 7 && "macos"@.len() == 5 && "linux"@.len() == 5);
}

/// Managed instances are kept below the user's home under this name.
pub proof fn instances_are_kept_below_the_home(style: PathStyle, home: Seq<char>)
    ensures
        instances_root(style, Some(home)) == Ok::<Seq<char>, Seq<char>>(
            path_below(style, home, ".antigravity_cockpit/instances/zcode"@),
        ),
        instances_root(style, None) == Err::<Seq<char>, Seq<char>>("无法获取用户主目录"@),
        below(style, Ok(home), INSTANCES_FILE@) == Ok::<Seq<char>, Seq<char>>(
            path_below(style, home, "zcode_instances.json"@),
        ),
{
}

/// A directory is copied from where it is, to where it is to be; one that is not
/// there is created.
pub proof fn directories_are_copied_or_created(
    source: Seq<char>,
    to: Seq<char>,
    otherwise: Seq<char>,
)
    ensures
        filling(source, true, to, otherwise) == (RootStepView::Copy { from: source, to }),
        filling(source, false, to, otherwise) == (RootStepView::Create { directory: otherwise }),
{
}

/// Settings are written anew if and only if they name a directory of their own,
/// and then without that; what is no object is refused.
pub proof fn settings_lose_their_directory_only(parsed: JsonView, message: Seq<char>, name: Seq<char>)
    ensures
        sanitized(Err(message)) == Err::<Option<Members>, Seq<char>>(
            "解析 ZCode 实例设置失败: "@ + message,
        ),
        parsed !is Object ==> sanitized(Ok(parsed)) == Err::<Option<Members>, Seq<char>>(
            "ZCode 实例 setting.json 必须是 JSON 对象"@,
        ),
        parsed is Object && parsed.get("dataBaseDir"@) is None ==> sanitized(Ok(parsed)) == Ok::<
            Option<Members>,
            Seq<char>,
        >(None),
        parsed is Object && parsed.get("dataBaseDir"@) is Some ==> {
            let kept = sanitized(Ok(parsed));
            &&& kept matches Ok(Some(_))
            &&& member(kept->Ok_0->0, "dataBaseDir"@) is None
            &&& name != "dataBaseDir"@ ==> member(kept->Ok_0->0, name) == parsed.get(name)
        },
{
    if parsed is Object {
        lemma_without(parsed->Object_0, "dataBaseDir"@, "dataBaseDir"@);
        lemma_without(parsed->Object_0, "dataBaseDir"@, name);
    }
}

/// The settings file of an instance is left alone where there is none or it
/// names no directory, and an unreadable one is reported.
pub proof fn settings_files_are_written_when_needed(content: Seq<char>, message: Seq<char>)
    ensures
        sanitized_text(None) == Ok::<Option<Seq<char>>, Seq<char>>(None),
        sanitized_text(Some(Err(message))) == Err::<Option<Seq<char>>, Seq<char>>(
            "读取 ZCode 实例设置失败: "@ + message,
        ),
        sanitized(json_parse(content)) is Err ==> sanitized_text(Some(Ok(content))) == Err::<
            Option<Seq<char>>,
            Seq<char>,
        >(sanitized(json_parse(content))->Err_0),
        sanitized(json_parse(content)) matches Ok(None) ==> sanitized_text(Some(Ok(content)))
            == Ok::<Option<Seq<char>>, Seq<char>>(None),
        sanitized(json_parse(content)) matches Ok(Some(members)) ==> sanitized_text(
            Some(Ok(content)),
        ) == Ok::<Option<Seq<char>>, Seq<char>>(Some(json_pretty(JsonView::Object(members)))),
{
}

/// A settings file that was sanitized is an object without the directory, in
/// which each other setting is there if and only if it was, and texts are what
/// they were.
pub proof fn other_settings_stay(text: Seq<char>, members: Members, name: Seq<char>)
    requires
        is_sanitized(text, members),
    ensures
        json_parse(text) matches Ok(JsonView::Object(_)),
        json_parse(text)->Ok_0.get("dataBaseDir"@) is None,
        name != "dataBaseDir"@ ==> {
            let before = member(members, name);
            let after = json_parse(text)->Ok_0.get(name);
            &&& before is Some <==> after is Some
            &&& before matches Some(JsonView::Text(kept)) ==> after == Some(JsonView::Text(kept))
        },
{
    if name != "dataBaseDir"@ {
        let after = json_parse(text)->Ok_0->Object_0;
        assert(stayed(member(members, name), member(after, name)));
    }
}

/// An instance is found at the first place at which its identifier stands, and
/// is not found where it stands nowhere.
pub proof fn instances_are_found_by_identifier(store: StoreView, id: Seq<char>, at: int)
    ensures
        0 <= at < store.instances.len() && store.instances[at].id == id && (forall|k: int|
            0 <= k < at ==> (#[trigger] store.instances[k]).id != id) ==> instance_position(
            store,
            id,
        ) == Some(at),
        (forall|k: int| 0 <= k < store.instances.len() ==> (#[trigger] store.instances[k]).id != id)
            ==> instance_position(store, id) is None,
        instance_ids(store.instances).len() == store.instances.len(),
        0 <= at < store.instances.len() ==> instance_ids(store.instances)[at]
            == store.instances[at].id,
{
    let ids = instance_ids(store.instances);
    assert forall|k: int| 0 <= k < store.instances.len() implies #[trigger] ids[k]
        == store.instances[k].id by {}
    lemma_first_position(ids, id);
    if 0 <= at < store.instances.len() && store.instances[at].id == id && (forall|k: int|
        0 <= k < at ==> (#[trigger] store.instances[k]).id != id) {
        assert forall|k: int| 0 <= k < at implies ids[k] != id by {
            assert(ids[k] == store.instances[k].id);
        }
        lemma_found_first(ids, id, at);
    }
    if instance_position(store, id) is Some {
        assert(store.instances[instance_position(store, id)->0].id == id);
    }
}

/// A new instance that is to copy one of the store is filled from the directory
/// of that instance, whether the way of filling was named or left out; one that
/// the store does not have is an error.
pub proof fn chosen_instances_are_copied(
    store: StoreView,
    init_mode: Option<Seq<char>>,
    source: Seq<char>,
    root: RootState,
    at: int,
)
    requires
        !root.holds_anything,
        init_mode matches Some(mode) ==> {
            &&& ascii_lower(mode) != "existingdir"@
            &&& ascii_lower(mode) != "existing_dir"@
            &&& ascii_lower(mode) != "empty"@
        },
        source != "__default__"@,
    ensures
        0 <= at < store.instances.len() && store.instances[at].id == source && (forall|k: int|
            0 <= k < at ==> (#[trigger] store.instances[k]).id != source) ==> init_action(
            store,
            init_mode,
            Some(source),
            root,
        ) == Ok::<InitActionView, Seq<char>>(
            InitActionView::CopyInstance(store.instances[at].user_data_dir),
        ),
        (forall|k: int|
            0 <= k < store.instances.len() ==> (#[trigger] store.instances[k]).id != source)
            ==> init_action(store, init_mode, Some(source), root) == Err::<
            InitActionView,
            Seq<char>,
        >("复制来源实例不存在"@),
{
    lemma_copy_is_the_usual_mode();
    instances_are_found_by_identifier(store, source, at);
}

proof fn lemma_copy_is_the_usual_mode()
    ensures
        "copy"@ != "existingdir"@,
        "copy"@ != "existing_dir"@,
        "copy"@ != "empty"@,
        "empty"@ != "existingdir"@,
        "empty"@ != "existing_dir"@,
{
    reveal_strlit("copy");
    reveal_strlit("existingdir");
    reveal_strlit("existing_dir");
    reveal_strlit("empty");
    assert("copy"@.len() == 4 && "empty"@.len() == 5);
    assert("existingdir"@.len() == 11 && "existing_dir"@.len() == 12);
}

/// A new instance for which no other is named is filled from the client's own
/// profile, unless its directory is to be used as it is or to be made empty.
pub proof fn the_own_profile_is_copied_otherwise(
    store: StoreView,
    init_mode: Option<Seq<char>>,
    source: Option<Seq<char>>,
    root: RootState,
)
    requires
        !root.holds_anything,
        init_mode matches Some(mode) ==> {
            &&& ascii_lower(mode) != "existingdir"@
            &&& ascii_lower(mode) != "existing_dir"@
            &&& ascii_lower(mode) != "empty"@
        },
        source is None || source == Some("__default__"@),
    ensures
        init_action(store, init_mode, source, root) == Ok::<InitActionView, Seq<char>>(
            InitActionView::CopyDefault,
        ),
{
    lemma_copy_is_the_usual_mode();
}

/// A directory is used as it is, whatever it holds and whatever is named to be
/// copied, if and only if that was asked for in one of two spellings, in any
/// case; it must then be a directory.
pub proof fn existing_directories_are_used_when_asked_for(
    store: StoreView,
    mode: Seq<char>,
    source: Option<Seq<char>>,
    root: RootState,
)
    ensures
        ({
            let action = init_action(store, Some(mode), source, root);
            let asked_for = ascii_lower(mode) == "existingdir"@ || ascii_lower(mode)
                == "existing_dir"@;
            &&& asked_for && root.is_directory ==> action == Ok::<InitActionView, Seq<char>>(
                InitActionView::UseExisting,
            )
            &&& asked_for && !root.is_directory ==> action == Err::<InitActionView, Seq<char>>(
                "所选 ZCode 实例目录不存在或不是目录"@,
            )
            &&& !asked_for ==> action != Ok::<InitActionView, Seq<char>>(
                InitActionView::UseExisting,
            )
        }),
{
}

/// A directory that holds anything is never filled, and one is made empty if and
/// only if that was asked for.
pub proof fn full_directories_are_not_filled(
    store: StoreView,
    init_mode: Option<Seq<char>>,
    source: Option<Seq<char>>,
    root: RootState,
)
    requires
        init_mode matches Some(mode) ==> ascii_lower(mode) != "existingdir"@ && ascii_lower(mode)
            != "existing_dir"@,
    ensures
        ({
            let action = init_action(store, init_mode, source, root);
            let is_empty = init_mode is Some && ascii_lower(init_mode->0) == "empty"@;
            &&& root.holds_anything ==> action == Err::<InitActionView, Seq<char>>(
                "ZCode 实例目标目录必须为空: "@ + root.shown@,
            )
            &&& !root.holds_anything && is_empty ==> action == Ok::<InitActionView, Seq<char>>(
                InitActionView::InitializeEmpty,
            )
            &&& !is_empty ==> action != Ok::<InitActionView, Seq<char>>(
                InitActionView::InitializeEmpty,
            )
        }),
{
    lemma_copy_is_the_usual_mode();
}

/// A new instance is what was asked for: its name, its directory and arguments
/// without the white space around them, its working directory and its account.
/// It was never started and has no process.
pub proof fn new_instances_are_as_asked_for(
    params: CreateInstanceParams,
    name: Seq<char>,
    id: Seq<char>,
    now: i64,
)
    ensures
        ({
            let made = new_instance(params, name, id, now);
            &&& made.id == id
            &&& made.name == name
            &&& made.user_data_dir == trimmed(params.user_data_dir@)
            &&& made.working_dir == params.working_dir.deep_view()
            &&& made.extra_args == trimmed(params.extra_args@)
            &&& made.bind_account_id == params.bind_account_id.deep_view()
            &&& made.launch_mode == InstanceLaunchMode::App
            &&& made.app_speed == CodexAppSpeed::Standard
            &&& made.created_at == now
            &&& made.last_launched_at is None
            &&& made.last_pid is None
        }),
{
}

/// A store with a new instance has all that it had, in its place, and the new
/// instance behind.
pub proof fn new_instances_stand_last(store: StoreView, instance: InstanceView)
    ensures
        ({
            let after = with_instance(store, instance);
            &&& after.instances.len() == store.instances.len() + 1
            &&& after.instances.last() == instance
            &&& after.instances.drop_last() == store.instances
            &&& after.default_settings == store.default_settings
        }),
{
    assert(with_instance(store, instance).instances.drop_last() =~= store.instances);
}

/// A change of an instance sets what is given and leaves what is not: a blank
/// working directory takes the old one away, and the white space around texts
/// does not count.
pub proof fn changes_set_what_is_given(
    instance: InstanceView,
    params: UpdateInstanceParams,
    name: Option<Seq<char>>,
)
    ensures
        ({
            let after = changed_instance(instance, params, name);
            &&& name is Some ==> after.name == name->0
            &&& name is None ==> after.name == instance.name
            &&& match params.working_dir {
                Some(directory) => if trimmed(directory@).len() > 0 {
                    after.working_dir == Some(trimmed(directory@))
                } else {
                    after.working_dir is None
                },
                None => after.working_dir == instance.working_dir,
            }
            &&& match params.extra_args {
                Some(args) => after.extra_args == trimmed(args@),
                None => after.extra_args == instance.extra_args,
            }
            &&& match params.bind_account_id {
                Some(Some(id)) => after.bind_account_id == Some(id@),
                Some(None) => after.bind_account_id is None,
                None => after.bind_account_id == instance.bind_account_id,
            }
        }),
{
}

/// Noting a process changes the process of the profile that is named and, where
/// it was started, the time of its launch, and nothing else of the store; an
/// instance that the store does not have is an error.
pub proof fn processes_are_noted_where_named(
    store: StoreView,
    id: Seq<char>,
    pid: Option<u32>,
    launched: bool,
    now: i64,
    k: int,
)
    ensures
        match instance_position(store, id) {
            None => with_pid(store, Some(id), pid, launched, now) == Err::<StoreView, Seq<char>>(
                "ZCode 实例不存在"@,
            ),
            Some(i) => {
                let noted = with_pid(store, Some(id), pid, launched, now);
                let after = noted->Ok_0;
                let instance = store.instances[i];
                &&& noted is Ok
                &&& after.instances.len() == store.instances.len()
                &&& after.default_settings == store.default_settings
                &&& after.instances[i].last_pid == pid
                &&& launched ==> after.instances[i].last_launched_at == Some(now)
                &&& !launched ==> after.instances[i].last_launched_at == instance.last_launched_at
                &&& after.instances[i] == (InstanceView {
                    last_pid: after.instances[i].last_pid,
                    last_launched_at: after.instances[i].last_launched_at,
                    ..instance
                })
                &&& 0 <= k < store.instances.len() && k != i ==> after.instances[k]
                    == store.instances[k]
            },
        },
        ({
            let noted = with_pid(store, None, pid, launched, now);
            &&& noted is Ok
            &&& noted->Ok_0.instances == store.instances
            &&& noted->Ok_0.default_settings == (SettingsView {
                last_pid: pid,
                ..store.default_settings
            })
        }),
{
    lemma_first_position(instance_ids(store.instances), id);
}

/// Clearing the processes takes the process away from each profile and leaves
/// all else of it, in its place.
pub proof fn clearing_takes_processes_only(store: StoreView, i: int)
    ensures
        ({
            let cleared = without_pids(store);
            &&& cleared.instances.len() == store.instances.len()
            &&& 0 <= i < store.instances.len() ==> cleared.instances[i] == (InstanceView {
                last_pid: None,
                ..store.instances[i]
            })
            &&& cleared.default_settings == (SettingsView {
                last_pid: None,
                ..store.default_settings
            })
        }),
{
}

/// What is seen of a store is the store: each instance in its place, field by
/// field, and the settings of the client's own profile.
pub proof fn stores_are_seen_whole(store: InstanceStore, i: int)
    ensures
        store@.instances.len() == store.instances@.len(),
        0 <= i < store.instances@.len() ==> {
            let seen = store@.instances[i];
            let instance = store.instances@[i];
            &&& seen == instance@
            &&& seen.id == instance.id@
            &&& seen.name == instance.name@
            &&& seen.user_data_dir == instance.user_data_dir@
            &&& seen.working_dir == instance.working_dir.deep_view()
            &&& seen.extra_args == instance.extra_args@
            &&& seen.bind_account_id == instance.bind_account_id.deep_view()
            &&& seen.launch_mode == instance.launch_mode
            &&& seen.app_speed == instance.app_speed
            &&& seen.created_at == instance.created_at
            &&& seen.last_launched_at == instance.last_launched_at
            &&& seen.last_pid == instance.last_pid
        },
        store@.default_settings.bind_account_id
            == store.default_settings.bind_account_id.deep_view(),
        store@.default_settings.extra_args == store.default_settings.extra_args@,
        store@.default_settings.follow_local_account
            == store.default_settings.follow_local_account,
        store@.default_settings.last_pid == store.default_settings.last_pid,
{
}

/// What is seen of an action or a step is the action or the step.
pub proof fn actions_are_seen_whole(source: String, target: String, message: String)
    ensures
        InitAction::UseExisting.deep_view() == InitActionView::UseExisting,
        InitAction::InitializeEmpty.deep_view() == InitActionView::InitializeEmpty,
        InitAction::CopyInstance(source).deep_view() == InitActionView::CopyInstance(source@),
        InitAction::CopyDefault.deep_view() == InitActionView::CopyDefault,
        (RootStep::Copy { from: source, to: target }).deep_view() == (RootStepView::Copy {
            from: source@,
            to: target@,
        }),
        (RootStep::Create { directory: target }).deep_view() == (RootStepView::Create {
            directory: target@,
        }),
        checked(Ok(())) == Ok::<(), Seq<char>>(()),
        checked(Err(message)) == Err::<(), Seq<char>>(message@),
{
}

/// Where a store is kept and what its settings are follow from what is known of
/// it, or its error does.
pub proof fn stores_have_a_file_and_settings(
    style: PathStyle,
    data_dir: Result<String, String>,
    path: Result<String, String>,
    store: Result<InstanceStore, String>,
    settings: Result<DefaultInstanceSettings, String>,
)
    requires
        call_ensures(instances_path, (style, data_dir), path),
        call_ensures(load_default_settings, (store,), settings),
    ensures
        match data_dir {
            Ok(base) => path matches Ok(file) && file@ == path_below(
                style,
                base@,
                "zcode_instances.json"@,
            ),
            Err(message) => path is Err && path->Err_0@ == message@,
        },
        match store {
            Ok(store) => settings matches Ok(loaded) && loaded@ == store.default_settings@,
            Err(message) => settings is Err && settings->Err_0@ == message@,
        },
{
}

/// Changing the settings of the client's own profile returns and stores the same
/// settings, with the account and the arguments that were given, and leaves the
/// instances alone.
pub proof fn changed_settings_are_stored(
    store: InstanceStore,
    bind: Option<Option<String>>,
    args: Option<String>,
    follow: Option<bool>,
    res: (InstanceStore, DefaultInstanceSettings),
)
    requires
        call_ensures(update_default_settings, (store, bind, args, follow), res),
    ensures
        res.0@.default_settings == res.1@,
        res.0@.instances == store@.instances,
        res.1@.last_pid == store@.default_settings.last_pid,
        match bind {
            Some(Some(id)) => res.1@.bind_account_id == Some(id@) && !res.1@.follow_local_account,
            Some(None) => res.1@.bind_account_id is None && !res.1@.follow_local_account,
            None => res.1@.bind_account_id == store@.default_settings.bind_account_id
                && res.1@.follow_local_account == store@.default_settings.follow_local_account,
        },
        match args {
            Some(given) => res.1@.extra_args == trimmed(given@),
            None => res.1@.extra_args == store@.default_settings.extra_args,
        },
{
}

/// The directories that a new instance starts from are those below the user's
/// home and those of the platform; the home is looked for first.
pub proof fn defaults_are_directories_of_the_platform(
    os: &str,
    home: Option<&str>,
    app_data: Option<&str>,
    root: Result<String, String>,
    own: Result<String, String>,
    res: Result<InstanceDefaults, String>,
)
    requires
        call_ensures(get_instances_root_dir, (style_of(os@), home), root),
        call_ensures(get_default_user_data_dir, (os, home, app_data), own),
        call_ensures(get_instance_defaults, (os, home, app_data), res),
    ensures
        home matches Some(base) ==> root is Ok && root->Ok_0@ == path_below(
            style_of(os@),
            base@,
            ".antigravity_cockpit/instances/zcode"@,
        ),
        home is None ==> root is Err && root->Err_0@ == "无法获取用户主目录"@,
        os@ == "macos"@ && home is Some ==> own is Ok && own->Ok_0@ == path_below(
            PathStyle::Unix,
            home->0@,
            "Library/Application Support/ZCode"@,
        ),
        os@ == "linux"@ && home is Some ==> own is Ok && own->Ok_0@ == path_below(
            PathStyle::Unix,
            home->0@,
            ".config/ZCode"@,
        ),
        os@ == "windows"@ && app_data is Some ==> own is Ok && own->Ok_0@
            == path_below(PathStyle::Windows, app_data->0@, "ZCode"@),
        match (root, own) {
            (Ok(first), Ok(second)) => res matches Ok(defaults) && defaults.root_dir@ == first@
                && defaults.default_user_data_dir@ == second@,
            (Err(message), _) => res is Err && res->Err_0@ == message@,
            (Ok(_), Err(message)) => res is Err && res->Err_0@ == message@,
        },
{
    platforms_have_their_data_directory(
        style_of(os@),
        os@,
        home.deep_view(),
        app_data.deep_view(),
    );
    reveal_strlit("macos");
    reveal_strlit("linux");
    reveal_strlit("windows");
    assert("windows"@.len() == 7 && "macos"@.len() == 5 && "linux"@.len() == 5);
}

/// An instance gets these directories and this settings file below its root, and
/// is filled from the client's own profile where that is there.
pub proof fn instances_are_laid_out_below_their_root(
    style: PathStyle,
    root: &str,
    source: &str,
    is_there: bool,
    directories: RootDirectories,
    electron: RootStep,
    data: RootStep,
    setting: String,
)
    requires
        call_ensures(initialize_empty_root, (style, root), directories),
        call_ensures(copy_electron_step, (style, root, source, is_there), electron),
        call_ensures(copy_data_step, (style, root, source, is_there), data),
        call_ensures(managed_setting_path, (style, root), setting),
    ensures
        directories.session@ == path_below(style, root@, "electron/session"@),
        directories.data@ == path_below(style, root@, "data/.zcode/v2"@),
        setting@ == path_below(style, root@, "data/.zcode/v2/setting.json"@),
        is_there ==> {
            &&& electron matches RootStep::Copy { from, to } && from@ == source@ && to@
                == path_below(style, root@, "electron"@)
            &&& data matches RootStep::Copy { from, to } && from@ == source@ && to@ == path_below(
                style,
                root@,
                "data/.zcode"@,
            )
        },
        !is_there ==> {
            &&& electron matches RootStep::Create { directory } && directory@ == path_below(
                style,
                root@,
                "electron"@,
            )
            &&& data matches RootStep::Create { directory } && directory@ == path_below(
                style,
                root@,
                "data/.zcode/v2"@,
            )
        },
{
}

/// Sanitizing the settings of an instance writes them anew if and only if they
/// name a directory of their own: the text that is written is then an object
/// without it, with each other setting that was there.
pub proof fn sanitizing_drops_the_directory_only(
    content: String,
    res: Result<Option<String>, String>,
    none: Result<Option<String>, String>,
    name: Seq<char>,
)
    requires
        call_ensures(sanitize_managed_setting, (Some(Ok(content)),), res),
        call_ensures(sanitize_managed_setting, (None,), none),
    ensures
        none matches Ok(None),
        ({
            let parsed = json_parse(content@);
            &&& parsed matches Err(message) ==> res is Err && res->Err_0@
                == "解析 ZCode 实例设置失败: "@ + message
            &&& parsed is Ok && parsed->Ok_0 !is Object ==> res is Err && res->Err_0@
                == "ZCode 实例 setting.json 必须是 JSON 对象"@
            &&& parsed is Ok && parsed->Ok_0 is Object && parsed->Ok_0.get("dataBaseDir"@) is None
                ==> res == Ok::<Option<String>, String>(None)
            &&& parsed is Ok && parsed->Ok_0 is Object && parsed->Ok_0.get("dataBaseDir"@) is Some
                ==> (res matches Ok(Some(text)) && {
                let after = json_parse(text@);
                &&& after is Ok && after->Ok_0 is Object
                &&& after->Ok_0.get("dataBaseDir"@) is None
                &&& name != "dataBaseDir"@ ==> (after->Ok_0.get(name) is Some
                    <==> parsed->Ok_0.get(name) is Some)
                &&& name != "dataBaseDir"@ && parsed->Ok_0.get_text(name) is Some
                    ==> after->Ok_0.get(name) == parsed->Ok_0.get(name)
            })
        }),
{
    assert(reading(Some(Ok(content))) == Some(Ok::<Seq<char>, Seq<char>>(content@)));
    let parsed = json_parse(content@);
    if parsed is Ok && parsed->Ok_0 is Object && parsed->Ok_0.get("dataBaseDir"@) is Some {
        other_settings_stay(res->Ok_0->0@, parsed->Ok_0->Object_0, name);
    }
}

/// A new instance is refused for its name first, then for a blank directory,
/// then for a name or a directory that is taken, and then for the way in which
/// it is to be filled; it gets the name that was normalized.
pub proof fn new_instances_are_checked_in_order(
    store: &InstanceStore,
    params: &CreateInstanceParams,
    name: Result<String, String>,
    unique: Result<(), String>,
    root: &RootState,
    res: Result<(String, InitAction), String>,
)
    requires
        call_ensures(prepare_instance, (store, params, name, unique, root), res),
    ensures
        name matches Err(message) ==> res is Err && res->Err_0@ == message@,
        name is Ok && trimmed(params.user_data_dir@).len() == 0 ==> res is Err && res->Err_0@
            == "实例目录不能为空"@,
        name is Ok && trimmed(params.user_data_dir@).len() > 0 && unique is Err ==> res is Err
            && res->Err_0@ == unique->Err_0@,
        name is Ok && trimmed(params.user_data_dir@).len() > 0 && unique is Ok ==> match (
            init_action(
                store@,
                params.init_mode.deep_view(),
                params.copy_source_instance_id.deep_view(),
                *root,
            ),
            res,
        ) {
            (Ok(action), Ok((given, chosen))) => given@ == name->Ok_0@ && chosen.deep_view()
                == action,
            (Err(message), Err(text)) => text@ == message,
            _ => false,
        },
{
}

/// A new instance that copies one of the store is filled from the directory of
/// that instance, whether the way of filling was named or left out.
pub proof fn new_instances_copy_the_chosen_one(
    store: &InstanceStore,
    params: &CreateInstanceParams,
    name: Result<String, String>,
    unique: Result<(), String>,
    root: &RootState,
    res: Result<(String, InitAction), String>,
    at: int,
)
    requires
        call_ensures(prepare_instance, (store, params, name, unique, root), res),
        name is Ok,
        unique is Ok,
        trimmed(params.user_data_dir@).len() > 0,
        !root.holds_anything,
        params.init_mode matches Some(mode) ==> {
            &&& ascii_lower(mode@) != "existingdir"@
            &&& ascii_lower(mode@) != "existing_dir"@
            &&& ascii_lower(mode@) != "empty"@
        },
        params.copy_source_instance_id is Some,
        params.copy_source_instance_id->0@ != "__default__"@,
        0 <= at < store.instances@.len(),
        store.instances@[at].id@ == params.copy_source_instance_id->0@,
        forall|k: int|
            0 <= k < at ==> (#[trigger] store.instances@[k]).id@
                != params.copy_source_instance_id->0@,
    ensures
        res matches Ok((_, InitAction::CopyInstance(source))) && source@
            == store.instances@[at].user_data_dir@,
{
    let source = params.copy_source_instance_id->0@;
    assert forall|k: int| 0 <= k < at implies (#[trigger] store@.instances[k]).id != source by {
        assert(store@.instances[k] == store.instances@[k]@);
    }
    assert(store@.instances[at] == store.instances@[at]@);
    chosen_instances_are_copied(store@, params.init_mode.deep_view(), source, *root, at);
}

/// Creating an instance whose directory could be filled gives the instance that
/// was asked for and the store with it behind all others; where filling failed
/// that is the error.
pub proof fn created_instances_are_stored(
    store: InstanceStore,
    params: CreateInstanceParams,
    name: String,
    initialized: Result<(), String>,
    id: String,
    now: i64,
    res: Result<(InstanceProfile, InstanceStore), String>,
)
    requires
        call_ensures(create_instance_at, (store, params, name, initialized, id, now), res),
    ensures
        initialized matches Err(message) ==> res is Err && res->Err_0@ == message@,
        initialized is Ok ==> (res matches Ok((made, after)) && {
            &&& made@.id == id@
            &&& made@.name == name@
            &&& made@.user_data_dir == trimmed(params.user_data_dir@)
            &&& made@.working_dir == params.working_dir.deep_view()
            &&& made@.extra_args == trimmed(params.extra_args@)
            &&& made@.bind_account_id == params.bind_account_id.deep_view()
            &&& made@.launch_mode == InstanceLaunchMode::App
            &&& made@.app_speed == CodexAppSpeed::Standard
            &&& made@.created_at == now
            &&& made@.last_launched_at is None
            &&& made@.last_pid is None
            &&& after@.instances == store@.instances.push(made@)
            &&& after@.default_settings == store@.default_settings
        }),
{
}

/// An instance that is created at the time of day differs from one created at a
/// given time in nothing but its time and an identifier by chance.
pub proof fn created_instances_have_an_identifier_by_chance(
    store: InstanceStore,
    params: CreateInstanceParams,
    name: String,
    initialized: Result<(), String>,
    res: Result<(InstanceProfile, InstanceStore), String>,
)
    requires
        call_ensures(create_instance, (store, params, name, initialized), res),
    ensures
        initialized matches Err(message) ==> res is Err && res->Err_0@ == message@,
        initialized is Ok ==> (res matches Ok((made, after)) && {
            &&& is_random_uuid(made@.id)
            &&& is_drawn_uuid(made@.id)
            &&& is_time_in_millis(made@.created_at)
            &&& made@.name == name@
            &&& made@.user_data_dir == trimmed(params.user_data_dir@)
            &&& made@.working_dir == params.working_dir.deep_view()
            &&& made@.extra_args == trimmed(params.extra_args@)
            &&& made@.bind_account_id == params.bind_account_id.deep_view()
            &&& made@.last_launched_at is None
            &&& made@.last_pid is None
            &&& after@.instances == store@.instances.push(made@)
            &&& after@.default_settings == store@.default_settings
        }),
{
}

/// Changing an instance returns and stores it in its place, with what was given
/// and else as it was, and leaves the others alone. It is refused where the store
/// does not have it, or where its new name is refused.
pub proof fn changed_instances_are_stored(
    store: InstanceStore,
    params: UpdateInstanceParams,
    name: Result<String, String>,
    unique: Result<(), String>,
    res: Result<(InstanceProfile, InstanceStore), String>,
    at: int,
    k: int,
)
    requires
        call_ensures(update_instance, (store, params, name, unique), res),
    ensures
        (forall|j: int|
            0 <= j < store@.instances.len() ==> (#[trigger] store@.instances[j]).id
                != params.instance_id@) ==> res is Err && res->Err_0@ == "ZCode 实例不存在"@,
        0 <= at < store@.instances.len() && store@.instances[at].id == params.instance_id@
            && (forall|j: int|
            0 <= j < at ==> (#[trigger] store@.instances[j]).id != params.instance_id@) ==> {
            let before = store@.instances[at];
            &&& params.name is Some && name is Err ==> res is Err && res->Err_0@
                == name->Err_0@
            &&& params.name is Some && name is Ok && unique is Err ==> res is Err
                && res->Err_0@ == unique->Err_0@
            &&& params.name is None || name is Ok && unique is Ok ==> (res matches Ok(
                (changed, after),
            ) && {
                &&& params.name is Some ==> changed@.name == name->Ok_0@
                &&& params.name is None ==> changed@.name == before.name
                &&& params.working_dir is None ==> changed@.working_dir == before.working_dir
                &&& params.working_dir is Some && trimmed(params.working_dir->0@).len() > 0
                    ==> changed@.working_dir == Some(trimmed(params.working_dir->0@))
                &&& params.working_dir is Some && trimmed(params.working_dir->0@).len() == 0
                    ==> changed@.working_dir is None
                &&& params.extra_args is Some ==> changed@.extra_args == trimmed(
                    params.extra_args->0@,
                )
                &&& params.extra_args is None ==> changed@.extra_args == before.extra_args
                &&& params.bind_account_id is Some ==> changed@.bind_account_id
                    == params.bind_account_id->0.deep_view()
                &&& params.bind_account_id is None ==> changed@.bind_account_id
                    == before.bind_account_id
                &&& changed@.id == before.id
                &&& changed@.user_data_dir == before.user_data_dir
                &&& changed@.created_at == before.created_at
                &&& changed@.last_launched_at == before.last_launched_at
                &&& changed@.last_pid == before.last_pid
                &&& changed@.launch_mode == before.launch_mode
                &&& changed@.app_speed == before.app_speed
                &&& after@.instances.len() == store@.instances.len()
                &&& after@.instances[at] == changed@
                &&& 0 <= k < store@.instances.len() && k != at ==> after@.instances[k]
                    == store@.instances[k]
                &&& after@.default_settings == store@.default_settings
            })
        },
{
    instances_are_found_by_identifier(store@, params.instance_id@, at);
}

/// Deleting an instance whose directory could be deleted takes it out of the
/// store and leaves the others in their order; its directory is the one that it
/// was stored with.
pub proof fn deleted_instances_leave_the_store(
    store: InstanceStore,
    id: &str,
    deleted: Result<(), String>,
    res: Result<InstanceStore, String>,
    directory: Result<String, String>,
    at: int,
)
    requires
        call_ensures(delete_instance, (store, id, deleted), res),
        call_ensures(instance_directory, (&store, id), directory),
    ensures
        (forall|j: int| 0 <= j < store@.instances.len() ==> (#[trigger] store@.instances[j]).id != id@)
            ==> {
            &&& res is Err && res->Err_0@ == "ZCode 实例不存在"@
            &&& directory is Err && directory->Err_0@ == "ZCode 实例不存在"@
        },
        0 <= at < store@.instances.len() && store@.instances[at].id == id@ && (forall|j: int|
            0 <= j < at ==> (#[trigger] store@.instances[j]).id != id@) ==> {
            &&& directory matches Ok(path) && path@ == store@.instances[at].user_data_dir
            &&& deleted matches Err(message) ==> res is Err && res->Err_0@ == message@
            &&& deleted is Ok ==> (res matches Ok(after) && {
                &&& after@.instances == store@.instances.take(at) + store@.instances.skip(at + 1)
                &&& after@.default_settings == store@.default_settings
            })
        },
{
    instances_are_found_by_identifier(store@, id@, at);
    if 0 <= at < store@.instances.len() {
        assert(store@.instances.remove(at) =~= store@.instances.take(at) + store@.instances.skip(
            at + 1,
        ));
    }
}

/// Starting notes the process and the time of an instance, stopping takes the
/// process away and keeps the time, and both leave all else of the store alone.
pub proof fn started_and_stopped_instances_are_noted(
    store: InstanceStore,
    id: &str,
    pid: u32,
    started: Result<InstanceStore, String>,
    stopped: Result<InstanceStore, String>,
    at: int,
    k: int,
)
    requires
        call_ensures(mark_started, (store, Some(id), pid), started),
        call_ensures(mark_stopped, (store, Some(id)), stopped),
    ensures
        (forall|j: int| 0 <= j < store@.instances.len() ==> (#[trigger] store@.instances[j]).id != id@)
            ==> {
            &&& started is Err && started->Err_0@ == "ZCode 实例不存在"@
            &&& stopped is Err && stopped->Err_0@ == "ZCode 实例不存在"@
        },
        0 <= at < store@.instances.len() && store@.instances[at].id == id@ && (forall|j: int|
            0 <= j < at ==> (#[trigger] store@.instances[j]).id != id@) ==> {
            &&& started matches Ok(after) && {
                &&& after@.instances.len() == store@.instances.len()
                &&& after@.instances[at] == (InstanceView {
                    last_pid: Some(pid),
                    last_launched_at: after@.instances[at].last_launched_at,
                    ..store@.instances[at]
                })
                &&& after@.instances[at].last_launched_at is Some
                &&& is_time_in_millis(after@.instances[at].last_launched_at->0)
                &&& 0 <= k < store@.instances.len() && k != at ==> after@.instances[k]
                    == store@.instances[k]
                &&& after@.default_settings == store@.default_settings
            }
            &&& stopped matches Ok(after) && {
                &&& after@.instances.len() == store@.instances.len()
                &&& after@.instances[at] == (InstanceView {
                    last_pid: None,
                    ..store@.instances[at]
                })
                &&& 0 <= k < store@.instances.len() && k != at ==> after@.instances[k]
                    == store@.instances[k]
                &&& after@.default_settings == store@.default_settings
            }
        },
{
    instances_are_found_by_identifier(store@, id@, at);
}

/// Noting a process without naming an instance notes it for the client's own
/// profile and leaves the instances alone.
pub proof fn the_own_process_is_noted(
    store: InstanceStore,
    pid: u32,
    started: Result<InstanceStore, String>,
    stopped: Result<InstanceStore, String>,
    cleared: InstanceStore,
    i: int,
)
    requires
        call_ensures(mark_started, (store, None, pid), started),
        call_ensures(mark_stopped, (store, None), stopped),
        call_ensures(clear_all_pids, (store,), cleared),
    ensures
        started matches Ok(after) && after@.instances == store@.instances
            && after@.default_settings == (SettingsView {
            last_pid: Some(pid),
            ..store@.default_settings
        }),
        stopped matches Ok(after) && after@.instances == store@.instances
            && after@.default_settings == (SettingsView { last_pid: None, ..store@.default_settings }),
        cleared@.default_settings == (SettingsView { last_pid: None, ..store@.default_settings }),
        cleared@.instances.len() == store@.instances.len(),
        0 <= i < store@.instances.len() ==> cleared@.instances[i] == (InstanceView {
            last_pid: None,
            ..store@.instances[i]
        }),
{
}

/// At a given time, starting notes exactly that time.
pub proof fn launches_are_noted_at_their_time(
    store: InstanceStore,
    id: &str,
    pid: Option<u32>,
    launched: bool,
    now: i64,
    res: Result<InstanceStore, String>,
    at: int,
)
    requires
        call_ensures(update_pid_at, (store, Some(id), pid, launched, now), res),
        0 <= at < store@.instances.len(),
        store@.instances[at].id == id@,
        forall|j: int| 0 <= j < at ==> (#[trigger] store@.instances[j]).id != id@,
    ensures
        res matches Ok(after) && {
            &&& after@.instances[at].last_pid == pid
            &&& launched ==> after@.instances[at].last_launched_at == Some(now)
            &&& !launched ==> after@.instances[at].last_launched_at
                == store@.instances[at].last_launched_at
        },
{
    instances_are_found_by_identifier(store@, id@, at);
}

/// The client's own profile is set up where both its directory and its
/// credentials are there, a managed one where either its credentials or its
/// window data are.
pub proof fn profiles_are_set_up_by_what_is_there(
    root: bool,
    credentials: bool,
    electron: bool,
    own: bool,
    managed: bool,
)
    requires
        call_ensures(is_profile_initialized, (true, root, credentials, electron), own),
        call_ensures(is_profile_initialized, (false, root, credentials, electron), managed),
    ensures
        own <==> root && credentials,
        managed <==> credentials || electron,
{
}

/// Instances, directories and parsed settings are found and taken as they are of
/// the store, the platform and the text.
pub proof fn plain_values_are_taken_as_they_are(
    store: &InstanceStore,
    id: &str,
    found: Option<usize>,
    style: PathStyle,
    os: &str,
    home: Option<&str>,
    app_data: Option<&str>,
    directory: Result<String, String>,
    parsed: Json,
    settings: Result<Option<Json>, String>,
    at: int,
    name: Seq<char>,
)
    requires
        call_ensures(find_instance, (store, id), found),
        call_ensures(default_user_data_dir_for, (style, os, home, app_data), directory),
        call_ensures(sanitize_settings, (Ok(parsed),), settings),
    ensures
        0 <= at < store@.instances.len() && store@.instances[at].id == id@ && (forall|j: int|
            0 <= j < at ==> (#[trigger] store@.instances[j]).id != id@) ==> found is Some
            && found->0 == at,
        (forall|j: int| 0 <= j < store@.instances.len() ==> (#[trigger] store@.instances[j]).id != id@)
            ==> found is None,
        os@ == "macos"@ && home is Some ==> directory is Ok && directory->Ok_0@ == path_below(
            style,
            home->0@,
            "Library/Application Support/ZCode"@,
        ),
        os@ == "linux"@ && home is Some ==> directory is Ok && directory->Ok_0@ == path_below(
            style,
            home->0@,
            ".config/ZCode"@,
        ),
        os@ == "windows"@ && app_data is Some ==> directory is Ok && directory->Ok_0@ == path_below(
            style,
            app_data->0@,
            "ZCode"@,
        ),
        parsed@ is Object && parsed@.get("dataBaseDir"@) is None ==> settings is Ok
            && settings->Ok_0 is None,
        parsed@ is Object && parsed@.get("dataBaseDir"@) is Some ==> {
            &&& settings is Ok && settings->Ok_0 is Some
            &&& settings->Ok_0->0@ is Object
            &&& settings->Ok_0->0@.get("dataBaseDir"@) is None
            &&& name != "dataBaseDir"@ ==> settings->Ok_0->0@.get(name) == parsed@.get(name)
        },
        parsed@ !is Object ==> settings is Err && settings->Err_0@
            == "ZCode 实例 setting.json 必须是 JSON 对象"@,
{
    instances_are_found_by_identifier(store@, id@, at);
    platforms_have_their_data_directory(style, os@, home.deep_view(), app_data.deep_view());
    assert(outcome(Ok::<Json, String>(parsed)) == Ok::<JsonView, Seq<char>>(parsed@));
    settings_lose_their_directory_only(parsed@, Seq::empty(), name);
    if settings is Ok {
        assert(outcome(settings) == Ok::<Option<JsonView>, Seq<char>>(
            settings->Ok_0.deep_view(),
        ));
    }
}

}
