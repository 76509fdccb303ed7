//! Managed instances: their store, their directories and their settings.

use zcode_cockpit::credentials_file::credentials_path_for_instance_root;
use zcode_cockpit::instance::CodexAppSpeed;
use zcode_cockpit::instance::CreateInstanceParams;
use zcode_cockpit::instance::DefaultInstanceSettings;
use zcode_cockpit::instance::InitAction;
use zcode_cockpit::instance::InstanceLaunchMode;
use zcode_cockpit::instance::InstanceProfile;
use zcode_cockpit::instance::InstanceStore;
use zcode_cockpit::instance::RootState;
use zcode_cockpit::instance::RootStep;
use zcode_cockpit::instance::UpdateInstanceParams;
use zcode_cockpit::instance::clear_all_pids;
use zcode_cockpit::instance::copy_data_step;
use zcode_cockpit::instance::copy_electron_step;
use zcode_cockpit::instance::create_instance;
use zcode_cockpit::instance::create_instance_at;
use zcode_cockpit::instance::default_user_data_dir_for;
use zcode_cockpit::instance::delete_instance;
use zcode_cockpit::instance::get_default_user_data_dir;
use zcode_cockpit::instance::get_instance_defaults;
use zcode_cockpit::instance::get_instances_root_dir;
use zcode_cockpit::instance::initialize_empty_root;
use zcode_cockpit::instance::instance_directory;
use zcode_cockpit::instance::instances_path;
use zcode_cockpit::instance::is_profile_initialized;
use zcode_cockpit::instance::load_default_settings;
use zcode_cockpit::instance::managed_setting_path;
use zcode_cockpit::instance::mark_started;
use zcode_cockpit::instance::mark_stopped;
use zcode_cockpit::instance::prepare_instance;
use zcode_cockpit::instance::sanitize_managed_setting;
use zcode_cockpit::instance::sanitize_settings;
use zcode_cockpit::instance::update_default_settings;
use zcode_cockpit::instance::update_instance;
use zcode_cockpit::instance::update_pid_at;
use zcode_cockpit::json::Json;
use zcode_cockpit::path::PathStyle;
use zcode_cockpit::transfer::import_items;

const UNIX: PathStyle = PathStyle::Unix;

fn text(value: &str) -> String {
    value.to_string()
}

fn json(source: &str) -> Json {
    import_items(&format!("[{}]", source)).unwrap().remove(0)
}

fn instance(id: &str, directory: &str) -> InstanceProfile {
    InstanceProfile {
        id: text(id),
        name: format!("name of {}", id),
        user_data_dir: text(directory),
        working_dir: None,
        extra_args: String::new(),
        bind_account_id: None,
        launch_mode: InstanceLaunchMode::App,
        app_speed: CodexAppSpeed::Standard,
        created_at: 1,
        last_launched_at: None,
        last_pid: Some(7),
    }
}

fn settings() -> DefaultInstanceSettings {
    DefaultInstanceSettings {
        bind_account_id: Some(text("bound")),
        extra_args: text("--old"),
        follow_local_account: true,
        last_pid: Some(5),
    }
}

fn store() -> InstanceStore {
    InstanceStore {
        instances: vec![instance("a", "/i/a"), instance("b", "/i/b")],
        default_settings: settings(),
    }
}

fn params(mode: Option<&str>, source: Option<&str>) -> CreateInstanceParams {
    CreateInstanceParams {
        name: text("Work"),
        user_data_dir: text(" /i/new "),
        working_dir: Some(text(" /w ")),
        extra_args: text(" --x "),
        bind_account_id: Some(text("acc")),
        copy_source_instance_id: source.map(text),
        init_mode: mode.map(text),
    }
}

fn root(is_directory: bool, holds_anything: bool) -> RootState {
    RootState { is_directory, holds_anything, shown: text("/i/new") }
}

fn update(id: &str) -> UpdateInstanceParams {
    UpdateInstanceParams {
        instance_id: text(id),
        name: None,
        working_dir: None,
        extra_args: None,
        bind_account_id: None,
    }
}

#[test]
fn default_user_data_paths_match_electron_conventions() {
    let unix_home = "/Users/zcode-user";
    assert_eq!(
        default_user_data_dir_for(UNIX, "macos", Some(unix_home), None).unwrap(),
        format!("{}/{}", unix_home, "Library/Application Support/ZCode")
    );
    assert_eq!(
        default_user_data_dir_for(UNIX, "linux", Some(unix_home), None).unwrap(),
        format!("{}/{}", unix_home, ".config/ZCode")
    );

    let app_data = r"C:\Users\zcode-user\AppData\Roaming";
    assert_eq!(
        default_user_data_dir_for(UNIX, "windows", None, Some(app_data)).unwrap(),
        format!("{}/{}", app_data, "ZCode")
    );
    assert!(default_user_data_dir_for(UNIX, "freebsd", Some(unix_home), None).is_err());
}

#[test]
fn directories_need_their_base() {
    assert_eq!(
        default_user_data_dir_for(UNIX, "macos", None, Some("x")).unwrap_err(),
        "无法获取用户主目录"
    );
    assert_eq!(
        default_user_data_dir_for(UNIX, "windows", Some("x"), None).unwrap_err(),
        "无法获取 APPDATA"
    );
    assert_eq!(
        default_user_data_dir_for(UNIX, "linux", None, None).unwrap_err(),
        "无法获取用户主目录"
    );
    assert_eq!(
        get_default_user_data_dir("haiku", Some("/h"), None).unwrap_err(),
        "ZCode 多开仅支持 macOS、Windows 和 Linux"
    );
    assert_eq!(get_instances_root_dir(UNIX, None).unwrap_err(), "无法获取用户主目录");
    let defaults = get_instance_defaults("linux", Some("/h"), None).unwrap();
    assert_eq!(defaults.root_dir, "/h/.antigravity_cockpit/instances/zcode");
    assert_eq!(defaults.default_user_data_dir, "/h/.config/ZCode");
    let windows = get_instance_defaults("windows", Some(r"C:\u"), Some(r"C:\u\Roaming")).unwrap();
    assert_eq!(windows.root_dir, r"C:\u\.antigravity_cockpit/instances/zcode");
    assert_eq!(windows.default_user_data_dir, r"C:\u\Roaming\ZCode");
    assert_eq!(
        get_instance_defaults("linux", None, None).unwrap_err(),
        "无法获取用户主目录"
    );
    assert_eq!(
        get_instance_defaults("windows", Some("/h"), None).unwrap_err(),
        "无法获取 APPDATA"
    );
    assert_eq!(instances_path(UNIX, Ok(text("/d"))).unwrap(), "/d/zcode_instances.json");
    assert_eq!(instances_path(UNIX, Err(text("no"))).unwrap_err(), "no");
}

#[test]
fn managed_instance_roots_initialize_isolated_electron_and_data_dirs() {
    let first = "/tmp/zcode-instance-isolation/first";
    let second = "/tmp/zcode-instance-isolation/second";
    for root in [first, second] {
        let directories = initialize_empty_root(UNIX, root);
        assert_eq!(directories.session, format!("{}/electron/session", root));
        assert_eq!(directories.data, format!("{}/data/.zcode/v2", root));
    }
    let first_credentials = credentials_path_for_instance_root(UNIX, first);
    let second_credentials = credentials_path_for_instance_root(UNIX, second);
    assert_eq!(first_credentials, format!("{}/data/.zcode/v2/credentials.json", first));
    assert_eq!(second_credentials, format!("{}/data/.zcode/v2/credentials.json", second));
    assert_ne!(first_credentials, second_credentials);

    assert!(is_profile_initialized(false, true, true, true));
    assert!(is_profile_initialized(false, true, false, true));
}

#[test]
fn profiles_are_initialized_by_what_is_there() {
    assert!(!is_profile_initialized(false, true, false, false));
    assert!(is_profile_initialized(false, false, true, false));
    assert!(is_profile_initialized(true, true, true, false));
    assert!(!is_profile_initialized(true, true, false, true));
    assert!(!is_profile_initialized(true, false, true, true));
}

#[test]
fn managed_setting_cannot_override_instance_data_root() {
    assert_eq!(
        managed_setting_path(UNIX, "/tmp/zcode-instance-setting"),
        "/tmp/zcode-instance-setting/data/.zcode/v2/setting.json"
    );
    let content =
        r#"{"dataBaseDir":"/Users/shared","desktopChromiumHardwareAccelerationEnabled":false}"#;
    let written = sanitize_managed_setting(Some(Ok(text(content)))).unwrap().unwrap();
    let value = json(&written);
    assert!(value.get("dataBaseDir").is_none());
    assert_eq!(
        value.get("desktopChromiumHardwareAccelerationEnabled"),
        Some(&Json::Bool(false))
    );
    assert_eq!(sanitize_managed_setting(Some(Ok(written))).unwrap(), None);
}

#[test]
fn settings_that_need_nothing_stay() {
    assert_eq!(sanitize_managed_setting(None).unwrap(), None);
    assert_eq!(sanitize_managed_setting(Some(Ok(text(r#"{"a":1}"#)))).unwrap(), None);
    assert_eq!(
        sanitize_managed_setting(Some(Err(text("denied")))).unwrap_err(),
        "读取 ZCode 实例设置失败: denied"
    );
    assert!(sanitize_managed_setting(Some(Ok(text("{"))))
        .unwrap_err()
        .starts_with("解析 ZCode 实例设置失败: "));
    assert_eq!(
        sanitize_managed_setting(Some(Ok(text("[]")))).unwrap_err(),
        "ZCode 实例 setting.json 必须是 JSON 对象"
    );
    assert_eq!(
        sanitize_settings(Ok(json(r#"{"dataBaseDir":null,"b":[{}]}"#))).unwrap(),
        Some(json(r#"{"b":[{}]}"#))
    );
}

#[test]
fn default_settings_are_changed_in_part() {
    assert_eq!(load_default_settings(Ok(store())).unwrap(), settings());
    assert_eq!(load_default_settings(Err(text("no"))).unwrap_err(), "no");
    let (changed, value) = update_default_settings(store(), None, Some(text(" --y ")), Some(true));
    assert_eq!(value.extra_args, "--y");
    assert_eq!(value.bind_account_id, Some(text("bound")));
    assert!(value.follow_local_account);
    assert_eq!(changed.default_settings, value);
    assert_eq!(changed.instances, store().instances);
    let (_, value) = update_default_settings(store(), Some(None), None, None);
    assert_eq!(value.bind_account_id, None);
    assert!(!value.follow_local_account);
    assert_eq!(value.last_pid, Some(5));
}

#[test]
fn roots_are_filled_by_mode() {
    let planned = |mode: Option<&str>, source: Option<&str>, state: RootState| {
        prepare_instance(&store(), &params(mode, source), Ok(text("Work")), Ok(()), &state)
    };
    let action = |mode: Option<&str>, source: Option<&str>| {
        planned(mode, source, root(false, false)).unwrap().1
    };
    assert_eq!(action(None, None), InitAction::CopyDefault);
    assert_eq!(action(Some("COPY"), Some("__default__")), InitAction::CopyDefault);
    assert_eq!(action(None, Some("b")), InitAction::CopyInstance(text("/i/b")));
    assert_eq!(action(Some("Empty"), Some("b")), InitAction::InitializeEmpty);
    for mode in ["existingDir", "EXISTING_DIR"] {
        let (name, action) = planned(Some(mode), None, root(true, true)).unwrap();
        assert_eq!(name, "Work");
        assert_eq!(action, InitAction::UseExisting);
        assert_eq!(
            planned(Some(mode), None, root(false, false)).unwrap_err(),
            "所选 ZCode 实例目录不存在或不是目录"
        );
    }
    assert_eq!(
        planned(Some("empty"), None, root(true, true)).unwrap_err(),
        "ZCode 实例目标目录必须为空: /i/new"
    );
    assert_eq!(
        planned(None, Some("z"), root(true, false)).unwrap_err(),
        "复制来源实例不存在"
    );
}

#[test]
fn new_instances_are_refused_in_order() {
    let mut blank = params(None, None);
    blank.user_data_dir = text("  ");
    let refused = |params: &CreateInstanceParams, name: Result<String, String>| {
        prepare_instance(&store(), params, name, Err(text("taken")), &root(true, true)).unwrap_err()
    };
    assert_eq!(refused(&blank, Err(text("no name"))), "no name");
    assert_eq!(refused(&blank, Ok(text("Work"))), "实例目录不能为空");
    assert_eq!(refused(&params(None, None), Ok(text("Work"))), "taken");
}

#[test]
fn new_instances_stand_behind_the_others() {
    let (made, after) = create_instance_at(
        store(),
        params(None, None),
        text("Work"),
        Ok(()),
        text("new-id"),
        99,
    )
    .unwrap();
    let expected = InstanceProfile {
        id: text("new-id"),
        name: text("Work"),
        user_data_dir: text("/i/new"),
        working_dir: Some(text(" /w ")),
        extra_args: text("--x"),
        bind_account_id: Some(text("acc")),
        launch_mode: InstanceLaunchMode::App,
        app_speed: CodexAppSpeed::Standard,
        created_at: 99,
        last_launched_at: None,
        last_pid: None,
    };
    assert_eq!(made, expected);
    assert_eq!(after.instances.len(), 3);
    assert_eq!(after.instances[2], expected);
    assert_eq!(after.instances[0], instance("a", "/i/a"));

    let (first, _) = create_instance(store(), params(None, None), text("W"), Ok(())).unwrap();
    let (second, _) = create_instance(store(), params(None, None), text("W"), Ok(())).unwrap();
    assert_eq!(first.id.len(), 36);
    assert_eq!(&first.id[14..15], "4");
    assert_ne!(first.id, second.id);
    assert!(first.created_at > 1_600_000_000_000);
    assert_eq!(
        create_instance(store(), params(None, None), text("W"), Err(text("disk full")))
            .unwrap_err(),
        "disk full"
    );
}

#[test]
fn instances_are_changed_in_part() {
    let (same, after) = update_instance(store(), update("b"), Err(text("unused")), Ok(())).unwrap();
    assert_eq!(same, instance("b", "/i/b"));
    assert_eq!(after, store());

    let mut change = update("b");
    change.name = Some(text("N"));
    change.working_dir = Some(text("  "));
    change.extra_args = Some(text(" --z "));
    change.bind_account_id = Some(Some(text("acc")));
    let (changed, after) = update_instance(store(), change, Ok(text("N")), Ok(())).unwrap();
    assert_eq!(changed.name, "N");
    assert_eq!(changed.working_dir, None);
    assert_eq!(changed.extra_args, "--z");
    assert_eq!(changed.bind_account_id, Some(text("acc")));
    assert_eq!(changed.user_data_dir, "/i/b");
    assert_eq!(after.instances[1], changed);
    assert_eq!(after.instances[0], instance("a", "/i/a"));

    let renamed = || {
        let mut change = update("b");
        change.name = Some(text("N"));
        change
    };
    assert_eq!(
        update_instance(store(), renamed(), Err(text("bad name")), Err(text("taken"))).unwrap_err(),
        "bad name"
    );
    assert_eq!(
        update_instance(store(), renamed(), Ok(text("N")), Err(text("taken"))).unwrap_err(),
        "taken"
    );
    assert_eq!(
        update_instance(store(), update("z"), Ok(text("N")), Ok(())).unwrap_err(),
        "ZCode 实例不存在"
    );
}

#[test]
fn deleted_instances_leave_the_store() {
    assert_eq!(instance_directory(&store(), "b").unwrap(), "/i/b");
    assert_eq!(instance_directory(&store(), "z").unwrap_err(), "ZCode 实例不存在");
    let left = delete_instance(store(), "a", Ok(())).unwrap();
    assert_eq!(left.instances, vec![instance("b", "/i/b")]);
    assert_eq!(left.default_settings, settings());
    assert_eq!(delete_instance(store(), "z", Ok(())).unwrap_err(), "ZCode 实例不存在");
    assert_eq!(delete_instance(store(), "a", Err(text("busy"))).unwrap_err(), "busy");
}

#[test]
fn processes_are_noted_and_cleared() {
    let started = update_pid_at(store(), Some("b"), Some(42), true, 1000).unwrap();
    assert_eq!(started.instances[1].last_pid, Some(42));
    assert_eq!(started.instances[1].last_launched_at, Some(1000));
    assert_eq!(started.instances[0], instance("a", "/i/a"));
    let stopped = mark_stopped(started, Some("b")).unwrap();
    assert_eq!(stopped.instances[1].last_pid, None);
    assert_eq!(stopped.instances[1].last_launched_at, Some(1000));

    let own = mark_started(store(), None, 42).unwrap();
    assert_eq!(own.default_settings.last_pid, Some(42));
    assert_eq!(own.instances, store().instances);
    let launched = mark_started(store(), Some("a"), 43).unwrap();
    assert!(launched.instances[0].last_launched_at > Some(1_600_000_000_000));
    assert_eq!(mark_started(store(), Some("z"), 1).unwrap_err(), "ZCode 实例不存在");
    assert_eq!(mark_stopped(store(), Some("z")).unwrap_err(), "ZCode 实例不存在");

    let cleared = clear_all_pids(store());
    assert_eq!(cleared.default_settings.last_pid, None);
    assert!(cleared.instances.iter().all(|instance| instance.last_pid.is_none()));
    assert_eq!(cleared.instances[1].name, "name of b");
    assert_eq!(clear_all_pids(clear_all_pids(store())), cleared);
}

#[test]
fn instances_are_filled_from_the_own_profile() {
    assert_eq!(
        copy_electron_step(UNIX, "/r", "/src", true),
        RootStep::Copy { from: text("/src"), to: text("/r/electron") }
    );
    assert_eq!(
        copy_electron_step(UNIX, "/r", "/src", false),
        RootStep::Create { directory: text("/r/electron") }
    );
    assert_eq!(
        copy_data_step(UNIX, "/r", "/src", true),
        RootStep::Copy { from: text("/src"), to: text("/r/data/.zcode") }
    );
    assert_eq!(
        copy_data_step(UNIX, "/r", "/src", false),
        RootStep::Create { directory: text("/r/data/.zcode/v2") }
    );
}
