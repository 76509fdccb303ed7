//! Finding, telling apart, starting and closing the client.

use zcode_cockpit::credential::credential_key;
use zcode_cockpit::credential::decrypt_credential;
use zcode_cockpit::credential::encrypt_credential;
use zcode_cockpit::credential::HostIdentity;
use zcode_cockpit::instance::CodexAppSpeed;
use zcode_cockpit::instance::DefaultInstanceSettings;
use zcode_cockpit::instance::InstanceLaunchMode;
use zcode_cockpit::instance::InstanceProfile;
use zcode_cockpit::instance::InstanceStore;
use zcode_cockpit::launch::close_all;
use zcode_cockpit::launch::command_matches_profile;
use zcode_cockpit::launch::configure_managed_environment;
use zcode_cockpit::launch::executable_candidates;
use zcode_cockpit::launch::is_main_process;
use zcode_cockpit::launch::resolve_executable;
use zcode_cockpit::launch::resolve_pid;
use zcode_cockpit::launch::start_default;
use zcode_cockpit::launch::start_managed;
use zcode_cockpit::launch::ProcessInfo;

fn text(value: &str) -> String {
    value.to_string()
}

fn texts(values: &[&str]) -> Vec<String> {
    values.iter().map(|value| text(value)).collect()
}

fn host() -> HostIdentity {
    HostIdentity {
        secret: None,
        os: text("macos"),
        user: Some(text("zcode-user")),
        username: None,
    }
}

fn instance(id: &str, name: &str) -> InstanceProfile {
    InstanceProfile {
        id: text(id),
        name: text(name),
        user_data_dir: text("/i/a"),
        working_dir: Some(text(" /w ")),
        extra_args: String::new(),
        bind_account_id: None,
        launch_mode: InstanceLaunchMode::App,
        app_speed: CodexAppSpeed::Standard,
        created_at: 1,
        last_launched_at: None,
        last_pid: Some(7),
    }
}

fn process(pid: u32, name: &str, command: &[&str]) -> ProcessInfo {
    ProcessInfo { pid, name: text(name), command: texts(command) }
}

fn store() -> InstanceStore {
    InstanceStore {
        instances: vec![instance("a", "First"), instance("b", "Second")],
        default_settings: DefaultInstanceSettings {
            bind_account_id: None,
            extra_args: String::new(),
            follow_local_account: false,
            last_pid: Some(3),
        },
    }
}

#[test]
fn managed_environment_isolates_home_and_preserves_credential_key_material() {
    let root = "/tmp/zcode-managed-profile";
    let real_home = "/Users/zcode-user";
    let environment = configure_managed_environment(root, "Work", real_home, &host());
    let get = |name: &str| {
        environment.iter().find(|(key, _)| key == name).map(|(_, value)| value.as_str())
    };
    let data = format!("{}/data", root);
    let electron = format!("{}/electron", root);
    let session = format!("{}/electron/session", root);
    assert_eq!(get("HOME"), Some(data.as_str()));
    assert_eq!(get("ZCODE_DATA_BASE_DIR"), Some(data.as_str()));
    assert_eq!(get("ZCODE_DESKTOP_USER_DATA_DIR"), Some(electron.as_str()));
    assert_eq!(get("ZCODE_DESKTOP_SESSION_DATA_DIR"), Some(session.as_str()));
    assert_eq!(get("ZCODE_DESKTOP_APPLICATION_NAME"), Some("ZCode [Work]"));
    assert!(get("ZCODE_CREDENTIAL_SECRET").is_some_and(|value| !value.is_empty()));
    assert_eq!(get("USERPROFILE"), Some(data.as_str()));
    assert_eq!(get("ZCODE_DESKTOP_HOME_DIR"), Some(data.as_str()));
    assert_eq!(environment.len(), 8);

    let inside = HostIdentity {
        secret: get("ZCODE_CREDENTIAL_SECRET").map(text),
        os: text("linux"),
        user: None,
        username: None,
    };
    assert_eq!(credential_key(&data, &inside), credential_key(real_home, &host()));
    let encrypted = encrypt_credential("token", real_home, &host()).unwrap();
    assert_eq!(decrypt_credential(&encrypted, &data, &inside).unwrap(), "token");
}

#[test]
fn environments_are_written_as_the_platform_writes_paths() {
    let mut windows = host();
    windows.os = text("windows");
    let environment = configure_managed_environment(r"D:\i", "Work", r"C:\Users\u", &windows);
    assert_eq!(environment[0].1, r"D:\i\electron");
    assert_eq!(environment[1].1, r"D:\i\electron\session");
    assert_eq!(environment[5].1, r"D:\i\data");
    assert_eq!(environment[4].1, r"zcode-credential-fallback:win32:C:\Users\u:zcode-user");
}

#[test]
fn process_profile_matching_distinguishes_default_and_managed_instances() {
    let default = texts(&["/Applications/ZCode.app/Contents/MacOS/ZCode", "--enable-feature"]);
    assert!(command_matches_profile(&default, None));
    assert!(!command_matches_profile(&default, Some("profile-a")));

    let managed = texts(&[
        "/Applications/ZCode.app/Contents/MacOS/ZCode",
        "--cockpit-zcode-profile=profile-a",
    ]);
    assert!(!command_matches_profile(&managed, None));
    assert!(command_matches_profile(&managed, Some("profile-a")));
    assert!(!command_matches_profile(&managed, Some("profile-b")));
    assert!(!command_matches_profile(&managed, Some("profile")));
}

#[test]
fn helpers_are_no_main_processes() {
    assert!(is_main_process("ZCode", &texts(&["/usr/bin/zcode"])));
    assert!(is_main_process("ZCODE.EXE", &Vec::new()));
    assert!(!is_main_process("zcode-helper", &texts(&["zcode"])));
    assert!(!is_main_process("zcode", &texts(&["zcode", "--TYPE=renderer"])));
    assert!(!is_main_process("zcode", &texts(&["/opt/zcode/Crashpad_Handler"])));
}

#[test]
fn the_noted_process_is_preferred() {
    let processes = vec![
        process(1, "bash", &["bash"]),
        process(2, "zcode", &["zcode"]),
        process(3, "zcode", &["zcode"]),
        process(4, "zcode", &["zcode", "--cockpit-zcode-profile=a"]),
        process(5, "zcode", &["zcode", "--cockpit-zcode-profile=a"]),
    ];
    assert_eq!(resolve_pid(&processes, None, Some(3)), Some(3));
    assert_eq!(resolve_pid(&processes, None, Some(4)), Some(2));
    assert_eq!(resolve_pid(&processes, None, Some(99)), Some(2));
    assert_eq!(resolve_pid(&processes, None, None), Some(2));
    assert_eq!(resolve_pid(&processes, Some("a"), Some(5)), Some(5));
    assert_eq!(resolve_pid(&processes, Some("a"), Some(1)), Some(4));
    assert_eq!(resolve_pid(&processes, Some("b"), Some(4)), None);
}

#[test]
fn the_client_is_looked_for_on_each_platform() {
    assert_eq!(
        executable_candidates("macos", None, None),
        texts(&["/Applications/ZCode.app/Contents/MacOS/ZCode"])
    );
    assert_eq!(
        executable_candidates("linux", Some("/l"), Some("/p")),
        texts(&["/usr/bin/zcode", "/opt/ZCode/zcode", "/opt/zcode/zcode"])
    );
    assert_eq!(
        executable_candidates("windows", Some(r"C:\l"), Some("C:")),
        texts(&[r"C:\l\Programs/ZCode/ZCode.exe", "C:ZCode/ZCode.exe"])
    );
    assert_eq!(
        executable_candidates("windows", None, Some(r"C:\p\")),
        texts(&[r"C:\p\ZCode/ZCode.exe"])
    );
    assert!(executable_candidates("haiku", Some("/l"), Some("/p")).is_empty());
    assert_eq!(
        resolve_executable(&vec![(text("/x"), false), (text("/y"), true), (text("/z"), true)])
            .unwrap(),
        "/y"
    );
    assert_eq!(
        resolve_executable(&vec![(text("/x"), false)]).unwrap_err(),
        "未找到 ZCode 客户端，请先安装 ZCode"
    );
}

#[test]
fn own_profiles_are_started_as_they_are() {
    let plan = start_default(Ok(text("/usr/bin/zcode")), &texts(&["--a", "--b"])).unwrap();
    assert_eq!(plan.executable, "/usr/bin/zcode");
    assert_eq!(plan.arguments, texts(&["--a", "--b"]));
    assert!(plan.environment.is_empty());
    assert_eq!(plan.working_dir, None);
    assert_eq!(start_default(Err(text("none")), &[]).unwrap_err(), "none");
}

#[test]
fn managed_instances_are_started_with_their_marker() {
    let managed = instance("id-1", "Work");
    let start = |executable: Result<String, String>, prepared, home| {
        start_managed(&managed, &texts(&["--a"]), executable, prepared, home, &host())
    };
    let plan = start(Ok(text("/usr/bin/zcode")), Ok(()), Some("/Users/u")).unwrap();
    assert_eq!(plan.arguments, texts(&["--cockpit-zcode-profile=id-1", "--a"]));
    assert_eq!(plan.working_dir, Some(text("/w")));
    assert_eq!(plan.environment[0].1, "/i/a/electron");
    assert_eq!(
        plan.environment[4].1,
        "zcode-credential-fallback:darwin:/Users/u:zcode-user"
    );
    assert_eq!(plan.environment[7].1, "ZCode [Work]");
    assert!(command_matches_profile(&plan.arguments, Some("id-1")));
    assert!(!command_matches_profile(&plan.arguments, None));
    assert_eq!(start(Err(text("none")), Err(text("disk")), None).unwrap_err(), "none");
    assert_eq!(start(Ok(text("/z")), Err(text("disk")), None).unwrap_err(), "disk");
    assert_eq!(start(Ok(text("/z")), Ok(()), None).unwrap_err(), "无法获取用户主目录");
}

#[test]
fn closing_reports_all_failures() {
    let closed = close_all(store(), Ok(()), &vec![Ok(()), Ok(())]).unwrap();
    assert_eq!(closed.default_settings.last_pid, None);
    assert!(closed.instances.iter().all(|instance| instance.last_pid.is_none()));
    assert_eq!(
        close_all(store(), Err(text("x")), &vec![Ok(()), Err(text("y"))]).unwrap_err(),
        "部分 ZCode 实例关闭失败: 默认实例: x; Second: y"
    );
    assert_eq!(
        close_all(store(), Ok(()), &vec![Err(text("z")), Ok(())]).unwrap_err(),
        "部分 ZCode 实例关闭失败: First: z"
    );
}
