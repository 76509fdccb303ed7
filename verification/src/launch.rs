//! How the ZCode client is found, told from other processes, started and
//! closed.

use vstd::prelude::*;
use vstd::string::*;
use crate::account::{AccountView, normalize_optional, normalized, normalized_provider};
use crate::credential::{
    HostIdentity, HostIdentityView, credential_secret_for_home, key_for_home, secret_for_home,
};
use crate::credentials_file::{
    account_of_file, is_file_with_account, is_of_user, user_info_of,
    written_accounts_are_read_back,
};
use crate::instance::{
    InstanceProfile, InstanceStore, InstanceView, SettingsView, StoreView, checked,
    clear_all_pids, without_pids,
};
use crate::json::{Members, max_nesting};
use crate::path::{PathStyle, join_path, path_below, path_style, style_of};
use crate::text::{
    ascii_lower, begins_with, contains_text, join_texts, joined, joined_with, lists_text,
    occurs_in, outcome, same_text, trimmed,
};

verus! {

/// What the argument that tells the instance of a process begins with.
pub const PROFILE_MARKER_PREFIX: &'static str = "--cockpit-zcode-profile=";

/// The files that may be the client on a platform, the likeliest first. On
/// Windows they lie below the directories that `LOCALAPPDATA` and
/// `ProgramFiles` name.
pub open spec fn candidates_on(
    os: Seq<char>,
    local_app_data: Option<Seq<char>>,
    program_files: Option<Seq<char>>,
) -> Seq<Seq<char>> {
    if os == "macos"@ {
        seq!["/Applications/ZCode.app/Contents/MacOS/ZCode"@]
    } else if os == "windows"@ {
        match (local_app_data, program_files) {
            (Some(local), Some(program)) => seq![
                path_below(PathStyle::Windows, local, "Programs/ZCode/ZCode.exe"@),
                path_below(PathStyle::Windows, program, "ZCode/ZCode.exe"@),
            ],
            (Some(local), None) => seq![path_below(PathStyle::Windows, local, "Programs/ZCode/ZCode.exe"@)],
            (None, Some(program)) => seq![path_below(PathStyle::Windows, program, "ZCode/ZCode.exe"@)],
            (None, None) => Seq::empty(),
        }
    } else if os == "linux"@ {
        seq!["/usr/bin/zcode"@, "/opt/ZCode/zcode"@, "/opt/zcode/zcode"@]
    } else {
        Seq::empty()
    }
}

/// The files that may be the client on a platform, the likeliest first.
pub fn executable_candidates(
    os: &str,
    local_app_data: Option<&str>,
    program_files: Option<&str>,
) -> (res: Vec<String>)
    ensures
        res.deep_view() == candidates_on(
            os@,
            local_app_data.deep_view(),
            program_files.deep_view(),
        ),
{
    let mut res: Vec<String> = Vec::new();
    if same_text(os, "macos") {
        res.push("/Applications/ZCode.app/Contents/MacOS/ZCode".to_owned());
    } else if same_text(os, "windows") {
        match local_app_data {
            Some(local) => {
                res.push(join_path(PathStyle::Windows, local, "Programs/ZCode/ZCode.exe"));
            },
            None => {},
        }
        match program_files {
            Some(program) => {
                res.push(join_path(PathStyle::Windows, program, "ZCode/ZCode.exe"));
            },
            None => {},
        }
    } else if same_text(os, "linux") {
        res.push("/usr/bin/zcode".to_owned());
        res.push("/opt/ZCode/zcode".to_owned());
        res.push("/opt/zcode/zcode".to_owned());
    }
    assert(res.deep_view() =~= candidates_on(
        os@,
        local_app_data.deep_view(),
        program_files.deep_view(),
    ));
    res
}

/// The first of the candidates that is a file.
pub open spec fn first_file(candidates: Seq<(Seq<char>, bool)>) -> Option<Seq<char>>
    decreases candidates.len(),
{
    if candidates.len() == 0 {
        None
    } else if candidates.first().1 {
        Some(candidates.first().0)
    } else {
        first_file(candidates.drop_first())
    }
}

/// What a list of candidates stands for.
pub open spec fn candidate_views(candidates: Seq<(String, bool)>) -> Seq<(Seq<char>, bool)> {
    candidates.map_values(|candidate: (String, bool)| (candidate.0@, candidate.1))
}

/// The client: the first of the candidates that is a file. Each candidate comes
/// with whether it is one.
pub fn resolve_executable(candidates: &Vec<(String, bool)>) -> (res: Result<String, String>)
    ensures
        outcome(res) == match first_file(candidate_views(candidates@)) {
            Some(path) => Ok::<Seq<char>, Seq<char>>(path),
            None => Err("未找到 ZCode 客户端，请先安装 ZCode"@),
        },
{
    let ghost all = candidate_views(candidates@);
    let mut i: usize = 0;
    assert(all.skip(0) =~= all);
    while i < candidates.len()
        invariant
            i <= candidates@.len(),
            all == candidate_views(candidates@),
            first_file(all) == first_file(all.skip(i as int)),
        decreases candidates@.len() - i,
    {
        assert(all.skip(i as int).first() == all[i as int]);
        assert(all.skip(i as int).drop_first() =~= all.skip(i + 1));
        if candidates[i].1 {
            return Ok(candidates[i].0.clone());
        }
        i = i + 1;
    }
    Err("未找到 ZCode 客户端，请先安装 ZCode".to_owned())
}

/// A process as the system lists it: its number, its name and its arguments, of
/// which the first is the program.
#[derive(Debug, PartialEq)]
pub struct ProcessInfo {
    pub pid: u32,
    pub name: String,
    pub command: Vec<String>,
}

/// What a `ProcessInfo` stands for.
pub struct ProcessView {
    pub pid: u32,
    pub name: Seq<char>,
    pub command: Seq<Seq<char>>,
}

impl DeepView for ProcessInfo {
    type V = ProcessView;

    open spec fn deep_view(&self) -> ProcessView {
        ProcessView { pid: self.pid, name: self.name@, command: self.command.deep_view() }
    }
}

/// Whether a process is a main process of the client, and none of its helpers.
pub open spec fn is_client(name: Seq<char>, command: Seq<Seq<char>>) -> bool {
    let line = ascii_lower(joined_with(command, " "@));
    &&& ascii_lower(name) == "zcode"@ || ascii_lower(name) == "zcode.exe"@
    &&& !occurs_in("--type="@, line)
    &&& !occurs_in("crashpad_handler"@, line)
}

/// Whether a process is a main process of the client, and none of its helpers.
pub fn is_main_process(name: &str, command: &Vec<String>) -> (res: bool)
    ensures
        res == is_client(name@, command.deep_view()),
{
    let name = name.to_ascii_lowercase();
    let line = join_texts(command, " ").as_str().to_ascii_lowercase();
    (same_text(name.as_str(), "zcode") || same_text(name.as_str(), "zcode.exe")) && !contains_text(
        line.as_str(),
        "--type=",
    ) && !contains_text(line.as_str(), "crashpad_handler")
}

/// The argument that tells the instance `id`.
pub open spec fn profile_marker(id: Seq<char>) -> Seq<char> {
    PROFILE_MARKER_PREFIX@ + id
}

/// Whether a command line is that of the instance `profile_id`, or, where none
/// is named, that of the client's own profile.
pub open spec fn is_of_profile(command: Seq<Seq<char>>, profile_id: Option<Seq<char>>) -> bool {
    match profile_id {
        Some(id) => command.contains(profile_marker(id)),
        None => forall|i: int|
            0 <= i < command.len() ==> !PROFILE_MARKER_PREFIX@.is_prefix_of(#[trigger] command[i]),
    }
}

/// Whether a command line is that of the instance `profile_id`, or, where none
/// is named, that of the client's own profile.
pub fn command_matches_profile(command: &Vec<String>, profile_id: Option<&str>) -> (res: bool)
    ensures
        res == is_of_profile(command.deep_view(), profile_id.deep_view()),
{
    match profile_id {
        Some(id) => lists_text(command.as_slice(), joined(PROFILE_MARKER_PREFIX, id).as_str()),
        None => {
            let ghost all = command.deep_view();
            let mut i: usize = 0;
            while i < command.len()
                invariant
                    i <= command@.len(),
                    all == command.deep_view(),
                    profile_id is None,
                    forall|k: int|
                        0 <= k < i ==> !PROFILE_MARKER_PREFIX@.is_prefix_of(#[trigger] all[k]),
                decreases command@.len() - i,
            {
                assert(all[i as int] == command@[i as int]@);
                if begins_with(command[i].as_str(), PROFILE_MARKER_PREFIX) {
                    return false;
                }
                i = i + 1;
            }
            true
        },
    }
}

/// Whether a process is the client's main process for a profile.
pub open spec fn runs_profile(process: ProcessView, profile_id: Option<Seq<char>>) -> bool {
    is_client(process.name, process.command) && is_of_profile(process.command, profile_id)
}

fn process_runs_profile(process: &ProcessInfo, profile_id: Option<&str>) -> (res: bool)
    ensures
        res == runs_profile(process.deep_view(), profile_id.deep_view()),
{
    is_main_process(process.name.as_str(), &process.command) && command_matches_profile(
        &process.command,
        profile_id,
    )
}

/// The first process with the number `pid`.
pub open spec fn process_with(processes: Seq<ProcessView>, pid: u32) -> Option<ProcessView>
    decreases processes.len(),
{
    if processes.len() == 0 {
        None
    } else if processes.first().pid == pid {
        Some(processes.first())
    } else {
        process_with(processes.drop_first(), pid)
    }
}

/// The number of the first process that is the client's main process for a
/// profile.
pub open spec fn first_running(processes: Seq<ProcessView>, profile_id: Option<Seq<char>>) -> Option<
    u32,
>
    decreases processes.len(),
{
    if processes.len() == 0 {
        None
    } else if runs_profile(processes.first(), profile_id) {
        Some(processes.first().pid)
    } else {
        first_running(processes.drop_first(), profile_id)
    }
}

/// The process of a profile: the one that was noted last, where it still runs
/// the profile, or else the first that does.
pub open spec fn process_of(
    processes: Seq<ProcessView>,
    profile_id: Option<Seq<char>>,
    last_pid: Option<u32>,
) -> Option<u32> {
    match last_pid {
        Some(pid) => match process_with(processes, pid) {
            Some(process) => if runs_profile(process, profile_id) {
                Some(pid)
            } else {
                first_running(processes, profile_id)
            },
            None => first_running(processes, profile_id),
        },
        None => first_running(processes, profile_id),
    }
}

fn noted_process_runs(processes: &Vec<ProcessInfo>, profile_id: Option<&str>, pid: u32) -> (res: bool)
    ensures
        res == match process_with(processes.deep_view(), pid) {
            Some(process) => runs_profile(process, profile_id.deep_view()),
            None => false,
        },
{
    let ghost all = processes.deep_view();
    let mut i: usize = 0;
    assert(all.skip(0) =~= all);
    while i < processes.len()
        invariant
            i <= processes@.len(),
            all == processes.deep_view(),
            process_with(all, pid) == process_with(all.skip(i as int), pid),
        decreases processes@.len() - i,
    {
        assert(all.skip(i as int).first() == processes@[i as int].deep_view());
        assert(all.skip(i as int).drop_first() =~= all.skip(i + 1));
        if processes[i].pid == pid {
            return process_runs_profile(&processes[i], profile_id);
        }
        i = i + 1;
    }
    false
}

/// The process of a profile among `processes`.
pub fn resolve_pid(
    processes: &Vec<ProcessInfo>,
    profile_id: Option<&str>,
    last_pid: Option<u32>,
) -> (res: Option<u32>)
    ensures
        res == process_of(processes.deep_view(), profile_id.deep_view(), last_pid),
{
    match last_pid {
        Some(pid) => {
            if noted_process_runs(processes, profile_id, pid) {
                return Some(pid);
            }
        },
        None => {},
    }
    let ghost all = processes.deep_view();
    let mut i: usize = 0;
    assert(all.skip(0) =~= all);
    while i < processes.len()
        invariant
            i <= processes@.len(),
            all == processes.deep_view(),
            process_of(all, profile_id.deep_view(), last_pid) == first_running(
                all.skip(i as int),
                profile_id.deep_view(),
            ),
        decreases processes@.len() - i,
    {
        assert(all.skip(i as int).first() == processes@[i as int].deep_view());
        assert(all.skip(i as int).drop_first() =~= all.skip(i + 1));
        if process_runs_profile(&processes[i], profile_id) {
            return Some(processes[i].pid);
        }
        i = i + 1;
    }
    None
}

/// A process is found for a profile if and only if one runs it, and the one that
/// is found does.
pub proof fn found_processes_run_the_profile(
    processes: Seq<ProcessView>,
    profile_id: Option<Seq<char>>,
    last_pid: Option<u32>,
)
    ensures
        match process_of(processes, profile_id, last_pid) {
            Some(pid) => exists|i: int|
                0 <= i < processes.len() && (#[trigger] processes[i]).pid == pid && runs_profile(
                    processes[i],
                    profile_id,
                ),
            None => forall|i: int|
                0 <= i < processes.len() ==> !runs_profile(#[trigger] processes[i], profile_id),
        },
{
    lemma_first_running(processes, profile_id);
    if last_pid is Some {
        lemma_process_with(processes, last_pid->0);
    }
}

proof fn lemma_first_running(processes: Seq<ProcessView>, profile_id: Option<Seq<char>>)
    ensures
        match first_running(processes, profile_id) {
            Some(pid) => exists|i: int|
                0 <= i < processes.len() && (#[trigger] processes[i]).pid == pid && runs_profile(
                    processes[i],
                    profile_id,
                ),
            None => forall|i: int|
                0 <= i < processes.len() ==> !runs_profile(#[trigger] processes[i], profile_id),
        },
    decreases processes.len(),
{
    if processes.len() > 0 {
        let rest = processes.drop_first();
        lemma_first_running(rest, profile_id);
        if runs_profile(processes.first(), profile_id) {
            assert(processes[0].pid == processes.first().pid);
        } else if first_running(rest, profile_id) is Some {
            let pid = first_running(rest, profile_id)->0;
            let k = choose|k: int|
                0 <= k < rest.len() && (#[trigger] rest[k]).pid == pid && runs_profile(
                    rest[k],
                    profile_id,
                );
            assert(processes[k + 1] == rest[k]);
        } else {
            assert forall|i: int| 0 <= i < processes.len() implies !runs_profile(
                #[trigger] processes[i],
                profile_id,
            ) by {
                if i > 0 {
                    assert(processes[i] == rest[i - 1]);
                }
            }
        }
    }
}

proof fn lemma_process_with(processes: Seq<ProcessView>, pid: u32)
    ensures
        process_with(processes, pid) is Some ==> exists|i: int|
            0 <= i < processes.len() && #[trigger] processes[i] == process_with(processes, pid)->0
                && processes[i].pid == pid,
    decreases processes.len(),
{
    if processes.len() > 0 {
        let rest = processes.drop_first();
        lemma_process_with(rest, pid);
        if processes.first().pid == pid {
            assert(processes[0] == processes.first());
        } else if process_with(rest, pid) is Some {
            let k = choose|k: int|
                0 <= k < rest.len() && #[trigger] rest[k] == process_with(rest, pid)->0
                    && rest[k].pid == pid;
            assert(processes[k + 1] == rest[k]);
        }
    }
}

/// The variables that the environment of a managed instance sets: its data and
/// its home lie below its root directory, and the secret of its credentials is
/// that of the user's real home.
pub open spec fn managed_environment(
    style: PathStyle,
    root: Seq<char>,
    instance_name: Seq<char>,
    secret: Seq<char>,
) -> Seq<(Seq<char>, Seq<char>)> {
    let electron = path_below(style, root, "electron"@);
    let data = path_below(style, root, "data"@);
    seq![
        ("ZCODE_DESKTOP_USER_DATA_DIR"@, electron),
        ("ZCODE_DESKTOP_SESSION_DATA_DIR"@, path_below(style, electron, "session"@)),
        ("ZCODE_DATA_BASE_DIR"@, data),
        ("ZCODE_DESKTOP_HOME_DIR"@, data),
        ("ZCODE_CREDENTIAL_SECRET"@, secret),
        ("HOME"@, data),
        ("USERPROFILE"@, data),
        ("ZCODE_DESKTOP_APPLICATION_NAME"@, "ZCode ["@ + instance_name + "]"@),
    ]
}

/// What a list of variables stands for.
pub open spec fn variables(pairs: Seq<(String, String)>) -> Seq<(Seq<char>, Seq<char>)> {
    pairs.map_values(|pair: (String, String)| (pair.0@, pair.1@))
}

/// The variables that the environment of a managed instance sets.
pub fn configure_managed_environment(
    root: &str,
    instance_name: &str,
    real_home: &str,
    host: &HostIdentity,
) -> (res: Vec<(String, String)>)
    ensures
        variables(res@) == managed_environment(
            style_of(host@.os),
            root@,
            instance_name@,
            secret_for_home(real_home@, host@),
        ),
{
    let style = path_style(host.os.as_str());
    let electron = join_path(style, root, "electron");
    let session = join_path(style, electron.as_str(), "session");
    let data = join_path(style, root, "data");
    let secret = credential_secret_for_home(real_home, host);
    let mut shown = joined("ZCode [", instance_name);
    shown.append("]");
    let mut res: Vec<(String, String)> = Vec::new();
    res.push(("ZCODE_DESKTOP_USER_DATA_DIR".to_owned(), electron));
    res.push(("ZCODE_DESKTOP_SESSION_DATA_DIR".to_owned(), session));
    res.push(("ZCODE_DATA_BASE_DIR".to_owned(), data.clone()));
    res.push(("ZCODE_DESKTOP_HOME_DIR".to_owned(), data.clone()));
    res.push(("ZCODE_CREDENTIAL_SECRET".to_owned(), secret));
    res.push(("HOME".to_owned(), data.clone()));
    res.push(("USERPROFILE".to_owned(), data));
    res.push(("ZCODE_DESKTOP_APPLICATION_NAME".to_owned(), shown));
    assert(variables(res@) =~= managed_environment(
        style_of(host@.os),
        root@,
        instance_name@,
        secret_for_home(real_home@, host@),
    ));
    res
}

/// A process that finds the secret of the user's real home in its environment
/// uses the key of the real home, wherever its own home lies: a managed instance
/// reads the credentials that were written for the user.
pub proof fn managed_instances_use_the_real_key(
    real_home: Seq<char>,
    host: HostIdentityView,
    own_home: Seq<char>,
    own_host: HostIdentityView,
)
    requires
        own_host.secret == Some(secret_for_home(real_home, host)),
    ensures
        secret_for_home(real_home, host).len() > 0,
        key_for_home(own_home, own_host) == key_for_home(real_home, host),
{
    reveal_strlit("zcode-credential-fallback:");
}

/// An account that was written into a credentials file under the key of the
/// user's real home is read by a managed instance that finds the secret of the
/// real home in its environment, wherever its own home lies.
pub proof fn managed_instances_read_the_account(
    text: Seq<char>,
    values: Members,
    account: AccountView,
    real_home: Seq<char>,
    host: HostIdentityView,
    own_home: Seq<char>,
    own_host: HostIdentityView,
    now: i64,
)
    requires
        is_file_with_account(text, values, account, key_for_home(real_home, host)),
        own_host.secret == Some(secret_for_home(real_home, host)),
    ensures
        ({
            let read = account_of_file(Some(Ok(text)), key_for_home(own_home, own_host), now);
            &&& read is Ok
            &&& read->Ok_0.provider == normalized_provider(account.provider)->Ok_0
            &&& read->Ok_0.access_token == account.access_token
            &&& read->Ok_0.refresh_token == normalized(account.refresh_token)
            &&& read->Ok_0.zcode_jwt_token == account.zcode_jwt_token
            &&& user_info_of(account).nested_within(max_nesting()) ==> is_of_user(
                read->Ok_0,
                user_info_of(account),
            )
        }),
{
    managed_instances_use_the_real_key(real_home, host, own_home, own_host);
    written_accounts_are_read_back(text, values, account, key_for_home(real_home, host), now);
}

/// What is to be started: the program, the variables that its environment sets,
/// its arguments, and the directory in which it is to run.
#[derive(Debug, PartialEq)]
pub struct LaunchPlan {
    pub executable: String,
    pub environment: Vec<(String, String)>,
    pub arguments: Vec<String>,
    pub working_dir: Option<String>,
}

/// What a `LaunchPlan` stands for.
pub struct LaunchPlanView {
    pub executable: Seq<char>,
    pub environment: Seq<(Seq<char>, Seq<char>)>,
    pub arguments: Seq<Seq<char>>,
    pub working_dir: Option<Seq<char>>,
}

impl DeepView for LaunchPlan {
    type V = LaunchPlanView;

    open spec fn deep_view(&self) -> LaunchPlanView {
        LaunchPlanView {
            executable: self.executable@,
            environment: variables(self.environment@),
            arguments: self.arguments.deep_view(),
            working_dir: self.working_dir.deep_view(),
        }
    }
}

/// How the client's own profile is started.
pub open spec fn default_launch(executable: Seq<char>, extra_args: Seq<Seq<char>>) -> LaunchPlanView {
    LaunchPlanView {
        executable,
        environment: Seq::empty(),
        arguments: extra_args,
        working_dir: None,
    }
}

fn push_texts(texts: &mut Vec<String>, more: &[String])
    ensures
        final(texts).deep_view() == old(texts).deep_view() + more.deep_view(),
{
    let ghost before = texts.deep_view();
    let mut i: usize = 0;
    assert(texts.deep_view() =~= before + more.deep_view().take(0));
    while i < more.len()
        invariant
            i <= more@.len(),
            texts.deep_view() == before + more.deep_view().take(i as int),
        decreases more@.len() - i,
    {
        let ghost now = texts.deep_view();
        texts.push(more[i].clone());
        assert(texts.deep_view() =~= now.push(more@[i as int]@));
        assert(more.deep_view().take(i + 1) =~= more.deep_view().take(i as int).push(
            more@[i as int]@,
        ));
        assert(texts.deep_view() =~= before + more.deep_view().take(i + 1));
        i = i + 1;
    }
    assert(more.deep_view().take(i as int) =~= more.deep_view());
}

/// How the client's own profile is started, where `executable` is what looking
/// for the client gave.
pub fn start_default(executable: Result<String, String>, extra_args: &[String]) -> (res: Result<
    LaunchPlan,
    String,
>)
    ensures
        outcome(res) == match executable {
            Ok(executable) => Ok::<LaunchPlanView, Seq<char>>(
                default_launch(executable@, extra_args.deep_view()),
            ),
            Err(message) => Err(message@),
        },
{
    let executable = match executable {
        Ok(executable) => executable,
        Err(message) => return Err(message),
    };
    let mut arguments: Vec<String> = Vec::new();
    push_texts(&mut arguments, extra_args);
    assert(arguments.deep_view() =~= extra_args.deep_view());
    let environment: Vec<(String, String)> = Vec::new();
    assert(variables(environment@) =~= Seq::<(Seq<char>, Seq<char>)>::empty());
    Ok(LaunchPlan { executable, environment, arguments, working_dir: None })
}

/// How a managed instance is started, with the secret of the user's real home.
pub open spec fn managed_launch(
    style: PathStyle,
    executable: Seq<char>,
    instance: InstanceView,
    extra_args: Seq<Seq<char>>,
    secret: Seq<char>,
) -> LaunchPlanView {
    LaunchPlanView {
        executable,
        environment: managed_environment(style, instance.user_data_dir, instance.name, secret),
        arguments: seq![profile_marker(instance.id)] + extra_args,
        working_dir: normalized(instance.working_dir),
    }
}

/// How a managed instance is started. `executable` is what looking for the
/// client gave, `prepared` is what making its directories and sanitizing its
/// settings gave, and `real_home` is the user's home.
pub fn start_managed(
    instance: &InstanceProfile,
    extra_args: &[String],
    executable: Result<String, String>,
    prepared: Result<(), String>,
    real_home: Option<&str>,
    host: &HostIdentity,
) -> (res: Result<LaunchPlan, String>)
    ensures
        outcome(res) == match (outcome(executable), checked(prepared), real_home) {
            (Err(message), _, _) => Err::<LaunchPlanView, Seq<char>>(message),
            (Ok(_), Err(message), _) => Err(message),
            (Ok(_), Ok(_), None) => Err("无法获取用户主目录"@),
            (Ok(executable), Ok(_), Some(home)) => Ok(
                managed_launch(
                    style_of(host@.os),
                    executable,
                    instance@,
                    extra_args.deep_view(),
                    secret_for_home(home@, host@),
                ),
            ),
        },
{
    let executable = match executable {
        Ok(executable) => executable,
        Err(message) => return Err(message),
    };
    match prepared {
        Ok(_) => {},
        Err(message) => return Err(message),
    }
    let real_home = match real_home {
        Some(home) => home,
        None => return Err("无法获取用户主目录".to_owned()),
    };
    let environment = configure_managed_environment(
        instance.user_data_dir.as_str(),
        instance.name.as_str(),
        real_home,
        host,
    );
    let mut arguments: Vec<String> = Vec::new();
    arguments.push(joined(PROFILE_MARKER_PREFIX, instance.id.as_str()));
    assert(arguments.deep_view() =~= seq![profile_marker(instance@.id)]);
    push_texts(&mut arguments, extra_args);
    let working_dir = normalize_optional(&instance.working_dir);
    Ok(LaunchPlan { executable, environment, arguments, working_dir })
}

/// The command line of a started program.
pub open spec fn command_line(plan: LaunchPlanView) -> Seq<Seq<char>> {
    seq![plan.executable] + plan.arguments
}

/// The process of a managed instance is told as that instance, never as the
/// client's own profile, and never as another instance unless the arguments
/// that were added or the program's name say so.
pub proof fn managed_processes_are_told_apart(
    style: PathStyle,
    executable: Seq<char>,
    instance: InstanceView,
    extra_args: Seq<Seq<char>>,
    secret: Seq<char>,
    other: Seq<char>,
)
    ensures
        ({
            let line = command_line(managed_launch(style, executable, instance, extra_args, secret));
            &&& is_of_profile(line, Some(instance.id))
            &&& !is_of_profile(line, None)
            &&& other != instance.id && executable != profile_marker(other)
                && !extra_args.contains(profile_marker(other)) ==> !is_of_profile(line, Some(other))
        }),
{
    let plan = managed_launch(style, executable, instance, extra_args, secret);
    let line = command_line(plan);
    assert(line[1] == profile_marker(instance.id));
    assert(profile_marker(instance.id).subrange(0, PROFILE_MARKER_PREFIX@.len() as int)
        =~= PROFILE_MARKER_PREFIX@);
    if other != instance.id && executable != profile_marker(other) && !extra_args.contains(
        profile_marker(other),
    ) {
        if line.contains(profile_marker(other)) {
            let k = choose|k: int| 0 <= k < line.len() && line[k] == profile_marker(other);
            if k == 1 {
                lemma_markers_differ(other, instance.id);
            } else if k >= 2 {
                assert(extra_args[k - 2] == line[k]);
            }
        }
    }
}

/// A command line that is told as a managed instance is never told as the
/// client's own profile.
pub proof fn profiles_exclude_each_other(command: Seq<Seq<char>>, id: Seq<char>)
    requires
        is_of_profile(command, Some(id)),
    ensures
        !is_of_profile(command, None),
{
    let k = choose|k: int| 0 <= k < command.len() && command[k] == profile_marker(id);
    assert(profile_marker(id).subrange(0, PROFILE_MARKER_PREFIX@.len() as int)
        =~= PROFILE_MARKER_PREFIX@);
    assert(PROFILE_MARKER_PREFIX@.is_prefix_of(command[k]));
}

proof fn lemma_markers_differ(first: Seq<char>, second: Seq<char>)
    requires
        first != second,
    ensures
        profile_marker(first) != profile_marker(second),
{
    let n = PROFILE_MARKER_PREFIX@.len() as int;
    assert(profile_marker(first).skip(n) =~= first);
    assert(profile_marker(second).skip(n) =~= second);
}

/// The process of the client's own profile is told as that profile, unless the
/// arguments that were added or the program's name say otherwise.
pub proof fn default_processes_are_told_apart(executable: Seq<char>, extra_args: Seq<Seq<char>>)
    requires
        !PROFILE_MARKER_PREFIX@.is_prefix_of(executable),
        forall|i: int|
            0 <= i < extra_args.len() ==> !PROFILE_MARKER_PREFIX@.is_prefix_of(
                #[trigger] extra_args[i],
            ),
    ensures
        is_of_profile(command_line(default_launch(executable, extra_args)), None),
{
    let line = command_line(default_launch(executable, extra_args));
    assert forall|i: int| 0 <= i < line.len() implies !PROFILE_MARKER_PREFIX@.is_prefix_of(
        #[trigger] line[i],
    ) by {
        if i > 0 {
            assert(line[i] == extra_args[i - 1]);
        }
    }
}

/// The messages of the profiles that could not be closed: the client's own
/// first, and then the instances in their order.
pub open spec fn closing_errors(
    instances: Seq<InstanceView>,
    default_closed: Result<(), Seq<char>>,
    closed: Seq<Result<(), Seq<char>>>,
) -> Seq<Seq<char>>
    decreases instances.len(),
{
    if instances.len() == 0 {
        match default_closed {
            Ok(_) => Seq::empty(),
            Err(message) => seq!["默认实例: "@ + message],
        }
    } else {
        let before = closing_errors(instances.drop_last(), default_closed, closed);
        match closed[instances.len() - 1] {
            Ok(_) => before,
            Err(message) => before.push(instances.last().name + ": "@ + message),
        }
    }
}

/// What a list of results stands for.
pub open spec fn all_checked(results: Seq<Result<(), String>>) -> Seq<Result<(), Seq<char>>> {
    results.map_values(|one: Result<(), String>| checked(one))
}

/// What closing all profiles comes to: the store without any process, or the
/// messages of those that could not be closed. `default_closed` and `closed`
/// are what closing the client's own profile and each instance gave; a profile
/// without a process counts as closed.
pub fn close_all(
    store: InstanceStore,
    default_closed: Result<(), String>,
    closed: &Vec<Result<(), String>>,
) -> (res: Result<InstanceStore, String>)
    requires
        closed@.len() == store.instances@.len(),
    ensures
        ({
            let errors = closing_errors(
                store@.instances,
                checked(default_closed),
                all_checked(closed@),
            );
            outcome(res) == if errors.len() == 0 {
                Ok::<StoreView, Seq<char>>(without_pids(store@))
            } else {
                Err("部分 ZCode 实例关闭失败: "@ + joined_with(errors, "; "@))
            }
        }),
{
    let ghost instances = store@.instances;
    let ghost first = checked(default_closed);
    let ghost each = all_checked(closed@);
    let mut errors: Vec<String> = Vec::new();
    match default_closed {
        Ok(_) => {},
        Err(message) => {
            errors.push(joined("默认实例: ", message.as_str()));
        },
    }
    let mut i: usize = 0;
    assert(errors.deep_view() =~= closing_errors(instances.take(0), first, each));
    while i < store.instances.len()
        invariant
            i <= store.instances@.len(),
            closed@.len() == store.instances@.len(),
            instances == store@.instances,
            each == all_checked(closed@),
            errors.deep_view() == closing_errors(instances.take(i as int), first, each),
        decreases store.instances@.len() - i,
    {
        let ghost before = errors.deep_view();
        assert(instances.take(i + 1).drop_last() =~= instances.take(i as int));
        assert(instances.take(i + 1).last() == store.instances@[i as int]@);
        assert(each[i as int] == checked(closed@[i as int]));
        match &closed[i] {
            Ok(_) => {},
            Err(message) => {
                let mut text = joined(store.instances[i].name.as_str(), ": ");
                text.append(message.as_str());
                let ghost view = text@;
                errors.push(text);
                assert(errors.deep_view() =~= before.push(view));
            },
        }
        i = i + 1;
    }
    assert(instances.take(i as int) =~= instances);
    assert(errors.deep_view().len() == errors@.len());
    if errors.len() == 0 {
        Ok(clear_all_pids(store))
    } else {
        Err(joined("部分 ZCode 实例关闭失败: ", join_texts(&errors, "; ").as_str()))
    }
}

/// The client is looked for at these places on each platform, in this order; on
/// Windows below the directories that are known.
pub proof fn platforms_have_their_candidates(
    os: Seq<char>,
    local: Option<Seq<char>>,
    program: Option<Seq<char>>,
)
    ensures
        ({
            let found = candidates_on(os, local, program);
            &&& os == "macos"@ ==> found == seq!["/Applications/ZCode.app/Contents/MacOS/ZCode"@]
            &&& os == "linux"@ ==> found.len() == 3 && found[0] == "/usr/bin/zcode"@ && found[1]
                == "/opt/ZCode/zcode"@ && found[2] == "/opt/zcode/zcode"@
            &&& os != "macos"@ && os != "linux"@ && os != "windows"@ ==> found.len() == 0
            &&& os == "windows"@ ==> {
                let below_local = path_below(
                    PathStyle::Windows,
                    local->0,
                    "Programs/ZCode/ZCode.exe"@,
                );
                let below_program = path_below(PathStyle::Windows, program->0, "ZCode/ZCode.exe"@);
                &&& local is Some ==> found.len() > 0 && found[0] == below_local
                &&& program is Some ==> found.len() > 0 && found.last() == below_program
                &&& local is Some && program is Some ==> found.len() == 2
                &&& local is Some != program is Some ==> found.len() == 1
                &&& local is None && program is None ==> found.len() == 0
            }
        }),
{
    reveal_strlit("macos");
    reveal_strlit("linux");
    reveal_strlit("windows");
    assert("macos"@[0] == 'm' && "linux"@[0] == 'l');
    assert("windows"@.len() == 7 && "macos"@.len() == 5 && "linux"@.len() == 5);
}

/// The client is the first of the candidates that is a file; there is none where
/// none of them is.
pub proof fn the_first_file_is_the_client(candidates: Seq<(Seq<char>, bool)>, at: int)
    ensures
        0 <= at < candidates.len() && candidates[at].1 && (forall|k: int|
            0 <= k < at ==> !(#[trigger] candidates[k]).1) ==> first_file(candidates) == Some(
            candidates[at].0,
        ),
        (forall|k: int| 0 <= k < candidates.len() ==> !(#[trigger] candidates[k]).1) ==> first_file(
            candidates,
        ) is None,
    decreases candidates.len(),
{
    if candidates.len() > 0 {
        assert(candidates.first() == candidates[0]);
        if !candidates[0].1 {
            let rest = candidates.drop_first();
            the_first_file_is_the_client(rest, at - 1);
            assert forall|k: int| 0 <= k < rest.len() implies #[trigger] rest[k] == candidates[k
                + 1] by {}
        }
    }
}

proof fn lemma_occurs_beside_space(part: Seq<char>, first: Seq<char>, second: Seq<char>)
    requires
        part.len() > 0,
        !part.contains(' '),
    ensures
        occurs_in(part, first + seq![' '] + second) <==> occurs_in(part, first) || occurs_in(
            part,
            second,
        ),
{
    let all = first + seq![' '] + second;
    let n = part.len() as int;
    if occurs_in(part, all) {
        let i = choose|i: int|
            0 <= i <= all.len() - part.len() && #[trigger] all.subrange(i, i + part.len()) == part;
        if i + n <= first.len() {
            assert(first.subrange(i, i + part.len()) =~= all.subrange(i, i + part.len()));
        } else if i > first.len() {
            let from = i - first.len() - 1;
            assert(second.subrange(from, from + part.len()) =~= all.subrange(i, i + part.len()));
        } else {
            assert(all[first.len() as int] == ' ');
            assert(all.subrange(i, i + part.len())[first.len() - i] == ' ');
        }
    }
    if occurs_in(part, first) {
        let i = choose|i: int|
            0 <= i <= first.len() - part.len() && #[trigger] first.subrange(i, i + part.len())
                == part;
        assert(all.subrange(i, i + part.len()) =~= part);
    }
    if occurs_in(part, second) {
        let i = choose|i: int|
            0 <= i <= second.len() - part.len() && #[trigger] second.subrange(i, i + part.len())
                == part;
        let from = i + first.len() + 1;
        assert(all.subrange(from, from + part.len()) =~= part);
    }
}

proof fn lemma_occurs_in_line(part: Seq<char>, command: Seq<Seq<char>>)
    requires
        part.len() > 0,
        !part.contains(' '),
    ensures
        occurs_in(part, ascii_lower(joined_with(command, " "@))) <==> exists|i: int|
            0 <= i < command.len() && occurs_in(part, ascii_lower(#[trigger] command[i])),
    decreases command.len(),
{
    reveal_strlit(" ");
    assert(" "@ =~= seq![' ']);
    if command.len() == 0 {
        assert(ascii_lower(joined_with(command, " "@)).len() == 0);
    } else if command.len() == 1 {
        assert(joined_with(command, " "@) == command[0]);
    } else {
        let before = command.drop_last();
        let line = joined_with(before, " "@);
        lemma_occurs_in_line(part, before);
        assert(joined_with(command, " "@) =~= line + seq![' '] + command.last());
        assert(ascii_lower(line + seq![' '] + command.last()) =~= ascii_lower(line) + seq![' ']
            + ascii_lower(command.last()));
        lemma_occurs_beside_space(part, ascii_lower(line), ascii_lower(command.last()));
        if occurs_in(part, ascii_lower(line)) {
            let i = choose|i: int|
                0 <= i < before.len() && occurs_in(part, ascii_lower(#[trigger] before[i]));
            assert(command[i] == before[i]);
        }
        if occurs_in(part, ascii_lower(command.last())) {
            assert(occurs_in(part, ascii_lower(command[command.len() - 1])));
        }
        if exists|i: int|
            0 <= i < command.len() && occurs_in(part, ascii_lower(#[trigger] command[i])) {
            let i = choose|i: int|
                0 <= i < command.len() && occurs_in(part, ascii_lower(#[trigger] command[i]));
            if i < before.len() {
                assert(before[i] == command[i]);
            }
        }
    }
}

/// A process is a main process of the client if and only if it is called `zcode`
/// or `zcode.exe`, in any case, and none of its arguments holds `--type=` or
/// `crashpad_handler`, in any case.
pub proof fn helpers_are_told_by_their_arguments(name: Seq<char>, command: Seq<Seq<char>>)
    ensures
        is_client(name, command) <==> {
            &&& ascii_lower(name) == "zcode"@ || ascii_lower(name) == "zcode.exe"@
            &&& forall|i: int|
                0 <= i < command.len() ==> {
                    &&& !occurs_in("--type="@, ascii_lower(#[trigger] command[i]))
                    &&& !occurs_in("crashpad_handler"@, ascii_lower(command[i]))
                }
        },
{
    reveal_strlit("--type=");
    reveal_strlit("crashpad_handler");
    lemma_occurs_in_line("--type="@, command);
    lemma_occurs_in_line("crashpad_handler"@, command);
}

/// A command line is that of an instance if and only if one of its arguments is
/// the marker with the identifier of the instance, and that of the client's own
/// profile if and only if none of them begins with the marker.
pub proof fn profiles_are_told_by_their_marker(command: Seq<Seq<char>>, id: Seq<char>)
    ensures
        is_of_profile(command, Some(id)) <==> exists|i: int|
            0 <= i < command.len() && #[trigger] command[i] == "--cockpit-zcode-profile="@ + id,
        is_of_profile(command, None) <==> forall|i: int|
            0 <= i < command.len() ==> !"--cockpit-zcode-profile="@.is_prefix_of(
                #[trigger] command[i],
            ),
{
    if is_of_profile(command, Some(id)) {
        let i = choose|i: int| 0 <= i < command.len() && command[i] == profile_marker(id);
        assert(command[i] == "--cockpit-zcode-profile="@ + id);
    }
}

/// A process runs a profile if and only if it is a main process of the client
/// and its command line is that of the profile.
pub proof fn processes_run_their_profile(process: ProcessView, profile_id: Option<Seq<char>>)
    ensures
        runs_profile(process, profile_id) <==> is_client(process.name, process.command)
            && is_of_profile(process.command, profile_id),
{
}

proof fn lemma_process_at(processes: Seq<ProcessView>, pid: u32, at: int)
    requires
        0 <= at < processes.len(),
        processes[at].pid == pid,
        forall|k: int| 0 <= k < at ==> (#[trigger] processes[k]).pid != pid,
    ensures
        process_with(processes, pid) == Some(processes[at]),
    decreases processes.len(),
{
    assert(processes.first() == processes[0]);
    if at > 0 {
        let rest = processes.drop_first();
        assert forall|k: int| 0 <= k < at - 1 implies (#[trigger] rest[k]).pid != pid by {
            assert(rest[k] == processes[k + 1]);
        }
        lemma_process_at(rest, pid, at - 1);
    }
}

proof fn lemma_running_at(processes: Seq<ProcessView>, profile_id: Option<Seq<char>>, at: int)
    requires
        0 <= at < processes.len(),
        runs_profile(processes[at], profile_id),
        forall|k: int| 0 <= k < at ==> !runs_profile(#[trigger] processes[k], profile_id),
    ensures
        first_running(processes, profile_id) == Some(processes[at].pid),
    decreases processes.len(),
{
    assert(processes.first() == processes[0]);
    if at > 0 {
        let rest = processes.drop_first();
        assert forall|k: int| 0 <= k < at - 1 implies !runs_profile(
            #[trigger] rest[k],
            profile_id,
        ) by {
            assert(rest[k] == processes[k + 1]);
        }
        lemma_running_at(rest, profile_id, at - 1);
    }
}

/// The process that was noted is found again where it still runs the profile,
/// whichever others do.
pub proof fn noted_processes_are_found_again(
    processes: Seq<ProcessView>,
    profile_id: Option<Seq<char>>,
    pid: u32,
    at: int,
)
    requires
        0 <= at < processes.len(),
        processes[at].pid == pid,
        forall|k: int| 0 <= k < at ==> (#[trigger] processes[k]).pid != pid,
        runs_profile(processes[at], profile_id),
    ensures
        process_of(processes, profile_id, Some(pid)) == Some(pid),
{
    lemma_process_at(processes, pid, at);
}

/// Where no process was noted, or the noted one is gone or runs something else,
/// the first process that runs the profile is found.
pub proof fn the_first_process_is_found_otherwise(
    processes: Seq<ProcessView>,
    profile_id: Option<Seq<char>>,
    noted: Option<u32>,
    at: int,
)
    requires
        0 <= at < processes.len(),
        runs_profile(processes[at], profile_id),
        forall|k: int| 0 <= k < at ==> !runs_profile(#[trigger] processes[k], profile_id),
        noted matches Some(pid) ==> forall|k: int|
            0 <= k < processes.len() && (#[trigger] processes[k]).pid == pid ==> !runs_profile(
                processes[k],
                profile_id,
            ),
    ensures
        process_of(processes, profile_id, noted) == Some(processes[at].pid),
{
    lemma_running_at(processes, profile_id, at);
    if noted is Some {
        lemma_process_with(processes, noted->0);
    }
}

/// A managed instance gets these eight variables: its window data, its session,
/// its data and its home lie below its root directory, the secret is the one
/// that is given, and its windows bear its name.
pub proof fn managed_instances_have_their_environment(
    style: PathStyle,
    root: Seq<char>,
    name: Seq<char>,
    secret: Seq<char>,
)
    ensures
        ({
            let environment = managed_environment(style, root, name, secret);
            let data = path_below(style, root, "data"@);
            let electron = path_below(style, root, "electron"@);
            &&& environment.len() == 8
            &&& environment.contains(("ZCODE_DESKTOP_USER_DATA_DIR"@, electron))
            &&& environment.contains(
                ("ZCODE_DESKTOP_SESSION_DATA_DIR"@, path_below(style, electron, "session"@)),
            )
            &&& environment.contains(("ZCODE_DATA_BASE_DIR"@, data))
            &&& environment.contains(("ZCODE_DESKTOP_HOME_DIR"@, data))
            &&& environment.contains(("ZCODE_CREDENTIAL_SECRET"@, secret))
            &&& environment.contains(("HOME"@, data))
            &&& environment.contains(("USERPROFILE"@, data))
            &&& environment.contains(
                ("ZCODE_DESKTOP_APPLICATION_NAME"@, "ZCode ["@ + name + "]"@),
            )
        }),
{
    let environment = managed_environment(style, root, name, secret);
    let data = path_below(style, root, "data"@);
    assert(environment[0].0 == "ZCODE_DESKTOP_USER_DATA_DIR"@);
    assert(environment[1].0 == "ZCODE_DESKTOP_SESSION_DATA_DIR"@);
    assert(environment[2] == ("ZCODE_DATA_BASE_DIR"@, data));
    assert(environment[3] == ("ZCODE_DESKTOP_HOME_DIR"@, data));
    assert(environment[4] == ("ZCODE_CREDENTIAL_SECRET"@, secret));
    assert(environment[5] == ("HOME"@, data));
    assert(environment[6] == ("USERPROFILE"@, data));
    assert(environment[7].0 == "ZCODE_DESKTOP_APPLICATION_NAME"@);
}

/// The client's own profile is started with the arguments that are given and in
/// the environment as it is.
pub proof fn the_own_profile_starts_as_it_is(executable: Seq<char>, extra_args: Seq<Seq<char>>)
    ensures
        ({
            let plan = default_launch(executable, extra_args);
            &&& plan.executable == executable
            &&& plan.arguments == extra_args
            &&& plan.environment.len() == 0
            &&& plan.working_dir is None
        }),
{
}

/// A managed instance is started with its marker before the arguments that are
/// given, in its environment, and in its working directory where it has one.
pub proof fn managed_instances_start_with_their_marker(
    style: PathStyle,
    executable: Seq<char>,
    instance: InstanceView,
    extra_args: Seq<Seq<char>>,
    secret: Seq<char>,
)
    ensures
        ({
            let plan = managed_launch(style, executable, instance, extra_args, secret);
            &&& plan.executable == executable
            &&& plan.arguments.len() == extra_args.len() + 1
            &&& plan.arguments[0] == "--cockpit-zcode-profile="@ + instance.id
            &&& plan.arguments.skip(1) == extra_args
            &&& plan.environment == managed_environment(
                style,
                instance.user_data_dir,
                instance.name,
                secret,
            )
            &&& instance.working_dir is Some && trimmed(instance.working_dir->0).len() > 0
                ==> plan.working_dir == Some(trimmed(instance.working_dir->0))
            &&& instance.working_dir is None || trimmed(instance.working_dir->0).len() == 0
                ==> plan.working_dir is None
        }),
{
    assert(managed_launch(style, executable, instance, extra_args, secret).arguments.skip(1)
        =~= extra_args);
}

proof fn lemma_closing_looks_at_its_own(
    instances: Seq<InstanceView>,
    default_closed: Result<(), Seq<char>>,
    closed: Seq<Result<(), Seq<char>>>,
    next: Result<(), Seq<char>>,
)
    requires
        instances.len() <= closed.len(),
    ensures
        closing_errors(instances, default_closed, closed.push(next)) == closing_errors(
            instances,
            default_closed,
            closed,
        ),
    decreases instances.len(),
{
    if instances.len() > 0 {
        lemma_closing_looks_at_its_own(instances.drop_last(), default_closed, closed, next);
    }
}

/// Each profile that could not be closed is reported with its name and its
/// message, the client's own first and the instances in their order, and no
/// other is.
pub proof fn unclosed_profiles_are_reported(
    instances: Seq<InstanceView>,
    instance: InstanceView,
    default_closed: Result<(), Seq<char>>,
    closed: Seq<Result<(), Seq<char>>>,
    next: Result<(), Seq<char>>,
)
    requires
        closed.len() == instances.len(),
    ensures
        default_closed is Ok ==> closing_errors(Seq::empty(), default_closed, Seq::empty()).len()
            == 0,
        default_closed matches Err(message) ==> closing_errors(
            Seq::empty(),
            default_closed,
            Seq::empty(),
        ) == seq!["默认实例: "@ + message],
        next is Ok ==> closing_errors(instances.push(instance), default_closed, closed.push(next))
            == closing_errors(instances, default_closed, closed),
        next matches Err(message) ==> closing_errors(
            instances.push(instance),
            default_closed,
            closed.push(next),
        ) == closing_errors(instances, default_closed, closed).push(
            instance.name + ": "@ + message,
        ),
{
    assert(instances.push(instance).drop_last() =~= instances);
    lemma_closing_looks_at_its_own(instances, default_closed, closed, next);
}

/// What is seen of a process is the process, and what is seen of a plan is the
/// plan.
pub proof fn plans_are_seen_whole(process: ProcessInfo, plan: LaunchPlan, i: int)
    ensures
        process.deep_view().pid == process.pid,
        process.deep_view().name == process.name@,
        process.deep_view().command == process.command.deep_view(),
        plan.deep_view().executable == plan.executable@,
        plan.deep_view().arguments == plan.arguments.deep_view(),
        plan.deep_view().working_dir == plan.working_dir.deep_view(),
        plan.deep_view().environment.len() == plan.environment@.len(),
        0 <= i < plan.environment@.len() ==> plan.deep_view().environment[i] == (
            plan.environment@[i].0@,
            plan.environment@[i].1@,
        ),
{
}

/// What is seen of candidates and of results are the candidates and the results,
/// each in its place.
pub proof fn lists_are_seen_whole(
    candidates: Seq<(String, bool)>,
    results: Seq<Result<(), String>>,
    i: int,
)
    ensures
        candidate_views(candidates).len() == candidates.len(),
        0 <= i < candidates.len() ==> candidate_views(candidates)[i] == (
            candidates[i].0@,
            candidates[i].1,
        ),
        all_checked(results).len() == results.len(),
        0 <= i < results.len() ==> all_checked(results)[i] == checked(results[i]),
{
}

/// The client is the first candidate that is a file, and an error where none is.
pub proof fn the_client_is_found_or_missed(
    candidates: &Vec<(String, bool)>,
    res: Result<String, String>,
    at: int,
)
    requires
        call_ensures(resolve_executable, (candidates,), res),
    ensures
        0 <= at < candidates@.len() && candidates@[at].1 && (forall|k: int|
            0 <= k < at ==> !(#[trigger] candidates@[k]).1) ==> res is Ok && res->Ok_0@
            == candidates@[at].0@,
        (forall|k: int| 0 <= k < candidates@.len() ==> !(#[trigger] candidates@[k]).1) ==> res is Err
            && res->Err_0@ == "未找到 ZCode 客户端，请先安装 ZCode"@,
{
    let views = candidate_views(candidates@);
    assert forall|k: int| 0 <= k < candidates@.len() implies #[trigger] views[k] == (
        candidates@[k].0@,
        candidates@[k].1,
    ) by {}
    the_first_file_is_the_client(views, at);
}

/// The candidates on a platform are those at its places.
pub proof fn candidates_are_those_of_the_platform(
    os: &str,
    local: Option<&str>,
    program: Option<&str>,
    res: Vec<String>,
)
    requires
        call_ensures(executable_candidates, (os, local, program), res),
    ensures
        os@ == "macos"@ ==> res@.len() == 1 && res@[0]@
            == "/Applications/ZCode.app/Contents/MacOS/ZCode"@,
        os@ == "linux"@ ==> res@.len() == 3 && res@[0]@ == "/usr/bin/zcode"@ && res@[1]@
            == "/opt/ZCode/zcode"@ && res@[2]@ == "/opt/zcode/zcode"@,
        os@ == "windows"@ && local is Some ==> res@.len() > 0 && res@[0]@ == path_below(
            PathStyle::Windows,
            local->0@,
            "Programs/ZCode/ZCode.exe"@,
        ),
        os@ == "windows"@ && program is Some ==> res@.len() > 0 && res@.last()@ == path_below(
            PathStyle::Windows,
            program->0@,
            "ZCode/ZCode.exe"@,
        ),
        os@ == "windows"@ ==> res@.len() == (if local is Some {
            1int
        } else {
            0int
        }) + (if program is Some {
            1int
        } else {
            0int
        }),
{
    platforms_have_their_candidates(os@, local.deep_view(), program.deep_view());
    let seen = res.deep_view();
    assert(seen.len() == res@.len());
    assert forall|k: int| 0 <= k < res@.len() implies seen[k] == #[trigger] res@[k]@ by {}
    if os@ == "macos"@ {
        assert(seen[0] == res@[0]@);
    }
    if os@ == "linux"@ {
        assert(seen[0] == res@[0]@ && seen[1] == res@[1]@ && seen[2] == res@[2]@);
    }
    if os@ == "windows"@ && res@.len() > 0 {
        assert(seen[0] == res@[0]@);
        assert(seen[res@.len() - 1] == res@[res@.len() - 1]@);
    }
}

/// A process is taken for the client by its name and its arguments, and for that
/// of a profile by its marker.
pub proof fn processes_are_told_by_name_and_arguments(
    name: &str,
    command: &Vec<String>,
    id: &str,
    is_main: bool,
    is_managed: bool,
    is_own: bool,
)
    requires
        call_ensures(is_main_process, (name, command), is_main),
        call_ensures(command_matches_profile, (command, Some(id)), is_managed),
        call_ensures(command_matches_profile, (command, None), is_own),
    ensures
        is_main <==> {
            &&& ascii_lower(name@) == "zcode"@ || ascii_lower(name@) == "zcode.exe"@
            &&& forall|i: int|
                0 <= i < command@.len() ==> {
                    &&& !occurs_in("--type="@, ascii_lower((#[trigger] command@[i])@))
                    &&& !occurs_in("crashpad_handler"@, ascii_lower(command@[i]@))
                }
        },
        is_managed <==> exists|i: int|
            0 <= i < command@.len() && (#[trigger] command@[i])@ == "--cockpit-zcode-profile="@
                + id@,
        is_own <==> forall|i: int|
            0 <= i < command@.len() ==> !"--cockpit-zcode-profile="@.is_prefix_of(
                (#[trigger] command@[i])@,
            ),
{
    let line = command.deep_view();
    assert forall|i: int| 0 <= i < command@.len() implies line[i] == #[trigger] command@[i]@ by {}
    assert forall|i: int| 0 <= i < line.len() implies #[trigger] line[i] == command@[i]@ by {}
    helpers_are_told_by_their_arguments(name@, line);
    profiles_are_told_by_their_marker(line, id@);
    if is_managed {
        let i = choose|i: int|
            0 <= i < line.len() && #[trigger] line[i] == "--cockpit-zcode-profile="@ + id@;
        assert(command@[i]@ == "--cockpit-zcode-profile="@ + id@);
    }
}

/// The process of a profile is the noted one where that still runs it, else the
/// first that does, and none where none does.
pub proof fn processes_are_resolved(
    processes: &Vec<ProcessInfo>,
    profile_id: Option<&str>,
    noted: Option<u32>,
    res: Option<u32>,
    at: int,
)
    requires
        call_ensures(resolve_pid, (processes, profile_id, noted), res),
    ensures
        ({
            let seen = processes.deep_view();
            let runs = |k: int| runs_profile(seen[k], profile_id.deep_view());
            &&& noted is Some && 0 <= at < seen.len() && seen[at].pid == noted->0 && runs(at)
                && (forall|k: int| 0 <= k < at ==> (#[trigger] seen[k]).pid != noted->0) ==> res
                == noted
            &&& noted is None && 0 <= at < seen.len() && runs(at) && (forall|k: int|
                0 <= k < at ==> !#[trigger] runs(k)) ==> res == Some(seen[at].pid)
            &&& res is None <==> forall|k: int| 0 <= k < seen.len() ==> !#[trigger] runs(k)
            &&& res is Some ==> exists|k: int|
                0 <= k < seen.len() && seen[k].pid == res->0 && #[trigger] runs(k)
        }),
{
    let seen = processes.deep_view();
    let profile = profile_id.deep_view();
    let runs = |k: int| runs_profile(seen[k], profile);
    found_processes_run_the_profile(seen, profile, noted);
    if noted is Some && 0 <= at < seen.len() && seen[at].pid == noted->0 && runs(at) && (forall|
        k: int,
    |
        0 <= k < at ==> (#[trigger] seen[k]).pid != noted->0) {
        noted_processes_are_found_again(seen, profile, noted->0, at);
    }
    if noted is None && 0 <= at < seen.len() && runs(at) && (forall|k: int|
        0 <= k < at ==> !#[trigger] runs(k)) {
        assert forall|k: int| 0 <= k < at implies !runs_profile(#[trigger] seen[k], profile) by {
            assert(!runs(k));
        }
        the_first_process_is_found_otherwise(seen, profile, noted, at);
    }
    if res is Some {
        let k = choose|k: int|
            0 <= k < seen.len() && (#[trigger] seen[k]).pid == res->0 && runs_profile(
                seen[k],
                profile,
            );
        assert(runs(k));
    } else {
        assert forall|k: int| 0 <= k < seen.len() implies !#[trigger] runs(k) by {
            assert(!runs_profile(seen[k], profile));
        }
    }
}

/// The environment of a managed instance sets its own directories, and the
/// secret of the user's real home.
pub proof fn environments_are_of_the_instance(
    root: &str,
    name: &str,
    real_home: &str,
    host: &HostIdentity,
    res: Vec<(String, String)>,
)
    requires
        call_ensures(configure_managed_environment, (root, name, real_home, host), res),
    ensures
        ({
            let style = style_of(host@.os);
            let data = path_below(style, root@, "data"@);
            let electron = path_below(style, root@, "electron"@);
            let set = variables(res@);
            &&& set.len() == 8
            &&& res@.len() == 8
            &&& set.contains(("ZCODE_DESKTOP_USER_DATA_DIR"@, electron))
            &&& set.contains(
                ("ZCODE_DESKTOP_SESSION_DATA_DIR"@, path_below(style, electron, "session"@)),
            )
            &&& set.contains(("ZCODE_DATA_BASE_DIR"@, data))
            &&& set.contains(("ZCODE_DESKTOP_HOME_DIR"@, data))
            &&& set.contains(("ZCODE_CREDENTIAL_SECRET"@, secret_for_home(real_home@, host@)))
            &&& set.contains(("HOME"@, data))
            &&& set.contains(("USERPROFILE"@, data))
            &&& set.contains(("ZCODE_DESKTOP_APPLICATION_NAME"@, "ZCode ["@ + name@ + "]"@))
        }),
{
    managed_instances_have_their_environment(
        style_of(host@.os),
        root@,
        name@,
        secret_for_home(real_home@, host@),
    );
}

/// The client's own profile is started with the client and the arguments that
/// are given, and with nothing else.
pub proof fn own_profiles_are_started(
    executable: Result<String, String>,
    extra_args: &[String],
    res: Result<LaunchPlan, String>,
)
    requires
        call_ensures(start_default, (executable, extra_args), res),
    ensures
        executable is Err ==> res is Err && res->Err_0@ == executable->Err_0@,
        executable is Ok ==> res is Ok && {
            &&& res->Ok_0.executable@ == executable->Ok_0@
            &&& res->Ok_0.arguments.deep_view() == extra_args.deep_view()
            &&& res->Ok_0.environment@.len() == 0
            &&& res->Ok_0.working_dir is None
        },
{
    if executable is Ok {
        let plan = res->Ok_0;
        assert(plan.deep_view() == default_launch(executable->Ok_0@, extra_args.deep_view()));
        assert(variables(plan.environment@).len() == plan.environment@.len());
    }
}

/// A managed instance is started where the client is there, its directories were
/// prepared and the user's home is known, asked in this order: with its marker
/// and then the arguments that are given, in its own environment under the secret
/// of the real home, and in its working directory.
pub proof fn managed_instances_are_started(
    instance: &InstanceProfile,
    extra_args: &[String],
    executable: Result<String, String>,
    prepared: Result<(), String>,
    real_home: Option<&str>,
    host: &HostIdentity,
    res: Result<LaunchPlan, String>,
)
    requires
        call_ensures(
            start_managed,
            (instance, extra_args, executable, prepared, real_home, host),
            res,
        ),
    ensures
        executable is Err ==> res is Err && res->Err_0@ == executable->Err_0@,
        executable is Ok && prepared is Err ==> res is Err && res->Err_0@ == prepared->Err_0@,
        executable is Ok && prepared is Ok && real_home is None ==> res is Err && res->Err_0@
            == "无法获取用户主目录"@,
        executable is Ok && prepared is Ok && real_home is Some ==> res is Ok && {
            let plan = res->Ok_0.deep_view();
            let directory = instance.working_dir.deep_view();
            &&& plan.executable == executable->Ok_0@
            &&& plan.arguments == seq!["--cockpit-zcode-profile="@ + instance.id@]
                + extra_args.deep_view()
            &&& plan.environment == managed_environment(
                style_of(host@.os),
                instance.user_data_dir@,
                instance.name@,
                secret_for_home(real_home->0@, host@),
            )
            &&& directory is Some && trimmed(directory->0).len() > 0 ==> plan.working_dir == Some(
                trimmed(directory->0),
            )
            &&& directory is None || trimmed(directory->0).len() == 0 ==> plan.working_dir is None
        },
{
}

/// Closing all profiles clears their processes where each could be closed, and
/// else reports each that could not.
pub proof fn all_profiles_are_closed_or_reported(
    store: InstanceStore,
    default_closed: Result<(), String>,
    closed: &Vec<Result<(), String>>,
    res: Result<InstanceStore, String>,
    k: int,
)
    requires
        closed@.len() == store.instances@.len(),
        call_ensures(close_all, (store, default_closed, closed), res),
    ensures
        res is Ok <==> default_closed is Ok && forall|i: int|
            0 <= i < closed@.len() ==> (#[trigger] closed@[i]) is Ok,
        res is Ok ==> {
            let after = res->Ok_0@;
            &&& after.instances.len() == store@.instances.len()
            &&& 0 <= k < store@.instances.len() ==> after.instances[k] == (InstanceView {
                last_pid: None,
                ..store@.instances[k]
            })
            &&& after.default_settings == (SettingsView { last_pid: None, ..store@.default_settings })
        },
        res is Err ==> res->Err_0@ == "部分 ZCode 实例关闭失败: "@ + joined_with(
            closing_errors(store@.instances, checked(default_closed), all_checked(closed@)),
            "; "@,
        ),
{
    lemma_no_errors(store@.instances, checked(default_closed), all_checked(closed@));
    let each = all_checked(closed@);
    assert forall|i: int| 0 <= i < closed@.len() implies (#[trigger] closed@[i] is Ok
        <==> each[i] is Ok) by {
        assert(each[i] == checked(closed@[i]));
    }
    assert forall|i: int| 0 <= i < closed@.len() implies (#[trigger] each[i] is Ok
        <==> closed@[i] is Ok) by {
        assert(each[i] == checked(closed@[i]));
    }
}

proof fn lemma_no_errors(
    instances: Seq<InstanceView>,
    default_closed: Result<(), Seq<char>>,
    closed: Seq<Result<(), Seq<char>>>,
)
    requires
        instances.len() <= closed.len(),
    ensures
        closing_errors(instances, default_closed, closed).len() == 0 <==> default_closed is Ok
            && forall|i: int| 0 <= i < instances.len() ==> (#[trigger] closed[i]) is Ok,
    decreases instances.len(),
{
    if instances.len() > 0 {
        lemma_no_errors(instances.drop_last(), default_closed, closed);
        let last = instances.len() - 1;
        if closed[last] is Err {
            assert(!(closed[last] is Ok));
        }
    }
}

}
