//! Registering the helper as a background service that starts by itself. What
//! has to be done on each operating system is computed here as a list of steps;
//! carrying them out is left to the caller.

use crate::paths::{
    binary_path, binary_path_of, install_dir, install_dir_of, launch_agents_dir,
    launch_agents_dir_of, log_dir, log_dir_of, plist_path, plist_path_of, unit_dir, unit_dir_of,
    unit_path, unit_path_of, BaseDirs, APP_LABEL,
};
use crate::platform::{
    concat_text, join_path, joined, same_but_for_ascii_case, same_text_ignoring_ascii_case, texts,
    Platform,
};
use vstd::prelude::*;
use vstd::string::StringExecFns;

verus! {

/// The unit file up to the path of the binary.
pub const UNIT_FILE_HEAD: &'static str =
    "[Unit]\nDescription=Edge Copilot Helper - Bypass Microsoft Edge Copilot region restrictions\nAfter=default.target\n\n[Service]\nType=simple\nExecStart=";

/// The unit file after the path of the binary.
pub const UNIT_FILE_TAIL: &'static str =
    " daemon\nRestart=always\nRestartSec=5\n\n[Install]\nWantedBy=default.target\n";

/// The property list up to the label.
pub const PLIST_HEAD: &'static str =
    "<?xml version=\"1.0\" encoding=\"UTF-8\"?>\n<!DOCTYPE plist PUBLIC \"-//Apple//DTD PLIST 1.0//EN\" \"http://www.apple.com/DTDs/PropertyList-1.0.dtd\">\n<plist version=\"1.0\">\n<dict>\n    <key>Label</key>\n    <string>";

/// The property list between the label and the path of the binary.
pub const PLIST_PROGRAM: &'static str =
    "</string>\n    <key>ProgramArguments</key>\n    <array>\n        <string>";

/// The property list between the path of the binary and the file for standard
/// output.
pub const PLIST_STDOUT: &'static str =
    "</string>\n        <string>daemon</string>\n    </array>\n    <key>RunAtLoad</key>\n    <true/>\n    <key>KeepAlive</key>\n    <true/>\n    <key>StandardOutPath</key>\n    <string>";

/// The property list between the files for standard output and standard error.
pub const PLIST_STDERR: &'static str = "</string>\n    <key>StandardErrorPath</key>\n    <string>";

/// The end of the property list.
pub const PLIST_TAIL: &'static str = "</string>\n</dict>\n</plist>\n";

/// The registry key under which programs start at login, on Windows.
pub const REG_PATH: &'static str = "HKCU\\Software\\Microsoft\\Windows\\CurrentVersion\\Run";

/// The name of the helper's value under that key.
pub const REG_KEY_NAME: &'static str = "EdgeCopilotHelper";

/// One step of installing or removing the service.
#[derive(Debug, PartialEq)]
pub enum ServiceStep {
    /// Stop the other running instances of the helper.
    StopInstances,
    /// Create the directory, with its parents. A failure ends the procedure.
    CreateDir { path: String },
    /// Copy the running executable to `to`. A failure ends the procedure.
    CopyBinary { to: String },
    /// Make the file executable. A failure ends the procedure.
    MakeExecutable { path: String },
    /// Write the file. A failure ends the procedure.
    WriteFile { path: String, content: String },
    /// Remove the file if it exists. A failure ends the procedure where
    /// `required` is set.
    RemoveFile { path: String, required: bool },
    /// Remove the directory and all it holds, if it exists. A failure ends the
    /// procedure.
    RemoveDir { path: String },
    /// Run the program with the arguments. Where `failure` holds a message, a
    /// program that cannot be run or does not succeed ends the procedure with
    /// it; otherwise the outcome is not looked at.
    Run { program: String, args: Vec<String>, failure: Option<String> },
}

/// A [`ServiceStep`] over sequences of characters.
pub enum StepModel {
    StopInstances,
    CreateDir { path: Seq<char> },
    CopyBinary { to: Seq<char> },
    MakeExecutable { path: Seq<char> },
    WriteFile { path: Seq<char>, content: Seq<char> },
    RemoveFile { path: Seq<char>, required: bool },
    RemoveDir { path: Seq<char> },
    Run { program: Seq<char>, args: Seq<Seq<char>>, failure: Option<Seq<char>> },
}

impl View for ServiceStep {
    type V = StepModel;

    open spec fn view(&self) -> StepModel {
        match self {
            ServiceStep::StopInstances => StepModel::StopInstances,
            ServiceStep::CreateDir { path } => StepModel::CreateDir { path: path@ },
            ServiceStep::CopyBinary { to } => StepModel::CopyBinary { to: to@ },
            ServiceStep::MakeExecutable { path } => StepModel::MakeExecutable { path: path@ },
            ServiceStep::WriteFile { path, content } => StepModel::WriteFile {
                path: path@,
                content: content@,
            },
            ServiceStep::RemoveFile { path, required } => StepModel::RemoveFile {
                path: path@,
                required: *required,
            },
            ServiceStep::RemoveDir { path } => StepModel::RemoveDir { path: path@ },
            ServiceStep::Run { program, args, failure } => StepModel::Run {
                program: program@,
                args: texts(args@),
                failure: match failure {
                    Some(message) => Some(message@),
                    None => None,
                },
            },
        }
    }
}

/// The models of a list of steps.
pub open spec fn steps_model(steps: Seq<ServiceStep>) -> Seq<StepModel> {
    steps.map_values(|step: ServiceStep| step@)
}

/// The systemd unit that runs the binary at `binary` as a daemon.
pub open spec fn unit_file(binary: Seq<char>) -> Seq<char> {
    UNIT_FILE_HEAD@ + binary + UNIT_FILE_TAIL@
}

/// The launch agent that runs the binary at `binary` as a daemon and sends its
/// output to `service.log` and `service.err` in `log_dir`.
pub open spec fn plist(binary: Seq<char>, log_dir: Seq<char>) -> Seq<char> {
    PLIST_HEAD@ + APP_LABEL@ + PLIST_PROGRAM@ + binary + PLIST_STDOUT@ + joined(
        Platform::MacOs,
        log_dir,
        "service.log"@,
    ) + PLIST_STDERR@ + joined(Platform::MacOs, log_dir, "service.err"@) + PLIST_TAIL@
}

/// The command line that the registry starts at login.
pub open spec fn registry_command(binary: Seq<char>) -> Seq<char> {
    "\""@ + binary + "\" daemon"@
}

/// A call of `systemctl` for the user's services.
pub open spec fn systemctl(args: Seq<Seq<char>>, failure: Option<Seq<char>>) -> StepModel {
    StepModel::Run { program: "systemctl"@, args: seq!["--user"@] + args, failure }
}

/// The call of `launchctl` that unloads the launch agent of the user `uid`.
pub open spec fn bootout(uid: Seq<char>, dirs: BaseDirs) -> StepModel {
    StepModel::Run {
        program: "launchctl"@,
        args: seq!["bootout"@, "gui/"@ + uid, plist_path_of(dirs)],
        failure: None,
    }
}

/// The steps that install the service. `uid` is the user's numeric id, which
/// only macOS asks for.
pub open spec fn install_plan(platform: Platform, dirs: BaseDirs, uid: Seq<char>) -> Seq<
    StepModel,
> {
    let install = install_dir_of(platform, dirs);
    let logs = log_dir_of(platform, dirs);
    let binary = binary_path_of(platform, dirs);
    match platform {
        Platform::Linux => seq![
            StepModel::CreateDir { path: install },
            StepModel::CreateDir { path: logs },
            StepModel::CreateDir { path: unit_dir_of(dirs) },
            StepModel::CopyBinary { to: binary },
            StepModel::MakeExecutable { path: binary },
            systemctl(seq!["stop"@, APP_LABEL@], None),
            systemctl(seq!["disable"@, APP_LABEL@], None),
            StepModel::WriteFile { path: unit_path_of(dirs), content: unit_file(binary) },
            systemctl(seq!["daemon-reload"@], Some("Failed to reload systemd daemon"@)),
            systemctl(seq!["enable"@, APP_LABEL@], Some("Failed to enable service"@)),
            systemctl(seq!["start"@, APP_LABEL@], Some("Failed to start service"@)),
        ],
        Platform::MacOs => seq![
            StepModel::CreateDir { path: install },
            StepModel::CreateDir { path: logs },
            StepModel::CreateDir { path: launch_agents_dir_of(dirs) },
            StepModel::CopyBinary { to: binary },
            StepModel::MakeExecutable { path: binary },
            bootout(uid, dirs),
            StepModel::WriteFile { path: plist_path_of(dirs), content: plist(binary, logs) },
            StepModel::Run {
                program: "launchctl"@,
                args: seq!["load"@, "-w"@, plist_path_of(dirs)],
                failure: Some("Failed to load Launch Agent"@),
            },
        ],
        Platform::Windows => seq![
            StepModel::StopInstances,
            StepModel::CreateDir { path: install },
            StepModel::CreateDir { path: logs },
            StepModel::RemoveFile { path: binary, required: false },
            StepModel::CopyBinary { to: binary },
            StepModel::Run {
                program: "reg"@,
                args: seq![
                    "add"@,
                    REG_PATH@,
                    "/v"@,
                    REG_KEY_NAME@,
                    "/t"@,
                    "REG_SZ"@,
                    "/d"@,
                    registry_command(binary),
                    "/f"@,
                ],
                failure: Some("Failed to add registry entry for startup"@),
            },
        ],
    }
}

/// The steps that remove the service and what was installed with it.
pub open spec fn uninstall_plan(platform: Platform, dirs: BaseDirs, uid: Seq<char>) -> Seq<
    StepModel,
> {
    let install = install_dir_of(platform, dirs);
    match platform {
        Platform::Linux => seq![
            systemctl(seq!["stop"@, APP_LABEL@], None),
            systemctl(seq!["disable"@, APP_LABEL@], None),
            StepModel::RemoveFile { path: unit_path_of(dirs), required: true },
            systemctl(seq!["daemon-reload"@], None),
            StepModel::RemoveDir { path: install },
        ],
        Platform::MacOs => seq![
            bootout(uid, dirs),
            StepModel::RemoveFile { path: plist_path_of(dirs), required: true },
            StepModel::RemoveDir { path: install },
            StepModel::RemoveDir { path: log_dir_of(platform, dirs) },
        ],
        Platform::Windows => seq![
            StepModel::StopInstances,
            StepModel::Run {
                program: "reg"@,
                args: seq!["delete"@, REG_PATH@, "/v"@, REG_KEY_NAME@, "/f"@],
                failure: None,
            },
            StepModel::RemoveDir { path: install },
        ],
    }
}

/// The text of the systemd unit for the binary at `binary_path`.
pub fn generate_unit_file(binary_path: &str) -> (content: String)
    ensures
        content@ == unit_file(binary_path@),
{
    let mut content = UNIT_FILE_HEAD.to_owned();
    content.append(binary_path);
    content.append(UNIT_FILE_TAIL);
    content
}

/// The text of the launch agent's property list for the binary at
/// `binary_path`, with the log files in `log_dir`.
pub fn generate_plist(binary_path: &str, log_dir: &str) -> (content: String)
    ensures
        content@ == plist(binary_path@, log_dir@),
{
    let stdout_log = join_path(Platform::MacOs, log_dir, "service.log");
    let stderr_log = join_path(Platform::MacOs, log_dir, "service.err");
    let mut content = PLIST_HEAD.to_owned();
    content.append(APP_LABEL);
    content.append(PLIST_PROGRAM);
    content.append(binary_path);
    content.append(PLIST_STDOUT);
    content.append(stdout_log.as_str());
    content.append(PLIST_STDERR);
    content.append(stderr_log.as_str());
    content.append(PLIST_TAIL);
    content
}

/// The command line that the registry starts at login.
pub fn generate_registry_command(binary_path: &str) -> (command: String)
    ensures
        command@ == registry_command(binary_path@),
{
    let mut command = "\"".to_owned();
    command.append(binary_path);
    command.append("\" daemon");
    command
}

/// Whether a process of this name is an instance of the helper, on Windows,
/// where the case of a file name does not count.
pub fn is_helper_process(name: &str) -> (yes: bool)
    ensures
        yes == same_but_for_ascii_case(name@, "edge-copilot-helper.exe"@),
{
    same_text_ignoring_ascii_case(name, "edge-copilot-helper.exe")
}

/// Adds a word to a list of arguments.
fn push_word(args: &mut Vec<String>, word: &str)
    ensures
        texts(final(args)@) == texts(old(args)@).push(word@),
{
    args.push(word.to_owned());
    assert(texts(args@) =~= texts(old(args)@).push(word@));
}

/// A call of `systemctl` for the user's services, with an action and, where
/// the action takes one, the unit.
fn systemctl_step(action: &str, unit: Option<&str>, failure: Option<&str>) -> (step: ServiceStep)
    ensures
        step@ == systemctl(
            match unit {
                Some(name) => seq![action@, name@],
                None => seq![action@],
            },
            match failure {
                Some(message) => Some(message@),
                None => None,
            },
        ),
{
    let mut args: Vec<String> = Vec::new();
    assert(texts(args@) =~= Seq::empty());
    push_word(&mut args, "--user");
    push_word(&mut args, action);
    if let Some(name) = unit {
        push_word(&mut args, name);
    }
    let failure = match failure {
        Some(message) => Some(message.to_owned()),
        None => None,
    };
    let step = ServiceStep::Run { program: "systemctl".to_owned(), args, failure };
    assert(step@->Run_args =~= seq!["--user"@] + (match unit {
        Some(name) => seq![action@, name@],
        None => seq![action@],
    }));
    step
}

/// The call of `launchctl` that unloads the launch agent of the user `uid`.
fn bootout_step(uid: &str, dirs: &BaseDirs) -> (step: ServiceStep)
    ensures
        step@ == bootout(uid@, *dirs),
{
    let mut args: Vec<String> = Vec::new();
    assert(texts(args@) =~= Seq::empty());
    push_word(&mut args, "bootout");
    push_word(&mut args, concat_text("gui/", uid).as_str());
    push_word(&mut args, plist_path(dirs).as_str());
    let step = ServiceStep::Run { program: "launchctl".to_owned(), args, failure: None };
    assert(step@->Run_args =~= seq!["bootout"@, "gui/"@ + uid@, plist_path_of(*dirs)]);
    step
}

/// The steps that install the helper as a service on `platform`, for the user
/// with the given base directories and, on macOS, the numeric id `uid`.
pub fn install(platform: Platform, dirs: &BaseDirs, uid: &str) -> (steps: Vec<ServiceStep>)
    ensures
        steps_model(steps@) == install_plan(platform, *dirs, uid@),
{
    let mut steps: Vec<ServiceStep> = Vec::new();
    let binary = binary_path(platform, dirs);
    match platform {
        Platform::Linux => {
            steps.push(ServiceStep::CreateDir { path: install_dir(platform, dirs) });
            steps.push(ServiceStep::CreateDir { path: log_dir(platform, dirs) });
            steps.push(ServiceStep::CreateDir { path: unit_dir(dirs) });
            steps.push(ServiceStep::CopyBinary { to: binary.clone() });
            steps.push(ServiceStep::MakeExecutable { path: binary.clone() });
            steps.push(systemctl_step("stop", Some(APP_LABEL), None));
            steps.push(systemctl_step("disable", Some(APP_LABEL), None));
            steps.push(
                ServiceStep::WriteFile {
                    path: unit_path(dirs),
                    content: generate_unit_file(binary.as_str()),
                },
            );
            steps.push(
                systemctl_step("daemon-reload", None, Some("Failed to reload systemd daemon")),
            );
            steps.push(systemctl_step("enable", Some(APP_LABEL), Some("Failed to enable service")));
            steps.push(systemctl_step("start", Some(APP_LABEL), Some("Failed to start service")));
        },
        Platform::MacOs => {
            let logs = log_dir(platform, dirs);
            steps.push(ServiceStep::CreateDir { path: install_dir(platform, dirs) });
            steps.push(ServiceStep::CreateDir { path: logs.clone() });
            steps.push(ServiceStep::CreateDir { path: launch_agents_dir(dirs) });
            steps.push(ServiceStep::CopyBinary { to: binary.clone() });
            steps.push(ServiceStep::MakeExecutable { path: binary.clone() });
            steps.push(bootout_step(uid, dirs));
            steps.push(
                ServiceStep::WriteFile {
                    path: plist_path(dirs),
                    content: generate_plist(binary.as_str(), logs.as_str()),
                },
            );
            let mut args: Vec<String> = Vec::new();
            assert(texts(args@) =~= Seq::empty());
            push_word(&mut args, "load");
            push_word(&mut args, "-w");
            push_word(&mut args, plist_path(dirs).as_str());
            assert(texts(args@) =~= seq!["load"@, "-w"@, plist_path_of(*dirs)]);
            steps.push(
                ServiceStep::Run {
                    program: "launchctl".to_owned(),
                    args,
                    failure: Some("Failed to load Launch Agent".to_owned()),
                },
            );
        },
        Platform::Windows => {
            steps.push(ServiceStep::StopInstances);
            steps.push(ServiceStep::CreateDir { path: install_dir(platform, dirs) });
            steps.push(ServiceStep::CreateDir { path: log_dir(platform, dirs) });
            steps.push(ServiceStep::RemoveFile { path: binary.clone(), required: false });
            steps.push(ServiceStep::CopyBinary { to: binary.clone() });
            let mut args: Vec<String> = Vec::new();
            assert(texts(args@) =~= Seq::empty());
            push_word(&mut args, "add");
            push_word(&mut args, REG_PATH);
            push_word(&mut args, "/v");
            push_word(&mut args, REG_KEY_NAME);
            push_word(&mut args, "/t");
            push_word(&mut args, "REG_SZ");
            push_word(&mut args, "/d");
            push_word(&mut args, generate_registry_command(binary.as_str()).as_str());
            push_word(&mut args, "/f");
            assert(texts(args@) =~= seq![
                "add"@,
                REG_PATH@,
                "/v"@,
                REG_KEY_NAME@,
                "/t"@,
                "REG_SZ"@,
                "/d"@,
                registry_command(binary@),
                "/f"@,
            ]);
            steps.push(
                ServiceStep::Run {
                    program: "reg".to_owned(),
                    args,
                    failure: Some("Failed to add registry entry for startup".to_owned()),
                },
            );
        },
    }
    assert(steps_model(steps@) =~= install_plan(platform, *dirs, uid@));
    steps
}

/// The steps that remove the service from `platform` again, with the installed
/// files.
pub fn uninstall(platform: Platform, dirs: &BaseDirs, uid: &str) -> (steps: Vec<ServiceStep>)
    ensures
        steps_model(steps@) == uninstall_plan(platform, *dirs, uid@),
{
    let mut steps: Vec<ServiceStep> = Vec::new();
    match platform {
        Platform::Linux => {
            steps.push(systemctl_step("stop", Some(APP_LABEL), None));
            steps.push(systemctl_step("disable", Some(APP_LABEL), None));
            steps.push(ServiceStep::RemoveFile { path: unit_path(dirs), required: true });
            steps.push(systemctl_step("daemon-reload", None, None));
            steps.push(ServiceStep::RemoveDir { path: install_dir(platform, dirs) });
        },
        Platform::MacOs => {
            steps.push(bootout_step(uid, dirs));
            steps.push(ServiceStep::RemoveFile { path: plist_path(dirs), required: true });
            steps.push(ServiceStep::RemoveDir { path: install_dir(platform, dirs) });
            steps.push(ServiceStep::RemoveDir { path: log_dir(platform, dirs) });
        },
        Platform::Windows => {
            steps.push(ServiceStep::StopInstances);
            let mut args: Vec<String> = Vec::new();
            assert(texts(args@) =~= Seq::empty());
            push_word(&mut args, "delete");
            push_word(&mut args, REG_PATH);
            push_word(&mut args, "/v");
            push_word(&mut args, REG_KEY_NAME);
            push_word(&mut args, "/f");
            assert(texts(args@) =~= seq!["delete"@, REG_PATH@, "/v"@, REG_KEY_NAME@, "/f"@]);
            steps.push(ServiceStep::Run { program: "reg".to_owned(), args, failure: None });
            steps.push(ServiceStep::RemoveDir { path: install_dir(platform, dirs) });
        },
    }
    assert(steps_model(steps@) =~= uninstall_plan(platform, *dirs, uid@));
    steps
}

} // verus!
