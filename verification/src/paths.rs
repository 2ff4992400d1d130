//! Where the helper itself lives on disk: its install directory, its log
//! directory, its binary, and the files that register it as a service.

use crate::platform::{concat_text, join_path, joined, Platform};
use vstd::prelude::*;

verus! {

/// The label under which the helper is registered as a service.
pub const APP_LABEL: &'static str = "top.qiyuey.edge-copilot-helper";

/// The file name of the helper's binary, without extension.
pub const BINARY_NAME: &'static str = "edge-copilot-helper";

/// The user's base directories, as far as they are known. A directory is
/// unknown where the system names none or its path is not Unicode.
#[derive(Debug, PartialEq)]
pub struct BaseDirs {
    /// The home directory.
    pub home: Option<String>,
    /// The directory for application data.
    pub data: Option<String>,
    /// The directory for application data that stays on this machine.
    pub data_local: Option<String>,
    /// The directory for configuration.
    pub config: Option<String>,
}

/// Calls `dirs::home_dir` and hands the path on as text. What comes back
/// depends on the user's environment: nothing is claimed of it.
#[verifier::external_body]
fn home_dir() -> Option<String> {
    dirs::home_dir().and_then(|path| path.into_os_string().into_string().ok())
}

/// Calls `dirs::data_dir` and hands the path on as text. What comes back
/// depends on the user's environment: nothing is claimed of it.
#[verifier::external_body]
fn data_dir() -> Option<String> {
    dirs::data_dir().and_then(|path| path.into_os_string().into_string().ok())
}

/// Calls `dirs::data_local_dir` and hands the path on as text. What comes back
/// depends on the user's environment: nothing is claimed of it.
#[verifier::external_body]
fn data_local_dir() -> Option<String> {
    dirs::data_local_dir().and_then(|path| path.into_os_string().into_string().ok())
}

/// Calls `dirs::config_dir` and hands the path on as text. What comes back
/// depends on the user's environment: nothing is claimed of it.
#[verifier::external_body]
fn config_dir() -> Option<String> {
    dirs::config_dir().and_then(|path| path.into_os_string().into_string().ok())
}

/// The directory's path, or `fallback` where the directory is unknown.
pub open spec fn known_or(dir: Option<String>, fallback: Seq<char>) -> Seq<char> {
    match dir {
        Some(path) => path@,
        None => fallback,
    }
}

/// The directory that the helper is installed into.
pub open spec fn install_dir_of(platform: Platform, dirs: BaseDirs) -> Seq<char> {
    let base = match platform {
        Platform::MacOs => known_or(dirs.data, "~"@),
        Platform::Windows => known_or(dirs.data_local, "."@),
        Platform::Linux => known_or(
            dirs.data,
            joined(platform, known_or(dirs.home, "~"@), ".local/share"@),
        ),
    };
    joined(platform, base, APP_LABEL@)
}

/// The directory that the helper writes its logs into.
pub open spec fn log_dir_of(platform: Platform, dirs: BaseDirs) -> Seq<char> {
    match platform {
        Platform::MacOs => joined(
            platform,
            joined(platform, known_or(dirs.home, "~"@), "Library/Logs"@),
            APP_LABEL@,
        ),
        _ => joined(platform, install_dir_of(platform, dirs), "logs"@),
    }
}

/// The installed binary.
pub open spec fn binary_path_of(platform: Platform, dirs: BaseDirs) -> Seq<char> {
    let file = match platform {
        Platform::Windows => BINARY_NAME@ + ".exe"@,
        _ => BINARY_NAME@,
    };
    joined(platform, install_dir_of(platform, dirs), file)
}

/// The directory of the user's launch agents, on macOS.
pub open spec fn launch_agents_dir_of(dirs: BaseDirs) -> Seq<char> {
    joined(Platform::MacOs, known_or(dirs.home, "~"@), "Library/LaunchAgents"@)
}

/// The launch agent's property list, on macOS.
pub open spec fn plist_path_of(dirs: BaseDirs) -> Seq<char> {
    joined(Platform::MacOs, launch_agents_dir_of(dirs), APP_LABEL@ + ".plist"@)
}

/// The directory of the user's systemd units, on Linux.
pub open spec fn unit_dir_of(dirs: BaseDirs) -> Seq<char> {
    let config = known_or(
        dirs.config,
        joined(Platform::Linux, known_or(dirs.home, "~"@), ".config"@),
    );
    joined(Platform::Linux, config, "systemd/user"@)
}

/// The systemd user unit, on Linux.
pub open spec fn unit_path_of(dirs: BaseDirs) -> Seq<char> {
    joined(Platform::Linux, unit_dir_of(dirs), APP_LABEL@ + ".service"@)
}

/// The directory's path, or `fallback` where the directory is unknown.
fn path_or(dir: &Option<String>, fallback: &str) -> (path: String)
    ensures
        path@ == known_or(*dir, fallback@),
{
    match dir {
        Some(path) => path.clone(),
        None => fallback.to_owned(),
    }
}

impl BaseDirs {
    /// Asks the system for the user's base directories.
    pub fn detect() -> BaseDirs {
        BaseDirs {
            home: home_dir(),
            data: data_dir(),
            data_local: data_local_dir(),
            config: config_dir(),
        }
    }
}

/// The directory that the helper is installed into.
pub fn install_dir(platform: Platform, dirs: &BaseDirs) -> (path: String)
    ensures
        path@ == install_dir_of(platform, *dirs),
{
    let base = match platform {
        Platform::MacOs => path_or(&dirs.data, "~"),
        Platform::Windows => path_or(&dirs.data_local, "."),
        Platform::Linux => match &dirs.data {
            Some(data) => data.clone(),
            None => {
                let home = path_or(&dirs.home, "~");
                join_path(platform, home.as_str(), ".local/share")
            },
        },
    };
    join_path(platform, base.as_str(), APP_LABEL)
}

/// The directory that the helper writes its logs into.
pub fn log_dir(platform: Platform, dirs: &BaseDirs) -> (path: String)
    ensures
        path@ == log_dir_of(platform, *dirs),
{
    match platform {
        Platform::MacOs => {
            let home = path_or(&dirs.home, "~");
            let logs = join_path(platform, home.as_str(), "Library/Logs");
            join_path(platform, logs.as_str(), APP_LABEL)
        },
        _ => {
            let install = install_dir(platform, dirs);
            join_path(platform, install.as_str(), "logs")
        },
    }
}

/// The installed binary.
pub fn binary_path(platform: Platform, dirs: &BaseDirs) -> (path: String)
    ensures
        path@ == binary_path_of(platform, *dirs),
{
    let install = install_dir(platform, dirs);
    match platform {
        Platform::Windows => {
            let file = concat_text(BINARY_NAME, ".exe");
            join_path(platform, install.as_str(), file.as_str())
        },
        _ => join_path(platform, install.as_str(), BINARY_NAME),
    }
}

/// The directory of the user's launch agents, on macOS.
pub fn launch_agents_dir(dirs: &BaseDirs) -> (path: String)
    ensures
        path@ == launch_agents_dir_of(*dirs),
{
    let home = path_or(&dirs.home, "~");
    join_path(Platform::MacOs, home.as_str(), "Library/LaunchAgents")
}

/// The launch agent's property list, on macOS.
pub fn plist_path(dirs: &BaseDirs) -> (path: String)
    ensures
        path@ == plist_path_of(*dirs),
{
    let agents = launch_agents_dir(dirs);
    let file = concat_text(APP_LABEL, ".plist");
    join_path(Platform::MacOs, agents.as_str(), file.as_str())
}

/// The directory of the user's systemd units, on Linux.
pub fn unit_dir(dirs: &BaseDirs) -> (path: String)
    ensures
        path@ == unit_dir_of(*dirs),
{
    let config = match &dirs.config {
        Some(config) => config.clone(),
        None => {
            let home = path_or(&dirs.home, "~");
            join_path(Platform::Linux, home.as_str(), ".config")
        },
    };
    join_path(Platform::Linux, config.as_str(), "systemd/user")
}

/// The systemd user unit, on Linux.
pub fn unit_path(dirs: &BaseDirs) -> (path: String)
    ensures
        path@ == unit_path_of(*dirs),
{
    let units = unit_dir(dirs);
    let file = concat_text(APP_LABEL, ".service");
    join_path(Platform::Linux, units.as_str(), file.as_str())
}

} // verus!
