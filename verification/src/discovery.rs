//! Where the browser keeps its configuration: the candidate files of every
//! install variant and profile, computed from a listing of the directories.

use crate::platform::{join_path, joined, same_text, starts_with, texts, Platform};
use vstd::prelude::*;

verus! {

/// The name of the state file at the root of an install variant's data
/// directory.
pub open spec fn state_file_name() -> Seq<char> {
    "Local State"@
}

/// The name of the preference file inside a profile directory.
pub open spec fn preferences_file_name() -> Seq<char> {
    "Preferences"@
}

/// Whether a directory name is that of a profile: the default profile, or a
/// numbered one.
pub open spec fn is_profile_name(name: Seq<char>) -> bool {
    name == "Default"@ || "Profile "@.is_prefix_of(name)
}

/// The data directories of the install variants (stable, beta, dev, canary),
/// relative to the home directory.
pub open spec fn user_data_subpaths(platform: Platform) -> Seq<Seq<char>> {
    match platform {
        Platform::MacOs => seq![
            "Library/Application Support/Microsoft Edge"@,
            "Library/Application Support/Microsoft Edge Beta"@,
            "Library/Application Support/Microsoft Edge Dev"@,
            "Library/Application Support/Microsoft Edge Canary"@,
        ],
        Platform::Linux => seq![
            ".config/microsoft-edge"@,
            ".config/microsoft-edge-beta"@,
            ".config/microsoft-edge-dev"@,
            ".config/microsoft-edge-canary"@,
        ],
        Platform::Windows => seq![
            "AppData/Local/Microsoft/Edge/User Data"@,
            "AppData/Local/Microsoft/Edge Beta/User Data"@,
            "AppData/Local/Microsoft/Edge Dev/User Data"@,
            "AppData/Local/Microsoft/Edge SxS/User Data"@,
        ],
    }
}

/// The data directories of the install variants under `home`.
pub open spec fn user_data_dirs_of(platform: Platform, home: Seq<char>) -> Seq<Seq<char>> {
    user_data_subpaths(platform).map_values(|sub: Seq<char>| joined(platform, home, sub))
}

/// One entry of a data directory, as the file system showed it.
#[derive(Debug, PartialEq)]
pub struct DirEntry {
    /// The entry's file name.
    pub name: String,
    /// Whether the entry is a directory.
    pub is_dir: bool,
    /// Whether the directory holds a preference file.
    pub has_preferences: bool,
}

/// The data directory of one install variant, as the file system showed it.
#[derive(Debug, PartialEq)]
pub struct InstallDir {
    /// The directory's path.
    pub path: String,
    /// Whether the directory exists. Where it does not, the other fields are
    /// not looked at.
    pub exists: bool,
    /// Whether the directory holds a state file.
    pub has_local_state: bool,
    /// The entries of the directory, in the order in which they were listed.
    pub entries: Vec<DirEntry>,
}

/// The state file of one install variant, if it has one.
pub open spec fn state_file_of(platform: Platform, install: InstallDir) -> Seq<Seq<char>> {
    if install.exists && install.has_local_state {
        seq![joined(platform, install.path@, state_file_name())]
    } else {
        Seq::empty()
    }
}

/// The state files of the install variants, in their order.
pub open spec fn state_file_paths(platform: Platform, installs: Seq<InstallDir>) -> Seq<Seq<char>>
    decreases installs.len(),
{
    if installs.len() == 0 {
        Seq::empty()
    } else {
        state_file_paths(platform, installs.drop_last()) + state_file_of(platform, installs.last())
    }
}

/// Whether a directory entry is a profile directory that holds a preference
/// file.
pub open spec fn holds_preferences(entry: DirEntry) -> bool {
    entry.is_dir && is_profile_name(entry.name@) && entry.has_preferences
}

/// The preference file of the profile directory `entry` inside `dir`.
pub open spec fn preferences_path(platform: Platform, dir: Seq<char>, entry: DirEntry) -> Seq<
    char,
> {
    joined(platform, joined(platform, dir, entry.name@), preferences_file_name())
}

/// The preference file that one directory entry stands for, if it is a profile
/// directory that holds one.
pub open spec fn preference_file_of(platform: Platform, dir: Seq<char>, entry: DirEntry) -> Seq<
    Seq<char>,
> {
    if holds_preferences(entry) {
        seq![preferences_path(platform, dir, entry)]
    } else {
        Seq::empty()
    }
}

/// The preference files among the entries of the directory `dir`, in their
/// order.
pub open spec fn profile_paths(platform: Platform, dir: Seq<char>, entries: Seq<DirEntry>) -> Seq<
    Seq<char>,
>
    decreases entries.len(),
{
    if entries.len() == 0 {
        Seq::empty()
    } else {
        profile_paths(platform, dir, entries.drop_last()) + preference_file_of(
            platform,
            dir,
            entries.last(),
        )
    }
}

/// The preference files of one install variant.
pub open spec fn preference_files_of(platform: Platform, install: InstallDir) -> Seq<Seq<char>> {
    if install.exists {
        profile_paths(platform, install.path@, install.entries@)
    } else {
        Seq::empty()
    }
}

/// The preference files of the install variants, in their order.
pub open spec fn preference_file_paths(platform: Platform, installs: Seq<InstallDir>) -> Seq<
    Seq<char>,
>
    decreases installs.len(),
{
    if installs.len() == 0 {
        Seq::empty()
    } else {
        preference_file_paths(platform, installs.drop_last()) + preference_files_of(
            platform,
            installs.last(),
        )
    }
}

/// The data directories to look into for a user whose home directory is
/// `home`.
pub fn user_data_dirs(platform: Platform, home: &str) -> (dirs: Vec<String>)
    ensures
        texts(dirs@) == user_data_dirs_of(platform, home@),
{
    let mut dirs: Vec<String> = Vec::new();
    match platform {
        Platform::MacOs => {
            dirs.push(join_path(platform, home, "Library/Application Support/Microsoft Edge"));
            dirs.push(join_path(platform, home, "Library/Application Support/Microsoft Edge Beta"));
            dirs.push(join_path(platform, home, "Library/Application Support/Microsoft Edge Dev"));
            dirs.push(
                join_path(platform, home, "Library/Application Support/Microsoft Edge Canary"),
            );
        },
        Platform::Linux => {
            dirs.push(join_path(platform, home, ".config/microsoft-edge"));
            dirs.push(join_path(platform, home, ".config/microsoft-edge-beta"));
            dirs.push(join_path(platform, home, ".config/microsoft-edge-dev"));
            dirs.push(join_path(platform, home, ".config/microsoft-edge-canary"));
        },
        Platform::Windows => {
            dirs.push(join_path(platform, home, "AppData/Local/Microsoft/Edge/User Data"));
            dirs.push(join_path(platform, home, "AppData/Local/Microsoft/Edge Beta/User Data"));
            dirs.push(join_path(platform, home, "AppData/Local/Microsoft/Edge Dev/User Data"));
            dirs.push(join_path(platform, home, "AppData/Local/Microsoft/Edge SxS/User Data"));
        },
    }
    assert(texts(dirs@) =~= user_data_dirs_of(platform, home@));
    dirs
}

/// Whether a directory of this name is a profile directory.
pub fn is_profile_dir_name(name: &str) -> (yes: bool)
    ensures
        yes == is_profile_name(name@),
{
    same_text(name, "Default") || starts_with(name, "Profile ")
}

/// The candidate files of all install variants: first the state files, then the
/// preference files of their profiles, each list in the order of discovery.
/// Directories and files that are absent are passed over.
pub fn get_all_paths(platform: Platform, installs: &Vec<InstallDir>) -> (paths: (
    Vec<String>,
    Vec<String>,
))
    ensures
        texts(paths.0@) == state_file_paths(platform, installs@),
        texts(paths.1@) == preference_file_paths(platform, installs@),
{
    let mut local_state_paths: Vec<String> = Vec::new();
    let mut prefs_paths: Vec<String> = Vec::new();
    let mut i: usize = 0;
    while i < installs.len()
        invariant
            i <= installs.len(),
            texts(local_state_paths@) == state_file_paths(platform, installs@.take(i as int)),
            texts(prefs_paths@) == preference_file_paths(platform, installs@.take(i as int)),
        decreases installs.len() - i,
    {
        let install = &installs[i];
        let ghost states_before = texts(local_state_paths@);
        let ghost prefs_before = texts(prefs_paths@);
        proof {
            assert(installs@.take(i + 1).drop_last() =~= installs@.take(i as int));
            assert(installs@.take(i + 1).last() == installs@[i as int]);
        }
        if install.exists {
            if install.has_local_state {
                local_state_paths.push(join_path(platform, install.path.as_str(), "Local State"));
                assert(texts(local_state_paths@) =~= states_before + state_file_of(
                    platform,
                    *install,
                ));
            }
            let mut j: usize = 0;
            while j < install.entries.len()
                invariant
                    j <= install.entries.len(),
                    texts(prefs_paths@) == prefs_before + profile_paths(
                        platform,
                        install.path@,
                        install.entries@.take(j as int),
                    ),
                decreases install.entries.len() - j,
            {
                let entry = &install.entries[j];
                let ghost found = texts(prefs_paths@);
                proof {
                    assert(install.entries@.take(j + 1).drop_last() =~= install.entries@.take(
                        j as int,
                    ));
                    assert(install.entries@.take(j + 1).last() == install.entries@[j as int]);
                }
                if entry.is_dir && is_profile_dir_name(entry.name.as_str())
                    && entry.has_preferences {
                    let profile = join_path(platform, install.path.as_str(), entry.name.as_str());
                    prefs_paths.push(join_path(platform, profile.as_str(), "Preferences"));
                    assert(texts(prefs_paths@) =~= found + preference_file_of(
                        platform,
                        install.path@,
                        *entry,
                    ));
                }
                j += 1;
            }
            assert(install.entries@.take(install.entries@.len() as int) =~= install.entries@);
        }
        assert(texts(local_state_paths@) =~= states_before + state_file_of(platform, *install));
        assert(texts(prefs_paths@) =~= prefs_before + preference_files_of(platform, *install));
        i += 1;
    }
    assert(installs@.take(installs@.len() as int) =~= installs@);
    (local_state_paths, prefs_paths)
}

/// Where none of the data directories exists there is no candidate file.
pub proof fn lemma_nothing_installed(platform: Platform, installs: Seq<InstallDir>)
    requires
        forall|i: int| 0 <= i < installs.len() ==> !(#[trigger] installs[i]).exists,
    ensures
        state_file_paths(platform, installs) == Seq::<Seq<char>>::empty(),
        preference_file_paths(platform, installs) == Seq::<Seq<char>>::empty(),
    decreases installs.len(),
{
    if installs.len() > 0 {
        lemma_nothing_installed(platform, installs.drop_last());
        assert(!installs[installs.len() - 1].exists);
    }
}

/// A path is among the state files exactly when it is the state file of a data
/// directory that exists and holds one.
pub proof fn lemma_state_file_paths(platform: Platform, installs: Seq<InstallDir>, path: Seq<char>)
    ensures
        state_file_paths(platform, installs).contains(path) <==> exists|i: int|
            0 <= i < installs.len() && (#[trigger] installs[i]).exists
                && installs[i].has_local_state && path == joined(
                platform,
                installs[i].path@,
                state_file_name(),
            ),
    decreases installs.len(),
{
    if installs.len() > 0 {
        let rest = installs.drop_last();
        let last = installs.last();
        let found = state_file_paths(platform, installs);
        let before = state_file_paths(platform, rest);
        lemma_state_file_paths(platform, rest, path);
        if found.contains(path) {
            let k = choose|k: int| 0 <= k < found.len() && found[k] == path;
            if k < before.len() {
                assert(before[k] == path);
                let i = choose|i: int|
                    0 <= i < rest.len() && (#[trigger] rest[i]).exists && rest[i].has_local_state
                        && path == joined(platform, rest[i].path@, state_file_name());
                assert(installs[i] == rest[i]);
            } else {
                assert(installs[installs.len() - 1] == last);
            }
        }
        if exists|i: int|
            0 <= i < installs.len() && (#[trigger] installs[i]).exists
                && installs[i].has_local_state && path == joined(
                platform,
                installs[i].path@,
                state_file_name(),
            ) {
            let i = choose|i: int|
                0 <= i < installs.len() && (#[trigger] installs[i]).exists
                    && installs[i].has_local_state && path == joined(
                    platform,
                    installs[i].path@,
                    state_file_name(),
                );
            if i < rest.len() {
                assert(rest[i] == installs[i]);
                let k = choose|k: int| 0 <= k < before.len() && before[k] == path;
                assert(found[k] == path);
            } else {
                assert(found[before.len() as int] == path);
            }
        }
    }
}

/// A path is among the preference files of a directory exactly when it is the
/// preference file of one of its entries: a directory with the name of a
/// profile that holds one.
pub proof fn lemma_profile_paths(
    platform: Platform,
    dir: Seq<char>,
    entries: Seq<DirEntry>,
    path: Seq<char>,
)
    ensures
        profile_paths(platform, dir, entries).contains(path) <==> exists|j: int|
            0 <= j < entries.len() && holds_preferences(#[trigger] entries[j]) && path
                == preferences_path(platform, dir, entries[j]),
    decreases entries.len(),
{
    if entries.len() > 0 {
        let rest = entries.drop_last();
        let last = entries.last();
        let found = profile_paths(platform, dir, entries);
        let before = profile_paths(platform, dir, rest);
        lemma_profile_paths(platform, dir, rest, path);
        if found.contains(path) {
            let k = choose|k: int| 0 <= k < found.len() && found[k] == path;
            if k < before.len() {
                assert(before[k] == path);
                let j = choose|j: int|
                    0 <= j < rest.len() && holds_preferences(#[trigger] rest[j]) && path
                        == preferences_path(platform, dir, rest[j]);
                assert(entries[j] == rest[j]);
            } else {
                assert(entries[entries.len() - 1] == last);
            }
        }
        if exists|j: int|
            0 <= j < entries.len() && holds_preferences(#[trigger] entries[j]) && path
                == preferences_path(platform, dir, entries[j]) {
            let j = choose|j: int|
                0 <= j < entries.len() && holds_preferences(#[trigger] entries[j]) && path
                    == preferences_path(platform, dir, entries[j]);
            if j < rest.len() {
                assert(rest[j] == entries[j]);
                let k = choose|k: int| 0 <= k < before.len() && before[k] == path;
                assert(found[k] == path);
            } else {
                assert(found[before.len() as int] == path);
            }
        }
    }
}

/// A path is among the preference files exactly when it is among those of a
/// data directory that exists.
pub proof fn lemma_preference_file_paths(
    platform: Platform,
    installs: Seq<InstallDir>,
    path: Seq<char>,
)
    ensures
        preference_file_paths(platform, installs).contains(path) <==> exists|i: int|
            0 <= i < installs.len() && (#[trigger] installs[i]).exists && profile_paths(
                platform,
                installs[i].path@,
                installs[i].entries@,
            ).contains(path),
    decreases installs.len(),
{
    if installs.len() > 0 {
        let rest = installs.drop_last();
        let last = installs.last();
        let found = preference_file_paths(platform, installs);
        let before = preference_file_paths(platform, rest);
        let added = preference_files_of(platform, last);
        lemma_preference_file_paths(platform, rest, path);
        if found.contains(path) {
            let k = choose|k: int| 0 <= k < found.len() && found[k] == path;
            if k < before.len() {
                assert(before[k] == path);
                let i = choose|i: int|
                    0 <= i < rest.len() && (#[trigger] rest[i]).exists && profile_paths(
                        platform,
                        rest[i].path@,
                        rest[i].entries@,
                    ).contains(path);
                assert(installs[i] == rest[i]);
            } else {
                assert(added[k - before.len()] == path);
                assert(installs[installs.len() - 1] == last);
            }
        }
        if exists|i: int|
            0 <= i < installs.len() && (#[trigger] installs[i]).exists && profile_paths(
                platform,
                installs[i].path@,
                installs[i].entries@,
            ).contains(path) {
            let i = choose|i: int|
                0 <= i < installs.len() && (#[trigger] installs[i]).exists && profile_paths(
                    platform,
                    installs[i].path@,
                    installs[i].entries@,
                ).contains(path);
            if i < rest.len() {
                assert(rest[i] == installs[i]);
                let k = choose|k: int| 0 <= k < before.len() && before[k] == path;
                assert(found[k] == path);
            } else {
                let k = choose|k: int| 0 <= k < added.len() && added[k] == path;
                assert(found[before.len() + k] == path);
            }
        }
    }
}

} // verus!
