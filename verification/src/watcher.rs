//! Detecting that the browser has stopped: by sampling the process list at an
//! interval, or from the notifications that the operating system sends when an
//! application terminates. Either way the fix is due once per termination.

use crate::platform::{same_text, starts_with, texts, Platform};
use vstd::multiset::Multiset;
use vstd::prelude::*;

verus! {

/// The seconds between two samples of the process list.
pub const POLL_INTERVAL_SECS: u64 = 2;

/// The process names under which the browser runs.
pub open spec fn process_names(platform: Platform) -> Seq<Seq<char>> {
    match platform {
        Platform::Windows => seq!["msedge.exe"@],
        Platform::Linux => seq![
            "msedge"@,
            "microsoft-edge"@,
            "microsoft-edge-stable"@,
            "microsoft-edge-beta"@,
            "microsoft-edge-dev"@,
        ],
        Platform::MacOs => seq!["msedge"@],
    }
}

/// Whether one of the named processes is the browser.
pub open spec fn any_target(platform: Platform, names: Seq<String>) -> bool {
    exists|i: int| 0 <= i < names.len() && process_names(platform).contains((#[trigger] names[i])@)
}

/// The identifier prefix of the browser's application bundles.
pub open spec fn bundle_prefix() -> Seq<char> {
    "com.microsoft.edgemac"@
}

/// One step of the polling watcher. `sample` is `None` where the process list
/// could not be read: the state stays and nothing is done. Otherwise the sample
/// becomes the state, and the fix is due exactly when the browser was seen
/// running before and is not running now.
pub open spec fn step(was_running: bool, sample: Option<bool>) -> (bool, bool) {
    match sample {
        None => (was_running, false),
        Some(is_running) => (is_running, was_running && !is_running),
    }
}

/// The state of the polling watcher after the given samples, from its initial
/// state, in which the browser counts as not running.
pub open spec fn state_after(samples: Seq<Option<bool>>) -> bool
    decreases samples.len(),
{
    if samples.len() == 0 {
        false
    } else {
        step(state_after(samples.drop_last()), samples.last()).0
    }
}

/// The ticks, counted from 0, at which the fix is due over the given samples.
pub open spec fn fix_ticks(samples: Seq<Option<bool>>) -> Seq<int>
    decreases samples.len(),
{
    if samples.len() == 0 {
        Seq::empty()
    } else {
        let before = fix_ticks(samples.drop_last());
        if step(state_after(samples.drop_last()), samples.last()).1 {
            before.push(samples.len() - 1)
        } else {
            before
        }
    }
}

/// Whether a termination notification with this bundle identifier (`None`
/// where it carries none) is one of the browser.
pub open spec fn is_browser_exit(bundle_id: Option<String>) -> bool {
    bundle_id matches Some(id) && bundle_prefix().is_prefix_of(id@)
}

/// The positions, counted from 0, of the notifications for which the fix is
/// due.
pub open spec fn fix_events(notifications: Seq<Option<String>>) -> Seq<int>
    decreases notifications.len(),
{
    if notifications.len() == 0 {
        Seq::empty()
    } else {
        let before = fix_events(notifications.drop_last());
        if is_browser_exit(notifications.last()) {
            before.push(notifications.len() - 1)
        } else {
            before
        }
    }
}

/// The indices of a list as integers.
pub open spec fn positions(indices: Seq<usize>) -> Seq<int> {
    indices.map_values(|i: usize| i as int)
}

/// The process names under which the browser runs.
pub fn target_process_names(platform: Platform) -> (names: Vec<&'static str>)
    ensures
        names@.map_values(|name: &str| name@) == process_names(platform),
{
    let mut names: Vec<&'static str> = Vec::new();
    match platform {
        Platform::Windows => {
            names.push("msedge.exe");
        },
        Platform::Linux => {
            names.push("msedge");
            names.push("microsoft-edge");
            names.push("microsoft-edge-stable");
            names.push("microsoft-edge-beta");
            names.push("microsoft-edge-dev");
        },
        Platform::MacOs => {
            names.push("msedge");
        },
    }
    assert(names@.map_values(|name: &str| name@) =~= process_names(platform));
    names
}

/// Whether a process of this name is the browser.
pub fn is_target_process(platform: Platform, name: &str) -> (yes: bool)
    ensures
        yes == process_names(platform).contains(name@),
{
    let yes = match platform {
        Platform::Windows => same_text(name, "msedge.exe"),
        Platform::Linux => same_text(name, "msedge") || same_text(name, "microsoft-edge")
            || same_text(name, "microsoft-edge-stable") || same_text(name, "microsoft-edge-beta")
            || same_text(name, "microsoft-edge-dev"),
        Platform::MacOs => same_text(name, "msedge"),
    };
    proof {
        let known = process_names(platform);
        if yes {
            assert(known[0] == name@ || (known.len() == 5 && (known[1] == name@ || known[2] == name@
                || known[3] == name@ || known[4] == name@)));
        } else {
            assert forall|i: int| 0 <= i < known.len() implies known[i] != name@ by {}
        }
    }
    yes
}

/// Whether the browser is among the running processes of the given names.
pub fn any_target_running(platform: Platform, names: &Vec<String>) -> (yes: bool)
    ensures
        yes == any_target(platform, names@),
{
    let mut i: usize = 0;
    while i < names.len()
        invariant
            i <= names.len(),
            forall|j: int|
                0 <= j < i ==> !process_names(platform).contains((#[trigger] names@[j])@),
        decreases names.len() - i,
    {
        if is_target_process(platform, names[i].as_str()) {
            return true;
        }
        i += 1;
    }
    false
}

/// The polling watcher: what it remembers between two samples.
#[derive(Debug, PartialEq)]
pub struct PollingWatcher {
    /// Whether the browser was running at the last sample that could be taken.
    pub was_running: bool,
}

impl PollingWatcher {
    /// A watcher that has not seen the browser running.
    pub fn new() -> (watcher: Self)
        ensures
            !watcher.was_running,
    {
        PollingWatcher { was_running: false }
    }

    /// Takes in one sample and says whether the fix is due now.
    pub fn observe(&mut self, sample: Option<bool>) -> (apply: bool)
        ensures
            (final(self).was_running, apply) == step(old(self).was_running, sample),
    {
        match sample {
            None => false,
            Some(is_running) => {
                let apply = self.was_running && !is_running;
                self.was_running = is_running;
                apply
            },
        }
    }
}

/// Runs the polling watcher over a recorded sequence of samples and returns the
/// ticks at which it asks for the fix.
pub fn run_polling_loop(samples: &Vec<Option<bool>>) -> (ticks: Vec<usize>)
    ensures
        positions(ticks@) == fix_ticks(samples@),
{
    let mut watcher = PollingWatcher::new();
    let mut ticks: Vec<usize> = Vec::new();
    let mut i: usize = 0;
    while i < samples.len()
        invariant
            i <= samples.len(),
            watcher.was_running == state_after(samples@.take(i as int)),
            positions(ticks@) == fix_ticks(samples@.take(i as int)),
        decreases samples.len() - i,
    {
        let ghost before = positions(ticks@);
        proof {
            assert(samples@.take(i + 1).drop_last() =~= samples@.take(i as int));
            assert(samples@.take(i + 1).last() == samples@[i as int]);
        }
        if watcher.observe(samples[i]) {
            ticks.push(i);
            assert(positions(ticks@) =~= before.push(i as int));
        }
        i += 1;
    }
    assert(samples@.take(samples@.len() as int) =~= samples@);
    ticks
}

/// `sysinfo::System`, the process table; nothing here looks into it.
#[verifier::external_type_specification]
#[verifier::external_body]
pub struct ExSystem(sysinfo::System);

/// The names of the processes that a `sysinfo::System` holds in its table
/// (`System::processes`, `Process::name`), each as text. The table has no
/// order.
pub uninterp spec fn table_names(table: sysinfo::System) -> Multiset<Seq<char>>;

/// Whether the browser is among processes of the given names.
pub open spec fn browser_among(platform: Platform, names: Multiset<Seq<char>>) -> bool {
    exists|i: int|
        0 <= i < process_names(platform).len() && names.contains(
            #[trigger] process_names(platform)[i],
        )
}

/// Calls `sysinfo::System::new`, which makes a process table with nothing
/// loaded: it holds no process.
#[verifier::external_body]
fn new_process_table() -> (table: sysinfo::System)
    ensures
        table_names(table) == Multiset::<Seq<char>>::empty(),
{
    sysinfo::System::new()
}

/// Calls `System::refresh_processes` of `sysinfo` for all processes, dropping
/// those that have ended. What the table holds afterwards depends on the
/// machine: nothing is claimed of it.
#[verifier::external_body]
fn refresh_process_table(table: &mut sysinfo::System) {
    table.refresh_processes(sysinfo::ProcessesToUpdate::All, true);
}

/// Calls `System::processes` of `sysinfo` and hands out the name of each
/// process (`Process::name`) as text, in no particular order: the names are
/// those that the table holds, each as often as it holds it.
#[verifier::external_body]
fn listed_process_names(table: &sysinfo::System) -> (names: Vec<String>)
    ensures
        texts(names@).to_multiset() == table_names(*table),
{
    let names = table.processes().values().map(|process| process.name().to_string_lossy());
    names.map(|name| name.into_owned()).collect()
}

/// The browser is among a list of names exactly when it is among them taken
/// without their order.
proof fn lemma_any_target_unordered(platform: Platform, names: Seq<String>)
    ensures
        any_target(platform, names) == browser_among(platform, texts(names).to_multiset()),
{
    let listed = texts(names);
    let known = process_names(platform);
    listed.to_multiset_ensures();
    if any_target(platform, names) {
        let i = choose|i: int| 0 <= i < names.len() && known.contains((#[trigger] names[i])@);
        let k = choose|k: int| 0 <= k < known.len() && known[k] == names[i]@;
        assert(listed[i] == names[i]@);
        assert(listed.contains(known[k]));
        assert(listed.to_multiset().contains(known[k]));
    }
    if browser_among(platform, listed.to_multiset()) {
        let k = choose|k: int|
            0 <= k < known.len() && listed.to_multiset().contains(#[trigger] known[k]);
        assert(listed.contains(known[k]));
        let i = choose|i: int| 0 <= i < listed.len() && listed[i] == known[k];
        assert(names[i]@ == known[k]);
        assert(known.contains(names[i]@));
    }
}

/// The source of the polling watcher's samples: the system's process table.
pub struct ProcessSampler {
    table: sysinfo::System,
}

impl ProcessSampler {
    /// The names of the processes in the table as it was last read.
    pub closed spec fn names(self) -> Multiset<Seq<char>> {
        table_names(self.table)
    }

    /// A sampler that has not read the process list yet: its table holds no
    /// process.
    pub fn new() -> (sampler: Self)
        ensures
            sampler.names() == Multiset::<Seq<char>>::empty(),
    {
        ProcessSampler { table: new_process_table() }
    }

    /// Reads the process list anew and says whether the browser is in it.
    fn sample(&mut self, platform: Platform) -> (running: bool)
        ensures
            running == browser_among(platform, final(self).names()),
    {
        refresh_process_table(&mut self.table);
        let names = listed_process_names(&self.table);
        proof {
            lemma_any_target_unordered(platform, names@);
        }
        any_target_running(platform, &names)
    }
}

/// One tick of the polling watcher: reads the process list anew, takes in as
/// the sample whether the browser is in it, and says whether the fix is due.
/// So the fix is due exactly when the browser was seen running before the tick
/// and is not in the list now.
pub fn poll(
    watcher: &mut PollingWatcher,
    sampler: &mut ProcessSampler,
    platform: Platform,
) -> (apply: bool)
    ensures
        (final(watcher).was_running, apply) == step(
            old(watcher).was_running,
            Some(browser_among(platform, final(sampler).names())),
        ),
        apply == (old(watcher).was_running && !final(watcher).was_running),
{
    let is_running = sampler.sample(platform);
    watcher.observe(Some(is_running))
}

/// Whether an application with this bundle identifier is the browser.
pub fn is_target_bundle(bundle_id: &str) -> (yes: bool)
    ensures
        yes == bundle_prefix().is_prefix_of(bundle_id@),
{
    starts_with(bundle_id, "com.microsoft.edgemac")
}

/// Handles one termination notification and says whether the fix is due.
pub fn on_termination(bundle_id: &Option<String>) -> (apply: bool)
    ensures
        apply == is_browser_exit(*bundle_id),
{
    match bundle_id {
        Some(id) => is_target_bundle(id.as_str()),
        None => false,
    }
}

/// Runs the notification watcher over a recorded sequence of termination
/// notifications, each given by the bundle identifier that it carries, and
/// returns the positions of those for which it asks for the fix.
pub fn run_event_loop(notifications: &Vec<Option<String>>) -> (events: Vec<usize>)
    ensures
        positions(events@) == fix_events(notifications@),
{
    let mut events: Vec<usize> = Vec::new();
    let mut i: usize = 0;
    while i < notifications.len()
        invariant
            i <= notifications.len(),
            positions(events@) == fix_events(notifications@.take(i as int)),
        decreases notifications.len() - i,
    {
        let ghost before = positions(events@);
        proof {
            assert(notifications@.take(i + 1).drop_last() =~= notifications@.take(i as int));
            assert(notifications@.take(i + 1).last() == notifications@[i as int]);
        }
        if on_termination(&notifications[i]) {
            events.push(i);
            assert(positions(events@) =~= before.push(i as int));
        }
        i += 1;
    }
    assert(notifications@.take(notifications@.len() as int) =~= notifications@);
    events
}

/// After a sample that could be taken, the watcher's state is that sample.
pub proof fn lemma_state_is_latest(samples: Seq<Option<bool>>)
    requires
        samples.len() > 0,
        samples.last() is Some,
    ensures
        state_after(samples) == samples.last()->0,
{
}

/// The ticks at which the fix is due are below the number of samples and
/// strictly increasing: no tick asks for the fix twice.
pub proof fn lemma_fix_ticks_increasing(samples: Seq<Option<bool>>)
    ensures
        forall|a: int|
            0 <= a < fix_ticks(samples).len() ==> 0 <= #[trigger] fix_ticks(samples)[a]
                < samples.len(),
        forall|a: int, b: int|
            0 <= a < b < fix_ticks(samples).len() ==> fix_ticks(samples)[a] < fix_ticks(
                samples,
            )[b],
    decreases samples.len(),
{
    if samples.len() > 0 {
        let rest = fix_ticks(samples.drop_last());
        let all = fix_ticks(samples);
        lemma_fix_ticks_increasing(samples.drop_last());
        assert forall|a: int| 0 <= a < all.len() implies 0 <= #[trigger] all[a] < samples.len() by {
            if a < rest.len() {
                assert(all[a] == rest[a]);
            }
        }
        assert forall|a: int, b: int| 0 <= a < b < all.len() implies all[a] < all[b] by {
            assert(all[a] == rest[a]);
            if b < rest.len() {
                assert(all[b] == rest[b]);
            }
        }
    }
}

/// The fix is due at tick `i` exactly when the browser is seen not running at
/// that tick and the samples before it left the watcher in the running state.
pub proof fn lemma_fix_ticks(samples: Seq<Option<bool>>, i: int)
    ensures
        fix_ticks(samples).contains(i) <==> 0 <= i < samples.len() && samples[i] == Some(false)
            && state_after(samples.take(i)),
    decreases samples.len(),
{
    if samples.len() > 0 {
        let rest = samples.drop_last();
        let last: int = samples.len() - 1;
        lemma_fix_ticks(rest, i);
        lemma_fix_ticks_increasing(rest);
        let due = step(state_after(rest), samples.last()).1;
        if i < last {
            assert(0 <= i ==> rest.take(i) =~= samples.take(i));
            if due {
                assert(forall|a: int|
                    0 <= a < fix_ticks(rest).len() ==> fix_ticks(samples)[a] == fix_ticks(rest)[a]);
                if fix_ticks(rest).contains(i) {
                    let a = choose|a: int|
                        0 <= a < fix_ticks(rest).len() && fix_ticks(rest)[a] == i;
                    assert(fix_ticks(samples)[a] == i);
                }
                if fix_ticks(samples).contains(i) {
                    let a = choose|a: int|
                        0 <= a < fix_ticks(samples).len() && fix_ticks(samples)[a] == i;
                    assert(a < fix_ticks(rest).len());
                    assert(fix_ticks(rest)[a] == i);
                }
            }
        } else if i == last {
            assert(samples.take(i) =~= rest);
            if due {
                assert(fix_ticks(samples)[fix_ticks(rest).len() as int] == i);
            } else {
                if fix_ticks(samples).contains(i) {
                    let a = choose|a: int|
                        0 <= a < fix_ticks(rest).len() && fix_ticks(rest)[a] == i;
                    assert(fix_ticks(rest)[a] < rest.len());
                }
            }
        } else {
            if fix_ticks(samples).contains(i) {
                let a = choose|a: int|
                    0 <= a < fix_ticks(samples).len() && fix_ticks(samples)[a] == i;
                lemma_fix_ticks_increasing(samples);
            }
        }
    }
}

/// Between two samples that could both be taken, the fix is due at the second
/// exactly on the change from running to not running.
pub proof fn lemma_fix_on_transition(samples: Seq<Option<bool>>, i: int)
    requires
        0 < i < samples.len(),
        samples[i - 1] is Some,
        samples[i] is Some,
    ensures
        fix_ticks(samples).contains(i) <==> samples[i - 1] == Some(true) && samples[i] == Some(
            false,
        ),
{
    lemma_fix_ticks(samples, i);
    assert(samples.take(i).last() == samples[i - 1]);
    lemma_state_is_latest(samples.take(i));
}

/// The positions for which the fix is due are strictly increasing: no
/// notification asks for the fix twice.
pub proof fn lemma_fix_events_increasing(notifications: Seq<Option<String>>)
    ensures
        forall|a: int|
            0 <= a < fix_events(notifications).len() ==> 0 <= #[trigger] fix_events(
                notifications,
            )[a] < notifications.len(),
        forall|a: int, b: int|
            0 <= a < b < fix_events(notifications).len() ==> fix_events(notifications)[a]
                < fix_events(notifications)[b],
    decreases notifications.len(),
{
    if notifications.len() > 0 {
        let rest = fix_events(notifications.drop_last());
        let all = fix_events(notifications);
        lemma_fix_events_increasing(notifications.drop_last());
        assert forall|a: int| 0 <= a < all.len() implies 0 <= #[trigger] all[a]
            < notifications.len() by {
            if a < rest.len() {
                assert(all[a] == rest[a]);
            }
        }
        assert forall|a: int, b: int| 0 <= a < b < all.len() implies all[a] < all[b] by {
            assert(all[a] == rest[a]);
            if b < rest.len() {
                assert(all[b] == rest[b]);
            }
        }
    }
}

/// The fix is due for the notification at position `i` exactly when that
/// notification is one of the browser.
pub proof fn lemma_fix_events(notifications: Seq<Option<String>>, i: int)
    ensures
        fix_events(notifications).contains(i) <==> 0 <= i < notifications.len()
            && is_browser_exit(notifications[i]),
    decreases notifications.len(),
{
    if notifications.len() > 0 {
        let rest = notifications.drop_last();
        let last: int = notifications.len() - 1;
        let before = fix_events(rest);
        let all = fix_events(notifications);
        lemma_fix_events(rest, i);
        lemma_fix_events_increasing(rest);
        if all.contains(i) {
            let a = choose|a: int| 0 <= a < all.len() && all[a] == i;
            if a < before.len() {
                assert(before[a] == i);
                assert(rest[i] == notifications[i]);
            }
        }
        if 0 <= i < notifications.len() && is_browser_exit(notifications[i]) {
            if i < last {
                assert(rest[i] == notifications[i]);
                let a = choose|a: int| 0 <= a < before.len() && before[a] == i;
                assert(all[a] == i);
            } else {
                assert(all[before.len() as int] == i);
            }
        }
    }
}

} // verus!
