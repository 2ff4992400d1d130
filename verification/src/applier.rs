//! One fix cycle: every candidate file is read as JSON, patched with the rule
//! for its kind and written back when it changed. The files come in as they
//! were read; what is to be written goes out.

use crate::codec::{parse_document, parsed_json, pretty_json, print_document};
use crate::patcher::{apply_rule, preferences_rule, state_file_rule, PatchRule, RuleModel};
use vstd::prelude::*;

verus! {

/// The two kinds of configuration file.
#[derive(Clone, Copy, Debug, PartialEq, Eq, Structural)]
pub enum FileKind {
    /// The state file of an install variant.
    LocalState,
    /// The preference file of a profile.
    Preferences,
}

impl FileKind {
    /// The name of this kind of file, for messages.
    pub open spec fn label_of(self) -> Seq<char> {
        match self {
            FileKind::LocalState => "Local State"@,
            FileKind::Preferences => "Preferences"@,
        }
    }

    /// The name of this kind of file, for messages.
    pub fn label(self) -> (name: &'static str)
        ensures
            name@ == self.label_of(),
    {
        match self {
            FileKind::LocalState => "Local State",
            FileKind::Preferences => "Preferences",
        }
    }
}

/// What reading a file gave.
#[derive(Debug, PartialEq)]
pub enum FileContent {
    /// The file does not exist (any more).
    Missing,
    /// The file exists and could not be read.
    Unreadable,
    /// The file's text.
    Text(String),
}

/// A candidate file and what reading it gave.
#[derive(Debug, PartialEq)]
pub struct ConfigFile {
    pub path: String,
    pub content: FileContent,
}

/// Why a file stopped the fix cycle.
#[derive(Clone, Copy, Debug, PartialEq, Eq, Structural)]
pub enum FailureCause {
    /// The file could not be read.
    Read,
    /// The file's text is not JSON.
    Parse,
    /// The patched document could not be printed.
    Serialize,
}

/// Why a file could not be processed.
#[derive(Debug, PartialEq)]
pub struct FileFailure {
    pub cause: FailureCause,
    /// What the parser says of a text that is not JSON; empty for the other
    /// causes.
    pub detail: String,
}

/// The file that stopped the fix cycle, and why.
#[derive(Debug, PartialEq)]
pub struct FixFailure {
    pub path: String,
    pub kind: FileKind,
    pub cause: FailureCause,
    /// What the parser says of a text that is not JSON; empty for the other
    /// causes.
    pub detail: String,
}

/// A file that the fix changed, with its new text.
#[derive(Debug, PartialEq)]
pub struct FileWrite {
    pub path: String,
    pub kind: FileKind,
    pub content: String,
}

/// How a fix cycle ended.
#[derive(Debug, PartialEq)]
pub enum FixOutcome {
    /// There was no candidate file.
    NotFound,
    /// Every candidate file was correct already.
    AlreadyCorrect,
    /// At least one file was changed.
    Modified,
    /// A file stopped the cycle; the files after it were not looked at.
    Failed(FixFailure),
}

/// The result of a fix cycle: the files to write, in order, and how the cycle
/// ended. On a failure the writes are those of the files before the failing
/// one.
#[derive(Debug, PartialEq)]
pub struct FixReport {
    pub writes: Vec<FileWrite>,
    pub outcome: FixOutcome,
}

/// A [`FileFailure`] over sequences of characters.
pub struct Refusal {
    pub cause: FailureCause,
    pub detail: Seq<char>,
}

/// A [`FixFailure`] over sequences of characters.
pub struct FailureModel {
    pub path: Seq<char>,
    pub kind: FileKind,
    pub cause: FailureCause,
    pub detail: Seq<char>,
}

/// A [`FileWrite`] over sequences of characters.
pub struct WriteModel {
    pub path: Seq<char>,
    pub kind: FileKind,
    pub content: Seq<char>,
}

/// A [`FixOutcome`] over sequences of characters.
pub enum OutcomeModel {
    NotFound,
    AlreadyCorrect,
    Modified,
    Failed(FailureModel),
}

/// A [`FixReport`] over sequences of characters.
pub struct ReportModel {
    pub writes: Seq<WriteModel>,
    pub outcome: OutcomeModel,
}

impl View for FileFailure {
    type V = Refusal;

    open spec fn view(&self) -> Refusal {
        Refusal { cause: self.cause, detail: self.detail@ }
    }
}

impl View for FixFailure {
    type V = FailureModel;

    open spec fn view(&self) -> FailureModel {
        FailureModel {
            path: self.path@,
            kind: self.kind,
            cause: self.cause,
            detail: self.detail@,
        }
    }
}

impl View for FileWrite {
    type V = WriteModel;

    open spec fn view(&self) -> WriteModel {
        WriteModel { path: self.path@, kind: self.kind, content: self.content@ }
    }
}

impl View for FixOutcome {
    type V = OutcomeModel;

    open spec fn view(&self) -> OutcomeModel {
        match self {
            FixOutcome::NotFound => OutcomeModel::NotFound,
            FixOutcome::AlreadyCorrect => OutcomeModel::AlreadyCorrect,
            FixOutcome::Modified => OutcomeModel::Modified,
            FixOutcome::Failed(failure) => OutcomeModel::Failed(failure@),
        }
    }
}

/// The models of a list of writes.
pub open spec fn writes_model(writes: Seq<FileWrite>) -> Seq<WriteModel> {
    writes.map_values(|write: FileWrite| write@)
}

impl View for FixReport {
    type V = ReportModel;

    open spec fn view(&self) -> ReportModel {
        ReportModel { writes: writes_model(self.writes@), outcome: self.outcome@ }
    }
}

/// The rule that a kind of file is patched with.
pub open spec fn rule_for(kind: FileKind) -> RuleModel {
    match kind {
        FileKind::LocalState => state_file_rule(),
        FileKind::Preferences => preferences_rule(),
    }
}

/// What processing one file gives: `Ok(None)` where nothing is to be written
/// (the file is missing, or the rule changes nothing), `Ok(Some(text))` with the
/// new text where the rule changed the document, and the cause where the file
/// cannot be processed, with the parser's message where the text is not JSON.
pub open spec fn processed(content: FileContent, rule: RuleModel) -> Result<
    Option<Seq<char>>,
    Refusal,
> {
    match content {
        FileContent::Missing => Ok(None),
        FileContent::Unreadable => Err(
            Refusal { cause: FailureCause::Read, detail: Seq::empty() },
        ),
        FileContent::Text(text) => match parsed_json(text@) {
            Err(message) => Err(Refusal { cause: FailureCause::Parse, detail: message }),
            Ok(doc) => {
                let patched = apply_rule(rule, doc);
                if !patched.changed {
                    Ok(None)
                } else {
                    match pretty_json(patched.doc) {
                        Some(printed) => Ok(Some(printed)),
                        None => Err(
                            Refusal { cause: FailureCause::Serialize, detail: Seq::empty() },
                        ),
                    }
                }
            },
        },
    }
}

/// The state of a fix cycle between two files.
pub struct RunModel {
    pub writes: Seq<WriteModel>,
    pub failure: Option<FailureModel>,
}

/// The cycle after one more file. Once a file has failed nothing more happens.
pub open spec fn run_file(run: RunModel, file: ConfigFile, kind: FileKind) -> RunModel {
    if run.failure is Some {
        run
    } else {
        match processed(file.content, rule_for(kind)) {
            Ok(None) => run,
            Ok(Some(printed)) => RunModel {
                writes: run.writes.push(WriteModel { path: file.path@, kind, content: printed }),
                failure: None,
            },
            Err(refusal) => RunModel {
                writes: run.writes,
                failure: Some(
                    FailureModel {
                        path: file.path@,
                        kind,
                        cause: refusal.cause,
                        detail: refusal.detail,
                    },
                ),
            },
        }
    }
}

/// The cycle after the given files of one kind, in order.
pub open spec fn run_files(run: RunModel, files: Seq<ConfigFile>, kind: FileKind) -> RunModel
    decreases files.len(),
{
    if files.len() == 0 {
        run
    } else {
        run_file(run_files(run, files.drop_last(), kind), files.last(), kind)
    }
}

/// The report of a fix cycle over the given files: the state files first, then
/// the preference files.
pub open spec fn fix_report(
    state_files: Seq<ConfigFile>,
    pref_files: Seq<ConfigFile>,
) -> ReportModel {
    let start = RunModel { writes: Seq::empty(), failure: None };
    let run = run_files(
        run_files(start, state_files, FileKind::LocalState),
        pref_files,
        FileKind::Preferences,
    );
    ReportModel {
        writes: run.writes,
        outcome: match run.failure {
            Some(failure) => OutcomeModel::Failed(failure),
            None => if state_files.len() + pref_files.len() == 0 {
                OutcomeModel::NotFound
            } else if run.writes.len() == 0 {
                OutcomeModel::AlreadyCorrect
            } else {
                OutcomeModel::Modified
            },
        },
    }
}

/// The sequences of characters of the outcome of processing one file.
pub open spec fn processed_model(result: Result<Option<String>, FileFailure>) -> Result<
    Option<Seq<char>>,
    Refusal,
> {
    match result {
        Ok(None) => Ok(None),
        Ok(Some(text)) => Ok(Some(text@)),
        Err(failure) => Err(failure@),
    }
}

/// Processes one file: parses its text, applies `rule`, and prints the document
/// again if the rule changed it.
pub fn process_json_file(content: &FileContent, rule: &PatchRule) -> (result: Result<
    Option<String>,
    FileFailure,
>)
    ensures
        processed_model(result) == processed(*content, rule@),
{
    match content {
        FileContent::Missing => Ok(None),
        FileContent::Unreadable => Err(
            FileFailure { cause: FailureCause::Read, detail: String::new() },
        ),
        FileContent::Text(text) => match parse_document(text.as_str()) {
            Err(message) => Err(FileFailure { cause: FailureCause::Parse, detail: message }),
            Ok(doc) => {
                let mut doc = doc;
                if !rule.apply(&mut doc) {
                    Ok(None)
                } else {
                    match print_document(&doc) {
                        Some(printed) => Ok(Some(printed)),
                        None => Err(
                            FileFailure { cause: FailureCause::Serialize, detail: String::new() },
                        ),
                    }
                }
            },
        },
    }
}

/// The rule that a kind of file is patched with.
pub fn rule_of(kind: FileKind) -> (rule: PatchRule)
    ensures
        rule@ == rule_for(kind),
{
    match kind {
        FileKind::LocalState => PatchRule::state_file(),
        FileKind::Preferences => PatchRule::preferences(),
    }
}

/// Runs the files of one kind, in order, up to the first that fails.
fn run_kind(writes: &mut Vec<FileWrite>, files: &Vec<ConfigFile>, kind: FileKind) -> (failure:
    Option<FixFailure>)
    ensures
        run_files(
            RunModel { writes: writes_model(old(writes)@), failure: None },
            files@,
            kind,
        ) == (RunModel {
            writes: writes_model(final(writes)@),
            failure: match failure {
                Some(f) => Some(f@),
                None => None,
            },
        }),
{
    let ghost start = RunModel { writes: writes_model(writes@), failure: None };
    let rule = rule_of(kind);
    let mut i: usize = 0;
    while i < files.len()
        invariant
            i <= files.len(),
            rule@ == rule_for(kind),
            start == (RunModel { writes: writes_model(old(writes)@), failure: None }),
            run_files(start, files@.take(i as int), kind) == (RunModel {
                writes: writes_model(writes@),
                failure: None,
            }),
        decreases files.len() - i,
    {
        let file = &files[i];
        let ghost before = writes_model(writes@);
        proof {
            assert(files@.take(i + 1).drop_last() =~= files@.take(i as int));
            assert(files@.take(i + 1).last() == files@[i as int]);
        }
        match process_json_file(&file.content, &rule) {
            Ok(None) => {},
            Ok(Some(printed)) => {
                writes.push(FileWrite { path: file.path.clone(), kind, content: printed });
                assert(writes_model(writes@) =~= before.push(writes@.last()@));
            },
            Err(refused) => {
                let failure = FixFailure {
                    path: file.path.clone(),
                    kind,
                    cause: refused.cause,
                    detail: refused.detail,
                };
                proof {
                    assert(run_files(start, files@.take(i + 1), kind) == (RunModel {
                        writes: before,
                        failure: Some(failure@),
                    }));
                    lemma_failure_stays_from(start, files@, (i + 1) as int, kind);
                }
                return Some(failure);
            },
        }
        i += 1;
    }
    assert(files@.take(files@.len() as int) =~= files@);
    None
}

/// Once the first `n` files have led to a failure the remaining files change
/// nothing: they are not looked at.
pub proof fn lemma_failure_stays_from(
    start: RunModel,
    files: Seq<ConfigFile>,
    n: int,
    kind: FileKind,
)
    requires
        0 <= n <= files.len(),
        run_files(start, files.take(n), kind).failure is Some,
    ensures
        run_files(start, files, kind) == run_files(start, files.take(n), kind),
    decreases files.len() - n,
{
    if n == files.len() {
        assert(files.take(n) =~= files);
    } else {
        assert(files.take(n + 1).drop_last() =~= files.take(n));
        lemma_failure_stays_from(start, files, n + 1, kind);
    }
}

/// Runs one fix cycle over the candidate files as they were read: first the
/// state files, then the preference files. The report lists, in order, the
/// files to write. The first file that cannot be read, parsed or printed ends
/// the cycle: the report then holds that failure, and the writes of the files
/// before it.
pub fn apply_fix(state_files: &Vec<ConfigFile>, pref_files: &Vec<ConfigFile>) -> (report: FixReport)
    ensures
        report@ == fix_report(state_files@, pref_files@),
{
    let mut writes: Vec<FileWrite> = Vec::new();
    assert(writes_model(writes@) =~= Seq::empty());
    if let Some(failure) = run_kind(&mut writes, state_files, FileKind::LocalState) {
        proof {
            lemma_failure_stays_from(
                run_files(
                    RunModel { writes: Seq::empty(), failure: None },
                    state_files@,
                    FileKind::LocalState,
                ),
                pref_files@,
                0,
                FileKind::Preferences,
            );
            assert(pref_files@.take(0) =~= Seq::empty());
        }
        return FixReport { writes, outcome: FixOutcome::Failed(failure) };
    }
    if let Some(failure) = run_kind(&mut writes, pref_files, FileKind::Preferences) {
        return FixReport { writes, outcome: FixOutcome::Failed(failure) };
    }
    let outcome = if state_files.len() == 0 && pref_files.len() == 0 {
        FixOutcome::NotFound
    } else if writes.len() == 0 {
        FixOutcome::AlreadyCorrect
    } else {
        FixOutcome::Modified
    };
    FixReport { writes, outcome }
}

/// Without candidate files nothing is written and nothing was found; with
/// any candidate file the outcome is another.
pub proof fn lemma_not_found(state_files: Seq<ConfigFile>, pref_files: Seq<ConfigFile>)
    ensures
        fix_report(state_files, pref_files).outcome is NotFound <==> state_files.len()
            + pref_files.len() == 0,
        state_files.len() + pref_files.len() == 0 ==> fix_report(state_files, pref_files).writes
            == Seq::<WriteModel>::empty(),
{
}

/// The file at position `i` is processed: no file before it fails.
pub open spec fn is_reached(files: Seq<ConfigFile>, kind: FileKind, i: int) -> bool {
    &&& 0 <= i < files.len()
    &&& forall|j: int|
        0 <= j < i ==> processed((#[trigger] files[j]).content, rule_for(kind)) is Ok
}

/// A cycle that has not failed fails over the given files exactly at the first
/// of them that cannot be processed, with its cause and detail.
pub proof fn lemma_first_failure(start: RunModel, files: Seq<ConfigFile>, kind: FileKind)
    requires
        start.failure is None,
    ensures
        match run_files(start, files, kind).failure {
            Some(failure) => exists|i: int|
                is_reached(files, kind, i) && processed(
                    (#[trigger] files[i]).content,
                    rule_for(kind),
                ) == Err::<Option<Seq<char>>, Refusal>(
                    Refusal { cause: failure.cause, detail: failure.detail },
                ) && failure.path == files[i].path@ && failure.kind == kind,
            None => forall|i: int|
                0 <= i < files.len() ==> processed(
                    (#[trigger] files[i]).content,
                    rule_for(kind),
                ) is Ok,
        },
    decreases files.len(),
{
    if files.len() > 0 {
        let rest = files.drop_last();
        let last: int = files.len() - 1;
        lemma_first_failure(start, rest, kind);
        match run_files(start, rest, kind).failure {
            Some(failure) => {
                let i = choose|i: int|
                    is_reached(rest, kind, i) && processed(
                        (#[trigger] rest[i]).content,
                        rule_for(kind),
                    ) == Err::<Option<Seq<char>>, Refusal>(
                        Refusal { cause: failure.cause, detail: failure.detail },
                    ) && failure.path == rest[i].path@ && failure.kind == kind;
                assert(files[i] == rest[i]);
                assert(is_reached(files, kind, i)) by {
                    assert forall|j: int| 0 <= j < i implies processed(
                        (#[trigger] files[j]).content,
                        rule_for(kind),
                    ) is Ok by {
                        assert(files[j] == rest[j]);
                    }
                }
            },
            None => {
                assert forall|j: int| 0 <= j < last implies processed(
                    (#[trigger] files[j]).content,
                    rule_for(kind),
                ) is Ok by {
                    assert(files[j] == rest[j]);
                }
                if processed(files[last].content, rule_for(kind)) is Err {
                    assert(is_reached(files, kind, last));
                }
            },
        }
    }
}

/// Over a cycle that has not failed, the writes that the given files add are
/// those of the files that are reached and changed by their rule, each with its
/// new text.
pub proof fn lemma_writes(
    start: RunModel,
    files: Seq<ConfigFile>,
    kind: FileKind,
    write: WriteModel,
)
    requires
        start.failure is None,
    ensures
        run_files(start, files, kind).writes.contains(write) <==> start.writes.contains(write)
            || exists|i: int|
            is_reached(files, kind, i) && processed((#[trigger] files[i]).content, rule_for(kind))
                == Ok::<Option<Seq<char>>, Refusal>(Some(write.content)) && write.path
                == files[i].path@ && write.kind == kind,
    decreases files.len(),
{
    if files.len() > 0 {
        let rest = files.drop_last();
        let last: int = files.len() - 1;
        let before = run_files(start, rest, kind);
        let after = run_files(start, files, kind);
        lemma_writes(start, rest, kind, write);
        lemma_first_failure(start, rest, kind);
        if after.writes.contains(write) {
            let k = choose|k: int| 0 <= k < after.writes.len() && after.writes[k] == write;
            if k < before.writes.len() {
                assert(before.writes[k] == write);
                if !start.writes.contains(write) {
                    let i = choose|i: int|
                        is_reached(rest, kind, i) && processed(
                            (#[trigger] rest[i]).content,
                            rule_for(kind),
                        ) == Ok::<Option<Seq<char>>, Refusal>(Some(write.content))
                            && write.path == rest[i].path@ && write.kind == kind;
                    assert(files[i] == rest[i]);
                    assert(is_reached(files, kind, i)) by {
                        assert forall|j: int| 0 <= j < i implies processed(
                            (#[trigger] files[j]).content,
                            rule_for(kind),
                        ) is Ok by {
                            assert(files[j] == rest[j]);
                        }
                    }
                }
            } else {
                assert(is_reached(files, kind, last)) by {
                    assert forall|j: int| 0 <= j < last implies processed(
                        (#[trigger] files[j]).content,
                        rule_for(kind),
                    ) is Ok by {
                        assert(files[j] == rest[j]);
                    }
                }
            }
        }
        if start.writes.contains(write) {
            let k = choose|k: int| 0 <= k < before.writes.len() && before.writes[k] == write;
            assert(after.writes[k] == write);
        }
        if exists|i: int|
            is_reached(files, kind, i) && processed((#[trigger] files[i]).content, rule_for(kind))
                == Ok::<Option<Seq<char>>, Refusal>(Some(write.content)) && write.path
                == files[i].path@ && write.kind == kind {
            let i = choose|i: int|
                is_reached(files, kind, i) && processed(
                    (#[trigger] files[i]).content,
                    rule_for(kind),
                ) == Ok::<Option<Seq<char>>, Refusal>(Some(write.content)) && write.path
                    == files[i].path@ && write.kind == kind;
            assert forall|j: int| 0 <= j < i implies processed(
                (#[trigger] rest[j]).content,
                rule_for(kind),
            ) is Ok by {
                assert(files[j] == rest[j]);
            }
            if i < last {
                assert(rest[i] == files[i]);
                assert(is_reached(rest, kind, i));
                let k = choose|k: int| 0 <= k < before.writes.len() && before.writes[k] == write;
                assert(after.writes[k] == write);
            } else {
                assert(before.failure is None) by {
                    if before.failure is Some {
                        let f = choose|f: int|
                            is_reached(rest, kind, f) && processed(
                                (#[trigger] rest[f]).content,
                                rule_for(kind),
                            ) is Err;
                        assert(files[f] == rest[f]);
                    }
                }
                assert(after.writes[before.writes.len() as int] == write);
            }
        }
    }
}

} // verus!
