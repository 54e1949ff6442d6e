//! The reconciliation engine: it decides, step by step, what is to be done
//! to bring a batch of encrypted files in line with their commands.
//!
//! The engine starts no process. In every state it names the one action it
//! waits for; the caller performs it and hands back what came of it.

use crate::parser::{
    current_value, mapping_views, parse_commands, parsed, patterns_compile, value_at,
    CommandMapping, MappingView, KEY_PATTERN,
};
use crate::pattern::pattern_compiles;
use crate::store::{read_tool_run, tool_result, ProcessRun, StoreError, StoreErrorView};
use crate::text::{
    chars_of, line_views, lines_of, split_lines, string_of, strip_line_feeds, text_of,
    without_trailing_line_feeds,
};
use vstd::prelude::*;

verus! {

/// Whether drifted keys are written back or only reported.
#[derive(Debug, Clone, Copy, PartialEq, Eq, Structural)]
pub enum Mode {
    /// Write the fresh value of every drifted key back.
    Sync,
    /// Report drifted keys and leave the files alone.
    Check,
}

/// Where the engine stands within the file it works on.
#[derive(Debug, Clone, Copy, PartialEq, Eq, Structural)]
pub enum Stage {
    /// Waiting for the plaintext of the current file.
    Decrypting,
    /// Waiting for the output of the current mapping's command.
    Running,
    /// Waiting for the current mapping's value to be written.
    Writing,
    /// Every file has been dealt with, or the run was given up.
    Done,
}

/// Something that went wrong during a run. None of these but `Parse`
/// stops the run.
#[derive(Debug, Clone, PartialEq, Eq)]
pub enum Failure {
    /// The file could not be decrypted.
    Decrypt { file: String, error: StoreError },
    /// The annotation patterns were not accepted; the run is given up.
    Parse { file: String },
    /// The command for `key` could not be started, reported failure, or
    /// printed what is no text.
    CommandExecutionFailed { file: String, key: String },
    /// The fresh value of `key` could not be written.
    Write { file: String, key: String, error: StoreError },
}

/// A [`Failure`] as plain values.
pub ghost enum FailureView {
    Decrypt { file: Seq<char>, error: StoreErrorView },
    Parse { file: Seq<char> },
    CommandExecutionFailed { file: Seq<char>, key: Seq<char> },
    Write { file: Seq<char>, key: Seq<char>, error: StoreErrorView },
}

impl View for Failure {
    type V = FailureView;

    open spec fn view(&self) -> FailureView {
        match self {
            Failure::Decrypt { file, error } => FailureView::Decrypt {
                file: file@,
                error: error@,
            },
            Failure::Parse { file } => FailureView::Parse { file: file@ },
            Failure::CommandExecutionFailed { file, key } => FailureView::CommandExecutionFailed {
                file: file@,
                key: key@,
            },
            Failure::Write { file, key, error } => FailureView::Write {
                file: file@,
                key: key@,
                error: error@,
            },
        }
    }
}

/// A key of a file.
#[derive(Debug, Clone, PartialEq, Eq)]
pub struct KeyRef {
    pub file: String,
    pub key: String,
}

/// A [`KeyRef`] as plain values.
pub ghost struct KeyRefView {
    pub file: Seq<char>,
    pub key: Seq<char>,
}

impl View for KeyRef {
    type V = KeyRefView;

    open spec fn view(&self) -> KeyRefView {
        KeyRefView { file: self.file@, key: self.key@ }
    }
}

/// What a run has found and done so far.
#[derive(Debug, Clone, PartialEq, Eq)]
pub struct Report {
    /// Everything that went wrong, in the order in which it happened.
    pub failures: Vec<Failure>,
    /// The keys found to differ from their command's output, in check mode.
    pub drifted: Vec<KeyRef>,
    /// The keys whose fresh value was written, in sync mode.
    pub updated: Vec<KeyRef>,
}

/// A [`Report`] as plain values.
pub ghost struct ReportView {
    pub failures: Seq<FailureView>,
    pub drifted: Seq<KeyRefView>,
    pub updated: Seq<KeyRefView>,
}

/// The views of a vector of failures, element by element.
pub open spec fn failure_views(failures: Seq<Failure>) -> Seq<FailureView> {
    Seq::new(failures.len(), |i: int| failures[i]@)
}

/// The views of a vector of key references, element by element.
pub open spec fn key_views(keys: Seq<KeyRef>) -> Seq<KeyRefView> {
    Seq::new(keys.len(), |i: int| keys[i]@)
}

/// The views of a vector of strings, element by element.
pub open spec fn file_views(files: Seq<String>) -> Seq<Seq<char>> {
    Seq::new(files.len(), |i: int| files[i]@)
}

impl View for Report {
    type V = ReportView;

    open spec fn view(&self) -> ReportView {
        ReportView {
            failures: failure_views(self.failures@),
            drifted: key_views(self.drifted@),
            updated: key_views(self.updated@),
        }
    }
}

impl ReportView {
    /// Whether a run with this report counts as successful: nothing went
    /// wrong and, in check mode, no key has drifted.
    pub open spec fn succeeded(self, mode: Mode) -> bool {
        self.failures.len() == 0 && (mode == Mode::Sync || self.drifted.len() == 0)
    }
}

/// A key's stored value held against the fresh output of its command.
#[derive(Debug, Clone, PartialEq, Eq)]
pub struct Reconciliation {
    pub key: String,
    /// The output of the key's command.
    pub expected_value: String,
    /// The value that the plaintext holds for the key, if it holds one.
    pub current_value: Option<String>,
    /// Whether the key has drifted.
    pub changed: bool,
}

/// Whether a key has drifted: it has where the plaintext holds no value for
/// it, or another value than the command's output.
pub open spec fn has_drifted(current: Option<Seq<char>>, expected: Seq<char>) -> bool {
    current != Some(expected)
}

/// Holds the stored value of `key` against the output of its command.
pub fn reconcile(key: String, expected_value: String, current_value: Option<String>) -> (r:
    Reconciliation)
    ensures
        r.key == key,
        r.expected_value == expected_value,
        r.current_value == current_value,
        r.changed == has_drifted(text_of(current_value), expected_value@),
{
    let changed = match &current_value {
        Some(value) => !(*value == expected_value),
        None => true,
    };
    Reconciliation { key, expected_value, current_value, changed }
}

/// What the engine asks its caller to do next.
#[derive(Debug, Clone, PartialEq, Eq)]
pub enum Action {
    /// Decrypt `file` and hand back what came of the tool's invocation.
    Decrypt { file: String },
    /// Run `command` in a shell, with no input, and hand back what came of
    /// it.
    Run { command: String },
    /// Set `key` to `value` in `file` and hand back what came of the tool's
    /// invocation.
    Write { file: String, key: String, value: String },
    /// Nothing is left to do.
    Finish,
}

/// An [`Action`] as plain values.
pub ghost enum ActionView {
    Decrypt { file: Seq<char> },
    Run { command: Seq<char> },
    Write { file: Seq<char>, key: Seq<char>, value: Seq<char> },
    Finish,
}

impl View for Action {
    type V = ActionView;

    open spec fn view(&self) -> ActionView {
        match self {
            Action::Decrypt { file } => ActionView::Decrypt { file: file@ },
            Action::Run { command } => ActionView::Run { command: command@ },
            Action::Write { file, key, value } => ActionView::Write {
                file: file@,
                key: key@,
                value: value@,
            },
            Action::Finish => ActionView::Finish,
        }
    }
}

/// What a shell command yields: its output without the line feeds at its
/// end, where it could be started, reported success and printed well-formed
/// UTF-8; nothing otherwise.
pub open spec fn command_result(run: ProcessRun) -> Option<Seq<char>> {
    match tool_result(run) {
        Ok(text) => Some(strip_line_feeds(text)),
        Err(_) => None,
    }
}

/// The state of a run, as plain values.
pub ghost struct EngineView {
    pub mode: Mode,
    /// The files of the batch, in the order in which they are dealt with.
    pub files: Seq<Seq<char>>,
    /// The index of the current file.
    pub file: int,
    pub stage: Stage,
    /// The lines of the current file's plaintext.
    pub lines: Seq<Seq<char>>,
    /// The mappings of the current file.
    pub mappings: Seq<MappingView>,
    /// The index of the current mapping.
    pub next: int,
    /// The value that is being written.
    pub expected: Seq<char>,
    pub report: ReportView,
}

impl EngineView {
    /// The state in which a run over `files` begins.
    pub open spec fn initial(mode: Mode, files: Seq<Seq<char>>) -> EngineView {
        EngineView {
            mode,
            files,
            file: 0,
            stage: if files.len() == 0 {
                Stage::Done
            } else {
                Stage::Decrypting
            },
            lines: Seq::empty(),
            mappings: Seq::empty(),
            next: 0,
            expected: Seq::empty(),
            report: ReportView {
                failures: Seq::empty(),
                drifted: Seq::empty(),
                updated: Seq::empty(),
            },
        }
    }

    /// The indices point at a file and a mapping wherever the stage speaks
    /// of one, and nothing is ever written in check mode.
    pub open spec fn wf(self) -> bool {
        &&& 0 <= self.file <= self.files.len()
        &&& !(self.stage is Done) ==> self.file < self.files.len()
        &&& (self.stage is Running || self.stage is Writing) ==> 0 <= self.next
            < self.mappings.len()
        &&& self.stage is Writing ==> self.mode == Mode::Sync
    }

    /// The action that the engine waits for in this state.
    pub open spec fn pending(self) -> ActionView {
        match self.stage {
            Stage::Decrypting => ActionView::Decrypt { file: self.files[self.file] },
            Stage::Running => ActionView::Run { command: self.mappings[self.next].command },
            Stage::Writing => ActionView::Write {
                file: self.files[self.file],
                key: self.mappings[self.next].key,
                value: self.expected,
            },
            Stage::Done => ActionView::Finish,
        }
    }

    /// The current file and the current mapping's key.
    pub open spec fn current_key(self) -> KeyRefView {
        KeyRefView { file: self.files[self.file], key: self.mappings[self.next].key }
    }

    /// This state, with one more failure on record.
    pub open spec fn failed(self, failure: FailureView) -> EngineView {
        EngineView {
            report: ReportView { failures: self.report.failures.push(failure), ..self.report },
            ..self
        }
    }

    /// This state, with the current key on record as drifted.
    pub open spec fn drifted(self) -> EngineView {
        EngineView {
            report: ReportView {
                drifted: self.report.drifted.push(self.current_key()),
                ..self.report
            },
            ..self
        }
    }

    /// This state, with the current key on record as updated.
    pub open spec fn updated(self) -> EngineView {
        EngineView {
            report: ReportView {
                updated: self.report.updated.push(self.current_key()),
                ..self.report
            },
            ..self
        }
    }

    /// The run is over.
    pub open spec fn finished(self) -> EngineView {
        EngineView { stage: Stage::Done, ..self }
    }

    /// Turns to file `file`, or ends the run where the batch has no such
    /// file.
    pub open spec fn enter_file(self, file: int) -> EngineView {
        if file < self.files.len() {
            EngineView {
                file,
                stage: Stage::Decrypting,
                lines: Seq::empty(),
                mappings: Seq::empty(),
                next: 0,
                ..self
            }
        } else {
            EngineView { file: self.files.len() as int, ..self.finished() }
        }
    }

    /// Turns to mapping `next` of the current file, or to the next file
    /// where the current one has no such mapping.
    pub open spec fn enter_mapping(self, next: int) -> EngineView {
        if next < self.mappings.len() {
            EngineView { next, stage: Stage::Running, ..self }
        } else {
            self.enter_file(self.file + 1)
        }
    }

    /// The state after the pending action was performed and `run` came of
    /// it.
    ///
    /// A file that cannot be decrypted is put on record and left. A command
    /// that yields nothing is put on record and its key left alone. A key
    /// whose stored value equals the command's output is left alone; one
    /// that differs, or is not stored at all, is put on record in check mode
    /// and written in sync mode. A failed write is put on record. Patterns
    /// that are not accepted end the run.
    pub open spec fn step(self, run: ProcessRun) -> EngineView {
        match self.stage {
            Stage::Done => self,
            Stage::Decrypting => match tool_result(run) {
                Err(error) => self.failed(
                    FailureView::Decrypt { file: self.files[self.file], error },
                ).enter_file(self.file + 1),
                Ok(text) => if patterns_compile() {
                    EngineView {
                        lines: lines_of(text),
                        mappings: parsed(text),
                        ..self
                    }.enter_mapping(0)
                } else {
                    self.failed(FailureView::Parse { file: self.files[self.file] }).finished()
                },
            },
            Stage::Running => match command_result(run) {
                None => self.failed(
                    FailureView::CommandExecutionFailed {
                        file: self.files[self.file],
                        key: self.mappings[self.next].key,
                    },
                ).enter_mapping(self.next + 1),
                Some(expected) => if !pattern_compiles(KEY_PATTERN@) {
                    self.failed(FailureView::Parse { file: self.files[self.file] }).finished()
                } else if !has_drifted(
                    value_at(self.lines, self.mappings[self.next].key, 0),
                    expected,
                ) {
                    self.enter_mapping(self.next + 1)
                } else if self.mode == Mode::Check {
                    self.drifted().enter_mapping(self.next + 1)
                } else {
                    EngineView { stage: Stage::Writing, expected, ..self }
                },
            },
            Stage::Writing => match tool_result(run) {
                Err(error) => self.failed(
                    FailureView::Write {
                        file: self.files[self.file],
                        key: self.mappings[self.next].key,
                        error,
                    },
                ).enter_mapping(self.next + 1),
                Ok(_) => self.updated().enter_mapping(self.next + 1),
            },
        }
    }

    /// The state after a whole series of actions was performed, `runs`
    /// being what came of each in turn.
    pub open spec fn run(self, runs: Seq<ProcessRun>) -> EngineView
        decreases runs.len(),
    {
        if runs.len() == 0 {
            self
        } else {
            self.run(runs.drop_last()).step(runs.last())
        }
    }
}

/// What came of the pending action brings nothing new: where a command was
/// run and yielded a value, the current file already stores that value
/// under the command's key.
pub open spec fn brings_nothing_new(state: EngineView, run: ProcessRun) -> bool {
    state.stage is Running ==> match command_result(run) {
        Some(expected) => !has_drifted(
            value_at(state.lines, state.mappings[state.next].key, 0),
            expected,
        ),
        None => true,
    }
}

/// A step leads from a well-formed state to a well-formed state, in the
/// same mode and over the same files.
pub proof fn lemma_step_keeps_wf(state: EngineView, run: ProcessRun)
    requires
        state.wf(),
    ensures
        state.step(run).wf(),
        state.step(run).mode == state.mode,
        state.step(run).files == state.files,
{
}

/// Every state of a run is well-formed, whatever came of its actions.
pub proof fn lemma_run_keeps_wf(state: EngineView, runs: Seq<ProcessRun>)
    requires
        state.wf(),
    ensures
        state.run(runs).wf(),
        state.run(runs).mode == state.mode,
        state.run(runs).files == state.files,
    decreases runs.len(),
{
    if runs.len() > 0 {
        lemma_run_keeps_wf(state, runs.drop_last());
        lemma_step_keeps_wf(state.run(runs.drop_last()), runs.last());
    }
}

/// Check mode never writes: whatever files a run in check mode is begun
/// over and whatever came of its actions so far, the action it waits for is
/// no write.
pub proof fn lemma_check_never_writes(files: Seq<Seq<char>>, runs: Seq<ProcessRun>)
    ensures
        !(EngineView::initial(Mode::Check, files).run(runs).pending() is Write),
{
    lemma_run_keeps_wf(EngineView::initial(Mode::Check, files), runs);
}

/// A run in which no command brings anything new asks for no write: begun
/// in a state that waits for none, it never comes to wait for one. This is
/// what makes a second sync idle, once the first has stored every output.
pub proof fn lemma_settled_run_never_writes(state: EngineView, runs: Seq<ProcessRun>)
    requires
        state.wf(),
        !(state.stage is Writing),
        forall|i: int|
            0 <= i < runs.len() ==> brings_nothing_new(
                #[trigger] state.run(runs.take(i)),
                runs[i],
            ),
    ensures
        !(state.run(runs).stage is Writing),
        state.run(runs).report.updated == state.report.updated,
    decreases runs.len(),
{
    if runs.len() > 0 {
        let before = runs.drop_last();
        assert(runs.take(runs.len() - 1) == before);
        assert forall|i: int| 0 <= i < before.len() implies brings_nothing_new(
            #[trigger] state.run(before.take(i)),
            before[i],
        ) by {
            assert(before.take(i) == runs.take(i));
        }
        lemma_settled_run_never_writes(state, before);
        lemma_run_keeps_wf(state, before);
        assert(brings_nothing_new(state.run(runs.take(runs.len() - 1)), runs[runs.len() - 1]));
    }
}

/// A run never takes a failure or a drifted key off its report.
pub proof fn lemma_report_grows(state: EngineView, run: ProcessRun)
    requires
        state.wf(),
    ensures
        state.report.failures.is_prefix_of(state.step(run).report.failures),
        state.report.drifted.is_prefix_of(state.step(run).report.drifted),
        state.report.updated.is_prefix_of(state.step(run).report.updated),
{
}

/// A run over a batch of files, in one of the two modes.
pub struct Engine {
    mode: Mode,
    files: Vec<String>,
    file: usize,
    stage: Stage,
    lines: Vec<Vec<char>>,
    mappings: Vec<CommandMapping>,
    next: usize,
    expected: String,
    report: Report,
}

impl View for Engine {
    type V = EngineView;

    closed spec fn view(&self) -> EngineView {
        EngineView {
            mode: self.mode,
            files: file_views(self.files@),
            file: self.file as int,
            stage: self.stage,
            lines: line_views(self.lines@),
            mappings: mapping_views(self.mappings@),
            next: self.next as int,
            expected: self.expected@,
            report: self.report@,
        }
    }
}

impl Engine {
    /// Begins a run over `files`. A batch without files is done at once.
    pub fn new(mode: Mode, files: Vec<String>) -> (engine: Engine)
        ensures
            engine@ == EngineView::initial(mode, file_views(files@)),
            engine@.wf(),
    {
        let stage = if files.len() == 0 {
            Stage::Done
        } else {
            Stage::Decrypting
        };
        let engine = Engine {
            mode,
            files,
            file: 0,
            stage,
            lines: Vec::new(),
            mappings: Vec::new(),
            next: 0,
            expected: String::new(),
            report: Report { failures: Vec::new(), drifted: Vec::new(), updated: Vec::new() },
        };
        assert(engine@.lines =~= Seq::empty());
        assert(engine@.mappings =~= Seq::empty());
        assert(engine@.report.failures =~= Seq::empty());
        assert(engine@.report.drifted =~= Seq::empty());
        assert(engine@.report.updated =~= Seq::empty());
        engine
    }

    /// The mode of the run.
    pub fn mode(&self) -> (mode: Mode)
        ensures
            mode == self@.mode,
    {
        self.mode
    }

    /// Whether nothing is left to do.
    pub fn is_done(&self) -> (done: bool)
        ensures
            done == (self@.stage is Done),
    {
        match self.stage {
            Stage::Done => true,
            _ => false,
        }
    }

    /// What the run has found and done so far.
    pub fn report(&self) -> (report: &Report)
        ensures
            report@ == self@.report,
    {
        &self.report
    }

    /// Whether the run, as far as it has come, counts as successful.
    pub fn succeeded(&self) -> (ok: bool)
        ensures
            ok == self@.report.succeeded(self@.mode),
    {
        self.report.failures.len() == 0 && (match self.mode {
            Mode::Sync => true,
            Mode::Check => self.report.drifted.len() == 0,
        })
    }

    /// The exit status that the run calls for: 0 where it succeeded, 1
    /// otherwise.
    pub fn exit_code(&self) -> (code: u8)
        ensures
            code == if self@.report.succeeded(self@.mode) {
                0u8
            } else {
                1u8
            },
    {
        if self.succeeded() {
            0
        } else {
            1
        }
    }

    /// Whether the state is well-formed. Every engine that `new` made and
    /// `step` moved is.
    pub fn is_well_formed(&self) -> (ok: bool)
        ensures
            ok == self@.wf(),
    {
        let pointed = self.next < self.mappings.len();
        self.file <= self.files.len() && match self.stage {
            Stage::Done => true,
            Stage::Decrypting => self.file < self.files.len(),
            Stage::Running => self.file < self.files.len() && pointed,
            Stage::Writing => self.file < self.files.len() && pointed && match self.mode {
                Mode::Sync => true,
                Mode::Check => false,
            },
        }
    }

    /// The action that the engine waits for.
    pub fn pending(&self) -> (action: Action)
        requires
            self@.wf(),
        ensures
            action@ == self@.pending(),
    {
        match self.stage {
            Stage::Decrypting => Action::Decrypt { file: self.files[self.file].clone() },
            Stage::Running => Action::Run { command: self.mappings[self.next].command.clone() },
            Stage::Writing => Action::Write {
                file: self.files[self.file].clone(),
                key: self.mappings[self.next].key.clone(),
                value: self.expected.clone(),
            },
            Stage::Done => Action::Finish,
        }
    }

    fn current_key(&self) -> (key: KeyRef)
        requires
            self@.wf(),
            self@.stage is Running || self@.stage is Writing,
        ensures
            key@ == self@.current_key(),
    {
        KeyRef { file: self.files[self.file].clone(), key: self.mappings[self.next].key.clone() }
    }

    fn fail(&mut self, failure: Failure)
        ensures
            final(self)@ == old(self)@.failed(failure@),
    {
        self.report.failures.push(failure);
        assert(final(self)@.report.failures =~= old(self)@.report.failures.push(failure@));
    }

    fn note_drift(&mut self)
        requires
            old(self)@.wf(),
            old(self)@.stage is Running || old(self)@.stage is Writing,
        ensures
            final(self)@ == old(self)@.drifted(),
    {
        let at = self.current_key();
        self.report.drifted.push(at);
        assert(final(self)@.report.drifted =~= old(self)@.report.drifted.push(at@));
    }

    fn note_update(&mut self)
        requires
            old(self)@.wf(),
            old(self)@.stage is Running || old(self)@.stage is Writing,
        ensures
            final(self)@ == old(self)@.updated(),
    {
        let at = self.current_key();
        self.report.updated.push(at);
        assert(final(self)@.report.updated =~= old(self)@.report.updated.push(at@));
    }

    fn finish(&mut self)
        ensures
            final(self)@ == old(self)@.finished(),
    {
        self.stage = Stage::Done;
    }

    fn enter_file(&mut self, file: usize)
        ensures
            final(self)@ == old(self)@.enter_file(file as int),
    {
        if file < self.files.len() {
            self.file = file;
            self.stage = Stage::Decrypting;
            self.lines = Vec::new();
            self.mappings = Vec::new();
            self.next = 0;
            assert(final(self)@.lines =~= Seq::empty());
            assert(final(self)@.mappings =~= Seq::empty());
        } else {
            self.file = self.files.len();
            self.stage = Stage::Done;
        }
    }

    fn enter_mapping(&mut self, next: usize)
        requires
            old(self)@.file < usize::MAX,
        ensures
            final(self)@ == old(self)@.enter_mapping(next as int),
    {
        if next < self.mappings.len() {
            self.next = next;
            self.stage = Stage::Running;
        } else {
            self.enter_file(self.file + 1);
        }
    }

    /// Takes what came of the pending action and moves on. The result is
    /// the action that the engine waits for next.
    pub fn step(&mut self, run: ProcessRun) -> (action: Action)
        requires
            old(self)@.wf(),
        ensures
            final(self)@ == old(self)@.step(run),
            final(self)@.wf(),
            action@ == final(self)@.pending(),
    {
        match self.stage {
            Stage::Done => {},
            Stage::Decrypting => {
                match read_tool_run(run) {
                    Err(error) => {
                        let file = self.files[self.file].clone();
                        self.fail(Failure::Decrypt { file, error });
                        assert(self.file < self.files.len());
                        self.enter_file(self.file + 1);
                    },
                    Ok(text) => {
                        match parse_commands(text.as_str()) {
                            Ok(mappings) => {
                                self.lines = split_lines(&chars_of(text.as_str()));
                                self.mappings = mappings;
                                assert(self.file < self.files.len());
                                self.enter_mapping(0);
                            },
                            Err(_) => {
                                let file = self.files[self.file].clone();
                                self.fail(Failure::Parse { file });
                                self.finish();
                            },
                        }
                    },
                }
            },
            Stage::Running => {
                match read_tool_run(run) {
                    Err(_) => {
                        let at = self.current_key();
                        self.fail(Failure::CommandExecutionFailed { file: at.file, key: at.key });
                        assert(self.next < self.mappings.len() && self.file < self.files.len());
                        self.enter_mapping(self.next + 1);
                    },
                    Ok(text) => {
                        let expected = string_of(
                            &without_trailing_line_feeds(&chars_of(text.as_str())),
                        );
                        match current_value(&self.lines, &self.mappings[self.next].key) {
                            Err(_) => {
                                let file = self.files[self.file].clone();
                                self.fail(Failure::Parse { file });
                                self.finish();
                            },
                            Ok(current) => {
                                let key = self.mappings[self.next].key.clone();
                                let outcome = reconcile(key, expected, current);
                                if !outcome.changed {
                                    assert(self.next < self.mappings.len() && self.file < self.files.len());
                                    self.enter_mapping(self.next + 1);
                                } else {
                                    match self.mode {
                                        Mode::Check => {
                                            self.note_drift();
                                            assert(self.next < self.mappings.len() && self.file < self.files.len());
                                            self.enter_mapping(self.next + 1);
                                        },
                                        Mode::Sync => {
                                            self.expected = outcome.expected_value;
                                            self.stage = Stage::Writing;
                                        },
                                    }
                                }
                            },
                        }
                    },
                }
            },
            Stage::Writing => {
                let at = self.current_key();
                match read_tool_run(run) {
                    Err(error) => {
                        self.fail(Failure::Write { file: at.file, key: at.key, error });
                    },
                    Ok(_) => {
                        self.note_update();
                    },
                }
                assert(self.next < self.mappings.len() && self.file < self.files.len());
                self.enter_mapping(self.next + 1);
            },
        }
        self.pending()
    }
}

} // verus!
