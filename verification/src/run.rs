//! The run as a whole: from the revisions to the rewritten commits.
//!
//! The repository, the file system, the terminal and the workers are driven from outside:
//! [`RunCommand`] says what to do next, and is told what came of it.

use crate::args::{worker_count, RunArgs};
use crate::error::{error_models, RunError, RunErrorModel};
use crate::ids::{hex_reads_back, hex_text, reads_as, Commit, CommitId, CommitModel};
use crate::state::{MessageModel, TuiMessage, TuiOutcome};
use crate::text::{decimal, decimal_string};
use crate::trees::NewTrees;
use crate::worker::{commit_models, id_models};
use vstd::prelude::*;

verus! {

/// How many characters of a commit identifier are reported.
pub const REPORTED_ID_LEN: usize = 12;

/// What to do about a message when there is no terminal to draw on.
#[derive(Debug, PartialEq, Eq)]
pub enum Report {
    Print(String),
    Skip,
    /// Wait for no further message.
    Stop,
}

/// What a [`Report`] holds.
pub enum ReportModel {
    Print(Seq<char>),
    Skip,
    Stop,
}

impl View for Report {
    type V = ReportModel;

    open spec fn view(&self) -> ReportModel {
        match self {
            Report::Print(text) => ReportModel::Print(text@),
            Report::Skip => ReportModel::Skip,
            Report::Stop => ReportModel::Stop,
        }
    }
}

/// The report of a message: a line for each commit that is done, and the end with the last one.
pub open spec fn report_of(message: MessageModel) -> ReportModel {
    match message {
        MessageModel::Passed { commit_id, modified } => ReportModel::Print(
            "  ✓ "@ + hex_text(commit_id).take(REPORTED_ID_LEN as int) + if modified {
                " (modified)"@
            } else {
                ""@
            },
        ),
        MessageModel::Failed { commit_id, message } => ReportModel::Print(
            "  ✗ "@ + hex_text(commit_id).take(REPORTED_ID_LEN as int) + " "@ + message,
        ),
        MessageModel::AllDone => ReportModel::Stop,
        _ => ReportModel::Skip,
    }
}

fn reported_id(id: &CommitId) -> (s: String)
    requires
        2 * id@.len() >= REPORTED_ID_LEN,
    ensures
        s@ == hex_text(id@).take(REPORTED_ID_LEN as int),
{
    let hex = id.hex();
    let s = hex.as_str().substring_char(0, REPORTED_ID_LEN).to_owned();
    assert(s@ =~= hex_text(id@).take(REPORTED_ID_LEN as int));
    s
}

/// Reports a message as text.
pub fn report_message(message: &TuiMessage) -> (r: Report)
    requires
        message@ matches MessageModel::Passed { commit_id, .. } ==> 2 * commit_id.len()
            >= REPORTED_ID_LEN,
        message@ matches MessageModel::Failed { commit_id, .. } ==> 2 * commit_id.len()
            >= REPORTED_ID_LEN,
    ensures
        r@ == report_of(message@),
{
    match message {
        TuiMessage::Passed { commit_id, modified } => {
            let mut s = "  ✓ ".to_owned();
            s.append(reported_id(commit_id).as_str());
            s.append(
                if *modified {
                    " (modified)"
                } else {
                    ""
                },
            );
            Report::Print(s)
        },
        TuiMessage::Failed { commit_id, message } => {
            let mut s = "  ✗ ".to_owned();
            s.append(reported_id(commit_id).as_str());
            s.append(" ");
            s.append(message.as_str());
            Report::Print(s)
        },
        TuiMessage::AllDone => Report::Stop,
        TuiMessage::Started { .. }
        | TuiMessage::Output { .. }
        | TuiMessage::DiffStat { .. } => Report::Skip,
    }
}

/// How the run was followed, and how that ended.
#[derive(Debug, Clone, Copy, PartialEq, Eq, Structural)]
pub enum Interface {
    /// As text, which asks nothing.
    Text,
    /// In the terminal interface, with what the user chose.
    Tui(Option<TuiOutcome>),
}

/// Whether the results of a run are to be used.
pub open spec fn confirmed(interface: Interface) -> bool {
    interface == Interface::Text || interface == Interface::Tui(Some(TuiOutcome::Confirm))
}

/// The results of the workers.
pub struct RunResults<T> {
    pub interface: Interface,
    pub new_trees: NewTrees<T>,
    /// The commits on which the run did not pass.
    pub failed: Vec<CommitId>,
    /// What went wrong, in the order in which it did.
    pub failures: Vec<RunError>,
}

/// What a [`RunResults`] holds.
#[verifier::ext_equal]
pub struct ResultsModel<T> {
    pub interface: Interface,
    pub new_trees: Map<Seq<u8>, T>,
    pub failed: Seq<Seq<u8>>,
    pub failures: Seq<RunErrorModel>,
}

impl<T> View for RunResults<T> {
    type V = ResultsModel<T>;

    open spec fn view(&self) -> ResultsModel<T> {
        ResultsModel {
            interface: self.interface,
            new_trees: self.new_trees@,
            failed: id_models(self.failed@),
            failures: error_models(self.failures@),
        }
    }
}

impl<T> ResultsModel<T> {
    /// The trees that commits are rewritten with: those of commits on which the run did not pass
    /// are only shown.
    pub open spec fn kept_trees(self) -> Map<Seq<u8>, T> {
        self.new_trees.remove_keys(self.failed.to_set())
    }
}

/// A pass over the commits and their descendants that gives some of them a new tree.
pub struct Rewriting<T> {
    pub trees: NewTrees<T>,
    /// How many commits have got a new tree.
    pub count: u32,
}

impl<T> Rewriting<T> {
    /// A pass that is about to begin.
    pub fn new(trees: NewTrees<T>) -> (r: Self)
        ensures
            r.trees@ == trees@,
            r.count == 0,
    {
        Rewriting { trees, count: 0 }
    }

    /// Visits a commit. Every commit is rebased; one that has a new tree gets it.
    pub fn visit(&mut self, id: &CommitId) -> (r: Option<&T>)
        requires
            old(self).trees@.contains_key(id@) ==> old(self).count < u32::MAX,
        ensures
            final(self).trees == old(self).trees,
            final(self).count == count_visit(old(self).trees@, old(self).count as nat, id@),
            match r {
                Some(tree) => old(self).trees@.contains_key(id@) && *tree == old(self).trees@[id@],
                None => !old(self).trees@.contains_key(id@),
            },
    {
        if self.trees.get(id).is_some() {
            self.count = self.count + 1;
        }
        self.trees.get(id)
    }
}

/// The count after a visit.
pub open spec fn count_visit<T>(trees: Map<Seq<u8>, T>, count: nat, id: Seq<u8>) -> nat {
    if trees.contains_key(id) {
        count + 1
    } else {
        count
    }
}

/// Why a run ends without success.
#[derive(Debug, PartialEq, Eq)]
pub enum CommandError<E> {
    /// An error of the run itself.
    Run(RunError),
    /// An error of the surrounding program.
    Other(E),
}

/// What a [`CommandError`] holds.
pub enum CommandErrorModel<E> {
    Run(RunErrorModel),
    Other(E),
}

impl<E> View for CommandError<E> {
    type V = CommandErrorModel<E>;

    open spec fn view(&self) -> CommandErrorModel<E> {
        match self {
            CommandError::Run(error) => CommandErrorModel::Run(error@),
            CommandError::Other(error) => CommandErrorModel::Other(*error),
        }
    }
}

/// What is under way.
#[derive(Debug, PartialEq, Eq)]
pub enum RunPhase {
    /// The revisions are being resolved.
    Resolve,
    /// The commits are being checked for being immutable.
    Check,
    /// The settings and the ignored files are being read.
    Load,
    /// The run directory is being created.
    CreateDir,
    /// The run directory is being locked.
    Lock,
    /// The cached working copies are being removed.
    Clean,
    /// The workers are running.
    Work,
    /// The commits are being rewritten. What went wrong on the others is kept.
    Rewrite(Vec<RunError>),
    /// The number of rewritten commits is being reported.
    Report(u32, Vec<RunError>),
    /// The transaction is being finished.
    Commit(Vec<RunError>),
    /// The last line is being printed.
    Print,
    /// Nothing is left to do.
    Finished,
}

/// What a [`RunPhase`] holds.
#[verifier::ext_equal]
pub enum PhaseModel {
    Resolve,
    Check,
    Load,
    CreateDir,
    Lock,
    Clean,
    Work,
    Rewrite(Seq<RunErrorModel>),
    Report(u32, Seq<RunErrorModel>),
    Commit(Seq<RunErrorModel>),
    Print,
    Finished,
}

impl View for RunPhase {
    type V = PhaseModel;

    open spec fn view(&self) -> PhaseModel {
        match self {
            RunPhase::Resolve => PhaseModel::Resolve,
            RunPhase::Check => PhaseModel::Check,
            RunPhase::Load => PhaseModel::Load,
            RunPhase::CreateDir => PhaseModel::CreateDir,
            RunPhase::Lock => PhaseModel::Lock,
            RunPhase::Clean => PhaseModel::Clean,
            RunPhase::Work => PhaseModel::Work,
            RunPhase::Rewrite(failures) => PhaseModel::Rewrite(error_models(failures@)),
            RunPhase::Report(count, failures) => PhaseModel::Report(
                *count,
                error_models(failures@),
            ),
            RunPhase::Commit(failures) => PhaseModel::Commit(error_models(failures@)),
            RunPhase::Print => PhaseModel::Print,
            RunPhase::Finished => PhaseModel::Finished,
        }
    }
}

/// What came of the last action.
pub enum RunEvent<T, E> {
    /// The commits that the revisions stand for.
    Resolved(Result<Vec<Commit>, E>),
    /// The commits may be rewritten, or why not.
    Checked(Result<(), E>),
    Loaded(Result<(), E>),
    DirCreated(Result<(), E>),
    /// The lock is held, or why it could not be taken.
    Locked(Result<(), String>),
    Cleaned(Result<(), E>),
    Worked(Result<RunResults<T>, E>),
    /// The pass that was asked for, once it is over.
    Rewritten(Result<Rewriting<T>, E>),
    Committed(Result<(), E>),
    Printed(Result<(), E>),
}

/// What a [`RunEvent`] holds.
pub enum RunEventModel<T, E> {
    Resolved(Result<Seq<CommitModel>, E>),
    Checked(Result<(), E>),
    Loaded(Result<(), E>),
    DirCreated(Result<(), E>),
    Locked(Result<(), Seq<char>>),
    Cleaned(Result<(), E>),
    Worked(Result<ResultsModel<T>, E>),
    /// The trees of the pass, and its count.
    Rewritten(Result<(Map<Seq<u8>, T>, u32), E>),
    Committed(Result<(), E>),
    Printed(Result<(), E>),
}

impl<T, E> View for RunEvent<T, E> {
    type V = RunEventModel<T, E>;

    open spec fn view(&self) -> RunEventModel<T, E> {
        match *self {
            RunEvent::Resolved(Ok(commits)) => RunEventModel::Resolved(
                Ok(commit_models(commits@)),
            ),
            RunEvent::Resolved(Err(error)) => RunEventModel::Resolved(Err(error)),
            RunEvent::Checked(result) => RunEventModel::Checked(result),
            RunEvent::Loaded(result) => RunEventModel::Loaded(result),
            RunEvent::DirCreated(result) => RunEventModel::DirCreated(result),
            RunEvent::Locked(Ok(_)) => RunEventModel::Locked(Ok(())),
            RunEvent::Locked(Err(text)) => RunEventModel::Locked(Err(text@)),
            RunEvent::Cleaned(result) => RunEventModel::Cleaned(result),
            RunEvent::Worked(Ok(results)) => RunEventModel::Worked(Ok(results@)),
            RunEvent::Worked(Err(error)) => RunEventModel::Worked(Err(error)),
            RunEvent::Rewritten(Ok(pass)) => RunEventModel::Rewritten(Ok((pass.trees@, pass.count))),
            RunEvent::Rewritten(Err(error)) => RunEventModel::Rewritten(Err(error)),
            RunEvent::Committed(result) => RunEventModel::Committed(result),
            RunEvent::Printed(result) => RunEventModel::Printed(result),
        }
    }
}

/// What to do next.
pub enum RunAction<T, E> {
    /// Open the workspace and resolve the union of the revisions.
    Resolve,
    /// Check that none of the commits is immutable.
    CheckRewritable,
    /// Read the settings and the ignored files.
    Load,
    CreateDir,
    /// Lock the run directory, so that there is one run at a time.
    Lock,
    /// Remove the cached working copies.
    Clean,
    /// Run the command on the commits with this many workers, and follow it.
    Work(usize),
    /// Start a transaction and visit the commits and their descendants.
    Rewrite(Rewriting<T>),
    /// Finish the transaction, with this description.
    Commit(String),
    /// Print a line of status.
    Status(String),
    /// Print a warning.
    Warn(String),
    /// Stop with this result.
    Return(Result<(), CommandError<E>>),
    /// Nothing: the event does not belong to what is under way.
    Ignore,
}

/// What a [`RunAction`] holds.
#[verifier::ext_equal]
pub enum RunActionModel<T, E> {
    Resolve,
    CheckRewritable,
    Load,
    CreateDir,
    Lock,
    Clean,
    Work(nat),
    /// The trees, and the count that the pass starts from.
    Rewrite(Map<Seq<u8>, T>, nat),
    Commit(Seq<char>),
    Status(Seq<char>),
    Warn(Seq<char>),
    Return(Result<(), CommandErrorModel<E>>),
    Ignore,
}

impl<T, E> View for RunAction<T, E> {
    type V = RunActionModel<T, E>;

    open spec fn view(&self) -> RunActionModel<T, E> {
        match self {
            RunAction::Resolve => RunActionModel::Resolve,
            RunAction::CheckRewritable => RunActionModel::CheckRewritable,
            RunAction::Load => RunActionModel::Load,
            RunAction::CreateDir => RunActionModel::CreateDir,
            RunAction::Lock => RunActionModel::Lock,
            RunAction::Clean => RunActionModel::Clean,
            RunAction::Work(jobs) => RunActionModel::Work(*jobs as nat),
            RunAction::Rewrite(pass) => RunActionModel::Rewrite(pass.trees@, pass.count as nat),
            RunAction::Commit(text) => RunActionModel::Commit(text@),
            RunAction::Status(text) => RunActionModel::Status(text@),
            RunAction::Warn(text) => RunActionModel::Warn(text@),
            RunAction::Return(Ok(_)) => RunActionModel::Return(Ok(())),
            RunAction::Return(Err(error)) => RunActionModel::Return(Err(error@)),
            RunAction::Ignore => RunActionModel::Ignore,
        }
    }
}

/// The summary of a read-only run.
pub open spec fn readonly_summary(shell_command: Seq<char>, commits: nat, failures: nat) -> Seq<
    char,
> {
    "Ran '"@ + shell_command + "' on "@ + decimal(commits) + " commit(s) (readonly). "@ + decimal(
        (commits - failures) as nat,
    ) + " passed, "@ + decimal(failures) + " failed."@
}

/// The line that reports the rewritten commits.
pub open spec fn rewrote_line(shell_command: Seq<char>, count: u32) -> Seq<char> {
    "Rewrote "@ + decimal(count as nat) + " commit(s) with '"@ + shell_command + "'."@
}

/// The description of the transaction.
pub open spec fn transaction_description(shell_command: Seq<char>, count: u32) -> Seq<char> {
    "run: rewrite "@ + decimal(count as nat) + " commit(s) with '"@ + shell_command + "'"@
}

/// A run of the command.
pub struct RunCommand {
    pub args: RunArgs,
    /// The number of CPU cores, if it is known.
    pub parallelism: Option<usize>,
    /// The commits, once they are known.
    pub commits: Vec<Commit>,
    pub phase: RunPhase,
}

/// What a [`RunCommand`] holds.
#[verifier::ext_equal]
pub struct RunCommandModel {
    pub args: RunArgs,
    pub parallelism: Option<usize>,
    pub commits: Seq<CommitModel>,
    pub phase: PhaseModel,
}

impl View for RunCommand {
    type V = RunCommandModel;

    open spec fn view(&self) -> RunCommandModel {
        RunCommandModel {
            args: self.args,
            parallelism: self.parallelism,
            commits: commit_models(self.commits@),
            phase: self.phase@,
        }
    }
}

impl RunCommandModel {
    /// A run that is about to begin.
    pub open spec fn initial(args: RunArgs, parallelism: Option<usize>) -> RunCommandModel {
        RunCommandModel { args, parallelism, commits: seq![], phase: PhaseModel::Resolve }
    }

    pub open spec fn with_phase(self, phase: PhaseModel) -> RunCommandModel {
        RunCommandModel { phase, ..self }
    }

    /// What follows once the commits may be worked on.
    pub open spec fn begin<T, E>(self) -> (RunCommandModel, RunActionModel<T, E>) {
        if self.commits.len() == 0 {
            (
                self.with_phase(PhaseModel::Print),
                RunActionModel::Status("No revisions to run on."@),
            )
        } else {
            (self.with_phase(PhaseModel::Load), RunActionModel::Load)
        }
    }

    /// What follows once the run directory is ready.
    pub open spec fn work<T, E>(self) -> (RunCommandModel, RunActionModel<T, E>) {
        (
            self.with_phase(PhaseModel::Work),
            RunActionModel::Work(
                worker_count(self.args.jobs, self.parallelism, self.commits.len()),
            ),
        )
    }

    /// What follows the workers' results.
    pub open spec fn conclude<T, E>(self, results: ResultsModel<T>) -> (
        RunCommandModel,
        RunActionModel<T, E>,
    ) {
        let cmd = self.args.shell_command@;
        if !confirmed(results.interface) {
            (
                self.with_phase(PhaseModel::Print),
                RunActionModel::Status("Discarded results (cancelled)."@),
            )
        } else if self.args.readonly {
            (
                self.with_phase(PhaseModel::Print),
                RunActionModel::Status(
                    readonly_summary(cmd, self.commits.len(), results.failures.len()),
                ),
            )
        } else if results.new_trees == Map::<Seq<u8>, T>::empty() && results.failures.len() == 0 {
            (
                self.with_phase(PhaseModel::Print),
                RunActionModel::Status(
                    "No commits were rewritten (command did not modify any tracked files)."@,
                ),
            )
        } else if results.kept_trees() == Map::<Seq<u8>, T>::empty() {
            self.settle(results.failures)
        } else {
            (
                self.with_phase(PhaseModel::Rewrite(results.failures)),
                RunActionModel::Rewrite(results.kept_trees(), 0),
            )
        }
    }

    /// What follows once the commits that were to be rewritten are: what went wrong on the others
    /// is a warning if the run was to keep going, and otherwise the first error is the run's.
    pub open spec fn settle<T, E>(self, failures: Seq<RunErrorModel>) -> (
        RunCommandModel,
        RunActionModel<T, E>,
    ) {
        if failures.len() == 0 {
            (self.with_phase(PhaseModel::Finished), RunActionModel::Return(Ok(())))
        } else if self.args.keep_going {
            (
                self.with_phase(PhaseModel::Print),
                RunActionModel::Warn(decimal(failures.len()) + " commit(s) failed."@),
            )
        } else {
            (
                self.with_phase(PhaseModel::Finished),
                RunActionModel::Return(Err(CommandErrorModel::Run(failures[0]))),
            )
        }
    }

    /// What follows an error of the surrounding program.
    pub open spec fn fail<T, E>(self, error: E) -> (RunCommandModel, RunActionModel<T, E>) {
        (
            self.with_phase(PhaseModel::Finished),
            RunActionModel::Return(Err(CommandErrorModel::Other(error))),
        )
    }

    /// What follows an event.
    pub open spec fn step<T, E>(self, event: RunEventModel<T, E>) -> (
        RunCommandModel,
        RunActionModel<T, E>,
    ) {
        let cmd = self.args.shell_command@;
        match (self.phase, event) {
            (PhaseModel::Resolve, RunEventModel::Resolved(Ok(commits))) => {
                let run = RunCommandModel { commits, ..self };
                if self.args.readonly {
                    run.begin()
                } else {
                    (run.with_phase(PhaseModel::Check), RunActionModel::CheckRewritable)
                }
            },
            (PhaseModel::Check, RunEventModel::Checked(Ok(_))) => self.begin(),
            (PhaseModel::Load, RunEventModel::Loaded(Ok(_))) => (
                self.with_phase(PhaseModel::CreateDir),
                RunActionModel::CreateDir,
            ),
            (PhaseModel::CreateDir, RunEventModel::DirCreated(Ok(_))) => (
                self.with_phase(PhaseModel::Lock),
                RunActionModel::Lock,
            ),
            (PhaseModel::Lock, RunEventModel::Locked(Ok(_))) => if self.args.clean {
                (self.with_phase(PhaseModel::Clean), RunActionModel::Clean)
            } else {
                self.work()
            },
            (PhaseModel::Lock, RunEventModel::Locked(Err(text))) => (
                self.with_phase(PhaseModel::Finished),
                RunActionModel::Return(Err(CommandErrorModel::Run(RunErrorModel::Lock(text)))),
            ),
            (PhaseModel::Clean, RunEventModel::Cleaned(Ok(_))) => self.work(),
            (PhaseModel::Work, RunEventModel::Worked(Ok(results))) => self.conclude(results),
            (PhaseModel::Rewrite(failures), RunEventModel::Rewritten(Ok(pass))) => (
                self.with_phase(PhaseModel::Report(pass.1, failures)),
                RunActionModel::Status(rewrote_line(cmd, pass.1)),
            ),
            (PhaseModel::Report(count, failures), RunEventModel::Printed(Ok(_))) => (
                self.with_phase(PhaseModel::Commit(failures)),
                RunActionModel::Commit(transaction_description(cmd, count)),
            ),
            (PhaseModel::Commit(failures), RunEventModel::Committed(Ok(_))) => self.settle(
                failures,
            ),
            (PhaseModel::Print, RunEventModel::Printed(Ok(_))) => (
                self.with_phase(PhaseModel::Finished),
                RunActionModel::Return(Ok(())),
            ),
            (PhaseModel::Resolve, RunEventModel::Resolved(Err(error))) => self.fail(error),
            (PhaseModel::Check, RunEventModel::Checked(Err(error))) => self.fail(error),
            (PhaseModel::Load, RunEventModel::Loaded(Err(error))) => self.fail(error),
            (PhaseModel::CreateDir, RunEventModel::DirCreated(Err(error))) => self.fail(error),
            (PhaseModel::Clean, RunEventModel::Cleaned(Err(error))) => self.fail(error),
            (PhaseModel::Work, RunEventModel::Worked(Err(error))) => self.fail(error),
            (PhaseModel::Rewrite(_), RunEventModel::Rewritten(Err(error))) => self.fail(error),
            (PhaseModel::Report(_, _), RunEventModel::Printed(Err(error))) => self.fail(error),
            (PhaseModel::Commit(_), RunEventModel::Committed(Err(error))) => self.fail(error),
            (PhaseModel::Print, RunEventModel::Printed(Err(error))) => self.fail(error),
            _ => (self, RunActionModel::Ignore),
        }
    }
}

fn fail_with<T, E>(error: E) -> (r: RunAction<T, E>)
    ensures
        r@ == RunActionModel::<T, E>::Return(Err(CommandErrorModel::Other(error))),
{
    RunAction::Return(Err(CommandError::Other(error)))
}

impl RunCommand {
    /// A run that is about to begin, and the first thing to do.
    pub fn new<T, E>(args: RunArgs, parallelism: Option<usize>) -> (r: (
        RunCommand,
        RunAction<T, E>,
    ))
        ensures
            r.0@ == RunCommandModel::initial(args, parallelism),
            r.1@ == RunActionModel::<T, E>::Resolve,
    {
        let run = RunCommand {
            args,
            parallelism,
            commits: Vec::new(),
            phase: RunPhase::Resolve,
        };
        assert(run@ =~= RunCommandModel::initial(args, parallelism));
        (run, RunAction::Resolve)
    }

    fn begin<T, E>(&mut self) -> (action: RunAction<T, E>)
        ensures
            (final(self)@, action@) == old(self)@.begin::<T, E>(),
    {
        if self.commits.len() == 0 {
            self.phase = RunPhase::Print;
            RunAction::Status("No revisions to run on.".to_owned())
        } else {
            self.phase = RunPhase::Load;
            RunAction::Load
        }
    }

    fn work<T, E>(&mut self) -> (action: RunAction<T, E>)
        ensures
            (final(self)@, action@) == old(self)@.work::<T, E>(),
    {
        let jobs = self.args.worker_count(self.parallelism, self.commits.len());
        self.phase = RunPhase::Work;
        RunAction::Work(jobs)
    }

    fn readonly_summary(&self, failures: usize) -> (s: String)
        requires
            failures <= self.commits@.len(),
        ensures
            s@ == readonly_summary(
                self.args.shell_command@,
                self.commits@.len(),
                failures as nat,
            ),
    {
        let total: usize = self.commits.len();
        let passed: usize = total - failures;
        let mut s = "Ran '".to_owned();
        s.append(self.args.shell_command.as_str());
        s.append("' on ");
        s.append(decimal_string(total as u64).as_str());
        s.append(" commit(s) (readonly). ");
        s.append(decimal_string(passed as u64).as_str());
        s.append(" passed, ");
        s.append(decimal_string(failures as u64).as_str());
        s.append(" failed.");
        s
    }

    fn conclude<T, E>(&mut self, results: RunResults<T>) -> (action: RunAction<T, E>)
        requires
            confirmed(results.interface) && old(self).args.readonly ==> results.failures@.len()
                <= old(self).commits@.len(),
        ensures
            (final(self)@, action@) == old(self)@.conclude::<T, E>(results@),
    {
        let confirmed = match results.interface {
            Interface::Text => true,
            Interface::Tui(Some(TuiOutcome::Confirm)) => true,
            Interface::Tui(_) => false,
        };
        let failures = results.failures;
        if !confirmed {
            self.phase = RunPhase::Print;
            return RunAction::Status("Discarded results (cancelled).".to_owned());
        }
        if self.args.readonly {
            self.phase = RunPhase::Print;
            return RunAction::Status(self.readonly_summary(failures.len()));
        }
        if results.new_trees.is_empty() && failures.len() == 0 {
            self.phase = RunPhase::Print;
            return RunAction::Status(
                "No commits were rewritten (command did not modify any tracked files).".to_owned(),
            );
        }
        let trees = results.new_trees.without(&results.failed);
        if trees.is_empty() {
            self.settle(failures)
        } else {
            self.phase = RunPhase::Rewrite(failures);
            RunAction::Rewrite(Rewriting::new(trees))
        }
    }

    fn settle<T, E>(&mut self, failures: Vec<RunError>) -> (action: RunAction<T, E>)
        ensures
            (final(self)@, action@) == old(self)@.settle::<T, E>(error_models(failures@)),
    {
        if failures.len() == 0 {
            self.phase = RunPhase::Finished;
            RunAction::Return(Ok(()))
        } else if self.args.keep_going {
            self.phase = RunPhase::Print;
            RunAction::Warn(
                decimal_string(failures.len() as u64).concat(" commit(s) failed."),
            )
        } else {
            self.phase = RunPhase::Finished;
            let mut failures = failures;
            RunAction::Return(Err(CommandError::Run(failures.remove(0))))
        }
    }

    fn rewrote_line(&self, count: u32) -> (s: String)
        ensures
            s@ == rewrote_line(self.args.shell_command@, count),
    {
        let mut s = "Rewrote ".to_owned();
        s.append(decimal_string(count as u64).as_str());
        s.append(" commit(s) with '");
        s.append(self.args.shell_command.as_str());
        s.append("'.");
        s
    }

    fn transaction_description(&self, count: u32) -> (s: String)
        ensures
            s@ == transaction_description(self.args.shell_command@, count),
    {
        let mut s = "run: rewrite ".to_owned();
        s.append(decimal_string(count as u64).as_str());
        s.append(" commit(s) with '");
        s.append(self.args.shell_command.as_str());
        s.append("'");
        s
    }

    /// Takes note of what came of the last action and says what to do next.
    pub fn cmd_run<T, E>(&mut self, event: RunEvent<T, E>) -> (action: RunAction<T, E>)
        requires
            event matches RunEvent::Worked(Ok(results)) ==> (old(self).phase is Work && old(
                self,
            ).args.readonly && confirmed(results.interface) ==> results.failures@.len() <= old(
                self,
            ).commits@.len()),
        ensures
            (final(self)@, action@) == old(self)@.step(event@),
    {
        let mut phase = RunPhase::Finished;
        std::mem::swap(&mut phase, &mut self.phase);
        match (phase, event) {
            (RunPhase::Resolve, RunEvent::Resolved(Ok(commits))) => {
                self.commits = commits;
                if self.args.readonly {
                    self.begin()
                } else {
                    self.phase = RunPhase::Check;
                    RunAction::CheckRewritable
                }
            },
            (RunPhase::Check, RunEvent::Checked(Ok(_))) => self.begin(),
            (RunPhase::Load, RunEvent::Loaded(Ok(_))) => {
                self.phase = RunPhase::CreateDir;
                RunAction::CreateDir
            },
            (RunPhase::CreateDir, RunEvent::DirCreated(Ok(_))) => {
                self.phase = RunPhase::Lock;
                RunAction::Lock
            },
            (RunPhase::Lock, RunEvent::Locked(Ok(_))) => if self.args.clean {
                self.phase = RunPhase::Clean;
                RunAction::Clean
            } else {
                self.work()
            },
            (RunPhase::Lock, RunEvent::Locked(Err(text))) => RunAction::Return(
                Err(CommandError::Run(RunError::Lock(text))),
            ),
            (RunPhase::Clean, RunEvent::Cleaned(Ok(_))) => self.work(),
            (RunPhase::Work, RunEvent::Worked(Ok(results))) => self.conclude(results),
            (RunPhase::Rewrite(failures), RunEvent::Rewritten(Ok(pass))) => {
                let count = pass.count;
                self.phase = RunPhase::Report(count, failures);
                RunAction::Status(self.rewrote_line(count))
            },
            (RunPhase::Report(count, failures), RunEvent::Printed(Ok(_))) => {
                self.phase = RunPhase::Commit(failures);
                RunAction::Commit(self.transaction_description(count))
            },
            (RunPhase::Commit(failures), RunEvent::Committed(Ok(_))) => self.settle(failures),
            (RunPhase::Print, RunEvent::Printed(Ok(_))) => RunAction::Return(Ok(())),
            (RunPhase::Resolve, RunEvent::Resolved(Err(error))) => fail_with(error),
            (RunPhase::Check, RunEvent::Checked(Err(error))) => fail_with(error),
            (RunPhase::Load, RunEvent::Loaded(Err(error))) => fail_with(error),
            (RunPhase::CreateDir, RunEvent::DirCreated(Err(error))) => fail_with(error),
            (RunPhase::Clean, RunEvent::Cleaned(Err(error))) => fail_with(error),
            (RunPhase::Work, RunEvent::Worked(Err(error))) => fail_with(error),
            (RunPhase::Rewrite(_), RunEvent::Rewritten(Err(error))) => fail_with(error),
            (RunPhase::Report(_, _), RunEvent::Printed(Err(error))) => fail_with(error),
            (RunPhase::Commit(_), RunEvent::Committed(Err(error))) => fail_with(error),
            (RunPhase::Print, RunEvent::Printed(Err(error))) => fail_with(error),
            (phase, _) => {
                self.phase = phase;
                RunAction::Ignore
            },
        }
    }
}

/// Without a terminal, a line tells of each commit that is done, by the beginning of its
/// identifier, whether it passed and was modified, or failed and why. The last message ends the
/// report, and other messages are not reported.
pub proof fn ends_are_reported(message: MessageModel)
    ensures
        match message {
            MessageModel::Passed { commit_id, modified } => exists|id: Seq<char>|
                #[trigger] reads_as(id, commit_id) && report_of(message) == ReportModel::Print(
                    "  ✓ "@ + id.take(12) + if modified {
                        " (modified)"@
                    } else {
                        ""@
                    },
                ),
            MessageModel::Failed { commit_id, message: why } => exists|id: Seq<char>|
                #[trigger] reads_as(id, commit_id) && report_of(message) == ReportModel::Print(
                    "  ✗ "@ + id.take(12) + " "@ + why,
                ),
            MessageModel::AllDone => report_of(message) is Stop,
            _ => report_of(message) is Skip,
        },
{
    match message {
        MessageModel::Passed { commit_id, .. } => {
            hex_reads_back(commit_id);
        },
        MessageModel::Failed { commit_id, .. } => {
            hex_reads_back(commit_id);
        },
        _ => {},
    }
}

/// Results are used if nobody was asked, or the user confirmed them, and not otherwise.
pub proof fn results_are_used_unless_declined(outcome: Option<TuiOutcome>)
    ensures
        confirmed(Interface::Text),
        confirmed(Interface::Tui(Some(TuiOutcome::Confirm))),
        !confirmed(Interface::Tui(Some(TuiOutcome::Cancel))),
        !confirmed(Interface::Tui(None)),
{
}

/// A commit is counted if it has a new tree, and not otherwise.
pub proof fn rewritten_commits_are_counted<T>(trees: Map<Seq<u8>, T>, count: nat, id: Seq<u8>)
    ensures
        trees.contains_key(id) ==> count_visit(trees, count, id) == count + 1,
        !trees.contains_key(id) ==> count_visit(trees, count, id) == count,
{
}

} // verus!
