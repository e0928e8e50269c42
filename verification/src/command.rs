//! Running the shell command on one revision.
//!
//! The working copy, the child process and the clock are driven from outside: [`CommandRun`] says
//! what to do next, and is told what came of it.

use crate::error::{ExitStatus, RunError, RunErrorModel};
use crate::ids::{hex_reads_back, hex_text, reads_as, ChangeId, Commit, CommitId};
use vstd::prelude::*;

verus! {

/// The shell and the flag that makes it run its next argument.
pub fn get_shell(windows: bool) -> (r: (&'static str, &'static str))
    ensures
        windows ==> r.0@ == "cmd"@ && r.1@ == "/c"@,
        !windows ==> r.0@ == "/bin/sh"@ && r.1@ == "-c"@,
{
    if windows {
        ("cmd", "/c")
    } else {
        ("/bin/sh", "-c")
    }
}

/// A process to start.
#[derive(Debug, PartialEq, Eq)]
pub struct CommandLine {
    pub program: String,
    pub args: Vec<String>,
    /// Environment variables to set, by name.
    pub env: Vec<(String, String)>,
}

/// What a [`CommandLine`] holds.
#[verifier::ext_equal]
pub struct CommandLineModel {
    pub program: Seq<char>,
    pub args: Seq<Seq<char>>,
    pub env: Seq<(Seq<char>, Seq<char>)>,
}

impl View for CommandLine {
    type V = CommandLineModel;

    open spec fn view(&self) -> CommandLineModel {
        CommandLineModel {
            program: self.program@,
            args: self.args@.map_values(|a: String| a@),
            env: self.env@.map_values(|v: (String, String)| (v.0@, v.1@)),
        }
    }
}

/// The process that runs a shell command on a revision. The command finds the revision's change
/// and commit identifiers, in hexadecimal, in `JJ_CHANGE` and `JJ_COMMIT`.
pub open spec fn command_line(
    windows: bool,
    shell_command: Seq<char>,
    change: Seq<u8>,
    commit: Seq<u8>,
) -> CommandLineModel {
    CommandLineModel {
        program: if windows {
            "cmd"@
        } else {
            "/bin/sh"@
        },
        args: seq![
            if windows {
                "/c"@
            } else {
                "-c"@
            },
            shell_command,
        ],
        env: seq![
            ("JJ_CHANGE"@, hex_text(change)),
            ("JJ_COMMIT"@, hex_text(commit)),
        ],
    }
}

/// Why the command did not pass on a revision, and the tree that it left, if a failing command
/// changed it.
#[derive(Debug, PartialEq, Eq)]
pub struct RunFailure<T> {
    pub error: RunError,
    pub new_tree: Option<T>,
}

/// What a [`RunFailure`] holds.
#[verifier::ext_equal]
pub struct RunFailureModel<T> {
    pub error: RunErrorModel,
    pub new_tree: Option<T>,
}

impl<T> View for RunFailure<T> {
    type V = RunFailureModel<T>;

    open spec fn view(&self) -> RunFailureModel<T> {
        RunFailureModel { error: self.error@, new_tree: self.new_tree }
    }
}

/// What is under way on a revision.
#[derive(Debug, PartialEq, Eq)]
pub enum CommandPhase {
    /// What earlier commands left in the working copy is being undone.
    Reset,
    /// The revision is being checked out.
    CheckOut,
    /// The process is being started.
    Spawn,
    /// The process is being asked whether it has ended.
    Wait,
    /// The working copy of the running process is being read.
    LiveSnapshot,
    /// A tree that the running process left is being made known.
    Publish,
    /// Time is passing until the process is asked again.
    Sleep,
    /// The process has ended; the rest of its output is being read.
    Join(ExitStatus),
    /// The working copy that the process left is being read.
    FinalSnapshot(ExitStatus),
    /// Nothing is left to do.
    Finished,
}

/// What a snapshot of the working copy found.
#[derive(Debug, PartialEq, Eq)]
pub struct Snapshot<T> {
    /// The current tree.
    pub tree: T,
    /// Whether the tree has changed since the last snapshot or the checkout.
    pub changed: bool,
    /// Whether the tree differs from the revision's own.
    pub differs: bool,
}

impl<T> Snapshot<T> {
    /// The tree, if it is a new one for the revision.
    pub open spec fn new_tree(self) -> Option<T> {
        if self.differs {
            Some(self.tree)
        } else {
            None
        }
    }
}

/// What came of the last action.
#[derive(Debug, PartialEq, Eq)]
pub enum CommandEvent<T> {
    ResetDone(Result<(), String>),
    CheckedOut(Result<(), String>),
    Spawned(Result<(), String>),
    /// The exit status, if the process has ended.
    Waited(Result<Option<ExitStatus>, String>),
    Snapshotted(Result<Snapshot<T>, String>),
    Published,
    Slept,
    Joined,
}

/// What to do next.
#[derive(Debug, PartialEq, Eq)]
pub enum CommandAction<T> {
    /// Undo what was done to the working copy since its last snapshot or checkout, new files
    /// included.
    Reset,
    /// Check out the revision.
    CheckOut,
    /// Start the process and the readers of its output.
    Spawn(CommandLine),
    /// Ask the process whether it has ended.
    Wait,
    /// Snapshot the working copy.
    Snapshot,
    /// Store the tree as the revision's new tree and send its diff summary.
    Publish(T),
    /// Let a second pass.
    Sleep,
    /// Wait for the readers of the output.
    Join,
    /// Stop with this result: the tree that the command left, if it is a new one.
    Finish(Result<Option<T>, RunFailure<T>>),
    /// Nothing: the event does not belong to what is under way.
    Ignore,
}

/// What a [`CommandAction`] holds.
pub enum CommandActionModel<T> {
    Reset,
    CheckOut,
    Spawn(CommandLineModel),
    Wait,
    Snapshot,
    Publish(T),
    Sleep,
    Join,
    Finish(Result<Option<T>, RunFailureModel<T>>),
    Ignore,
}

impl<T> View for CommandAction<T> {
    type V = CommandActionModel<T>;

    open spec fn view(&self) -> CommandActionModel<T> {
        match self {
            CommandAction::Reset => CommandActionModel::Reset,
            CommandAction::CheckOut => CommandActionModel::CheckOut,
            CommandAction::Spawn(line) => CommandActionModel::Spawn(line@),
            CommandAction::Wait => CommandActionModel::Wait,
            CommandAction::Snapshot => CommandActionModel::Snapshot,
            CommandAction::Publish(tree) => CommandActionModel::Publish(*tree),
            CommandAction::Sleep => CommandActionModel::Sleep,
            CommandAction::Join => CommandActionModel::Join,
            CommandAction::Finish(Ok(tree)) => CommandActionModel::Finish(Ok(*tree)),
            CommandAction::Finish(Err(failure)) => CommandActionModel::Finish(Err(failure@)),
            CommandAction::Ignore => CommandActionModel::Ignore,
        }
    }
}

/// The phase that follows an event.
pub open spec fn next_phase<T>(
    readonly: bool,
    phase: CommandPhase,
    event: CommandEvent<T>,
) -> CommandPhase {
    match (phase, event) {
        (CommandPhase::Reset, CommandEvent::ResetDone(Ok(_))) => CommandPhase::CheckOut,
        (CommandPhase::Reset, CommandEvent::ResetDone(Err(_))) => CommandPhase::Finished,
        (CommandPhase::CheckOut, CommandEvent::CheckedOut(Ok(_))) => CommandPhase::Spawn,
        (CommandPhase::CheckOut, CommandEvent::CheckedOut(Err(_))) => CommandPhase::Finished,
        (CommandPhase::Spawn, CommandEvent::Spawned(Ok(_))) => CommandPhase::Wait,
        (CommandPhase::Spawn, CommandEvent::Spawned(Err(_))) => CommandPhase::Finished,
        (CommandPhase::Wait, CommandEvent::Waited(Ok(Some(status)))) => CommandPhase::Join(status),
        (CommandPhase::Wait, CommandEvent::Waited(Ok(None))) => if readonly {
            CommandPhase::Sleep
        } else {
            CommandPhase::LiveSnapshot
        },
        (CommandPhase::Wait, CommandEvent::Waited(Err(_))) => CommandPhase::Finished,
        (CommandPhase::LiveSnapshot, CommandEvent::Snapshotted(Ok(snapshot))) =>
            if snapshot.changed {
            CommandPhase::Publish
        } else {
            CommandPhase::Sleep
        },
        (CommandPhase::LiveSnapshot, CommandEvent::Snapshotted(Err(_))) => CommandPhase::Finished,
        (CommandPhase::Publish, CommandEvent::Published) => CommandPhase::Sleep,
        (CommandPhase::Sleep, CommandEvent::Slept) => CommandPhase::Wait,
        (CommandPhase::Join(status), CommandEvent::Joined) => if readonly {
            CommandPhase::Finished
        } else {
            CommandPhase::FinalSnapshot(status)
        },
        (CommandPhase::FinalSnapshot(_), CommandEvent::Snapshotted(_)) => CommandPhase::Finished,
        _ => phase,
    }
}

/// The result of a command that ended with a status and left a tree.
pub open spec fn command_result<T>(
    shell_command: Seq<char>,
    commit: Seq<u8>,
    status: ExitStatus,
    new_tree: Option<T>,
) -> Result<Option<T>, RunFailureModel<T>> {
    if status.success {
        Ok(new_tree)
    } else {
        Err(
            RunFailureModel {
                error: RunErrorModel::CommandFailure {
                    cmd: shell_command,
                    status: status@,
                    commit,
                },
                new_tree,
            },
        )
    }
}

/// A run that stops on an error of the system.
pub open spec fn stop_on<T>(error: RunErrorModel) -> CommandActionModel<T> {
    CommandActionModel::Finish(Err(RunFailureModel { error, new_tree: None }))
}

/// The command to run, and what is under way.
#[derive(Debug, PartialEq, Eq)]
pub struct CommandRun {
    pub shell_command: String,
    pub commit: CommitId,
    pub change: ChangeId,
    /// Whether the shell is that of Windows.
    pub windows: bool,
    /// Whether the working copy is left unread.
    pub readonly: bool,
    pub phase: CommandPhase,
}

impl CommandRun {
    /// The action that an event calls for.
    pub open spec fn action<T>(self, event: CommandEvent<T>) -> CommandActionModel<T> {
        match (self.phase, event) {
            (CommandPhase::Reset, CommandEvent::ResetDone(Ok(_))) => CommandActionModel::CheckOut,
            (CommandPhase::Reset, CommandEvent::ResetDone(Err(text))) => stop_on(
                RunErrorModel::FailedCheckout(text@),
            ),
            (CommandPhase::CheckOut, CommandEvent::CheckedOut(Ok(_))) => CommandActionModel::Spawn(
                command_line(self.windows, self.shell_command@, self.change@, self.commit@),
            ),
            (CommandPhase::CheckOut, CommandEvent::CheckedOut(Err(text))) => stop_on(
                RunErrorModel::FailedCheckout(text@),
            ),
            (CommandPhase::Spawn, CommandEvent::Spawned(Ok(_))) => CommandActionModel::Wait,
            (CommandPhase::Spawn, CommandEvent::Spawned(Err(text))) => stop_on(
                RunErrorModel::Io(text@),
            ),
            (CommandPhase::Wait, CommandEvent::Waited(Ok(Some(_)))) => CommandActionModel::Join,
            (CommandPhase::Wait, CommandEvent::Waited(Ok(None))) => if self.readonly {
                CommandActionModel::Sleep
            } else {
                CommandActionModel::Snapshot
            },
            (CommandPhase::Wait, CommandEvent::Waited(Err(text))) => stop_on(
                RunErrorModel::Io(text@),
            ),
            (CommandPhase::LiveSnapshot, CommandEvent::Snapshotted(Ok(snapshot))) =>
                if snapshot.changed {
                CommandActionModel::Publish(snapshot.tree)
            } else {
                CommandActionModel::Sleep
            },
            (CommandPhase::LiveSnapshot, CommandEvent::Snapshotted(Err(text))) => stop_on(
                RunErrorModel::Snapshot(text@),
            ),
            (CommandPhase::Publish, CommandEvent::Published) => CommandActionModel::Sleep,
            (CommandPhase::Sleep, CommandEvent::Slept) => CommandActionModel::Wait,
            (CommandPhase::Join(status), CommandEvent::Joined) => if self.readonly {
                CommandActionModel::Finish(
                    command_result(self.shell_command@, self.commit@, status, None),
                )
            } else {
                CommandActionModel::Snapshot
            },
            (CommandPhase::FinalSnapshot(status), CommandEvent::Snapshotted(Ok(snapshot))) =>
                CommandActionModel::Finish(
                command_result(self.shell_command@, self.commit@, status, snapshot.new_tree()),
            ),
            (CommandPhase::FinalSnapshot(_), CommandEvent::Snapshotted(Err(text))) => stop_on(
                RunErrorModel::Snapshot(text@),
            ),
            _ => CommandActionModel::Ignore,
        }
    }

    /// A command that is about to run on a revision, and the first thing to do.
    pub fn new<T>(shell_command: &str, commit: &Commit, windows: bool, readonly: bool) -> (r: (
        CommandRun,
        CommandAction<T>,
    ))
        ensures
            r.0.shell_command@ == shell_command@,
            r.0.commit@ == commit.id@,
            r.0.change@ == commit.change_id@,
            r.0.windows == windows,
            r.0.readonly == readonly,
            r.0.phase == CommandPhase::Reset,
            r.1 == CommandAction::<T>::Reset,
    {
        (
            CommandRun {
                shell_command: shell_command.to_owned(),
                commit: commit.id.clone(),
                change: commit.change_id.clone(),
                windows,
                readonly,
                phase: CommandPhase::Reset,
            },
            CommandAction::Reset,
        )
    }

    /// The process to start.
    fn command_line(&self) -> (line: CommandLine)
        ensures
            line@ == command_line(self.windows, self.shell_command@, self.change@, self.commit@),
    {
        let (program, flag) = get_shell(self.windows);
        let mut args: Vec<String> = Vec::new();
        args.push(flag.to_owned());
        args.push(self.shell_command.clone());
        let mut env: Vec<(String, String)> = Vec::new();
        env.push(("JJ_CHANGE".to_owned(), self.change.hex()));
        env.push(("JJ_COMMIT".to_owned(), self.commit.hex()));
        let line = CommandLine { program: program.to_owned(), args, env };
        assert(line@ =~= command_line(
            self.windows,
            self.shell_command@,
            self.change@,
            self.commit@,
        ));
        line
    }

    /// The result of the command, given its status and the tree that it left.
    fn result<T>(&self, status: ExitStatus, new_tree: Option<T>) -> (r: CommandAction<T>)
        ensures
            r@ == CommandActionModel::Finish(
                command_result(self.shell_command@, self.commit@, status, new_tree),
            ),
    {
        if status.success {
            CommandAction::Finish(Ok(new_tree))
        } else {
            CommandAction::Finish(
                Err(
                    RunFailure {
                        error: RunError::CommandFailure {
                            cmd: self.shell_command.clone(),
                            status,
                            commit: self.commit.clone(),
                        },
                        new_tree,
                    },
                ),
            )
        }
    }

    /// Takes note of what came of the last action and says what to do next.
    pub fn run_command_on_commit<T>(&mut self, event: CommandEvent<T>) -> (action: CommandAction<
        T,
    >)
        ensures
            action@ == old(self).action(event),
            final(self).phase == next_phase(old(self).readonly, old(self).phase, event),
            final(self).shell_command == old(self).shell_command,
            final(self).commit == old(self).commit,
            final(self).change == old(self).change,
            final(self).windows == old(self).windows,
            final(self).readonly == old(self).readonly,
    {
        let mut phase = CommandPhase::Finished;
        std::mem::swap(&mut phase, &mut self.phase);
        let (next, action) = match (phase, event) {
            (CommandPhase::Reset, CommandEvent::ResetDone(Ok(_))) => (
                CommandPhase::CheckOut,
                CommandAction::CheckOut,
            ),
            (CommandPhase::Reset, CommandEvent::ResetDone(Err(text))) => (
                CommandPhase::Finished,
                stop_with(RunError::FailedCheckout(text)),
            ),
            (CommandPhase::CheckOut, CommandEvent::CheckedOut(Ok(_))) => (
                CommandPhase::Spawn,
                CommandAction::Spawn(self.command_line()),
            ),
            (CommandPhase::CheckOut, CommandEvent::CheckedOut(Err(text))) => (
                CommandPhase::Finished,
                stop_with(RunError::FailedCheckout(text)),
            ),
            (CommandPhase::Spawn, CommandEvent::Spawned(Ok(_))) => (
                CommandPhase::Wait,
                CommandAction::Wait,
            ),
            (CommandPhase::Spawn, CommandEvent::Spawned(Err(text))) => (
                CommandPhase::Finished,
                stop_with(RunError::Io(text)),
            ),
            (CommandPhase::Wait, CommandEvent::Waited(Ok(Some(status)))) => (
                CommandPhase::Join(status),
                CommandAction::Join,
            ),
            (CommandPhase::Wait, CommandEvent::Waited(Ok(None))) => if self.readonly {
                (CommandPhase::Sleep, CommandAction::Sleep)
            } else {
                (CommandPhase::LiveSnapshot, CommandAction::Snapshot)
            },
            (CommandPhase::Wait, CommandEvent::Waited(Err(text))) => (
                CommandPhase::Finished,
                stop_with(RunError::Io(text)),
            ),
            (CommandPhase::LiveSnapshot, CommandEvent::Snapshotted(Ok(snapshot))) =>
                if snapshot.changed {
                (CommandPhase::Publish, CommandAction::Publish(snapshot.tree))
            } else {
                (CommandPhase::Sleep, CommandAction::Sleep)
            },
            (CommandPhase::LiveSnapshot, CommandEvent::Snapshotted(Err(text))) => (
                CommandPhase::Finished,
                stop_with(RunError::Snapshot(text)),
            ),
            (CommandPhase::Publish, CommandEvent::Published) => (
                CommandPhase::Sleep,
                CommandAction::Sleep,
            ),
            (CommandPhase::Sleep, CommandEvent::Slept) => (CommandPhase::Wait, CommandAction::Wait),
            (CommandPhase::Join(status), CommandEvent::Joined) => if self.readonly {
                (CommandPhase::Finished, self.result(status, None))
            } else {
                (CommandPhase::FinalSnapshot(status), CommandAction::Snapshot)
            },
            (CommandPhase::FinalSnapshot(status), CommandEvent::Snapshotted(Ok(snapshot))) => {
                let new_tree = if snapshot.differs {
                    Some(snapshot.tree)
                } else {
                    None
                };
                (CommandPhase::Finished, self.result(status, new_tree))
            },
            (CommandPhase::FinalSnapshot(_), CommandEvent::Snapshotted(Err(text))) => (
                CommandPhase::Finished,
                stop_with(RunError::Snapshot(text)),
            ),
            (phase, _) => (phase, CommandAction::Ignore),
        };
        self.phase = next;
        action
    }
}

/// The phase after a whole history of events, the oldest first.
pub open spec fn phase_after<T>(readonly: bool, events: Seq<CommandEvent<T>>) -> CommandPhase
    decreases events.len(),
{
    if events.len() == 0 {
        CommandPhase::Reset
    } else {
        next_phase(readonly, phase_after(readonly, events.drop_last()), events.last())
    }
}

/// A read-only run never reads the working copy back, stores no tree and leaves none.
pub proof fn readonly_leaves_no_tree<T>(
    run: CommandRun,
    events: Seq<CommandEvent<T>>,
    event: CommandEvent<T>,
)
    requires
        run.readonly,
        run.phase == phase_after(true, events),
    ensures
        run.action(event) !is Snapshot,
        run.action(event) !is Publish,
        run.action(event) matches CommandActionModel::Finish(Ok(tree)) ==> tree is None,
        run.action(event) matches CommandActionModel::Finish(Err(failure))
            ==> failure.new_tree is None,
{
    lemma_readonly_phase(events);
}

proof fn lemma_readonly_phase<T>(events: Seq<CommandEvent<T>>)
    ensures
        phase_after(true, events) !is LiveSnapshot,
        phase_after(true, events) !is Publish,
        phase_after(true, events) !is FinalSnapshot,
    decreases events.len(),
{
    if events.len() > 0 {
        lemma_readonly_phase(events.drop_last());
    }
}

/// Of a command that ends without an error of the system, the last snapshot alone decides which
/// tree is its result, whether it passed or failed: the tree that it left, exactly if that differs
/// from the revision's own. Trees that were seen while it ran do not count.
pub proof fn result_is_the_tree_that_was_left<T>(
    run: CommandRun,
    snapshot: Snapshot<T>,
)
    requires
        run.phase is FinalSnapshot,
    ensures
        run.action(CommandEvent::Snapshotted(Ok(snapshot))) matches CommandActionModel::Finish(
            result,
        ) && match result {
            Ok(tree) => tree == snapshot.new_tree(),
            Err(failure) => failure.error is CommandFailure && failure.new_tree
                == snapshot.new_tree(),
        },
{
}

/// The process is started only after the revision has been checked out, with the shell, the
/// command and the revision's identifiers.
pub proof fn checkout_precedes_the_command<T>(run: CommandRun, event: CommandEvent<T>)
    ensures
        run.action(event) matches CommandActionModel::Spawn(line) ==> {
            &&& event is CheckedOut && event->CheckedOut_0 is Ok
            &&& line == command_line(
                run.windows,
                run.shell_command@,
                run.change@,
                run.commit@,
            )
        },
{
}

/// A working copy, by path: the tracked files as they are, and as the last snapshot or checkout
/// left them.
#[verifier::ext_equal]
pub struct CopyModel {
    pub files: Map<Seq<char>, Seq<u8>>,
    pub recorded: Map<Seq<char>, Seq<u8>>,
}

impl CopyModel {
    /// The copy after a reset: the files are as they were recorded.
    pub open spec fn after_reset(self) -> CopyModel {
        CopyModel { files: self.recorded, ..self }
    }

    /// The copy after a tree has been checked out. Only files in which the tree differs from what
    /// was recorded are touched.
    pub open spec fn after_checkout(self, tree: Map<Seq<char>, Seq<u8>>) -> CopyModel {
        let untouched = |path: Seq<char>| self.recorded.get(path) == tree.get(path);
        CopyModel {
            files: Map::new(
                |path: Seq<char>|
                    if untouched(path) {
                        self.files.contains_key(path)
                    } else {
                        tree.contains_key(path)
                    },
                |path: Seq<char>|
                    if untouched(path) {
                        self.files[path]
                    } else {
                        tree[path]
                    },
            ),
            recorded: tree,
        }
    }
}

/// The working copy after a history of events in which a run did what it asked for, up to the
/// start of the process.
pub open spec fn copy_after<T>(
    copy: CopyModel,
    tree: Map<Seq<char>, Seq<u8>>,
    readonly: bool,
    events: Seq<CommandEvent<T>>,
) -> CopyModel
    decreases events.len(),
{
    if events.len() == 0 {
        copy
    } else {
        let before = copy_after(copy, tree, readonly, events.drop_last());
        match (phase_after(readonly, events.drop_last()), events.last()) {
            (CommandPhase::Reset, CommandEvent::ResetDone(Ok(_))) => before.after_reset(),
            (CommandPhase::CheckOut, CommandEvent::CheckedOut(Ok(_))) => before.after_checkout(
                tree,
            ),
            _ => before,
        }
    }
}

proof fn lemma_copy_is_recorded<T>(
    copy: CopyModel,
    tree: Map<Seq<char>, Seq<u8>>,
    readonly: bool,
    events: Seq<CommandEvent<T>>,
)
    ensures
        phase_after(readonly, events) is CheckOut ==> copy_after(
            copy,
            tree,
            readonly,
            events,
        ).files == copy_after(copy, tree, readonly, events).recorded,
    decreases events.len(),
{
    if events.len() > 0 {
        lemma_copy_is_recorded(copy, tree, readonly, events.drop_last());
    }
}

/// The command starts on exactly the files of the revision: whatever earlier commands left in the
/// working copy, read-only or not, none of it is there any more.
pub proof fn command_starts_on_the_revision<T>(
    run: CommandRun,
    copy: CopyModel,
    tree: Map<Seq<char>, Seq<u8>>,
    events: Seq<CommandEvent<T>>,
    event: CommandEvent<T>,
)
    requires
        run.phase == phase_after(run.readonly, events),
        run.action(event) is Spawn,
    ensures
        copy_after(copy, tree, run.readonly, events.push(event)).files == tree,
{
    lemma_copy_is_recorded(copy, tree, run.readonly, events);
    assert(events.push(event).drop_last() =~= events);
    let before = copy_after(copy, tree, run.readonly, events);
    let after = before.after_checkout(tree);
    assert forall|path: Seq<char>| #[trigger]
        after.files.dom().contains(path) == tree.dom().contains(path) && (
    after.files.dom().contains(path) ==> after.files[path] == tree[path]) by {
        assert(before.recorded.get(path) == before.files.get(path));
    }
    assert(after.files.dom() =~= tree.dom());
    assert(after.files =~= tree);
}

/// Whether the process was seen to end with this status.
pub open spec fn ended_with<T>(events: Seq<CommandEvent<T>>, status: ExitStatus) -> bool {
    events.contains(CommandEvent::Waited(Ok(Some(status))))
}

/// The command passes only if its process ended in success, and is reported to have failed only
/// if its process ended otherwise, with the very status that is reported.
pub proof fn result_follows_the_exit_status<T>(
    run: CommandRun,
    events: Seq<CommandEvent<T>>,
    event: CommandEvent<T>,
)
    requires
        run.phase == phase_after(run.readonly, events),
    ensures
        run.action(event) matches CommandActionModel::Finish(Ok(_)) ==> exists|
            status: ExitStatus,
        | #[trigger]
            ended_with(events, status) && status.success,
        run.action(event) matches CommandActionModel::Finish(Err(failure)) ==> (
        failure.error matches RunErrorModel::CommandFailure { status: reported, .. } ==> exists|
            status: ExitStatus,
        | #[trigger]
            ended_with(events, status) && !status.success && status@ == reported),
{
    lemma_status_was_seen(run.readonly, events);
}

proof fn lemma_status_was_seen<T>(readonly: bool, events: Seq<CommandEvent<T>>)
    ensures
        phase_after(readonly, events) matches CommandPhase::Join(status) ==> ended_with(
            events,
            status,
        ),
        phase_after(readonly, events) matches CommandPhase::FinalSnapshot(status) ==> ended_with(
            events,
            status,
        ),
    decreases events.len(),
{
    if events.len() > 0 {
        let before = events.drop_last();
        lemma_status_was_seen(readonly, before);
        assert(events[events.len() - 1] == events.last());
        assert forall|status: ExitStatus| ended_with(before, status) implies ended_with(
            events,
            status,
        ) by {
            let e = CommandEvent::<T>::Waited(Ok(Some(status)));
            let i = choose|i: int| 0 <= i < before.len() && before[i] == e;
            assert(events[i] == e);
        }
    }
}

/// A finished run stays finished and asks for nothing more.
pub proof fn finished_is_final<T>(run: CommandRun, event: CommandEvent<T>)
    requires
        run.phase is Finished,
    ensures
        next_phase(run.readonly, run.phase, event) is Finished,
        run.action(event) is Ignore,
{
}

/// A run finishes exactly with the event that yields its result.
pub proof fn finishing_yields_a_result<T>(run: CommandRun, event: CommandEvent<T>)
    requires
        !(run.phase is Finished),
    ensures
        next_phase(run.readonly, run.phase, event) is Finished <==> run.action(event) is Finish,
{
}

fn stop_with<T>(error: RunError) -> (r: CommandAction<T>)
    ensures
        r@ == stop_on::<T>(error@),
{
    CommandAction::Finish(Err(RunFailure { error, new_tree: None }))
}

/// The process is the shell of the system with the command as its script. It finds the revision's
/// identifiers in its environment, in hexadecimal.
pub proof fn process_runs_the_command(
    windows: bool,
    shell_command: Seq<char>,
    change: Seq<u8>,
    commit: Seq<u8>,
)
    ensures
        ({
            let line = command_line(windows, shell_command, change, commit);
            &&& windows ==> line.program == "cmd"@ && line.args[0] == "/c"@
            &&& !windows ==> line.program == "/bin/sh"@ && line.args[0] == "-c"@
            &&& line.args.len() == 2 && line.args[1] == shell_command
            &&& line.env.len() == 2
            &&& line.env[0].0 == "JJ_CHANGE"@ && reads_as(line.env[0].1, change)
            &&& line.env[1].0 == "JJ_COMMIT"@ && reads_as(line.env[1].1, commit)
        }),
{
    hex_reads_back(change);
    hex_reads_back(commit);
}

/// A run after an event.
pub open spec fn after_event<T>(run: CommandRun, event: CommandEvent<T>) -> CommandRun {
    CommandRun { phase: next_phase(run.readonly, run.phase, event), ..run }
}

/// Whether a result is that of a command that ended with a status and left a new tree, or none.
pub open spec fn tells_outcome<T>(
    action: CommandActionModel<T>,
    run: CommandRun,
    status: ExitStatus,
    new_tree: Option<T>,
) -> bool {
    action matches CommandActionModel::Finish(result) && match result {
        Ok(tree) => status.success && tree == new_tree,
        Err(failure) => {
            &&& !status.success
            &&& failure.new_tree == new_tree
            &&& failure.error matches RunErrorModel::CommandFailure { cmd, status: told, commit }
            &&& cmd == run.shell_command@ && told == status@ && commit == run.commit@
        },
    }
}

/// A command that nothing disturbs is run to its end: the working copy is reset, the revision
/// checked out, the process started and waited for, its output read to the end, and, unless the
/// run is read-only, the tree that it left taken. The result is success exactly if the process
/// reported it, with the new tree exactly if the tree differs from the revision's.
pub proof fn command_runs_to_its_end<T>(
    run: CommandRun,
    status: ExitStatus,
    snapshot: Snapshot<T>,
)
    requires
        run.phase is Reset,
    ensures
        ({
            let reset = CommandEvent::<T>::ResetDone(Ok(()));
            let out = CommandEvent::<T>::CheckedOut(Ok(()));
            let spawned = CommandEvent::<T>::Spawned(Ok(()));
            let ended = CommandEvent::<T>::Waited(Ok(Some(status)));
            let joined = CommandEvent::<T>::Joined;
            let taken = CommandEvent::Snapshotted(Ok(snapshot));
            let r1 = after_event(run, reset);
            let r2 = after_event(r1, out);
            let r3 = after_event(r2, spawned);
            let r4 = after_event(r3, ended);
            let r5 = after_event(r4, joined);
            &&& run.action(reset) is CheckOut
            &&& r1.action(out) is Spawn
            &&& r2.action(spawned) is Wait
            &&& r3.action(ended) is Join
            &&& run.readonly ==> tells_outcome(r4.action(joined), run, status, None)
            &&& !run.readonly ==> r4.action(joined) is Snapshot
            &&& !run.readonly && snapshot.differs ==> tells_outcome(
                r5.action(taken),
                run,
                status,
                Some(snapshot.tree),
            )
            &&& !run.readonly && !snapshot.differs ==> tells_outcome(
                r5.action(taken),
                run,
                status,
                None,
            )
        }),
{
}

/// While the process runs, it is asked again and again. In between the working copy is read,
/// unless the run is read-only, and a tree that has changed since the last time is made known.
pub proof fn command_is_waited_for<T>(run: CommandRun, snapshot: Snapshot<T>)
    requires
        run.phase is Wait,
    ensures
        ({
            let running = CommandEvent::<T>::Waited(Ok(None));
            let seen = CommandEvent::Snapshotted(Ok(snapshot));
            let slept = CommandEvent::<T>::Slept;
            let r1 = after_event(run, running);
            let r2 = after_event(r1, seen);
            let r3 = after_event(r2, CommandEvent::<T>::Published);
            &&& run.readonly ==> run.action(running) is Sleep && r1.action(slept) is Wait
                && after_event(r1, slept) == run
            &&& !run.readonly ==> run.action(running) is Snapshot
            &&& !run.readonly && !snapshot.changed ==> r1.action(seen) is Sleep && r2.action(
                slept,
            ) is Wait && after_event(r2, slept) == run
            &&& !run.readonly && snapshot.changed ==> r1.action(seen)
                == CommandActionModel::Publish(snapshot.tree) && r2.action(
                CommandEvent::<T>::Published,
            ) is Sleep && r3.action(slept) is Wait && after_event(r3, slept) == run
        }),
{
}

/// Whether an action ends a run on an error of the system.
pub open spec fn ends_on<T>(action: CommandActionModel<T>, error: RunErrorModel) -> bool {
    action matches CommandActionModel::Finish(Err(failure)) && failure.error == error
        && failure.new_tree is None
}

/// Every error of the system ends the run at once, and is reported as what it is an error of.
pub proof fn system_errors_end_a_command<T>(run: CommandRun, text: String)
    ensures
        ({
            let reset = CommandEvent::<T>::ResetDone(Err(text));
            let out = CommandEvent::<T>::CheckedOut(Err(text));
            let spawned = CommandEvent::<T>::Spawned(Err(text));
            let waited = CommandEvent::<T>::Waited(Err(text));
            let taken = CommandEvent::<T>::Snapshotted(Err(text));
            let checkout = RunErrorModel::FailedCheckout(text@);
            let io = RunErrorModel::Io(text@);
            let snapshot = RunErrorModel::Snapshot(text@);
            &&& run.phase is Reset ==> ends_on(run.action(reset), checkout) && after_event(
                run,
                reset,
            ).phase is Finished
            &&& run.phase is CheckOut ==> ends_on(run.action(out), checkout) && after_event(
                run,
                out,
            ).phase is Finished
            &&& run.phase is Spawn ==> ends_on(run.action(spawned), io) && after_event(
                run,
                spawned,
            ).phase is Finished
            &&& run.phase is Wait ==> ends_on(run.action(waited), io) && after_event(
                run,
                waited,
            ).phase is Finished
            &&& run.phase is LiveSnapshot || run.phase is FinalSnapshot ==> ends_on(
                run.action(taken),
                snapshot,
            ) && after_event(run, taken).phase is Finished
        }),
{
}

/// Whether an event is an answer to what is under way.
pub open spec fn answers<T>(phase: CommandPhase, event: CommandEvent<T>) -> bool {
    ||| phase is Reset && event is ResetDone
    ||| phase is CheckOut && event is CheckedOut
    ||| phase is Spawn && event is Spawned
    ||| phase is Wait && event is Waited
    ||| phase is LiveSnapshot && event is Snapshotted
    ||| phase is Publish && event is Published
    ||| phase is Sleep && event is Slept
    ||| phase is Join && event is Joined
    ||| phase is FinalSnapshot && event is Snapshotted
}

/// An event that answers nothing changes nothing, and any other is acted on.
pub proof fn only_answers_count<T>(run: CommandRun, event: CommandEvent<T>)
    ensures
        !answers(run.phase, event) ==> run.action(event) is Ignore && after_event(run, event)
            == run,
        answers(run.phase, event) ==> !(run.action(event) is Ignore),
{
}

} // verus!
