//! Running the command on one revision.

use jj_run::command::{
    get_shell, CommandAction, CommandEvent, CommandLine, CommandPhase, CommandRun, RunFailure,
    Snapshot,
};
use jj_run::error::{ExitStatus, RunError};
use jj_run::ids::{ChangeId, Commit, CommitId};

type Action = CommandAction<&'static str>;

fn commit() -> Commit {
    Commit {
        id: CommitId { bytes: vec![0x0a, 0xbc] },
        change_id: ChangeId { bytes: vec![0xff, 0x10] },
        description: "a commit\nwith a body\n".to_owned(),
    }
}

fn start(readonly: bool) -> CommandRun {
    let (mut run, action): (_, Action) = CommandRun::new("make", &commit(), false, readonly);
    assert_eq!(action, CommandAction::Reset);
    let action: Action = run.run_command_on_commit(CommandEvent::ResetDone(Ok(())));
    assert_eq!(action, CommandAction::CheckOut);
    run
}

fn status(code: i32) -> ExitStatus {
    ExitStatus { success: code == 0, text: format!("exit status: {code}") }
}

fn snapshot(
    tree: &'static str,
    changed: bool,
    differs: bool,
) -> CommandEvent<&'static str> {
    CommandEvent::Snapshotted(Ok(Snapshot { tree, changed, differs }))
}

/// A run whose process has been started.
fn spawned(readonly: bool) -> CommandRun {
    let mut run = start(readonly);
    let _: Action = run.run_command_on_commit(CommandEvent::CheckedOut(Ok(())));
    let action: Action = run.run_command_on_commit(CommandEvent::Spawned(Ok(())));
    assert_eq!(action, CommandAction::Wait);
    run
}

fn failure(error: RunError) -> Action {
    CommandAction::Finish(Err(RunFailure { error, new_tree: None }))
}

#[test]
fn the_shell_depends_on_the_system() {
    assert_eq!(get_shell(true), ("cmd", "/c"));
    assert_eq!(get_shell(false), ("/bin/sh", "-c"));
}

#[test]
fn the_process_finds_the_revision_in_its_environment() {
    let mut run = start(false);
    let action: Action = run.run_command_on_commit(CommandEvent::CheckedOut(Ok(())));
    assert_eq!(
        action,
        CommandAction::Spawn(CommandLine {
            program: "/bin/sh".to_owned(),
            args: vec!["-c".to_owned(), "make".to_owned()],
            env: vec![
                ("JJ_CHANGE".to_owned(), "ff10".to_owned()),
                ("JJ_COMMIT".to_owned(), "0abc".to_owned()),
            ],
        })
    );
}

#[test]
fn the_shell_of_windows_is_used_there() {
    let (mut run, _): (_, Action) = CommandRun::new("make", &commit(), true, false);
    let _: Action = run.run_command_on_commit(CommandEvent::ResetDone(Ok(())));
    match run.run_command_on_commit::<&str>(CommandEvent::CheckedOut(Ok(()))) {
        CommandAction::Spawn(line) => {
            assert_eq!(line.program, "cmd");
            assert_eq!(line.args, ["/c", "make"]);
        }
        other => panic!("unexpected {other:?}"),
    }
}

#[test]
fn trees_of_the_running_process_are_made_known() {
    let mut run = spawned(false);
    let action: Action = run.run_command_on_commit(CommandEvent::Waited(Ok(None)));
    assert_eq!(action, CommandAction::Snapshot);
    let action = run.run_command_on_commit(snapshot("half", true, true));
    assert_eq!(action, CommandAction::Publish("half"));
    let action: Action = run.run_command_on_commit(CommandEvent::Published);
    assert_eq!(action, CommandAction::Sleep);
    let action: Action = run.run_command_on_commit(CommandEvent::Slept);
    assert_eq!(action, CommandAction::Wait);

    // Nothing has changed since.
    let _: Action = run.run_command_on_commit(CommandEvent::Waited(Ok(None)));
    let action = run.run_command_on_commit(snapshot("half", false, true));
    assert_eq!(action, CommandAction::Sleep);
    let _: Action = run.run_command_on_commit(CommandEvent::Slept);

    let action: Action = run.run_command_on_commit(CommandEvent::Waited(Ok(Some(status(0)))));
    assert_eq!(action, CommandAction::Join);
    let action: Action = run.run_command_on_commit(CommandEvent::Joined);
    assert_eq!(action, CommandAction::Snapshot);
    let action = run.run_command_on_commit(snapshot("whole", true, true));
    assert_eq!(action, CommandAction::Finish(Ok(Some("whole"))));
    assert_eq!(run.phase, CommandPhase::Finished);
}

#[test]
fn a_command_that_changes_nothing_leaves_no_tree() {
    let mut run = spawned(false);
    let _: Action = run.run_command_on_commit(CommandEvent::Waited(Ok(Some(status(0)))));
    let _: Action = run.run_command_on_commit(CommandEvent::Joined);
    let action = run.run_command_on_commit(snapshot("same", false, false));
    assert_eq!(action, CommandAction::Finish(Ok(None)));
}

/// A run whose process left a tree that a live snapshot has seen, and then ended.
fn ended_after_live_snapshot(code: i32) -> CommandRun {
    let mut run = spawned(false);
    let _: Action = run.run_command_on_commit(CommandEvent::Waited(Ok(None)));
    let action = run.run_command_on_commit(snapshot("new", true, true));
    assert_eq!(action, CommandAction::Publish("new"));
    let _: Action = run.run_command_on_commit(CommandEvent::Published);
    let _: Action = run.run_command_on_commit(CommandEvent::Slept);
    let _: Action = run.run_command_on_commit(CommandEvent::Waited(Ok(Some(status(code)))));
    let _: Action = run.run_command_on_commit(CommandEvent::Joined);
    run
}

#[test]
fn the_result_is_held_against_the_revision_and_not_the_last_snapshot() {
    // Nothing has changed since the live snapshot.
    let mut run = ended_after_live_snapshot(0);
    let action = run.run_command_on_commit(snapshot("new", false, true));
    assert_eq!(action, CommandAction::Finish(Ok(Some("new"))));
    let mut run = ended_after_live_snapshot(1);
    match run.run_command_on_commit(snapshot("new", false, true)) {
        CommandAction::Finish(Err(failure)) => assert_eq!(failure.new_tree, Some("new")),
        other => panic!("unexpected {other:?}"),
    }
    // The command has put everything back.
    let mut run = ended_after_live_snapshot(0);
    let action = run.run_command_on_commit(snapshot("old", true, false));
    assert_eq!(action, CommandAction::Finish(Ok(None)));
    let mut run = ended_after_live_snapshot(1);
    match run.run_command_on_commit(snapshot("old", true, false)) {
        CommandAction::Finish(Err(failure)) => assert_eq!(failure.new_tree, None),
        other => panic!("unexpected {other:?}"),
    }
}

#[test]
fn a_failing_command_is_reported_with_the_tree_that_it_left() {
    let mut run = spawned(false);
    let _: Action = run.run_command_on_commit(CommandEvent::Waited(Ok(Some(status(2)))));
    let _: Action = run.run_command_on_commit(CommandEvent::Joined);
    let action = run.run_command_on_commit(snapshot("broken", true, true));
    assert_eq!(
        action,
        CommandAction::Finish(Err(RunFailure {
            error: RunError::CommandFailure {
                cmd: "make".to_owned(),
                status: status(2),
                commit: CommitId { bytes: vec![0x0a, 0xbc] },
            },
            new_tree: Some("broken"),
        }))
    );
}

#[test]
fn a_readonly_run_reads_no_tree() {
    let mut run = spawned(true);
    let action: Action = run.run_command_on_commit(CommandEvent::Waited(Ok(None)));
    assert_eq!(action, CommandAction::Sleep);
    let _: Action = run.run_command_on_commit(CommandEvent::Slept);
    let _: Action = run.run_command_on_commit(CommandEvent::Waited(Ok(Some(status(0)))));
    let action: Action = run.run_command_on_commit(CommandEvent::Joined);
    assert_eq!(action, CommandAction::Finish(Ok(None)));
}

#[test]
fn errors_of_the_system_end_the_run() {
    let (mut run, _): (_, Action) = CommandRun::new("make", &commit(), false, false);
    let action: Action =
        run.run_command_on_commit(CommandEvent::ResetDone(Err("read-only disk".to_owned())));
    assert_eq!(action, failure(RunError::FailedCheckout("read-only disk".to_owned())));

    let mut run = start(false);
    let action: Action =
        run.run_command_on_commit(CommandEvent::CheckedOut(Err("no space".to_owned())));
    assert_eq!(action, failure(RunError::FailedCheckout("no space".to_owned())));

    let mut run = start(false);
    let _: Action = run.run_command_on_commit(CommandEvent::CheckedOut(Ok(())));
    let action: Action =
        run.run_command_on_commit(CommandEvent::Spawned(Err("no shell".to_owned())));
    assert_eq!(action, failure(RunError::Io("no shell".to_owned())));

    let mut run = spawned(false);
    let action: Action = run.run_command_on_commit(CommandEvent::Waited(Err("gone".to_owned())));
    assert_eq!(action, failure(RunError::Io("gone".to_owned())));

    let mut run = spawned(false);
    let _: Action = run.run_command_on_commit(CommandEvent::Waited(Ok(None)));
    let action: Action =
        run.run_command_on_commit(CommandEvent::Snapshotted(Err("unreadable".to_owned())));
    assert_eq!(action, failure(RunError::Snapshot("unreadable".to_owned())));

    // The error of the last snapshot hides how the command ended.
    let mut run = spawned(false);
    let _: Action = run.run_command_on_commit(CommandEvent::Waited(Ok(Some(status(1)))));
    let _: Action = run.run_command_on_commit(CommandEvent::Joined);
    let action: Action =
        run.run_command_on_commit(CommandEvent::Snapshotted(Err("unreadable".to_owned())));
    assert_eq!(action, failure(RunError::Snapshot("unreadable".to_owned())));
}

#[test]
fn events_out_of_turn_are_ignored() {
    let mut run = start(false);
    let action: Action = run.run_command_on_commit(CommandEvent::Joined);
    assert_eq!(action, CommandAction::Ignore);
    assert_eq!(run.phase, CommandPhase::CheckOut);

    let mut run = start(false);
    let _: Action = run.run_command_on_commit(CommandEvent::CheckedOut(Err(String::new())));
    let action: Action = run.run_command_on_commit(CommandEvent::CheckedOut(Ok(())));
    assert_eq!(action, CommandAction::Ignore);
    assert_eq!(run.phase, CommandPhase::Finished);
}
