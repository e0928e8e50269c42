//! The run as a whole.

use jj_run::args::RunArgs;
use jj_run::error::{ExitStatus, RunError};
use jj_run::ids::{ChangeId, Commit, CommitId};
use jj_run::run::{
    report_message, CommandError, Interface, Report, Rewriting, RunAction, RunCommand, RunEvent,
    RunPhase, RunResults,
};
use jj_run::state::{OutputLine, TuiMessage, TuiOutcome};
use jj_run::trees::NewTrees;

type Action = RunAction<char, &'static str>;
type Event = RunEvent<char, &'static str>;

fn id(byte: u8) -> CommitId {
    CommitId { bytes: vec![byte; 20] }
}

fn commits(n: u8) -> Vec<Commit> {
    (1..=n)
        .map(|byte| Commit {
            id: id(byte),
            change_id: ChangeId { bytes: vec![byte; 16] },
            description: String::new(),
        })
        .collect()
}

fn args() -> RunArgs {
    RunArgs {
        shell_command: "make".to_owned(),
        revisions: vec!["@".to_owned()],
        _exec: false,
        jobs: None,
        clean: false,
        readonly: false,
        keep_going: false,
    }
}

fn command_failure(byte: u8) -> RunError {
    RunError::CommandFailure {
        cmd: "make".to_owned(),
        status: ExitStatus { success: false, text: "exit status: 2".to_owned() },
        commit: id(byte),
    }
}

fn results(
    interface: Interface,
    trees: &[(u8, char)],
    failures: Vec<RunError>,
) -> RunResults<char> {
    let mut new_trees = NewTrees::new();
    for (byte, tree) in trees {
        new_trees.insert(id(*byte), *tree);
    }
    // Errors that name no commit are of commit 9.
    let failed = failures
        .iter()
        .map(|error| match error {
            RunError::CommandFailure { commit, .. } => commit.clone(),
            _ => id(9),
        })
        .collect();
    RunResults { interface, new_trees, failed, failures }
}

fn status(action: Action) -> String {
    match action {
        RunAction::Status(line) => line,
        _ => panic!("no status"),
    }
}

fn returned(action: Action) -> Result<(), CommandError<&'static str>> {
    match action {
        RunAction::Return(result) => result,
        _ => panic!("nothing returned"),
    }
}

fn rewriting(action: Action) -> Rewriting<char> {
    match action {
        RunAction::Rewrite(pass) => pass,
        _ => panic!("nothing rewritten"),
    }
}

/// A run that has resolved this many commits, and the action that follows.
fn resolved(args: RunArgs, n: u8) -> (RunCommand, Action) {
    let (mut run, action): (_, Action) = RunCommand::new(args, Some(4));
    assert!(matches!(action, RunAction::Resolve));
    let action = run.cmd_run(Event::Resolved(Ok(commits(n))));
    (run, action)
}

/// A run whose workers are running, and their number.
fn working(args: RunArgs, n: u8) -> (RunCommand, usize) {
    let (clean, readonly) = (args.clean, args.readonly);
    let (mut run, mut action) = resolved(args, n);
    if !readonly {
        assert!(matches!(action, RunAction::CheckRewritable));
        action = run.cmd_run(Event::Checked(Ok(())));
    }
    assert!(matches!(action, RunAction::Load));
    action = run.cmd_run(Event::Loaded(Ok(())));
    assert!(matches!(action, RunAction::CreateDir));
    action = run.cmd_run(Event::DirCreated(Ok(())));
    assert!(matches!(action, RunAction::Lock));
    action = run.cmd_run(Event::Locked(Ok(())));
    if clean {
        assert!(matches!(action, RunAction::Clean));
        action = run.cmd_run(Event::Cleaned(Ok(())));
    }
    match action {
        RunAction::Work(jobs) => (run, jobs),
        _ => panic!("no work"),
    }
}

#[test]
fn messages_are_reported_as_text() {
    let passed = |modified| TuiMessage::Passed { commit_id: id(0xab), modified };
    assert_eq!(
        report_message(&passed(true)),
        Report::Print("  ✓ abababababab (modified)".to_owned())
    );
    assert_eq!(report_message(&passed(false)), Report::Print("  ✓ abababababab".to_owned()));
    let failed = TuiMessage::Failed { commit_id: id(1), message: "oh no".to_owned() };
    assert_eq!(report_message(&failed), Report::Print("  ✗ 010101010101 oh no".to_owned()));
    assert_eq!(report_message(&TuiMessage::AllDone), Report::Stop);
    let skipped = [
        TuiMessage::Started { commit_id: id(1), worker: 0 },
        TuiMessage::Output { commit_id: id(1), line: OutputLine::Stdout(vec![]) },
        TuiMessage::DiffStat { commit_id: id(1), stat: String::new() },
    ];
    for message in &skipped {
        assert_eq!(report_message(message), Report::Skip);
    }
}

#[test]
fn a_run_prepares_before_it_works() {
    assert_eq!(working(args(), 9).1, 4);
    assert_eq!(working(RunArgs { clean: true, jobs: Some(2), ..args() }, 9).1, 2);
    assert_eq!(working(RunArgs { readonly: true, ..args() }, 3).1, 3);
}

#[test]
fn a_run_without_revisions_ends_at_once() {
    let (mut run, _) = resolved(args(), 0);
    let action = run.cmd_run(Event::Checked(Ok(())));
    assert_eq!(status(action), "No revisions to run on.");
    assert_eq!(returned(run.cmd_run(Event::Printed(Ok(())))), Ok(()));

    let (_, action) = resolved(RunArgs { readonly: true, ..args() }, 0);
    assert_eq!(status(action), "No revisions to run on.");
}

#[test]
fn immutable_commits_stop_a_run() {
    let (mut run, _) = resolved(args(), 2);
    let action = run.cmd_run(Event::Checked(Err("immutable")));
    assert_eq!(returned(action), Err(CommandError::Other("immutable")));
    assert_eq!(run.phase, RunPhase::Finished);
    assert!(matches!(run.cmd_run(Event::Checked(Ok(()))), RunAction::Ignore));
}

#[test]
fn a_run_needs_the_lock() {
    let (mut run, _) = resolved(args(), 2);
    let _: Action = run.cmd_run(Event::Checked(Ok(())));
    let _: Action = run.cmd_run(Event::Loaded(Ok(())));
    let _: Action = run.cmd_run(Event::DirCreated(Ok(())));
    let action = run.cmd_run(Event::Locked(Err("busy".to_owned())));
    assert_eq!(
        returned(action),
        Err(CommandError::Run(RunError::Lock("busy".to_owned())))
    );
}

#[test]
fn errors_of_the_program_are_passed_on() {
    let other = Err(CommandError::Other("oh no"));
    let (mut run, _): (_, Action) = RunCommand::new(args(), None);
    assert_eq!(returned(run.cmd_run(Event::Resolved(Err("oh no")))), other);

    let (mut run, _) = resolved(args(), 2);
    let _: Action = run.cmd_run(Event::Checked(Ok(())));
    assert_eq!(returned(run.cmd_run(Event::Loaded(Err("oh no")))), other);

    let (mut run, _) = resolved(args(), 2);
    let _: Action = run.cmd_run(Event::Checked(Ok(())));
    let _: Action = run.cmd_run(Event::Loaded(Ok(())));
    assert_eq!(returned(run.cmd_run(Event::DirCreated(Err("oh no")))), other);

    let (mut run, _) = working(args(), 2);
    assert_eq!(returned(run.cmd_run(Event::Worked(Err("oh no")))), other);

    let changed = || Event::Worked(Ok(results(Interface::Text, &[(1, 'a')], vec![])));
    let (mut run, _) = working(args(), 2);
    let _: Action = run.cmd_run(changed());
    assert_eq!(returned(run.cmd_run(Event::Rewritten(Err("oh no")))), other);

    let (mut run, _) = working(args(), 2);
    let pass = rewriting(run.cmd_run(changed()));
    let _: Action = run.cmd_run(Event::Rewritten(Ok(pass)));
    assert_eq!(returned(run.cmd_run(Event::Printed(Err("oh no")))), other);

    let (mut run, _) = working(args(), 2);
    let pass = rewriting(run.cmd_run(changed()));
    let _: Action = run.cmd_run(Event::Rewritten(Ok(pass)));
    let _: Action = run.cmd_run(Event::Printed(Ok(())));
    assert_eq!(returned(run.cmd_run(Event::Committed(Err("oh no")))), other);

    let (mut run, _) = resolved(RunArgs { readonly: true, ..args() }, 0);
    assert_eq!(returned(run.cmd_run(Event::Printed(Err("oh no")))), other);
}

#[test]
fn changed_commits_are_rewritten_in_a_transaction() {
    let (mut run, _) = working(args(), 3);
    let confirmed = Interface::Tui(Some(TuiOutcome::Confirm));
    let action = run.cmd_run(Event::Worked(Ok(results(confirmed, &[(1, 'a'), (3, 'c')], vec![]))));
    let mut pass = rewriting(action);
    assert_eq!(pass.count, 0);
    assert_eq!(pass.visit(&id(3)), Some(&'c'));
    assert_eq!(pass.visit(&id(2)), None);
    assert_eq!(pass.visit(&id(1)), Some(&'a'));
    assert_eq!(pass.visit(&id(9)), None);
    assert_eq!(pass.count, 2);
    let action = run.cmd_run(Event::Rewritten(Ok(pass)));
    assert_eq!(status(action), "Rewrote 2 commit(s) with 'make'.");
    match run.cmd_run(Event::Printed(Ok(()))) {
        RunAction::Commit(text) => assert_eq!(text, "run: rewrite 2 commit(s) with 'make'"),
        _ => panic!("no transaction"),
    }
    assert_eq!(returned(run.cmd_run(Event::Committed(Ok(())))), Ok(()));
}

#[test]
fn a_pass_counts_the_new_trees() {
    let mut trees = NewTrees::new();
    for byte in [2, 4, 6] {
        trees.insert(id(byte), 'x');
    }
    let mut pass = Rewriting::new(trees);
    for byte in 0..10 {
        pass.visit(&id(byte));
    }
    assert_eq!(pass.count, 3);
}

#[test]
fn cancelled_results_are_discarded() {
    for outcome in [None, Some(TuiOutcome::Cancel)] {
        let (mut run, _) = working(args(), 2);
        let failures = vec![command_failure(2)];
        let action =
            run.cmd_run(Event::Worked(Ok(results(Interface::Tui(outcome), &[(1, 'a')], failures))));
        assert_eq!(status(action), "Discarded results (cancelled).");
        assert_eq!(returned(run.cmd_run(Event::Printed(Ok(())))), Ok(()));
    }
}

#[test]
fn a_readonly_run_only_reports() {
    let (mut run, _) = working(RunArgs { readonly: true, ..args() }, 5);
    let failures = vec![command_failure(1), command_failure(2)];
    let action = run.cmd_run(Event::Worked(Ok(results(Interface::Text, &[(3, 'a')], failures))));
    assert_eq!(
        status(action),
        "Ran 'make' on 5 commit(s) (readonly). 3 passed, 2 failed."
    );
    assert_eq!(returned(run.cmd_run(Event::Printed(Ok(())))), Ok(()));
}

#[test]
fn a_run_may_change_nothing() {
    let (mut run, _) = working(args(), 2);
    let action = run.cmd_run(Event::Worked(Ok(results(Interface::Text, &[], vec![]))));
    assert_eq!(
        status(action),
        "No commits were rewritten (command did not modify any tracked files)."
    );
    assert_eq!(returned(run.cmd_run(Event::Printed(Ok(())))), Ok(()));
}

#[test]
fn trees_of_failed_commands_are_not_used() {
    // Only the failed commit was changed: nothing is rewritten.
    let (mut run, _) = working(args(), 2);
    let failures = vec![command_failure(1)];
    let action = run.cmd_run(Event::Worked(Ok(results(Interface::Text, &[(1, 'a')], failures))));
    assert_eq!(returned(action), Err(CommandError::Run(command_failure(1))));

    // The other commits are rewritten, and then the first failure is the run's.
    let (mut run, _) = working(args(), 3);
    let failures = vec![command_failure(3), command_failure(1)];
    let trees = [(1, 'a'), (2, 'b'), (3, 'c')];
    let action = run.cmd_run(Event::Worked(Ok(results(Interface::Text, &trees, failures))));
    let mut pass = rewriting(action);
    assert_eq!(pass.visit(&id(1)), None);
    assert_eq!(pass.visit(&id(2)), Some(&'b'));
    assert_eq!(pass.visit(&id(3)), None);
    let _: Action = run.cmd_run(Event::Rewritten(Ok(pass)));
    let _: Action = run.cmd_run(Event::Printed(Ok(())));
    let action = run.cmd_run(Event::Committed(Ok(())));
    assert_eq!(returned(action), Err(CommandError::Run(command_failure(3))));
}

#[test]
fn no_failure_of_any_kind_is_rewritten() {
    // A snapshot failed after an earlier one had seen a new tree.
    let (mut run, _) = working(RunArgs { keep_going: true, ..args() }, 2);
    let failures = vec![RunError::Snapshot("unreadable".to_owned())];
    let trees = [(1, 'a'), (9, 'b')];
    let action = run.cmd_run(Event::Worked(Ok(results(Interface::Text, &trees, failures))));
    let mut pass = rewriting(action);
    assert_eq!(pass.visit(&id(9)), None);
    assert_eq!(pass.visit(&id(1)), Some(&'a'));
    assert_eq!(pass.count, 1);

    let (mut run, _) = working(args(), 1);
    let failures = vec![RunError::Io("gone".to_owned())];
    let action = run.cmd_run(Event::Worked(Ok(results(Interface::Text, &[(9, 'b')], failures))));
    assert_eq!(returned(action), Err(CommandError::Run(RunError::Io("gone".to_owned()))));
}

#[test]
fn a_run_that_keeps_going_only_warns() {
    let (mut run, _) = working(RunArgs { keep_going: true, ..args() }, 2);
    let failures = vec![command_failure(1), RunError::Io("oh no".to_owned())];
    let action = run.cmd_run(Event::Worked(Ok(results(Interface::Text, &[], failures))));
    match action {
        RunAction::Warn(line) => assert_eq!(line, "2 commit(s) failed."),
        _ => panic!("no warning"),
    }
    assert_eq!(returned(run.cmd_run(Event::Printed(Ok(())))), Ok(()));
}

#[test]
fn events_of_a_run_out_of_turn_are_ignored() {
    let (mut run, _) = working(args(), 2);
    assert!(matches!(run.cmd_run(Event::Printed(Ok(()))), RunAction::Ignore));
    assert_eq!(run.phase, RunPhase::Work);
}
