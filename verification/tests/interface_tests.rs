//! The terminal interface: messages, keys and the loop.

use jj_run::ids::{ChangeId, Commit, CommitId};
use jj_run::state::{FocusPanel, JobStatus, OutputLine, TuiMessage, TuiOutcome, TuiState};
use jj_run::trees::NewTrees;
use jj_run::tui::{
    diff_subject, ensure_diff_rendered, KeyCode, KeyEvent, KeyModifiers, LoopAction, LoopEvent,
    LoopPhase, TuiLoop,
};

fn id(byte: u8) -> CommitId {
    CommitId { bytes: vec![byte; 20] }
}

fn commit(byte: u8, description: &str) -> Commit {
    Commit {
        id: id(byte),
        change_id: ChangeId { bytes: vec![byte; 16] },
        description: description.to_owned(),
    }
}

fn commits() -> Vec<Commit> {
    vec![commit(1, "first\n\nbody\n"), commit(2, ""), commit(3, "third\r\n")]
}

fn state() -> TuiState {
    TuiState::new(&commits())
}

fn press(code: KeyCode) -> KeyEvent {
    KeyEvent { code, modifiers: KeyModifiers::Plain, release: false }
}

fn output(byte: u8, text: &str) -> TuiMessage {
    TuiMessage::Output {
        commit_id: id(byte),
        line: OutputLine::Stdout(text.as_bytes().to_vec()),
    }
}

#[test]
fn the_interface_starts_with_pending_commits() {
    let state = state();
    assert_eq!(state.commits.len(), 3);
    let descriptions: Vec<&str> = state.commits.iter().map(|e| e.description.as_str()).collect();
    assert_eq!(descriptions, ["first", "", "third"]);
    for (entry, byte) in state.commits.iter().zip([1, 2, 3]) {
        assert_eq!(entry.commit_id, id(byte));
        assert_eq!(entry.change_id_hex, format!("0{byte}").repeat(16));
        assert_eq!(entry.status, JobStatus::Pending);
        assert_eq!(entry.output, []);
        assert_eq!(entry.diff_bytes, None);
        assert_eq!(entry.diff_stat, None);
    }
    assert_eq!((state.selected, state.output_scroll, state.diff_scroll), (0, 0, 0));
    assert_eq!(state.focus, FocusPanel::Output);
    assert_eq!((state.done, state.outcome), (false, None));
    assert_eq!((state.passed, state.failed), (0, 0));
}

#[test]
fn messages_change_the_commit_that_they_name() {
    let mut state = state();
    state.handle_message(TuiMessage::Started { commit_id: id(2), worker: 4 });
    assert_eq!(state.commits[1].status, JobStatus::Running(4));
    state.handle_message(TuiMessage::DiffStat { commit_id: id(2), stat: "[1:~]".to_owned() });
    assert_eq!(state.commits[1].diff_stat, Some("[1:~]".to_owned()));
    state.handle_message(output(2, "one"));
    state.handle_message(TuiMessage::Output {
        commit_id: id(2),
        line: OutputLine::Stderr(b"two".to_vec()),
    });
    assert_eq!(
        state.commits[1].output,
        [OutputLine::Stdout(b"one".to_vec()), OutputLine::Stderr(b"two".to_vec())]
    );
    // Only output of the selected commit is followed.
    assert_eq!(state.output_scroll, 0);
    state.handle_message(output(1, "one"));
    assert_eq!(state.output_scroll, u16::MAX);

    state.handle_message(TuiMessage::Passed { commit_id: id(2), modified: true });
    assert_eq!(state.commits[1].status, JobStatus::Passed { modified: true });
    state.handle_message(TuiMessage::Failed { commit_id: id(1), message: "no".to_owned() });
    assert_eq!(state.commits[0].status, JobStatus::Failed("no".to_owned()));
    assert_eq!((state.passed, state.failed), (1, 1));
    assert_eq!(state.commits[2], TuiState::new(&commits()).commits[2]);
    assert!(!state.done);
    state.handle_message(TuiMessage::AllDone);
    assert!(state.done);
}

#[test]
fn messages_on_unknown_commits_are_only_counted() {
    let mut state = state();
    state.handle_message(TuiMessage::Started { commit_id: id(9), worker: 0 });
    state.handle_message(output(9, "one"));
    state.handle_message(TuiMessage::Passed { commit_id: id(9), modified: false });
    state.handle_message(TuiMessage::Failed { commit_id: id(9), message: String::new() });
    assert_eq!(state.commits, TuiState::new(&commits()).commits);
    assert_eq!((state.passed, state.failed), (1, 1));
    assert!(state.find_mut(&id(9)).is_none());
}

#[test]
fn of_equal_commits_the_last_is_found() {
    let mut state = TuiState::new(&vec![commit(1, "a"), commit(1, "b")]);
    assert_eq!(state.position(&id(1)), Some(1));
    assert_eq!(state.find_mut(&id(1)).map(|e| e.description.clone()), Some("b".to_owned()));
    assert_eq!(state.position(&id(2)), None);
}

#[test]
fn messages_of_different_commits_commute() {
    let both = [
        TuiMessage::Passed { commit_id: id(2), modified: true },
        TuiMessage::Failed { commit_id: id(3), message: "no".to_owned() },
    ];
    let mut there = state();
    let mut back = state();
    for i in 0..2 {
        there.handle_message(match i {
            0 => TuiMessage::Passed { commit_id: id(2), modified: true },
            _ => TuiMessage::Failed { commit_id: id(3), message: "no".to_owned() },
        });
    }
    for message in both.into_iter().rev() {
        back.handle_message(message);
    }
    assert_eq!(there.commits, back.commits);
    assert_eq!((there.passed, there.failed), (back.passed, back.failed));
}

#[test]
fn keys_move_the_selection() {
    let mut state = state();
    state.diff_scroll = 5;
    state.handle_key(press(KeyCode::Up));
    assert_eq!((state.selected, state.diff_scroll), (0, 5));
    state.handle_key(press(KeyCode::Down));
    assert_eq!(state.selected, 1);
    assert_eq!((state.output_scroll, state.diff_scroll), (u16::MAX, 0));
    state.handle_key(press(KeyCode::Char('j')));
    state.handle_key(press(KeyCode::Char('j')));
    assert_eq!(state.selected, 2);
    state.handle_key(press(KeyCode::Char('k')));
    assert_eq!(state.selected, 1);
    // With a modifier, or when it is released, the key does nothing.
    for modifiers in [KeyModifiers::Control, KeyModifiers::Other] {
        state.handle_key(KeyEvent { code: KeyCode::Down, modifiers, release: false });
    }
    state.handle_key(KeyEvent { release: true, ..press(KeyCode::Down) });
    assert_eq!(state.selected, 1);
}

#[test]
fn keys_scroll_the_panel_in_focus() {
    let mut state = state();
    state.handle_key(press(KeyCode::PageDown));
    state.handle_key(press(KeyCode::PageDown));
    assert_eq!((state.output_scroll, state.diff_scroll), (20, 0));
    state.handle_key(press(KeyCode::PageUp));
    assert_eq!(state.output_scroll, 10);
    state.handle_key(press(KeyCode::Tab));
    assert_eq!(state.focus, FocusPanel::Diff);
    state.diff_scroll = u16::MAX - 3;
    state.handle_key(press(KeyCode::PageDown));
    assert_eq!((state.output_scroll, state.diff_scroll), (10, u16::MAX));
    state.diff_scroll = 7;
    state.handle_key(press(KeyCode::PageUp));
    assert_eq!(state.diff_scroll, 0);
    state.handle_key(press(KeyCode::Tab));
    assert_eq!(state.focus, FocusPanel::Output);
}

#[test]
fn keys_decide_what_becomes_of_the_results() {
    let outcome = |done: bool, code: KeyCode, modifiers: KeyModifiers| {
        let mut state = state();
        state.done = done;
        state.handle_key(KeyEvent { code, modifiers, release: false });
        state.outcome
    };
    let c = KeyCode::Char('c');
    assert_eq!(outcome(false, c, KeyModifiers::Plain), None);
    assert_eq!(outcome(true, c, KeyModifiers::Plain), Some(TuiOutcome::Confirm));
    assert_eq!(outcome(true, c, KeyModifiers::Control), Some(TuiOutcome::Cancel));
    assert_eq!(outcome(true, c, KeyModifiers::Other), None);
    assert_eq!(
        outcome(false, KeyCode::Char('q'), KeyModifiers::Plain),
        Some(TuiOutcome::Cancel)
    );
    assert_eq!(outcome(false, KeyCode::Char('q'), KeyModifiers::Control), None);
    assert_eq!(outcome(false, KeyCode::Esc, KeyModifiers::Other), Some(TuiOutcome::Cancel));
    assert_eq!(outcome(true, KeyCode::Other, KeyModifiers::Plain), None);
}

#[test]
fn diffs_are_rendered_when_they_may_have_changed() {
    let state = state();
    let wanted = |message: &TuiMessage| state.diff_wanted(message);
    assert_eq!(
        wanted(&TuiMessage::Passed { commit_id: id(2), modified: true }),
        Some(id(2))
    );
    assert_eq!(wanted(&TuiMessage::Passed { commit_id: id(2), modified: false }), None);
    assert_eq!(
        wanted(&TuiMessage::Failed { commit_id: id(2), message: String::new() }),
        Some(id(2))
    );
    assert_eq!(
        wanted(&TuiMessage::DiffStat { commit_id: id(1), stat: String::new() }),
        Some(id(1))
    );
    assert_eq!(wanted(&TuiMessage::DiffStat { commit_id: id(2), stat: String::new() }), None);
    assert_eq!(wanted(&TuiMessage::AllDone), None);
}

#[test]
fn a_diff_compares_a_commit_with_its_new_tree() {
    let mut trees = NewTrees::new();
    trees.insert(id(2), "new");
    trees.insert(id(9), "stray");
    assert_eq!(diff_subject(&id(2), &commits(), &trees), Some((1, &"new")));
    assert_eq!(diff_subject(&id(1), &commits(), &trees), None);
    assert_eq!(diff_subject(&id(9), &commits(), &trees), None);

    let mut entry = TuiState::new(&commits()).commits.remove(0);
    assert!(!ensure_diff_rendered(&mut entry, None));
    assert_eq!(entry.diff_bytes, None);
    assert!(ensure_diff_rendered(&mut entry, Some((b"d".to_vec(), "[1:+1]".to_owned()))));
    assert_eq!(entry.diff_bytes, Some(b"d".to_vec()));
    assert_eq!(entry.diff_stat, Some("[1:+1]".to_owned()));
}

/// A loop in which the screen has been drawn.
fn drawn() -> TuiLoop {
    let (mut tui, action) = TuiLoop::new(&commits());
    assert_eq!(action, LoopAction::Render);
    assert_eq!(tui.run_tui_loop(LoopEvent::Rendered), LoopAction::Receive);
    tui
}

#[test]
fn a_round_of_the_loop() {
    let mut tui = drawn();
    // A message without a diff, one with a diff, and one whose diff belongs to no commit.
    let started = TuiMessage::Started { commit_id: id(2), worker: 0 };
    assert_eq!(tui.run_tui_loop(LoopEvent::Received(Some(started))), LoopAction::Receive);
    let passed = TuiMessage::Passed { commit_id: id(2), modified: true };
    assert_eq!(
        tui.run_tui_loop(LoopEvent::Received(Some(passed))),
        LoopAction::RenderDiff(id(2))
    );
    let diff = Some((b"diff".to_vec(), "[1:+1]".to_owned()));
    assert_eq!(tui.run_tui_loop(LoopEvent::DiffReady(diff)), LoopAction::Receive);
    assert_eq!(tui.state.commits[1].diff_bytes, Some(b"diff".to_vec()));
    assert_eq!(tui.state.commits[1].diff_stat, Some("[1:+1]".to_owned()));
    let stray = TuiMessage::Failed { commit_id: id(9), message: String::new() };
    assert_eq!(tui.run_tui_loop(LoopEvent::Received(Some(stray))), LoopAction::Receive);

    // The selected commit has no diff yet, and gets none.
    assert_eq!(tui.run_tui_loop(LoopEvent::Received(None)), LoopAction::RenderDiff(id(1)));
    assert_eq!(tui.run_tui_loop(LoopEvent::DiffReady(None)), LoopAction::Poll);
    assert_eq!(tui.state.commits[0].diff_bytes, None);
    assert_eq!(
        tui.run_tui_loop(LoopEvent::Polled(Some(press(KeyCode::Down)))),
        LoopAction::Render
    );

    // The diff of the commit now selected is there already.
    assert_eq!(tui.run_tui_loop(LoopEvent::Rendered), LoopAction::Receive);
    assert_eq!(tui.run_tui_loop(LoopEvent::Received(None)), LoopAction::Poll);
    assert_eq!(tui.run_tui_loop(LoopEvent::Polled(None)), LoopAction::Render);
}

#[test]
fn results_are_confirmed_only_once_all_workers_are_done() {
    let mut tui = drawn();
    tui.run_tui_loop(LoopEvent::Received(None));
    tui.run_tui_loop(LoopEvent::DiffReady(None));
    let confirm = || LoopEvent::Polled(Some(press(KeyCode::Char('c'))));
    assert_eq!(tui.run_tui_loop(confirm()), LoopAction::Render);
    tui.run_tui_loop(LoopEvent::Rendered);
    tui.run_tui_loop(LoopEvent::Received(Some(TuiMessage::AllDone)));
    tui.run_tui_loop(LoopEvent::Received(None));
    tui.run_tui_loop(LoopEvent::DiffReady(None));
    assert_eq!(tui.run_tui_loop(confirm()), LoopAction::Close);
    assert_eq!(tui.state.outcome, Some(TuiOutcome::Confirm));
    assert_eq!(tui.phase, LoopPhase::Closed);
    assert_eq!(tui.run_tui_loop(LoopEvent::Rendered), LoopAction::Ignore);
}
