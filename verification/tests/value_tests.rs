//! Identifiers, messages, summaries and counts.

use jj_run::args::RunArgs;
use jj_run::error::{ExitStatus, RunError};
use jj_run::ids::{encode_hex, ChangeId, CommitId};
use jj_run::stat::{
    compute_diff, compute_stat, diff_options, stat_options, DiffCounts, DiffOptions, StatOptions,
};
use jj_run::text::{decimal_string, first_line, lines};

fn counts(files: usize, added: usize, removed: usize) -> Option<DiffCounts> {
    Some(DiffCounts { files, added, removed })
}

fn id(byte: u8) -> CommitId {
    CommitId { bytes: vec![byte; 20] }
}

fn command_failure(byte: u8) -> RunError {
    RunError::CommandFailure {
        cmd: "make".to_owned(),
        status: ExitStatus { success: false, text: "exit status: 2".to_owned() },
        commit: id(byte),
    }
}

#[test]
fn hexadecimal_is_lower_case() {
    assert_eq!(encode_hex(&vec![]), "");
    assert_eq!(encode_hex(&vec![0x00, 0x0f, 0xa5, 0xff]), "000fa5ff");
    assert_eq!(CommitId { bytes: vec![0xde, 0xad] }.hex(), "dead");
    assert_eq!(ChangeId { bytes: vec![0xbe, 0xef] }.hex(), "beef");
}

#[test]
fn hexadecimal_tells_identifiers_apart() {
    let texts: Vec<String> = (0..=255).map(|b| encode_hex(&vec![b])).collect();
    for (i, a) in texts.iter().enumerate() {
        assert!(a.chars().all(|c| c.is_ascii_digit() || ('a'..='f').contains(&c)));
        assert!(!texts[i + 1..].contains(a));
    }
    assert!(id(1).same(&id(1)));
    assert!(!id(1).same(&id(2)));
    assert!(!id(1).same(&CommitId { bytes: vec![1; 19] }));
}

#[test]
fn numbers_are_written_in_decimal() {
    assert_eq!(decimal_string(0), "0");
    assert_eq!(decimal_string(9), "9");
    assert_eq!(decimal_string(10), "10");
    assert_eq!(decimal_string(1_002_003), "1002003");
    assert_eq!(decimal_string(u64::MAX), u64::MAX.to_string());
}

#[test]
fn lines_end_with_a_newline() {
    for text in ["", "\n", "a", "a\n", "a\nb", "a\r\nb\r\n", "a\r", "\n\na\n\n", "é\n✓\r\n"] {
        assert_eq!(lines(text), text.lines().collect::<Vec<_>>(), "{text:?}");
        assert_eq!(first_line(text), text.lines().next().unwrap_or(""), "{text:?}");
    }
}

#[test]
fn each_error_has_its_message() {
    let text = "oh no".to_owned();
    assert_eq!(
        RunError::FailedCheckout(text.clone()).message(),
        "Failed to checkout commit: oh no"
    );
    assert_eq!(
        command_failure(0xab).message(),
        "Command 'make' failed with exit status: 2 for commit \
         abababababababababababababababababababab"
    );
    assert_eq!(RunError::Io(text.clone()).message(), "oh no");
    assert_eq!(
        RunError::PathCreation { path: "/run/worker-0".to_owned(), source: text.clone() }.message(),
        "Failed to create path /run/worker-0: oh no"
    );
    assert_eq!(RunError::Lock(text.clone()).message(), "Failed to acquire lock: oh no");
    assert_eq!(RunError::TreeState(text.clone()).message(), "oh no");
    assert_eq!(RunError::Snapshot(text.clone()).message(), "oh no");
    assert_eq!(RunError::Backend(text).message(), "oh no");
}

#[test]
fn a_summary_counts_files_and_lines() {
    assert_eq!(compute_stat(counts(1, 2, 3)), "[1:+2-3]");
    assert_eq!(compute_stat(counts(2, 13, 0)), "[2:+13]");
    assert_eq!(compute_stat(counts(12, 0, 7)), "[12:-7]");
    assert_eq!(compute_stat(counts(1, 0, 0)), "[1:~]");
}

#[test]
fn a_summary_is_empty_without_changes() {
    assert_eq!(compute_stat(counts(0, 0, 0)), "");
    assert_eq!(compute_stat(counts(0, 5, 5)), "");
    assert_eq!(compute_stat(None), "");
}

#[test]
fn trees_are_compared_to_the_letter() {
    assert_eq!(
        stat_options(),
        StatOptions {
            all_paths: true,
            follow_copies: false,
            exact_lines: true,
            snapshot_conflict_markers: true,
        }
    );
    assert_eq!(
        diff_options(),
        DiffOptions { all_paths: true, follow_copies: false, color_words: true, width: 80 }
    );
}

#[test]
fn a_diff_that_cannot_be_rendered_is_explained() {
    assert_eq!(
        compute_diff(Ok(b"diff".to_vec()), counts(1, 1, 0)),
        (b"diff".to_vec(), "[1:+1]".to_owned())
    );
    assert_eq!(
        compute_diff(Err("no settings é".to_owned()), None),
        ("(error: no settings é)".to_owned().into_bytes(), String::new())
    );
}

#[test]
fn there_are_as_many_workers_as_asked_for_and_needed() {
    let args = |jobs| RunArgs {
        shell_command: "true".to_owned(),
        revisions: vec!["@".to_owned()],
        _exec: false,
        jobs,
        clean: false,
        readonly: false,
        keep_going: false,
    };
    assert_eq!(args(Some(3)).worker_count(Some(8), 10), 3);
    assert_eq!(args(Some(3)).worker_count(Some(8), 2), 2);
    assert_eq!(args(None).worker_count(Some(8), 10), 8);
    assert_eq!(args(Some(0)).worker_count(Some(8), 10), 8);
    assert_eq!(args(None).worker_count(None, 10), 1);
    assert_eq!(args(None).worker_count(Some(8), 0), 0);
}
