# jj_run

The decisions behind `jj run`, a command that runs a shell command across a set of revisions and
rewrites those whose files it changed. The library is written in Rust and verified with Verus; the
application around it carries the decisions out.

## Layout

- `src/`: the verified library
  - `args`: the options of a run, and the number of workers
  - `ids`, `text`, `trees`: identifiers, text helpers, and the map of new trees
  - `error`, `stat`: errors and their messages; diff summaries
  - `command`: the run of the command on one revision, as a state machine
  - `worker`: what the workers share, and how one prepares its working copy
  - `state`, `tui`: what the terminal interface shows, and its loop
  - `style`, `ansi`, `panel`, `screen`: what is drawn
  - `run`: the run as a whole, as a state machine
  - `laws`: what a run guarantees as a whole
- `app/`: processes, threads, files and the terminal
- `tests/`: tests of the library

## How the parts meet

Wherever the command waits for the outside world, the library has a state machine: a method takes
the event that came of the last action, and returns the next action. The application performs the
action and hands the event back. What the version control system provides comes through the `Host`
trait of the application.

## What is trusted

- `text::decode_lossy` (`String::from_utf8_lossy`)
- `ansi::parse_ansi` (`ansi_to_tui::IntoText::into_text`)
- `panel::bordered_inner` (`ratatui::widgets::Block::inner`)
- `panel::split_rows` and `panel::split_columns` (`ratatui::layout::Layout::areas`)
