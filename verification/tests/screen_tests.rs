//! What is on the screen.

use jj_run::ansi::{
    present_diff, present_output, present_unparsed_diff, present_unparsed_output, render_diff,
    render_output_line, style_error_line,
};
use jj_run::ids::{ChangeId, Commit, CommitId};
use jj_run::panel::{
    panel_fits, render_panel, ColumnRequest, Columns, PanelPlan, Rect, RowRequest, Rows,
    ScrollbarPlan,
};
use jj_run::screen::{
    commit_list_height, compose_screen, render_commit_row, render_help, render_list_title,
    render_output, render_tui, Screen, ScreenAreas,
};
use jj_run::state::{FocusPanel, JobStatus, OutputLine, TuiState};
use jj_run::style::{Line, Span, Style, BOLD};

fn commit(byte: u8, description: &str) -> Commit {
    Commit {
        id: CommitId { bytes: vec![byte; 20] },
        change_id: ChangeId { bytes: vec![byte; 16] },
        description: description.to_owned(),
    }
}

fn state() -> TuiState {
    TuiState::new(&vec![commit(0x1a, "first"), commit(0x2b, "")])
}

fn raw(text: &str) -> Span {
    Span::raw(text.to_owned())
}

fn colored(text: &str, color: &str) -> Span {
    Span::colored(text.to_owned(), color)
}

fn text(line: &Line) -> String {
    line.spans.iter().map(|s| s.content.as_str()).collect()
}

fn rect(x: u16, y: u16, width: u16, height: u16) -> Rect {
    Rect { x, y, width, height }
}

#[test]
fn escape_sequences_become_styles() {
    let lines = render_output_line(&OutputLine::Stdout(b"\x1b[31mred\x1b[0m plain".to_vec()));
    assert_eq!(lines.len(), 1);
    assert_eq!(text(&lines[0]), "red plain");
    let red = lines[0].spans.iter().find(|s| s.content == "red").unwrap();
    assert_eq!(red.style.fg, Some("Red".to_owned()));
    let plain = lines[0].spans.iter().find(|s| s.content == " plain").unwrap();
    assert_ne!(plain.style.fg, Some("Red".to_owned()));

    let lines = render_output_line(&OutputLine::Stdout(b"\x1b[1;38;5;200mx".to_vec()));
    assert_eq!(lines[0].spans[0].style.fg, Some("200".to_owned()));
    assert_eq!(lines[0].spans[0].style.add_modifier, BOLD);
    let lines = render_output_line(&OutputLine::Stdout(b"\x1b[48;2;1;2;255mx".to_vec()));
    assert_eq!(lines[0].spans[0].style.bg, Some("#0102FF".to_owned()));
}

#[test]
fn standard_error_is_red_unless_it_is_styled() {
    let lines = render_output_line(&OutputLine::Stderr(b"oh no".to_vec()));
    assert_eq!(lines.len(), 1);
    assert_eq!(text(&lines[0]), "oh no");
    assert!(lines[0].spans.iter().all(|s| s.style == Style::colored("Red")));
    let lines = render_output_line(&OutputLine::Stderr(b"\x1b[32mfine".to_vec()));
    assert_eq!(lines[0].spans[0].style.fg, Some("Green".to_owned()));
    let lines = render_output_line(&OutputLine::Stdout(b"oh no".to_vec()));
    assert!(lines[0].spans.iter().all(|s| s.style == Style::plain()));

    let unstyled = Line::from_spans(vec![raw("a"), raw("b")]);
    assert_eq!(
        style_error_line(unstyled),
        Line::from_spans(vec![colored("a", "Red"), colored("b", "Red")])
    );
    let styled = || Line::from_spans(vec![raw("a"), colored("b", "Green")]);
    assert_eq!(style_error_line(styled()), styled());
}

#[test]
fn output_that_cannot_be_parsed_is_shown_as_text() {
    assert_eq!(
        present_output(None, "as it is", false),
        [Line { style: Style::plain(), spans: vec![raw("as it is")] }]
    );
    assert_eq!(
        present_output(None, "as it is", true),
        [Line { style: Style::colored("Red"), spans: vec![raw("as it is")] }]
    );
    assert_eq!(present_output(Some(vec![]), "unused", true), []);
    assert_eq!(
        present_diff(None, "a\nb\n"),
        [
            Line { style: Style::plain(), spans: vec![raw("a")] },
            Line { style: Style::plain(), spans: vec![raw("b")] },
        ]
    );
    assert_eq!(present_diff(None, ""), [Line::from_spans(vec![])]);
}

#[test]
fn bytes_that_are_no_text_are_replaced() {
    let data = b"a\xffb\nc".to_vec();
    assert_eq!(
        present_unparsed_output(&data, false),
        [Line { style: Style::plain(), spans: vec![raw("a\u{fffd}b"), raw("c")] }]
    );
    assert_eq!(
        present_unparsed_output(&data, true),
        [Line { style: Style::colored("Red"), spans: vec![raw("a\u{fffd}b"), raw("c")] }]
    );
    assert_eq!(
        present_unparsed_diff(&data),
        [
            Line { style: Style::plain(), spans: vec![raw("a\u{fffd}b")] },
            Line { style: Style::plain(), spans: vec![raw("c")] },
        ]
    );
    assert_eq!(present_unparsed_diff(&"é✓".as_bytes().to_vec())[0].spans, [raw("é✓")]);
}

#[test]
fn text_that_is_not_utf8_is_left_out_of_parsed_output() {
    let lines = render_output_line(&OutputLine::Stdout(b"\x1b[31mred\x1b[0m\xff".to_vec()));
    assert_eq!(lines.iter().map(text).collect::<Vec<_>>(), ["red"]);
}

#[test]
fn a_diff_keeps_its_colours() {
    let lines = render_diff(&Some(b"one\n\x1b[32mtwo\x1b[0m\n".to_vec()));
    assert_eq!(lines.iter().map(text).collect::<Vec<_>>(), ["one", "two"]);
    assert!(lines[1].spans.iter().any(|s| s.style.fg == Some("Green".to_owned())));
    assert_eq!(render_diff(&None), [Line::from_spans(vec![])]);
}

#[test]
fn a_panel_scrolls_to_its_end_and_no_further() {
    let area = rect(3, 2, 20, 7);
    // Five lines fit.
    let plan = PanelPlan { scroll: 0, max_scroll: 0, scrollbar: None };
    assert_eq!(render_panel(area, 5, 40), plan);
    let bar = |position| PanelPlan {
        scroll: position,
        max_scroll: 3,
        scrollbar: Some(ScrollbarPlan { area: rect(22, 3, 1, 5), content_length: 3, position }),
    };
    assert_eq!(render_panel(area, 8, 0), bar(0));
    assert_eq!(render_panel(area, 8, 2), bar(2));
    assert_eq!(render_panel(area, 8, u16::MAX), bar(3));
    // Lines are counted in sixteen bits.
    assert_eq!(render_panel(area, 0x1_0005, 1), plan);
}

#[test]
fn a_panel_without_a_column_has_no_scrollbar() {
    assert!(panel_fits(rect(0, 0, 0, 0), 0));
    assert!(!panel_fits(rect(0, 0, 0, 0), 1));
    assert!(panel_fits(rect(0, 0, 1, 0), 1));
    assert!(panel_fits(rect(5, 0, 0, 0), 1));
    assert!(!panel_fits(rect(u16::MAX, 0, 1, 0), 1));
    assert_eq!(render_panel(rect(0, 0, 1, 1), 4, 9).scrollbar.unwrap().area, rect(0, 1, 1, 0));
}

#[test]
fn a_commit_is_shown_with_its_status() {
    let mut entry = state().commits.remove(0);
    assert_eq!(
        render_commit_row(&entry, true),
        Line::from_spans(vec![
            raw("▸ "),
            colored("○ ", "DarkGray"),
            colored("1a1a1a1a ", "Magenta"),
            colored("first", "DarkGray"),
        ])
    );
    let marks = [
        (JobStatus::Running(1), "◑ ", "Yellow"),
        (JobStatus::Passed { modified: true }, "● ", "Green"),
        (JobStatus::Passed { modified: false }, "○ ", "Green"),
        (JobStatus::Failed("no".to_owned()), "✗ ", "Red"),
    ];
    for (status, mark, color) in marks {
        entry.status = status;
        let row = render_commit_row(&entry, false);
        assert_eq!(row.spans[0], raw("  "));
        assert_eq!(row.spans[1], colored(mark, color));
        assert_eq!(row.spans[3], colored("first", color));
        assert_eq!(row.spans.len(), 4);
    }
    entry.description = String::new();
    entry.diff_stat = Some(String::new());
    assert_eq!(render_commit_row(&entry, false).spans.len(), 4);
    entry.diff_stat = Some("[1:+2]".to_owned());
    entry.change_id_hex = "abc".to_owned();
    let row = render_commit_row(&entry, false);
    assert_eq!(row.spans[2], colored("abc ", "Magenta"));
    assert_eq!(row.spans[3], colored("(no description)", "Red"));
    assert_eq!(row.spans[4..], [raw(" "), colored("[1:+2]", "Cyan")]);
}

#[test]
fn the_title_counts_the_commits() {
    let mut state = state();
    let bold = Style { add_modifier: BOLD, ..Style::plain() };
    assert_eq!(
        render_list_title(&state, "make test"),
        Line::from_spans(vec![
            Span::styled(" jj run 'make test' ".to_owned(), bold.clone()),
            raw("[0/2] "),
            colored("0 passed", "Green"),
            raw(" "),
        ])
    );
    state.passed = 10;
    state.failed = 2;
    assert_eq!(
        render_list_title(&state, ""),
        Line::from_spans(vec![
            Span::styled(" jj run '' ".to_owned(), bold),
            raw("[12/2] "),
            colored("10 passed", "Green"),
            colored(" 2 failed", "Red"),
            raw(" "),
        ])
    );
}

#[test]
fn the_help_bar_tells_the_keys() {
    assert_eq!(text(&render_help(false)), "↑/↓ nav Tab focus PgUp/Dn scroll q cancel");
    let help = render_help(true);
    assert_eq!(text(&help), "↑/↓ nav Tab focus PgUp/Dn scroll c confirm q discard");
    assert_eq!(help.spans[0], colored("↑/↓", "Magenta"));
    assert_eq!(help.spans[6], colored("c", "Green"));
    assert_eq!(help.spans[8], colored("q", "Red"));
}

#[test]
fn a_commit_without_output_has_a_note() {
    assert_eq!(
        render_output(&vec![]),
        [Line { style: Style::colored("DarkGray"), spans: vec![raw("(no output)")] }]
    );
    let output = vec![
        OutputLine::Stdout(b"one".to_vec()),
        OutputLine::Stderr(b"two".to_vec()),
    ];
    let lines = render_output(&output);
    assert_eq!(lines.iter().map(text).collect::<Vec<_>>(), ["one", "two"]);
}

#[test]
fn the_list_is_as_high_as_its_commits() {
    let list = |n: u8| {
        let commits: Vec<Commit> = (0..n).map(|i| commit(i, "")).collect();
        commit_list_height(&TuiState::new(&commits))
    };
    assert_eq!(list(0), 5);
    assert_eq!(list(2), 5);
    assert_eq!(list(3), 6);
    assert_eq!(list(20), 23);
}

#[test]
fn a_screen_is_composed_of_its_parts() {
    let mut state = state();
    state.focus = FocusPanel::Diff;
    state.output_scroll = u16::MAX;
    state.diff_scroll = 1;
    let areas = ScreenAreas {
        rows: Rows {
            area: rect(0, 0, 40, 10),
            request: RowRequest { first: 5, middle: 1, last: 1, overlap: 1 },
            first: rect(0, 0, 40, 5),
            middle: rect(0, 4, 40, 6),
            last: rect(0, 9, 40, 1),
        },
        columns: Some(Columns {
            area: rect(0, 4, 40, 6),
            request: ColumnRequest { left: 50, right: 50, overlap: 1 },
            left: rect(0, 4, 20, 6),
            right: rect(19, 4, 21, 6),
        }),
    };
    let lines = |n: usize| (0..n).map(|i| Line::styled(&i.to_string(), Style::plain())).collect();
    let screen = compose_screen(&state, "make", areas, lines(7), lines(4));
    assert_eq!(screen.areas, areas);
    assert_eq!(screen.title, render_list_title(&state, "make"));
    assert_eq!(screen.rows.len(), 2);
    assert_eq!(screen.rows[0], render_commit_row(&state.commits[0], true));
    assert_eq!(screen.rows[1], render_commit_row(&state.commits[1], false));
    assert_eq!(screen.selected, 0);
    assert_eq!(screen.help, render_help(false));
    assert_eq!(screen.panels.len(), 2);
    assert_eq!(screen.panels[0].title, " output ");
    assert_eq!(screen.panels[0].area, rect(0, 4, 20, 6));
    assert_eq!((screen.panels[0].plan.scroll, screen.panels[0].plan.max_scroll), (3, 3));
    assert_eq!(screen.panels[1].title, " diff ◀ ");
    assert_eq!((screen.panels[1].plan.scroll, screen.panels[1].plan.max_scroll), (0, 0));
    assert_eq!(screen.panels[1].lines.len(), 4);

    state.focus = FocusPanel::Output;
    let screen = compose_screen(&state, "make", areas, lines(1), lines(1));
    assert_eq!(screen.panels[0].title, " output ◀ ");
    assert_eq!(screen.panels[1].title, " diff ");
    let single = ScreenAreas { columns: None, ..areas };
    let screen = compose_screen(&state, "make", single, lines(1), lines(1));
    assert_eq!(screen.panels.len(), 1);
    assert_eq!(screen.panels[0].title, " output ");
    assert_eq!(screen.panels[0].area, areas.rows.middle);
}

fn draw(state: &TuiState, area: Rect) -> Screen {
    render_tui(state, "make", area).unwrap()
}

#[test]
fn the_screen_is_laid_out_in_rows() {
    let state = state();
    let screen = draw(&state, rect(0, 0, 80, 24));
    let request = RowRequest { first: 5, middle: 1, last: 1, overlap: 1 };
    assert_eq!(screen.areas.rows.request, request);
    assert_eq!(screen.areas.rows.first, rect(0, 0, 80, 5));
    assert_eq!(screen.areas.rows.middle, rect(0, 4, 80, 20));
    assert_eq!(screen.areas.rows.last, rect(0, 23, 80, 1));
    assert_eq!(screen.areas.columns, None);
    let screen_of_list = draw(&state, rect(0, 2, 80, 5));
    assert_eq!(screen_of_list.areas.rows.first, rect(0, 2, 80, 5));
    assert_eq!(screen_of_list.areas.rows.middle, rect(0, 6, 80, 1));
    assert_eq!(screen_of_list.areas.rows.last, rect(0, 6, 80, 1));
    assert_eq!(screen.panels.len(), 1);
    assert_eq!(text(&screen.panels[0].lines[0]), "(no output)");
}

#[test]
fn a_diff_gets_half_of_the_screen() {
    let mut state = state();
    state.commits[0].diff_bytes = Some(b"\x1b[31m-old\x1b[0m\n+new\n".to_vec());
    let screen = draw(&state, rect(0, 0, 80, 24));
    // The border between the panels is shared.
    let columns = screen.areas.columns.unwrap();
    assert_eq!(columns.request, ColumnRequest { left: 50, right: 50, overlap: 1 });
    assert_eq!(columns.left, rect(0, 4, 40, 20));
    assert_eq!(columns.right, rect(39, 4, 40, 20));
    assert_eq!(screen.panels[1].lines.iter().map(text).collect::<Vec<_>>(), ["-old", "+new"]);

    // Of an odd width the left panel gets more.
    let columns = draw(&state, rect(3, 0, 81, 24)).areas.columns.unwrap();
    assert_eq!(columns.left, rect(3, 4, 41, 20));
    assert_eq!(columns.right, rect(43, 4, 40, 20));
    let columns = draw(&state, rect(0, 0, 2, 24)).areas.columns.unwrap();
    assert_eq!(columns.left, rect(0, 4, 1, 20));
    assert_eq!(columns.right, rect(0, 4, 1, 20));

    // An empty diff is none.
    state.commits[0].diff_bytes = Some(vec![]);
    assert_eq!(draw(&state, rect(0, 0, 80, 24)).areas.columns, None);
}

#[test]
fn a_screen_without_columns_cannot_be_drawn() {
    let mut state = state();
    assert_eq!(render_tui(&state, "make", rect(0, 0, 0, 0)), None);
    state.commits[0].output = vec![OutputLine::Stdout(b"one".to_vec()); 50];
    assert_eq!(render_tui(&state, "make", rect(0, 0, 0, 24)), None);
    assert!(render_tui(&state, "make", rect(0, 0, 1, 24)).is_some());
}

#[test]
fn the_screen_is_laid_out_exactly_wherever_it_fits() {
    let mut state = state();
    state.commits[0].diff_bytes = Some(b"+new\n".to_vec());
    let thin = draw(&state, rect(4, 0, 1, 24)).areas.columns.unwrap();
    assert_eq!((thin.left, thin.right), (rect(4, 4, 1, 20), rect(4, 4, 1, 20)));
    let thin = draw(&state, rect(0, 0, 1, 24)).areas.columns.unwrap();
    assert_eq!((thin.left, thin.right), (rect(0, 4, 1, 20), rect(0, 4, 1, 20)));
    let empty = draw(&state, rect(4, 0, 0, 24)).areas.columns.unwrap();
    assert_eq!((empty.left, empty.right), (rect(4, 4, 0, 20), rect(4, 4, 0, 20)));
    // An area that passes the last column ends there.
    let cut = draw(&state, rect(65_525, 0, 100, 24)).areas.columns.unwrap();
    assert_eq!((cut.left, cut.right), (rect(65_525, 4, 5, 20), rect(65_529, 4, 5, 20)));
    for width in (2u32..300).chain([1000, 9999, 65_000, 65_535]) {
        for x in [0, 1, 7, 500].into_iter().filter(|x| x + width <= 0xffff) {
            let area = rect(x as u16, 0, width as u16, 24);
            let columns = draw(&state, area).areas.columns.unwrap();
            let half = (width + 1) / 2;
            assert_eq!(columns.left, rect(x as u16, 4, half as u16, 20), "{area:?}");
            let right = rect((x + half - 1) as u16, 4, (width / 2) as u16, 20);
            assert_eq!(columns.right, right, "{area:?}");
        }
    }
    let many: Vec<Commit> = (0..40).map(|i| commit(i, "")).collect();
    let rows = draw(&TuiState::new(&many), rect(0, 1, 80, 50)).areas.rows;
    assert_eq!(rows.first, rect(0, 1, 80, 43));
    assert_eq!(rows.middle, rect(0, 43, 80, 8));
    assert_eq!(rows.last, rect(0, 50, 80, 1));
    let low = TuiState::new(&many);
    for height in 1u16..43 {
        for y in [0u16, 9] {
            let rows = draw(&low, rect(0, y, 80, height)).areas.rows;
            assert_eq!(rows.first, rect(0, y, 80, height));
            assert_eq!(rows.middle, rect(0, y + height - 1, 80, 1));
            assert_eq!(rows.last, rect(0, y + height - 1, 80, 1));
        }
    }
    let rows = draw(&low, rect(0, 9, 80, 0)).areas.rows;
    assert_eq!((rows.first, rows.middle, rows.last), {
        let none = rect(0, 9, 80, 0);
        (none, none, none)
    });
    let rows = draw(&low, rect(0, 65_475, 80, 100)).areas.rows;
    assert_eq!(rows.first, rect(0, 65_475, 80, 43));
    assert_eq!(rows.middle, rect(0, 65_517, 80, 18));
    assert_eq!(rows.last, rect(0, 65_534, 80, 1));
    for height in (5u32..300).chain([1000, 9999, 65_000, 65_535]) {
        for y in [0, 1, 7, 500].into_iter().filter(|y| y + height <= 0xffff) {
            let area = rect(0, y as u16, 80, height as u16);
            let rows = draw(&state, area).areas.rows;
            assert_eq!(rows.area, area);
            assert_eq!(rows.first, rect(0, y as u16, 80, 5), "{area:?}");
            let middle = rect(0, (y + 4) as u16, 80, (height - 4) as u16);
            assert_eq!(rows.middle, middle, "{area:?}");
            assert_eq!(rows.last, rect(0, (y + height - 1) as u16, 80, 1), "{area:?}");
        }
    }
}
