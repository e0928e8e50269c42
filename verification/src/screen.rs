//! What is on the screen: the commit list, the panels below it and the help bar.

use crate::ansi::{render_diff, render_output_line, rendered_diff, rendered_output};
use crate::panel::{
    counted_lines, halves, has_right_edge, inside_border, needs_scrollbar, panel_fits, panel_plan,
    render_panel, smaller, split_columns, split_rows, stacked, ColumnRequest, Columns, PanelPlan,
    Rect, RowRequest, Rows,
};
use crate::state::{
    CommitEntry, EntryModel, FocusPanel, JobStatus, JobStatusModel, OutputLine, OutputLineModel,
    TuiModel, TuiState,
};
use crate::style::{
    colored_span, line_models, line_of, raw_span, text_line, Line, LineModel, Span, SpanModel,
    Style, StyleModel, BOLD,
};
use crate::text::{decimal, decimal_string};
use vstd::prelude::*;

verus! {

/// How many characters of a change identifier are shown.
pub const SHORT_ID_LEN: usize = 8;

/// The fewest rows of the commit list.
pub const MIN_COMMIT_ROWS: u16 = 3;

/// The rows that the border of the commit list takes.
pub const BORDER_ROWS: u16 = 2;

/// The height of the help bar.
pub const HELP_ROWS: u16 = 1;

/// The weight with which the panels take the rows that are left.
pub const PANELS_WEIGHT: u16 = 1;

/// How many cells neighbouring areas share, so that their borders merge.
pub const BORDER_OVERLAP: u16 = 1;

/// The share of the width that each of two panels takes, in percent.
pub const PANEL_PERCENT: u16 = 50;

/// The mark of a status.
pub open spec fn status_symbol(status: JobStatusModel) -> Seq<char> {
    match status {
        JobStatusModel::Pending => "○"@,
        JobStatusModel::Running(_) => "◑"@,
        JobStatusModel::Passed { modified } => if modified {
            "●"@
        } else {
            "○"@
        },
        JobStatusModel::Failed(_) => "✗"@,
    }
}

/// The colour of a status.
pub open spec fn status_color(status: JobStatusModel) -> Seq<char> {
    match status {
        JobStatusModel::Pending => "DarkGray"@,
        JobStatusModel::Running(_) => "Yellow"@,
        JobStatusModel::Passed { .. } => "Green"@,
        JobStatusModel::Failed(_) => "Red"@,
    }
}

/// The beginning of an identifier, as far as it is shown.
pub open spec fn short_id(hex: Seq<char>) -> Seq<char> {
    if hex.len() < SHORT_ID_LEN {
        hex
    } else {
        hex.take(SHORT_ID_LEN as int)
    }
}

/// A commit's line in the list: the selection mark, the status mark, the short change identifier,
/// the description and, where there is one, the diff summary.
pub open spec fn commit_row(entry: EntryModel, is_selected: bool) -> LineModel {
    let color = status_color(entry.status);
    line_of(
        seq![
            raw_span(
                if is_selected {
                    "▸ "@
                } else {
                    "  "@
                },
            ),
            colored_span(status_symbol(entry.status) + " "@, color),
            colored_span(short_id(entry.change_id_hex) + " "@, "Magenta"@),
            colored_span(
                if entry.description.len() == 0 {
                    "(no description)"@
                } else {
                    entry.description
                },
                color,
            ),
        ] + match entry.diff_stat {
            Some(stat) if stat.len() > 0 => seq![raw_span(" "@), colored_span(stat, "Cyan"@)],
            _ => seq![],
        },
    )
}

/// The lines of the commit list.
pub open spec fn commit_rows(state: TuiModel) -> Seq<LineModel> {
    Seq::new(
        state.commits.len(),
        |i: int| commit_row(state.commits[i], i == state.selected),
    )
}

/// The title of the commit list: the command and how far the run has come.
pub open spec fn list_title(state: TuiModel, shell_command: Seq<char>) -> LineModel {
    line_of(
        seq![
            SpanModel {
                content: " jj run '"@ + shell_command + "' "@,
                style: StyleModel { add_modifier: BOLD, ..StyleModel::plain() },
            },
            raw_span(
                "["@ + decimal((state.passed + state.failed) as nat) + "/"@ + decimal(
                    state.commits.len(),
                ) + "] "@,
            ),
            colored_span(decimal(state.passed) + " passed"@, "Green"@),
        ] + (if state.failed > 0 {
            seq![colored_span(" "@ + decimal(state.failed) + " failed"@, "Red"@)]
        } else {
            seq![]
        }) + seq![raw_span(" "@)],
    )
}

/// The help bar.
pub open spec fn help_line(done: bool) -> LineModel {
    line_of(
        seq![
            colored_span("↑/↓"@, "Magenta"@),
            raw_span(" nav "@),
            colored_span("Tab"@, "Magenta"@),
            raw_span(" focus "@),
            colored_span("PgUp/Dn"@, "Magenta"@),
            raw_span(" scroll "@),
        ] + if done {
            seq![
                colored_span("c"@, "Green"@),
                raw_span(" confirm "@),
                colored_span("q"@, "Red"@),
                raw_span(" discard"@),
            ]
        } else {
            seq![colored_span("q"@, "Magenta"@), raw_span(" cancel"@)]
        },
    )
}

/// The output panel's lines, all output lines rendered one after the other.
pub open spec fn all_output(output: Seq<OutputLineModel>) -> Seq<LineModel>
    decreases output.len(),
{
    if output.len() == 0 {
        seq![]
    } else {
        all_output(output.drop_last()) + rendered_output(output.last())
    }
}

/// The output panel's lines; a note where there are none.
pub open spec fn output_or_note(lines: Seq<LineModel>) -> Seq<LineModel> {
    if lines.len() == 0 {
        seq![text_line("(no output)"@, StyleModel::plain().with_fg("DarkGray"@))]
    } else {
        lines
    }
}

/// Whether a commit has a diff to show.
pub open spec fn has_diff(entry: EntryModel) -> bool {
    entry.diff_bytes is Some && entry.diff_bytes->0.len() > 0
}

/// The height of the commit list with its border: the commits and a line of padding, at least
/// three lines.
pub open spec fn list_height(commits: nat) -> nat {
    let rows = counted_lines(commits) + 1;
    (if rows < MIN_COMMIT_ROWS {
        MIN_COMMIT_ROWS as nat
    } else {
        rows
    }) + BORDER_ROWS as nat
}

/// How the screen is to be split into the commit list, the panels and the help bar.
pub open spec fn row_request(commits: nat) -> RowRequest {
    RowRequest {
        first: list_height(commits) as u16,
        middle: PANELS_WEIGHT,
        last: HELP_ROWS,
        overlap: BORDER_OVERLAP,
    }
}

/// How the area of the panels is to be split, where there are two of them: in halves.
pub open spec fn column_request() -> ColumnRequest {
    ColumnRequest { left: PANEL_PERCENT, right: PANEL_PERCENT, overlap: BORDER_OVERLAP }
}

/// A bordered panel with a text.
#[derive(Debug, PartialEq, Eq)]
pub struct Panel {
    pub area: Rect,
    pub title: String,
    pub lines: Vec<Line>,
    pub plan: PanelPlan,
}

/// What a [`Panel`] holds.
#[verifier::ext_equal]
pub struct PanelModel {
    pub area: Rect,
    pub title: Seq<char>,
    pub lines: Seq<LineModel>,
    pub plan: PanelPlan,
}

impl View for Panel {
    type V = PanelModel;

    open spec fn view(&self) -> PanelModel {
        PanelModel {
            area: self.area,
            title: self.title@,
            lines: line_models(self.lines@),
            plan: self.plan,
        }
    }
}

/// A panel with a text, scrolled to a position.
pub open spec fn panel_of(
    area: Rect,
    title: Seq<char>,
    lines: Seq<LineModel>,
    scroll: u16,
) -> PanelModel {
    PanelModel { area, title, lines, plan: panel_plan(area, lines.len(), scroll) }
}

/// Where the parts of the screen go: the commit list, the panels and the help bar one below the
/// other, and the panels side by side, if there are two of them.
#[derive(Debug, Clone, Copy, PartialEq, Eq, Structural)]
pub struct ScreenAreas {
    pub rows: Rows,
    pub columns: Option<Columns>,
}

/// All that is on the screen.
#[derive(Debug, PartialEq, Eq)]
pub struct Screen {
    pub areas: ScreenAreas,
    pub title: Line,
    pub rows: Vec<Line>,
    pub selected: usize,
    pub panels: Vec<Panel>,
    pub help: Line,
}

/// What a [`Screen`] holds.
#[verifier::ext_equal]
pub struct ScreenModel {
    pub areas: ScreenAreas,
    pub title: LineModel,
    pub rows: Seq<LineModel>,
    pub selected: int,
    pub panels: Seq<PanelModel>,
    pub help: LineModel,
}

/// What a list of panels holds.
pub open spec fn panel_models(panels: Seq<Panel>) -> Seq<PanelModel> {
    panels.map_values(|p: Panel| p@)
}

impl View for Screen {
    type V = ScreenModel;

    open spec fn view(&self) -> ScreenModel {
        ScreenModel {
            areas: self.areas,
            title: self.title@,
            rows: line_models(self.rows@),
            selected: self.selected as int,
            panels: panel_models(self.panels@),
            help: self.help@,
        }
    }
}

/// The panels below the commit list: the output and, where there are two columns, the diff.
pub open spec fn panels_of(
    focus: FocusPanel,
    output_scroll: u16,
    diff_scroll: u16,
    areas: ScreenAreas,
    output: Seq<LineModel>,
    diff: Seq<LineModel>,
) -> Seq<PanelModel> {
    match areas.columns {
        Some(columns) => seq![
            panel_of(
                columns.left,
                if focus == FocusPanel::Output {
                    " output ◀ "@
                } else {
                    " output "@
                },
                output,
                output_scroll,
            ),
            panel_of(
                columns.right,
                if focus == FocusPanel::Diff {
                    " diff ◀ "@
                } else {
                    " diff "@
                },
                diff,
                diff_scroll,
            ),
        ],
        None => seq![panel_of(areas.rows.middle, " output "@, output, output_scroll)],
    }
}

/// Whether the panels can be drawn where they go.
pub open spec fn panels_fit(areas: ScreenAreas, output: nat, diff: nat) -> bool {
    match areas.columns {
        Some(columns) => {
            &&& needs_scrollbar(columns.left, output) ==> has_right_edge(columns.left)
            &&& needs_scrollbar(columns.right, diff) ==> has_right_edge(columns.right)
        },
        None => needs_scrollbar(areas.rows.middle, output) ==> has_right_edge(areas.rows.middle),
    }
}

/// All that is on the screen, given where it goes and the lines of the two panels.
pub open spec fn screen_of(
    state: TuiState,
    shell_command: Seq<char>,
    areas: ScreenAreas,
    output: Seq<LineModel>,
    diff: Seq<LineModel>,
) -> ScreenModel {
    ScreenModel {
        areas,
        title: list_title(state@, shell_command),
        rows: commit_rows(state@),
        selected: state.selected as int,
        panels: panels_of(
            state.focus,
            state.output_scroll,
            state.diff_scroll,
            areas,
            output,
            diff,
        ),
        help: help_line(state.done),
    }
}

fn status_marks(status: &JobStatus) -> (r: (&'static str, &'static str))
    ensures
        r.0@ == status_symbol(status@),
        r.1@ == status_color(status@),
{
    match status {
        JobStatus::Pending => ("○", "DarkGray"),
        JobStatus::Running(_) => ("◑", "Yellow"),
        JobStatus::Passed { modified } => if *modified {
            ("●", "Green")
        } else {
            ("○", "Green")
        },
        JobStatus::Failed(_) => ("✗", "Red"),
    }
}

fn shorten(hex: &String) -> (r: String)
    ensures
        r@ == short_id(hex@),
{
    let n = hex.as_str().unicode_len();
    if n < SHORT_ID_LEN {
        hex.clone()
    } else {
        let r = hex.as_str().substring_char(0, SHORT_ID_LEN).to_owned();
        assert(r@ =~= hex@.take(SHORT_ID_LEN as int));
        r
    }
}

/// Lays out a commit's line in the list.
pub fn render_commit_row(entry: &CommitEntry, is_selected: bool) -> (line: Line)
    requires
        entry@.wf(),
    ensures
        line@ == commit_row(entry@, is_selected),
{
    let (symbol, color) = status_marks(&entry.status);
    let mut spans: Vec<Span> = Vec::new();
    let selection = if is_selected {
        "▸ ".to_owned()
    } else {
        "  ".to_owned()
    };
    spans.push(Span::raw(selection));
    spans.push(Span::colored(symbol.to_owned().concat(" "), color));
    spans.push(Span::colored(shorten(&entry.change_id_hex).concat(" "), "Magenta"));
    let description = if entry.description.as_str().is_empty() {
        "(no description)".to_owned()
    } else {
        entry.description.clone()
    };
    spans.push(Span::colored(description, color));
    if let Some(stat) = &entry.diff_stat {
        if !stat.as_str().is_empty() {
            spans.push(Span::raw(" ".to_owned()));
            spans.push(Span::colored(stat.clone(), "Cyan"));
        }
    }
    let line = Line::from_spans(spans);
    assert(line@.spans =~= commit_row(entry@, is_selected).spans);
    line
}

/// Lays out the title of the commit list.
pub fn render_list_title(state: &TuiState, shell_command: &str) -> (line: Line)
    requires
        state.passed + state.failed <= usize::MAX,
    ensures
        line@ == list_title(state@, shell_command@),
{
    let mut spans: Vec<Span> = Vec::new();
    let mut command = " jj run '".to_owned();
    command.append(shell_command);
    command.append("' ");
    let mut bold = Style::plain();
    bold.add_modifier = BOLD;
    spans.push(Span::styled(command, bold));
    let mut progress = "[".to_owned();
    progress.append(decimal_string((state.passed + state.failed) as u64).as_str());
    progress.append("/");
    progress.append(decimal_string(state.commits.len() as u64).as_str());
    progress.append("] ");
    spans.push(Span::raw(progress));
    spans.push(Span::colored(decimal_string(state.passed as u64).concat(" passed"), "Green"));
    if state.failed > 0 {
        let mut failed = " ".to_owned();
        failed.append(decimal_string(state.failed as u64).as_str());
        failed.append(" failed");
        spans.push(Span::colored(failed, "Red"));
    }
    spans.push(Span::raw(" ".to_owned()));
    let line = Line::from_spans(spans);
    assert(line@.spans =~= list_title(state@, shell_command@).spans);
    line
}

/// Lays out the help bar.
pub fn render_help(done: bool) -> (line: Line)
    ensures
        line@ == help_line(done),
{
    let mut spans: Vec<Span> = Vec::new();
    spans.push(Span::colored("↑/↓".to_owned(), "Magenta"));
    spans.push(Span::raw(" nav ".to_owned()));
    spans.push(Span::colored("Tab".to_owned(), "Magenta"));
    spans.push(Span::raw(" focus ".to_owned()));
    spans.push(Span::colored("PgUp/Dn".to_owned(), "Magenta"));
    spans.push(Span::raw(" scroll ".to_owned()));
    if done {
        spans.push(Span::colored("c".to_owned(), "Green"));
        spans.push(Span::raw(" confirm ".to_owned()));
        spans.push(Span::colored("q".to_owned(), "Red"));
        spans.push(Span::raw(" discard".to_owned()));
    } else {
        spans.push(Span::colored("q".to_owned(), "Magenta"));
        spans.push(Span::raw(" cancel".to_owned()));
    }
    let line = Line::from_spans(spans);
    assert(line@.spans =~= help_line(done).spans);
    line
}

/// Renders a commit's output.
pub fn render_output(output: &Vec<OutputLine>) -> (lines: Vec<Line>)
    ensures
        line_models(lines@) == output_or_note(
            all_output(output@.map_values(|l: OutputLine| l@)),
        ),
{
    let ghost all = output@.map_values(|l: OutputLine| l@);
    let mut lines: Vec<Line> = Vec::new();
    let mut i: usize = 0;
    assert(line_models(lines@) =~= all_output(all.take(0)));
    while i < output.len()
        invariant
            i <= output@.len(),
            all == output@.map_values(|l: OutputLine| l@),
            line_models(lines@) == all_output(all.take(i as int)),
        decreases output@.len() - i,
    {
        let ghost before = lines@;
        let mut more = render_output_line(&output[i]);
        let ghost added = more@;
        lines.append(&mut more);
        assert(line_models(lines@) =~= line_models(before) + line_models(added));
        assert(all.take(i + 1).drop_last() =~= all.take(i as int));
        assert(all.take(i + 1).last() == output@[i as int]@);
        i = i + 1;
    }
    assert(all.take(i as int) =~= all);
    if lines.len() == 0 {
        assert(line_models(lines@).len() == 0);
        lines.push(Line::styled("(no output)", Style::colored("DarkGray")));
        assert(line_models(lines@) =~= output_or_note(all_output(all)));
    } else {
        assert(line_models(lines@).len() == lines@.len());
    }
    lines
}

fn make_panel(area: Rect, title: &str, lines: Vec<Line>, scroll: u16) -> (panel: Panel)
    requires
        needs_scrollbar(area, lines@.len()) ==> has_right_edge(area),
    ensures
        panel@ == panel_of(area, title@, line_models(lines@), scroll),
{
    let plan = render_panel(area, lines.len(), scroll);
    Panel { area, title: title.to_owned(), lines, plan }
}

/// Puts the screen together, given where its parts go and the lines of the two panels.
pub fn compose_screen(
    state: &TuiState,
    shell_command: &str,
    areas: ScreenAreas,
    output: Vec<Line>,
    diff: Vec<Line>,
) -> (screen: Screen)
    requires
        state@.wf(),
        state.passed + state.failed <= usize::MAX,
        panels_fit(areas, output@.len(), diff@.len()),
    ensures
        screen@ == screen_of(
            *state,
            shell_command@,
            areas,
            line_models(output@),
            line_models(diff@),
        ),
{
    let mut rows: Vec<Line> = Vec::new();
    let mut i: usize = 0;
    while i < state.commits.len()
        invariant
            state@.wf(),
            i <= state.commits@.len(),
            rows@.len() == i,
            forall|k: int|
                0 <= k < i ==> (#[trigger] rows@[k])@ == commit_row(
                    state.commits@[k]@,
                    k == state.selected,
                ),
        decreases state.commits@.len() - i,
    {
        assert(state@.commits[i as int].wf());
        rows.push(render_commit_row(&state.commits[i], i == state.selected));
        i = i + 1;
    }
    assert(line_models(rows@) =~= commit_rows(state@));
    let ghost wanted = panels_of(
        state.focus,
        state.output_scroll,
        state.diff_scroll,
        areas,
        line_models(output@),
        line_models(diff@),
    );
    let mut panels: Vec<Panel> = Vec::new();
    match areas.columns {
        Some(columns) => {
            let output_title = if state.focus == FocusPanel::Output {
                " output ◀ "
            } else {
                " output "
            };
            panels.push(make_panel(columns.left, output_title, output, state.output_scroll));
            let diff_title = if state.focus == FocusPanel::Diff {
                " diff ◀ "
            } else {
                " diff "
            };
            panels.push(make_panel(columns.right, diff_title, diff, state.diff_scroll));
        },
        None => {
            panels.push(make_panel(areas.rows.middle, " output ", output, state.output_scroll));
        },
    }
    assert(panel_models(panels@) =~= wanted);
    Screen {
        areas,
        title: render_list_title(state, shell_command),
        rows,
        selected: state.selected,
        panels,
        help: render_help(state.done),
    }
}

/// The height of the commit list with its border.
pub fn commit_list_height(state: &TuiState) -> (r: u16)
    requires
        list_height(state.commits@.len()) <= u16::MAX,
    ensures
        r == list_height(state.commits@.len()),
{
    let rows: u16 = (state.commits.len() % 0x1_0000) as u16 + 1;
    let rows: u16 = if rows < MIN_COMMIT_ROWS {
        MIN_COMMIT_ROWS
    } else {
        rows
    };
    rows + BORDER_ROWS
}

/// Whether the selected commit has a diff to show.
pub fn selected_has_diff(state: &TuiState) -> (r: bool)
    requires
        state@.wf(),
    ensures
        r == has_diff(state@.commits[state.selected as int]),
{
    let entry = &state.commits[state.selected];
    assert(entry@ == state@.commits[state.selected as int]);
    match &entry.diff_bytes {
        Some(bytes) => bytes.len() > 0,
        None => false,
    }
}

/// Where the parts of the screen go in an area: in rows, with as much as there is of the height of
/// the commit list for the first, and the middle one in halves if the selected commit has a diff.
pub open spec fn layout_of(state: TuiModel, area: Rect) -> ScreenAreas {
    let rows = stacked(area, row_request(state.commits.len()));
    ScreenAreas {
        rows,
        columns: if has_diff(state.commits[state.selected]) {
            Some(halves(rows.middle, column_request()))
        } else {
            None
        },
    }
}

/// Lays out the screen in an area of the terminal. `None` where a panel that needs a scrollbar has
/// no column to put it in.
pub fn render_tui(state: &TuiState, shell_command: &str, area: Rect) -> (r: Option<Screen>)
    requires
        state@.wf(),
        state.passed + state.failed <= usize::MAX,
        list_height(state.commits@.len()) <= u16::MAX,
    ensures
        ({
            let entry = state@.commits[state.selected as int];
            let output = output_or_note(all_output(entry.output));
            let diff = rendered_diff(entry.diff_bytes);
            let areas = layout_of(state@, area);
            match r {
                Some(screen) => {
                    &&& panels_fit(areas, output.len(), diff.len())
                    &&& screen@ == screen_of(*state, shell_command@, areas, output, diff)
                },
                None => !panels_fit(areas, output.len(), diff.len()),
            }
        }),
        has_right_edge(area) ==> r is Some,
{
    let request = RowRequest {
        first: commit_list_height(state),
        middle: PANELS_WEIGHT,
        last: HELP_ROWS,
        overlap: BORDER_OVERLAP,
    };
    let rows = split_rows(area, request);
    let columns = if selected_has_diff(state) {
        let request = ColumnRequest {
            left: PANEL_PERCENT,
            right: PANEL_PERCENT,
            overlap: BORDER_OVERLAP,
        };
        Some(split_columns(rows.middle, request))
    } else {
        None
    };
    let areas = ScreenAreas { rows, columns };
    let entry = &state.commits[state.selected];
    assert(entry@ == state@.commits[state.selected as int]);
    let output = render_output(&entry.output);
    let diff = render_diff(&entry.diff_bytes);
    assert(line_models(output@).len() == output@.len());
    assert(line_models(diff@).len() == diff@.len());
    assert(areas == layout_of(state@, area));
    let fits = match areas.columns {
        Some(columns) => panel_fits(columns.left, output.len()) && panel_fits(
            columns.right,
            diff.len(),
        ),
        None => panel_fits(areas.rows.middle, output.len()),
    };
    if fits {
        Some(compose_screen(state, shell_command, areas, output, diff))
    } else {
        None
    }
}

/// A screen can be drawn in every area that ends on a column of the terminal.
pub proof fn screen_fits(state: TuiModel, area: Rect, output: nat, diff: nat)
    requires
        1 <= area.x + area.width <= u16::MAX,
    ensures
        panels_fit(layout_of(state, area), output, diff),
{
}

/// The commit list is as high as its commits, as far as the terminal goes, the panels begin on its
/// lower border, and the help bar is the last line, on the panels' lower border.
pub proof fn rows_stack(state: TuiModel, area: Rect)
    requires
        list_height(state.commits.len()) <= u16::MAX,
        area.height >= 1,
        area.y + area.height <= u16::MAX,
    ensures
        ({
            let rows = layout_of(state, area).rows;
            &&& rows.first.y == area.y
            &&& rows.first.height == smaller(
                list_height(state.commits.len()) as int,
                area.height as int,
            )
            &&& rows.middle.y + 1 == rows.first.y + rows.first.height
            &&& rows.middle.y + rows.middle.height == area.y + area.height
            &&& rows.last == (Rect { y: (area.y + area.height - 1) as u16, height: 1, ..area })
        }),
{
}

/// Where there are two panels and two columns, the panels fill the width but for a cell, and share
/// a border.
pub proof fn columns_share_a_border(state: TuiModel, area: Rect)
    requires
        has_diff(state.commits[state.selected]),
        area.width >= 2,
        area.x + area.width <= u16::MAX,
    ensures
        ({
            let columns = layout_of(state, area).columns->0;
            &&& columns.left.x == area.x
            &&& columns.right.x + 1 == columns.left.x + columns.left.width
            &&& columns.right.x + columns.right.width == area.x + area.width - 1
        }),
{
}

/// A panel that is scrolled to the end follows its text: the last line is in view, as long as no
/// line is wrapped.
pub proof fn followed_panel_shows_the_end(
    area: Rect,
    title: Seq<char>,
    lines: Seq<LineModel>,
)
    requires
        lines.len() < 0x1_0000,
    ensures
        panel_of(area, title, lines, u16::MAX).plan.scroll + inside_border(area).height
            >= lines.len(),
{
}

/// Exactly the selected commit is marked in the list.
pub proof fn one_commit_is_marked(state: TuiModel, i: int)
    requires
        0 <= i < state.commits.len(),
    ensures
        commit_rows(state)[i].spans[0] == raw_span("▸ "@) <==> i == state.selected,
{
    reveal_strlit("▸ ");
    reveal_strlit("  ");
    assert("▸ "@[0] != "  "@[0]);
}

/// Whether a commit's line has a mark and a colour.
pub open spec fn is_marked(row: LineModel, mark: Seq<char>, color: Seq<char>) -> bool {
    row.spans[1] == colored_span(mark + " "@, color) && row.spans[3].style.fg == Some(color)
}

/// A commit's line tells its status by mark and colour: an empty circle while it is pending, and
/// in green if it passed unmodified, half a circle while it runs, a full one if it was modified,
/// and a cross if it failed.
pub proof fn status_is_shown(entry: EntryModel, is_selected: bool)
    ensures
        ({
            let row = commit_row(entry, is_selected);
            let status = entry.status;
            &&& status is Pending ==> is_marked(row, "○"@, "DarkGray"@)
            &&& status is Running ==> is_marked(row, "◑"@, "Yellow"@)
            &&& status is Failed ==> is_marked(row, "✗"@, "Red"@)
            &&& status matches JobStatusModel::Passed { modified } ==> if modified {
                is_marked(row, "●"@, "Green"@)
            } else {
                is_marked(row, "○"@, "Green"@)
            }
        }),
{
}

/// A commit's line tells whether it is selected, the first eight digits of its change identifier,
/// its description, or that it has none, and its diff summary, if that is not empty.
pub proof fn commit_is_shown(entry: EntryModel, is_selected: bool)
    ensures
        ({
            let row = commit_row(entry, is_selected);
            let hex = entry.change_id_hex;
            &&& row.style == StyleModel::plain()
            &&& row.spans[0] == raw_span(
                if is_selected {
                    "▸ "@
                } else {
                    "  "@
                },
            )
            &&& hex.len() >= 8 ==> row.spans[2] == colored_span(hex.take(8) + " "@, "Magenta"@)
            &&& hex.len() <= 8 ==> row.spans[2] == colored_span(hex + " "@, "Magenta"@)
            &&& entry.description.len() > 0 ==> row.spans[3].content == entry.description
            &&& entry.description.len() == 0 ==> row.spans[3].content == "(no description)"@
            &&& entry.diff_stat is None || entry.diff_stat->0.len() == 0 ==> row.spans.len() == 4
            &&& entry.diff_stat is Some && entry.diff_stat->0.len() > 0 ==> row.spans.len() == 6
                && row.spans[4] == raw_span(" "@) && row.spans[5] == colored_span(
                entry.diff_stat->0,
                "Cyan"@,
            )
        }),
{
    let hex = entry.change_id_hex;
    if hex.len() == 8 {
        assert(hex.take(8) =~= hex);
    }
}

/// Every commit has its line in the list, in order.
pub proof fn every_commit_has_its_line(state: TuiModel, i: int)
    requires
        0 <= i < state.commits.len(),
    ensures
        commit_rows(state).len() == state.commits.len(),
        commit_rows(state)[i] == commit_row(state.commits[i], i == state.selected),
{
}

/// The title tells the command, how many of the commits are done, and how many passed and, if any
/// did, failed.
pub proof fn title_tells_the_progress(state: TuiModel, shell_command: Seq<char>)
    ensures
        ({
            let title = list_title(state, shell_command);
            let spans = title.spans;
            let n = spans.len() as int;
            &&& title.style == StyleModel::plain()
            &&& spans[0].content == " jj run '"@ + shell_command + "' "@
            &&& spans[0].style == (StyleModel { add_modifier: BOLD, ..StyleModel::plain() })
            &&& spans[1] == raw_span(
                "["@ + decimal(state.passed + state.failed) + "/"@ + decimal(state.commits.len())
                    + "] "@,
            )
            &&& spans[2] == colored_span(decimal(state.passed) + " passed"@, "Green"@)
            &&& state.failed == 0 ==> n == 4
            &&& state.failed > 0 ==> n == 5 && spans[3] == colored_span(
                " "@ + decimal(state.failed) + " failed"@,
                "Red"@,
            )
            &&& spans[n - 1] == raw_span(" "@)
        }),
{
}

/// The help bar names the keys: those to move and scroll always, and to decide by what can be
/// decided.
pub proof fn help_names_the_keys()
    ensures
        ({
            let running = help_line(false).spans;
            let done = help_line(true).spans;
            &&& running.len() == 8 && done.len() == 10
            &&& running.take(6) == done.take(6)
            &&& done[0] == colored_span("↑/↓"@, "Magenta"@) && done[1] == raw_span(" nav "@)
            &&& done[2] == colored_span("Tab"@, "Magenta"@) && done[3] == raw_span(" focus "@)
            &&& done[4] == colored_span("PgUp/Dn"@, "Magenta"@) && done[5] == raw_span(
                " scroll "@,
            )
            &&& running[6] == colored_span("q"@, "Magenta"@) && running[7] == raw_span(" cancel"@)
            &&& done[6] == colored_span("c"@, "Green"@) && done[7] == raw_span(" confirm "@)
            &&& done[8] == colored_span("q"@, "Red"@) && done[9] == raw_span(" discard"@)
        }),
{
    assert(help_line(false).spans.take(6) =~= help_line(true).spans.take(6));
}

/// All output is shown, in order: the lines of a whole are those of its beginning and then those
/// of its end.
pub proof fn all_output_is_shown(a: Seq<OutputLineModel>, b: Seq<OutputLineModel>)
    ensures
        all_output(a + b) == all_output(a) + all_output(b),
        b.len() == 1 ==> all_output(b) == rendered_output(b[0]),
        b.len() == 0 ==> all_output(b).len() == 0,
    decreases b.len(),
{
    if b.len() == 0 {
        assert(a + b =~= a);
        assert(all_output(a) + all_output(b) =~= all_output(a));
    } else {
        let c = b.drop_last();
        all_output_is_shown(a, c);
        assert((a + b).drop_last() =~= a + c);
        assert((a + b).last() == b.last());
        assert(all_output(a + b) =~= all_output(a) + all_output(b));
        if b.len() == 1 {
            assert(all_output(c).len() == 0);
            assert(all_output(b) =~= rendered_output(b[0]));
        }
    }
}

/// Only a commit without a line of output has a note in its place.
pub proof fn note_stands_for_no_output(lines: Seq<LineModel>)
    ensures
        lines.len() > 0 ==> output_or_note(lines) == lines,
        lines.len() == 0 ==> output_or_note(lines).len() == 1 && output_or_note(lines)[0]
            == text_line("(no output)"@, StyleModel::plain().with_fg("DarkGray"@)),
{
}

/// The list has a line for each commit and one more, at least three, and its border.
pub proof fn list_is_as_high_as_its_commits(commits: nat)
    requires
        commits < 0x1_0000,
    ensures
        commits >= 2 ==> list_height(commits) == commits + 3,
        commits <= 2 ==> list_height(commits) == 5,
        list_height(commits) <= u16::MAX ==> row_request(commits) == (RowRequest {
            first: list_height(commits) as u16,
            middle: 1,
            last: 1,
            overlap: 1,
        }),
        column_request() == (ColumnRequest { left: 50, right: 50, overlap: 1 }),
{
}

/// Two panels are shown exactly if the selected commit has a diff that is not empty.
pub proof fn diff_has_a_panel_if_there_is_one(state: TuiModel, area: Rect)
    ensures
        layout_of(state, area).columns is Some <==> state.commits[state.selected].diff_bytes is Some
            && state.commits[state.selected].diff_bytes->0.len() > 0,
{
}

/// The screen has the title, the list with the selected commit, the help bar, and below the list
/// the output, over the whole width or, where there is a diff, left of it. The panel in focus is
/// marked, if there are two.
pub proof fn screen_has_all_its_parts(
    state: TuiState,
    shell_command: Seq<char>,
    areas: ScreenAreas,
    output: Seq<LineModel>,
    diff: Seq<LineModel>,
)
    ensures
        ({
            let screen = screen_of(state, shell_command, areas, output, diff);
            let panels = screen.panels;
            &&& screen.areas == areas
            &&& screen.title == list_title(state@, shell_command)
            &&& screen.rows == commit_rows(state@)
            &&& screen.selected == state.selected
            &&& screen.help == help_line(state.done)
            &&& areas.columns is None ==> panels.len() == 1 && panels[0].title == " output "@
                && panels[0].area == areas.rows.middle
            &&& areas.columns matches Some(columns) ==> {
                &&& panels.len() == 2
                &&& panels[0].area == columns.left && panels[1].area == columns.right
                &&& state.focus == FocusPanel::Output ==> panels[0].title == " output ◀ "@
                    && panels[1].title == " diff "@
                &&& state.focus == FocusPanel::Diff ==> panels[0].title == " output "@
                    && panels[1].title == " diff ◀ "@
                &&& panels[1].lines == diff
                &&& panels[1].plan == panel_plan(columns.right, diff.len(), state.diff_scroll)
            }
            &&& panels[0].lines == output
            &&& panels[0].plan == panel_plan(panels[0].area, output.len(), state.output_scroll)
        }),
{
}

/// A screen whose texts fit inside their panels can be drawn in any area.
pub proof fn short_texts_always_fit(areas: ScreenAreas, output: nat, diff: nat)
    requires
        output < 0x1_0000,
        diff < 0x1_0000,
        areas.columns is None ==> output <= inside_border(areas.rows.middle).height,
        areas.columns matches Some(columns) ==> output <= inside_border(columns.left).height
            && diff <= inside_border(columns.right).height,
    ensures
        panels_fit(areas, output, diff),
{
}

/// The parts of a screen are read in order.
pub proof fn screen_is_read_in_order(screen: Screen, i: int)
    ensures
        screen@.rows.len() == screen.rows@.len(),
        0 <= i < screen.rows@.len() ==> screen@.rows[i] == screen.rows@[i]@,
        screen@.panels.len() == screen.panels@.len(),
        0 <= i < screen.panels@.len() ==> screen@.panels[i] == screen.panels@[i]@,
        screen@.title == screen.title@ && screen@.help == screen.help@,
        screen@.areas == screen.areas && screen@.selected == screen.selected,
{
}

} // verus!
