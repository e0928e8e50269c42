//! Rectangles of the screen, and how a text is fitted into one.

use ratatui::layout::{Constraint, Layout, Spacing};
use vstd::prelude::*;

verus! {

/// A rectangle of character cells.
#[derive(Debug, Clone, Copy, PartialEq, Eq, Structural)]
pub struct Rect {
    pub x: u16,
    pub y: u16,
    pub width: u16,
    pub height: u16,
}

/// `a + b`, or the largest `u16` where that is larger.
pub open spec fn capped_sum(a: u16, b: u16) -> u16 {
    if a + b > u16::MAX {
        u16::MAX
    } else {
        (a + b) as u16
    }
}

/// `a - b`, or zero where that is negative.
pub open spec fn capped_difference(a: int, b: int) -> int {
    if a < b {
        0
    } else {
        a - b
    }
}

/// The smaller of two numbers.
pub open spec fn smaller(a: int, b: int) -> int {
    if a < b {
        a
    } else {
        b
    }
}

/// What a border on all sides leaves of a rectangle.
pub open spec fn inside_border(area: Rect) -> Rect {
    Rect {
        x: smaller(capped_sum(area.x, 1) as int, capped_sum(area.x, area.width) as int) as u16,
        y: smaller(capped_sum(area.y, 1) as int, capped_sum(area.y, area.height) as int) as u16,
        width: capped_difference(area.width as int, 2) as u16,
        height: capped_difference(area.height as int, 2) as u16,
    }
}

/// The area inside the border of `ratatui::widgets::Block::bordered`, by `Block::inner`.
///
/// Claimed of it: the area is one cell smaller on each side, as far as there are cells, and its
/// corner moves by one cell, but not past the end of the area.
#[verifier::external_body]
fn bordered_inner(area: Rect) -> (r: Rect)
    ensures
        r == inside_border(area),
{
    let Rect { x, y, width, height } = area;
    let r = ratatui::widgets::Block::bordered().inner(ratatui::layout::Rect {
        x,
        y,
        width,
        height,
    });
    Rect { x: r.x, y: r.y, width: r.width, height: r.height }
}

/// A scrollbar at the right edge of a panel.
#[derive(Debug, Clone, Copy, PartialEq, Eq, Structural)]
pub struct ScrollbarPlan {
    pub area: Rect,
    /// The largest scroll position.
    pub content_length: u16,
    pub position: u16,
}

/// How a text is shown in a panel.
#[derive(Debug, Clone, Copy, PartialEq, Eq, Structural)]
pub struct PanelPlan {
    /// First line to show.
    pub scroll: u16,
    /// The scroll position at which the last line is at the bottom.
    pub max_scroll: u16,
    /// The scrollbar, if there are more lines than fit.
    pub scrollbar: Option<ScrollbarPlan>,
}

/// The number of lines as a panel counts them: modulo the range of `u16`.
pub open spec fn counted_lines(lines: nat) -> nat {
    lines % 0x1_0000
}

/// Whether a panel needs a scrollbar.
pub open spec fn needs_scrollbar(area: Rect, lines: nat) -> bool {
    counted_lines(lines) > inside_border(area).height
}

/// Whether the right edge of a panel is a column of the screen.
pub open spec fn has_right_edge(area: Rect) -> bool {
    1 <= area.x + area.width <= u16::MAX
}

/// The plan of a panel with a number of lines, scrolled to a position.
pub open spec fn panel_plan(area: Rect, lines: nat, scroll: u16) -> PanelPlan {
    let inner = inside_border(area);
    let max_scroll = capped_difference(counted_lines(lines) as int, inner.height as int) as u16;
    let shown = smaller(scroll as int, max_scroll as int) as u16;
    PanelPlan {
        scroll: shown,
        max_scroll,
        scrollbar: if needs_scrollbar(area, lines) {
            Some(
                ScrollbarPlan {
                    area: Rect {
                        x: (area.x + area.width - 1) as u16,
                        y: inner.y,
                        width: 1,
                        height: inner.height,
                    },
                    content_length: max_scroll,
                    position: shown,
                },
            )
        } else {
            None
        },
    }
}

fn count_lines(lines: usize) -> (r: u16)
    ensures
        r == counted_lines(lines as nat),
{
    (lines % 0x1_0000) as u16
}

/// Whether a panel can be drawn: it has a right edge, if it needs a scrollbar.
pub fn panel_fits(area: Rect, lines: usize) -> (r: bool)
    ensures
        r == (needs_scrollbar(area, lines as nat) ==> has_right_edge(area)),
{
    let inner = bordered_inner(area);
    let right = area.x as u32 + area.width as u32;
    count_lines(lines) <= inner.height || (1 <= right && right <= 0xffff)
}

/// Fits a text of a number of lines into a bordered panel.
pub fn render_panel(area: Rect, lines: usize, scroll: u16) -> (r: PanelPlan)
    requires
        needs_scrollbar(area, lines as nat) ==> has_right_edge(area),
    ensures
        r == panel_plan(area, lines as nat, scroll),
{
    let inner = bordered_inner(area);
    let line_count: u16 = count_lines(lines);
    let max_scroll: u16 = line_count.saturating_sub(inner.height);
    let scroll: u16 = if scroll < max_scroll {
        scroll
    } else {
        max_scroll
    };
    let scrollbar = if line_count > inner.height {
        Some(
            ScrollbarPlan {
                area: Rect {
                    x: (area.x as u32 + area.width as u32 - 1) as u16,
                    y: inner.y,
                    width: 1,
                    height: inner.height,
                },
                content_length: max_scroll,
                position: scroll,
            },
        )
    } else {
        None
    };
    PanelPlan { scroll, max_scroll, scrollbar }
}

/// A panel is never scrolled past its last line, and the largest scroll position shows the end.
pub proof fn scroll_is_clamped(area: Rect, lines: nat, scroll: u16)
    ensures
        panel_plan(area, lines, scroll).scroll <= panel_plan(area, lines, scroll).max_scroll,
        panel_plan(area, lines, u16::MAX).scroll == panel_plan(area, lines, scroll).max_scroll,
        lines < 0x1_0000 ==> panel_plan(area, lines, scroll).max_scroll
            + inside_border(area).height >= lines,
{
}

/// There is something to scroll exactly if there is a scrollbar.
pub proof fn scrollbar_iff_scrollable(area: Rect, lines: nat, scroll: u16)
    ensures
        panel_plan(area, lines, scroll).scrollbar is Some <==> panel_plan(
            area,
            lines,
            scroll,
        ).max_scroll > 0,
{
}

/// How an area is to be split into three rows.
#[derive(Debug, Clone, Copy, PartialEq, Eq, Structural)]
pub struct RowRequest {
    /// The height of the first row.
    pub first: u16,
    /// The weight with which the middle row takes what is left.
    pub middle: u16,
    /// The height of the last row.
    pub last: u16,
    /// How many cells each row shares with the one above.
    pub overlap: u16,
}

/// Three rows, one below the other, and how they were asked for.
#[derive(Debug, Clone, Copy, PartialEq, Eq, Structural)]
pub struct Rows {
    /// The area that was split.
    pub area: Rect,
    pub request: RowRequest,
    pub first: Rect,
    pub middle: Rect,
    pub last: Rect,
}

/// How an area is to be split into two columns.
#[derive(Debug, Clone, Copy, PartialEq, Eq, Structural)]
pub struct ColumnRequest {
    /// The share of the left column, in percent.
    pub left: u16,
    /// The share of the right column, in percent.
    pub right: u16,
    /// How many cells the columns share.
    pub overlap: u16,
}

/// Two columns, side by side, and how they were asked for.
#[derive(Debug, Clone, Copy, PartialEq, Eq, Structural)]
pub struct Columns {
    /// The area that was split.
    pub area: Rect,
    pub request: ColumnRequest,
    pub left: Rect,
    pub right: Rect,
}

/// Whether a rectangle is a row of an area: as wide as the area, and inside it.
pub open spec fn is_row_of(row: Rect, area: Rect) -> bool {
    &&& row.x == area.x && row.width == area.width
    &&& area.y <= row.y
    &&& row.y + row.height <= capped_sum(area.y, area.height)
}

/// Whether a rectangle is a column of an area: as high as the area, and inside it.
pub open spec fn is_column_of(column: Rect, area: Rect) -> bool {
    &&& column.y == area.y && column.height == area.height
    &&& area.x <= column.x
    &&& column.x + column.width <= capped_sum(area.x, area.width)
}

/// Whether the rows of a request are determined: a last row of one line, and a line shared between
/// neighbours.
pub open spec fn is_stack(request: RowRequest) -> bool {
    request.first >= 1 && request.middle >= 1 && request.last == 1 && request.overlap == 1
}

/// The rows of an area, one below the other: the first at the top, as high as was asked for if it
/// fits, the last in the last line, and the middle one between, each sharing a line with the one
/// above. Without a line, all are empty.
pub open spec fn stacked(area: Rect, request: RowRequest) -> Rows {
    let bottom = capped_sum(area.y, area.height);
    let height = bottom - area.y;
    let first = smaller(request.first as int, height);
    if height == 0 {
        let none = Rect { height: 0, ..area };
        Rows { area, request, first: none, middle: none, last: none }
    } else {
        Rows {
            area,
            request,
            first: Rect { height: first as u16, ..area },
            middle: Rect {
                y: (area.y + first - 1) as u16,
                height: (height - first + 1) as u16,
                ..area
            },
            last: Rect { y: (bottom - 1) as u16, height: 1, ..area },
        }
    }
}

/// Whether the columns of a request are determined: halves that share a cell.
pub open spec fn is_halves(request: ColumnRequest) -> bool {
    request.left == 50 && request.right == 50 && request.overlap == 1
}

/// The halves of an area, side by side: the left one at the left edge, the wider one where the
/// width is odd, and the right one starting on its last cell. Both have the only cell where there
/// is one.
pub open spec fn halves(area: Rect, request: ColumnRequest) -> Columns {
    let width = capped_sum(area.x, area.width) - area.x;
    let left = (width + 1) / 2;
    Columns {
        area,
        request,
        left: Rect { width: left as u16, ..area },
        right: Rect {
            x: if width == 0 {
                area.x
            } else {
                (area.x + left - 1) as u16
            },
            width: if width == 1 {
                1
            } else {
                (width / 2) as u16
            },
            ..area
        },
    }
}

/// Splits an area by `ratatui::layout::Layout::vertical` and `Layout::areas`, with the constraints
/// `Length`, `Fill` and `Length` and an overlapping spacing.
///
/// Claimed of it: the parts are rows of the area. Where the last row is to be a line and
/// neighbours are to share one, the first row gets its length as far as the area goes, and the
/// middle row the rest. The area and the request come back with the rows. Of other requests it is
/// not said where the area is cut.
#[verifier::external_body]
pub(crate) fn split_rows(area: Rect, request: RowRequest) -> (rows: Rows)
    requires
        request.overlap <= i16::MAX,
    ensures
        rows.area == area,
        rows.request == request,
        is_row_of(rows.first, area),
        is_row_of(rows.middle, area),
        is_row_of(rows.last, area),
        is_stack(request) ==> rows == stacked(area, request),
{
    let Rect { x, y, width, height } = area;
    let [first, middle, last] = Layout::vertical([
        Constraint::Length(request.first),
        Constraint::Fill(request.middle),
        Constraint::Length(request.last),
    ])
    .spacing(Spacing::Overlap(request.overlap))
    .areas(ratatui::layout::Rect { x, y, width, height })
    .map(|r| Rect { x: r.x, y: r.y, width: r.width, height: r.height });
    Rows { area, request, first, middle, last }
}

/// Splits an area by `ratatui::layout::Layout::horizontal` and `Layout::areas`, with two
/// `Percentage` constraints and an overlapping spacing.
///
/// Claimed of it: the parts are columns of the area. Halves that are to share a cell do, with
/// edges rounded half up; where there is but one cell, both have it. The area and the request come
/// back with the columns. Of other requests it is not said where the area is cut.
#[verifier::external_body]
pub(crate) fn split_columns(area: Rect, request: ColumnRequest) -> (columns: Columns)
    requires
        request.overlap <= i16::MAX,
    ensures
        columns.area == area,
        columns.request == request,
        is_column_of(columns.left, area),
        is_column_of(columns.right, area),
        is_halves(request) ==> columns == halves(area, request),
{
    let Rect { x, y, width, height } = area;
    let [left, right] = Layout::horizontal([
        Constraint::Percentage(request.left),
        Constraint::Percentage(request.right),
    ])
    .spacing(Spacing::Overlap(request.overlap))
    .areas(ratatui::layout::Rect { x, y, width, height })
    .map(|r| Rect { x: r.x, y: r.y, width: r.width, height: r.height });
    Columns { area, request, left, right }
}

/// A border takes a cell on each side.
pub proof fn border_takes_a_cell_on_each_side(area: Rect)
    requires
        area.width >= 2,
        area.height >= 2,
        area.x + area.width <= u16::MAX,
        area.y + area.height <= u16::MAX,
    ensures
        ({
            let inner = inside_border(area);
            &&& inner.x == area.x + 1 && inner.y == area.y + 1
            &&& inner.x + inner.width + 1 == area.x + area.width
            &&& inner.y + inner.height + 1 == area.y + area.height
        }),
{
}

/// A panel scrolls as far as it is asked to, but no further than its last line. Where there are
/// more lines than fit, it has a scrollbar, a cell wide, on its right border and beside its text,
/// that tells how far it is scrolled and can be.
pub proof fn panel_shows_what_is_asked_for(area: Rect, lines: nat, scroll: u16)
    requires
        lines < 0x1_0000,
        1 <= area.x + area.width <= u16::MAX,
    ensures
        ({
            let plan = panel_plan(area, lines, scroll);
            let inner = inside_border(area);
            &&& lines <= inner.height ==> plan.max_scroll == 0 && plan.scroll == 0
                && plan.scrollbar is None
            &&& lines > inner.height ==> plan.max_scroll == lines - inner.height
            &&& scroll <= plan.max_scroll ==> plan.scroll == scroll
            &&& scroll >= plan.max_scroll ==> plan.scroll == plan.max_scroll
            &&& lines > inner.height ==> (plan.scrollbar matches Some(bar) && {
                &&& bar.area.x + 1 == area.x + area.width && bar.area.width == 1
                &&& bar.area.y == inner.y && bar.area.height == inner.height
                &&& bar.content_length == plan.max_scroll && bar.position == plan.scroll
            })
        }),
{
}

/// Lines are counted in sixteen bits, so that a panel shows the same of numbers that agree in
/// them.
pub proof fn lines_are_counted_in_sixteen_bits(area: Rect, lines: nat, scroll: u16)
    ensures
        panel_plan(area, lines + 0x1_0000, scroll) == panel_plan(area, lines, scroll),
{
}

/// A panel needs a scrollbar exactly if its lines do not fit inside its border, and has a place
/// for one exactly if its right border is a column of the terminal.
pub proof fn scrollbar_needs_a_column(area: Rect, lines: nat)
    requires
        lines < 0x1_0000,
    ensures
        needs_scrollbar(area, lines) <==> lines > inside_border(area).height,
        has_right_edge(area) <==> 1 <= area.x + area.width <= 0xffff,
{
}

} // verus!
