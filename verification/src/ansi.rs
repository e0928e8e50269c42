//! Output and diffs, which carry terminal escape sequences, as styled text.

use crate::state::{OutputLine, OutputLineModel};
use crate::style::{
    line_models, line_of, text_line, Line, LineModel, Span, SpanModel, Style, StyleModel,
};
use crate::text::{decode_lossy, lines, lossy_utf8, text_lines};
use ratatui::style::Style as TextStyle;
use ratatui::text::{Line as TextLine, Span as TextSpan};
use vstd::prelude::*;

verus! {

/// The lines that `ansi_to_tui` makes of a byte string, with its escape sequences turned into
/// styles; `None` where it reports an error.
pub uninterp spec fn ansi_lines(bytes: Seq<u8>) -> Option<Seq<LineModel>>;

/// What optional lines hold.
pub open spec fn parsed_model(parsed: Option<Vec<Line>>) -> Option<Seq<LineModel>> {
    match parsed {
        Some(lines) => Some(line_models(lines@)),
        None => None,
    }
}

/// Parses escape sequences by `ansi_to_tui::IntoText::into_text`, and takes its text apart into
/// lines, spans and styles.
///
/// Claimed of it: the result depends on the bytes alone.
#[verifier::external_body]
fn parse_ansi(bytes: &Vec<u8>) -> (parsed: Option<Vec<Line>>)
    ensures
        parsed_model(parsed) == ansi_lines(bytes@),
{
    let text = ansi_to_tui::IntoText::into_text(bytes).ok()?;
    let style = |s: TextStyle| Style {
        fg: s.fg.map(|c| c.to_string()),
        bg: s.bg.map(|c| c.to_string()),
        underline_color: s.underline_color.map(|c| c.to_string()),
        add_modifier: s.add_modifier.bits(),
        sub_modifier: s.sub_modifier.bits(),
    };
    let span = |s: TextSpan| Span { content: s.content.to_string(), style: style(s.style) };
    let line = |l: TextLine| Line {
        style: style(l.style),
        spans: l.spans.into_iter().map(span).collect(),
    };
    Some(text.lines.into_iter().map(line).collect())
}

/// Whether a span of a line has a style.
pub open spec fn has_style(line: LineModel) -> bool {
    exists|i: int|
        0 <= i < line.spans.len() && (#[trigger] line.spans[i]).style != StyleModel::plain()
}

/// A line of standard error: red, unless it has a style of its own.
pub open spec fn error_line(line: LineModel) -> LineModel {
    if has_style(line) {
        line
    } else {
        line_of(
            line.spans.map_values(
                |s: SpanModel|
                    SpanModel { content: s.content, style: s.style.with_fg("Red"@) },
            ),
        )
    }
}

/// The lines to show for a line of output, given what its escape sequences parse to and how its
/// bytes read as text. Text that cannot be parsed is shown as it is.
pub open spec fn output_lines(
    parsed: Option<Seq<LineModel>>,
    text: Seq<char>,
    is_stderr: bool,
) -> Seq<LineModel> {
    match parsed {
        Some(lines) => if is_stderr {
            lines.map_values(|l: LineModel| error_line(l))
        } else {
            lines
        },
        None => seq![
            text_line(
                text,
                if is_stderr {
                    StyleModel::plain().with_fg("Red"@)
                } else {
                    StyleModel::plain()
                },
            ),
        ],
    }
}

/// The lines to show for a line of output.
pub open spec fn rendered_output(line: OutputLineModel) -> Seq<LineModel> {
    match line {
        OutputLineModel::Stdout(data) => output_lines(ansi_lines(data), lossy_utf8(data), false),
        OutputLineModel::Stderr(data) => output_lines(ansi_lines(data), lossy_utf8(data), true),
    }
}

/// Makes a line of standard error red, unless it has a style of its own.
pub fn style_error_line(line: Line) -> (r: Line)
    ensures
        r@ == error_line(line@),
{
    let ghost model = line@;
    let mut i: usize = 0;
    while i < line.spans.len()
        invariant
            i <= line.spans@.len(),
            model == line@,
            forall|k: int| 0 <= k < i ==> (#[trigger] model.spans[k]).style == StyleModel::plain(),
        decreases line.spans@.len() - i,
    {
        assert(model.spans[i as int] == line.spans@[i as int]@);
        if !line.spans[i].style.is_plain() {
            assert(has_style(model));
            return line;
        }
        i = i + 1;
    }
    assert(!has_style(model));
    let mut spans: Vec<Span> = Vec::new();
    let mut i: usize = 0;
    while i < line.spans.len()
        invariant
            i <= line.spans@.len(),
            model == line@,
            spans@.len() == i,
            forall|k: int|
                0 <= k < i ==> (#[trigger] spans@[k])@ == (SpanModel {
                    content: model.spans[k].content,
                    style: model.spans[k].style.with_fg("Red"@),
                }),
        decreases line.spans@.len() - i,
    {
        let span = &line.spans[i];
        assert(span@ == model.spans[i as int]);
        spans.push(Span::styled(span.content.clone(), span.style.clone().with_fg("Red")));
        i = i + 1;
    }
    let r = Line::from_spans(spans);
    assert(r@.spans =~= error_line(model).spans);
    r
}

/// The lines to show for a line of output, given what its escape sequences parse to and how its
/// bytes read as text.
pub fn present_output(parsed: Option<Vec<Line>>, text: &str, is_stderr: bool) -> (r: Vec<Line>)
    ensures
        line_models(r@) == output_lines(parsed_model(parsed), text@, is_stderr),
{
    match parsed {
        Some(lines) => {
            if !is_stderr {
                return lines;
            }
            let ghost all = lines@;
            let mut rest = lines;
            let mut done: Vec<Line> = Vec::new();
            while rest.len() > 0
                invariant
                    rest@ == all.skip(done@.len() as int),
                    done@.len() <= all.len(),
                    forall|k: int|
                        0 <= k < done@.len() ==> (#[trigger] done@[k])@ == error_line(all[k]@),
                decreases rest@.len(),
            {
                let ghost n = done@.len() as int;
                let line = rest.remove(0);
                assert(line == all[n]);
                done.push(style_error_line(line));
                assert(rest@ =~= all.skip(n + 1));
            }
            assert(line_models(done@) =~= output_lines(parsed_model(parsed), text@, is_stderr));
            done
        },
        None => {
            let style = if is_stderr {
                Style::colored("Red")
            } else {
                Style::plain()
            };
            let mut r: Vec<Line> = Vec::new();
            r.push(Line::styled(text, style));
            assert(line_models(r@) =~= output_lines(parsed_model(parsed), text@, is_stderr));
            r
        },
    }
}

/// The lines to show for a line of output whose escape sequences cannot be parsed.
pub fn present_unparsed_output(data: &Vec<u8>, is_stderr: bool) -> (r: Vec<Line>)
    ensures
        line_models(r@) == output_lines(None, lossy_utf8(data@), is_stderr),
{
    let text = decode_lossy(data);
    present_output(None, text.as_str(), is_stderr)
}

/// Renders a line of output, preserving its colours. Lines of standard error without styling are
/// rendered in red.
pub fn render_output_line(ol: &OutputLine) -> (r: Vec<Line>)
    ensures
        line_models(r@) == rendered_output(ol@),
{
    let (data, is_stderr) = match ol {
        OutputLine::Stdout(data) => (data, false),
        OutputLine::Stderr(data) => (data, true),
    };
    let parsed = parse_ansi(data);
    if parsed.is_some() {
        present_output(parsed, "", is_stderr)
    } else {
        present_unparsed_output(data, is_stderr)
    }
}

/// A text without escape sequences, as lines; an empty text is one empty line.
pub open spec fn raw_text(text: Seq<char>) -> Seq<LineModel> {
    if text.len() == 0 {
        seq![line_of(seq![])]
    } else {
        text_lines(text).map_values(|l: Seq<char>| text_line(l, StyleModel::plain()))
    }
}

/// The lines to show for a diff, given what its escape sequences parse to and how its bytes read
/// as text.
pub open spec fn diff_lines(parsed: Option<Seq<LineModel>>, text: Seq<char>) -> Seq<LineModel> {
    match parsed {
        Some(lines) => lines,
        None => raw_text(text),
    }
}

/// The lines to show for a diff; without a diff, one empty line.
pub open spec fn rendered_diff(diff: Option<Seq<u8>>) -> Seq<LineModel> {
    match diff {
        Some(bytes) => diff_lines(ansi_lines(bytes), lossy_utf8(bytes)),
        None => raw_text(seq![]),
    }
}

/// Splits a text without escape sequences into lines to show.
pub fn raw_text_lines(text: &str) -> (r: Vec<Line>)
    ensures
        line_models(r@) == raw_text(text@),
{
    let mut r: Vec<Line> = Vec::new();
    if text.is_empty() {
        let line = Line::from_spans(Vec::new());
        assert(line@.spans =~= seq![]);
        r.push(line);
        assert(line_models(r@) =~= raw_text(text@));
        return r;
    }
    let all = lines(text);
    let mut i: usize = 0;
    while i < all.len()
        invariant
            i <= all@.len(),
            r@.len() == i,
            forall|k: int|
                0 <= k < i ==> (#[trigger] r@[k])@ == text_line(all@[k]@, StyleModel::plain()),
        decreases all@.len() - i,
    {
        r.push(Line::styled(all[i].as_str(), Style::plain()));
        i = i + 1;
    }
    assert(line_models(r@) =~= raw_text(text@)) by {
        assert(text_lines(text@) == all@.map_values(|l: String| l@));
    }
    r
}

/// The lines to show for a diff, given what its escape sequences parse to and how its bytes read
/// as text.
pub fn present_diff(parsed: Option<Vec<Line>>, text: &str) -> (r: Vec<Line>)
    ensures
        line_models(r@) == diff_lines(parsed_model(parsed), text@),
{
    match parsed {
        Some(lines) => lines,
        None => raw_text_lines(text),
    }
}

/// The lines to show for a diff whose escape sequences cannot be parsed.
pub fn present_unparsed_diff(bytes: &Vec<u8>) -> (r: Vec<Line>)
    ensures
        line_models(r@) == diff_lines(None, lossy_utf8(bytes@)),
{
    let text = decode_lossy(bytes);
    present_diff(None, text.as_str())
}

/// Renders a diff, preserving its colours.
pub fn render_diff(diff: &Option<Vec<u8>>) -> (r: Vec<Line>)
    ensures
        line_models(r@) == rendered_diff(
            match diff {
                Some(bytes) => Some(bytes@),
                None => None,
            },
        ),
{
    match diff {
        Some(bytes) => {
            let parsed = parse_ansi(bytes);
            if parsed.is_some() {
                present_diff(parsed, "")
            } else {
                present_unparsed_diff(bytes)
            }
        },
        None => {
            let empty = String::new();
            let r = raw_text_lines(empty.as_str());
            assert(empty@ =~= seq![]);
            r
        },
    }
}

/// Marking a line of standard error keeps its text, and the look of a line that is styled.
pub proof fn error_line_keeps_the_text(line: LineModel)
    ensures
        error_line(line).spans.len() == line.spans.len(),
        forall|i: int|
            0 <= i < line.spans.len() ==> (#[trigger] error_line(line).spans[i]).content
                == line.spans[i].content,
        has_style(line) ==> error_line(line) == line,
        !has_style(line) ==> forall|i: int|
            0 <= i < line.spans.len() ==> (#[trigger] error_line(line).spans[i]).style
                == StyleModel::plain().with_fg("Red"@),
{
}

/// Whether no span of a line sets anything.
pub open spec fn is_unstyled(line: LineModel) -> bool {
    forall|i: int|
        0 <= i < line.spans.len() ==> (#[trigger] line.spans[i]).style == (StyleModel {
            fg: None,
            bg: None,
            underline_color: None,
            add_modifier: 0,
            sub_modifier: 0,
        })
}

/// Whether a line is the red form of another: the same text in spans that are red and nothing
/// else.
pub open spec fn is_red_form(red: LineModel, line: LineModel) -> bool {
    &&& red.style == StyleModel::plain()
    &&& red.spans.len() == line.spans.len()
    &&& forall|i: int|
        0 <= i < line.spans.len() ==> (#[trigger] red.spans[i]).content == line.spans[i].content
            && red.spans[i].style == StyleModel::plain().with_fg("Red"@)
}

/// Output is shown as it was parsed, line for line; lines of standard error without a style of
/// their own are red.
pub proof fn parsed_output_is_shown(lines: Seq<LineModel>, text: Seq<char>, i: int)
    requires
        0 <= i < lines.len(),
    ensures
        output_lines(Some(lines), text, false) == lines,
        output_lines(Some(lines), text, true).len() == lines.len(),
        is_unstyled(lines[i]) ==> is_red_form(output_lines(Some(lines), text, true)[i], lines[i]),
        !is_unstyled(lines[i]) ==> output_lines(Some(lines), text, true)[i] == lines[i],
{
    assert(is_unstyled(lines[i]) == !has_style(lines[i])) by {
        if has_style(lines[i]) {
            let k = choose|k: int|
                0 <= k < lines[i].spans.len() && (#[trigger] lines[i].spans[k]).style
                    != StyleModel::plain();
            assert(lines[i].spans[k].style != StyleModel::plain());
        }
    }
}

/// Output that cannot be parsed is shown as one line of text, in red if it is of standard error.
pub proof fn unparsed_output_is_shown(text: Seq<char>)
    ensures
        output_lines(None, text, false).len() == 1,
        output_lines(None, text, false)[0] == text_line(text, StyleModel::plain()),
        output_lines(None, text, true).len() == 1,
        output_lines(None, text, true)[0] == text_line(
            text,
            StyleModel::plain().with_fg("Red"@),
        ),
{
}

/// What is shown of output depends on its bytes, by what they parse to or, where they cannot be
/// parsed, how they read, and on the stream that they came from.
pub proof fn each_stream_is_shown_as_such(data: Seq<u8>)
    ensures
        rendered_output(OutputLineModel::Stdout(data)) == output_lines(
            ansi_lines(data),
            lossy_utf8(data),
            false,
        ),
        rendered_output(OutputLineModel::Stderr(data)) == output_lines(
            ansi_lines(data),
            lossy_utf8(data),
            true,
        ),
{
}

/// A diff is shown as it was parsed, or as its text where it cannot be, line for line. Without a
/// diff, or a text, there is one empty line.
pub proof fn diffs_are_shown_line_by_line(
    bytes: Seq<u8>,
    lines: Seq<LineModel>,
    text: Seq<char>,
    i: int,
)
    ensures
        diff_lines(Some(lines), text) == lines,
        text.len() == 0 ==> diff_lines(None, text).len() == 1 && diff_lines(
            None,
            text,
        )[0].spans.len() == 0,
        text.len() > 0 ==> diff_lines(None, text).len() == text_lines(text).len(),
        text.len() > 0 && 0 <= i < text_lines(text).len() ==> diff_lines(None, text)[i]
            == text_line(text_lines(text)[i], StyleModel::plain()),
        rendered_diff(None).len() == 1 && rendered_diff(None)[0].spans.len() == 0,
        rendered_diff(Some(bytes)) == diff_lines(ansi_lines(bytes), lossy_utf8(bytes)),
{
}

} // verus!
