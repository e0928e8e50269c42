//! Styled text, as the terminal is to show it.

use crate::text::{lines, text_lines};
use vstd::prelude::*;

verus! {

/// How a piece of text looks, as a change to what surrounds it.
///
/// Colours go by the names that the terminal library displays and parses: `Red`, `DarkGray`,
/// `#A0B0C0`, or the number of an indexed colour.
#[derive(Debug, PartialEq, Eq)]
pub struct Style {
    pub fg: Option<String>,
    pub bg: Option<String>,
    pub underline_color: Option<String>,
    /// Modifiers to add, as a bit set.
    pub add_modifier: u16,
    /// Modifiers to remove, as a bit set.
    pub sub_modifier: u16,
}

/// What a [`Style`] holds.
#[verifier::ext_equal]
pub struct StyleModel {
    pub fg: Option<Seq<char>>,
    pub bg: Option<Seq<char>>,
    pub underline_color: Option<Seq<char>>,
    pub add_modifier: u16,
    pub sub_modifier: u16,
}

/// The modifier bit of bold text.
pub const BOLD: u16 = 1;

/// What an optional colour holds.
pub open spec fn color_model(color: Option<String>) -> Option<Seq<char>> {
    match color {
        Some(name) => Some(name@),
        None => None,
    }
}

impl View for Style {
    type V = StyleModel;

    open spec fn view(&self) -> StyleModel {
        StyleModel {
            fg: color_model(self.fg),
            bg: color_model(self.bg),
            underline_color: color_model(self.underline_color),
            add_modifier: self.add_modifier,
            sub_modifier: self.sub_modifier,
        }
    }
}

impl StyleModel {
    /// The style that changes nothing.
    pub open spec fn plain() -> StyleModel {
        StyleModel {
            fg: None,
            bg: None,
            underline_color: None,
            add_modifier: 0,
            sub_modifier: 0,
        }
    }

    /// The style with another foreground colour.
    pub open spec fn with_fg(self, color: Seq<char>) -> StyleModel {
        StyleModel { fg: Some(color), ..self }
    }
}

fn copy_color(color: &Option<String>) -> (r: Option<String>)
    ensures
        color_model(r) == color_model(*color),
{
    match color {
        Some(name) => Some(name.clone()),
        None => None,
    }
}

impl Clone for Style {
    fn clone(&self) -> (r: Self)
        ensures
            r@ == self@,
    {
        Style {
            fg: copy_color(&self.fg),
            bg: copy_color(&self.bg),
            underline_color: copy_color(&self.underline_color),
            add_modifier: self.add_modifier,
            sub_modifier: self.sub_modifier,
        }
    }
}

impl Style {
    /// The style that changes nothing.
    pub fn plain() -> (r: Style)
        ensures
            r@ == StyleModel::plain(),
    {
        Style {
            fg: None,
            bg: None,
            underline_color: None,
            add_modifier: 0,
            sub_modifier: 0,
        }
    }

    /// The style that sets the foreground colour.
    pub fn colored(color: &str) -> (r: Style)
        ensures
            r@ == StyleModel::plain().with_fg(color@),
    {
        Style::plain().with_fg(color)
    }

    /// The style with another foreground colour.
    pub fn with_fg(self, color: &str) -> (r: Style)
        ensures
            r@ == self@.with_fg(color@),
    {
        Style { fg: Some(color.to_owned()), ..self }
    }

    /// Whether the style changes anything.
    pub fn is_plain(&self) -> (r: bool)
        ensures
            r == (self@ == StyleModel::plain()),
    {
        self.fg.is_none() && self.bg.is_none() && self.underline_color.is_none()
            && self.add_modifier == 0 && self.sub_modifier == 0
    }
}

/// A piece of text in one style.
#[derive(Debug, PartialEq, Eq)]
pub struct Span {
    pub content: String,
    pub style: Style,
}

/// What a [`Span`] holds.
#[verifier::ext_equal]
pub struct SpanModel {
    pub content: Seq<char>,
    pub style: StyleModel,
}

impl View for Span {
    type V = SpanModel;

    open spec fn view(&self) -> SpanModel {
        SpanModel { content: self.content@, style: self.style@ }
    }
}

/// A line of styled text; the spans' styles are on top of the line's.
#[derive(Debug, PartialEq, Eq)]
pub struct Line {
    pub style: Style,
    pub spans: Vec<Span>,
}

/// What a [`Line`] holds.
#[verifier::ext_equal]
pub struct LineModel {
    pub style: StyleModel,
    pub spans: Seq<SpanModel>,
}

/// What a list of spans holds.
pub open spec fn span_models(spans: Seq<Span>) -> Seq<SpanModel> {
    spans.map_values(|s: Span| s@)
}

impl View for Line {
    type V = LineModel;

    open spec fn view(&self) -> LineModel {
        LineModel { style: self.style@, spans: span_models(self.spans@) }
    }
}

/// What a list of lines holds.
pub open spec fn line_models(lines: Seq<Line>) -> Seq<LineModel> {
    lines.map_values(|l: Line| l@)
}

/// A span in the surrounding style.
pub open spec fn raw_span(content: Seq<char>) -> SpanModel {
    SpanModel { content, style: StyleModel::plain() }
}

/// A span in one colour.
pub open spec fn colored_span(content: Seq<char>, color: Seq<char>) -> SpanModel {
    SpanModel { content, style: StyleModel::plain().with_fg(color) }
}

/// A line made of spans.
pub open spec fn line_of(spans: Seq<SpanModel>) -> LineModel {
    LineModel { style: StyleModel::plain(), spans }
}

/// A line with a text in one style: one span per line of the text, so that no line break is left.
pub open spec fn text_line(content: Seq<char>, style: StyleModel) -> LineModel {
    LineModel { style, spans: text_lines(content).map_values(|l: Seq<char>| raw_span(l)) }
}

impl Span {
    /// A span in the surrounding style.
    pub fn raw(content: String) -> (r: Span)
        ensures
            r@ == raw_span(content@),
    {
        Span { content, style: Style::plain() }
    }

    /// A span in one style.
    pub fn styled(content: String, style: Style) -> (r: Span)
        ensures
            r@ == (SpanModel { content: content@, style: style@ }),
    {
        Span { content, style }
    }

    /// A span in one colour.
    pub fn colored(content: String, color: &str) -> (r: Span)
        ensures
            r@ == colored_span(content@, color@),
    {
        Span { content, style: Style::colored(color) }
    }
}

impl Line {
    /// A line made of spans.
    pub fn from_spans(spans: Vec<Span>) -> (r: Line)
        ensures
            r@ == line_of(span_models(spans@)),
    {
        Line { style: Style::plain(), spans }
    }

    /// A line with a text in one style.
    pub fn styled(content: &str, style: Style) -> (r: Line)
        ensures
            r@ == text_line(content@, style@),
    {
        let rest = lines(content);
        let ghost all = rest@;
        let mut spans: Vec<Span> = Vec::new();
        let mut i: usize = 0;
        while i < rest.len()
            invariant
                i <= rest@.len(),
                rest@ == all,
                spans@.len() == i,
                forall|k: int| 0 <= k < i ==> (#[trigger] spans@[k])@ == raw_span(all[k]@),
            decreases rest@.len() - i,
        {
            spans.push(Span::raw(rest[i].clone()));
            i = i + 1;
        }
        let r = Line { style, spans };
        assert(r@.spans =~= text_line(content@, style@).spans) by {
            assert(text_lines(content@) == all.map_values(|l: String| l@));
        }
        r
    }
}

/// A plain style sets nothing, a colour sets the foreground alone, and a span keeps its text.
pub proof fn styles_set_what_they_say(style: StyleModel, content: Seq<char>, color: Seq<char>)
    ensures
        ({
            let plain = StyleModel::plain();
            &&& plain.fg is None && plain.bg is None && plain.underline_color is None
            &&& plain.add_modifier == 0 && plain.sub_modifier == 0
        }),
        style.with_fg(color).fg == Some(color),
        style.with_fg(color) == (StyleModel { fg: Some(color), ..style }),
        raw_span(content).content == content && raw_span(content).style == StyleModel::plain(),
        colored_span(content, color).content == content,
        colored_span(content, color).style == (StyleModel {
            fg: Some(color),
            ..StyleModel::plain()
        }),
{
}

/// A line made of spans holds them in the surrounding style; a line made of a text holds one span
/// for each line of the text, and the style is the line's.
pub proof fn lines_hold_their_text(
    spans: Seq<SpanModel>,
    content: Seq<char>,
    style: StyleModel,
)
    ensures
        line_of(spans).spans == spans && line_of(spans).style == StyleModel::plain(),
        text_line(content, style).style == style,
        text_line(content, style).spans.len() == text_lines(content).len(),
        forall|i: int|
            0 <= i < text_lines(content).len() ==> #[trigger] text_line(content, style).spans[i]
                == (SpanModel { content: text_lines(content)[i], style: StyleModel::plain() }),
{
}

/// The spans of a line are read in order.
pub proof fn line_is_read_in_order(line: Line, lines: Seq<Line>, i: int)
    ensures
        line@.style == line.style@,
        line@.spans.len() == line.spans@.len(),
        0 <= i < line.spans@.len() ==> line@.spans[i].content == line.spans@[i].content@
            && line@.spans[i].style == line.spans@[i].style@,
        line_models(lines).len() == lines.len(),
        0 <= i < lines.len() ==> line_models(lines)[i] == lines[i]@,
{
}

} // verus!
