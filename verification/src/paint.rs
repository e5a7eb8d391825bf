//! Colours, styles and styled text, and the palettes of the themes.

use crate::text;
use vstd::prelude::*;

verus! {

/// The colours that the interface uses.
#[derive(Debug, Clone, Copy, PartialEq, Eq, Structural)]
pub enum Color {
    Black,
    White,
    Gray,
    DarkGray,
    Red,
    Green,
    Yellow,
    Blue,
    Magenta,
    Cyan,
}

/// How a piece of text is drawn.
#[derive(Debug, Clone, Copy, PartialEq, Eq, Structural)]
pub struct Style {
    pub fg: Option<Color>,
    pub bg: Option<Color>,
    pub bold: bool,
    pub reversed: bool,
}

/// Text as the terminal draws it by itself.
pub open spec fn plain() -> Style {
    Style { fg: None, bg: None, bold: false, reversed: false }
}

/// Text in one colour.
pub open spec fn colored(color: Color) -> Style {
    Style { fg: Some(color), ..plain() }
}

/// Text in one colour and bold.
pub open spec fn strong(color: Color) -> Style {
    Style { bold: true, ..colored(color) }
}

impl Style {
    /// Text as the terminal draws it by itself.
    pub fn raw() -> (r: Style)
        ensures
            r == plain(),
    {
        Style { fg: None, bg: None, bold: false, reversed: false }
    }

    /// Text in one colour.
    pub fn of(color: Color) -> (r: Style)
        ensures
            r == colored(color),
    {
        Style { fg: Some(color), bg: None, bold: false, reversed: false }
    }

    /// Text in one colour and bold.
    pub fn bold(color: Color) -> (r: Style)
        ensures
            r == strong(color),
    {
        Style { fg: Some(color), bg: None, bold: true, reversed: false }
    }
}

/// A piece of text in one style.
#[derive(Debug, Clone, PartialEq, Eq)]
pub struct Span {
    pub text: String,
    pub style: Style,
}

/// What a span holds.
#[verifier::ext_equal]
pub struct SpanView {
    pub text: Seq<char>,
    pub style: Style,
}

impl View for Span {
    type V = SpanView;

    open spec fn view(&self) -> SpanView {
        SpanView { text: self.text@, style: self.style }
    }
}

/// What the spans of a list hold.
pub open spec fn spans(list: Seq<Span>) -> Seq<SpanView> {
    list.map_values(|s: Span| s@)
}

/// The text of spans one after the other.
pub open spec fn span_text(list: Seq<SpanView>) -> Seq<char>
    decreases list.len(),
{
    if list.len() == 0 {
        Seq::empty()
    } else {
        span_text(list.drop_last()) + list.last().text
    }
}

/// The text of one more span.
pub proof fn span_text_push(list: Seq<SpanView>, s: SpanView)
    ensures
        span_text(list.push(s)) == span_text(list) + s.text,
{
    assert(list.push(s).drop_last() =~= list);
}

/// A line of spans.
#[derive(Debug, Clone, PartialEq, Eq)]
pub struct Line {
    pub spans: Vec<Span>,
}

impl View for Line {
    type V = Seq<SpanView>;

    open spec fn view(&self) -> Seq<SpanView> {
        spans(self.spans@)
    }
}

/// What the lines of a list hold.
pub open spec fn line_views(list: Seq<Line>) -> Seq<Seq<SpanView>> {
    list.map_values(|l: Line| l@)
}

/// Pushing a line.
pub proof fn line_views_push(list: Seq<Line>, l: Line)
    ensures
        line_views(list.push(l)) == line_views(list).push(l@),
{
    assert(line_views(list.push(l)) =~= line_views(list).push(l@));
}

/// A line of one span.
pub open spec fn line_of(text: Seq<char>, style: Style) -> Seq<SpanView> {
    seq![SpanView { text: text, style: style }]
}

impl Line {
    /// A line of one span.
    pub fn one(text: String, style: Style) -> (r: Line)
        ensures
            r@ == line_of(text@, style),
    {
        let mut list: Vec<Span> = Vec::new();
        list.push(Span { text, style });
        let r = Line { spans: list };
        assert(r@ =~= line_of(text@, style));
        r
    }

    /// The text of the line, without its styles.
    pub fn text(&self) -> (r: String)
        ensures
            r@ == span_text(self@),
    {
        let mut r = String::new();
        for i in 0..self.spans.len()
            invariant
                r@ == span_text(self@.take(i as int)),
        {
            assert(self@.take(i + 1).drop_last() =~= self@.take(i as int));
            assert(self@.take(i + 1).last() == self.spans@[i as int]@);
            vstd::string::StringExecFns::append(&mut r, self.spans[i].text.as_str());
        }
        assert(self@.take(self@.len() as int) =~= self@);
        r
    }
}

// ---------------------------------------------------------------------------
// Themes
// ---------------------------------------------------------------------------

/// The colours of a theme: the accent for the header and the selection, and one for
/// each role in the transcript.
#[derive(Debug, Clone, Copy, PartialEq, Eq, Structural)]
pub struct ThemePalette {
    pub accent: Color,
    pub user: Color,
    pub assistant: Color,
    pub tool: Color,
}

/// The palette of a theme; a theme without its own has the default one.
pub open spec fn palette_of(theme: Seq<char>) -> ThemePalette {
    if theme == "dracula"@ {
        ThemePalette {
            accent: Color::Magenta,
            user: Color::Cyan,
            assistant: Color::Magenta,
            tool: Color::Yellow,
        }
    } else if theme == "solarized-dark"@ {
        ThemePalette {
            accent: Color::Blue,
            user: Color::Blue,
            assistant: Color::Green,
            tool: Color::Yellow,
        }
    } else if theme == "high-contrast"@ {
        ThemePalette {
            accent: Color::Yellow,
            user: Color::White,
            assistant: Color::White,
            tool: Color::Yellow,
        }
    } else {
        ThemePalette {
            accent: Color::Cyan,
            user: Color::Cyan,
            assistant: Color::Green,
            tool: Color::Yellow,
        }
    }
}

/// The palette of a theme.
pub fn theme_palette(theme: &str) -> (r: ThemePalette)
    ensures
        r == palette_of(theme@),
{
    if text::same_text(theme, "dracula") {
        ThemePalette {
            accent: Color::Magenta,
            user: Color::Cyan,
            assistant: Color::Magenta,
            tool: Color::Yellow,
        }
    } else if text::same_text(theme, "solarized-dark") {
        ThemePalette {
            accent: Color::Blue,
            user: Color::Blue,
            assistant: Color::Green,
            tool: Color::Yellow,
        }
    } else if text::same_text(theme, "high-contrast") {
        ThemePalette {
            accent: Color::Yellow,
            user: Color::White,
            assistant: Color::White,
            tool: Color::Yellow,
        }
    } else {
        ThemePalette {
            accent: Color::Cyan,
            user: Color::Cyan,
            assistant: Color::Green,
            tool: Color::Yellow,
        }
    }
}

/// The accent colour of a theme.
pub fn accent_color(theme: &str) -> (r: Color)
    ensures
        r == palette_of(theme@).accent,
{
    theme_palette(theme).accent
}

/// How the selected row of a list is drawn in a theme.
pub open spec fn selection_of(theme: Seq<char>) -> Style {
    Style {
        fg: Some(Color::Black),
        bg: Some(
            if theme == "high-contrast"@ {
                Color::White
            } else {
                palette_of(theme).accent
            },
        ),
        bold: true,
        reversed: false,
    }
}

/// How the selected row of a list is drawn in a theme.
pub fn selection_style(theme: &str) -> (r: Style)
    ensures
        r == selection_of(theme@),
{
    let bg = if text::same_text(theme, "high-contrast") {
        Color::White
    } else {
        accent_color(theme)
    };
    Style { fg: Some(Color::Black), bg: Some(bg), bold: true, reversed: false }
}

/// In every theme the text of the selected row differs in colour from its ground.
pub proof fn selection_is_legible(theme: Seq<char>)
    ensures
        selection_of(theme).fg != selection_of(theme).bg,
{
}

// ---------------------------------------------------------------------------
// Rectangles
// ---------------------------------------------------------------------------

/// A part of the screen in cells.
#[derive(Debug, Clone, Copy, PartialEq, Eq, Structural)]
pub struct Rect {
    pub x: u16,
    pub y: u16,
    pub width: u16,
    pub height: u16,
}

impl Rect {
    /// Whether a cell lies within.
    pub open spec fn holds(self, column: int, row: int) -> bool {
        &&& self.x <= column < self.x + self.width
        &&& self.y <= row < self.y + self.height
    }

    /// Nowhere.
    pub fn none() -> (r: Rect)
        ensures
            r == (Rect { x: 0, y: 0, width: 0, height: 0 }),
    {
        Rect { x: 0, y: 0, width: 0, height: 0 }
    }

    /// Whether a cell lies within.
    pub fn contains(&self, column: u16, row: u16) -> (r: bool)
        ensures
            r == self.holds(column as int, row as int),
    {
        column >= self.x && (column as u32) < self.x as u32 + self.width as u32 && row >= self.y
            && (row as u32) < self.y as u32 + self.height as u32
    }
}

/// The smaller of two numbers.
pub open spec fn least(a: int, b: int) -> int {
    if a <= b {
        a
    } else {
        b
    }
}

/// A rectangle of at most the given size in the middle of `area`.
pub fn centered(area: Rect, width: u16, height: u16) -> (r: Rect)
    requires
        area.x + (area.width - least(width as int, area.width as int)) / 2 <= u16::MAX,
        area.y + (area.height - least(height as int, area.height as int)) / 2 <= u16::MAX,
    ensures
        r.width == least(width as int, area.width as int),
        r.height == least(height as int, area.height as int),
        r.x == area.x + (area.width - r.width) / 2,
        r.y == area.y + (area.height - r.height) / 2,
        forall|c: int, w: int| r.holds(c, w) ==> area.holds(c, w),
{
    let w: u16 = if width <= area.width {
        width
    } else {
        area.width
    };
    let h: u16 = if height <= area.height {
        height
    } else {
        area.height
    };
    Rect { x: area.x + (area.width - w) / 2, y: area.y + (area.height - h) / 2, width: w, height: h }
}

} // verus!
