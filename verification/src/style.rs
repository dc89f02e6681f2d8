//! Styled terminal text as the views build it: spans of text with a
//! foreground and background colour, bold and underline. The terminal
//! front end draws these with its widget library.
use vstd::prelude::*;

verus! {

/// A terminal colour by its red, green and blue parts.
#[derive(Debug, Clone, Copy, PartialEq, Eq, Structural)]
pub struct Rgb {
    pub r: u8,
    pub g: u8,
    pub b: u8,
}

/// How a span is drawn; `None` leaves a colour to the terminal.
#[derive(Debug, Clone, Copy, PartialEq, Eq, Structural)]
pub struct TextStyle {
    pub fg: Option<Rgb>,
    pub bg: Option<Rgb>,
    pub bold: bool,
    pub underlined: bool,
}

/// A run of text drawn in one style.
#[derive(Debug, Clone)]
pub struct StyledSpan {
    pub content: String,
    pub style: TextStyle,
}

/// One line of spans; `style` is laid under the whole line.
#[derive(Debug, Clone)]
pub struct StyledLine {
    pub spans: Vec<StyledSpan>,
    pub style: TextStyle,
}

// ---------------------------------------------------------------------
// Palette
// ---------------------------------------------------------------------

pub open spec fn rgb(r: u8, g: u8, b: u8) -> Rgb {
    Rgb { r, g, b }
}

pub open spec fn pane_text_spec() -> Rgb {
    rgb(236, 239, 244)
}

pub open spec fn overview_text_spec() -> Rgb {
    rgb(232, 235, 241)
}

pub open spec fn good_spec() -> Rgb {
    rgb(96, 255, 160)
}

pub open spec fn accent_spec() -> Rgb {
    rgb(88, 214, 255)
}

pub open spec fn surface_spec() -> Rgb {
    rgb(29, 32, 40)
}

pub open spec fn warn_spec() -> Rgb {
    rgb(255, 204, 102)
}

pub open spec fn red_spec() -> Rgb {
    rgb(255, 107, 107)
}

pub open spec fn bad_spec() -> Rgb {
    rgb(255, 108, 108)
}

pub open spec fn muted_spec() -> Rgb {
    rgb(134, 144, 160)
}

pub open spec fn violet_spec() -> Rgb {
    rgb(191, 150, 255)
}

pub open spec fn teal_spec() -> Rgb {
    rgb(95, 241, 223)
}

/// Body text of the pane views.
#[verifier::when_used_as_spec(pane_text_spec)]
pub fn pane_text() -> (c: Rgb)
    ensures
        c == pane_text_spec(),
{
    Rgb { r: 236, g: 239, b: 244 }
}

/// Body text of the overview.
#[verifier::when_used_as_spec(overview_text_spec)]
pub fn overview_text() -> (c: Rgb)
    ensures
        c == overview_text_spec(),
{
    Rgb { r: 232, g: 235, b: 241 }
}

#[verifier::when_used_as_spec(good_spec)]
pub fn good() -> (c: Rgb)
    ensures
        c == good_spec(),
{
    Rgb { r: 96, g: 255, b: 160 }
}

#[verifier::when_used_as_spec(accent_spec)]
pub fn accent() -> (c: Rgb)
    ensures
        c == accent_spec(),
{
    Rgb { r: 88, g: 214, b: 255 }
}

#[verifier::when_used_as_spec(surface_spec)]
pub fn surface() -> (c: Rgb)
    ensures
        c == surface_spec(),
{
    Rgb { r: 29, g: 32, b: 40 }
}

#[verifier::when_used_as_spec(warn_spec)]
pub fn warn() -> (c: Rgb)
    ensures
        c == warn_spec(),
{
    Rgb { r: 255, g: 204, b: 102 }
}

/// Deletions in the pane views.
#[verifier::when_used_as_spec(red_spec)]
pub fn red() -> (c: Rgb)
    ensures
        c == red_spec(),
{
    Rgb { r: 255, g: 107, b: 107 }
}

/// Failures in the overview.
#[verifier::when_used_as_spec(bad_spec)]
pub fn bad() -> (c: Rgb)
    ensures
        c == bad_spec(),
{
    Rgb { r: 255, g: 108, b: 108 }
}

#[verifier::when_used_as_spec(muted_spec)]
pub fn muted() -> (c: Rgb)
    ensures
        c == muted_spec(),
{
    Rgb { r: 134, g: 144, b: 160 }
}

#[verifier::when_used_as_spec(violet_spec)]
pub fn violet() -> (c: Rgb)
    ensures
        c == violet_spec(),
{
    Rgb { r: 191, g: 150, b: 255 }
}

#[verifier::when_used_as_spec(teal_spec)]
pub fn teal() -> (c: Rgb)
    ensures
        c == teal_spec(),
{
    Rgb { r: 95, g: 241, b: 223 }
}

// ---------------------------------------------------------------------
// Styles
// ---------------------------------------------------------------------

pub open spec fn plain_spec() -> TextStyle {
    TextStyle { fg: None, bg: None, bold: false, underlined: false }
}

pub open spec fn fg_spec(c: Rgb) -> TextStyle {
    TextStyle { fg: Some(c), bg: None, bold: false, underlined: false }
}

pub open spec fn fg_bold_spec(c: Rgb) -> TextStyle {
    TextStyle { fg: Some(c), bg: None, bold: true, underlined: false }
}

pub open spec fn fg_bold_underlined_spec(c: Rgb) -> TextStyle {
    TextStyle { fg: Some(c), bg: None, bold: true, underlined: true }
}

/// The terminal's own style.
#[verifier::when_used_as_spec(plain_spec)]
pub fn plain() -> (s: TextStyle)
    ensures
        s == plain_spec(),
{
    TextStyle { fg: None, bg: None, bold: false, underlined: false }
}

/// Text in colour `c`.
#[verifier::when_used_as_spec(fg_spec)]
pub fn fg(c: Rgb) -> (s: TextStyle)
    ensures
        s == fg_spec(c),
{
    TextStyle { fg: Some(c), bg: None, bold: false, underlined: false }
}

/// Bold text in colour `c`.
#[verifier::when_used_as_spec(fg_bold_spec)]
pub fn fg_bold(c: Rgb) -> (s: TextStyle)
    ensures
        s == fg_bold_spec(c),
{
    TextStyle { fg: Some(c), bg: None, bold: true, underlined: false }
}

/// Bold, underlined text in colour `c`.
#[verifier::when_used_as_spec(fg_bold_underlined_spec)]
pub fn fg_bold_underlined(c: Rgb) -> (s: TextStyle)
    ensures
        s == fg_bold_underlined_spec(c),
{
    TextStyle { fg: Some(c), bg: None, bold: true, underlined: true }
}

// ---------------------------------------------------------------------
// Spans and lines
// ---------------------------------------------------------------------

/// The text and style of each span, as plain values.
pub open spec fn span_views(spans: Seq<StyledSpan>) -> Seq<(Seq<char>, TextStyle)> {
    Seq::new(spans.len(), |i: int| (spans[i].content@, spans[i].style))
}

/// The text of a line: its spans one after another.
pub open spec fn spans_text(spans: Seq<(Seq<char>, TextStyle)>) -> Seq<char>
    decreases spans.len(),
{
    if spans.len() == 0 {
        Seq::empty()
    } else {
        spans_text(spans.drop_last()) + spans.last().0
    }
}

/// A span of `text` in `style`.
pub fn span(text: &str, style: TextStyle) -> (s: StyledSpan)
    ensures
        s.content@ == text@,
        s.style == style,
{
    StyledSpan { content: String::from_str(text), style }
}

/// A span that owns `text`.
pub fn span_owned(text: String, style: TextStyle) -> (s: StyledSpan)
    ensures
        s.content@ == text@,
        s.style == style,
{
    StyledSpan { content: text, style }
}

/// A line of `spans` with no style of its own.
pub fn line(spans: Vec<StyledSpan>) -> (l: StyledLine)
    ensures
        l.spans@ == spans@,
        l.style == plain_spec(),
{
    StyledLine { spans, style: plain() }
}

/// A table row: its cells, each a line, and the style of the whole row.
#[derive(Debug, Clone)]
pub struct TableRow {
    pub cells: Vec<StyledLine>,
    pub style: TextStyle,
}

/// A cell of one plain span of `text`.
pub fn text_cell(text: String) -> (l: StyledLine)
    ensures
        span_views(l.spans@) == seq![(text@, plain_spec())],
        l.style == plain_spec(),
{
    let l = line(vec![span_owned(text, plain())]);
    assert(span_views(l.spans@) =~= seq![(text@, plain_spec())]);
    l
}

/// Each of `cells` is one plain span, of the matching text of `texts`.
pub open spec fn text_cells(cells: Seq<StyledLine>, texts: Seq<Seq<char>>) -> bool {
    &&& cells.len() == texts.len()
    &&& forall|k: int|
        0 <= k < cells.len() ==> span_views((#[trigger] cells[k]).spans@) == seq![
            (texts[k], plain_spec()),
        ] && cells[k].style == plain_spec()
}

} // verus!
