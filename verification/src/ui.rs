//! The visual language of the pages: colours, styles and styled text.

use vstd::prelude::*;

use crate::text;

verus! {

/// A colour: one of the shared palette, any other true colour, or one of the terminal's own.
#[derive(Clone, Copy, PartialEq, Eq, Debug, Structural)]
pub enum Color {
    /// Primary accent, light blue.
    Accent,
    /// Secondary accent, mauve.
    Accent2,
    /// Green.
    Good,
    /// Amber.
    Warn,
    /// Red.
    Bad,
    /// Primary text.
    Text,
    /// Secondary text.
    Subtle,
    /// Labels and hints.
    Muted,
    /// Background of the selected row.
    SelBg,
    /// Background of the focused field.
    FocusBg,
    /// Border of an idle panel.
    Border,
    /// Background of a chip.
    ChipBg,
    Rgb(u8, u8, u8),
    Black,
    Red,
    Green,
    Yellow,
    Magenta,
    Cyan,
    DarkGray,
    White,
}

/// The red, green and blue parts of a true colour; none for one of the terminal's own.
pub open spec fn color_parts(c: Color) -> Option<(u8, u8, u8)> {
    match c {
        Color::Accent => Some((125, 207, 255)),
        Color::Accent2 => Some((187, 154, 247)),
        Color::Good => Some((158, 206, 106)),
        Color::Warn => Some((224, 175, 104)),
        Color::Bad => Some((247, 118, 142)),
        Color::Text => Some((192, 202, 245)),
        Color::Subtle => Some((154, 165, 200)),
        Color::Muted => Some((96, 104, 144)),
        Color::SelBg => Some((41, 46, 66)),
        Color::FocusBg => Some((54, 66, 110)),
        Color::Border => Some((60, 67, 99)),
        Color::ChipBg => Some((30, 34, 52)),
        Color::Rgb(r, g, b) => Some((r, g, b)),
        _ => None,
    }
}

impl Color {
    /// The red, green and blue parts of a true colour; none for one of the terminal's own.
    pub fn parts(self) -> (r: Option<(u8, u8, u8)>)
        ensures
            r == color_parts(self),
    {
        match self {
            Color::Accent => Some((125, 207, 255)),
            Color::Accent2 => Some((187, 154, 247)),
            Color::Good => Some((158, 206, 106)),
            Color::Warn => Some((224, 175, 104)),
            Color::Bad => Some((247, 118, 142)),
            Color::Text => Some((192, 202, 245)),
            Color::Subtle => Some((154, 165, 200)),
            Color::Muted => Some((96, 104, 144)),
            Color::SelBg => Some((41, 46, 66)),
            Color::FocusBg => Some((54, 66, 110)),
            Color::Border => Some((60, 67, 99)),
            Color::ChipBg => Some((30, 34, 52)),
            Color::Rgb(r, g, b) => Some((r, g, b)),
            _ => None,
        }
    }
}

/// How a piece of text looks.
#[derive(Clone, Copy, PartialEq, Eq, Debug, Structural)]
pub struct Style {
    pub fg: Option<Color>,
    pub bg: Option<Color>,
    pub bold: bool,
    pub underlined: bool,
    pub blink: bool,
}

/// No style at all.
pub open spec fn unstyled() -> Style {
    Style { fg: None, bg: None, bold: false, underlined: false, blink: false }
}

/// A foreground colour.
pub open spec fn colored(c: Color) -> Style {
    Style { fg: Some(c), ..unstyled() }
}

/// A foreground colour in bold.
pub open spec fn bold(c: Color) -> Style {
    Style { bold: true, ..colored(c) }
}

impl Style {
    pub fn plain() -> (r: Style)
        ensures
            r == unstyled(),
    {
        Style { fg: None, bg: None, bold: false, underlined: false, blink: false }
    }

    pub fn fg(c: Color) -> (r: Style)
        ensures
            r == colored(c),
    {
        Style { fg: Some(c), bg: None, bold: false, underlined: false, blink: false }
    }

    pub fn strong(c: Color) -> (r: Style)
        ensures
            r == bold(c),
    {
        Style { fg: Some(c), bg: None, bold: true, underlined: false, blink: false }
    }

    /// The same style on a background.
    pub fn on(self, c: Color) -> (r: Style)
        ensures
            r == (Style { bg: Some(c), ..self }),
    {
        Style { fg: self.fg, bg: Some(c), bold: self.bold, underlined: self.underlined, blink: self.blink }
    }
}

/// A piece of text in one style.
pub struct Span {
    pub text: String,
    pub style: Style,
}

/// What a piece of text shows.
pub struct SpanView {
    pub text: Seq<char>,
    pub style: Style,
}

impl View for Span {
    type V = SpanView;

    open spec fn view(&self) -> SpanView {
        SpanView { text: self.text@, style: self.style }
    }
}

/// What a line of pieces shows.
pub open spec fn spans(v: Seq<Span>) -> Seq<SpanView> {
    Seq::new(v.len(), |i: int| v[i]@)
}

/// What some lines show.
pub open spec fn lines(v: Seq<Vec<Span>>) -> Seq<Seq<SpanView>> {
    Seq::new(v.len(), |i: int| spans(v[i]@))
}

/// A text in a style.
pub open spec fn styled(t: Seq<char>, style: Style) -> SpanView {
    SpanView { text: t, style }
}

/// A text in a colour.
pub open spec fn tinted(t: Seq<char>, c: Color) -> SpanView {
    styled(t, colored(c))
}

/// A text in a colour and bold.
pub open spec fn strong(t: Seq<char>, c: Color) -> SpanView {
    styled(t, bold(c))
}

/// A text without a style.
pub open spec fn raw(t: Seq<char>) -> SpanView {
    styled(t, unstyled())
}

/// Appends a piece of text.
pub fn put(v: &mut Vec<Span>, t: &str, style: Style)
    ensures
        spans(final(v)@) == spans(old(v)@).push(styled(t@, style)),
{
    let ghost before = v@;
    v.push(Span { text: text::owned(t), style });
    assert(spans(v@) == spans(before).push(styled(t@, style)));
}

/// Appends a line.
pub fn put_line(v: &mut Vec<Vec<Span>>, line: Vec<Span>)
    ensures
        lines(final(v)@) == lines(old(v)@).push(spans(line@)),
{
    let ghost before = v@;
    let ghost shown = spans(line@);
    v.push(line);
    assert(lines(v@) == lines(before).push(shown));
}

/// Appends all pieces of another line.
pub fn put_all(v: &mut Vec<Span>, mut more: Vec<Span>)
    ensures
        spans(final(v)@) == spans(old(v)@) + spans(more@),
{
    let ghost before = v@;
    let ghost rest = more@;
    v.append(&mut more);
    assert(spans(v@) == spans(before) + spans(rest));
}

/// A line without pieces.
pub fn no_spans() -> (r: Vec<Span>)
    ensures
        spans(r@) == Seq::<SpanView>::empty(),
{
    let v: Vec<Span> = Vec::new();
    assert(spans(v@) == Seq::<SpanView>::empty());
    v
}

/// No lines.
pub fn no_lines() -> (r: Vec<Vec<Span>>)
    ensures
        lines(r@) == Seq::<Seq<SpanView>>::empty(),
{
    let v: Vec<Vec<Span>> = Vec::new();
    assert(lines(v@) == Seq::<Seq<SpanView>>::empty());
    v
}

/// A line of one piece.
pub fn one_span(t: &str, style: Style) -> (r: Vec<Span>)
    ensures
        spans(r@) == seq![styled(t@, style)],
{
    let mut v = no_spans();
    put(&mut v, t, style);
    v
}

/// A rounded panel: its title and the colour of its border.
pub struct Panel {
    pub title: Span,
    pub border: Color,
}

/// A panel with its title between spaces. Focus brightens the border and the title.
pub fn panel(title: &str, focused: bool) -> (r: Panel)
    ensures
        r.title@ == strong(
            " "@ + title@ + " "@,
            if focused {
                Color::Accent
            } else {
                Color::Subtle
            },
        ),
        r.border == if focused {
            Color::Accent
        } else {
            Color::Border
        },
{
    let mut t = text::owned(" ");
    t.append(title);
    t.append(" ");
    if focused {
        Panel {
            title: Span { text: t, style: Style::strong(Color::Accent) },
            border: Color::Accent,
        }
    } else {
        Panel {
            title: Span { text: t, style: Style::strong(Color::Subtle) },
            border: Color::Border,
        }
    }
}

/// A muted label with a coloured value.
pub open spec fn kv_spans(label: Seq<char>, value: Seq<char>, c: Color) -> Seq<SpanView> {
    seq![tinted(label, Color::Muted), strong(value, c)]
}

/// A muted label with a coloured value.
pub fn kv(label: &str, value: &str, vcolor: Color) -> (r: Vec<Span>)
    ensures
        spans(r@) == kv_spans(label@, value@, vcolor),
{
    let mut v = no_spans();
    put(&mut v, label, Style::fg(Color::Muted));
    put(&mut v, value, Style::strong(vcolor));
    v
}

/// A key in a chip, and what it does.
pub open spec fn keyhint_spans(key: Seq<char>, desc: Seq<char>) -> Seq<SpanView> {
    seq![
        styled(" "@ + key + " "@, Style { bg: Some(Color::Accent), ..bold(Color::Black) }),
        tinted(" "@ + desc + "   "@, Color::Subtle),
    ]
}

/// A key in a chip, and what it does.
pub fn keyhint(key: &str, desc: &str) -> (r: Vec<Span>)
    ensures
        spans(r@) == keyhint_spans(key@, desc@),
{
    let mut k = text::owned(" ");
    k.append(key);
    k.append(" ");
    let mut d = text::owned(" ");
    d.append(desc);
    d.append("   ");
    let mut v = no_spans();
    put(&mut v, k.as_str(), Style::strong(Color::Black).on(Color::Accent));
    put(&mut v, d.as_str(), Style::fg(Color::Subtle));
    v
}

/// A filled green dot, or an empty red one.
pub open spec fn dot_span(up: bool) -> SpanView {
    if up {
        tinted("●"@, Color::Good)
    } else {
        tinted("○"@, Color::Bad)
    }
}

/// A filled green dot, or an empty red one.
pub fn dot(up: bool) -> (r: Span)
    ensures
        r@ == dot_span(up),
{
    if up {
        s("●", Color::Good)
    } else {
        s("○", Color::Bad)
    }
}

/// A text in a colour.
pub fn s(t: &str, color: Color) -> (r: Span)
    ensures
        r@ == tinted(t@, color),
{
    Span { text: text::owned(t), style: Style::fg(color) }
}

/// A text in a colour and bold.
pub fn b(t: &str, color: Color) -> (r: Span)
    ensures
        r@ == strong(t@, color),
{
    Span { text: text::owned(t), style: Style::strong(color) }
}

/// A row of a table: its cells and the style that lies under them.
pub struct TableRow {
    pub cells: Vec<Span>,
    pub style: Style,
}

/// What a row of a table shows.
#[verifier::ext_equal]
pub struct TableRowView {
    pub cells: Seq<SpanView>,
    pub style: Style,
}

impl View for TableRow {
    type V = TableRowView;

    open spec fn view(&self) -> TableRowView {
        TableRowView { cells: spans(self.cells@), style: self.style }
    }
}

/// What the rows of a table show.
pub open spec fn table(v: Seq<TableRow>) -> Seq<TableRowView> {
    Seq::new(v.len(), |i: int| v[i]@)
}

/// Appends a row.
pub fn put_row(v: &mut Vec<TableRow>, cells: Vec<Span>, style: Style)
    ensures
        table(final(v)@) == table(old(v)@).push(TableRowView { cells: spans(cells@), style }),
{
    let ghost before = v@;
    let ghost shown = spans(cells@);
    v.push(TableRow { cells, style });
    assert(table(v@) == table(before).push(TableRowView { cells: shown, style }));
}

/// No rows.
pub fn no_rows() -> (r: Vec<TableRow>)
    ensures
        table(r@) == Seq::<TableRowView>::empty(),
{
    let v: Vec<TableRow> = Vec::new();
    assert(table(v@) == Seq::<TableRowView>::empty());
    v
}

} // verus!
