//! What the terminal shows: lines of text with their style, and where they stand.
use vstd::prelude::*;

use crate::entry::tui;
use crate::entry::tui::input_editor;
use crate::entry::tui::{
    KindView, ToolStatus, ToolView, TuiThemeMode, UiMessage, UiMessageKind, UiMessageView,
    UiToolCall,
};
use crate::provider::Role;
use crate::text;

verus! {

/// A colour.
#[derive(Clone, Copy, Debug, PartialEq, Eq, Structural)]
pub enum Color {
    /// That of the terminal.
    Reset,
    Blue,
    Green,
    Red,
    Yellow,
    Rgb(u8, u8, u8),
}

/// What a colour is for.
#[derive(Clone, Copy, Debug, PartialEq, Eq, Structural)]
pub enum Tone {
    Foreground,
    Muted,
    Border,
    Info,
    Success,
    Error,
    Warm,
    Code,
    DiffAdd,
    DiffRemove,
}

/// The colours of the terminal.
#[derive(Clone, Copy, Debug, PartialEq, Eq, Structural)]
pub struct Theme {
    pub background: Color,
    pub panel: Color,
    pub foreground: Color,
    pub muted: Color,
    pub border: Color,
    pub info: Color,
    pub success: Color,
    pub error: Color,
    pub warm: Color,
    pub code: Color,
    pub diff_add: Color,
    pub diff_remove: Color,
    /// What is muted and not bold is dimmed.
    pub dim_muted: bool,
}

impl Theme {
    /// The colours of a mode.
    #[verifier::allow_in_spec]
    pub fn new(mode: TuiThemeMode) -> (r: Self)
        returns
            (match mode {
                TuiThemeMode::Terminal => Theme {
                    background: Color::Reset,
                    panel: Color::Reset,
                    foreground: Color::Reset,
                    muted: Color::Reset,
                    border: Color::Reset,
                    info: Color::Blue,
                    success: Color::Green,
                    error: Color::Red,
                    warm: Color::Yellow,
                    code: Color::Reset,
                    diff_add: Color::Green,
                    diff_remove: Color::Red,
                    dim_muted: true,
                },
                TuiThemeMode::Dark => Theme {
                    background: Color::Rgb(19, 22, 29),
                    panel: Color::Rgb(27, 32, 42),
                    foreground: Color::Rgb(220, 225, 234),
                    muted: Color::Rgb(143, 155, 174),
                    border: Color::Rgb(62, 73, 91),
                    info: Color::Rgb(148, 181, 255),
                    success: Color::Rgb(120, 205, 162),
                    error: Color::Rgb(244, 143, 143),
                    warm: Color::Rgb(230, 185, 119),
                    code: Color::Rgb(166, 206, 189),
                    diff_add: Color::Rgb(120, 205, 162),
                    diff_remove: Color::Rgb(244, 143, 143),
                    dim_muted: false,
                },
                TuiThemeMode::Light => Theme {
                    background: Color::Rgb(246, 247, 250),
                    panel: Color::Rgb(255, 255, 255),
                    foreground: Color::Rgb(35, 40, 50),
                    muted: Color::Rgb(96, 106, 122),
                    border: Color::Rgb(177, 186, 202),
                    info: Color::Rgb(54, 91, 170),
                    success: Color::Rgb(35, 125, 79),
                    error: Color::Rgb(181, 55, 61),
                    warm: Color::Rgb(139, 91, 24),
                    code: Color::Rgb(40, 116, 91),
                    diff_add: Color::Rgb(35, 125, 79),
                    diff_remove: Color::Rgb(181, 55, 61),
                    dim_muted: false,
                },
            }),
    {
        match mode {
            TuiThemeMode::Terminal => Theme {
                background: Color::Reset,
                panel: Color::Reset,
                foreground: Color::Reset,
                muted: Color::Reset,
                border: Color::Reset,
                info: Color::Blue,
                success: Color::Green,
                error: Color::Red,
                warm: Color::Yellow,
                code: Color::Reset,
                diff_add: Color::Green,
                diff_remove: Color::Red,
                dim_muted: true,
            },
            TuiThemeMode::Dark => Theme {
                background: Color::Rgb(19, 22, 29),
                panel: Color::Rgb(27, 32, 42),
                foreground: Color::Rgb(220, 225, 234),
                muted: Color::Rgb(143, 155, 174),
                border: Color::Rgb(62, 73, 91),
                info: Color::Rgb(148, 181, 255),
                success: Color::Rgb(120, 205, 162),
                error: Color::Rgb(244, 143, 143),
                warm: Color::Rgb(230, 185, 119),
                code: Color::Rgb(166, 206, 189),
                diff_add: Color::Rgb(120, 205, 162),
                diff_remove: Color::Rgb(244, 143, 143),
                dim_muted: false,
            },
            TuiThemeMode::Light => Theme {
                background: Color::Rgb(246, 247, 250),
                panel: Color::Rgb(255, 255, 255),
                foreground: Color::Rgb(35, 40, 50),
                muted: Color::Rgb(96, 106, 122),
                border: Color::Rgb(177, 186, 202),
                info: Color::Rgb(54, 91, 170),
                success: Color::Rgb(35, 125, 79),
                error: Color::Rgb(181, 55, 61),
                warm: Color::Rgb(139, 91, 24),
                code: Color::Rgb(40, 116, 91),
                diff_add: Color::Rgb(35, 125, 79),
                diff_remove: Color::Rgb(181, 55, 61),
                dim_muted: false,
            },
        }
    }

    /// Something is dimmed.
    pub fn is_dim(self, look: Look) -> (r: bool)
        ensures
            r == (self.dim_muted && look.tone == Tone::Muted && !look.bold),
    {
        self.dim_muted && look.tone == Tone::Muted && !look.bold
    }

    /// The colour for something.
    pub fn color(self, tone: Tone) -> (r: Color)
        ensures
            r == (match tone {
                Tone::Foreground => self.foreground,
                Tone::Muted => self.muted,
                Tone::Border => self.border,
                Tone::Info => self.info,
                Tone::Success => self.success,
                Tone::Error => self.error,
                Tone::Warm => self.warm,
                Tone::Code => self.code,
                Tone::DiffAdd => self.diff_add,
                Tone::DiffRemove => self.diff_remove,
            }),
    {
        match tone {
            Tone::Foreground => self.foreground,
            Tone::Muted => self.muted,
            Tone::Border => self.border,
            Tone::Info => self.info,
            Tone::Success => self.success,
            Tone::Error => self.error,
            Tone::Warm => self.warm,
            Tone::Code => self.code,
            Tone::DiffAdd => self.diff_add,
            Tone::DiffRemove => self.diff_remove,
        }
    }
}

/// The terminal's own colours never come with a background, and those of the other modes tell
/// what went well from what failed.
pub proof fn law_themes_can_be_told_apart(mode: TuiThemeMode)
    ensures
        mode == TuiThemeMode::Terminal ==> Theme::new(mode).background == Color::Reset
            && Theme::new(mode).panel == Color::Reset,
        mode != TuiThemeMode::Terminal ==> Theme::new(mode).background != Color::Reset
            && Theme::new(mode).foreground != Color::Reset,
        Theme::new(mode).info != Theme::new(mode).success,
        Theme::new(mode).success != Theme::new(mode).error,
        Theme::new(mode).diff_add != Theme::new(mode).diff_remove,
{
}

/// How a text is shown.
#[derive(Clone, Copy, Debug, PartialEq, Eq, Structural)]
pub struct Look {
    pub tone: Tone,
    pub bold: bool,
    /// It stands on the colour of a panel.
    pub panel: bool,
}

/// A plain text in a colour.
pub open spec fn plain(tone: Tone) -> Look {
    Look { tone, bold: false, panel: false }
}

/// A bold text in a colour.
pub open spec fn strong(tone: Tone) -> Look {
    Look { tone, bold: true, panel: false }
}

fn plain_look(tone: Tone) -> (r: Look)
    ensures
        r == plain(tone),
{
    Look { tone, bold: false, panel: false }
}

fn strong_look(tone: Tone) -> (r: Look)
    ensures
        r == strong(tone),
{
    Look { tone, bold: true, panel: false }
}

/// A text and how it is shown.
#[derive(Debug)]
pub struct Span {
    pub text: String,
    pub look: Look,
}

/// What a piece of a line says.
pub struct SpanView {
    pub text: Seq<char>,
    pub look: Look,
}

impl View for Span {
    type V = SpanView;

    open spec fn view(&self) -> SpanView {
        SpanView { text: self.text@, look: self.look }
    }
}

/// What a line says.
pub open spec fn line_view(v: Seq<Span>) -> Seq<SpanView> {
    Seq::new(v.len(), |i: int| v[i]@)
}

/// What lines say.
pub open spec fn lines_view(v: Seq<Vec<Span>>) -> Seq<Seq<SpanView>> {
    Seq::new(v.len(), |i: int| line_view(v[i]@))
}

fn span(s: &str, look: Look) -> (r: Span)
    ensures
        r@ == (SpanView { text: s@, look }),
{
    Span { text: s.to_owned(), look }
}

/// A line of one piece.
pub open spec fn one(s: Seq<char>, look: Look) -> Seq<SpanView> {
    seq![SpanView { text: s, look }]
}

fn one_line(s: String, look: Look) -> (r: Vec<Span>)
    ensures
        line_view(r@) == one(s@, look),
{
    let mut r: Vec<Span> = Vec::new();
    let ghost given = s@;
    r.push(Span { text: s, look });
    assert(line_view(r@) =~= one(given, look));
    r
}

fn push_line(lines: &mut Vec<Vec<Span>>, line: Vec<Span>)
    ensures
        lines_view(final(lines)@) == lines_view(old(lines)@).push(line_view(line@)),
{
    let ghost before = lines@;
    lines.push(line);
    assert(lines_view(lines@) =~= lines_view(before).push(line_view(line@)));
}

fn push_span(line: &mut Vec<Span>, s: Span)
    ensures
        line_view(final(line)@) == line_view(old(line)@).push(s@),
{
    let ghost before = line@;
    line.push(s);
    assert(line_view(line@) =~= line_view(before).push(s@));
}

fn two(a: &str, b: &str) -> (r: String)
    ensures
        r@ == a@ + b@,
{
    let mut r = a.to_owned();
    r.append(b);
    r
}

/// A character on the screen.
#[derive(Clone, Copy, Debug, PartialEq, Eq, Structural)]
pub struct Cell {
    pub c: char,
    pub look: Look,
}

/// The columns that a character takes, where it is no control character.
pub uninterp spec fn char_width_of(c: char) -> Option<usize>;

/// `UnicodeWidthChar::width`. The columns depend on the character alone.
#[verifier::external_body]
fn char_width(c: char) -> (r: Option<usize>)
    ensures
        r == char_width_of(c),
{
    unicode_width::UnicodeWidthChar::width(c)
}

/// The columns that a character takes.
pub open spec fn columns(c: char) -> usize {
    match char_width_of(c) {
        Some(n) => n,
        None => 0,
    }
}

fn columns_of(c: char) -> (r: usize)
    ensures
        r == columns(c),
{
    match char_width(c) {
        Some(n) => n,
        None => 0,
    }
}

/// A control character.
pub open spec fn is_control(c: char) -> bool {
    c as u32 <= 0x1f || 0x7f <= c as u32 <= 0x9f
}

/// A character with its look.
pub open spec fn cell(c: char, look: Look) -> Cell {
    Cell { c, look }
}

/// The characters of a text.
pub open spec fn styled(s: Seq<char>, look: Look) -> Seq<Cell> {
    Seq::new(s.len(), |i: int| cell(s[i], look))
}

/// The characters of a line.
pub open spec fn cells_of(line: Seq<SpanView>) -> Seq<Cell>
    decreases line.len(),
{
    if line.len() == 0 {
        Seq::empty()
    } else {
        cells_of(line.drop_last()) + styled(line.last().text, line.last().look)
    }
}

/// Rows that are full, the row that is being filled, and the columns that it takes.
pub struct Rows {
    pub full: Seq<Seq<Cell>>,
    pub row: Seq<Cell>,
    pub used: int,
}

/// The rows after one more character: a line feed ends the row, a control character is left
/// out, and a character that does not fit begins the next row.
pub open spec fn after_cell(r: Rows, cell: Cell, width: int) -> Rows {
    let w = columns(cell.c) as int;
    if cell.c == '\n' {
        Rows { full: r.full.push(r.row), row: Seq::empty(), used: 0 }
    } else if is_control(cell.c) {
        r
    } else if r.used > 0 && r.used + w > width {
        Rows { full: r.full.push(r.row), row: seq![cell], used: w }
    } else {
        Rows { full: r.full, row: r.row.push(cell), used: r.used + w }
    }
}

/// The rows of characters.
pub open spec fn rows_of(cells: Seq<Cell>, width: int) -> Rows
    decreases cells.len(),
{
    if cells.len() == 0 {
        Rows { full: Seq::empty(), row: Seq::empty(), used: 0 }
    } else {
        after_cell(rows_of(cells.drop_last(), width), cells.last(), width)
    }
}

/// The rows of a line.
pub open spec fn wrapped_line(cells: Seq<Cell>, width: int) -> Seq<Seq<Cell>> {
    let r = rows_of(cells, width);
    r.full.push(r.row)
}

/// The rows of lines, one line after the other.
pub open spec fn wrapped(lines: Seq<Seq<SpanView>>, width: int) -> Seq<Seq<Cell>>
    decreases lines.len(),
{
    if lines.len() == 0 {
        Seq::empty()
    } else {
        wrapped(lines.drop_last(), width) + wrapped_line(cells_of(lines.last()), width)
    }
}

/// What rows say.
pub open spec fn rows_view(v: Seq<Vec<Cell>>) -> Seq<Seq<Cell>> {
    Seq::new(v.len(), |i: int| v[i]@)
}

/// The width that rows are made for.
pub open spec fn row_width(width: u16) -> int {
    if width == 0 {
        1
    } else {
        width as int
    }
}

fn push_row(rows: &mut Vec<Vec<Cell>>, row: Vec<Cell>)
    ensures
        rows_view(final(rows)@) == rows_view(old(rows)@).push(row@),
{
    let ghost before = rows@;
    rows.push(row);
    assert(rows_view(rows@) =~= rows_view(before).push(row@));
}

fn line_cells(line: &Vec<Span>) -> (r: Vec<Cell>)
    ensures
        r@ == cells_of(line_view(line@)),
{
    let ghost all = line_view(line@);
    let mut out: Vec<Cell> = Vec::new();
    let mut i: usize = 0;
    assert(all.take(0) =~= Seq::<SpanView>::empty());
    while i < line.len()
        invariant
            i <= line@.len(),
            all == line_view(line@),
            out@ == cells_of(all.take(i as int)),
        decreases line@.len() - i,
    {
        proof {
            assert(all.take(i + 1).drop_last() =~= all.take(i as int));
            assert(all.take(i + 1).last() == line@[i as int]@);
        }
        let chars = text::chars_of(line[i].text.as_str());
        let look = line[i].look;
        let ghost head = out@;
        let mut k: usize = 0;
        assert(out@ =~= head + styled(chars@.take(0), look));
        while k < chars.len()
            invariant
                k <= chars@.len(),
                out@ == head + styled(chars@.take(k as int), look),
            decreases chars@.len() - k,
        {
            out.push(Cell { c: chars[k], look });
            assert(styled(chars@.take(k + 1), look) =~= styled(chars@.take(k as int), look).push(
                cell(chars@[k as int], look),
            ));
            k = k + 1;
            assert(out@ =~= head + styled(chars@.take(k as int), look));
        }
        assert(chars@.take(k as int) =~= chars@);
        i = i + 1;
    }
    assert(all.take(i as int) =~= all);
    out
}

fn wrap_into(output: &mut Vec<Vec<Cell>>, line: &Vec<Span>, width: usize)
    requires
        0 < width <= 65535,
    ensures
        rows_view(final(output)@) == rows_view(old(output)@) + wrapped_line(
            cells_of(line_view(line@)),
            width as int,
        ),
{
    let cells = line_cells(line);
    let ghost head = rows_view(output@);
    let mut row: Vec<Cell> = Vec::new();
    let mut used: usize = 0;
    let mut i: usize = 0;
    assert(cells@.take(0) =~= Seq::<Cell>::empty());
    assert(head + rows_of(cells@.take(0), width as int).full =~= head);
    while i < cells.len()
        invariant
            i <= cells@.len(),
            0 < width <= 65535,
            ({
                let r = rows_of(cells@.take(i as int), width as int);
                rows_view(output@) == head + r.full && row@ == r.row && used == r.used
            }),
        decreases cells@.len() - i,
    {
        let ghost r = rows_of(cells@.take(i as int), width as int);
        proof {
            assert(cells@.take(i + 1).drop_last() =~= cells@.take(i as int));
            assert(cells@.take(i + 1).last() == cells@[i as int]);
        }
        let cell = cells[i];
        let c = cell.c;
        let code = c as u32;
        if c == '\n' {
            push_row(output, row);
            row = Vec::new();
            used = 0;
            assert(rows_view(output@) =~= head + r.full.push(r.row));
        } else if code <= 0x1f || (0x7f <= code && code <= 0x9f) {
        } else {
            let w: usize = columns_of(c);
            if used > 0 && (used > width || w > width - used) {
                push_row(output, row);
                row = Vec::new();
                used = 0;
                assert(rows_view(output@) =~= head + r.full.push(r.row));
                row.push(cell);
                used = w;
                assert(row@ =~= seq![cell]);
            } else {
                row.push(cell);
                used = used + w;
            }
        }
        i = i + 1;
    }
    assert(cells@.take(i as int) =~= cells@);
    let ghost r = rows_of(cells@, width as int);
    push_row(output, row);
    assert(rows_view(output@) =~= head + r.full.push(r.row));
}

/// Wraps lines to rows of the given width.
pub fn wrap_lines(lines: &Vec<Vec<Span>>, width: u16) -> (r: Vec<Vec<Cell>>)
    ensures
        rows_view(r@) == wrapped(lines_view(lines@), row_width(width)),
{
    let width: usize = if width == 0 {
        1
    } else {
        width as usize
    };
    let ghost all = lines_view(lines@);
    let mut output: Vec<Vec<Cell>> = Vec::new();
    let mut i: usize = 0;
    assert(all.take(0) =~= Seq::<Seq<SpanView>>::empty());
    assert(rows_view(output@) =~= Seq::<Seq<Cell>>::empty());
    while i < lines.len()
        invariant
            i <= lines@.len(),
            0 < width <= 65535,
            all == lines_view(lines@),
            rows_view(output@) == wrapped(all.take(i as int), width as int),
        decreases lines@.len() - i,
    {
        proof {
            assert(all.take(i + 1).drop_last() =~= all.take(i as int));
            assert(all.take(i + 1).last() == line_view(lines@[i as int]@));
        }
        wrap_into(&mut output, &lines[i], width);
        i = i + 1;
    }
    assert(all.take(i as int) =~= all);
    output
}

/// The columns that a row takes.
pub open spec fn row_columns(row: Seq<Cell>) -> int
    decreases row.len(),
{
    if row.len() == 0 {
        0
    } else {
        row_columns(row.drop_last()) + columns(row.last().c)
    }
}

proof fn lemma_rows_fit(cells: Seq<Cell>, width: int)
    requires
        0 < width,
        forall|i: int| 0 <= i < cells.len() ==> columns((#[trigger] cells[i]).c) <= width,
    ensures
        ({
            let r = rows_of(cells, width);
            &&& forall|i: int|
                0 <= i < r.full.len() ==> row_columns(#[trigger] r.full[i]) <= width
            &&& row_columns(r.row) == r.used
            &&& r.used <= width
        }),
    decreases cells.len(),
{
    if cells.len() > 0 {
        let front = cells.drop_last();
        assert forall|i: int| 0 <= i < front.len() implies columns((#[trigger] front[i]).c)
            <= width by {
            assert(front[i] == cells[i]);
        }
        lemma_rows_fit(front, width);
        let before = rows_of(front, width);
        let cell = cells.last();
        assert(cells[cells.len() - 1] == cell);
        let r = rows_of(cells, width);
        assert(seq![cell].drop_last() =~= Seq::<Cell>::empty());
        assert(row_columns(Seq::<Cell>::empty()) == 0);
        assert(row_columns(seq![cell]) == columns(cell.c));
        assert(before.row.push(cell).drop_last() =~= before.row);
        assert forall|i: int| 0 <= i < r.full.len() implies row_columns(#[trigger] r.full[i])
            <= width by {
            if i < before.full.len() {
                assert(r.full[i] == before.full[i]);
            } else {
                assert(r.full[i] == before.row);
            }
        }
    }
}

/// No row is wider than the width, where no character alone is.
pub proof fn law_rows_fit(cells: Seq<Cell>, width: int, i: int)
    requires
        0 < width,
        forall|k: int| 0 <= k < cells.len() ==> columns((#[trigger] cells[k]).c) <= width,
        0 <= i < wrapped_line(cells, width).len(),
    ensures
        row_columns(wrapped_line(cells, width)[i]) <= width,
{
    lemma_rows_fit(cells, width);
    let r = rows_of(cells, width);
    if i < r.full.len() {
        assert(wrapped_line(cells, width)[i] == r.full[i]);
    } else {
        assert(wrapped_line(cells, width)[i] == r.row);
    }
}

/// The characters that are shown: all but control characters.
pub open spec fn shown_cells(cells: Seq<Cell>) -> Seq<Cell>
    decreases cells.len(),
{
    if cells.len() == 0 {
        Seq::empty()
    } else if is_control(cells.last().c) {
        shown_cells(cells.drop_last())
    } else {
        shown_cells(cells.drop_last()).push(cells.last())
    }
}

/// Rows put together.
pub open spec fn together(rows: Seq<Seq<Cell>>) -> Seq<Cell>
    decreases rows.len(),
{
    if rows.len() == 0 {
        Seq::empty()
    } else {
        together(rows.drop_last()) + rows.last()
    }
}

proof fn lemma_together_push(rows: Seq<Seq<Cell>>, row: Seq<Cell>)
    ensures
        together(rows.push(row)) == together(rows) + row,
{
    assert(rows.push(row).drop_last() =~= rows);
}

/// Wrapping loses no character that is shown, and changes neither their order nor their look.
pub proof fn law_wrapping_loses_nothing(cells: Seq<Cell>, width: int)
    ensures
        together(wrapped_line(cells, width)) == shown_cells(cells),
    decreases cells.len(),
{
    let r = rows_of(cells, width);
    lemma_together_push(r.full, r.row);
    if cells.len() == 0 {
        assert(together(wrapped_line(cells, width)) =~= shown_cells(cells));
    } else {
        let before = rows_of(cells.drop_last(), width);
        law_wrapping_loses_nothing(cells.drop_last(), width);
        lemma_together_push(before.full, before.row);
        let cell = cells.last();
        if cell.c == '\n' {
            assert(together(r.full) + r.row =~= together(before.full) + before.row);
        } else if !is_control(cell.c) {
            if before.used > 0 && before.used + columns(cell.c) > width {
                assert(together(r.full) + r.row =~= shown_cells(cells));
            } else {
                assert(together(r.full) + r.row =~= shown_cells(cells));
            }
        }
    }
}

/// How many characters from `n` on fit in the columns that are left.
pub open spec fn fitting(s: Seq<char>, n: int, left: int) -> int
    decreases s.len() - n,
{
    if n < 0 || n >= s.len() || columns(s[n]) > left {
        n
    } else {
        fitting(s, n + 1, left - columns(s[n]))
    }
}

/// A text that is cut to a width, with a mark where something was cut.
pub open spec fn shortened(s: Seq<char>, max: usize) -> Seq<char> {
    if input_editor::width_of(s) <= max {
        s
    } else {
        s.take(
            fitting(
                s,
                0,
                if max == 0 {
                    0
                } else {
                    max - 1
                },
            ),
        ).push('…')
    }
}

/// Cuts a text to a width.
pub fn truncate_text(value: &str, max_width: usize) -> (r: String)
    ensures
        r@ == shortened(value@, max_width),
{
    if input_editor::display_width(value) <= max_width {
        return value.to_owned();
    }
    let limit: usize = max_width.saturating_sub(1);
    let chars = text::chars_of(value);
    let mut left: usize = limit;
    let mut n: usize = 0;
    let mut full = false;
    while n < chars.len() && !full
        invariant
            n <= chars@.len(),
            chars@ == value@,
            if full {
                fitting(value@, 0, limit as int) == n
            } else {
                fitting(value@, 0, limit as int) == fitting(value@, n as int, left as int)
            },
        decreases chars@.len() - n, (if full { 0int } else { 1int }),
    {
        let w: usize = columns_of(chars[n]);
        if w > left {
            full = true;
        } else {
            left = left - w;
            n = n + 1;
        }
    }
    let mut r = text::string_of_range(&chars, 0, n);
    assert(chars@.subrange(0, n as int) =~= value@.take(n as int));
    r.push('…');
    r
}

/// A name that is cut to a width.
pub fn short_id(value: &str, max_width: usize) -> (r: String)
    ensures
        r@ == shortened(value@, max_width),
{
    truncate_text(value, max_width)
}

/// A mark of strong text.
pub open spec fn star_mark() -> Seq<char> {
    seq!['*', '*']
}

/// A mark of code.
pub open spec fn tick_mark() -> Seq<char> {
    seq!['`']
}

/// The first mark at or after `from`, and whether it is one of strong text.
pub open spec fn next_mark(s: Seq<char>, from: int) -> Option<(int, bool)> {
    match (text::first_from(s, star_mark(), from), text::first_from(s, tick_mark(), from)) {
        (Some(a), Some(b)) => if a <= b {
            Some((a, true))
        } else {
            Some((b, false))
        },
        (Some(a), None) => Some((a, true)),
        (None, Some(b)) => Some((b, false)),
        (None, None) => None,
    }
}

/// The mark of a kind.
pub open spec fn mark_of(strong_text: bool) -> Seq<char> {
    if strong_text {
        star_mark()
    } else {
        tick_mark()
    }
}

/// How a marked text is shown.
pub open spec fn marked_look(base: Look, strong_text: bool) -> Look {
    if strong_text {
        Look { bold: true, ..base }
    } else {
        Look { tone: Tone::Info, bold: true, panel: true }
    }
}

/// The pieces of a line from `from` on: what stands between two marks is shown as they say,
/// and a mark that nothing closes is shown as it is.
pub open spec fn inline_from(s: Seq<char>, base: Look, from: int) -> Seq<SpanView>
    decreases s.len() - from,
{
    if from < 0 || from >= s.len() {
        Seq::empty()
    } else {
        match next_mark(s, from) {
            None => one(s.skip(from), base),
            Some((at, strong_text)) => {
                let mark = mark_of(strong_text);
                match text::first_from(s, mark, at + mark.len()) {
                    None => one(s.skip(from), base),
                    Some(end) => {
                        proof {
                            lemma_marks(s, from);
                        }
                        seq![
                            SpanView { text: s.subrange(from, at), look: base },
                            SpanView {
                                text: s.subrange(at + mark.len(), end),
                                look: marked_look(base, strong_text),
                            },
                        ] + inline_from(s, base, end + mark.len())
                    },
                }
            },
        }
    }
}

/// Marks stand in order, each after the other.
pub proof fn lemma_marks(s: Seq<char>, from: int)
    requires
        0 <= from,
    ensures
        next_mark(s, from) matches Some(m) ==> {
            let n = mark_of(m.1).len();
            &&& from <= m.0
            &&& m.0 + n <= s.len()
            &&& text::first_from(s, mark_of(m.1), m.0 + n) matches Some(end) ==> m.0 + n <= end
                && end + n <= s.len()
        },
{
    text::lemma_first_from(s, star_mark(), from);
    text::lemma_first_from(s, tick_mark(), from);
    if let Some(m) = next_mark(s, from) {
        text::lemma_first_from(s, mark_of(m.1), m.0 + mark_of(m.1).len());
    }
}

fn find_mark(v: &Vec<char>, from: usize) -> (r: Option<(usize, bool)>)
    requires
        from <= v@.len(),
    ensures
        match r {
            Some(m) => next_mark(v@, from as int) == Some((m.0 as int, m.1)),
            None => next_mark(v@, from as int) is None,
        },
{
    let stars: Vec<char> = vec!['*', '*'];
    let ticks: Vec<char> = vec!['`'];
    assert(stars@ =~= star_mark());
    assert(ticks@ =~= tick_mark());
    match (
        text::find_chars(v.as_slice(), stars.as_slice(), from),
        text::find_chars(v.as_slice(), ticks.as_slice(), from),
    ) {
        (Some(a), Some(b)) => if a <= b {
            Some((a, true))
        } else {
            Some((b, false))
        },
        (Some(a), None) => Some((a, true)),
        (None, Some(b)) => Some((b, false)),
        (None, None) => None,
    }
}

/// The pieces of a line.
pub fn inline(value: &str, base: Look) -> (r: Vec<Span>)
    ensures
        line_view(r@) == inline_from(value@, base, 0),
{
    let v = text::chars_of(value);
    let stars: Vec<char> = vec!['*', '*'];
    let ticks: Vec<char> = vec!['`'];
    assert(stars@ =~= star_mark());
    assert(ticks@ =~= tick_mark());
    let mut out: Vec<Span> = Vec::new();
    let mut from: usize = 0;
    assert(line_view(out@) =~= Seq::<SpanView>::empty());
    assert(line_view(out@) + inline_from(v@, base, 0) =~= inline_from(v@, base, 0));
    while from < v.len()
        invariant
            from <= v@.len(),
            v@ == value@,
            stars@ == star_mark(),
            ticks@ == tick_mark(),
            inline_from(v@, base, 0) == line_view(out@) + inline_from(v@, base, from as int),
        decreases v@.len() - from,
    {
        let ghost head = line_view(out@);
        proof {
            lemma_marks(v@, from as int);
        }
        let (at, strong_text): (usize, bool) = match find_mark(&v, from) {
            Some(m) => m,
            None => {
                let rest = text::string_of_range(v.as_slice(), from, v.len());
                assert(rest@ =~= v@.skip(from as int));
                push_span(&mut out, Span { text: rest, look: base });
                assert(line_view(out@) =~= head + one(v@.skip(from as int), base));
                return out;
            },
        };
        let mark = if strong_text {
            &stars
        } else {
            &ticks
        };
        let n: usize = mark.len();
        let end: usize = match text::find_chars(v.as_slice(), mark.as_slice(), at + n) {
            Some(end) => end,
            None => {
                let rest = text::string_of_range(v.as_slice(), from, v.len());
                assert(rest@ =~= v@.skip(from as int));
                push_span(&mut out, Span { text: rest, look: base });
                assert(line_view(out@) =~= head + one(v@.skip(from as int), base));
                return out;
            },
        };
        let look = if strong_text {
            Look { tone: base.tone, bold: true, panel: base.panel }
        } else {
            Look { tone: Tone::Info, bold: true, panel: true }
        };
        let before = text::string_of_range(v.as_slice(), from, at);
        let within = text::string_of_range(v.as_slice(), at + n, end);
        push_span(&mut out, Span { text: before, look: base });
        push_span(&mut out, Span { text: within, look });
        proof {
            let two_ = seq![
                SpanView { text: v@.subrange(from as int, at as int), look: base },
                SpanView { text: v@.subrange(at + n, end as int), look },
            ];
            assert(line_view(out@) =~= head + two_);
            assert(look == marked_look(base, strong_text));
            assert(inline_from(v@, base, from as int) == two_ + inline_from(v@, base, end + n));
            assert(head + (two_ + inline_from(v@, base, end + n)) =~= (head + two_) + inline_from(
                v@,
                base,
                end + n,
            ));
        }
        from = end + n;
    }
    assert(inline_from(v@, base, from as int) =~= Seq::<SpanView>::empty());
    assert(line_view(out@) + inline_from(v@, base, from as int) =~= line_view(out@));
    out
}

/// A text without its marks: what the pieces of a line say.
pub open spec fn spoken(line: Seq<SpanView>) -> Seq<char>
    decreases line.len(),
{
    if line.len() == 0 {
        Seq::empty()
    } else {
        spoken(line.drop_last()) + line.last().text
    }
}

/// A text that holds no mark is shown as it is.
pub proof fn law_plain_text_stays(s: Seq<char>, base: Look)
    requires
        forall|k: int| 0 <= k < s.len() ==> #[trigger] s[k] != '*' && s[k] != '`',
    ensures
        spoken(inline_from(s, base, 0)) == s,
{
    text::lemma_first_from(s, star_mark(), 0);
    text::lemma_first_from(s, tick_mark(), 0);
    if let Some(at) = text::first_from(s, star_mark(), 0) {
        assert(s.subrange(at, at + 2)[0] == '*');
        assert(s[at] == '*');
    }
    if let Some(at) = text::first_from(s, tick_mark(), 0) {
        assert(s.subrange(at, at + 1)[0] == '`');
        assert(s[at] == '`');
    }
    if s.len() > 0 {
        let line = one(s.skip(0), base);
        assert(s.skip(0) =~= s);
        assert(line.drop_last() =~= Seq::<SpanView>::empty());
        assert(spoken(Seq::<SpanView>::empty()) =~= Seq::<char>::empty());
        assert(spoken(line) =~= s);
    } else {
        assert(spoken(inline_from(s, base, 0)) =~= s);
    }
}

/// The lines of a text so far, and whether the next one stands within code.
pub struct Body {
    pub code: bool,
    pub lines: Seq<Seq<SpanView>>,
}

/// How a line of code is shown.
pub open spec fn code_tone(trimmed: Seq<char>) -> Tone {
    if trimmed.len() > 0 && trimmed[0] == '+' {
        Tone::DiffAdd
    } else if trimmed.len() > 0 && trimmed[0] == '-' {
        Tone::DiffRemove
    } else {
        Tone::Code
    }
}

/// A line is a heading.
pub open spec fn is_heading(trimmed: Seq<char>) -> bool {
    let rest = text::trim_char_start(trimmed, '#');
    trimmed.len() > 0 && trimmed[0] == '#' && rest.len() > 0 && rest[0] == ' '
}

/// What a line says, with a dot in place of the mark of a list.
pub open spec fn dotted(body: Seq<char>) -> Seq<char> {
    if text::has_prefix(body, "- "@) {
        "• "@ + body.skip("- "@.len() as int)
    } else {
        body
    }
}

/// A line of an answer.
pub open spec fn answer_line(role: Role, source: Seq<char>) -> Seq<SpanView> {
    let trimmed = text::trim_start(source);
    let heading = is_heading(trimmed);
    let body = dotted(
        if heading {
            text::trim_start(text::trim_char_start(trimmed, '#'))
        } else {
            source
        },
    );
    let prefix = if role == Role::Assistant {
        "  │ "@
    } else {
        "  "@
    };
    one(prefix, plain(Tone::Foreground)) + inline_from(
        body,
        Look { tone: Tone::Foreground, bold: heading, panel: false },
        0,
    )
}

/// The lines of a text after one more.
pub open spec fn after_line(b: Body, role: Role, source: Seq<char>) -> Body {
    let trimmed = text::trim_start(source);
    if text::has_prefix(trimmed, "```"@) {
        Body {
            code: !b.code,
            lines: b.lines.push(
                one(
                    if b.code {
                        "  └─"@
                    } else {
                        "  ┌─ "@ + text::trim_char_start(trimmed, '`')
                    },
                    plain(Tone::Muted),
                ),
            ),
        }
    } else if b.code {
        Body {
            lines: b.lines.push(
                seq![
                    SpanView { text: "  │ "@, look: plain(Tone::Muted) },
                    SpanView { text: source, look: plain(code_tone(trimmed)) },
                ],
            ),
            ..b
        }
    } else if role == Role::User {
        Body { lines: b.lines.push(one("  "@ + source, plain(Tone::Foreground))), ..b }
    } else {
        Body { lines: b.lines.push(answer_line(role, source)), ..b }
    }
}

/// The lines of a text.
pub open spec fn body_of(
    head: Seq<Seq<SpanView>>,
    role: Role,
    sources: Seq<Seq<char>>,
) -> Body
    decreases sources.len(),
{
    if sources.len() == 0 {
        Body { code: false, lines: head }
    } else {
        after_line(body_of(head, role, sources.drop_last()), role, sources.last())
    }
}

/// How a role is called, and in which colour.
pub open spec fn role_label(role: Role) -> (Seq<char>, Tone) {
    match role {
        Role::User => ("›  你"@, Tone::Warm),
        Role::Assistant => ("✦  Agent"@, Tone::Info),
        _ => ("·  提示"@, Tone::Muted),
    }
}

/// The whole seconds since a message came.
pub open spec fn age_of(m: UiMessageView, now: u64) -> nat {
    if now < m.created_at {
        0
    } else {
        ((now - m.created_at) / 1000) as nat
    }
}

/// The line above a text.
pub open spec fn label_of(m: UiMessageView, now: u64) -> Seq<char> {
    role_label(m.role).0 + " · #"@ + text::decimal(m.id as nat) + " · "@ + text::decimal(
        age_of(m, now),
    ) + "s"@ + (match m.token_usage {
        Some(u) => " · "@ + text::decimal(u.input as nat) + "↑/"@ + text::decimal(
            u.output as nat,
        ) + "↓"@,
        None => Seq::empty(),
    })
}

/// The sign of a tool call, and its colour.
pub open spec fn tool_sign(status: ToolStatus) -> (Seq<char>, Tone) {
    match status {
        ToolStatus::Running => ("○"@, Tone::Info),
        ToolStatus::Done => ("●"@, Tone::Success),
        ToolStatus::Failed => ("✗"@, Tone::Error),
    }
}

/// The line of a tool call.
pub open spec fn tool_head(tool: ToolView, elapsed: Seq<char>) -> Seq<char> {
    "  "@ + tool_sign(tool.status).0 + " 工具  第 "@ + text::decimal(tool.round as nat)
        + " 轮 · "@ + tool.heading + elapsed
}

/// The lines of a tool call.
pub open spec fn tool_lines(
    tool: ToolView,
    show_tools: bool,
    elapsed: Seq<char>,
) -> Seq<Seq<SpanView>> {
    let expanded = match tool.expanded {
        Some(e) => e,
        None => show_tools,
    };
    let head = one(tool_head(tool, elapsed), plain(tool_sign(tool.status).1));
    seq![head] + if expanded {
        Seq::new(
            tool.output.len(),
            |i: int| one("    │ "@ + tool.output[i], plain(Tone::Muted)),
        )
    } else {
        Seq::empty()
    }
}

/// The lines of a message. What a tool call took is said by `elapsed`.
pub open spec fn lines_of(
    m: UiMessageView,
    show_tools: bool,
    elapsed: Seq<char>,
    now: u64,
) -> Seq<Seq<SpanView>> {
    match m.kind {
        KindView::Tool(tool) => tool_lines(tool, show_tools, elapsed),
        KindView::Text(content) => body_of(
            seq![one(label_of(m, now), strong(role_label(m.role).1))],
            m.role,
            text::lines(content),
        ).lines.push(one("  ·"@, plain(Tone::Muted))),
    }
}

fn body_line(source: &str, role: Role, code: bool) -> (r: (bool, Vec<Span>))
    ensures
        forall|lines: Seq<Seq<SpanView>>|
            (#[trigger] after_line(Body { code, lines }, role, source@)) == (Body {
                code: r.0,
                lines: lines.push(line_view(r.1@)),
            }),
{
    let trimmed = text::trim_start_text(source);
    if text::starts_with(trimmed.as_str(), "```") {
        if code {
            (false, one_line("  └─".to_owned(), plain_look(Tone::Muted)))
        } else {
            let name = text::trim_char_start_text(trimmed.as_str(), '`');
            (true, one_line(two("  ┌─ ", name.as_str()), plain_look(Tone::Muted)))
        }
    } else if code {
        let chars = text::chars_of(trimmed.as_str());
        let tone = if chars.len() > 0 && chars[0] == '+' {
            Tone::DiffAdd
        } else if chars.len() > 0 && chars[0] == '-' {
            Tone::DiffRemove
        } else {
            Tone::Code
        };
        let mut line: Vec<Span> = Vec::new();
        line.push(span("  │ ", plain_look(Tone::Muted)));
        line.push(span(source, plain_look(tone)));
        assert(line_view(line@) =~= seq![
            SpanView { text: "  │ "@, look: plain(Tone::Muted) },
            SpanView { text: source@, look: plain(code_tone(trimmed@)) },
        ]);
        (true, line)
    } else if role == Role::User {
        (false, one_line(two("  ", source), plain_look(Tone::Foreground)))
    } else {
        (false, make_answer_line(role, source, trimmed.as_str()))
    }
}

fn make_answer_line(role: Role, source: &str, trimmed: &str) -> (r: Vec<Span>)
    requires
        trimmed@ == text::trim_start(source@),
    ensures
        line_view(r@) == answer_line(role, source@),
{
    let chars = text::chars_of(trimmed);
    let rest = text::trim_char_start_text(trimmed, '#');
    let rest_chars = text::chars_of(rest.as_str());
    let heading = chars.len() > 0 && chars[0] == '#' && rest_chars.len() > 0 && rest_chars[0]
        == ' ';
    let body = if heading {
        text::trim_start_text(rest.as_str())
    } else {
        source.to_owned()
    };
    let body = match text::strip_prefix(body.as_str(), "- ") {
        Some(rest) => two("• ", rest.as_str()),
        None => body,
    };
    let prefix = if role == Role::Assistant {
        "  │ "
    } else {
        "  "
    };
    let base = Look { tone: Tone::Foreground, bold: heading, panel: false };
    let mut line = one_line(prefix.to_owned(), plain_look(Tone::Foreground));
    let ghost head = line_view(line@);
    let mut tail = inline(body.as_str(), base);
    let ghost rest_ = line_view(tail@);
    line.append(&mut tail);
    assert(line_view(line@) =~= head + rest_);
    line
}

/// The lines of a message.
pub fn message_lines(message: &UiMessage, show_tools: bool, elapsed: &str, now: u64) -> (r: Vec<
    Vec<Span>,
>)
    ensures
        lines_view(r@) == lines_of(message@, show_tools, elapsed@, now),
{
    match &message.kind {
        UiMessageKind::Tool(tool) => make_tool_lines(tool, show_tools, elapsed),
        UiMessageKind::Text(content) => {
            let mut lines: Vec<Vec<Span>> = Vec::new();
            let (label, tone) = make_label(message, now);
            assert(lines_view(lines@) =~= Seq::<Seq<SpanView>>::empty());
            push_line(&mut lines, one_line(label, strong_look(tone)));
            let ghost head = seq![one(label_of(message@, now), strong(role_label(message.role).1))];
            assert(lines_view(lines@) =~= head);
            let sources = text::split_lines(content.as_str());
            let ghost all = text::views(sources@);
            let mut code = false;
            let mut i: usize = 0;
            assert(all.take(0) =~= Seq::<Seq<char>>::empty());
            while i < sources.len()
                invariant
                    i <= sources@.len(),
                    all == text::views(sources@),
                    body_of(head, message.role, all.take(i as int)) == (Body {
                        code,
                        lines: lines_view(lines@),
                    }),
                decreases sources@.len() - i,
            {
                proof {
                    assert(all.take(i + 1).drop_last() =~= all.take(i as int));
                    assert(all.take(i + 1).last() == sources@[i as int]@);
                }
                let ghost before = lines_view(lines@);
                let (next, line) = body_line(sources[i].as_str(), message.role, code);
                assert(after_line(Body { code, lines: before }, message.role, sources@[i as int]@)
                    == (Body { code: next, lines: before.push(line_view(line@)) }));
                push_line(&mut lines, line);
                code = next;
                i = i + 1;
            }
            assert(all.take(i as int) =~= all);
            push_line(&mut lines, one_line("  ·".to_owned(), plain_look(Tone::Muted)));
            lines
        },
    }
}

fn make_label(message: &UiMessage, now: u64) -> (r: (String, Tone))
    ensures
        r.0@ == label_of(message@, now),
        r.1 == role_label(message.role).1,
{
    let (name, tone) = match message.role {
        Role::User => ("›  你", Tone::Warm),
        Role::Assistant => ("✦  Agent", Tone::Info),
        _ => ("·  提示", Tone::Muted),
    };
    let age: u64 = now.saturating_sub(message.created_at) / 1000;
    let mut label = two(name, " · #");
    label.append(text::decimal_text(message.id).as_str());
    label.append(" · ");
    label.append(text::decimal_text(age).as_str());
    label.append("s");
    match message.token_usage {
        Some(usage) => {
            let ghost head = label@;
            label.append(" · ");
            label.append(text::decimal_text(usage.input as u64).as_str());
            label.append("↑/");
            label.append(text::decimal_text(usage.output as u64).as_str());
            label.append("↓");
            assert(label@ =~= label_of(message@, now));
        },
        None => {
            assert(label@ =~= label_of(message@, now));
        },
    }
    (label, tone)
}

fn make_tool_lines(tool: &UiToolCall, show_tools: bool, elapsed: &str) -> (r: Vec<Vec<Span>>)
    ensures
        lines_view(r@) == tool_lines(tool@, show_tools, elapsed@),
{
    let (icon, tone) = match tool.status {
        ToolStatus::Running => ("○", Tone::Info),
        ToolStatus::Done => ("●", Tone::Success),
        ToolStatus::Failed => ("✗", Tone::Error),
    };
    let mut head = two("  ", icon);
    head.append(" 工具  第 ");
    head.append(text::decimal_text(tool.round as u64).as_str());
    head.append(" 轮 · ");
    head.append(tool.heading.as_str());
    head.append(elapsed);
    let ghost said = head@;
    assert(said =~= tool_head(tool@, elapsed@));
    let mut lines: Vec<Vec<Span>> = Vec::new();
    assert(lines_view(lines@) =~= Seq::<Seq<SpanView>>::empty());
    push_line(&mut lines, one_line(head, plain_look(tone)));
    let ghost first = seq![one(said, plain(tone))];
    assert(lines_view(lines@) =~= first);
    let expanded = match tool.expanded {
        Some(e) => e,
        None => show_tools,
    };
    if expanded {
        let ghost output = tool@.output;
        let ghost rest = Seq::new(
            output.len(),
            |i: int| one("    │ "@ + output[i], plain(Tone::Muted)),
        );
        let mut i: usize = 0;
        assert(lines_view(lines@) =~= first + rest.take(0));
        while i < tool.output.len()
            invariant
                i <= tool.output@.len(),
                output == text::views(tool.output@),
                rest == Seq::new(
                    output.len(),
                    |i: int| one("    │ "@ + output[i], plain(Tone::Muted)),
                ),
                lines_view(lines@) == first + rest.take(i as int),
            decreases tool.output@.len() - i,
        {
            push_line(
                &mut lines,
                one_line(two("    │ ", tool.output[i].as_str()), plain_look(Tone::Muted)),
            );
            assert(lines_view(lines@) =~= first + rest.take(i + 1));
            i = i + 1;
        }
        assert(rest.take(i as int) =~= rest);
        assert(lines_view(lines@) =~= tool_lines(tool@, show_tools, elapsed@));
    } else {
        assert(lines_view(lines@) =~= tool_lines(tool@, show_tools, elapsed@));
    }
    lines
}

/// What a tool call took, in milliseconds, where that is known.
pub fn tool_elapsed_ms(tool: &UiToolCall) -> (r: Option<u64>)
    ensures
        r == (match (tool@.duration_ms, tool@.finished_at) {
            (Some(ms), _) => Some(ms),
            (None, Some(end)) => Some(
                if end < tool@.started_at {
                    0
                } else {
                    (end - tool@.started_at) as u64
                },
            ),
            (None, None) => None,
        }),
{
    match (tool.duration_ms, tool.finished_at) {
        (Some(ms), _) => Some(ms),
        (None, Some(end)) => Some(end.saturating_sub(tool.started_at)),
        (None, None) => None,
    }
}

/// Where the tool calls that begin at `i` end.
pub open spec fn tools_end(v: Seq<UiMessageView>, i: int) -> int
    decreases v.len() - i,
{
    if 0 <= i < v.len() && v[i].kind is Tool {
        tools_end(v, i + 1)
    } else {
        i
    }
}

/// The tool calls from `from` to `to`.
pub open spec fn tools_in(v: Seq<UiMessageView>, from: int, to: int) -> Seq<ToolView> {
    Seq::new((to - from) as nat, |k: int| v[from + k].kind->Tool_0)
}

/// Some tool call stands so.
pub open spec fn some_status(tools: Seq<ToolView>, status: ToolStatus) -> bool {
    exists|k: int| 0 <= k < tools.len() && (#[trigger] tools[k]).status == status
}

/// The milliseconds of tool calls whose time is known.
pub open spec fn total_ms(tools: Seq<ToolView>) -> int
    decreases tools.len(),
{
    if tools.len() == 0 {
        0
    } else {
        total_ms(tools.drop_last()) + (match tools.last().duration_ms {
            Some(ms) => ms as int,
            None => 0,
        })
    }
}

/// The least round of tool calls.
pub open spec fn first_round(tools: Seq<ToolView>) -> usize
    decreases tools.len(),
{
    if tools.len() <= 1 {
        tools[0].round
    } else {
        let n = first_round(tools.drop_last());
        if tools.last().round < n {
            tools.last().round
        } else {
            n
        }
    }
}

/// The greatest round of tool calls.
pub open spec fn last_round(tools: Seq<ToolView>) -> usize
    decreases tools.len(),
{
    if tools.len() <= 1 {
        tools[0].round
    } else {
        let n = last_round(tools.drop_last());
        if tools.last().round > n {
            tools.last().round
        } else {
            n
        }
    }
}

/// The names of tool calls.
pub open spec fn tool_names(tools: Seq<ToolView>) -> Seq<Seq<char>> {
    Seq::new(tools.len(), |k: int| tools[k].name)
}

/// The sign, the word and the colour of several tool calls.
pub open spec fn group_sign(tools: Seq<ToolView>) -> (Seq<char>, Seq<char>, Tone) {
    if some_status(tools, ToolStatus::Running) {
        ("○"@, "执行中"@, Tone::Info)
    } else if some_status(tools, ToolStatus::Failed) {
        ("✗"@, "有失败"@, Tone::Error)
    } else {
        ("●"@, "已完成"@, Tone::Success)
    }
}

/// The rounds of several tool calls.
pub open spec fn rounds_label(tools: Seq<ToolView>) -> Seq<char> {
    let first = first_round(tools);
    let last = last_round(tools);
    if first == last {
        " · 第 "@ + text::decimal(first as nat) + " 轮"@
    } else {
        " · 第 "@ + text::decimal(first as nat) + "-"@ + text::decimal(last as nat) + " 轮"@
    }
}

/// The names of the first four tool calls, with a mark where there are more.
pub open spec fn names_label(tools: Seq<ToolView>) -> Seq<char> {
    if tools.len() > 4 {
        text::join(tool_names(tools).take(4), "、"@) + "…"@
    } else {
        text::join(tool_names(tools), "、"@)
    }
}

/// The line that stands for several tool calls. What they took is said by `duration`.
pub open spec fn group_text(tools: Seq<ToolView>, duration: Seq<char>) -> Seq<char> {
    "  "@ + group_sign(tools).0 + " 工具调用已折叠 · "@ + text::decimal(tools.len()) + " 次 · "@
        + group_sign(tools).1 + rounds_label(tools) + duration + " · "@ + names_label(tools)
        + " · Ctrl+T 展开详情"@
}

/// The tool calls from `from` to `to` are tool calls.
pub open spec fn all_tools(v: Seq<UiMessageView>, from: int, to: int) -> bool {
    forall|k: int| from <= k < to ==> (#[trigger] v[k]).kind is Tool
}

fn find_tools_end(messages: &Vec<UiMessage>, from: usize) -> (r: usize)
    requires
        from <= messages@.len(),
    ensures
        from <= r <= messages@.len(),
        r == tools_end(tui::ui_views(messages@), from as int),
        all_tools(tui::ui_views(messages@), from as int, r as int),
{
    let ghost all = tui::ui_views(messages@);
    let mut i: usize = from;
    while i < messages.len() && matches!(messages[i].kind, UiMessageKind::Tool(_))
        invariant
            from <= i <= messages@.len(),
            all == tui::ui_views(messages@),
            tools_end(all, from as int) == tools_end(all, i as int),
            all_tools(all, from as int, i as int),
        decreases messages@.len() - i,
    {
        assert(all[i as int] == messages@[i as int]@);
        i = i + 1;
    }
    proof {
        if i < messages@.len() {
            assert(all[i as int] == messages@[i as int]@);
        }
    }
    i
}

/// The milliseconds of the tool calls that begin at `from`, as far as numbers go.
pub fn group_ms(messages: &Vec<UiMessage>, from: usize) -> (r: u64)
    requires
        from <= messages@.len(),
    ensures
        ({
            let all = tui::ui_views(messages@);
            let total = total_ms(tools_in(all, from as int, tools_end(all, from as int)));
            r == if total > u64::MAX {
                u64::MAX as int
            } else {
                total
            }
        }),
{
    let ghost all = tui::ui_views(messages@);
    let end: usize = find_tools_end(messages, from);
    let ghost tools = tools_in(all, from as int, end as int);
    let mut r: u64 = 0;
    let mut i: usize = from;
    assert(tools.take(0) =~= Seq::<ToolView>::empty());
    while i < end
        invariant
            from <= i <= end <= messages@.len(),
            all == tui::ui_views(messages@),
            all_tools(all, from as int, end as int),
            tools == tools_in(all, from as int, end as int),
            ({
                let total = total_ms(tools.take(i - from));
                total >= 0 && r == if total > u64::MAX {
                    u64::MAX as int
                } else {
                    total
                }
            }),
        decreases end - i,
    {
        proof {
            let k = i - from;
            assert(tools.take(k + 1).drop_last() =~= tools.take(k));
            assert(tools.take(k + 1).last() == tools[k]);
            assert(all[i as int] == messages@[i as int]@);
            assert(tools[k] == all[i as int].kind->Tool_0);
        }
        if let UiMessageKind::Tool(tool) = &messages[i].kind {
            if let Some(ms) = tool.duration_ms {
                r = r.saturating_add(ms);
            }
        }
        i = i + 1;
    }
    assert(tools.take(end - from) =~= tools);
    r
}

fn has_status(messages: &Vec<UiMessage>, from: usize, to: usize, status: ToolStatus) -> (r: bool)
    requires
        from <= to <= messages@.len(),
        all_tools(tui::ui_views(messages@), from as int, to as int),
    ensures
        r == some_status(
            tools_in(tui::ui_views(messages@), from as int, to as int),
            status,
        ),
{
    let ghost all = tui::ui_views(messages@);
    let ghost tools = tools_in(all, from as int, to as int);
    let mut i: usize = from;
    while i < to
        invariant
            from <= i <= to <= messages@.len(),
            all == tui::ui_views(messages@),
            all_tools(all, from as int, to as int),
            tools == tools_in(all, from as int, to as int),
            forall|k: int| 0 <= k < i - from ==> (#[trigger] tools[k]).status != status,
        decreases to - i,
    {
        proof {
            assert(all[i as int] == messages@[i as int]@);
            assert(tools[i - from] == all[i as int].kind->Tool_0);
        }
        if let UiMessageKind::Tool(tool) = &messages[i].kind {
            if tool.status == status {
                return true;
            }
        }
        i = i + 1;
    }
    false
}

fn rounds(messages: &Vec<UiMessage>, from: usize, to: usize) -> (r: (usize, usize))
    requires
        from < to <= messages@.len(),
        all_tools(tui::ui_views(messages@), from as int, to as int),
    ensures
        r.0 == first_round(tools_in(tui::ui_views(messages@), from as int, to as int)),
        r.1 == last_round(tools_in(tui::ui_views(messages@), from as int, to as int)),
{
    let ghost all = tui::ui_views(messages@);
    let ghost tools = tools_in(all, from as int, to as int);
    let mut first: usize = 0;
    let mut last: usize = 0;
    let mut i: usize = from;
    while i < to
        invariant
            from <= i <= to <= messages@.len(),
            all == tui::ui_views(messages@),
            all_tools(all, from as int, to as int),
            tools == tools_in(all, from as int, to as int),
            from < i ==> first == first_round(tools.take(i - from)) && last == last_round(
                tools.take(i - from),
            ),
        decreases to - i,
    {
        proof {
            let k = i - from;
            assert(tools.take(k + 1).drop_last() =~= tools.take(k));
            assert(tools.take(k + 1).last() == tools[k]);
            assert(k == 0 ==> tools.take(k + 1)[0] == tools[0]);
            assert(all[i as int] == messages@[i as int]@);
            assert(tools[k] == all[i as int].kind->Tool_0);
        }
        if let UiMessageKind::Tool(tool) = &messages[i].kind {
            if i == from || tool.round < first {
                first = tool.round;
            }
            if i == from || tool.round > last {
                last = tool.round;
            }
        }
        i = i + 1;
    }
    assert(tools.take(to - from) =~= tools);
    (first, last)
}

fn named(messages: &Vec<UiMessage>, from: usize, to: usize) -> (r: Vec<String>)
    requires
        from <= to <= messages@.len(),
        all_tools(tui::ui_views(messages@), from as int, to as int),
    ensures
        text::views(r@) == tool_names(
            tools_in(tui::ui_views(messages@), from as int, to as int),
        ),
{
    let ghost all = tui::ui_views(messages@);
    let ghost names = tool_names(tools_in(all, from as int, to as int));
    let mut out: Vec<String> = Vec::new();
    let mut i: usize = from;
    assert(text::views(out@) =~= names.take(0));
    while i < to
        invariant
            from <= i <= to <= messages@.len(),
            all == tui::ui_views(messages@),
            all_tools(all, from as int, to as int),
            names == tool_names(tools_in(all, from as int, to as int)),
            text::views(out@) == names.take(i - from),
        decreases to - i,
    {
        proof {
            assert(all[i as int] == messages@[i as int]@);
            assert(names[i - from] == all[i as int].kind->Tool_0.name);
        }
        if let UiMessageKind::Tool(tool) = &messages[i].kind {
            let ghost before = text::views(out@);
            out.push(tool.name.clone());
            assert(text::views(out@) =~= before.push(tool.name@));
            assert(names.take(i - from + 1) =~= names.take(i - from).push(names[i - from]));
        }
        i = i + 1;
    }
    assert(names.take(to - from) =~= names);
    out
}

fn label_names(messages: &Vec<UiMessage>, from: usize, to: usize) -> (r: String)
    requires
        from <= to <= messages@.len(),
        all_tools(tui::ui_views(messages@), from as int, to as int),
    ensures
        r@ == names_label(
            tools_in(tui::ui_views(messages@), from as int, to as int),
        ),
{
    let ghost all = tui::ui_views(messages@);
    let ghost tools = tools_in(all, from as int, to as int);
    if to - from > 4 {
        let names = named(messages, from, from + 4);
        assert(text::views(names@) =~= tool_names(tools).take(4));
        let mut label = text::join_texts(&names, "、");
        label.append("…");
        label
    } else {
        let names = named(messages, from, to);
        text::join_texts(&names, "、")
    }
}

fn label_rounds(first: usize, last: usize) -> (r: String)
    ensures
        r@ == if first == last {
            " · 第 "@ + text::decimal(first as nat) + " 轮"@
        } else {
            " · 第 "@ + text::decimal(first as nat) + "-"@ + text::decimal(last as nat) + " 轮"@
        },
{
    let mut r = two(" · 第 ", text::decimal_text(first as u64).as_str());
    if first != last {
        r.append("-");
        r.append(text::decimal_text(last as u64).as_str());
    }
    r.append(" 轮");
    r
}

/// The line that stands for the tool calls from `from` to `to`.
pub fn collapsed_tool_group(messages: &Vec<UiMessage>, from: usize, to: usize, duration: &str) -> (r:
    Vec<Vec<Span>>)
    requires
        from <= to <= messages@.len(),
        all_tools(tui::ui_views(messages@), from as int, to as int),
    ensures
        ({
            let tools = tools_in(
                tui::ui_views(messages@),
                from as int,
                to as int,
            );
            lines_view(r@) == if tools.len() == 0 {
                Seq::<Seq<SpanView>>::empty()
            } else {
                seq![one(group_text(tools, duration@), plain(group_sign(tools).2))]
            }
        }),
{
    let ghost tools = tools_in(tui::ui_views(messages@), from as int, to as int);
    let mut lines: Vec<Vec<Span>> = Vec::new();
    assert(lines_view(lines@) =~= Seq::<Seq<SpanView>>::empty());
    if from == to {
        return lines;
    }
    let (sign, word, tone) = if has_status(messages, from, to, ToolStatus::Running) {
        ("○", "执行中", Tone::Info)
    } else if has_status(messages, from, to, ToolStatus::Failed) {
        ("✗", "有失败", Tone::Error)
    } else {
        ("●", "已完成", Tone::Success)
    };
    let (first, last) = rounds(messages, from, to);
    let mut label = two("  ", sign);
    label.append(" 工具调用已折叠 · ");
    label.append(text::decimal_text((to - from) as u64).as_str());
    label.append(" 次 · ");
    label.append(word);
    label.append(label_rounds(first, last).as_str());
    label.append(duration);
    label.append(" · ");
    label.append(label_names(messages, from, to).as_str());
    label.append(" · Ctrl+T 展开详情");
    let ghost said = label@;
    assert(said =~= group_text(tools, duration@));
    push_line(&mut lines, one_line(label, plain_look(tone)));
    assert(lines_view(lines@) =~= seq![one(said, plain(tone))]);
    lines
}

/// How many wrapped messages are kept.
pub const MAX_RENDER_CACHE: usize = 512;

/// What the rows of a message depend on.
#[derive(Clone, Copy, Debug, PartialEq, Eq, Structural)]
pub struct RenderCacheKey {
    pub message_id: u64,
    pub content_version: u64,
    pub width: u16,
    pub show_tools: bool,
    pub theme_mode: TuiThemeMode,
}

/// The rows of messages that were wrapped before.
#[derive(Debug)]
pub struct RenderCache {
    pub entries: Vec<(RenderCacheKey, Vec<Vec<Cell>>)>,
}

/// The rows by what they depend on; a later entry goes before an earlier one.
pub open spec fn cache_map(v: Seq<(RenderCacheKey, Vec<Vec<Cell>>)>) -> Map<
    RenderCacheKey,
    Seq<Seq<Cell>>,
>
    decreases v.len(),
{
    if v.len() == 0 {
        Map::empty()
    } else {
        cache_map(v.drop_last()).insert(v.last().0, rows_view(v.last().1@))
    }
}

/// No two entries have one key.
pub open spec fn keys_differ(v: Seq<(RenderCacheKey, Vec<Vec<Cell>>)>) -> bool {
    forall|i: int, k: int| 0 <= i < k < v.len() ==> (#[trigger] v[i]).0 != (#[trigger] v[k]).0
}

impl View for RenderCache {
    type V = Map<RenderCacheKey, Seq<Seq<Cell>>>;

    open spec fn view(&self) -> Map<RenderCacheKey, Seq<Seq<Cell>>> {
        cache_map(self.entries@)
    }
}

proof fn lemma_cache_dom(v: Seq<(RenderCacheKey, Vec<Vec<Cell>>)>, key: RenderCacheKey)
    ensures
        cache_map(v).dom().contains(key) <==> exists|i: int|
            0 <= i < v.len() && (#[trigger] v[i]).0 == key,
    decreases v.len(),
{
    if v.len() > 0 {
        let front = v.drop_last();
        lemma_cache_dom(front, key);
        if v.last().0 == key {
            assert(v[v.len() - 1].0 == key);
        } else {
            if exists|i: int| 0 <= i < v.len() && (#[trigger] v[i]).0 == key {
                let i = choose|i: int| 0 <= i < v.len() && (#[trigger] v[i]).0 == key;
                assert(front[i] == v[i]);
            }
            if cache_map(front).dom().contains(key) {
                let i = choose|i: int| 0 <= i < front.len() && (#[trigger] front[i]).0 == key;
                assert(v[i].0 == key);
            }
        }
    }
}

proof fn lemma_cache_at(v: Seq<(RenderCacheKey, Vec<Vec<Cell>>)>, i: int)
    requires
        0 <= i < v.len(),
        keys_differ(v),
    ensures
        cache_map(v).dom().contains(v[i].0),
        cache_map(v)[v[i].0] == rows_view(v[i].1@),
    decreases v.len(),
{
    if i < v.len() - 1 {
        let front = v.drop_last();
        assert forall|a: int, b: int| 0 <= a < b < front.len() implies (#[trigger] front[a]).0 != (
        #[trigger] front[b]).0 by {
            assert(v[a].0 != v[b].0);
        }
        lemma_cache_at(front, i);
        assert(front[i] == v[i]);
        assert(v[i].0 != v[v.len() - 1].0);
    }
}

proof fn lemma_cache_len(v: Seq<(RenderCacheKey, Vec<Vec<Cell>>)>)
    requires
        keys_differ(v),
    ensures
        cache_map(v).dom().finite(),
        cache_map(v).len() == v.len(),
    decreases v.len(),
{
    if v.len() > 0 {
        let front = v.drop_last();
        assert forall|a: int, b: int| 0 <= a < b < front.len() implies (#[trigger] front[a]).0 != (
        #[trigger] front[b]).0 by {
            assert(v[a].0 != v[b].0);
        }
        lemma_cache_len(front);
        lemma_cache_dom(front, v.last().0);
        if cache_map(front).dom().contains(v.last().0) {
            let i = choose|i: int| 0 <= i < front.len() && (#[trigger] front[i]).0 == v.last().0;
            assert(v[i].0 == v[v.len() - 1].0);
        }
    } else {
        assert(cache_map(v).dom() =~= Set::<RenderCacheKey>::empty());
    }
}

/// Rows that are put where they can be found again; when there is no room, all others go.
pub open spec fn cached(
    cache: Map<RenderCacheKey, Seq<Seq<Cell>>>,
    key: RenderCacheKey,
    rows: Seq<Seq<Cell>>,
) -> Map<RenderCacheKey, Seq<Seq<Cell>>> {
    if cache.dom().contains(key) {
        cache
    } else if cache.len() >= MAX_RENDER_CACHE {
        Map::<RenderCacheKey, Seq<Seq<Cell>>>::empty().insert(key, rows)
    } else {
        cache.insert(key, rows)
    }
}

fn clone_rows(rows: &Vec<Vec<Cell>>) -> (r: Vec<Vec<Cell>>)
    ensures
        rows_view(r@) == rows_view(rows@),
{
    let ghost all = rows_view(rows@);
    let mut out: Vec<Vec<Cell>> = Vec::new();
    let mut i: usize = 0;
    assert(rows_view(out@) =~= all.take(0));
    while i < rows.len()
        invariant
            i <= rows@.len(),
            all == rows_view(rows@),
            rows_view(out@) == all.take(i as int),
        decreases rows@.len() - i,
    {
        let mut row: Vec<Cell> = Vec::new();
        let mut k: usize = 0;
        assert(row@ =~= rows@[i as int]@.take(0));
        while k < rows[i].len()
            invariant
                i < rows@.len(),
                k <= rows@[i as int]@.len(),
                row@ == rows@[i as int]@.take(k as int),
            decreases rows@[i as int]@.len() - k,
        {
            row.push(rows[i][k]);
            assert(row@ =~= rows@[i as int]@.take(k + 1));
            k = k + 1;
        }
        assert(row@ =~= rows@[i as int]@);
        push_row(&mut out, row);
        assert(all.take(i + 1) =~= all.take(i as int).push(all[i as int]));
        i = i + 1;
    }
    assert(all.take(i as int) =~= all);
    out
}

impl RenderCache {
    /// No two entries have one key.
    pub open spec fn wf(self) -> bool {
        keys_differ(self.entries@)
    }

    /// A cache with nothing in it.
    pub fn new() -> (r: Self)
        ensures
            r.wf(),
            r@ == Map::<RenderCacheKey, Seq<Seq<Cell>>>::empty(),
    {
        RenderCache { entries: Vec::new() }
    }

    /// Forgets everything.
    pub fn clear(&mut self)
        ensures
            final(self).wf(),
            final(self)@ == Map::<RenderCacheKey, Seq<Seq<Cell>>>::empty(),
    {
        self.entries = Vec::new();
    }

    /// How many messages are kept.
    pub fn len(&self) -> (r: usize)
        requires
            self.wf(),
        ensures
            r == self@.len(),
    {
        proof {
            lemma_cache_len(self.entries@);
        }
        self.entries.len()
    }

    fn get(&self, key: RenderCacheKey) -> (r: Option<Vec<Vec<Cell>>>)
        requires
            self.wf(),
        ensures
            match r {
                Some(rows) => self@.dom().contains(key) && rows_view(rows@) == self@[key],
                None => !self@.dom().contains(key),
            },
    {
        let mut i: usize = 0;
        while i < self.entries.len()
            invariant
                i <= self.entries@.len(),
                self.wf(),
                forall|k: int| 0 <= k < i ==> (#[trigger] self.entries@[k]).0 != key,
            decreases self.entries@.len() - i,
        {
            if self.entries[i].0 == key {
                proof {
                    lemma_cache_at(self.entries@, i as int);
                }
                return Some(clone_rows(&self.entries[i].1));
            }
            i = i + 1;
        }
        proof {
            lemma_cache_dom(self.entries@, key);
        }
        None
    }

    fn put(&mut self, key: RenderCacheKey, rows: Vec<Vec<Cell>>)
        requires
            old(self).wf(),
            !old(self)@.dom().contains(key),
        ensures
            final(self).wf(),
            final(self)@ == cached(old(self)@, key, rows_view(rows@)),
    {
        proof {
            lemma_cache_len(self.entries@);
            lemma_cache_dom(self.entries@, key);
        }
        if self.entries.len() >= MAX_RENDER_CACHE {
            self.entries = Vec::new();
        }
        let ghost before = self.entries@;
        let ghost added = rows_view(rows@);
        self.entries.push((key, rows));
        proof {
            assert(self.entries@.drop_last() =~= before);
            assert(self.entries@.last() == (key, rows));
            assert(self@ == cache_map(before).insert(key, added));
            assert(old(self)@.len() == old(self).entries@.len());
        }
    }
}

/// No more messages are kept than there is room for.
pub proof fn law_cache_is_bounded(
    cache: Map<RenderCacheKey, Seq<Seq<Cell>>>,
    key: RenderCacheKey,
    rows: Seq<Seq<Cell>>,
)
    requires
        cache.dom().finite(),
        cache.len() <= MAX_RENDER_CACHE,
    ensures
        cached(cache, key, rows).dom().finite(),
        cached(cache, key, rows).len() <= MAX_RENDER_CACHE,
        cached(cache, key, rows).dom().contains(key),
{
}

/// What the rows of a transcript depend on, beside the messages.
#[derive(Clone, Copy, Debug, PartialEq, Eq, Structural)]
pub struct Sight {
    pub width: u16,
    pub show_tools: bool,
    pub theme_mode: TuiThemeMode,
    pub now: u64,
}

/// What the rows of a message depend on.
pub open spec fn key_of(m: UiMessageView, sight: Sight) -> RenderCacheKey {
    RenderCacheKey {
        message_id: m.id,
        content_version: m.content_version,
        width: sight.width,
        show_tools: sight.show_tools,
        theme_mode: sight.theme_mode,
    }
}

/// The rows of a message: those that are kept, or those that its lines give.
pub open spec fn message_rows(
    cache: Map<RenderCacheKey, Seq<Seq<Cell>>>,
    m: UiMessageView,
    sight: Sight,
    elapsed: Seq<char>,
) -> Seq<Seq<Cell>> {
    if cache.dom().contains(key_of(m, sight)) {
        cache[key_of(m, sight)]
    } else {
        wrapped(lines_of(m, sight.show_tools, elapsed, sight.now), row_width(sight.width))
    }
}

/// The rows of a message, from the cache where they are kept.
pub fn cached_message_lines(
    cache: &mut RenderCache,
    message: &UiMessage,
    sight: Sight,
    elapsed: &str,
) -> (r: Vec<Vec<Cell>>)
    requires
        old(cache).wf(),
    ensures
        final(cache).wf(),
        rows_view(r@) == message_rows(old(cache)@, message@, sight, elapsed@),
        final(cache)@ == cached(old(cache)@, key_of(message@, sight), rows_view(r@)),
{
    let key = RenderCacheKey {
        message_id: message.id,
        content_version: message.content_version,
        width: sight.width,
        show_tools: sight.show_tools,
        theme_mode: sight.theme_mode,
    };
    if let Some(rows) = cache.get(key) {
        return rows;
    }
    let lines = message_lines(message, sight.show_tools, elapsed, sight.now);
    let rows = wrap_lines(&lines, sight.width);
    let kept = clone_rows(&rows);
    cache.put(key, kept);
    rows
}

/// The rows of a transcript so far, where the message that is looked for begins, and the
/// cache.
pub struct Transcript {
    pub rows: Seq<Seq<Cell>>,
    pub anchor: Option<nat>,
    pub cache: Map<RenderCacheKey, Seq<Seq<Cell>>>,
}

/// The rows of the messages from `i` on, after those before. While the details of tools are
/// closed, tool calls that follow each other take one row.
pub open spec fn transcript_from(
    t: Transcript,
    v: Seq<UiMessageView>,
    i: int,
    sight: Sight,
    anchor_id: Option<u64>,
    elapsed: Seq<Seq<char>>,
    durations: Seq<Seq<char>>,
) -> Transcript
    decreases v.len() - i,
{
    if i < 0 || i >= v.len() {
        t
    } else if !sight.show_tools && v[i].kind is Tool {
        let end = tools_end(v, i);
        let tools = tools_in(v, i, end);
        proof {
            lemma_tools_end(v, i);
        }
        transcript_from(
            Transcript {
                rows: t.rows.push(
                    cells_of(one(group_text(tools, durations[i]), plain(group_sign(tools).2))),
                ),
                ..t
            },
            v,
            end,
            sight,
            anchor_id,
            elapsed,
            durations,
        )
    } else {
        let rows = message_rows(t.cache, v[i], sight, elapsed[i]);
        transcript_from(
            Transcript {
                rows: t.rows + rows,
                anchor: if anchor_id == Some(v[i].id) {
                    Some(t.rows.len())
                } else {
                    t.anchor
                },
                cache: cached(t.cache, key_of(v[i], sight), rows),
            },
            v,
            i + 1,
            sight,
            anchor_id,
            elapsed,
            durations,
        )
    }
}

/// A tool call is followed by the end of the tool calls.
pub proof fn lemma_tools_end(v: Seq<UiMessageView>, i: int)
    requires
        0 <= i < v.len(),
        v[i].kind is Tool,
    ensures
        i < tools_end(v, i) <= v.len(),
    decreases v.len() - i,
{
    assert(tools_end(v, i) == tools_end(v, i + 1));
    if i + 1 < v.len() && v[i + 1].kind is Tool {
        lemma_tools_end(v, i + 1);
    } else {
        assert(tools_end(v, i + 1) == i + 1);
    }
}

fn append_rows(rows: &mut Vec<Vec<Cell>>, more: Vec<Vec<Cell>>)
    ensures
        rows_view(final(rows)@) == rows_view(old(rows)@) + rows_view(more@),
{
    let ghost before = rows_view(rows@);
    let ghost tail = rows_view(more@);
    let mut more = more;
    rows.append(&mut more);
    assert(rows_view(rows@) =~= before + tail);
}

/// The rows of a transcript, and where the message that is looked for begins. `elapsed` says
/// what each tool call took, `durations` what the tool calls took that begin at each message.
pub fn transcript_lines_with_anchor(
    cache: &mut RenderCache,
    messages: &Vec<UiMessage>,
    sight: Sight,
    anchor_message_id: Option<u64>,
    elapsed: &Vec<String>,
    durations: &Vec<String>,
) -> (r: (Vec<Vec<Cell>>, Option<usize>))
    requires
        old(cache).wf(),
        elapsed@.len() == messages@.len(),
        durations@.len() == messages@.len(),
    ensures
        final(cache).wf(),
        ({
            let t = transcript_from(
                Transcript { rows: Seq::empty(), anchor: None, cache: old(cache)@ },
                tui::ui_views(messages@),
                0,
                sight,
                anchor_message_id,
                text::views(elapsed@),
                text::views(durations@),
            );
            &&& rows_view(r.0@) == t.rows
            &&& final(cache)@ == t.cache
            &&& match r.1 {
                Some(n) => t.anchor == Some(n as nat),
                None => t.anchor is None,
            }
        }),
{
    let ghost all = tui::ui_views(messages@);
    let ghost es = text::views(elapsed@);
    let ghost ds = text::views(durations@);
    let ghost whole = transcript_from(
        Transcript { rows: Seq::empty(), anchor: None, cache: cache@ },
        all,
        0,
        sight,
        anchor_message_id,
        es,
        ds,
    );
    let mut rows: Vec<Vec<Cell>> = Vec::new();
    let mut anchor: Option<usize> = None;
    let ghost mut mark: Option<nat> = None;
    let mut i: usize = 0;
    assert(rows_view(rows@) =~= Seq::<Seq<Cell>>::empty());
    while i < messages.len()
        invariant
            i <= messages@.len(),
            cache.wf(),
            elapsed@.len() == messages@.len(),
            durations@.len() == messages@.len(),
            all == tui::ui_views(messages@),
            es == text::views(elapsed@),
            ds == text::views(durations@),
            match anchor {
                Some(n) => mark == Some(n as nat),
                None => mark is None,
            },
            whole == transcript_from(
                Transcript { rows: rows_view(rows@), anchor: mark, cache: cache@ },
                all,
                i as int,
                sight,
                anchor_message_id,
                es,
                ds,
            ),
        decreases messages@.len() - i,
    {
        assert(all[i as int] == messages@[i as int]@);
        let is_tool = matches!(messages[i].kind, UiMessageKind::Tool(_));
        if !sight.show_tools && is_tool {
            proof {
                lemma_tools_end(all, i as int);
            }
            let end: usize = find_tools_end(messages, i);
            let lines = collapsed_tool_group(messages, i, end, durations[i].as_str());
            let ghost tools = tools_in(all, i as int, end as int);
            let ghost group = one(group_text(tools, ds[i as int]), plain(group_sign(tools).2));
            assert(lines_view(lines@)[0] == group);
            assert(lines_view(lines@).len() == 1);
            let row = line_cells(&lines[0]);
            push_row(&mut rows, row);
            i = end;
        } else {
            let ghost before = rows_view(rows@);
            if let Some(id) = anchor_message_id {
                if id == messages[i].id {
                    anchor = Some(rows.len());
                    proof {
                        mark = Some(before.len());
                    }
                }
            }
            let more = cached_message_lines(cache, &messages[i], sight, elapsed[i].as_str());
            append_rows(&mut rows, more);
            i = i + 1;
        }
    }
    (rows, anchor)
}

/// The characters of a line are those of its spans, in order, each in the look of its span.
pub proof fn law_lines_are_their_spans(a: Seq<SpanView>, b: Seq<SpanView>, s: Seq<char>, look: Look)
    ensures
        cells_of(a + b) == cells_of(a) + cells_of(b),
        cells_of(one(s, look)).len() == s.len(),
        forall|i: int|
            0 <= i < s.len() ==> (#[trigger] cells_of(one(s, look))[i]).c == s[i] && cells_of(
                one(s, look),
            )[i].look == look,
        spoken(a + b) == spoken(a) + spoken(b),
        spoken(one(s, look)) == s,
    decreases b.len(),
{
    assert(one(s, look).drop_last() =~= Seq::<SpanView>::empty());
    reveal_with_fuel(cells_of, 2);
    reveal_with_fuel(spoken, 2);
    assert(cells_of(one(s, look)) =~= styled(s, look));
    assert(spoken(one(s, look)) =~= s);
    if b.len() == 0 {
        assert(a + b =~= a);
    } else {
        law_lines_are_their_spans(a, b.drop_last(), s, look);
        assert((a + b).drop_last() =~= a + b.drop_last());
        assert((a + b).last() == b.last());
    }
    assert(cells_of(a + b) =~= cells_of(a) + cells_of(b));
    assert(spoken(a + b) =~= spoken(a) + spoken(b));
}

/// Lines are wrapped one after the other, in order; a line has at least one row.
pub proof fn law_lines_are_wrapped_in_order(
    a: Seq<Seq<SpanView>>,
    b: Seq<Seq<SpanView>>,
    line: Seq<SpanView>,
    width: int,
)
    ensures
        wrapped(a + b, width) == wrapped(a, width) + wrapped(b, width),
        wrapped(seq![line], width) == wrapped_line(cells_of(line), width),
        wrapped_line(cells_of(line), width).len() >= 1,
    decreases b.len(),
{
    assert(seq![line].drop_last() =~= Seq::<Seq<SpanView>>::empty());
    reveal_with_fuel(wrapped, 2);
    assert(wrapped(seq![line], width) =~= wrapped_line(cells_of(line), width));
    if b.len() == 0 {
        assert(a + b =~= a);
    } else {
        law_lines_are_wrapped_in_order(a, b.drop_last(), line, width);
        assert((a + b).drop_last() =~= a + b.drop_last());
        assert((a + b).last() == b.last());
    }
    assert(wrapped(a + b, width) =~= wrapped(a, width) + wrapped(b, width));
}

/// A text that fits is shown whole; a longer one by its start and the sign that it goes on.
pub proof fn law_long_texts_are_shortened(s: Seq<char>, max: usize)
    ensures
        input_editor::width_of(s) <= max ==> shortened(s, max) == s,
        input_editor::width_of(s) > max ==> shortened(s, max).len() > 0 && shortened(s, max).last()
            == '…' && shortened(s, max).drop_last().is_prefix_of(s),
{
    if input_editor::width_of(s) > max {
        let left: int = if max == 0 {
            0
        } else {
            max - 1
        };
        lemma_fitting(s, 0, left);
        let t = shortened(s, max);
        assert(t.drop_last() =~= s.take(fitting(s, 0, left)));
    }
}

proof fn lemma_fitting(s: Seq<char>, n: int, left: int)
    requires
        0 <= n <= s.len(),
    ensures
        n <= fitting(s, n, left) <= s.len(),
    decreases s.len() - n,
{
    if n < s.len() && columns(s[n]) <= left {
        lemma_fitting(s, n + 1, left - columns(s[n]));
    }
}

/// Code is shown in the look of what it is: added, removed or code.
pub proof fn law_code_is_coloured(rest: Seq<char>, c: char)
    ensures
        code_tone(seq!['+'] + rest) == Tone::DiffAdd,
        code_tone(seq!['-'] + rest) == Tone::DiffRemove,
        c != '+' && c != '-' ==> code_tone(seq![c] + rest) == Tone::Code,
        code_tone(Seq::empty()) == Tone::Code,
{
}

/// Every line of a message is shown as one line, in order, after those before it; a fence
/// begins or ends code and no other line does.
pub proof fn law_every_line_is_shown(
    head: Seq<Seq<SpanView>>,
    role: Role,
    sources: Seq<Seq<char>>,
    source: Seq<char>,
)
    ensures
        body_of(head, role, sources).lines.len() == head.len() + sources.len(),
        body_of(head, role, sources.push(source)).lines.len() == body_of(
            head,
            role,
            sources,
        ).lines.len() + 1,
        body_of(head, role, sources.push(source)).lines.drop_last() == body_of(
            head,
            role,
            sources,
        ).lines,
        body_of(head, role, sources.push(source)).code != body_of(head, role, sources).code
            <==> text::has_prefix(text::trim_start(source), "```"@),
        body_of(head, role, sources).code && !text::has_prefix(text::trim_start(source), "```"@)
            ==> source.is_suffix_of(
            spoken(body_of(head, role, sources.push(source)).lines.last()),
        ),
        !body_of(head, role, sources).code && role is User && !text::has_prefix(
            text::trim_start(source),
            "```"@,
        ) ==> source.is_suffix_of(spoken(body_of(head, role, sources.push(source)).lines.last())),
    decreases sources.len(),
{
    assert(sources.push(source).drop_last() =~= sources);
    if sources.len() > 0 {
        law_every_line_is_shown(head, role, sources.drop_last(), sources.last());
        assert(sources.drop_last().push(sources.last()) =~= sources);
    }
    let b = body_of(head, role, sources);
    let l = body_of(head, role, sources.push(source)).lines;
    assert(l.drop_last() =~= b.lines);
    if !text::has_prefix(text::trim_start(source), "```"@) {
        if b.code {
            let line = l.last();
            assert(line.drop_last() =~= seq![line[0]]);
            reveal_with_fuel(spoken, 3);
            let s = spoken(line);
            assert(s.subrange(s.len() - source.len(), s.len() as int) =~= source);
        } else if role is User {
            let t = "  "@ + source;
            law_lines_are_their_spans(Seq::empty(), Seq::empty(), t, plain(Tone::Foreground));
            assert(t.subrange(t.len() - source.len(), t.len() as int) =~= source);
        }
    }
}

/// The label of a message tells who speaks and its number; the age counts whole seconds since
/// it was made.
pub proof fn law_messages_are_labelled(m: UiMessageView, now: u64)
    ensures
        role_label(m.role).0.is_prefix_of(label_of(m, now)),
        text::has_text(label_of(m, now), " · #"@ + text::decimal(m.id as nat)),
        now < m.created_at ==> age_of(m, now) == 0,
        now >= m.created_at ==> 1000 * age_of(m, now) <= now - m.created_at < 1000 * age_of(m, now)
            + 1000,
{
    let l = label_of(m, now);
    let r = role_label(m.role).0;
    let d = " · #"@ + text::decimal(m.id as nat);
    let at = r.len() as int;
    assert(l.subrange(0, at) =~= r);
    assert(l.subrange(at, at + d.len()) =~= d);
    assert(text::occurs_at(l, d, at));
}

/// The state of a tool is told by a sign of its own.
pub proof fn law_tool_signs_differ(a: ToolStatus, b: ToolStatus)
    requires
        a != b,
    ensures
        tool_sign(a).0 != tool_sign(b).0,
        tool_sign(a).1 != tool_sign(b).1,
{
    reveal_strlit("○");
    reveal_strlit("●");
    reveal_strlit("✗");
    assert("○"@[0] != "●"@[0] && "○"@[0] != "✗"@[0] && "●"@[0] != "✗"@[0]);
}

/// A tool is shown by its heading; when it is opened, every line of its output follows in
/// order.
pub proof fn law_tools_show_their_output(tool: ToolView, show_tools: bool, elapsed: Seq<char>, i: int)
    ensures
        tool_lines(tool, show_tools, elapsed).len() > 0,
        text::has_text(tool_lines(tool, show_tools, elapsed)[0][0].text, tool.heading),
        tool.expanded == Some(true) || (tool.expanded is None && show_tools) ==> tool_lines(
            tool,
            show_tools,
            elapsed,
        ).len() == tool.output.len() + 1 && (0 <= i < tool.output.len()
            ==> tool.output[i].is_suffix_of(tool_lines(tool, show_tools, elapsed)[i + 1][0].text)),
        tool.expanded == Some(false) || (tool.expanded is None && !show_tools) ==> tool_lines(
            tool,
            show_tools,
            elapsed,
        ).len() == 1,
{
    let h = tool_head(tool, elapsed);
    let at = h.len() - elapsed.len() - tool.heading.len();
    assert(h.subrange(at, at + tool.heading.len()) =~= tool.heading);
    assert(text::occurs_at(h, tool.heading, at));
    if 0 <= i < tool.output.len() {
        let t = "    │ "@ + tool.output[i];
        assert(t.subrange(t.len() - tool.output[i].len(), t.len() as int) =~= tool.output[i]);
    }
}

/// A group of tools runs while one of them runs; it has failed when one has and none runs; it
/// is done only when all are.
pub proof fn law_groups_tell_their_state(tools: Seq<ToolView>)
    ensures
        group_sign(tools).2 == Tone::Success <==> forall|k: int|
            0 <= k < tools.len() ==> (#[trigger] tools[k]).status is Done,
        group_sign(tools).2 == Tone::Info <==> exists|k: int|
            0 <= k < tools.len() && (#[trigger] tools[k]).status is Running,
{
    if some_status(tools, ToolStatus::Running) {
        let k = choose|k: int|
            0 <= k < tools.len() && (#[trigger] tools[k]).status == ToolStatus::Running;
        assert(tools[k].status is Running);
    } else if some_status(tools, ToolStatus::Failed) {
        let k = choose|k: int|
            0 <= k < tools.len() && (#[trigger] tools[k]).status == ToolStatus::Failed;
        assert(tools[k].status is Failed);
    } else {
        assert forall|k: int| 0 <= k < tools.len() implies (#[trigger] tools[k]).status is Done by {
            assert(tools[k].status != ToolStatus::Running && tools[k].status != ToolStatus::Failed);
        }
    }
}

/// The rounds of a group are the first and the last that any of its tools ran in; its time is
/// that of all of them.
pub proof fn law_groups_tell_their_rounds(tools: Seq<ToolView>, more: Seq<ToolView>)
    ensures
        tools.len() > 0 ==> forall|k: int|
            0 <= k < tools.len() ==> first_round(tools) <= (#[trigger] tools[k]).round
                <= last_round(tools),
        tools.len() > 0 ==> exists|k: int|
            0 <= k < tools.len() && (#[trigger] tools[k]).round == first_round(tools),
        tools.len() > 0 ==> exists|k: int|
            0 <= k < tools.len() && (#[trigger] tools[k]).round == last_round(tools),
        total_ms(tools + more) == total_ms(tools) + total_ms(more),
{
    if tools.len() > 0 {
        lemma_rounds(tools);
    }
    lemma_times_add_up(tools, more);
}

proof fn lemma_rounds(tools: Seq<ToolView>)
    requires
        tools.len() > 0,
    ensures
        forall|k: int|
            0 <= k < tools.len() ==> first_round(tools) <= (#[trigger] tools[k]).round
                <= last_round(tools),
        exists|k: int| 0 <= k < tools.len() && (#[trigger] tools[k]).round == first_round(tools),
        exists|k: int| 0 <= k < tools.len() && (#[trigger] tools[k]).round == last_round(tools),
    decreases tools.len(),
{
    if tools.len() == 1 {
        assert(tools[0].round == first_round(tools));
    } else {
        let w = tools.drop_last();
        lemma_rounds(w);
        let n = tools.len() - 1;
        assert(tools[n] == tools.last());
        let a = choose|k: int| 0 <= k < w.len() && (#[trigger] w[k]).round == first_round(w);
        let b = choose|k: int| 0 <= k < w.len() && (#[trigger] w[k]).round == last_round(w);
        assert(tools[a] == w[a] && tools[b] == w[b]);
        assert forall|k: int| 0 <= k < tools.len() implies first_round(tools) <= (
        #[trigger] tools[k]).round <= last_round(tools) by {
            if k < n {
                assert(w[k] == tools[k]);
            }
        }
    }
}

proof fn lemma_times_add_up(a: Seq<ToolView>, b: Seq<ToolView>)
    ensures
        total_ms(a + b) == total_ms(a) + total_ms(b),
    decreases b.len(),
{
    if b.len() == 0 {
        assert(a + b =~= a);
    } else {
        lemma_times_add_up(a, b.drop_last());
        assert((a + b).drop_last() =~= a + b.drop_last());
        assert((a + b).last() == b.last());
    }
}

/// What is kept of a message is found again for the same text, width and look; it is shown
/// as it would be shown anew only where nothing of these changed.
pub proof fn law_kept_rows_are_of_the_same_message(
    cache: Map<RenderCacheKey, Seq<Seq<Cell>>>,
    key: RenderCacheKey,
    rows: Seq<Seq<Cell>>,
    a: UiMessageView,
    b: UiMessageView,
    sight: Sight,
)
    ensures
        cached(cache, key, rows).dom().contains(key),
        !cache.dom().contains(key) ==> cached(cache, key, rows)[key] == rows,
        cache.dom().contains(key) ==> cached(cache, key, rows) == cache,
        key_of(a, sight) == key_of(b, sight) <==> a.id == b.id && a.content_version
            == b.content_version,
        key_of(a, sight).width == sight.width,
        key_of(a, sight).show_tools == sight.show_tools,
        key_of(a, sight).theme_mode == sight.theme_mode,
{
}

/// The transcript grows message by message: what is shown so far stays in front.
pub proof fn law_the_transcript_grows(
    t: Transcript,
    v: Seq<UiMessageView>,
    i: int,
    sight: Sight,
    anchor_id: Option<u64>,
    elapsed: Seq<Seq<char>>,
    durations: Seq<Seq<char>>,
)
    requires
        0 <= i,
    ensures
        t.rows.is_prefix_of(
            transcript_from(t, v, i, sight, anchor_id, elapsed, durations).rows,
        ),
        i >= v.len() ==> transcript_from(t, v, i, sight, anchor_id, elapsed, durations) == t,
    decreases v.len() - i,
{
    if i < v.len() {
        if !sight.show_tools && v[i].kind is Tool {
            lemma_tools_end(v, i);
            let end = tools_end(v, i);
            let tools = tools_in(v, i, end);
            let next = Transcript {
                rows: t.rows.push(
                    cells_of(one(group_text(tools, durations[i]), plain(group_sign(tools).2))),
                ),
                ..t
            };
            law_the_transcript_grows(next, v, end, sight, anchor_id, elapsed, durations);
            let r = transcript_from(t, v, i, sight, anchor_id, elapsed, durations).rows;
            assert(next.rows == r.subrange(0, next.rows.len() as int));
            assert(t.rows =~= r.subrange(0, t.rows.len() as int)) by {
                assert(forall|k: int| 0 <= k < t.rows.len() ==> next.rows[k] == t.rows[k]);
                assert(forall|k: int| 0 <= k < t.rows.len() ==> r[k] == next.rows[k]);
            }
        } else {
            let rows = message_rows(t.cache, v[i], sight, elapsed[i]);
            let next = Transcript {
                rows: t.rows + rows,
                anchor: if anchor_id == Some(v[i].id) {
                    Some(t.rows.len())
                } else {
                    t.anchor
                },
                cache: cached(t.cache, key_of(v[i], sight), rows),
            };
            law_the_transcript_grows(next, v, i + 1, sight, anchor_id, elapsed, durations);
            let r = transcript_from(t, v, i, sight, anchor_id, elapsed, durations).rows;
            assert(next.rows == r.subrange(0, next.rows.len() as int));
            assert(t.rows =~= r.subrange(0, t.rows.len() as int)) by {
                assert(forall|k: int| 0 <= k < t.rows.len() ==> next.rows[k] == t.rows[k]);
                assert(forall|k: int| 0 <= k < t.rows.len() ==> r[k] == next.rows[k]);
            }
        }
    } else {
        assert(t.rows.subrange(0, t.rows.len() as int) =~= t.rows);
    }
}

/// A message is shown with all of its rows, behind those before it; the anchor stands at its
/// first row.
pub proof fn law_a_message_is_shown_whole(
    t: Transcript,
    m: UiMessageView,
    sight: Sight,
    anchor_id: Option<u64>,
    elapsed: Seq<char>,
    duration: Seq<char>,
)
    requires
        m.kind is Text || sight.show_tools,
    ensures
        ({
            let r = transcript_from(t, seq![m], 0, sight, anchor_id, seq![elapsed], seq![duration]);
            &&& r.rows == t.rows + message_rows(t.cache, m, sight, elapsed)
            &&& anchor_id == Some(m.id) ==> r.anchor == Some(t.rows.len())
            &&& anchor_id != Some(m.id) ==> r.anchor == t.anchor
            &&& !t.cache.dom().contains(key_of(m, sight)) ==> message_rows(
                t.cache,
                m,
                sight,
                elapsed,
            ) == wrapped(lines_of(m, sight.show_tools, elapsed, sight.now), row_width(sight.width))
        }),
{
    reveal_with_fuel(transcript_from, 2);
}

/// Tools that are not shown one by one are shown as one row.
pub proof fn law_hidden_tools_are_one_row(
    t: Transcript,
    v: Seq<UiMessageView>,
    sight: Sight,
    anchor_id: Option<u64>,
    elapsed: Seq<Seq<char>>,
    durations: Seq<Seq<char>>,
)
    requires
        v.len() > 0,
        !sight.show_tools,
        forall|k: int| 0 <= k < v.len() ==> (#[trigger] v[k]).kind is Tool,
    ensures
        transcript_from(t, v, 0, sight, anchor_id, elapsed, durations).rows.len() == t.rows.len()
            + 1,
{
    lemma_all_are_tools(v, 0);
    let end = tools_end(v, 0);
    assert(end == v.len());
    reveal_with_fuel(transcript_from, 2);
}

proof fn lemma_all_are_tools(v: Seq<UiMessageView>, i: int)
    requires
        0 <= i <= v.len(),
        forall|k: int| 0 <= k < v.len() ==> (#[trigger] v[k]).kind is Tool,
    ensures
        tools_end(v, i) == v.len(),
    decreases v.len() - i,
{
    if i < v.len() {
        assert(v[i].kind is Tool);
        lemma_all_are_tools(v, i + 1);
    }
}

/// A line of an answer without marks is shown as it was said.
pub proof fn law_plain_lines_are_shown_as_said(source: Seq<char>)
    requires
        forall|k: int| 0 <= k < source.len() ==> #[trigger] source[k] != '*' && source[k] != '`'
            && source[k] != '#' && source[k] != '-',
    ensures
        spoken(answer_line(Role::Assistant, source)) == "  │ "@ + source,
        spoken(answer_line(Role::System, source)) == "  "@ + source,
{
    reveal_strlit("- ");
    let trimmed = text::trim_start(source);
    text::lemma_leading_space(source);
    if trimmed.len() > 0 {
        assert(trimmed[0] == source[text::leading_space(source) as int]);
    }
    assert(!is_heading(trimmed));
    if text::has_prefix(source, "- "@) {
        assert(source.take("- "@.len() as int)[0] == source[0]);
        assert("- "@[0] == '-');
    }
    assert(dotted(source) == source);
    let base = Look { tone: Tone::Foreground, bold: false, panel: false };
    law_plain_text_stays(source, base);
    law_lines_are_their_spans(
        one("  │ "@, plain(Tone::Foreground)),
        inline_from(source, base, 0),
        "  │ "@,
        plain(Tone::Foreground),
    );
    law_lines_are_their_spans(
        one("  "@, plain(Tone::Foreground)),
        inline_from(source, base, 0),
        "  "@,
        plain(Tone::Foreground),
    );
}

/// Rows are as wide as the screen, and have room for one character at least.
pub proof fn law_the_width_of_rows(width: u16)
    ensures
        row_width(width) >= 1,
        width > 0 ==> row_width(width) == width,
        width == 0 ==> row_width(width) == 1,
{
}

/// The time of tools adds up: that of two groups is that of each, that of one tool is its own,
/// and one whose time is not known adds nothing.
pub proof fn law_times_add_up(a: Seq<ToolView>, b: Seq<ToolView>, t: ToolView)
    ensures
        total_ms(a + b) == total_ms(a) + total_ms(b),
        total_ms(seq![t]) == (match t.duration_ms {
            Some(ms) => ms as int,
            None => 0,
        }),
        total_ms(Seq::empty()) == 0,
    decreases b.len(),
{
    if b.len() == 0 {
        assert(a + b =~= a);
    } else {
        law_times_add_up(a, b.drop_last(), t);
        assert((a + b).drop_last() =~= a + b.drop_last());
        assert((a + b).last() == b.last());
    }
    assert(seq![t].drop_last() =~= Seq::<ToolView>::empty());
    reveal_with_fuel(total_ms, 2);
}

/// Control characters are not shown; every other character is, in its place.
pub proof fn law_which_characters_are_shown(a: Seq<Cell>, b: Seq<Cell>, cell: Cell)
    ensures
        shown_cells(a + b) == shown_cells(a) + shown_cells(b),
        is_control(cell.c) ==> shown_cells(seq![cell]).len() == 0,
        !is_control(cell.c) ==> shown_cells(seq![cell]) == seq![cell],
    decreases b.len(),
{
    if b.len() == 0 {
        assert(a + b =~= a);
        assert(shown_cells(a) + shown_cells(b) =~= shown_cells(a));
    } else {
        law_which_characters_are_shown(a, b.drop_last(), cell);
        assert((a + b).drop_last() =~= a + b.drop_last());
        assert((a + b).last() == b.last());
        assert(shown_cells(a + b) =~= shown_cells(a) + shown_cells(b));
    }
    assert(seq![cell].drop_last() =~= Seq::<Cell>::empty());
    reveal_with_fuel(shown_cells, 2);
    if !is_control(cell.c) {
        assert(shown_cells(seq![cell]) =~= seq![cell]);
    }
}

} // verus!
