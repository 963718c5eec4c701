//! The framebuffer: terminal output collected for one frame, and text laid
//! out in rectangles.
use vstd::prelude::*;

use crossterm::cursor::{Hide, MoveTo, Show};
use crossterm::terminal::{Clear, ClearType};
use crossterm::Command;

use crate::chars::{copy_range, decimal, push_chars, push_repeat, push_str, repeat, str_chars};
use crate::layout::{CellDims, HorizontalAlignment, Pos, Rect, Size};
use crate::style::{csi, AnsiDisplay};
use crate::text::{
    ansi_tokens, chars_width, display_width, grapheme_clusters, split_graphemes_ansi, string_from_chars, text_wrap,
    textwrap_columns, textwrap_filled, unicode_str_columns, GraphemeOrAnsi,
};

verus! {

/// The escape sequence that moves the cursor to a cell (one based on the wire).
pub open spec fn move_to_code(col: u16, row: u16) -> Seq<char> {
    csi() + decimal((row + 1) as nat) + seq![';'] + decimal((col + 1) as nat) + seq!['H']
}

pub open spec fn hide_cursor_code() -> Seq<char> {
    csi() + seq!['?', '2', '5', 'l']
}

pub open spec fn show_cursor_code() -> Seq<char> {
    csi() + seq!['?', '2', '5', 'h']
}

pub open spec fn clear_line_code() -> Seq<char> {
    csi() + seq!['2', 'K']
}

/// `crossterm::cursor::MoveTo` written as ANSI; it adds one to each
/// coordinate, so neither may be at its maximum.
#[verifier::external_body]
fn crossterm_move_to(col: u16, row: u16) -> (r: Vec<char>)
    requires
        col < u16::MAX,
        row < u16::MAX,
    ensures
        r@ == move_to_code(col, row),
{
    let mut s = String::new();
    let _ = MoveTo(col, row).write_ansi(&mut s);
    s.chars().collect()
}

/// `crossterm::cursor::Hide` written as ANSI.
#[verifier::external_body]
fn crossterm_hide() -> (r: Vec<char>)
    ensures
        r@ == hide_cursor_code(),
{
    let mut s = String::new();
    let _ = Hide.write_ansi(&mut s);
    s.chars().collect()
}

/// `crossterm::cursor::Show` written as ANSI.
#[verifier::external_body]
fn crossterm_show() -> (r: Vec<char>)
    ensures
        r@ == show_cursor_code(),
{
    let mut s = String::new();
    let _ = Show.write_ansi(&mut s);
    s.chars().collect()
}

/// `crossterm::terminal::Clear(ClearType::CurrentLine)` written as ANSI.
#[verifier::external_body]
fn crossterm_clear_line() -> (r: Vec<char>)
    ensures
        r@ == clear_line_code(),
{
    let mut s = String::new();
    let _ = Clear(ClearType::CurrentLine).write_ansi(&mut s);
    s.chars().collect()
}

/// The size of the terminal in cells and in pixels.
#[derive(Debug, Clone, Copy, PartialEq, Eq, Structural)]
pub struct TermSize {
    cols: u16,
    rows: u16,
    width: u16,
    height: u16,
}

impl TermSize {
    pub closed spec fn spec_cols(self) -> u16 {
        self.cols
    }

    pub closed spec fn spec_rows(self) -> u16 {
        self.rows
    }

    pub closed spec fn spec_width(self) -> u16 {
        self.width
    }

    pub closed spec fn spec_height(self) -> u16 {
        self.height
    }

    pub fn new(cols: u16, rows: u16, width: u16, height: u16) -> (r: Self)
        ensures
            r.spec_cols() == cols,
            r.spec_rows() == rows,
            r.spec_width() == width,
            r.spec_height() == height,
    {
        TermSize { cols, rows, width, height }
    }

    pub fn window_size(&self) -> (r: Size)
        ensures
            r.cols == self.spec_cols(),
            r.rows == self.spec_rows(),
    {
        Size { cols: self.cols, rows: self.rows }
    }

    /// The pixels of one cell.
    pub fn cell_dims(&self) -> (r: CellDims)
        requires
            self.spec_cols() != 0,
            self.spec_rows() != 0,
        ensures
            r.width == self.spec_width() / self.spec_cols(),
            r.height == self.spec_height() / self.spec_rows(),
    {
        CellDims { width: self.width / self.cols, height: self.height / self.rows }
    }
}

/// How text is laid out in its rectangle.
#[derive(Debug, Clone, Copy, PartialEq, Eq, Structural)]
pub enum TextMode {
    /// A single line; with `fill`, the rest of the line is written with spaces.
    Span { fill: bool },
    /// Wrapped lines, optionally centered vertically.
    Paragraph { center_vertical: bool },
}

#[derive(Debug, Clone, Copy, PartialEq, Eq, Structural)]
pub struct TextOptions {
    pub mode: TextMode,
    pub align: HorizontalAlignment,
}

impl TextOptions {
    pub fn span() -> (r: Self)
        ensures
            r == (TextOptions { mode: TextMode::Span { fill: false }, align: HorizontalAlignment::Left }),
    {
        TextOptions { mode: TextMode::Span { fill: false }, align: HorizontalAlignment::Left }
    }

    pub fn span_fill() -> (r: Self)
        ensures
            r == (TextOptions { mode: TextMode::Span { fill: true }, align: HorizontalAlignment::Left }),
    {
        TextOptions { mode: TextMode::Span { fill: true }, align: HorizontalAlignment::Left }
    }

    pub fn span_center() -> (r: Self)
        ensures
            r == (TextOptions { mode: TextMode::Span { fill: false }, align: HorizontalAlignment::Center }),
    {
        TextOptions { mode: TextMode::Span { fill: false }, align: HorizontalAlignment::Center }
    }

    pub fn span_right() -> (r: Self)
        ensures
            r == (TextOptions { mode: TextMode::Span { fill: false }, align: HorizontalAlignment::Right }),
    {
        TextOptions { mode: TextMode::Span { fill: false }, align: HorizontalAlignment::Right }
    }

    pub fn paragraph() -> (r: Self)
        ensures
            r == (TextOptions {
                mode: TextMode::Paragraph { center_vertical: false },
                align: HorizontalAlignment::Left,
            }),
    {
        TextOptions {
            mode: TextMode::Paragraph { center_vertical: false },
            align: HorizontalAlignment::Left,
        }
    }

    pub fn paragraph_center() -> (r: Self)
        ensures
            r == (TextOptions {
                mode: TextMode::Paragraph { center_vertical: false },
                align: HorizontalAlignment::Center,
            }),
    {
        TextOptions {
            mode: TextMode::Paragraph { center_vertical: false },
            align: HorizontalAlignment::Center,
        }
    }

    pub fn paragraph_right() -> (r: Self)
        ensures
            r == (TextOptions {
                mode: TextMode::Paragraph { center_vertical: false },
                align: HorizontalAlignment::Right,
            }),
    {
        TextOptions {
            mode: TextMode::Paragraph { center_vertical: false },
            align: HorizontalAlignment::Right,
        }
    }
}

impl Default for TextOptions {
    fn default() -> (r: Self)
        ensures
            r == (TextOptions { mode: TextMode::Span { fill: false }, align: HorizontalAlignment::Left }),
    {
        Self::span()
    }
}

/// The index of the first newline from `from` on, if any.
pub open spec fn find_newline(s: Seq<char>, from: int) -> Option<int>
    decreases s.len() - from,
{
    if from < 0 || from >= s.len() {
        None
    } else if s[from] == '\n' {
        Some(from)
    } else {
        find_newline(s, from + 1)
    }
}

/// A line without the carriage return that ends it, if any.
pub open spec fn strip_cr(line: Seq<char>) -> Seq<char> {
    if line.len() > 0 && line.last() == '\r' {
        line.drop_last()
    } else {
        line
    }
}

/// The lines of a text as `str::lines` gives them: split after each newline,
/// a carriage return before the newline dropped, and no empty line after a
/// final newline.
pub open spec fn lines_of(s: Seq<char>) -> Seq<Seq<char>>
    decreases s.len(),
{
    if s.len() == 0 {
        Seq::empty()
    } else {
        match find_newline(s, 0) {
            Some(i) => if 0 <= i < s.len() {
                seq![strip_cr(s.take(i))] + lines_of(s.skip(i + 1))
            } else {
                Seq::empty()
            },
            None => seq![s],
        }
    }
}

proof fn lemma_find_newline(s: Seq<char>, from: int)
    requires
        0 <= from,
    ensures
        find_newline(s, from) matches Some(i) ==> from <= i < s.len() && s[i] == '\n' && forall|
            k: int,
        | from <= k < i ==> s[k] != '\n',
        find_newline(s, from) is None ==> forall|k: int| from <= k < s.len() ==> s[k] != '\n',
    decreases s.len() - from,
{
    if from < s.len() && s[from] != '\n' {
        lemma_find_newline(s, from + 1);
    }
}

proof fn lemma_find_newline_at(s: Seq<char>, from: int, i: int)
    requires
        0 <= from <= i < s.len(),
        s[i] == '\n',
        forall|k: int| from <= k < i ==> s[k] != '\n',
    ensures
        find_newline(s, from) == Some(i),
    decreases i - from,
{
    if from < i {
        lemma_find_newline_at(s, from + 1, i);
    }
}

/// The lines of a text, as `str::lines` splits them.
pub fn lines(s: &[char]) -> (r: Vec<Vec<char>>)
    ensures
        r@.map_values(|l: Vec<char>| l@) == lines_of(s@),
{
    let mut out: Vec<Vec<char>> = Vec::new();
    let mut start: usize = 0;
    let ghost whole = s@;
    assert(whole.skip(0) =~= whole);
    while start < s.len()
        invariant
            whole == s@,
            start <= s@.len(),
            out@.map_values(|l: Vec<char>| l@) + lines_of(whole.skip(start as int)) == lines_of(whole),
        decreases s@.len() - start,
    {
        let ghost rest = whole.skip(start as int);
        let ghost before = out@.map_values(|l: Vec<char>| l@);
        let mut j: usize = start;
        while j < s.len() && s[j] != '\n'
            invariant
                start <= j <= s@.len(),
                forall|k: int| start <= k < j ==> s@[k] != '\n',
            decreases s@.len() - j,
        {
            j = j + 1;
        }
        if j == s.len() {
            proof {
                lemma_find_newline(rest, 0);
                if find_newline(rest, 0) is Some {
                    let i = find_newline(rest, 0)->0;
                    assert(rest[i] == whole[start + i]);
                }
            }
            let line = copy_range(s, start, j);
            out.push(line);
            assert(rest =~= whole.subrange(start as int, j as int));
            assert(out@.map_values(|l: Vec<char>| l@) =~= before.push(rest));
            assert(whole.skip(j as int) =~= Seq::<char>::empty());
            start = j;
        } else {
            proof {
                assert forall|k: int| 0 <= k < j - start implies rest[k] != '\n' by {
                    assert(rest[k] == whole[start + k]);
                }
                assert(rest[j - start] == whole[j as int]);
                lemma_find_newline_at(rest, 0, j - start);
            }
            let mut end: usize = j;
            if end > start && s[end - 1] == '\r' {
                end = end - 1;
            }
            let line = copy_range(s, start, end);
            assert(line@ =~= strip_cr(rest.take(j - start)));
            out.push(line);
            assert(rest.skip(j - start + 1) =~= whole.skip(j as int + 1));
            assert(out@.map_values(|l: Vec<char>| l@) =~= before.push(strip_cr(rest.take(j - start))));
            start = j + 1;
        }
    }
    assert(whole.skip(start as int) =~= Seq::<char>::empty());
    assert(out@.map_values(|l: Vec<char>| l@) =~= lines_of(whole));
    out
}

/// The text written for a span that is wider than the room it has: its
/// graphemes from the left while they fit, and all escape sequences.
pub open spec fn clip_output(tokens: Seq<(bool, Seq<char>)>, width: u16, max_width: u16) -> Seq<char>
    decreases tokens.len(),
{
    if tokens.len() == 0 {
        Seq::empty()
    } else {
        let (is_ansi, t) = tokens[0];
        if is_ansi {
            t + clip_output(tokens.drop_first(), width, max_width)
        } else if width == max_width {
            clip_output(tokens.drop_first(), width, max_width)
        } else {
            let w = unicode_str_columns(t) as u16;
            if w > max_width - width {
                clip_output(tokens.drop_first(), max_width, max_width)
            } else {
                t + clip_output(tokens.drop_first(), (width + w) as u16, max_width)
            }
        }
    }
}

/// The text written for one line of at most `max_width` columns at `pos`.
pub open spec fn span_output(
    pos: Pos,
    max_width: u16,
    text: Seq<char>,
    align: HorizontalAlignment,
    fill: bool,
) -> Seq<char> {
    let dw = textwrap_columns(text) as u16;
    if dw < max_width {
        let start = align.spec_calc(pos.col, max_width, dw);
        if fill {
            let left = (start - pos.col) as nat;
            move_to_code(pos.col, pos.row) + repeat(' ', left) + text + repeat(
                ' ',
                (max_width - (left + dw)) as nat,
            )
        } else {
            move_to_code(start as u16, pos.row) + text
        }
    } else if dw == max_width {
        move_to_code(pos.col, pos.row) + text
    } else {
        move_to_code(pos.col, pos.row) + clip_output(ansi_tokens(grapheme_clusters(text)), 0, max_width)
    }
}

/// The text written for the lines of a paragraph, one per row from `row`,
/// until the rows run out.
pub open spec fn lines_output(
    lines: Seq<Seq<char>>,
    col: u16,
    row: u16,
    max_row: int,
    cols: u16,
    align: HorizontalAlignment,
) -> Seq<char>
    decreases lines.len(),
{
    if lines.len() == 0 {
        Seq::empty()
    } else {
        span_output(Pos { col, row }, cols, lines[0], align, false) + if row + 1 == max_row || row
            + 1 >= u16::MAX {
            Seq::empty()
        } else {
            lines_output(lines.drop_first(), col, (row + 1) as u16, max_row, cols, align)
        }
    }
}

/// The text written for a paragraph in `area`.
pub open spec fn paragraph_output(
    area: Rect,
    text: Seq<char>,
    align: HorizontalAlignment,
    center_vertical: bool,
) -> Seq<char> {
    let ls = lines_of(textwrap_filled(text, area.size.cols as usize));
    let n = ls.len() as u16;
    let rows = if center_vertical && n < area.size.rows { n } else { area.size.rows };
    let row = if center_vertical {
        area.pos.row + area.size.rows.saturating_sub(n) / 2
    } else {
        area.pos.row as int
    };
    lines_output(ls, area.pos.col, row as u16, row + rows, area.size.cols, align)
}

/// A span of `text` in `cols` columns from `col` starts in range: where it
/// is narrower than the columns, the aligned start column fits a `u16`,
/// and is below the last column where the cursor goes there.
pub open spec fn span_fits(col: u16, cols: u16, text: Seq<char>, align: HorizontalAlignment, fill: bool) -> bool {
    let dw = textwrap_columns(text) as u16;
    dw < cols ==> {
        &&& align.spec_calc(col, cols, dw) <= u16::MAX
        &&& !fill ==> align.spec_calc(col, cols, dw) < u16::MAX
    }
}

/// Each line of a paragraph written until the rows run out starts in
/// range.
pub open spec fn lines_fit(lines: Seq<Seq<char>>, col: u16, row: u16, max_row: int, cols: u16, align: HorizontalAlignment) -> bool
    decreases lines.len(),
{
    lines.len() == 0 || {
        &&& span_fits(col, cols, lines[0], align, false)
        &&& (row + 1 == max_row || lines.len() == 1 || (row + 1 < u16::MAX && lines_fit(
            lines.drop_first(),
            col,
            (row + 1) as u16,
            max_row,
            cols,
            align,
        )))
    }
}

/// Rendering `text` in `area` stays within the cursor's range: a span
/// starts in range, and a paragraph's rows (as centred, where they are)
/// end by the last row, each line starting in range.
pub open spec fn render_fits(area: Rect, options: TextOptions, text: Seq<char>) -> bool {
    ||| text.len() == 0
    ||| area.size.spec_is_empty()
    ||| match options.mode {
        TextMode::Span { fill } => span_fits(area.pos.col, area.size.cols, text, options.align, fill),
        TextMode::Paragraph { center_vertical } => {
            let ls = lines_of(textwrap_filled(text, area.size.cols as usize));
            let n = ls.len() as u16;
            let rows = if center_vertical && n < area.size.rows { n } else { area.size.rows };
            let row = if center_vertical {
                area.pos.row + area.size.rows.saturating_sub(n) / 2
            } else {
                area.pos.row as int
            };
            &&& row < u16::MAX
            &&& row + rows <= u16::MAX
            &&& lines_fit(ls, area.pos.col, row as u16, row + rows, area.size.cols, options.align)
        },
    }
}

/// Whether a span `dw` columns wide starts in range in `cols` columns
/// from `col` (see `span_fits`).
fn span_starts_in_range(col: u16, cols: u16, dw: u16, align: HorizontalAlignment, fill: bool) -> (r: bool)
    ensures
        r == (dw < cols ==> {
            &&& align.spec_calc(col, cols, dw) <= u16::MAX
            &&& !fill ==> align.spec_calc(col, cols, dw) < u16::MAX
        }),
{
    if dw >= cols {
        return true;
    }
    let start: u32 = match align {
        HorizontalAlignment::Left => col as u32,
        HorizontalAlignment::Center => col as u32 + ((cols - dw) / 2) as u32,
        HorizontalAlignment::Right => col as u32 + (cols - dw) as u32,
    };
    start <= 65535 && (fill || start < 65535)
}

/// The text written when `text` is rendered in `area`.
pub open spec fn render_output(area: Rect, options: TextOptions, text: Seq<char>) -> Seq<char> {
    if text.len() == 0 || area.size.spec_is_empty() {
        move_to_code(area.pos.col, area.pos.row)
    } else {
        match options.mode {
            TextMode::Span { fill } => span_output(area.pos, area.size.cols, text, options.align, fill),
            TextMode::Paragraph { center_vertical } => paragraph_output(
                area,
                text,
                options.align,
                center_vertical,
            ),
        }
    }
}

/// Where the cells of an area are all addressable by the cursor.
pub open spec fn area_fits(area: Rect) -> bool {
    &&& area.pos.col < u16::MAX
    &&& area.pos.row < u16::MAX
    &&& area.spec_right_out() <= u16::MAX
    &&& area.spec_bottom_out() <= u16::MAX
}

/// Terminal output collected for one frame, and text waiting to be laid out.
pub struct Framebuffer {
    buf: Vec<char>,
    text: Vec<char>,
    size: TermSize,
}

impl Framebuffer {
    /// What is queued for the terminal.
    pub closed spec fn output(self) -> Seq<char> {
        self.buf@
    }

    /// Text pushed and waiting for `render`.
    pub closed spec fn pending(self) -> Seq<char> {
        self.text@
    }

    pub closed spec fn spec_size(self) -> TermSize {
        self.size
    }

    pub fn new(size: TermSize) -> (r: Self)
        ensures
            r.output() == Seq::<char>::empty(),
            r.pending() == Seq::<char>::empty(),
            r.spec_size() == size,
    {
        Framebuffer { buf: Vec::new(), text: Vec::new(), size }
    }

    /// Records a new terminal size.
    pub fn set_size(&mut self, size: TermSize)
        ensures
            final(self).output() == old(self).output(),
            final(self).pending() == old(self).pending(),
            final(self).spec_size() == size,
    {
        self.size = size;
    }

    /// The whole window.
    pub fn area(&self) -> (r: Rect)
        ensures
            r.pos == (Pos { col: 0, row: 0 }),
            r.size == (Size { cols: self.spec_size().spec_cols(), rows: self.spec_size().spec_rows() }),
    {
        Rect::new(Pos::zero(), self.size.window_size())
    }

    pub fn window_size(&self) -> (r: Size)
        ensures
            r == (Size { cols: self.spec_size().spec_cols(), rows: self.spec_size().spec_rows() }),
    {
        self.size.window_size()
    }

    pub fn cell_dims(&self) -> (r: CellDims)
        requires
            self.spec_size().spec_cols() != 0,
            self.spec_size().spec_rows() != 0,
        ensures
            r.width == self.spec_size().spec_width() / self.spec_size().spec_cols(),
            r.height == self.spec_size().spec_height() / self.spec_size().spec_rows(),
    {
        self.size.cell_dims()
    }

    pub fn cursor_hide(&mut self)
        ensures
            final(self).output() == old(self).output() + hide_cursor_code(),
            final(self).pending() == old(self).pending(),
            final(self).spec_size() == old(self).spec_size(),
    {
        let code = crossterm_hide();
        push_chars(&mut self.buf, code.as_slice());
    }

    pub fn cursor_show(&mut self)
        ensures
            final(self).output() == old(self).output() + show_cursor_code(),
            final(self).pending() == old(self).pending(),
            final(self).spec_size() == old(self).spec_size(),
    {
        let code = crossterm_show();
        push_chars(&mut self.buf, code.as_slice());
    }

    pub fn cursor_move(&mut self, pos: Pos)
        requires
            pos.col < u16::MAX,
            pos.row < u16::MAX,
        ensures
            final(self).output() == old(self).output() + move_to_code(pos.col, pos.row),
            final(self).pending() == old(self).pending(),
            final(self).spec_size() == old(self).spec_size(),
    {
        let code = crossterm_move_to(pos.col, pos.row);
        push_chars(&mut self.buf, code.as_slice());
    }

    pub fn print_ch(&mut self, ch: char)
        ensures
            final(self).output() == old(self).output().push(ch),
            final(self).pending() == old(self).pending(),
            final(self).spec_size() == old(self).spec_size(),
    {
        self.buf.push(ch);
    }

    pub fn print_ch_repeat(&mut self, ch: char, n: u16)
        ensures
            final(self).output() == old(self).output() + repeat(ch, n as nat),
            final(self).pending() == old(self).pending(),
            final(self).spec_size() == old(self).spec_size(),
    {
        push_repeat(&mut self.buf, ch, n as usize);
    }

    pub fn print_str(&mut self, s: &str)
        ensures
            final(self).output() == old(self).output() + s@,
            final(self).pending() == old(self).pending(),
            final(self).spec_size() == old(self).spec_size(),
    {
        push_str(&mut self.buf, s);
    }

    /// Queues characters as they are.
    pub fn print_chars(&mut self, s: &[char])
        ensures
            final(self).output() == old(self).output() + s@,
            final(self).pending() == old(self).pending(),
            final(self).spec_size() == old(self).spec_size(),
    {
        push_chars(&mut self.buf, s);
    }

    pub fn print_fmt<D: AnsiDisplay>(&mut self, content: D)
        ensures
            final(self).output() == old(self).output() + content.ansi(),
            final(self).pending() == old(self).pending(),
            final(self).spec_size() == old(self).spec_size(),
    {
        content.write_ansi(&mut self.buf);
    }

    pub fn push_ch(&mut self, ch: char)
        ensures
            final(self).pending() == old(self).pending().push(ch),
            final(self).output() == old(self).output(),
            final(self).spec_size() == old(self).spec_size(),
    {
        self.text.push(ch);
    }

    pub fn push_ch_repeat(&mut self, ch: char, n: u16)
        ensures
            final(self).pending() == old(self).pending() + repeat(ch, n as nat),
            final(self).output() == old(self).output(),
            final(self).spec_size() == old(self).spec_size(),
    {
        push_repeat(&mut self.text, ch, n as usize);
    }

    pub fn push_str(&mut self, s: &str)
        ensures
            final(self).pending() == old(self).pending() + s@,
            final(self).output() == old(self).output(),
            final(self).spec_size() == old(self).spec_size(),
    {
        push_str(&mut self.text, s);
    }

    pub fn push_fmt<D: AnsiDisplay>(&mut self, content: D)
        ensures
            final(self).pending() == old(self).pending() + content.ansi(),
            final(self).output() == old(self).output(),
            final(self).spec_size() == old(self).spec_size(),
    {
        content.write_ansi(&mut self.text);
    }

    /// Drops what was queued and pushed.
    pub fn clear(&mut self)
        ensures
            final(self).output() == Seq::<char>::empty(),
            final(self).pending() == Seq::<char>::empty(),
            final(self).spec_size() == old(self).spec_size(),
    {
        self.buf.clear();
        self.text.clear();
    }

    /// What goes to the terminal for this frame, after which the framebuffer
    /// is empty: nothing when the window is smaller than two cells either
    /// way, otherwise a clear of every line followed by the queued output.
    pub fn flush_output(&mut self) -> (r: Option<Vec<char>>)
        ensures
            final(self).output() == Seq::<char>::empty(),
            final(self).pending() == Seq::<char>::empty(),
            final(self).spec_size() == old(self).spec_size(),
            old(self).spec_size().spec_cols() < 2 || old(self).spec_size().spec_rows() < 2 ==> r is None,
            !(old(self).spec_size().spec_cols() < 2 || old(self).spec_size().spec_rows() < 2) ==> (
            r matches Some(out) && out@ == clear_lines(old(self).spec_size().spec_rows() as nat)
                + old(self).output()),
    {
        if self.size.window_size().is_less(2) {
            self.clear();
            return None;
        }
        let mut out: Vec<char> = Vec::new();
        let mut i: u16 = 0;
        while i < self.size.rows
            invariant
                out@ == clear_lines(i as nat),
                i <= self.size.rows,
            decreases self.size.rows - i,
        {
            let mv = crossterm_move_to(0, i);
            push_chars(&mut out, mv.as_slice());
            let cl = crossterm_clear_line();
            push_chars(&mut out, cl.as_slice());
            assert(out@ =~= clear_lines(i as nat + 1));
            i = i + 1;
        }
        push_chars(&mut out, self.buf.as_slice());
        self.clear();
        Some(out)
    }

    /// The queued output as a string.
    pub fn output_string(&self) -> (r: String)
        ensures
            r@ == self.output(),
    {
        string_from_chars(self.buf.as_slice())
    }

    fn render_span(
        &mut self,
        pos: Pos,
        max_width: u16,
        text: &[char],
        align: HorizontalAlignment,
        fill: bool,
    )
        requires
            pos.col < u16::MAX,
            pos.row < u16::MAX,
            span_fits(pos.col, max_width, text@, align, fill),
        ensures
            final(self).output() == old(self).output() + span_output(pos, max_width, text@, align, fill),
            final(self).pending() == old(self).pending(),
            final(self).spec_size() == old(self).spec_size(),
    {
        let st = string_from_chars(text);
        let display_width: u16 = crate::text::display_width(st.as_str());
        if display_width < max_width {
            let start_text_col: u16 = align.calc(pos.col, max_width, display_width);
            if fill {
                self.cursor_move(pos);
                let empty_left_count: u16 = start_text_col - pos.col;
                self.print_ch_repeat(' ', empty_left_count);
                self.print_chars(text);
                let empty_right_count: u16 = max_width - (empty_left_count + display_width);
                self.print_ch_repeat(' ', empty_right_count);
            } else {
                self.cursor_move(pos.with_col(start_text_col));
                self.print_chars(text);
            }
        } else if display_width == max_width {
            self.cursor_move(pos);
            self.print_chars(text);
        } else {
            self.cursor_move(pos);
            let ghost before = self.buf@;
            let tokens = split_graphemes_ansi(text);
            let ghost all = tokens@.map_values(|t: GraphemeOrAnsi| (t.is_ansi(), t.text()));
            let mut width: u16 = 0;
            let mut i: usize = 0;
            assert(all.skip(0) =~= all);
            while i < tokens.len()
                invariant
                    all == tokens@.map_values(|t: GraphemeOrAnsi| (t.is_ansi(), t.text())),
                    i <= tokens@.len(),
                    width <= max_width,
                    self.buf@ + clip_output(all.skip(i as int), width, max_width) == before
                        + clip_output(all, 0, max_width),
                    self.text@ == old(self).text@,
                    self.size == old(self).size,
                decreases tokens@.len() - i,
            {
                let ghost rest = all.skip(i as int);
                assert(rest[0] == (tokens@[i as int].is_ansi(), tokens@[i as int].text()));
                assert(rest.drop_first() =~= all.skip(i as int + 1));
                match &tokens[i] {
                    GraphemeOrAnsi::Grapheme(g) => {
                        if width == max_width {
                        } else {
                            let w: u16 = chars_width(g.as_slice());
                            if w > max_width - width {
                                width = max_width;
                            } else {
                                width = width + w;
                                self.print_chars(g.as_slice());
                                assert(self.buf@ + clip_output(all.skip(i as int + 1), width, max_width)
                                    =~= before + clip_output(all, 0, max_width));
                            }
                        }
                    },
                    GraphemeOrAnsi::Ansi(s) => {
                        self.print_chars(s.as_slice());
                        assert(self.buf@ + clip_output(all.skip(i as int + 1), width, max_width)
                            =~= before + clip_output(all, 0, max_width));
                    },
                }
                i = i + 1;
            }
            assert(all.skip(i as int) =~= Seq::<(bool, Seq<char>)>::empty());
            assert(self.buf@ =~= before + clip_output(all, 0, max_width));
        }
    }

    /// Renders as `render` does where what it writes stays within the
    /// cursor's range (`render_fits`); returns whether it did, and
    /// otherwise changes nothing.
    pub fn try_render(&mut self, area: Rect, options: TextOptions) -> (r: bool)
        requires
            area.pos.col < u16::MAX,
            area.pos.row < u16::MAX,
        ensures
            r == render_fits(area, options, old(self).pending()),
            r ==> final(self).output() == old(self).output() + render_output(area, options, old(self).pending())
                && final(self).pending() == Seq::<char>::empty()
                && final(self).spec_size() == old(self).spec_size(),
            !r ==> *final(self) == *old(self),
    {
        if self.text.len() == 0 || area.is_empty() {
            self.render(area, options);
            return true;
        }
        let fits = match options.mode {
            TextMode::Span { fill } => {
                let st = string_from_chars(self.text.as_slice());
                span_starts_in_range(area.pos.col, area.size.cols, display_width(st.as_str()), options.align, fill)
            },
            TextMode::Paragraph { center_vertical } => {
                let mut st = string_from_chars(self.text.as_slice());
                text_wrap(&mut st, area.size.cols);
                let wrapped = str_chars(st.as_str());
                let ls = lines(wrapped.as_slice());
                let n: u16 = #[verifier::truncate] (ls.len() as u16);
                let mut rows: u16 = area.size.rows;
                let mut first: u32 = area.pos.row as u32;
                if center_vertical {
                    rows = if n < area.size.rows { n } else { area.size.rows };
                    first = area.pos.row as u32 + (area.size.rows.saturating_sub(n) / 2) as u32;
                }
                if first >= 65535 || first + rows as u32 > 65535 {
                    false
                } else {
                    let mut row: u16 = first as u16;
                    let max_row: u16 = row + rows;
                    let ghost all = ls@.map_values(|l: Vec<char>| l@);
                    let ghost start_row = row;
                    let mut ok = true;
                    let mut i: usize = 0;
                    assert(all.skip(0) =~= all);
                    while i < ls.len()
                        invariant_except_break
                            lines_fit(all.skip(i as int), area.pos.col, row, max_row as int, area.size.cols, options.align)
                                == lines_fit(all, area.pos.col, start_row, max_row as int, area.size.cols, options.align),
                            ok,
                        invariant
                            all == ls@.map_values(|l: Vec<char>| l@),
                            i <= ls@.len(),
                            row < u16::MAX,
                            max_row <= u16::MAX,
                        ensures
                            ok == lines_fit(all, area.pos.col, start_row, max_row as int, area.size.cols, options.align),
                        decreases ls@.len() - i,
                    {
                        let ghost rest = all.skip(i as int);
                        assert(rest[0] == ls@[i as int]@);
                        assert(rest.drop_first() =~= all.skip(i as int + 1));
                        let line = string_from_chars(ls[i].as_slice());
                        if !span_starts_in_range(area.pos.col, area.size.cols, display_width(line.as_str()), options.align, false) {
                            ok = false;
                            break;
                        }
                        if row + 1 == max_row || i + 1 == ls.len() {
                            break;
                        }
                        if row + 1 == u16::MAX {
                            ok = false;
                            break;
                        }
                        row = row + 1;
                        i = i + 1;
                        if i == ls.len() {
                            assert(all.skip(i as int) =~= Seq::<Seq<char>>::empty());
                        }
                    }
                    ok
                }
            },
        };
        if fits {
            self.render(area, options);
        }
        fits
    }

    /// Lays out the pushed text in `area`, queues it, and empties the
    /// pushed text. The cursor is left at the area when there is nothing
    /// to show.
    pub fn render(&mut self, area: Rect, options: TextOptions)
        requires
            area.pos.col < u16::MAX,
            area.pos.row < u16::MAX,
            render_fits(area, options, old(self).pending()),
        ensures
            final(self).output() == old(self).output() + render_output(area, options, old(self).pending()),
            final(self).pending() == Seq::<char>::empty(),
            final(self).spec_size() == old(self).spec_size(),
    {
        if self.text.len() == 0 {
            self.cursor_move(area.pos);
            return;
        }
        if area.is_empty() {
            self.cursor_move(area.pos);
            self.text.clear();
            return;
        }
        let mut text: Vec<char> = Vec::new();
        std::mem::swap(&mut text, &mut self.text);
        match options.mode {
            TextMode::Span { fill } => {
                self.render_span(area.pos, area.size.cols, text.as_slice(), options.align, fill);
            },
            TextMode::Paragraph { center_vertical } => {
                let mut st = string_from_chars(text.as_slice());
                text_wrap(&mut st, area.size.cols);
                let wrapped = str_chars(st.as_str());
                let ls = lines(wrapped.as_slice());
                let n: u16 = #[verifier::truncate] (ls.len() as u16);
                let mut row: u16 = area.pos.row;
                let mut rows: u16 = area.size.rows;
                if center_vertical {
                    rows = if n < area.size.rows { n } else { area.size.rows };
                    row = area.pos.row + area.size.rows.saturating_sub(n) / 2;
                }
                let max_row: u16 = row + rows;
                let ghost all = ls@.map_values(|l: Vec<char>| l@);
                let ghost before = self.buf@;
                let mut i: usize = 0;
                assert(all.skip(0) =~= all);
                while i < ls.len()
                    invariant_except_break
                        self.buf@ + lines_output(all.skip(i as int), area.pos.col, row, max_row as int, area.size.cols, options.align)
                            == before + lines_output(all, area.pos.col, old_row(area, center_vertical, n), max_row as int, area.size.cols, options.align),
                    invariant
                        all == ls@.map_values(|l: Vec<char>| l@),
                        i <= ls@.len(),
                        row < u16::MAX,
                        area.pos.col < u16::MAX,
                        lines_fit(all.skip(i as int), area.pos.col, row, max_row as int, area.size.cols, options.align),
                        max_row <= u16::MAX,
                        self.text@ == Seq::<char>::empty(),
                        self.size == old(self).size,
                    ensures
                        self.buf@ == before + lines_output(all, area.pos.col, old_row(area, center_vertical, n), max_row as int, area.size.cols, options.align),
                    decreases ls@.len() - i,
                {
                    let ghost rest = all.skip(i as int);
                    assert(rest[0] == ls@[i as int]@);
                    assert(rest.drop_first() =~= all.skip(i as int + 1));
                    self.render_span(Pos::new(area.pos.col, row), area.size.cols, ls[i].as_slice(), options.align, false);
                    if row + 1 == max_row || row + 1 == u16::MAX {
                        assert(self.buf@ =~= before + lines_output(all, area.pos.col, old_row(area, center_vertical, n), max_row as int, area.size.cols, options.align));
                        break;
                    }
                    row = row + 1;
                    i = i + 1;
                    if i == ls.len() {
                        assert(all.skip(i as int) =~= Seq::<Seq<char>>::empty());
                    }
                }
            },
        }
    }
}

/// The first row of a paragraph.
pub open spec fn old_row(area: Rect, center_vertical: bool, n: u16) -> u16 {
    if center_vertical {
        (area.pos.row + area.size.rows.saturating_sub(n) / 2) as u16
    } else {
        area.pos.row
    }
}

/// Moves to each of the first `n` rows and clears it.
pub open spec fn clear_lines(n: nat) -> Seq<char>
    decreases n,
{
    if n == 0 {
        Seq::empty()
    } else {
        clear_lines((n - 1) as nat) + move_to_code(0, (n - 1) as u16) + clear_line_code()
    }
}

} // verus!
