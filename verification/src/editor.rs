//! A multi-line text input: the text is wrapped to the area's width, laid out
//! in visual lines, and the cursor moves over graphemes and between lines.
use vstd::prelude::*;

use core::ops::Range;

use crate::chars::{copy_range, hash_fast, hash_of, str_chars};
use crate::input::{KeyCode, KeyModifiers};
use crate::layout::{Pos, Rect, Size};
use crate::prompt::{cut, delete_range, option_eq, placeholder_output, remove_range};
use crate::scroll::{Scroll, ScrollData, ScrollMargins, spec_scroll};
use crate::style::{AnsiDisplay, Color, Sgr};
use crate::term::{move_to_code, Framebuffer, TextOptions, area_fits};
use crate::text::{
    chars_width, ends_in_lone_ascii, first_grapheme_len, grapheme_chars, grapheme_clusters, last_grapheme_len,
    string_from_chars, text_wrap, textwrap_filled, unicode_str_columns,
};

verus! {

pub struct EditorColors {
    pub placeholder: Color,
    pub disabled: Color,
}

impl EditorColors {
    pub fn new() -> (r: Self)
        ensures
            r.placeholder == Color::Indexed(240),
            r.disabled == Color::Indexed(238),
    {
        EditorColors { placeholder: Color::Indexed(240), disabled: Color::Indexed(238) }
    }

    pub fn all(color: Color) -> (r: Self)
        ensures
            r.placeholder == color,
            r.disabled == color,
    {
        EditorColors { placeholder: color, disabled: color }
    }
}

impl Default for EditorColors {
    fn default() -> (r: Self)
        ensures
            r.placeholder == Color::Indexed(240),
            r.disabled == Color::Indexed(238),
    {
        Self::new()
    }
}

/// The columns a grapheme takes in an editor: four for a tab.
pub open spec fn editor_gwidth(g: Seq<char>) -> u16 {
    if g == seq!['\t'] {
        4
    } else {
        unicode_str_columns(g) as u16
    }
}

/// What an editor shows for a grapheme: four spaces for a tab, one space
/// for a line break.
pub open spec fn editor_grender(g: Seq<char>) -> Seq<char> {
    if g == seq!['\t'] {
        seq![' ', ' ', ' ', ' ']
    } else if g == seq!['\r', '\n'] || g == seq!['\n'] {
        seq![' ']
    } else {
        g
    }
}

/// The widths of graphemes added up in u16, wrapping.
pub open spec fn editor_widths(gs: Seq<Seq<char>>) -> u16
    decreases gs.len(),
{
    if gs.len() == 0 {
        0
    } else {
        editor_widths(gs.drop_last()).wrapping_add(editor_gwidth(gs.last()))
    }
}

/// The width of a text in an editor.
pub open spec fn editor_text_width(s: Seq<char>) -> u16 {
    editor_widths(grapheme_clusters(s))
}

/// Visual lines, as ranges of the wrapped text, that follow each other
/// without gap from its start to its end (or no lines at all).
pub open spec fn lines_cover(ls: Seq<(int, int)>, len: int) -> bool {
    ls.len() == 0 || {
        &&& ls[0].0 == 0
        &&& ls.last().1 == len
        &&& forall|k: int| 0 <= k < ls.len() ==> #[trigger] ls[k].0 <= ls[k].1
        &&& forall|k: int| 0 <= k < ls.len() - 1 ==> #[trigger] ls[k].1 == ls[k + 1].0
    }
}

/// The visual lines of the graphemes `gs`, which start at `pos`, where the
/// current line started at `start` and has `column` columns: a line ends
/// after a grapheme holding a line break, and before a grapheme that does
/// not fit in `max` columns. The last line runs to the end.
pub open spec fn layout(gs: Seq<Seq<char>>, pos: int, start: int, column: int, max: int) -> Seq<(int, int)>
    decreases gs.len(),
{
    if gs.len() == 0 {
        seq![(start, pos)]
    } else {
        let g = gs[0];
        let next = pos + g.len();
        if g.contains('\n') {
            seq![(start, next)] + layout(gs.drop_first(), next, next, 0, max)
        } else if column + editor_gwidth(g) > max {
            seq![(start, pos)] + layout(gs.drop_first(), next, pos, editor_gwidth(g) as int, max)
        } else {
            layout(gs.drop_first(), next, start, column + editor_gwidth(g), max)
        }
    }
}

/// How many lines, from the first, end at or before `index`.
pub open spec fn rows_before(ls: Seq<(int, int)>, index: int) -> nat
    decreases ls.len(),
{
    if ls.len() == 0 || ls[0].1 > index {
        0
    } else {
        1 + rows_before(ls.drop_first(), index)
    }
}

/// The visual line that holds `index`: the first that ends after it, or
/// the last.
pub open spec fn row_of(ls: Seq<(int, int)>, index: int) -> u16 {
    let n = rows_before(ls, index);
    (if ls.len() == 0 { 0 } else if n < ls.len() - 1 { n as int } else { ls.len() - 1 }) as u16
}

/// Where `index` is shown: its line, and the width of that line up to it.
pub open spec fn pos_of(wrapped: Seq<char>, ls: Seq<(int, int)>, index: int) -> Pos {
    if ls.len() == 0 {
        Pos { col: 0, row: 0 }
    } else {
        let row = row_of(ls, index);
        let (s, e) = ls[row as int];
        let n = if index < s { 0 } else if index - s < e - s { index - s } else { e - s };
        Pos { col: editor_text_width(wrapped.subrange(s, s + n)), row }
    }
}

/// The index after the graphemes of a line that fit in `target` columns,
/// stopping at a line break.
pub open spec fn col_walk(gs: Seq<Seq<char>>, target: int, column: int, index: int) -> int
    decreases gs.len(),
{
    if gs.len() == 0 || gs[0].contains('\n') || column + editor_gwidth(gs[0]) > target {
        index
    } else {
        col_walk(gs.drop_first(), target, column + editor_gwidth(gs[0]), index + gs[0].len())
    }
}

/// The index in line `row` at column `target`, kept within the text.
pub open spec fn index_at(wrapped: Seq<char>, ls: Seq<(int, int)>, row: int, target: int, len: int) -> int {
    let (s, e) = ls[row];
    let i = col_walk(grapheme_clusters(wrapped.subrange(s, e)), target, 0, s);
    if i < len { i } else { len }
}

#[derive(Clone, Copy)]
struct VisualLine {
    start: usize,
    end: usize,
}

spec fn lines_view(v: Seq<VisualLine>) -> Seq<(int, int)> {
    v.map_values(|l: VisualLine| (l.start as int, l.end as int))
}

/// A multi-line text input.
pub struct Editor {
    input: Vec<char>,
    cursor: usize,
    selector: Option<usize>,
    placeholder: &'static str,
    wrapped: Vec<char>,
    lines: Vec<VisualLine>,
    preferred_column: u16,
    scroll: u16,
    margins: u16,
    disabled: bool,
    colors: EditorColors,
    area_pos: Pos,
    last_size: Size,
    last_hash: u64,
}

impl Editor {
    /// The cursor and the selector stay within the text, and the visual
    /// lines tile the wrapped text.
    #[verifier::type_invariant]
    spec fn inv(self) -> bool {
        &&& self.cursor <= self.input@.len()
        &&& self.selector matches Some(s) ==> s <= self.input@.len()
        &&& lines_cover(lines_view(self.lines@), self.wrapped@.len() as int)
    }

    pub closed spec fn text(&self) -> Seq<char> {
        self.input@
    }

    /// The cursor, as a number of characters before it.
    pub closed spec fn spec_cursor(&self) -> usize {
        self.cursor
    }

    pub closed spec fn spec_selector(&self) -> Option<usize> {
        self.selector
    }

    /// The text as last wrapped for display.
    pub closed spec fn spec_wrapped(&self) -> Seq<char> {
        self.wrapped@
    }

    /// The visual lines, as ranges of the wrapped text.
    pub closed spec fn spec_lines(&self) -> Seq<(int, int)> {
        lines_view(self.lines@)
    }

    /// The column that moves up and down aim for.
    pub closed spec fn spec_preferred_column(&self) -> u16 {
        self.preferred_column
    }

    pub closed spec fn spec_scroll(&self) -> u16 {
        self.scroll
    }

    pub closed spec fn spec_placeholder(&self) -> Seq<char> {
        self.placeholder@
    }

    pub closed spec fn spec_margins(&self) -> u16 {
        self.margins
    }

    pub closed spec fn spec_disabled(&self) -> bool {
        self.disabled
    }

    pub closed spec fn spec_placeholder_color(&self) -> Color {
        self.colors.placeholder
    }

    pub closed spec fn spec_disabled_color(&self) -> Color {
        self.colors.disabled
    }

    pub closed spec fn spec_area_pos(&self) -> Pos {
        self.area_pos
    }

    pub closed spec fn spec_last_size(&self) -> Size {
        self.last_size
    }

    pub closed spec fn spec_last_hash(&self) -> u64 {
        self.last_hash
    }

    pub open spec fn edit_state(&self) -> (Seq<char>, usize, Option<usize>) {
        (self.text(), self.spec_cursor(), self.spec_selector())
    }

    /// Where the cursor is in the visual lines.
    pub open spec fn spec_cursor_pos(&self) -> Pos {
        pos_of(self.spec_wrapped(), self.spec_lines(), self.spec_cursor() as int)
    }

    /// Everything but the text, the cursor and the selector is as in `other`.
    pub open spec fn same_settings(&self, other: &Editor) -> bool {
        &&& self.spec_wrapped() == other.spec_wrapped()
        &&& self.spec_lines() == other.spec_lines()
        &&& self.spec_preferred_column() == other.spec_preferred_column()
        &&& self.spec_scroll() == other.spec_scroll()
        &&& self.spec_placeholder() == other.spec_placeholder()
        &&& self.spec_margins() == other.spec_margins()
        &&& self.spec_disabled() == other.spec_disabled()
        &&& self.spec_placeholder_color() == other.spec_placeholder_color()
        &&& self.spec_disabled_color() == other.spec_disabled_color()
        &&& self.spec_area_pos() == other.spec_area_pos()
        &&& self.spec_last_size() == other.spec_last_size()
        &&& self.spec_last_hash() == other.spec_last_hash()
    }

    /// Everything but the disabled flag and the colors is as in `other`.
    pub open spec fn same_but_looks(&self, other: &Editor) -> bool {
        &&& self.edit_state() == other.edit_state()
        &&& self.spec_wrapped() == other.spec_wrapped()
        &&& self.spec_lines() == other.spec_lines()
        &&& self.spec_preferred_column() == other.spec_preferred_column()
        &&& self.spec_scroll() == other.spec_scroll()
        &&& self.spec_placeholder() == other.spec_placeholder()
        &&& self.spec_margins() == other.spec_margins()
        &&& self.spec_area_pos() == other.spec_area_pos()
        &&& self.spec_last_size() == other.spec_last_size()
        &&& self.spec_last_hash() == other.spec_last_hash()
    }

    pub fn new() -> (r: Self)
        ensures
            r.text() == Seq::<char>::empty(),
            r.spec_cursor() == 0,
            r.spec_selector() is None,
            r.spec_placeholder() == Seq::<char>::empty(),
            r.spec_wrapped() == Seq::<char>::empty(),
            r.spec_lines() == Seq::<(int, int)>::empty(),
            r.spec_preferred_column() == 0,
            r.spec_scroll() == 0,
            r.spec_margins() == 0,
            !r.spec_disabled(),
            r.spec_placeholder_color() == Color::Indexed(240),
            r.spec_disabled_color() == Color::Indexed(238),
            r.spec_area_pos() == (Pos { col: 0, row: 0 }),
            r.spec_last_size() == (Size { cols: 0, rows: 0 }),
            r.spec_last_hash() == 0,
    {
        let e = Editor {
            input: Vec::new(),
            cursor: 0,
            selector: None,
            placeholder: "",
            wrapped: Vec::new(),
            lines: Vec::new(),
            preferred_column: 0,
            scroll: 0,
            margins: 0,
            disabled: false,
            colors: EditorColors::new(),
            area_pos: Pos::zero(),
            last_size: Size::zero(),
            last_hash: 0,
        };
        proof {
            reveal_strlit("");
            assert(e.placeholder@ =~= Seq::<char>::empty());
            assert(lines_view(e.lines@) =~= Seq::<(int, int)>::empty());
        }
        e
    }

    pub fn with_placeholder(self, s: &'static str) -> (r: Self)
        ensures
            r.spec_placeholder() == s@,
            r.edit_state() == self.edit_state(),
            r.spec_wrapped() == self.spec_wrapped(),
            r.spec_lines() == self.spec_lines(),
            r.spec_preferred_column() == self.spec_preferred_column(),
            r.spec_scroll() == self.spec_scroll(),
            r.spec_margins() == self.spec_margins(),
            r.spec_disabled() == self.spec_disabled(),
            r.spec_placeholder_color() == self.spec_placeholder_color(),
            r.spec_disabled_color() == self.spec_disabled_color(),
            r.spec_area_pos() == self.spec_area_pos(),
            r.spec_last_size() == self.spec_last_size(),
            r.spec_last_hash() == self.spec_last_hash(),
    {
        proof {
            use_type_invariant(&self);
        }
        let mut e = self;
        e.placeholder = s;
        e
    }

    pub fn with_colors(self, colors: EditorColors) -> (r: Self)
        ensures
            r.spec_placeholder_color() == colors.placeholder,
            r.spec_disabled_color() == colors.disabled,
            r.spec_disabled() == self.spec_disabled(),
            r.same_but_looks(&self),
    {
        proof {
            use_type_invariant(&self);
        }
        let mut e = self;
        e.colors = colors;
        e
    }

    pub fn with_margins(self, vertical: u16) -> (r: Self)
        ensures
            r.spec_margins() == vertical,
            r.edit_state() == self.edit_state(),
            r.spec_wrapped() == self.spec_wrapped(),
            r.spec_lines() == self.spec_lines(),
            r.spec_preferred_column() == self.spec_preferred_column(),
            r.spec_scroll() == self.spec_scroll(),
            r.spec_placeholder() == self.spec_placeholder(),
            r.spec_disabled() == self.spec_disabled(),
            r.spec_placeholder_color() == self.spec_placeholder_color(),
            r.spec_disabled_color() == self.spec_disabled_color(),
            r.spec_area_pos() == self.spec_area_pos(),
            r.spec_last_size() == self.spec_last_size(),
            r.spec_last_hash() == self.spec_last_hash(),
    {
        proof {
            use_type_invariant(&self);
        }
        let mut e = self;
        e.margins = vertical;
        e
    }

    pub fn with_disabled(self) -> (r: Self)
        ensures
            r.spec_disabled(),
            r.spec_placeholder_color() == self.spec_placeholder_color(),
            r.spec_disabled_color() == self.spec_disabled_color(),
            r.same_but_looks(&self),
    {
        proof {
            use_type_invariant(&self);
        }
        let mut e = self;
        e.disabled = true;
        e
    }

    pub fn set_colors(&mut self, colors: EditorColors)
        ensures
            final(self).spec_placeholder_color() == colors.placeholder,
            final(self).spec_disabled_color() == colors.disabled,
            final(self).spec_disabled() == old(self).spec_disabled(),
            final(self).same_but_looks(&*old(self)),
    {
        proof {
            use_type_invariant(&*self);
        }
        self.colors = colors;
    }

    pub fn set_disabled(&mut self, value: bool)
        ensures
            final(self).spec_disabled() == value,
            final(self).spec_placeholder_color() == old(self).spec_placeholder_color(),
            final(self).spec_disabled_color() == old(self).spec_disabled_color(),
            final(self).same_but_looks(&*old(self)),
    {
        proof {
            use_type_invariant(&*self);
        }
        self.disabled = value;
    }

    pub fn is_empty(&self) -> (r: bool)
        ensures
            r == (self.text().len() == 0),
    {
        self.input.len() == 0
    }

    pub fn is_disabled(&self) -> (r: bool)
        ensures
            r == self.spec_disabled(),
    {
        self.disabled
    }

    pub fn has_selection(&self) -> (r: bool)
        ensures
            r == self.spec_selector() is Some,
    {
        self.selector.is_some()
    }

    /// The text.
    pub fn as_str(&self) -> (r: String)
        ensures
            r@ == self.text(),
    {
        string_from_chars(self.input.as_slice())
    }

    pub fn get_scroll(&self) -> (r: u16)
        ensures
            r == self.spec_scroll(),
    {
        self.scroll
    }

    pub fn get_render_pos(&self) -> (r: Pos)
        ensures
            r == self.spec_area_pos(),
    {
        self.area_pos
    }
}

} // verus!

verus! {

/// Whether a grapheme holds a line break.
fn contains_newline(g: &[char]) -> (r: bool)
    ensures
        r == g@.contains('\n'),
{
    let mut i: usize = 0;
    while i < g.len()
        invariant
            i <= g@.len(),
            forall|k: int| 0 <= k < i ==> g@[k] != '\n',
        decreases g@.len() - i,
    {
        if g[i] == '\n' {
            assert(g@[i as int] == '\n');
            return true;
        }
        i = i + 1;
    }
    false
}

fn grapheme_width(g: &[char]) -> (r: u16)
    ensures
        r == editor_gwidth(g@),
{
    if g.len() == 1 && g[0] == '\t' {
        assert(g@ =~= seq!['\t']);
        4
    } else {
        assert(g@ != seq!['\t']) by {
            if g@ == seq!['\t'] {
                assert(g@.len() == 1 && g@[0] == '\t');
            }
        }
        chars_width(g)
    }
}

fn grapheme_render(g: &[char]) -> (r: Vec<char>)
    ensures
        r@ == editor_grender(g@),
{
    let mut v: Vec<char> = Vec::new();
    if g.len() == 1 && g[0] == '\t' {
        assert(g@ =~= seq!['\t']);
        v.push(' ');
        v.push(' ');
        v.push(' ');
        v.push(' ');
        assert(v@ =~= seq![' ', ' ', ' ', ' ']);
        return v;
    }
    assert(g@ != seq!['\t']) by {
        if g@ == seq!['\t'] {
            assert(g@.len() == 1 && g@[0] == '\t');
        }
    }
    if (g.len() == 2 && g[0] == '\r' && g[1] == '\n') || (g.len() == 1 && g[0] == '\n') {
        assert(g@ =~= seq!['\r', '\n'] || g@ =~= seq!['\n']);
        v.push(' ');
        assert(v@ =~= seq![' ']);
        return v;
    }
    assert(!(g@ == seq!['\r', '\n'] || g@ == seq!['\n'])) by {
        if g@ == seq!['\r', '\n'] {
            assert(g@.len() == 2 && g@[0] == '\r' && g@[1] == '\n');
        }
        if g@ == seq!['\n'] {
            assert(g@.len() == 1 && g@[0] == '\n');
        }
    }
    copy_range(g, 0, g.len())
}

/// The width of a text in an editor, in columns.
fn text_width(s: &[char]) -> (r: u16)
    ensures
        r == editor_text_width(s@),
{
    let gs = grapheme_chars(s);
    let ghost all = gs@.map_values(|g: Vec<char>| g@);
    let mut w: u16 = 0;
    let mut i: usize = 0;
    while i < gs.len()
        invariant
            all == gs@.map_values(|g: Vec<char>| g@),
            all == grapheme_clusters(s@),
            i <= gs@.len(),
            w == editor_widths(all.take(i as int)),
        decreases gs@.len() - i,
    {
        assert(all.take(i as int + 1).drop_last() =~= all.take(i as int));
        assert(all[i as int] == gs@[i as int]@);
        w = w.wrapping_add(grapheme_width(gs[i].as_slice()));
        i = i + 1;
    }
    assert(all.take(gs@.len() as int) =~= all);
    w
}

/// Lines that tile a text of length `len` lie within it.
proof fn lemma_cover_bounds(ls: Seq<(int, int)>, len: int, k: int)
    requires
        lines_cover(ls, len),
        0 <= k < ls.len(),
    ensures
        ls[k].0 <= ls[k].1 <= len,
    decreases ls.len() - k,
{
    if k < ls.len() - 1 {
        lemma_cover_bounds(ls, len, k + 1);
        assert(ls[k].1 == ls[k + 1].0);
    }
}

impl Editor {
    /// The visual line that holds `index`.
    fn index_to_row(&self, index: usize) -> (r: u16)
        ensures
            r == row_of(self.spec_lines(), index as int),
    {
        let ghost ls = self.spec_lines();
        let mut k: usize = 0;
        assert(ls.skip(0) =~= ls);
        while k < self.lines.len() && self.lines[k].end <= index
            invariant
                ls == lines_view(self.lines@),
                ls.len() == self.lines@.len(),
                k <= ls.len(),
                rows_before(ls, index as int) == k + rows_before(ls.skip(k as int), index as int),
            decreases ls.len() - k,
        {
            assert(ls.skip(k as int)[0] == ls[k as int]);
            assert(ls.skip(k as int).drop_first() =~= ls.skip(k as int + 1));
            k = k + 1;
        }
        if k < self.lines.len() {
            assert(ls.skip(k as int)[0] == ls[k as int]);
        } else {
            assert(ls.skip(k as int).len() == 0);
        }
        let len = self.lines.len();
        if len == 0 {
            0
        } else if k < len - 1 {
            k as u16
        } else {
            (len - 1) as u16
        }
    }

    /// Where `index` is shown: its visual line and column.
    fn index_to_pos(&self, index: usize) -> (r: Pos)
        ensures
            r == pos_of(self.spec_wrapped(), self.spec_lines(), index as int),
    {
        proof {
            use_type_invariant(self);
        }
        if self.lines.len() == 0 {
            return Pos::zero();
        }
        let ghost ls = self.spec_lines();
        let row = self.index_to_row(index);
        proof {
            lemma_cover_bounds(ls, self.wrapped@.len() as int, row as int);
            assert(ls[row as int] == (self.lines@[row as int].start as int, self.lines@[row as int].end as int));
        }
        let line = self.lines[row as usize];
        let n = if index < line.start {
            0
        } else if index - line.start < line.end - line.start {
            index - line.start
        } else {
            line.end - line.start
        };
        let seg = copy_range(self.wrapped.as_slice(), line.start, line.start + n);
        let col = text_width(seg.as_slice());
        Pos { col, row }
    }

    /// The index in visual line `row` closest to column `target` from the
    /// left, not past a line break, kept within the text.
    fn col_to_index(&self, row: u16, target: u16) -> (r: usize)
        requires
            (row as int) < self.spec_lines().len(),
        ensures
            r == index_at(self.spec_wrapped(), self.spec_lines(), row as int, target as int, self.text().len() as int),
            r <= self.text().len(),
    {
        proof {
            use_type_invariant(self);
            lemma_cover_bounds(self.spec_lines(), self.wrapped@.len() as int, row as int);
            assert(self.spec_lines()[row as int] == (self.lines@[row as int].start as int, self.lines@[row as int].end as int));
        }
        let line = self.lines[row as usize];
        let seg = copy_range(self.wrapped.as_slice(), line.start, line.end);
        let gs = grapheme_chars(seg.as_slice());
        let ghost all = gs@.map_values(|g: Vec<char>| g@);
        let mut column: u32 = 0;
        let mut index: usize = line.start;
        let mut i: usize = 0;
        assert(all.skip(0) =~= all);
        assert(all.take(0) =~= Seq::<Seq<char>>::empty());
        while i < gs.len()
            invariant
                all == gs@.map_values(|g: Vec<char>| g@),
                all == grapheme_clusters(seg@),
                crate::text::concat(all) == seg@,
                seg@.len() == line.end - line.start,
                line.start <= line.end,
                i <= gs@.len(),
                index == line.start + crate::text::concat(all.take(i as int)).len(),
                column <= target,
                index <= line.end,
                col_walk(all.skip(i as int), target as int, column as int, index as int)
                    == col_walk(all, target as int, 0, line.start as int),
            ensures
                index as int == col_walk(all, target as int, 0, line.start as int),
                index <= line.end,
            decreases gs@.len() - i,
        {
            assert(all[i as int] == gs@[i as int]@);
            assert(all.skip(i as int)[0] == all[i as int]);
            assert(all.skip(i as int).drop_first() =~= all.skip(i as int + 1));
            proof {
                crate::text::lemma_concat_prefix(all, i as int);
            }
            if contains_newline(gs[i].as_slice()) {
                break;
            }
            let w = grapheme_width(gs[i].as_slice());
            if column + w as u32 > target as u32 {
                break;
            }
            proof {
                crate::text::lemma_concat_step(all, i as int);
            }
            column = column + w as u32;
            index = index + gs[i].len();
            i = i + 1;
        }
        if i == gs.len() {
            assert(all.skip(i as int).len() == 0);
            proof {
                assert(all.take(i as int) =~= all);
            }
        }
        if index < self.input.len() {
            index
        } else {
            self.input.len()
        }
    }

    fn cursor_row(&self) -> (r: u16)
        ensures
            r == row_of(self.spec_lines(), self.spec_cursor() as int),
    {
        self.index_to_row(self.cursor)
    }

    fn cursor_pos(&self) -> (r: Pos)
        ensures
            r == self.spec_cursor_pos(),
    {
        self.index_to_pos(self.cursor)
    }
}

} // verus!

verus! {

/// How the cursor moves.
#[derive(Debug, Clone, Copy, PartialEq, Eq, Structural)]
pub enum CursorMove {
    Forward,
    Back,
    Up,
    Down,
    Start,
    End,
}

/// The selector after the cursor moved from `cursor` to `new_cursor`:
/// started or kept while extending, dropped otherwise or when it meets the
/// cursor.
pub open spec fn moved_selector(selector: Option<usize>, cursor: usize, new_cursor: int, shift: bool) -> Option<usize> {
    let sel = if shift {
        if selector is None { Some(cursor) } else { selector }
    } else {
        None
    };
    if sel matches Some(s) && s == new_cursor { None } else { sel }
}

impl Editor {
    /// The text, the cursor, the selector and the preferred column.
    pub open spec fn cursor_state(&self) -> (Seq<char>, usize, Option<usize>, u16) {
        (self.text(), self.spec_cursor(), self.spec_selector(), self.spec_preferred_column())
    }

    /// Everything but the text, the cursor, the selector and the preferred
    /// column is as in `other`.
    pub open spec fn same_frame(&self, other: &Editor) -> bool {
        &&& self.spec_wrapped() == other.spec_wrapped()
        &&& self.spec_lines() == other.spec_lines()
        &&& self.spec_scroll() == other.spec_scroll()
        &&& self.spec_placeholder() == other.spec_placeholder()
        &&& self.spec_margins() == other.spec_margins()
        &&& self.spec_disabled() == other.spec_disabled()
        &&& self.spec_placeholder_color() == other.spec_placeholder_color()
        &&& self.spec_disabled_color() == other.spec_disabled_color()
        &&& self.spec_area_pos() == other.spec_area_pos()
        &&& self.spec_last_size() == other.spec_last_size()
        &&& self.spec_last_hash() == other.spec_last_hash()
    }

    pub open spec fn after_push(&self, s: Seq<char>) -> (Seq<char>, usize, Option<usize>) {
        let (t, c) = match self.spec_selector() {
            Some(sel) => delete_range(self.text(), self.spec_cursor(), sel),
            None => (self.text(), self.spec_cursor()),
        };
        (t.subrange(0, c as int) + s + t.subrange(c as int, t.len() as int), (c + s.len()) as usize, None)
    }

    /// The state after deleting the selection, and whether anything was deleted.
    pub open spec fn after_delete_selection(&self) -> ((Seq<char>, usize, Option<usize>), bool) {
        match self.spec_selector() {
            Some(sel) => {
                let (t, c) = delete_range(self.text(), self.spec_cursor(), sel);
                ((t, c, None), sel != self.spec_cursor())
            },
            None => (self.edit_state(), false),
        }
    }

    pub open spec fn after_delete_forward(&self) -> ((Seq<char>, usize, Option<usize>), bool) {
        if self.spec_selector() is Some {
            self.after_delete_selection()
        } else {
            let gs = grapheme_clusters(self.text().subrange(self.spec_cursor() as int, self.text().len() as int));
            if gs.len() > 0 {
                ((cut(self.text(), self.spec_cursor() as int, self.spec_cursor() + gs[0].len()), self.spec_cursor(), None), true)
            } else {
                (self.edit_state(), false)
            }
        }
    }

    pub open spec fn after_delete_backward(&self) -> ((Seq<char>, usize, Option<usize>), bool) {
        if self.spec_selector() is Some {
            self.after_delete_selection()
        } else {
            let gs = grapheme_clusters(self.text().subrange(0, self.spec_cursor() as int));
            if gs.len() > 0 {
                let c = self.spec_cursor() - gs.last().len();
                ((cut(self.text(), c, self.spec_cursor() as int), c as usize, None), true)
            } else {
                (self.edit_state(), false)
            }
        }
    }

    /// The cursor and the preferred column after a move, before the
    /// selector is settled. Moving up or down keeps the preferred column
    /// and goes to it in the neighbouring visual line; the other moves set
    /// it to where the cursor lands.
    pub open spec fn moved(&self, cm: CursorMove) -> (int, u16) {
        let t = self.text();
        let c = self.spec_cursor() as int;
        let pref = self.spec_preferred_column();
        let w = self.spec_wrapped();
        let ls = self.spec_lines();
        match cm {
            CursorMove::Forward => {
                let gs = grapheme_clusters(t.subrange(c, t.len() as int));
                if gs.len() > 0 {
                    (c + gs[0].len(), pos_of(w, ls, c + gs[0].len()).col)
                } else {
                    (c, pref)
                }
            },
            CursorMove::Back => {
                let gs = grapheme_clusters(t.subrange(0, c));
                if gs.len() > 0 {
                    (c - gs.last().len(), pos_of(w, ls, c - gs.last().len()).col)
                } else {
                    (c, pref)
                }
            },
            CursorMove::Up => {
                let row = row_of(ls, c);
                if row > 0 {
                    (index_at(w, ls, row - 1, pref as int, t.len() as int), pref)
                } else {
                    (c, pref)
                }
            },
            CursorMove::Down => {
                let row = row_of(ls, c);
                if row + 1 < (ls.len() as u16) {
                    (index_at(w, ls, row + 1, pref as int, t.len() as int), pref)
                } else {
                    (c, pref)
                }
            },
            CursorMove::Start => (0, 0),
            CursorMove::End => (t.len() as int, pos_of(w, ls, t.len() as int).col),
        }
    }

    /// The state after a move; nothing moves in an empty editor.
    pub open spec fn after_move(&self, cm: CursorMove, shift: bool) -> (Seq<char>, usize, Option<usize>, u16) {
        if self.text().len() == 0 {
            self.cursor_state()
        } else {
            let (c, pref) = self.moved(cm);
            (self.text(), c as usize, moved_selector(self.spec_selector(), self.spec_cursor(), c, shift), pref)
        }
    }

    /// Takes the text, the cursor and the selector out, leaving an empty text.
    fn take_text(&mut self) -> (r: (Vec<char>, usize, Option<usize>))
        ensures
            r.0@ == old(self).text(),
            r.1 == old(self).spec_cursor(),
            r.2 == old(self).spec_selector(),
            r.1 <= r.0@.len(),
            r.2 matches Some(s) ==> s <= r.0@.len(),
            final(self).text() == Seq::<char>::empty(),
            final(self).spec_cursor() == 0,
            final(self).spec_selector() is None,
            final(self).same_settings(&*old(self)),
    {
        proof {
            use_type_invariant(&*self);
        }
        let cursor = self.cursor;
        let selector = self.selector;
        self.cursor = 0;
        self.selector = None;
        let mut v: Vec<char> = Vec::new();
        std::mem::swap(&mut v, &mut self.input);
        (v, cursor, selector)
    }

    /// Puts a text, a cursor and a selector back.
    fn put_text(&mut self, v: Vec<char>, cursor: usize, selector: Option<usize>)
        requires
            old(self).text() == Seq::<char>::empty(),
            old(self).spec_cursor() == 0,
            old(self).spec_selector() is None,
            cursor <= v@.len(),
            selector matches Some(s) ==> s <= v@.len(),
        ensures
            final(self).text() == v@,
            final(self).spec_cursor() == cursor,
            final(self).spec_selector() == selector,
            final(self).same_settings(&*old(self)),
    {
        proof {
            use_type_invariant(&*self);
        }
        self.input = v;
        self.cursor = cursor;
        self.selector = selector;
    }

    /// Deletes `cursor..selector` (either way round), leaving the cursor at
    /// its start. Returns whether the range was not empty.
    fn try_delete_selection(&mut self, selector: usize) -> (r: bool)
        requires
            old(self).spec_selector() is None,
            selector <= old(self).text().len(),
        ensures
            (final(self).text(), final(self).spec_cursor()) == delete_range(old(self).text(), old(self).spec_cursor(), selector),
            final(self).spec_selector() is None,
            final(self).same_settings(&*old(self)),
            r == (selector != old(self).spec_cursor()),
    {
        let (mut v, cursor, _) = self.take_text();
        if cursor < selector {
            remove_range(&mut v, cursor, selector);
            self.put_text(v, cursor, None);
            true
        } else if cursor > selector {
            remove_range(&mut v, selector, cursor);
            self.put_text(v, selector, None);
            true
        } else {
            self.put_text(v, cursor, None);
            false
        }
    }

    /// Deletes the selection, if there is one.
    pub fn delete_selection(&mut self) -> (r: bool)
        ensures
            (final(self).edit_state(), r) == old(self).after_delete_selection(),
            final(self).same_settings(&*old(self)),
    {
        proof {
            use_type_invariant(&*self);
        }
        let taken = self.selector;
        self.selector = None;
        match taken {
            Some(selector) => self.try_delete_selection(selector),
            None => false,
        }
    }

    /// Replaces the selection, if any, with `c`, and moves the cursor past it.
    pub fn push_char(&mut self, c: char)
        ensures
            final(self).edit_state() == old(self).after_push(seq![c]),
            final(self).same_settings(&*old(self)),
    {
        self.delete_selection();
        let (mut v, cursor, _) = self.take_text();
        let ghost t = v@;
        v.insert(cursor, c);
        assert(v@ =~= t.subrange(0, cursor as int) + seq![c] + t.subrange(cursor as int, t.len() as int));
        assert(cursor < v.len());
        self.put_text(v, cursor + 1, None);
    }

    /// Replaces the selection, if any, with `s`, and moves the cursor past it.
    pub fn push_str(&mut self, s: &str)
        ensures
            final(self).edit_state() == old(self).after_push(s@),
            final(self).same_settings(&*old(self)),
    {
        self.delete_selection();
        let (mut v, cursor, _) = self.take_text();
        let chars = str_chars(s);
        let ghost t = v@;
        let ghost c0 = cursor as int;
        let mut c: usize = cursor;
        let mut i: usize = 0;
        while i < chars.len()
            invariant
                i <= chars@.len(),
                c == c0 + i,
                v@ == t.subrange(0, c0) + chars@.take(i as int) + t.subrange(c0, t.len() as int),
                0 <= c0 <= t.len(),
            decreases chars@.len() - i,
        {
            v.insert(c, chars[i]);
            assert(c < v.len());
            c = c + 1;
            assert(v@ =~= t.subrange(0, c0) + chars@.take(i as int + 1) + t.subrange(c0, t.len() as int));
            i = i + 1;
        }
        assert(chars@.take(chars@.len() as int) =~= chars@);
        self.put_text(v, c, None);
    }

    /// Starts a new line at the cursor.
    pub fn push_newline(&mut self)
        ensures
            final(self).edit_state() == old(self).after_push(seq!['\n']),
            final(self).same_settings(&*old(self)),
    {
        self.push_char('\n');
    }

    fn move_cursor(&mut self, cm: CursorMove, shift: bool) -> (r: bool)
        ensures
            final(self).cursor_state() == old(self).after_move(cm, shift),
            final(self).same_frame(&*old(self)),
            r == (final(self).spec_cursor() != old(self).spec_cursor() || final(self).spec_selector() != old(self).spec_selector()),
    {
        proof {
            use_type_invariant(&*self);
        }
        if self.input.len() == 0 {
            return false;
        }
        let old_cursor = self.cursor;
        let old_selector = self.selector;
        if shift {
            if self.selector.is_none() {
                self.selector = Some(self.cursor);
            }
        } else {
            self.selector = None;
        }
        match cm {
            CursorMove::Forward => {
                let rest = copy_range(self.input.as_slice(), self.cursor, self.input.len());
                match first_grapheme_len(rest.as_slice()) {
                    Some(n) => {
                        self.cursor = self.cursor + n;
                        self.preferred_column = self.cursor_pos().col;
                    },
                    None => {},
                }
            },
            CursorMove::Back => {
                let before = copy_range(self.input.as_slice(), 0, self.cursor);
                match last_grapheme_len(before.as_slice()) {
                    Some(n) => {
                        self.cursor = self.cursor - n;
                        self.preferred_column = self.cursor_pos().col;
                    },
                    None => {},
                }
            },
            CursorMove::Up => {
                let row = self.cursor_row();
                if row > 0 {
                    self.cursor = self.col_to_index(row - 1, self.preferred_column);
                }
            },
            CursorMove::Down => {
                let row = self.cursor_row();
                if row < u16::MAX && row + 1 < self.lines.len() as u16 {
                    self.cursor = self.col_to_index(row + 1, self.preferred_column);
                }
            },
            CursorMove::Start => {
                self.cursor = 0;
                self.preferred_column = 0;
            },
            CursorMove::End => {
                self.cursor = self.input.len();
                self.preferred_column = self.cursor_pos().col;
            },
        }
        match self.selector {
            Some(s) => {
                if s == self.cursor {
                    self.selector = None;
                }
            },
            None => {},
        }
        self.cursor != old_cursor || !option_eq(self.selector, old_selector)
    }
}

} // verus!

verus! {

impl Editor {
    pub fn move_forward(&mut self, shift: bool) -> (r: bool)
        ensures
            final(self).cursor_state() == old(self).after_move(CursorMove::Forward, shift),
            final(self).same_frame(&*old(self)),
            r == (final(self).spec_cursor() != old(self).spec_cursor() || final(self).spec_selector() != old(self).spec_selector()),
    {
        self.move_cursor(CursorMove::Forward, shift)
    }

    pub fn move_backward(&mut self, shift: bool) -> (r: bool)
        ensures
            final(self).cursor_state() == old(self).after_move(CursorMove::Back, shift),
            final(self).same_frame(&*old(self)),
            r == (final(self).spec_cursor() != old(self).spec_cursor() || final(self).spec_selector() != old(self).spec_selector()),
    {
        self.move_cursor(CursorMove::Back, shift)
    }

    pub fn move_up(&mut self, shift: bool) -> (r: bool)
        ensures
            final(self).cursor_state() == old(self).after_move(CursorMove::Up, shift),
            final(self).same_frame(&*old(self)),
            r == (final(self).spec_cursor() != old(self).spec_cursor() || final(self).spec_selector() != old(self).spec_selector()),
    {
        self.move_cursor(CursorMove::Up, shift)
    }

    pub fn move_down(&mut self, shift: bool) -> (r: bool)
        ensures
            final(self).cursor_state() == old(self).after_move(CursorMove::Down, shift),
            final(self).same_frame(&*old(self)),
            r == (final(self).spec_cursor() != old(self).spec_cursor() || final(self).spec_selector() != old(self).spec_selector()),
    {
        self.move_cursor(CursorMove::Down, shift)
    }

    pub fn move_to_end(&mut self, shift: bool) -> (r: bool)
        ensures
            final(self).cursor_state() == old(self).after_move(CursorMove::End, shift),
            final(self).same_frame(&*old(self)),
            r == (final(self).spec_cursor() != old(self).spec_cursor() || final(self).spec_selector() != old(self).spec_selector()),
    {
        self.move_cursor(CursorMove::End, shift)
    }

    pub fn move_to_start(&mut self, shift: bool) -> (r: bool)
        ensures
            final(self).cursor_state() == old(self).after_move(CursorMove::Start, shift),
            final(self).same_frame(&*old(self)),
            r == (final(self).spec_cursor() != old(self).spec_cursor() || final(self).spec_selector() != old(self).spec_selector()),
    {
        self.move_cursor(CursorMove::Start, shift)
    }

    /// The state after selecting everything: the cursor at the end, the
    /// selector at the start, and the preferred column where the cursor is.
    pub open spec fn after_select_all(&self) -> (Seq<char>, usize, Option<usize>, u16) {
        let len = self.text().len() as int;
        (self.text(), len as usize, Some(0usize), pos_of(self.spec_wrapped(), self.spec_lines(), len).col)
    }

    /// Puts the cursor at the end and the selector at the start.
    pub fn select_all(&mut self) -> (r: bool)
        ensures
            final(self).cursor_state() == old(self).after_select_all(),
            final(self).same_frame(&*old(self)),
            r == (final(self).spec_cursor() != old(self).spec_cursor() || final(self).spec_selector() != old(self).spec_selector()),
    {
        proof {
            use_type_invariant(&*self);
        }
        let old_cursor = self.cursor;
        let old_selector = self.selector;
        self.cursor = self.input.len();
        self.selector = Some(0);
        self.preferred_column = self.cursor_pos().col;
        self.cursor != old_cursor || !option_eq(self.selector, old_selector)
    }

    /// Deletes the selection, or else the grapheme after the cursor.
    pub fn delete_forward(&mut self) -> (r: bool)
        ensures
            (final(self).edit_state(), r) == old(self).after_delete_forward(),
            final(self).same_settings(&*old(self)),
    {
        proof {
            use_type_invariant(&*self);
        }
        let taken = self.selector;
        self.selector = None;
        if let Some(selector) = taken {
            return self.try_delete_selection(selector);
        }
        let rest = copy_range(self.input.as_slice(), self.cursor, self.input.len());
        match first_grapheme_len(rest.as_slice()) {
            Some(n) => {
                let (mut v, cursor, _) = self.take_text();
                remove_range(&mut v, cursor, cursor + n);
                self.put_text(v, cursor, None);
                true
            },
            None => false,
        }
    }

    /// Deletes the selection, or else the grapheme before the cursor.
    pub fn delete_backward(&mut self) -> (r: bool)
        ensures
            (final(self).edit_state(), r) == old(self).after_delete_backward(),
            final(self).same_settings(&*old(self)),
            old(self).spec_selector() is None && ends_in_lone_ascii(old(self).text().subrange(0, old(self).spec_cursor() as int))
                ==> r && final(self).spec_cursor() == old(self).spec_cursor() - 1
                && final(self).text() == cut(old(self).text(), old(self).spec_cursor() - 1, old(self).spec_cursor() as int),
    {
        proof {
            use_type_invariant(&*self);
        }
        let taken = self.selector;
        self.selector = None;
        if let Some(selector) = taken {
            return self.try_delete_selection(selector);
        }
        let before = copy_range(self.input.as_slice(), 0, self.cursor);
        match last_grapheme_len(before.as_slice()) {
            Some(n) => {
                let (mut v, cursor, _) = self.take_text();
                remove_range(&mut v, cursor - n, cursor);
                self.put_text(v, cursor - n, None);
                true
            },
            None => false,
        }
    }

    /// Empties the text and forgets the layout.
    pub fn clear(&mut self)
        ensures
            final(self).text() == Seq::<char>::empty(),
            final(self).spec_cursor() == 0,
            final(self).spec_selector() is None,
            final(self).spec_wrapped() == Seq::<char>::empty(),
            final(self).spec_lines() == Seq::<(int, int)>::empty(),
            final(self).spec_preferred_column() == 0,
            final(self).spec_scroll() == 0,
            final(self).spec_last_size() == (Size { cols: 0, rows: 0 }),
            final(self).spec_last_hash() == 0,
            final(self).spec_placeholder() == old(self).spec_placeholder(),
            final(self).spec_margins() == old(self).spec_margins(),
            final(self).spec_disabled() == old(self).spec_disabled(),
            final(self).spec_placeholder_color() == old(self).spec_placeholder_color(),
            final(self).spec_disabled_color() == old(self).spec_disabled_color(),
            final(self).spec_area_pos() == old(self).spec_area_pos(),
    {
        proof {
            use_type_invariant(&*self);
        }
        let _ = self.take_text();
        let mut lines: Vec<VisualLine> = Vec::new();
        std::mem::swap(&mut lines, &mut self.lines);
        let mut wrapped: Vec<char> = Vec::new();
        std::mem::swap(&mut wrapped, &mut self.wrapped);
        assert(lines_view(self.lines@) =~= Seq::<(int, int)>::empty());
        self.preferred_column = 0;
        self.scroll = 0;
        self.last_size = Size::zero();
        self.last_hash = 0;
    }

    /// The state after a key, and whether to redraw.
    /// The state after a move, with whether the cursor or the selection
    /// changed.
    pub open spec fn with_change(&self, s: (Seq<char>, usize, Option<usize>, u16)) -> ((Seq<char>, usize, Option<usize>, u16), bool) {
        (s, s.1 != self.spec_cursor() || s.2 != self.spec_selector())
    }

    /// An edit's text, cursor and selector, with the preferred column kept.
    pub open spec fn with_edit(&self, e: (Seq<char>, usize, Option<usize>)) -> (Seq<char>, usize, Option<usize>, u16) {
        (e.0, e.1, e.2, self.spec_preferred_column())
    }

    /// The state after a deletion, with whether anything was deleted.
    pub open spec fn edited(&self, e: ((Seq<char>, usize, Option<usize>), bool)) -> ((Seq<char>, usize, Option<usize>, u16), bool) {
        (self.with_edit(e.0), e.1)
    }

    pub open spec fn after_key(&self, key: KeyCode, mods: KeyModifiers) -> ((Seq<char>, usize, Option<usize>, u16), bool) {
        let shift = mods.shift_held();
        let ctrl = mods.control_held();
        let pref = self.spec_preferred_column();
        let moved = |s: (Seq<char>, usize, Option<usize>, u16)|
            (s, s.1 != self.spec_cursor() || s.2 != self.spec_selector());
        let edited = |e: ((Seq<char>, usize, Option<usize>), bool)| ((e.0.0, e.0.1, e.0.2, pref), e.1);
        let pushed = |s: Seq<char>| {
            let (t, c, sel) = self.after_push(s);
            ((t, c, sel, pref), true)
        };
        if self.spec_disabled() {
            (self.cursor_state(), false)
        } else {
            match key {
                KeyCode::Right => moved(self.after_move(CursorMove::Forward, shift)),
                KeyCode::Left => moved(self.after_move(CursorMove::Back, shift)),
                KeyCode::Up => moved(self.after_move(CursorMove::Up, shift)),
                KeyCode::Down => moved(self.after_move(CursorMove::Down, shift)),
                KeyCode::Home => moved(self.after_move(CursorMove::Start, shift)),
                KeyCode::End => moved(self.after_move(CursorMove::End, shift)),
                KeyCode::Backspace => edited(self.after_delete_backward()),
                KeyCode::Delete => edited(self.after_delete_forward()),
                KeyCode::Enter => pushed(seq!['\n']),
                KeyCode::Char(c) => if c == 'a' && ctrl {
                    moved(self.after_select_all())
                } else {
                    pushed(seq![c])
                },
                _ => (self.cursor_state(), false),
            }
        }
    }

    /// Handles a key while enabled: arrows, Home and End move (extending
    /// the selection with Shift), Backspace and Delete delete, Enter starts
    /// a new line, Ctrl+A selects all and other characters are typed.
    /// Returns whether to redraw.
    pub fn input(&mut self, key_pressed: KeyCode, key_modifiers: KeyModifiers) -> (r: bool)
        ensures
            (final(self).cursor_state(), r) == old(self).after_key(key_pressed, key_modifiers),
            final(self).same_frame(&*old(self)),
    {
        if self.disabled {
            return false;
        }
        let ctrl = key_modifiers.contains(KeyModifiers::control());
        let shift = key_modifiers.contains(KeyModifiers::shift());
        match key_pressed {
            KeyCode::Right => self.move_forward(shift),
            KeyCode::Left => self.move_backward(shift),
            KeyCode::Up => self.move_up(shift),
            KeyCode::Down => self.move_down(shift),
            KeyCode::Home => self.move_to_start(shift),
            KeyCode::End => self.move_to_end(shift),
            KeyCode::Backspace => self.delete_backward(),
            KeyCode::Delete => self.delete_forward(),
            KeyCode::Enter => {
                self.push_newline();
                true
            },
            KeyCode::Char(c) => {
                if c == 'a' && ctrl {
                    self.select_all()
                } else {
                    self.push_char(c);
                    true
                }
            },
            _ => false,
        }
    }
}

} // verus!

verus! {

/// `wrapped` is `text` with some spaces turned into line breaks and
/// nothing else changed.
pub open spec fn breaks_only(text: Seq<char>, wrapped: Seq<char>) -> bool {
    &&& wrapped.len() == text.len()
    &&& forall|i: int| 0 <= i < text.len() ==> #[trigger] wrapped[i] == text[i] || (text[i] == ' ' && wrapped[i] == '\n')
}

/// The layout of `new` after `old` was checked against a width of
/// `size.cols`: laid out again where the width (as last seen, `last_size`)
/// or the text changed, kept otherwise.
pub open spec fn relaid(old: &Editor, new: &Editor, last_size: Size, size: Size) -> bool {
    let hash = hash_of(old.text());
    if last_size.cols != size.cols || old.spec_last_hash() != hash {
        &&& new.spec_last_size() == size
        &&& new.spec_last_hash() == hash
        &&& new.spec_wrapped() == textwrap_filled(old.text(), size.cols as usize)
        &&& new.spec_lines() == layout(grapheme_clusters(new.spec_wrapped()), 0, 0, 0, size.cols as int)
        &&& breaks_only(old.text(), new.spec_wrapped())
        &&& new.spec_lines().len() >= 1
        &&& lines_cover(new.spec_lines(), new.spec_wrapped().len() as int)
        &&& new.spec_preferred_column() == new.spec_cursor_pos().col
    } else {
        &&& new.spec_last_size() == old.spec_last_size()
        &&& new.spec_last_hash() == old.spec_last_hash()
        &&& new.spec_wrapped() == old.spec_wrapped()
        &&& new.spec_lines() == old.spec_lines()
        &&& new.spec_preferred_column() == old.spec_preferred_column()
    }
}

impl Editor {
    /// Wraps the text to `max_width` columns and lays out its visual lines,
    /// then aims the preferred column at the cursor.
    fn relayout(&mut self, max_width: u16)
        ensures
            final(self).spec_wrapped() == textwrap_filled(old(self).text(), max_width as usize),
            final(self).spec_lines() == layout(grapheme_clusters(final(self).spec_wrapped()), 0, 0, 0, max_width as int),
            breaks_only(old(self).text(), final(self).spec_wrapped()),
            final(self).spec_lines().len() >= 1,
            lines_cover(final(self).spec_lines(), final(self).spec_wrapped().len() as int),
            final(self).spec_preferred_column() == final(self).spec_cursor_pos().col,
            final(self).edit_state() == old(self).edit_state(),
            final(self).spec_scroll() == old(self).spec_scroll(),
            final(self).spec_placeholder() == old(self).spec_placeholder(),
            final(self).spec_margins() == old(self).spec_margins(),
            final(self).spec_disabled() == old(self).spec_disabled(),
            final(self).spec_placeholder_color() == old(self).spec_placeholder_color(),
            final(self).spec_disabled_color() == old(self).spec_disabled_color(),
            final(self).spec_area_pos() == old(self).spec_area_pos(),
            final(self).spec_last_size() == old(self).spec_last_size(),
            final(self).spec_last_hash() == old(self).spec_last_hash(),
    {
        proof {
            use_type_invariant(&*self);
        }
        let mut st = string_from_chars(self.input.as_slice());
        text_wrap(&mut st, max_width);
        let w = str_chars(st.as_str());
        let gs = grapheme_chars(w.as_slice());
        let ghost all = gs@.map_values(|g: Vec<char>| g@);
        let ghost max = max_width as int;
        let mut out: Vec<VisualLine> = Vec::new();
        let mut start: usize = 0;
        let mut column: u32 = 0;
        let mut pos: usize = 0;
        let mut i: usize = 0;
        assert(all.skip(0) =~= all);
        assert(all.take(0) =~= Seq::<Seq<char>>::empty());
        assert(lines_view(out@) =~= Seq::<(int, int)>::empty());
        while i < gs.len()
            invariant
                all == gs@.map_values(|g: Vec<char>| g@),
                all == grapheme_clusters(w@),
                crate::text::concat(all) == w@,
                max == max_width as int,
                i <= gs@.len(),
                pos == crate::text::concat(all.take(i as int)).len(),
                pos <= w@.len(),
                start <= pos,
                column <= u16::MAX,
                lines_view(out@) + layout(all.skip(i as int), pos as int, start as int, column as int, max)
                    == layout(all, 0, 0, 0, max),
                lines_view(out@).len() == 0 ==> start == 0,
                lines_view(out@).len() > 0 ==> lines_view(out@)[0].0 == 0 && lines_view(out@).last().1 == start,
                forall|k: int| 0 <= k < lines_view(out@).len() ==> #[trigger] lines_view(out@)[k].0 <= lines_view(out@)[k].1,
                forall|k: int| 0 <= k < lines_view(out@).len() - 1 ==> #[trigger] lines_view(out@)[k].1 == lines_view(out@)[k + 1].0,
            decreases gs@.len() - i,
        {
            assert(all[i as int] == gs@[i as int]@);
            assert(all.skip(i as int)[0] == all[i as int]);
            assert(all.skip(i as int).drop_first() =~= all.skip(i as int + 1));
            proof {
                crate::text::lemma_concat_step(all, i as int);
            }
            let glen = gs[i].len();
            let total = w.len();
            assert(pos + glen <= total);
            let next = pos + glen;
            let ghost before = lines_view(out@);
            let ghost (s0, c0) = (start as int, column as int);
            if contains_newline(gs[i].as_slice()) {
                out.push(VisualLine { start, end: next });
                assert(lines_view(out@) =~= before.push((start as int, next as int)));
                start = next;
                column = 0;
                proof {
                    let rest = layout(all.skip(i as int + 1), next as int, next as int, 0, max);
                    assert(all.skip(i as int)[0].contains('\n'));
                    assert(layout(all.skip(i as int), pos as int, s0, c0, max) == seq![(s0, next as int)] + rest);
                    assert(before.push((s0, next as int)) + rest =~= before + (seq![(s0, next as int)] + rest));
                }
            } else {
                let width = grapheme_width(gs[i].as_slice());
                assert(!all.skip(i as int)[0].contains('\n'));
                assert(editor_gwidth(all.skip(i as int)[0]) == width);
                if column + width as u32 > max_width as u32 {
                    out.push(VisualLine { start, end: pos });
                    assert(lines_view(out@) =~= before.push((start as int, pos as int)));
                    start = pos;
                    column = width as u32;
                    proof {
                        let rest = layout(all.skip(i as int + 1), next as int, pos as int, width as int, max);
                        assert(layout(all.skip(i as int), pos as int, s0, c0, max) == seq![(s0, pos as int)] + rest);
                        assert(before.push((s0, pos as int)) + rest =~= before + (seq![(s0, pos as int)] + rest));
                    }
                } else {
                    column = column + width as u32;
                    assert(layout(all.skip(i as int), pos as int, s0, c0, max)
                        == layout(all.skip(i as int + 1), next as int, s0, column as int, max));
                }
            }
            pos = next;
            i = i + 1;
        }
        assert(all.take(i as int) =~= all);
        assert(all.skip(i as int) =~= Seq::<Seq<char>>::empty());
        let ghost before = lines_view(out@);
        out.push(VisualLine { start, end: w.len() });
        assert(lines_view(out@) =~= before.push((start as int, w@.len() as int)));
        let mut none: Vec<VisualLine> = Vec::new();
        std::mem::swap(&mut none, &mut self.lines);
        assert(lines_view(self.lines@) =~= Seq::<(int, int)>::empty());
        self.wrapped = w;
        self.lines = out;
        self.preferred_column = self.cursor_pos().col;
    }

    /// Lays the text out again when the width or the text changed since the
    /// last layout.
    fn process_input(&mut self, last_size: Size, size: Size)
        ensures
            relaid(&*old(self), &*final(self), last_size, size),
            final(self).edit_state() == old(self).edit_state(),
            final(self).spec_scroll() == old(self).spec_scroll(),
            final(self).spec_placeholder() == old(self).spec_placeholder(),
            final(self).spec_margins() == old(self).spec_margins(),
            final(self).spec_disabled() == old(self).spec_disabled(),
            final(self).spec_placeholder_color() == old(self).spec_placeholder_color(),
            final(self).spec_disabled_color() == old(self).spec_disabled_color(),
            final(self).spec_area_pos() == old(self).spec_area_pos(),
    {
        proof {
            use_type_invariant(&*self);
        }
        let hash = hash_fast(self.input.as_slice());
        if last_size.cols != size.cols || self.last_hash != hash {
            self.last_size = size;
            self.last_hash = hash;
            self.relayout(size.cols);
        }
    }

    /// The scroll that keeps the cursor's line in a view `height` lines
    /// high, from `scroll` in a view `last_height` lines high; a new height
    /// starts over from the top.
    pub open spec fn rescrolled(&self, scroll: u16, last_height: u16, height: u16) -> u16 {
        spec_scroll(ScrollData {
            current_index: row_of(self.spec_lines(), self.spec_cursor() as int) as usize,
            current_scroll: if last_height != height { 0 } else { scroll as usize },
            total_lines: self.spec_lines().len() as usize,
            viewport_height: height,
            margins: ScrollMargins { margin_top: 0, margin_bottom: 0, padding_bottom: 0 },
        }) as u16
    }

    fn update_scroll(&mut self, last_height: u16, height: u16)
        ensures
            final(self).spec_scroll() == old(self).rescrolled(old(self).spec_scroll(), last_height, height),
            final(self).cursor_state() == old(self).cursor_state(),
            final(self).spec_wrapped() == old(self).spec_wrapped(),
            final(self).spec_lines() == old(self).spec_lines(),
            final(self).spec_placeholder() == old(self).spec_placeholder(),
            final(self).spec_margins() == old(self).spec_margins(),
            final(self).spec_disabled() == old(self).spec_disabled(),
            final(self).spec_placeholder_color() == old(self).spec_placeholder_color(),
            final(self).spec_disabled_color() == old(self).spec_disabled_color(),
            final(self).spec_area_pos() == old(self).spec_area_pos(),
            final(self).spec_last_size() == old(self).spec_last_size(),
            final(self).spec_last_hash() == old(self).spec_last_hash(),
    {
        proof {
            use_type_invariant(&*self);
        }
        let scroll: u16 = if last_height != height { 0 } else { self.scroll };
        let row = self.cursor_row();
        let r = Scroll::calc(ScrollData {
            current_index: row as usize,
            current_scroll: scroll as usize,
            total_lines: self.lines.len(),
            viewport_height: height,
            margins: ScrollMargins::zero(),
        });
        self.scroll = r as u16;
    }

    /// Where the cursor is drawn on screen.
    pub open spec fn spec_cursor_render_pos(&self) -> Pos {
        let p = self.spec_cursor_pos();
        Pos {
            col: self.spec_area_pos().col.wrapping_add(p.col),
            row: self.spec_area_pos().row.wrapping_add(p.row).saturating_sub(self.spec_scroll()),
        }
    }

    fn cursor_render_pos(&self) -> (r: Pos)
        ensures
            r == self.spec_cursor_render_pos(),
    {
        let p = self.cursor_pos();
        let row = self.area_pos.row.wrapping_add(p.row).saturating_sub(self.scroll);
        Pos { col: self.area_pos.col.wrapping_add(p.col), row }
    }

    /// Where the cursor was drawn.
    pub fn get_cursor_pos(&self) -> (r: Pos)
        ensures
            r == self.spec_cursor_render_pos(),
    {
        self.cursor_render_pos()
    }

    /// Whether the view is at the top and the cursor is on its first row.
    pub fn is_cursor_on_first_row(&self) -> (r: bool)
        ensures
            r == (self.spec_scroll() == 0 && self.spec_area_pos().row == self.spec_cursor_render_pos().row),
    {
        self.scroll == 0 && self.area_pos.row == self.get_cursor_pos().row
    }
}

} // verus!

verus! {

/// What is written for the graphemes of a line.
pub open spec fn glyphs(gs: Seq<Seq<char>>) -> Seq<char>
    decreases gs.len(),
{
    if gs.len() == 0 {
        Seq::empty()
    } else {
        editor_grender(gs[0]) + glyphs(gs.drop_first())
    }
}

/// The lines of the wrapped text `w` in view: from the `scroll`-th on, at
/// most `rows` of them.
pub open spec fn visible(ls: Seq<(int, int)>, scroll: int, rows: int) -> Seq<(int, int)> {
    let a = if scroll < ls.len() { scroll } else { ls.len() as int };
    let b = if a + rows < ls.len() { a + rows } else { ls.len() as int };
    ls.subrange(a, b)
}

/// The lines written one under the other from row `row` at column `col`.
pub open spec fn rows_output(w: Seq<char>, ls: Seq<(int, int)>, col: u16, row: int) -> Seq<char>
    decreases ls.len(),
{
    if ls.len() == 0 {
        Seq::empty()
    } else {
        move_to_code(col, row as u16) + glyphs(grapheme_clusters(w.subrange(ls[0].0, ls[0].1)))
            + rows_output(w, ls.drop_first(), col, row + 1)
    }
}

/// The graphemes of one line, starting at `index`, with the selection
/// `start..end` reversed; also whether reverse video was started and reset.
pub open spec fn sel_line(gs: Seq<Seq<char>>, index: int, start: int, end: int, found: bool, reset: bool) -> (Seq<char>, bool, bool)
    decreases gs.len(),
{
    if gs.len() == 0 {
        (Seq::empty(), found, reset)
    } else {
        let (pre, f, r) = if index >= start && !found {
            (Sgr::Reverse.ansi(), true, reset)
        } else if index >= end && found {
            (Sgr::NotReverse.ansi(), found, true)
        } else {
            (Seq::<char>::empty(), found, reset)
        };
        let rest = sel_line(gs.drop_first(), index + gs[0].len(), start, end, f, r);
        (pre + editor_grender(gs[0]) + rest.0, rest.1, rest.2)
    }
}

/// The lines in view with the selection `start..end` in reverse video: it
/// starts before the first grapheme at or past `start`, and a reset goes
/// before each grapheme at or past `end` after that.
pub open spec fn sel_rows(w: Seq<char>, ls: Seq<(int, int)>, col: u16, row: int, start: int, end: int, found: bool, reset: bool) -> Seq<char>
    decreases ls.len(),
{
    if ls.len() == 0 {
        if !reset && found {
            Sgr::NotReverse.ansi()
        } else {
            Seq::empty()
        }
    } else {
        let l = sel_line(grapheme_clusters(w.subrange(ls[0].0, ls[0].1)), ls[0].0, start, end, found, reset);
        move_to_code(col, row as u16) + l.0 + sel_rows(w, ls.drop_first(), col, row + 1, start, end, l.1, l.2)
    }
}

impl Editor {
    pub open spec fn text_output(&self, area: Rect, color: Option<Color>) -> Seq<char> {
        (match color {
            Some(c) => Sgr::Fg(c).ansi(),
            None => Seq::empty(),
        }) + rows_output(
            self.spec_wrapped(),
            visible(self.spec_lines(), self.spec_scroll() as int, area.size.rows as int),
            area.pos.col,
            area.pos.row as int,
        ) + (match color {
            Some(c) => Sgr::Fg(Color::Default).ansi(),
            None => Seq::empty(),
        })
    }

    pub open spec fn selection_output(&self, area: Rect, start: int, end: int) -> Seq<char> {
        sel_rows(
            self.spec_wrapped(),
            visible(self.spec_lines(), self.spec_scroll() as int, area.size.rows as int),
            area.pos.col,
            area.pos.row as int,
            start,
            end,
            false,
            false,
        )
    }

    /// The selected range, if it is not empty.
    pub open spec fn spec_selection(&self) -> Option<(int, int)> {
        match self.spec_selector() {
            Some(s) => if self.spec_cursor() < s {
                Some((self.spec_cursor() as int, s as int))
            } else if self.spec_cursor() > s {
                Some((s as int, self.spec_cursor() as int))
            } else {
                None
            },
            None => None,
        }
    }

    fn try_selection(&self) -> (r: Option<Range<usize>>)
        ensures
            match self.spec_selection() {
                Some((a, b)) => r matches Some(rg) && rg.start == a && rg.end == b,
                None => r is None,
            },
    {
        match self.selector {
            Some(s) => {
                if self.cursor < s {
                    Some(Range { start: self.cursor, end: s })
                } else if self.cursor > s {
                    Some(Range { start: s, end: self.cursor })
                } else {
                    None
                }
            },
            None => None,
        }
    }

    /// The first line in view and the line after the last.
    fn view_bounds(&self, rows: u16) -> (r: (usize, usize))
        ensures
            r.0 <= r.1 <= self.spec_lines().len(),
            visible(self.spec_lines(), self.spec_scroll() as int, rows as int)
                == self.spec_lines().subrange(r.0 as int, r.1 as int),
            r.1 - r.0 <= rows,
    {
        let len = self.lines.len();
        let a = if (self.scroll as usize) < len { self.scroll as usize } else { len };
        let b = if a + (rows as usize) < len { a + rows as usize } else { len };
        (a, b)
    }

    /// Writes the lines in view, in `color` where one is given.
    fn render_text(&self, area: Rect, frame: &mut Framebuffer, color: Option<Color>)
        requires
            area_fits(area),
        ensures
            final(frame).output() == old(frame).output() + self.text_output(area, color),
            final(frame).pending() == old(frame).pending(),
            final(frame).spec_size() == old(frame).spec_size(),
    {
        proof {
            use_type_invariant(self);
        }
        match color {
            Some(c) => frame.print_fmt(Sgr::Fg(c)),
            None => {},
        }
        let ghost head = frame.output();
        let (a, b) = self.view_bounds(area.size.rows);
        let ghost vis = self.spec_lines().subrange(a as int, b as int);
        let ghost w = self.spec_wrapped();
        let mut k: usize = a;
        assert(vis.skip(0) =~= vis);
        while k < b
            invariant
                a <= k <= b <= self.spec_lines().len(),
                b - a <= area.size.rows,
                area_fits(area),
                vis == self.spec_lines().subrange(a as int, b as int),
                w == self.spec_wrapped(),
                lines_cover(self.spec_lines(), w.len() as int),
                frame.output() + rows_output(w, vis.skip(k - a), area.pos.col, area.pos.row + (k - a))
                    == head + rows_output(w, vis, area.pos.col, area.pos.row as int),
                frame.pending() == old(frame).pending(),
                frame.spec_size() == old(frame).spec_size(),
            decreases b - k,
        {
            let ghost at = frame.output();
            let ghost j = k - a;
            proof {
                lemma_cover_bounds(self.spec_lines(), w.len() as int, k as int);
                assert(vis.skip(j)[0] == self.spec_lines()[k as int]);
                assert(vis.skip(j).drop_first() =~= vis.skip(j + 1));
                assert(self.spec_lines()[k as int] == (self.lines@[k as int].start as int, self.lines@[k as int].end as int));
            }
            let line = self.lines[k];
            let row = area.pos.row + (k - a) as u16;
            frame.cursor_move(Pos { col: area.pos.col, row });
            let seg = copy_range(self.wrapped.as_slice(), line.start, line.end);
            let gs = grapheme_chars(seg.as_slice());
            let ghost all = gs@.map_values(|g: Vec<char>| g@);
            let ghost mid = frame.output();
            let mut i: usize = 0;
            assert(all.skip(0) =~= all);
            while i < gs.len()
                invariant
                    all == gs@.map_values(|g: Vec<char>| g@),
                    i <= gs@.len(),
                    frame.output() + glyphs(all.skip(i as int)) == mid + glyphs(all),
                    frame.pending() == old(frame).pending(),
                    frame.spec_size() == old(frame).spec_size(),
                decreases gs@.len() - i,
            {
                let ghost at2 = frame.output();
                assert(all[i as int] == gs@[i as int]@);
                assert(all.skip(i as int)[0] == all[i as int]);
                assert(all.skip(i as int).drop_first() =~= all.skip(i as int + 1));
                let shown = grapheme_render(gs[i].as_slice());
                frame.print_chars(shown.as_slice());
                assert(at2 + glyphs(all.skip(i as int)) =~= (at2 + editor_grender(all[i as int])) + glyphs(all.skip(i as int + 1)));
                i = i + 1;
            }
            assert(all.skip(i as int) =~= Seq::<Seq<char>>::empty());
            proof {
                let rest = rows_output(w, vis.skip(j + 1), area.pos.col, area.pos.row + (j + 1));
                assert(row == (area.pos.row + j) as u16);
                assert(at + rows_output(w, vis.skip(j), area.pos.col, area.pos.row + j)
                    =~= (at + move_to_code(area.pos.col, row) + glyphs(all)) + rest);
            }
            k = k + 1;
        }
        assert(vis.skip(k - a) =~= Seq::<(int, int)>::empty());
        match color {
            Some(c) => frame.print_fmt(Sgr::Fg(Color::Default)),
            None => {},
        }
        assert(frame.output() =~= old(frame).output() + self.text_output(area, color));
    }
}

} // verus!

verus! {

/// Writes the graphemes of one line, which starts at `index`, with the
/// selection `start..end` reversed; returns whether reverse video was
/// started and reset.
fn write_sel_line(
    frame: &mut Framebuffer,
    seg: &[char],
    index: usize,
    start: usize,
    end: usize,
    found: bool,
    reset: bool,
) -> (r: (bool, bool))
    requires
        index + seg@.len() <= usize::MAX,
    ensures
        ({
            let l = sel_line(grapheme_clusters(seg@), index as int, start as int, end as int, found, reset);
            &&& final(frame).output() == old(frame).output() + l.0
            &&& r == (l.1, l.2)
        }),
        final(frame).pending() == old(frame).pending(),
        final(frame).spec_size() == old(frame).spec_size(),
{
    let gs = grapheme_chars(seg);
    let ghost all = gs@.map_values(|g: Vec<char>| g@);
    let ghost l = sel_line(all, index as int, start as int, end as int, found, reset);
    let ghost head = frame.output();
    let mut found = found;
    let mut reset = reset;
    let mut idx: usize = index;
    let mut i: usize = 0;
    assert(all.skip(0) =~= all);
    assert(all.take(0) =~= Seq::<Seq<char>>::empty());
    assert(head + l.0 =~= frame.output() + sel_line(all.skip(0), idx as int, start as int, end as int, found, reset).0);
    while i < gs.len()
        invariant
            all == gs@.map_values(|g: Vec<char>| g@),
            crate::text::concat(all) == seg@,
            index + seg@.len() <= usize::MAX,
            i <= gs@.len(),
            idx == index + crate::text::concat(all.take(i as int)).len(),
            ({
                let m = sel_line(all.skip(i as int), idx as int, start as int, end as int, found, reset);
                &&& frame.output() + m.0 == head + l.0
                &&& m.1 == l.1
                &&& m.2 == l.2
            }),
            frame.pending() == old(frame).pending(),
            frame.spec_size() == old(frame).spec_size(),
        decreases gs@.len() - i,
    {
        let ghost at = frame.output();
        let ghost (f1, r1, i0) = (found, reset, idx as int);
        assert(all[i as int] == gs@[i as int]@);
        assert(all.skip(i as int)[0] == all[i as int]);
        assert(all.skip(i as int).drop_first() =~= all.skip(i as int + 1));
        if idx >= start && !found {
            frame.print_fmt(Sgr::Reverse);
            found = true;
        } else if idx >= end && found {
            frame.print_fmt(Sgr::NotReverse);
            reset = true;
        }
        proof {
            crate::text::lemma_concat_step(all, i as int);
        }
        let glen = gs[i].len();
        assert(idx + glen <= index + seg@.len());
        idx = idx + glen;
        let shown = grapheme_render(gs[i].as_slice());
        frame.print_chars(shown.as_slice());
        proof {
            let g = all[i as int];
            let m2 = sel_line(all.skip(i as int + 1), idx as int, start as int, end as int, found, reset);
            let pre = if i0 >= start && !f1 {
                Sgr::Reverse.ansi()
            } else if i0 >= end && f1 {
                Sgr::NotReverse.ansi()
            } else {
                Seq::<char>::empty()
            };
            assert(sel_line(all.skip(i as int), i0, start as int, end as int, f1, r1) == (pre + editor_grender(g) + m2.0, m2.1, m2.2));
            assert(at + (pre + editor_grender(g) + m2.0) =~= frame.output() + m2.0);
        }
        i = i + 1;
    }
    assert(all.skip(i as int) =~= Seq::<Seq<char>>::empty());
    assert(frame.output() + Seq::<char>::empty() =~= frame.output());
    (found, reset)
}

impl Editor {
    /// Writes the lines in view with `selector` in reverse video.
    #[verifier::rlimit(50)]
    #[verifier::spinoff_prover]
    fn render_text_with_selection(&self, area: Rect, frame: &mut Framebuffer, selector: Range<usize>)
        requires
            area_fits(area),
        ensures
            final(frame).output() == old(frame).output()
                + self.selection_output(area, selector.start as int, selector.end as int),
            final(frame).pending() == old(frame).pending(),
            final(frame).spec_size() == old(frame).spec_size(),
    {
        proof {
            use_type_invariant(self);
        }
        let mut found = false;
        let mut reset = false;
        let ghost head = frame.output();
        let ghost (st, en) = (selector.start as int, selector.end as int);
        let (a, b) = self.view_bounds(area.size.rows);
        let ghost vis = self.spec_lines().subrange(a as int, b as int);
        let ghost w = self.spec_wrapped();
        let mut k: usize = a;
        assert(vis.skip(0) =~= vis);
        while k < b
            invariant
                a <= k <= b <= self.spec_lines().len(),
                b - a <= area.size.rows,
                area_fits(area),
                st == selector.start,
                en == selector.end,
                vis == self.spec_lines().subrange(a as int, b as int),
                w == self.spec_wrapped(),
                lines_cover(self.spec_lines(), w.len() as int),
                frame.output() + sel_rows(w, vis.skip(k - a), area.pos.col, area.pos.row + (k - a), st, en, found, reset)
                    == head + sel_rows(w, vis, area.pos.col, area.pos.row as int, st, en, false, false),
                frame.pending() == old(frame).pending(),
                frame.spec_size() == old(frame).spec_size(),
            decreases b - k,
        {
            let ghost at = frame.output();
            let ghost j = k - a;
            let ghost (f0, r0) = (found, reset);
            proof {
                lemma_cover_bounds(self.spec_lines(), w.len() as int, k as int);
                assert(vis.skip(j)[0] == self.spec_lines()[k as int]);
                assert(vis.skip(j).drop_first() =~= vis.skip(j + 1));
                assert(self.spec_lines()[k as int] == (self.lines@[k as int].start as int, self.lines@[k as int].end as int));
            }
            let line = self.lines[k];
            let row = area.pos.row + (k - a) as u16;
            frame.cursor_move(Pos { col: area.pos.col, row });
            let seg = copy_range(self.wrapped.as_slice(), line.start, line.end);
            let gs = grapheme_chars(seg.as_slice());
            let ghost all = gs@.map_values(|g: Vec<char>| g@);
            let ghost rest_rows = vis.skip(j + 1);
            let ghost next_row = area.pos.row + (j + 1);
            let ghost mid = frame.output();
            assert(row == (area.pos.row + j) as u16);
            let ghost l = sel_line(grapheme_clusters(seg@), line.start as int, st, en, f0, r0);
            assert(at + sel_rows(w, vis.skip(j), area.pos.col, area.pos.row + j, st, en, f0, r0)
                =~= mid + l.0 + sel_rows(w, rest_rows, area.pos.col, next_row, st, en, l.1, l.2));
            let (f, r) = write_sel_line(frame, seg.as_slice(), line.start, selector.start, selector.end, found, reset);
            found = f;
            reset = r;
            k = k + 1;
        }
        assert(vis.skip(k - a) =~= Seq::<(int, int)>::empty());
        if !reset && found {
            frame.print_fmt(Sgr::NotReverse);
        } else {
            assert(frame.output() + Seq::<char>::empty() =~= frame.output());
        }
        assert(frame.output() =~= old(frame).output()
            + self.selection_output(area, selector.start as int, selector.end as int));
    }

    /// Writes the placeholder in `color` and lays it out at the area.
    fn render_placeholder(&self, area: Rect, frame: &mut Framebuffer, color: Color)
        requires
            area_fits(area),
        ensures
            final(frame).output() == old(frame).output()
                + placeholder_output(area, old(frame).pending(), self.spec_placeholder(), color),
            final(frame).pending() == Seq::<char>::empty(),
            final(frame).spec_size() == old(frame).spec_size(),
    {
        frame.push_fmt(Sgr::Fg(color));
        frame.push_str(self.placeholder);
        frame.push_fmt(Sgr::Fg(Color::Default));
        frame.render(area, TextOptions::span());
    }
}

} // verus!

verus! {

impl Editor {
    /// The text, the cursor, the selector, the placeholder, the margins,
    /// the disabled flag and the colors are as in `other`.
    pub open spec fn same_content(&self, other: &Editor) -> bool {
        &&& self.edit_state() == other.edit_state()
        &&& self.spec_placeholder() == other.spec_placeholder()
        &&& self.spec_margins() == other.spec_margins()
        &&& self.spec_disabled() == other.spec_disabled()
        &&& self.spec_placeholder_color() == other.spec_placeholder_color()
        &&& self.spec_disabled_color() == other.spec_disabled_color()
    }

    /// Everything that rendering may change is as in `other`.
    pub open spec fn same_layout(&self, other: &Editor) -> bool {
        &&& self.spec_wrapped() == other.spec_wrapped()
        &&& self.spec_lines() == other.spec_lines()
        &&& self.spec_preferred_column() == other.spec_preferred_column()
        &&& self.spec_last_size() == other.spec_last_size()
        &&& self.spec_last_hash() == other.spec_last_hash()
    }

    /// Draws the editor in `area` and places the terminal cursor.
    ///
    /// An empty editor shows its placeholder (in the disabled color when
    /// disabled, and then without placing the cursor). Otherwise the text is
    /// laid out again where the width or the text changed, scrolled to keep
    /// the cursor's line in view, and drawn: in the disabled color when
    /// disabled, else with the selection in reverse video, followed by the
    /// cursor.
    pub fn render(&mut self, area: Rect, frame: &mut Framebuffer)
        requires
            !area.size.spec_is_empty() ==> area_fits(area),
        ensures
            final(self).same_content(&*old(self)),
            final(self).spec_area_pos() == area.pos,
            final(frame).spec_size() == old(frame).spec_size(),
            area.size.spec_is_empty() ==> {
                &&& *final(frame) == *old(frame)
                &&& final(self).spec_scroll() == old(self).spec_scroll()
                &&& final(self).same_layout(&*old(self))
            },
            !area.size.spec_is_empty() && old(self).text().len() == 0 ==> {
                let color = if old(self).spec_disabled() {
                    old(self).spec_disabled_color()
                } else {
                    old(self).spec_placeholder_color()
                };
                let tail = if old(self).spec_disabled() {
                    Seq::<char>::empty()
                } else {
                    move_to_code(area.pos.col, area.pos.row)
                };
                &&& final(self).spec_scroll() == 0
                &&& final(self).same_layout(&*old(self))
                &&& final(frame).output() == old(frame).output()
                    + placeholder_output(area, old(frame).pending(), old(self).spec_placeholder(), color) + tail
                &&& final(frame).pending() == Seq::<char>::empty()
            },
            !area.size.spec_is_empty() && old(self).text().len() > 0 ==> {
                let shown = if old(self).spec_disabled() {
                    final(self).text_output(area, Some(old(self).spec_disabled_color()))
                } else {
                    match final(self).spec_selection() {
                        Some((a, b)) => final(self).selection_output(area, a, b),
                        None => final(self).text_output(area, None),
                    }
                };
                let cursor = final(self).spec_cursor_render_pos();
                let tail = if old(self).spec_disabled() || cursor.col == u16::MAX || cursor.row == u16::MAX {
                    Seq::<char>::empty()
                } else {
                    move_to_code(cursor.col, cursor.row)
                };
                &&& relaid(&*old(self), &*final(self), old(self).spec_last_size(), area.size)
                &&& final(self).spec_scroll() == final(self).rescrolled(
                    old(self).spec_scroll(),
                    old(self).spec_last_size().rows,
                    area.size.rows,
                )
                &&& final(frame).output() == old(frame).output() + shown + tail
                &&& final(frame).pending() == old(frame).pending()
            },
    {
        proof {
            use_type_invariant(&*self);
        }
        self.area_pos = area.pos;
        if area.is_empty() {
            return;
        }
        let last_size = self.last_size;
        if self.disabled {
            if self.input.len() == 0 {
                self.scroll = 0;
                self.render_placeholder(area, frame, self.colors.disabled);
                assert(frame.output() + Seq::<char>::empty() =~= frame.output());
            } else {
                self.process_input(last_size, area.size);
                self.update_scroll(last_size.rows, area.size.rows);
                self.render_text(area, frame, Some(self.colors.disabled));
                assert(frame.output() + Seq::<char>::empty() =~= frame.output());
            }
            return;
        }
        if self.input.len() == 0 {
            self.scroll = 0;
            self.render_placeholder(area, frame, self.colors.placeholder);
            frame.cursor_move(area.pos);
            return;
        }
        self.process_input(last_size, area.size);
        self.update_scroll(last_size.rows, area.size.rows);
        match self.try_selection() {
            Some(range) => self.render_text_with_selection(area, frame, range),
            None => self.render_text(area, frame, None),
        }
        let pos = self.cursor_render_pos();
        if pos.col < u16::MAX && pos.row < u16::MAX {
            frame.cursor_move(pos);
        } else {
            assert(frame.output() + Seq::<char>::empty() =~= frame.output());
        }
    }
}

/// The visual lines that `layout` makes tile the laid-out text: the first
/// starts at its start, each starts where the one before ends, none ends
/// before it starts, and the last ends at the end.
pub proof fn lemma_layout_tiles(gs: Seq<Seq<char>>, max: int)
    ensures
        layout(gs, 0, 0, 0, max).len() >= 1,
        lines_cover(layout(gs, 0, 0, 0, max), crate::text::concat(gs).len() as int),
{
    lemma_layout_general(gs, 0, 0, 0, max);
}

proof fn lemma_layout_general(gs: Seq<Seq<char>>, pos: int, start: int, column: int, max: int)
    requires
        start <= pos,
    ensures
        ({
            let ls = layout(gs, pos, start, column, max);
            &&& ls.len() >= 1
            &&& ls[0].0 == start
            &&& ls.last().1 == pos + crate::text::concat(gs).len()
            &&& forall|k: int| 0 <= k < ls.len() ==> #[trigger] ls[k].0 <= ls[k].1
            &&& forall|k: int| 0 <= k < ls.len() - 1 ==> #[trigger] ls[k].1 == ls[k + 1].0
        }),
    decreases gs.len(),
{
    let ls = layout(gs, pos, start, column, max);
    if gs.len() == 0 {
        assert(crate::text::concat(gs) == Seq::<char>::empty());
    } else {
        let g = gs[0];
        let rest = gs.drop_first();
        let next = pos + g.len();
        assert(gs =~= seq![g] + rest);
        crate::text::lemma_concat_front(g, rest);
        if g.contains('\n') {
            lemma_layout_general(rest, next, next, 0, max);
            let tail = layout(rest, next, next, 0, max);
            assert(ls == seq![(start, next)] + tail);
            assert forall|k: int| 0 <= k < ls.len() - 1 implies #[trigger] ls[k].1 == ls[k + 1].0 by {
                if k > 0 {
                    assert(ls[k] == tail[k - 1] && ls[k + 1] == tail[k]);
                }
            }
            assert forall|k: int| 0 <= k < ls.len() implies #[trigger] ls[k].0 <= ls[k].1 by {
                if k > 0 {
                    assert(ls[k] == tail[k - 1]);
                }
            }
        } else if column + editor_gwidth(g) > max {
            lemma_layout_general(rest, next, pos, editor_gwidth(g) as int, max);
            let tail = layout(rest, next, pos, editor_gwidth(g) as int, max);
            assert(ls == seq![(start, pos)] + tail);
            assert forall|k: int| 0 <= k < ls.len() - 1 implies #[trigger] ls[k].1 == ls[k + 1].0 by {
                if k > 0 {
                    assert(ls[k] == tail[k - 1] && ls[k + 1] == tail[k]);
                }
            }
            assert forall|k: int| 0 <= k < ls.len() implies #[trigger] ls[k].0 <= ls[k].1 by {
                if k > 0 {
                    assert(ls[k] == tail[k - 1]);
                }
            }
        } else {
            lemma_layout_general(rest, next, start, column + editor_gwidth(g), max);
        }
    }
}

/// Where the width or the text changed, the layout that `Editor::render`
/// makes anew keeps the text but for spaces turned into line breaks, and
/// its visual lines, at least one, tile the wrapped text from its start to
/// its end, each starting where the one before ends.
pub proof fn lemma_relayout(old: Editor, new: Editor, last_size: Size, size: Size)
    requires
        relaid(&old, &new, last_size, size),
        last_size.cols != size.cols || old.spec_last_hash() != hash_of(old.text()),
    ensures
        breaks_only(old.text(), new.spec_wrapped()),
        new.spec_lines().len() >= 1,
        lines_cover(new.spec_lines(), new.spec_wrapped().len() as int),
{
}

/// `Editor::input` dispatches each key to the matching operation: while
/// disabled no key changes anything or asks for a redraw; otherwise the
/// arrows, Home and End do what `move_forward`, `move_backward`,
/// `move_up`, `move_down`, `move_to_start` and `move_to_end` do with Shift
/// as the extend flag (the same state and the same result), Backspace and
/// Delete what `delete_backward` and `delete_forward` do, Enter what
/// `push_newline` does and asks for a redraw, Ctrl+A what `select_all`
/// does, any other character what `push_char` does and asks for a redraw,
/// and any other key changes nothing and asks for none. Each right-hand
/// side below is the state and result that operation's contract gives.
pub proof fn lemma_input_dispatch(e: Editor, key: KeyCode, mods: KeyModifiers)
    ensures
        e.spec_disabled() ==> e.after_key(key, mods) == (e.cursor_state(), false),
        !e.spec_disabled() ==> e.after_key(key, mods) == match key {
            KeyCode::Right => e.with_change(e.after_move(CursorMove::Forward, mods.shift_held())),
            KeyCode::Left => e.with_change(e.after_move(CursorMove::Back, mods.shift_held())),
            KeyCode::Up => e.with_change(e.after_move(CursorMove::Up, mods.shift_held())),
            KeyCode::Down => e.with_change(e.after_move(CursorMove::Down, mods.shift_held())),
            KeyCode::Home => e.with_change(e.after_move(CursorMove::Start, mods.shift_held())),
            KeyCode::End => e.with_change(e.after_move(CursorMove::End, mods.shift_held())),
            KeyCode::Backspace => e.edited(e.after_delete_backward()),
            KeyCode::Delete => e.edited(e.after_delete_forward()),
            KeyCode::Enter => (e.with_edit(e.after_push(seq!['\n'])), true),
            KeyCode::Char(c) => if c == 'a' && mods.control_held() {
                e.with_change(e.after_select_all())
            } else {
                (e.with_edit(e.after_push(seq![c])), true)
            },
            _ => (e.cursor_state(), false),
        },
{
}

/// Backspace undoes typing a printable ASCII character after ASCII text:
/// `push_char` leaves the character just before the cursor, alone in its
/// grapheme cluster, so `delete_backward` removes exactly it and puts the
/// cursor back.
pub proof fn lemma_backspace_undoes_push(e: Editor, ch: char)
    requires
        e.spec_selector() is None,
        e.spec_cursor() <= e.text().len() < usize::MAX,
        0x20 <= (ch as u32) <= 0x7e,
        e.spec_cursor() > 0 ==> (e.text()[e.spec_cursor() - 1] as u32) < 0x80,
    ensures
        ({
            let (t, c, sel) = e.after_push(seq![ch]);
            &&& sel is None
            &&& c == e.spec_cursor() + 1
            &&& ends_in_lone_ascii(t.subrange(0, c as int))
            &&& cut(t, c - 1, c as int) == e.text()
        }),
{
    let (t, c, sel) = e.after_push(seq![ch]);
    let n = e.spec_cursor() as int;
    assert(t.subrange(0, c as int) =~= e.text().subrange(0, n).push(ch));
    assert(cut(t, c - 1, c as int) =~= e.text());
}

/// Delete and Backspace in the editor remove on their own side of the
/// cursor: with no selection, Delete keeps the text before the cursor and
/// the cursor, dropping the first grapheme cluster after it; Backspace
/// keeps the text from the cursor on, dropping the last grapheme cluster
/// before it and moving the cursor back over it. Both keep the preferred
/// column, and change nothing where there is nothing on their side.
pub proof fn lemma_delete_keys_sides(e: Editor, mods: KeyModifiers)
    requires
        !e.spec_disabled(),
        e.spec_selector() is None,
        e.spec_cursor() <= e.text().len(),
    ensures
        ({
            let t = e.text();
            let c = e.spec_cursor() as int;
            let after = grapheme_clusters(t.subrange(c, t.len() as int));
            let ((t2, c2, sel, pref), redraw) = e.after_key(KeyCode::Delete, mods);
            &&& after.len() > 0 ==> {
                &&& t2.subrange(0, c) == t.subrange(0, c)
                &&& t2.subrange(c, t2.len() as int) == t.subrange(c + after[0].len(), t.len() as int)
                &&& c2 == e.spec_cursor()
                &&& sel is None
                &&& pref == e.spec_preferred_column()
                &&& redraw
            }
            &&& after.len() == 0 ==> (t2, c2, sel, pref) == e.cursor_state() && !redraw
        }),
        ({
            let t = e.text();
            let c = e.spec_cursor() as int;
            let before = grapheme_clusters(t.subrange(0, c));
            let ((t2, c2, sel, pref), redraw) = e.after_key(KeyCode::Backspace, mods);
            &&& before.len() > 0 && before.last().len() <= c ==> {
                &&& c2 == c - before.last().len()
                &&& t2.subrange(0, c2 as int) == t.subrange(0, c2 as int)
                &&& t2.subrange(c2 as int, t2.len() as int) == t.subrange(c, t.len() as int)
                &&& sel is None
                &&& pref == e.spec_preferred_column()
                &&& redraw
            }
            &&& before.len() == 0 ==> (t2, c2, sel, pref) == e.cursor_state() && !redraw
        }),
{
    let t = e.text();
    let c = e.spec_cursor() as int;
    let after = grapheme_clusters(t.subrange(c, t.len() as int));
    if after.len() > 0 {
        let t2 = cut(t, c, c + after[0].len());
        assert(t2.subrange(0, c) =~= t.subrange(0, c));
        assert(t2.subrange(c, t2.len() as int) =~= t.subrange(c + after[0].len(), t.len() as int));
    }
    let before = grapheme_clusters(t.subrange(0, c));
    if before.len() > 0 && before.last().len() <= c {
        let c2 = c - before.last().len();
        let t2 = cut(t, c2, c);
        assert(t2.subrange(0, c2) =~= t.subrange(0, c2));
        assert(t2.subrange(c2, t2.len() as int) =~= t.subrange(c, t.len() as int));
    }
}

/// The columns the graphemes `gs` take, one after the other.
pub open spec fn graphemes_columns(gs: Seq<Seq<char>>) -> int
    decreases gs.len(),
{
    if gs.len() == 0 {
        0
    } else {
        graphemes_columns(gs.drop_last()) + editor_gwidth(gs.last())
    }
}

/// Going to a column in a visual line takes the longest run of its first
/// graphemes that holds no line break and fits in the columns left: a
/// grapheme with a line break is never passed, and the walk stops only at
/// the end, at a line break, or before a grapheme that would not fit.
pub proof fn lemma_col_walk_prefix(gs: Seq<Seq<char>>, target: int, column: int, index: int)
    ensures
        exists|m: int|
            0 <= m <= gs.len() && {
                &&& col_walk(gs, target, column, index) == index + crate::text::concat(#[trigger] gs.take(m)).len()
                &&& forall|k: int| 0 <= k < m ==> !(#[trigger] gs[k]).contains('\n')
                &&& m > 0 ==> column + graphemes_columns(gs.take(m)) <= target
                &&& m < gs.len() ==> gs[m].contains('\n') || column + graphemes_columns(gs.take(m)) + editor_gwidth(gs[m]) > target
            },
    decreases gs.len(),
{
    if gs.len() == 0 || gs[0].contains('\n') || column + editor_gwidth(gs[0]) > target {
        assert(gs.take(0) =~= Seq::<Seq<char>>::empty());
        assert(crate::text::concat(gs.take(0)) == Seq::<char>::empty());
        assert(graphemes_columns(gs.take(0)) == 0);
    } else {
        let g = gs[0];
        let rest = gs.drop_first();
        let c2 = column + editor_gwidth(g);
        lemma_col_walk_prefix(rest, target, c2, index + g.len());
        let m = choose|m: int|
            0 <= m <= rest.len() && {
                &&& col_walk(rest, target, c2, index + g.len()) == index + g.len() + crate::text::concat(#[trigger] rest.take(m)).len()
                &&& forall|k: int| 0 <= k < m ==> !(#[trigger] rest[k]).contains('\n')
                &&& m > 0 ==> c2 + graphemes_columns(rest.take(m)) <= target
                &&& m < rest.len() ==> rest[m].contains('\n') || c2 + graphemes_columns(rest.take(m)) + editor_gwidth(rest[m]) > target
            };
        lemma_front_concat_columns(g, rest, m);
        assert(gs.take(m + 1) =~= seq![g] + rest.take(m));
        assert forall|k: int| 0 <= k < m + 1 implies !(#[trigger] gs[k]).contains('\n') by {
            if k > 0 {
                assert(gs[k] == rest[k - 1]);
            }
        }
        if m + 1 < gs.len() {
            assert(gs[m + 1] == rest[m]);
        }
    }
}

proof fn lemma_front_concat_columns(g: Seq<char>, rest: Seq<Seq<char>>, m: int)
    requires
        0 <= m <= rest.len(),
    ensures
        crate::text::concat(seq![g] + rest.take(m)) == g + crate::text::concat(rest.take(m)),
        graphemes_columns(seq![g] + rest.take(m)) == editor_gwidth(g) + graphemes_columns(rest.take(m)),
    decreases m,
{
    crate::text::lemma_concat_front(g, rest.take(m));
    if m > 0 {
        lemma_front_concat_columns(g, rest, m - 1);
        assert((seq![g] + rest.take(m)).drop_last() =~= seq![g] + rest.take(m - 1));
        assert(rest.take(m).drop_last() =~= rest.take(m - 1));
    } else {
        assert(seq![g] + rest.take(0) =~= seq![g]);
        assert(seq![g].drop_last() =~= Seq::<Seq<char>>::empty());
        assert(rest.take(0) =~= Seq::<Seq<char>>::empty());
    }
}

/// Where a walk to column `target` through the graphemes `gs` of a line
/// stops after `m` of them: none of those holds a line break, they fit in
/// `target` columns, and the next one, if any, holds a line break or would
/// not fit.
pub open spec fn stops_at_column(gs: Seq<Seq<char>>, target: int, m: int) -> bool {
    &&& 0 <= m <= gs.len()
    &&& forall|k: int| 0 <= k < m ==> !(#[trigger] gs[k]).contains('\n')
    &&& m > 0 ==> graphemes_columns(gs.take(m)) <= target
    &&& m < gs.len() ==> gs[m].contains('\n') || graphemes_columns(gs.take(m)) + editor_gwidth(gs[m]) > target
}

/// The graphemes of visual line `r`.
pub open spec fn line_graphemes(w: Seq<char>, ls: Seq<(int, int)>, r: int) -> Seq<Seq<char>> {
    grapheme_clusters(w.subrange(ls[r].0, ls[r].1))
}

/// The index after the first `m` graphemes of visual line `r`, kept
/// within a text of `len` characters.
pub open spec fn walked_index(w: Seq<char>, ls: Seq<(int, int)>, r: int, m: int, len: int) -> int {
    let i = ls[r].0 + crate::text::concat(line_graphemes(w, ls, r).take(m)).len();
    if i < len { i } else { len }
}

/// Up and Down keep the preferred column and go to the visual line above
/// or below the cursor's, to the point in it that the preferred column
/// reaches without passing a line break (kept within the text); from the
/// first or the last line they leave the cursor where it is.
pub proof fn lemma_vertical_move_in_neighbour_line(e: Editor)
    ensures
        ({
            let t = e.text();
            let c = e.spec_cursor() as int;
            let pref = e.spec_preferred_column();
            let w = e.spec_wrapped();
            let ls = e.spec_lines();
            let row = row_of(ls, c) as int;
            let (up, up_pref) = e.moved(CursorMove::Up);
            let (down, down_pref) = e.moved(CursorMove::Down);
            &&& up_pref == pref
            &&& down_pref == pref
            &&& row == 0 ==> up == c
            &&& row > 0 ==> exists|m: int|
                #[trigger] stops_at_column(line_graphemes(w, ls, row - 1), pref as int, m)
                    && up == walked_index(w, ls, row - 1, m, t.len() as int)
            &&& row + 1 >= (ls.len() as u16) ==> down == c
            &&& row + 1 < (ls.len() as u16) ==> exists|m: int|
                #[trigger] stops_at_column(line_graphemes(w, ls, row + 1), pref as int, m)
                    && down == walked_index(w, ls, row + 1, m, t.len() as int)
        }),
{
    let c = e.spec_cursor() as int;
    let ls = e.spec_lines();
    let w = e.spec_wrapped();
    let pref = e.spec_preferred_column() as int;
    let row = row_of(ls, c) as int;
    if row > 0 {
        let (s, end) = ls[row - 1];
        let gs = grapheme_clusters(w.subrange(s, end));
        lemma_col_walk_prefix(gs, pref, 0, s);
        let m = choose|m: int|
            0 <= m <= gs.len() && {
                &&& col_walk(gs, pref, 0, s) == s + crate::text::concat(#[trigger] gs.take(m)).len()
                &&& forall|k: int| 0 <= k < m ==> !(#[trigger] gs[k]).contains('\n')
                &&& m > 0 ==> 0 + graphemes_columns(gs.take(m)) <= pref
                &&& m < gs.len() ==> gs[m].contains('\n') || 0 + graphemes_columns(gs.take(m)) + editor_gwidth(gs[m]) > pref
            };
        assert(stops_at_column(line_graphemes(w, ls, row - 1), pref, m));
        assert(e.moved(CursorMove::Up).0 == walked_index(w, ls, row - 1, m, e.text().len() as int));
    }
    if row + 1 < (ls.len() as u16) {
        let (s, end) = ls[row + 1];
        let gs = grapheme_clusters(w.subrange(s, end));
        lemma_col_walk_prefix(gs, pref, 0, s);
        let m = choose|m: int|
            0 <= m <= gs.len() && {
                &&& col_walk(gs, pref, 0, s) == s + crate::text::concat(#[trigger] gs.take(m)).len()
                &&& forall|k: int| 0 <= k < m ==> !(#[trigger] gs[k]).contains('\n')
                &&& m > 0 ==> 0 + graphemes_columns(gs.take(m)) <= pref
                &&& m < gs.len() ==> gs[m].contains('\n') || 0 + graphemes_columns(gs.take(m)) + editor_gwidth(gs[m]) > pref
            };
        assert(stops_at_column(line_graphemes(w, ls, row + 1), pref, m));
        assert(e.moved(CursorMove::Down).0 == walked_index(w, ls, row + 1, m, e.text().len() as int));
    }
}

/// The moving keys of the editor leave the text as it is: Right steps over
/// the first grapheme cluster after the cursor, Left over the last one
/// before it, Home and End go to the start and the end of the text.
/// Without Shift the selection is dropped; with Shift it is anchored where
/// it was, or where the cursor started, and dropped where the cursor comes
/// back to its anchor. In an empty editor nothing moves.
pub proof fn lemma_editor_horizontal_moves(e: Editor, shift: bool, cm: CursorMove)
    requires
        cm is Forward || cm is Back || cm is Start || cm is End,
    ensures
        ({
            let t = e.text();
            let c = e.spec_cursor() as int;
            let after = grapheme_clusters(t.subrange(c, t.len() as int));
            let before = grapheme_clusters(t.subrange(0, c));
            let target = match cm {
                CursorMove::Forward => if after.len() > 0 { c + after[0].len() } else { c },
                CursorMove::Back => if before.len() > 0 { c - before.last().len() } else { c },
                CursorMove::Start => 0,
                _ => t.len() as int,
            };
            let anchor = match e.spec_selector() {
                Some(s) => s as int,
                None => c,
            };
            let (t2, c2, sel, _) = e.after_move(cm, shift);
            &&& t2 == t
            &&& t.len() == 0 ==> e.after_move(cm, shift) == e.cursor_state()
            &&& t.len() > 0 ==> {
                &&& c2 == target as usize
                &&& !shift ==> sel is None
                &&& shift ==> sel == if anchor == target { None } else { Some(anchor as usize) }
            }
        }),
{
}

/// Typing with no selection inserts at the cursor: the text before the
/// cursor stays, the typed characters follow it, then the text that was
/// after the cursor, and the cursor ends after what was typed. Enter types
/// a line break and any other character key (but Ctrl+A) that character.
pub proof fn lemma_typing_inserts_at_cursor(e: Editor, s: Seq<char>, mods: KeyModifiers, ch: char)
    requires
        e.spec_selector() is None,
        e.spec_cursor() <= e.text().len(),
        e.spec_cursor() + s.len() <= usize::MAX,
        e.spec_cursor() + 1 <= usize::MAX,
    ensures
        ({
            let t = e.text();
            let c = e.spec_cursor() as int;
            let (t2, c2, sel) = e.after_push(s);
            &&& t2.subrange(0, c) == t.subrange(0, c)
            &&& t2.subrange(c, c + s.len()) == s
            &&& t2.subrange(c + s.len(), t2.len() as int) == t.subrange(c, t.len() as int)
            &&& c2 == c + s.len()
            &&& sel is None
        }),
        !e.spec_disabled() ==> e.after_key(KeyCode::Enter, mods) == (e.with_edit(e.after_push(seq!['\n'])), true),
        !e.spec_disabled() && !(ch == 'a' && mods.control_held()) ==> e.after_key(KeyCode::Char(ch), mods)
            == (e.with_edit(e.after_push(seq![ch])), true),
{
    let t = e.text();
    let c = e.spec_cursor() as int;
    let t2 = t.subrange(0, c) + s + t.subrange(c, t.len() as int);
    assert(t2.subrange(0, c) =~= t.subrange(0, c));
    assert(t2.subrange(c, c + s.len()) =~= s);
    assert(t2.subrange(c + s.len(), t2.len() as int) =~= t.subrange(c, t.len() as int));
}

} // verus!
