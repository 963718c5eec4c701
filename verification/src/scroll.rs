//! Scrolling: the offset that keeps a line in view, and the scrollbar.
use vstd::prelude::*;

use crate::layout::{Pos, Rect, Size};
use crate::style::{AnsiDisplay, Color, Sgr};
use crate::term::{move_to_code, Framebuffer};

verus! {

/// What a scrollbar is drawn in.
#[derive(Debug, Clone, Copy, PartialEq, Eq, Structural)]
pub struct ScrollbarColors {
    pub thumb: Color,
    pub track: Option<Color>,
}

impl ScrollbarColors {
    /// A grey thumb and no track.
    pub fn default_colors() -> (r: Self)
        ensures
            r.thumb == Color::Indexed(240),
            r.track is None,
    {
        ScrollbarColors { thumb: Color::Indexed(240), track: None }
    }

    pub fn new(thumb: Color, track: Option<Color>) -> (r: Self)
        ensures
            r.thumb == thumb,
            r.track == track,
    {
        ScrollbarColors { thumb, track }
    }
}

impl Default for ScrollbarColors {
    fn default() -> (r: Self)
        ensures
            r.thumb == Color::Indexed(240),
            r.track is None,
    {
        Self::default_colors()
    }
}

/// Where a scrollable view stands.
#[derive(Debug, Clone, Copy, PartialEq, Eq, Structural)]
pub struct ScrollbarData {
    pub current_scroll: usize,
    pub total_items: usize,
    pub viewport_height: u16,
}

/// A vertical scrollbar.
#[derive(Debug, Clone, Copy, PartialEq, Eq, Structural)]
pub struct Scrollbar {
    pub colors: ScrollbarColors,
}

impl Scrollbar {
    pub fn new() -> (r: Self)
        ensures
            r.colors == (ScrollbarColors { thumb: Color::Indexed(240), track: None }),
    {
        Scrollbar { colors: ScrollbarColors::default_colors() }
    }

    pub fn colors(colors: ScrollbarColors) -> (r: Self)
        ensures
            r.colors == colors,
    {
        Scrollbar { colors }
    }

    pub fn with_colors(self, colors: ScrollbarColors) -> (r: Self)
        ensures
            r.colors == colors,
    {
        let mut s = self;
        s.colors = colors;
        s
    }
}

/// The rows of a scrollbar with a track: each row its glyph in its color.
pub open spec fn track_rows(col: u16, row: u16, n: nat, start: int, end: int, thumb: Color, track: Color) -> Seq<char>
    decreases n,
{
    if n == 0 {
        Seq::empty()
    } else {
        let i = n - 1;
        let is_thumb = start <= i < end;
        track_rows(col, row, (n - 1) as nat, start, end, thumb, track) + move_to_code(col, (row + i) as u16)
            + Sgr::Fg(if is_thumb { thumb } else { track }).ansi() + seq![if is_thumb { '┃' } else { '│' }]
    }
}

/// The rows of a scrollbar without a track: only the thumb's rows.
pub open spec fn thumb_rows(col: u16, row: u16, n: nat, start: int, end: int) -> Seq<char>
    decreases n,
{
    if n == 0 {
        Seq::empty()
    } else {
        let i = n - 1;
        thumb_rows(col, row, (n - 1) as nat, start, end) + if start <= i < end {
            move_to_code(col, (row + i) as u16) + seq!['│']
        } else {
            Seq::empty()
        }
    }
}

/// What a scrollbar writes for a thumb over rows `start..start + size`.
pub open spec fn scrollbar_output(colors: ScrollbarColors, area: Rect, start: u16, size: u16) -> Seq<char> {
    let end = start + size;
    match colors.track {
        Some(track) => track_rows(area.pos.col, area.pos.row, area.size.rows as nat, start as int, end, colors.thumb, track)
            + Sgr::Fg(Color::Default).ansi(),
        None => Sgr::Fg(colors.thumb).ansi() + thumb_rows(area.pos.col, area.pos.row, area.size.rows as nat, start as int, end)
            + Sgr::Fg(Color::Default).ansi(),
    }
}

impl Scrollbar {
    /// Draws the scrollbar down the first column of `area`, its thumb over
    /// the rows `start..start + size` counted from the top of the area.
    pub fn render_thumb(self, area: Rect, frame: &mut Framebuffer, start: u16, size: u16)
        requires
            start + size <= u16::MAX,
            area.pos.col < u16::MAX,
            area.spec_bottom_out() <= u16::MAX,
        ensures
            final(frame).output() == old(frame).output() + scrollbar_output(self.colors, area, start, size),
            final(frame).pending() == old(frame).pending(),
            final(frame).spec_size() == old(frame).spec_size(),
    {
        let end: u16 = start + size;
        let mut pos = area.pos;
        let mut i: u16 = 0;
        match self.colors.track {
            Some(track_color) => {
                let ghost begin = frame.output();
                while i < area.size.rows
                    invariant
                        i <= area.size.rows,
                        pos.col == area.pos.col,
                        pos.row == area.pos.row + i,
                        area.pos.col < u16::MAX,
                        area.spec_bottom_out() <= u16::MAX,
                        frame.output() == begin + track_rows(area.pos.col, area.pos.row, i as nat, start as int, end as int, self.colors.thumb, track_color),
                        frame.pending() == old(frame).pending(),
                        frame.spec_size() == old(frame).spec_size(),
                    decreases area.size.rows - i,
                {
                    let is_thumb = i >= start && i < end;
                    let ch = if is_thumb { '┃' } else { '│' };
                    let color = if is_thumb { self.colors.thumb } else { track_color };
                    frame.cursor_move(pos);
                    frame.print_fmt(Sgr::Fg(color));
                    frame.print_ch(ch);
                    assert(frame.output() =~= begin + track_rows(area.pos.col, area.pos.row, i as nat + 1, start as int, end as int, self.colors.thumb, track_color));
                    pos.row = pos.row + 1;
                    i = i + 1;
                }
                frame.print_fmt(Sgr::Fg(Color::Default));
                assert(frame.output() =~= old(frame).output() + scrollbar_output(self.colors, area, start, size));
            },
            None => {
                frame.print_fmt(Sgr::Fg(self.colors.thumb));
                let ghost begin = frame.output();
                while i < area.size.rows
                    invariant
                        i <= area.size.rows,
                        pos.col == area.pos.col,
                        pos.row == area.pos.row + i,
                        area.pos.col < u16::MAX,
                        area.spec_bottom_out() <= u16::MAX,
                        frame.output() == begin + thumb_rows(area.pos.col, area.pos.row, i as nat, start as int, end as int),
                        frame.pending() == old(frame).pending(),
                        frame.spec_size() == old(frame).spec_size(),
                    decreases area.size.rows - i,
                {
                    let is_thumb = i >= start && i < end;
                    if is_thumb {
                        frame.cursor_move(pos);
                        frame.print_ch('│');
                    }
                    assert(frame.output() =~= begin + thumb_rows(area.pos.col, area.pos.row, i as nat + 1, start as int, end as int));
                    pos.row = pos.row + 1;
                    i = i + 1;
                }
                frame.print_fmt(Sgr::Fg(Color::Default));
                assert(frame.output() =~= old(frame).output() + scrollbar_output(self.colors, area, start, size));
            },
        }
    }
}

impl Default for Scrollbar {
    fn default() -> (r: Self)
        ensures
            r.colors == (ScrollbarColors { thumb: Color::Indexed(240), track: None }),
    {
        Self::new()
    }
}

/// Lines kept between the current line and the edges of the view.
#[derive(Debug, Clone, Copy, PartialEq, Eq, Structural)]
pub struct ScrollMargins {
    pub margin_top: u16,
    pub margin_bottom: u16,
    /// Empty lines the view may scroll past the last line.
    pub padding_bottom: u16,
}

impl ScrollMargins {
    /// No margins and no padding.
    pub fn zero() -> (r: Self)
        ensures
            r == (ScrollMargins { margin_top: 0, margin_bottom: 0, padding_bottom: 0 }),
    {
        Self::all(0)
    }

    pub fn new(top: u16, bottom: u16, padding_bottom: u16) -> (r: Self)
        ensures
            r == (ScrollMargins { margin_top: top, margin_bottom: bottom, padding_bottom }),
    {
        ScrollMargins { margin_top: top, margin_bottom: bottom, padding_bottom }
    }

    pub fn all(v: u16) -> (r: Self)
        ensures
            r == (ScrollMargins { margin_top: v, margin_bottom: v, padding_bottom: v }),
    {
        Self::new(v, v, v)
    }

    pub fn vertical(v: u16) -> (r: Self)
        ensures
            r == (ScrollMargins { margin_top: v, margin_bottom: v, padding_bottom: 0 }),
    {
        Self::new(v, v, 0)
    }

    pub fn with_padding(self, v: u16) -> (r: Self)
        ensures
            r == (ScrollMargins { padding_bottom: v, ..self }),
    {
        let mut s = self;
        s.padding_bottom = v;
        s
    }
}

impl Default for ScrollMargins {
    fn default() -> (r: Self)
        ensures
            r == (ScrollMargins { margin_top: 0, margin_bottom: 0, padding_bottom: 0 }),
    {
        Self::all(0)
    }
}

/// The input of a scroll computation.
#[derive(Debug, Clone, Copy, PartialEq, Eq, Structural)]
pub struct ScrollData {
    pub current_index: usize,
    pub current_scroll: usize,
    pub total_lines: usize,
    pub viewport_height: u16,
    pub margins: ScrollMargins,
}

pub open spec fn min_int(a: int, b: int) -> int {
    if a < b { a } else { b }
}

pub open spec fn sat(a: int) -> int {
    if a < 0 { 0 } else { a }
}

/// The top margin as used: at most one line less than the view.
pub open spec fn used_margin_top(d: ScrollData) -> int {
    min_int(d.margins.margin_top as int, sat(d.viewport_height - 1))
}

pub open spec fn used_margin_bottom(d: ScrollData) -> int {
    min_int(d.margins.margin_bottom as int, sat(d.viewport_height - 1) - used_margin_top(d))
}

pub open spec fn top_boundary(d: ScrollData) -> int {
    d.current_scroll + used_margin_top(d)
}

pub open spec fn bottom_boundary(d: ScrollData) -> int {
    d.current_scroll + sat(d.viewport_height - (used_margin_bottom(d) + 1))
}

pub open spec fn max_offset(d: ScrollData) -> int {
    sat(d.total_lines + d.margins.padding_bottom - d.viewport_height)
}

/// The scroll offset after moving to `current_index`: unchanged while the
/// index stays between the margins, otherwise just far enough to bring it
/// back between them, and never past the last line plus the padding.
pub open spec fn spec_scroll(d: ScrollData) -> int {
    if d.current_index < top_boundary(d) {
        sat(d.current_scroll - (top_boundary(d) - d.current_index))
    } else if d.current_index > bottom_boundary(d) {
        min_int(d.current_scroll + (d.current_index - bottom_boundary(d)), max_offset(d))
    } else {
        d.current_scroll as int
    }
}

/// When the usize arithmetic of a scroll computation stays in range.
pub open spec fn scroll_fits(d: ScrollData) -> bool {
    &&& d.total_lines + d.margins.padding_bottom <= usize::MAX
    &&& d.current_scroll + d.viewport_height <= usize::MAX
}

/// Scrolling.
pub struct Scroll;

impl Scroll {
    /// Whether more lines than fit call for a scrollbar, given room for it.
    pub fn is_scrollable(lines: usize, viewport: Size, min_width: u16) -> (r: bool)
        ensures
            r == (lines > viewport.rows && viewport.cols > min_width),
    {
        lines > viewport.rows as usize && viewport.cols > min_width
    }

    /// Calculates the scroll offset for provided data.
    /// Assumes the same height of one for each line.
    pub fn calc(data: ScrollData) -> (r: usize)
        requires
            scroll_fits(data),
        ensures
            r == spec_scroll(data),
    {
        let height: usize = data.viewport_height as usize;
        let max_offset: usize = (data.total_lines + data.margins.padding_bottom as usize).saturating_sub(
            height,
        );
        let available: usize = height.saturating_sub(1);
        let mt: usize = data.margins.margin_top as usize;
        let margin_top: usize = if mt < available { mt } else { available };
        let mb: usize = data.margins.margin_bottom as usize;
        let margin_bottom: usize = if mb < available - margin_top { mb } else { available - margin_top };
        let top_boundary: usize = data.current_scroll + margin_top;
        let bottom_boundary: usize = data.current_scroll + height.saturating_sub(margin_bottom + 1);
        if data.current_index < top_boundary {
            data.current_scroll.saturating_sub(top_boundary - data.current_index)
        } else if data.current_index > bottom_boundary {
            let delta: usize = data.current_index - bottom_boundary;
            let down: usize = data.current_scroll + delta;
            if down < max_offset { down } else { max_offset }
        } else {
            data.current_scroll
        }
    }

    /// Takes the last column of `area` for a scrollbar, and `margin` more
    /// columns besides, out of `area`; returns the scrollbar's column.
    pub fn make_scroll_area(area: &mut Rect, margin: u16) -> (r: Rect)
        requires
            old(area).pos.col + old(area).size.cols.saturating_sub(1) <= u16::MAX,
            1 + margin <= u16::MAX,
        ensures
            r == (Rect {
                pos: Pos {
                    col: (old(area).pos.col + old(area).size.cols.saturating_sub(1)) as u16,
                    row: old(area).pos.row,
                },
                size: Size { cols: 1, rows: old(area).size.rows },
            }),
            *final(area) == old(area).with_cols_spec(
                old(area).size.cols.saturating_sub((1 + margin) as u16) as int,
            ),
    {
        let scroll_area = Rect {
            pos: Pos { col: area.pos.col + area.size.cols.saturating_sub(1), row: area.pos.row },
            size: Size { cols: 1, rows: area.size.rows },
        };
        area.size.cols = area.size.cols.saturating_sub(1 + margin);
        scroll_area
    }
}

/// The offset never scrolls past the current line.
pub proof fn lemma_scroll_not_past_index(d: ScrollData)
    ensures
        spec_scroll(d) <= d.current_index,
{
}

/// Whenever the current line exists (counting the bottom padding), the new
/// offset shows it: it lies within the view's height below the offset.
pub proof fn lemma_scroll_keeps_index_visible(d: ScrollData)
    requires
        d.viewport_height > 0,
        d.current_index < d.total_lines + d.margins.padding_bottom,
    ensures
        spec_scroll(d) <= d.current_index < spec_scroll(d) + d.viewport_height,
{
}

/// An index already between the margins leaves the offset unchanged.
pub proof fn lemma_scroll_stays(d: ScrollData)
    requires
        top_boundary(d) <= d.current_index <= bottom_boundary(d),
    ensures
        spec_scroll(d) == d.current_scroll,
{
}

/// Scrolling again from the offset just computed changes nothing.
pub proof fn lemma_scroll_idempotent(d: ScrollData)
    ensures
        spec_scroll(ScrollData { current_scroll: spec_scroll(d) as usize, ..d }) == spec_scroll(d),
{
}

} // verus!
