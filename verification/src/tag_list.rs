//! Tags laid out left to right in rows, wrapping at the list's width, with a
//! current tag that the arrow keys move between and across rows.
use vstd::prelude::*;

use crate::input::KeyCode;
use crate::layout::{Margin, Pos, Rect, Size};
use crate::scroll::{Scroll, ScrollData, ScrollMargins, ScrollbarColors, ScrollbarData, spec_scroll};

verus! {

/// Something shown as a tag, so many columns wide.
pub trait TagItem {
    fn width(&self) -> u16;
}

/// The widths of the items, in order.
pub fn item_widths<T: TagItem>(items: &[T]) -> (r: Vec<u16>)
    ensures
        r@.len() == items@.len(),
{
    let mut out: Vec<u16> = Vec::new();
    let mut i: usize = 0;
    while i < items.len()
        invariant
            i <= items@.len(),
            out@.len() == i,
        decreases items@.len() - i,
    {
        out.push(items[i].width());
        i = i + 1;
    }
    out
}

#[derive(Debug, Clone, Copy, PartialEq, Eq, Structural)]
pub struct TagListOptions {
    pub gap: u16,
    pub padding: Margin,
    pub scrollbar: bool,
    pub scrollbar_margin: u16,
}

impl TagListOptions {
    pub fn new() -> (r: Self)
        ensures
            r == (TagListOptions {
                gap: 2,
                padding: Margin { left: 0, right: 0, top: 0, bottom: 0 },
                scrollbar: false,
                scrollbar_margin: 1,
            }),
    {
        TagListOptions { gap: 2, padding: Margin::zero(), scrollbar: false, scrollbar_margin: 1 }
    }
}

impl Default for TagListOptions {
    fn default() -> (r: Self)
        ensures
            r == (TagListOptions {
                gap: 2,
                padding: Margin { left: 0, right: 0, top: 0, bottom: 0 },
                scrollbar: false,
                scrollbar_margin: 1,
            }),
    {
        Self::new()
    }
}

#[derive(Debug, Clone, Copy)]
pub struct TagListColors {
    pub scrollbar: ScrollbarColors,
}

impl TagListColors {
    pub fn new() -> (r: Self)
        ensures
            r.scrollbar.thumb == crate::style::Color::Indexed(240),
            r.scrollbar.track is None,
    {
        TagListColors { scrollbar: ScrollbarColors::default_colors() }
    }
}

impl Default for TagListColors {
    fn default() -> (r: Self)
        ensures
            r.scrollbar.thumb == crate::style::Color::Indexed(240),
            r.scrollbar.track is None,
    {
        Self::new()
    }
}

/// The column and row of each tag, from `ws` on: a tag that does not fit
/// after the one before it, at column `x` of row `y`, starts the next row
/// (the very first stays on the first row); the next tag goes `gap`
/// columns after it. Sums wrap around in u16.
pub open spec fn places(ws: Seq<u16>, first: bool, x: u16, y: u16, max: u16, gap: u16) -> Seq<(u16, u16)>
    decreases ws.len(),
{
    if ws.len() == 0 {
        Seq::empty()
    } else {
        let w = ws[0];
        let (x1, y1) = if x.wrapping_add(w) > max {
            (0u16, if first { y } else { y.wrapping_add(1) })
        } else {
            (x, y)
        };
        seq![(x1, y1)] + places(ws.drop_first(), false, x1.wrapping_add(w.wrapping_add(gap)), y1, max, gap)
    }
}

/// Where tags `ws` go in a list `max` columns wide with `gap` columns
/// between them.
pub open spec fn tag_places(ws: Seq<u16>, max: u16, gap: u16) -> Seq<(u16, u16)> {
    places(ws, true, 0, 0, max, gap)
}

pub open spec fn abs_diff(a: u16, b: u16) -> u16 {
    (if a > b { a - b } else { b - a }) as u16
}

/// From the `k`-th tag on, the last of those in row `row` closest to
/// column `col` (`best` if none is closer than `dist`), stopping at the
/// first tag past that row.
pub open spec fn nearest(ps: Seq<(u16, u16)>, k: int, row: int, col: u16, best: int, dist: u16) -> int
    decreases ps.len() - k,
{
    if k < 0 || k >= ps.len() {
        best
    } else {
        let (x, y) = ps[k];
        if y == row {
            let d = abs_diff(col, x);
            if d <= dist {
                nearest(ps, k + 1, row, col, k, d)
            } else {
                nearest(ps, k + 1, row, col, best, dist)
            }
        } else if y > row {
            best
        } else {
            nearest(ps, k + 1, row, col, best, dist)
        }
    }
}

/// The place of each tag, for `widths` in a list `max_width` columns wide.
fn iter_items_in_col_row(max_width: u16, item_gap: u16, widths: &[u16]) -> (r: Vec<(u16, u16)>)
    ensures
        r@ == tag_places(widths@, max_width, item_gap),
{
    let ghost ws = widths@;
    let mut out: Vec<(u16, u16)> = Vec::new();
    let mut x: u16 = 0;
    let mut y: u16 = 0;
    let mut i: usize = 0;
    assert(ws.skip(0) =~= ws);
    assert(out@ + places(ws.skip(0), true, 0, 0, max_width, item_gap) =~= tag_places(ws, max_width, item_gap));
    while i < widths.len()
        invariant
            ws == widths@,
            i <= ws.len(),
            out@ + places(ws.skip(i as int), i == 0, x, y, max_width, item_gap) == tag_places(ws, max_width, item_gap),
        decreases ws.len() - i,
    {
        let w = widths[i];
        assert(ws.skip(i as int)[0] == w);
        assert(ws.skip(i as int).drop_first() =~= ws.skip(i as int + 1));
        let ghost before = out@;
        if x.wrapping_add(w) > max_width {
            x = 0;
            if i > 0 {
                y = y.wrapping_add(1);
            }
        }
        out.push((x, y));
        x = x.wrapping_add(w.wrapping_add(item_gap));
        proof {
            let rest = places(ws.skip(i as int + 1), false, x, y, max_width, item_gap);
            assert(out@ + rest =~= before + (seq![out@.last()] + rest));
        }
        i = i + 1;
    }
    assert(ws.skip(i as int) =~= Seq::<u16>::empty());
    assert(out@ + Seq::<(u16, u16)>::empty() =~= out@);
    out
}

/// Tags laid out in rows, with a current one.
pub struct TagList {
    index: usize,
    index_col: u16,
    index_row: u16,
    scroll: u16,
    total_lines: u16,
    total_items: usize,
    list_width: u16,
    last_size: Size,
    options: TagListOptions,
    colors: TagListColors,
}

impl TagList {
    pub closed spec fn spec_index(&self) -> usize {
        self.index
    }

    /// The column and the row of the current tag at the last layout.
    pub closed spec fn spec_index_place(&self) -> (u16, u16) {
        (self.index_col, self.index_row)
    }

    pub closed spec fn spec_scroll(&self) -> u16 {
        self.scroll
    }

    /// The rows and the tags counted at the last layout.
    pub closed spec fn spec_totals(&self) -> (u16, usize) {
        (self.total_lines, self.total_items)
    }

    /// The width the tags were last laid out in.
    pub closed spec fn spec_list_width(&self) -> u16 {
        self.list_width
    }

    pub closed spec fn spec_last_size(&self) -> Size {
        self.last_size
    }

    pub closed spec fn spec_options(&self) -> TagListOptions {
        self.options
    }

    pub closed spec fn spec_colors(&self) -> TagListColors {
        self.colors
    }

    /// Everything but the current tag is as in `other`.
    pub open spec fn same_but_index(&self, other: &TagList) -> bool {
        &&& self.spec_index_place() == other.spec_index_place()
        &&& self.spec_scroll() == other.spec_scroll()
        &&& self.spec_totals() == other.spec_totals()
        &&& self.spec_list_width() == other.spec_list_width()
        &&& self.spec_last_size() == other.spec_last_size()
        &&& self.spec_options() == other.spec_options()
        &&& self.spec_colors() == other.spec_colors()
    }

    pub fn new() -> (r: Self)
        ensures
            r.spec_index() == 0,
            r.spec_index_place() == (0u16, 0u16),
            r.spec_scroll() == 0,
            r.spec_totals() == (0u16, 0usize),
            r.spec_list_width() == 0,
            r.spec_last_size() == (Size { cols: 0, rows: 0 }),
            r.spec_options() == (TagListOptions {
                gap: 2,
                padding: Margin { left: 0, right: 0, top: 0, bottom: 0 },
                scrollbar: false,
                scrollbar_margin: 1,
            }),
            r.spec_colors().scrollbar.thumb == crate::style::Color::Indexed(240),
            r.spec_colors().scrollbar.track is None,
    {
        TagList {
            index: 0,
            index_col: 0,
            index_row: 0,
            scroll: 0,
            total_lines: 0,
            total_items: 0,
            list_width: 0,
            last_size: Size::zero(),
            options: TagListOptions::new(),
            colors: TagListColors::new(),
        }
    }

    pub fn with_gap(self, gap: u16) -> (r: Self)
        ensures
            r.spec_options() == (TagListOptions { gap, ..self.spec_options() }),
            r.spec_index() == self.spec_index(),
            r.spec_index_place() == self.spec_index_place(),
            r.spec_scroll() == self.spec_scroll(),
            r.spec_totals() == self.spec_totals(),
            r.spec_list_width() == self.spec_list_width(),
            r.spec_last_size() == self.spec_last_size(),
            r.spec_colors() == self.spec_colors(),
    {
        let mut t = self;
        t.options.gap = gap;
        t
    }

    pub fn with_padding(self, padding: Margin) -> (r: Self)
        ensures
            r.spec_options() == (TagListOptions { padding, ..self.spec_options() }),
            r.spec_index() == self.spec_index(),
            r.spec_index_place() == self.spec_index_place(),
            r.spec_scroll() == self.spec_scroll(),
            r.spec_totals() == self.spec_totals(),
            r.spec_list_width() == self.spec_list_width(),
            r.spec_last_size() == self.spec_last_size(),
            r.spec_colors() == self.spec_colors(),
    {
        let mut t = self;
        t.options.padding = padding;
        t
    }

    /// Shows a scrollbar, `margin` columns away from the tags.
    pub fn with_scrollbar(self, margin: u16) -> (r: Self)
        ensures
            r.spec_options() == (TagListOptions { scrollbar: true, scrollbar_margin: margin, ..self.spec_options() }),
            r.spec_index() == self.spec_index(),
            r.spec_index_place() == self.spec_index_place(),
            r.spec_scroll() == self.spec_scroll(),
            r.spec_totals() == self.spec_totals(),
            r.spec_list_width() == self.spec_list_width(),
            r.spec_last_size() == self.spec_last_size(),
            r.spec_colors() == self.spec_colors(),
    {
        let mut t = self;
        t.options.scrollbar = true;
        t.options.scrollbar_margin = margin;
        t
    }

    pub fn with_colors(self, colors: TagListColors) -> (r: Self)
        ensures
            r.spec_colors() == colors,
            r.spec_options() == self.spec_options(),
            r.spec_index() == self.spec_index(),
            r.spec_index_place() == self.spec_index_place(),
            r.spec_scroll() == self.spec_scroll(),
            r.spec_totals() == self.spec_totals(),
            r.spec_list_width() == self.spec_list_width(),
            r.spec_last_size() == self.spec_last_size(),
    {
        let mut t = self;
        t.colors = colors;
        t
    }

    pub fn index(&self) -> (r: usize)
        ensures
            r == self.spec_index(),
    {
        self.index
    }

    pub fn set_index(&mut self, i: usize)
        ensures
            final(self).spec_index() == i,
            final(self).same_but_index(&*old(self)),
    {
        self.index = i;
    }

    pub fn set_colors(&mut self, colors: TagListColors)
        ensures
            final(self).spec_colors() == colors,
            final(self).spec_index() == old(self).spec_index(),
            final(self).spec_index_place() == old(self).spec_index_place(),
            final(self).spec_scroll() == old(self).spec_scroll(),
            final(self).spec_totals() == old(self).spec_totals(),
            final(self).spec_list_width() == old(self).spec_list_width(),
            final(self).spec_last_size() == old(self).spec_last_size(),
            final(self).spec_options() == old(self).spec_options(),
    {
        self.colors = colors;
    }

    /// The current tag after `key`, for tags `ws` as last laid out: Left and
    /// Right step back and forth, Home and End go to either end, and Up and
    /// Down go to the tag in the row above or below whose column is closest
    /// (the last of equals), or to the first or last tag from the first or
    /// last row.
    pub open spec fn key_index(&self, key: KeyCode, ws: Seq<u16>) -> usize {
        let (col, row) = self.spec_index_place();
        let (lines, items) = self.spec_totals();
        let i = self.spec_index();
        let ps = tag_places(ws, self.spec_list_width(), self.spec_options().gap);
        match key {
            KeyCode::Right => {
                let next = i.saturating_add(1);
                let last = items.saturating_sub(1);
                if next < last { next } else { last }
            },
            KeyCode::Left => i.saturating_sub(1),
            KeyCode::Down => if row == lines.saturating_sub(1) {
                items.saturating_sub(1)
            } else {
                nearest(ps, i + 1, row + 1, col, 0, u16::MAX) as usize
            },
            KeyCode::Up => if row == 0 {
                0
            } else {
                nearest(ps, 0, row - 1, col, 0, u16::MAX) as usize
            },
            KeyCode::Home => 0,
            KeyCode::End => items.saturating_sub(1),
            _ => i,
        }
    }

    /// The last tag in row `row` closest to column `col`, from the `from`-th
    /// tag on.
    fn find_nearest(places: &Vec<(u16, u16)>, from: usize, row: u32, col: u16) -> (r: usize)
        ensures
            r == nearest(places@, from as int, row as int, col, 0, u16::MAX),
    {
        let ghost ps = places@;
        let mut best: usize = 0;
        let mut dist: u16 = u16::MAX;
        let mut k: usize = from;
        while k < places.len()
            invariant
                ps == places@,
                from <= k,
                best <= k,
                nearest(ps, k as int, row as int, col, best as int, dist) == nearest(ps, from as int, row as int, col, 0, u16::MAX),
            decreases ps.len() - k,
        {
            let (x, y) = places[k];
            if y as u32 == row {
                let d = if col > x { col - x } else { x - col };
                if d <= dist {
                    best = k;
                    dist = d;
                }
            } else if y as u32 > row {
                return best;
            }
            k = k + 1;
        }
        best
    }

    /// Moves the current tag for `key`, given the widths of the tags; returns
    /// whether it moved.
    pub fn input(&mut self, key: KeyCode, widths: &[u16]) -> (r: bool)
        ensures
            final(self).spec_index() == old(self).key_index(key, widths@),
            final(self).same_but_index(&*old(self)),
            r == (final(self).spec_index() != old(self).spec_index()),
    {
        let old_index = self.index;
        match key {
            KeyCode::Right => {
                let next = self.index.saturating_add(1);
                let last = self.total_items.saturating_sub(1);
                self.index = if next < last { next } else { last };
            },
            KeyCode::Left => {
                self.index = self.index.saturating_sub(1);
            },
            KeyCode::Down => {
                self.index = if self.index_row == self.total_lines.saturating_sub(1) {
                    self.total_items.saturating_sub(1)
                } else {
                    let places = iter_items_in_col_row(self.list_width, self.options.gap, widths);
                    let from = self.index.saturating_add(1);
                    let n = places.len();
                    let found = Self::find_nearest(&places, from, self.index_row as u32 + 1, self.index_col);
                    assert(found == nearest(places@, self.index + 1, self.index_row + 1, self.index_col, 0, u16::MAX)) by {
                        if from != self.index + 1 {
                            assert(from >= n && self.index + 1 > n);
                        }
                    }
                    found
                };
            },
            KeyCode::Up => {
                self.index = if self.index_row == 0 {
                    0
                } else {
                    let places = iter_items_in_col_row(self.list_width, self.options.gap, widths);
                    Self::find_nearest(&places, 0, self.index_row as u32 - 1, self.index_col)
                };
            },
            KeyCode::Home => {
                self.index = 0;
            },
            KeyCode::End => {
                self.index = self.total_items.saturating_sub(1);
            },
            _ => {},
        }
        self.index != old_index
    }
}

} // verus!

verus! {

/// A tag to draw: where, which, and whether it is the current one.
#[derive(Debug, Clone, Copy, PartialEq, Eq, Structural)]
pub struct TagPlacement {
    pub area: Rect,
    pub index: usize,
    pub selected: bool,
}

/// What to draw for a tag list: the tags in view and the scrollbar, if any.
pub struct TagView {
    pub tags: Vec<TagPlacement>,
    pub scrollbar: Option<(Rect, ScrollbarData)>,
}

/// The tags in view, from the `k`-th on: those in rows `scroll` up to
/// `scroll + inner.rows`, each as wide as it is or as what is left of the
/// row, whichever is less.
pub open spec fn visible_tags(
    ps: Seq<(u16, u16)>,
    ws: Seq<u16>,
    k: int,
    inner: Rect,
    scroll: u16,
    index: usize,
) -> Seq<TagPlacement>
    decreases ps.len() - k,
{
    if k < 0 || k >= ps.len() || k >= ws.len() {
        Seq::empty()
    } else {
        let (x, y) = ps[k];
        if y >= inner.size.rows + scroll {
            Seq::empty()
        } else if y >= scroll {
            let room = inner.size.cols.saturating_sub(x);
            seq![TagPlacement {
                area: Rect {
                    pos: Pos { col: inner.pos.col.wrapping_add(x), row: (inner.pos.row + (y - scroll)) as u16 },
                    size: Size { cols: if ws[k] < room { ws[k] } else { room }, rows: 1 },
                },
                index: k as usize,
                selected: index == k,
            }] + visible_tags(ps, ws, k + 1, inner, scroll, index)
        } else {
            visible_tags(ps, ws, k + 1, inner, scroll, index)
        }
    }
}

/// The place of tag `i`, the rows and the tags once laid out at `ps`, where
/// `place` and `lines` were the place and the rows before: what is not
/// there is kept.
pub open spec fn process_places(i: usize, place: (u16, u16), lines: u16, ps: Seq<(u16, u16)>) -> ((u16, u16), (u16, usize)) {
    let p = if i < ps.len() { ps[i as int] } else { place };
    let l = if ps.len() > 0 { ps.last().1.wrapping_add(1) } else { lines };
    (p, (l, ps.len() as usize))
}

/// The scroll offset that keeps row `row` of `lines` in view in
/// `list_height` rows, from `scroll`; a new size of the area starts over
/// from the top.
pub open spec fn tag_scroll(row: u16, lines: u16, scroll: u16, resized: bool, list_height: u16) -> u16 {
    spec_scroll(ScrollData {
        current_index: row as usize,
        current_scroll: if resized { 0 } else { scroll as usize },
        total_lines: lines as usize,
        viewport_height: list_height,
        margins: ScrollMargins { margin_top: 0, margin_bottom: 0, padding_bottom: 0 },
    }) as u16
}

impl TagList {
    /// The place of the current tag, the rows and the tags, after laying out
    /// `ps`: what is not there is kept.
    pub open spec fn processed(&self, ps: Seq<(u16, u16)>) -> ((u16, u16), (u16, usize)) {
        process_places(self.spec_index(), self.spec_index_place(), self.spec_totals().0, ps)
    }

    /// Lays the tags out in `area`'s width and counts them.
    fn process_items(&mut self, area: Rect, widths: &[u16])
        ensures
            (final(self).spec_index_place(), final(self).spec_totals())
                == old(self).processed(tag_places(widths@, area.size.cols, old(self).spec_options().gap)),
            final(self).spec_index() == old(self).spec_index(),
            final(self).spec_scroll() == old(self).spec_scroll(),
            final(self).spec_list_width() == old(self).spec_list_width(),
            final(self).spec_last_size() == old(self).spec_last_size(),
            final(self).spec_options() == old(self).spec_options(),
            final(self).spec_colors() == old(self).spec_colors(),
    {
        let places = iter_items_in_col_row(area.size.cols, self.options.gap, widths);
        let ghost ps = places@;
        let ghost start = *self;
        self.total_items = 0;
        let mut k: usize = 0;
        while k < places.len()
            invariant
                ps == places@,
                k <= ps.len(),
                self.total_items == k,
                self.index == start.index,
                self.scroll == start.scroll,
                self.list_width == start.list_width,
                self.last_size == start.last_size,
                self.options == start.options,
                self.colors == start.colors,
                (self.index_col, self.index_row) == (if start.index < k { ps[start.index as int] } else { (start.index_col, start.index_row) }),
                self.total_lines == (if k > 0 { ps[k - 1].1.wrapping_add(1) } else { start.total_lines }),
            decreases ps.len() - k,
        {
            let (x, y) = places[k];
            if self.index == k {
                self.index_col = x;
                self.index_row = y;
            }
            self.total_items = self.total_items + 1;
            self.total_lines = y.wrapping_add(1);
            k = k + 1;
        }
    }

    /// Whether there are more rows than fit and room for a scrollbar.
    fn is_scrollable(&self, list_size: Size) -> (r: bool)
        ensures
            r == (self.spec_options().scrollbar && self.spec_totals().0 > list_size.rows && list_size.cols > 10),
    {
        self.options.scrollbar && Scroll::is_scrollable(self.total_lines as usize, list_size, 10)
    }

    /// The scroll that keeps the current tag's row in view in `list_height`
    /// rows; a new size of the area starts over from the top.
    pub open spec fn rescrolled(&self, area_size: Size, list_height: u16) -> u16 {
        tag_scroll(
            self.spec_index_place().1,
            self.spec_totals().0,
            self.spec_scroll(),
            self.spec_last_size() != area_size,
            list_height,
        )
    }

    fn update_scroll(&mut self, area_size: Size, list_height: u16)
        ensures
            final(self).spec_scroll() == old(self).rescrolled(area_size, list_height),
            final(self).spec_index() == old(self).spec_index(),
            final(self).spec_index_place() == old(self).spec_index_place(),
            final(self).spec_totals() == old(self).spec_totals(),
            final(self).spec_list_width() == old(self).spec_list_width(),
            final(self).spec_last_size() == old(self).spec_last_size(),
            final(self).spec_options() == old(self).spec_options(),
            final(self).spec_colors() == old(self).spec_colors(),
    {
        let scroll: u16 = if self.last_size.cols != area_size.cols || self.last_size.rows != area_size.rows {
            0
        } else {
            self.scroll
        };
        let r = Scroll::calc(ScrollData {
            current_index: self.index_row as usize,
            current_scroll: scroll as usize,
            total_lines: self.total_lines as usize,
            viewport_height: list_height,
            margins: ScrollMargins::zero(),
        });
        self.scroll = r as u16;
    }

    /// What render requires of the area: that its cells and its padding can
    /// be addressed.
    pub open spec fn render_fits(&self, area: Rect) -> bool {
        &&& area.inner_fits(self.spec_options().padding)
        &&& area.spec_right_out() <= u16::MAX
        &&& area.spec_bottom_out() <= u16::MAX
        &&& 1 + self.spec_options().scrollbar_margin <= u16::MAX
    }

    /// The area inside the padding, less the scrollbar's columns where one
    /// is shown, given whether it is.
    pub open spec fn spec_list_area(&self, area: Rect, scrollable: bool) -> Rect {
        let inner = area.spec_inner(self.spec_options().padding);
        if scrollable {
            inner.with_cols_spec(inner.size.cols.saturating_sub((1 + self.spec_options().scrollbar_margin) as u16) as int)
        } else {
            inner
        }
    }

    /// Whether render shows a scrollbar for tags `ws` in `area`.
    pub open spec fn spec_scrollable(&self, area: Rect, ws: Seq<u16>) -> bool {
        let inner = area.spec_inner(self.spec_options().padding);
        let first = self.processed(tag_places(ws, inner.size.cols, self.spec_options().gap));
        self.spec_options().scrollbar && first.1.0 > inner.size.rows && inner.size.cols > 10
    }

    /// The state after a render of tags `ws` in `area` with a nonempty
    /// inside, but for the scroll offset: the tags laid out in the list's
    /// width (again, in the narrower width, when a scrollbar is shown).
    pub open spec fn rendered(&self, old_list: &TagList, area: Rect, ws: Seq<u16>) -> bool {
        let gap = old_list.spec_options().gap;
        let inner = area.spec_inner(old_list.spec_options().padding);
        let scrollable = old_list.spec_scrollable(area, ws);
        let list = old_list.spec_list_area(area, scrollable);
        let first = old_list.processed(tag_places(ws, inner.size.cols, gap));
        let second = process_places(old_list.spec_index(), first.0, first.1.0, tag_places(ws, list.size.cols, gap));
        let area_size = if scrollable {
            Size { cols: area.size.cols.saturating_sub((1 + old_list.spec_options().scrollbar_margin) as u16), rows: area.size.rows }
        } else {
            area.size
        };
        &&& (self.spec_index_place(), self.spec_totals()) == (if scrollable { second } else { first })
        &&& self.spec_index() == old_list.spec_index()
        &&& self.spec_list_width() == list.size.cols
        &&& self.spec_last_size() == area_size
        &&& self.spec_options() == old_list.spec_options()
        &&& self.spec_colors() == old_list.spec_colors()
        &&& self.spec_scroll() == tag_scroll(
            self.spec_index_place().1,
            self.spec_totals().0,
            old_list.spec_scroll(),
            old_list.spec_last_size() != area_size,
            list.size.rows,
        )
    }

    /// The tags in view for `places`, in order, with their areas.
    fn collect_tags(&self, inner: Rect, places: &Vec<(u16, u16)>, widths: &[u16]) -> (r: Vec<TagPlacement>)
        requires
            inner.spec_bottom_out() <= u16::MAX,
        ensures
            r@ == visible_tags(places@, widths@, 0, inner, self.spec_scroll(), self.spec_index()),
    {
        let ghost ps = places@;
        let ghost ws = widths@;
        let mut out: Vec<TagPlacement> = Vec::new();
        let mut k: usize = 0;
        assert(out@ + visible_tags(ps, ws, 0, inner, self.spec_scroll(), self.spec_index())
            =~= visible_tags(ps, ws, 0, inner, self.spec_scroll(), self.spec_index()));
        while k < places.len() && k < widths.len()
            invariant
                ps == places@,
                ws == widths@,
                inner.spec_bottom_out() <= u16::MAX,
                out@ + visible_tags(ps, ws, k as int, inner, self.spec_scroll(), self.spec_index())
                    == visible_tags(ps, ws, 0, inner, self.spec_scroll(), self.spec_index()),
            decreases ps.len() - k,
        {
            let (x, y) = places[k];
            if y as u32 >= inner.size.rows as u32 + self.scroll as u32 {
                assert(out@ + Seq::<TagPlacement>::empty() =~= out@);
                return out;
            }
            if y >= self.scroll {
                let room = inner.size.cols.saturating_sub(x);
                let cols = if widths[k] < room { widths[k] } else { room };
                let tag = TagPlacement {
                    area: Rect {
                        pos: Pos { col: inner.pos.col.wrapping_add(x), row: inner.pos.row + (y - self.scroll) },
                        size: Size { cols, rows: 1 },
                    },
                    index: k,
                    selected: self.index == k,
                };
                let ghost before = out@;
                out.push(tag);
                assert(out@ + visible_tags(ps, ws, k as int + 1, inner, self.spec_scroll(), self.spec_index())
                    =~= before + (seq![tag] + visible_tags(ps, ws, k as int + 1, inner, self.spec_scroll(), self.spec_index())));
            }
            k = k + 1;
        }
        assert(out@ + Seq::<TagPlacement>::empty() =~= out@);
        out
    }

    /// Lays out tags of `widths` in `area`: updates the current tag's place,
    /// the counts and the scroll offset, and returns the tags in view and
    /// the scrollbar to draw. `None` when nothing fits inside the padding.
    pub fn render(&mut self, area: Rect, widths: &[u16]) -> (r: Option<TagView>)
        requires
            old(self).render_fits(area),
        ensures
            area.spec_inner(old(self).spec_options().padding).size.spec_is_empty() ==> r is None && *final(self) == *old(self),
            !area.spec_inner(old(self).spec_options().padding).size.spec_is_empty() ==> {
                &&& r is Some
                &&& final(self).rendered(&*old(self), area, widths@)
            },
            r matches Some(v) ==> {
                let scrollable = old(self).spec_scrollable(area, widths@);
                let list = old(self).spec_list_area(area, scrollable);
                &&& v.tags@ == visible_tags(
                    tag_places(widths@, list.size.cols, old(self).spec_options().gap),
                    widths@,
                    0,
                    list,
                    final(self).spec_scroll(),
                    old(self).spec_index(),
                )
                &&& scrollable ==> v.scrollbar == Some(
                    (
                        Rect {
                            pos: Pos {
                                col: (area.pos.col + area.size.cols.saturating_sub(1)) as u16,
                                row: area.pos.row,
                            },
                            size: Size { cols: 1, rows: area.size.rows },
                        },
                        ScrollbarData {
                            current_scroll: final(self).spec_scroll() as usize,
                            total_items: final(self).spec_totals().0 as usize,
                            viewport_height: list.size.rows,
                        },
                    ),
                )
                &&& !scrollable ==> v.scrollbar is None
            },
    {
        let mut area = area;
        let mut inner = area.inner(self.options.padding);
        if inner.is_empty() {
            return None;
        }
        self.process_items(inner, widths);
        let scrollable = self.is_scrollable(inner.size);
        let scroll_area = if scrollable {
            let sa = Scroll::make_scroll_area(&mut area, self.options.scrollbar_margin);
            inner.sub_cols(1 + self.options.scrollbar_margin);
            self.process_items(inner, widths);
            Some(sa)
        } else {
            None
        };
        self.update_scroll(area.size, inner.size.rows);
        self.last_size = area.size;
        self.list_width = inner.size.cols;
        let places = iter_items_in_col_row(inner.size.cols, self.options.gap, widths);
        let tags = self.collect_tags(inner, &places, widths);
        let scrollbar = match scroll_area {
            Some(sa) => Some(
                (
                    sa,
                    ScrollbarData {
                        current_scroll: self.scroll as usize,
                        total_items: self.total_lines as usize,
                        viewport_height: inner.size.rows,
                    },
                ),
            ),
            None => None,
        };
        Some(TagView { tags, scrollbar })
    }
}

/// Every tag either starts its row or ends within the list's width.
pub proof fn lemma_tags_fit(ws: Seq<u16>, max: u16, gap: u16)
    ensures
        tag_places(ws, max, gap).len() == ws.len(),
        forall|k: int|
            0 <= k < ws.len() ==> #[trigger] tag_places(ws, max, gap)[k].0 == 0
                || tag_places(ws, max, gap)[k].0.wrapping_add(ws[k]) <= max,
{
    lemma_places_fit(ws, true, 0, 0, max, gap);
}

proof fn lemma_places_fit(ws: Seq<u16>, first: bool, x: u16, y: u16, max: u16, gap: u16)
    ensures
        places(ws, first, x, y, max, gap).len() == ws.len(),
        forall|k: int|
            0 <= k < ws.len() ==> #[trigger] places(ws, first, x, y, max, gap)[k].0 == 0
                || places(ws, first, x, y, max, gap)[k].0.wrapping_add(ws[k]) <= max,
    decreases ws.len(),
{
    if ws.len() > 0 {
        let w = ws[0];
        let (x1, y1) = if x.wrapping_add(w) > max {
            (0u16, if first { y } else { y.wrapping_add(1) })
        } else {
            (x, y)
        };
        let rest = ws.drop_first();
        let nx = x1.wrapping_add(w.wrapping_add(gap));
        lemma_places_fit(rest, false, nx, y1, max, gap);
        let ps = places(ws, first, x, y, max, gap);
        let tail = places(rest, false, nx, y1, max, gap);
        assert(ps == seq![(x1, y1)] + tail);
        assert forall|k: int| 0 <= k < ws.len() implies #[trigger] ps[k].0 == 0 || ps[k].0.wrapping_add(ws[k]) <= max by {
            if k > 0 {
                assert(ps[k] == tail[k - 1]);
                assert(ws[k] == rest[k - 1]);
            }
        }
    }
}

/// Tag `j` is in row `row` and comes, from the `from`-th tag on, before
/// any tag of a later row.
pub open spec fn in_row_from(ps: Seq<(u16, u16)>, from: int, j: int, row: int) -> bool {
    &&& from <= j < ps.len()
    &&& ps[j].1 == row
    &&& forall|m: int| from <= m < j ==> ps[m].1 <= row
}

/// The tag `nearest` picks, from the `from`-th on, where row `row` has a
/// tag there: one of that row, none of whose tags is closer to column
/// `col`.
pub proof fn lemma_nearest_is_closest(ps: Seq<(u16, u16)>, from: int, row: int, col: u16)
    requires
        0 <= from,
    ensures
        (exists|j: int| #[trigger] in_row_from(ps, from, j, row)) ==> {
            let r = nearest(ps, from, row, col, 0, u16::MAX);
            &&& in_row_from(ps, from, r, row)
            &&& forall|j: int| #[trigger] in_row_from(ps, from, j, row) ==> abs_diff(col, ps[r].0) <= abs_diff(col, ps[j].0)
        },
{
    if from <= ps.len() {
        lemma_nearest_step(ps, from, from, row, col, 0, u16::MAX);
    }
}

proof fn lemma_nearest_step(ps: Seq<(u16, u16)>, from: int, k: int, row: int, col: u16, best: int, dist: u16)
    requires
        0 <= from <= k <= ps.len(),
        forall|m: int| from <= m < k ==> ps[m].1 <= row,
        (exists|j: int| from <= j < k && #[trigger] in_row_from(ps, from, j, row)) ==> {
            &&& in_row_from(ps, from, best, row)
            &&& best < k
            &&& abs_diff(col, ps[best].0) == dist
            &&& forall|j: int| from <= j < k && #[trigger] in_row_from(ps, from, j, row) ==> dist <= abs_diff(col, ps[j].0)
        },
        !(exists|j: int| from <= j < k && #[trigger] in_row_from(ps, from, j, row)) ==> dist == u16::MAX,
    ensures
        (exists|j: int| #[trigger] in_row_from(ps, from, j, row)) ==> {
            let r = nearest(ps, k, row, col, best, dist);
            &&& in_row_from(ps, from, r, row)
            &&& forall|j: int| #[trigger] in_row_from(ps, from, j, row) ==> abs_diff(col, ps[r].0) <= abs_diff(col, ps[j].0)
        },
    decreases ps.len() - k,
{
    if k >= ps.len() {
        assert forall|j: int| #[trigger] in_row_from(ps, from, j, row) implies from <= j < k && in_row_from(ps, from, j, row) by {}
    } else {
        let (x, y) = ps[k];
        if y == row {
            let d = abs_diff(col, x);
            assert(in_row_from(ps, from, k, row));
            if d <= dist {
                assert forall|j: int| from <= j < k + 1 && #[trigger] in_row_from(ps, from, j, row) implies d <= abs_diff(col, ps[j].0) by {
                    if j < k {
                    }
                }
                lemma_nearest_step(ps, from, k + 1, row, col, k, d);
            } else {
                assert(exists|j: int| from <= j < k && #[trigger] in_row_from(ps, from, j, row));
                lemma_nearest_step(ps, from, k + 1, row, col, best, dist);
            }
        } else if y > row {
            assert forall|j: int| #[trigger] in_row_from(ps, from, j, row) implies from <= j < k by {
                if j > k {
                    assert(ps[k].1 <= row);
                }
            }
        } else {
            assert forall|j: int| from <= j < k + 1 && #[trigger] in_row_from(ps, from, j, row) implies from <= j < k by {}
            lemma_nearest_step(ps, from, k + 1, row, col, best, dist);
        }
    }
}

/// Up and Down go to the neighbouring row, to a tag there that no other
/// tag of that row beats in closeness to the current tag's column: Up to
/// the row above (or the first tag from the first row), Down to the row
/// below among the tags after the current one (or the last tag from the
/// last row).
pub proof fn lemma_vertical_moves_nearest(t: TagList, ws: Seq<u16>)
    requires
        ws.len() <= usize::MAX,
    ensures
        ({
            let (col, row) = t.spec_index_place();
            let (lines, items) = t.spec_totals();
            let ps = tag_places(ws, t.spec_list_width(), t.spec_options().gap);
            let up = t.key_index(KeyCode::Up, ws) as int;
            let down = t.key_index(KeyCode::Down, ws) as int;
            let from = t.spec_index() + 1;
            &&& row == 0 ==> up == 0
            &&& row > 0 && (exists|j: int| #[trigger] in_row_from(ps, 0, j, row - 1)) ==> {
                &&& in_row_from(ps, 0, up, row - 1)
                &&& forall|j: int| #[trigger] in_row_from(ps, 0, j, row - 1) ==> abs_diff(col, ps[up].0) <= abs_diff(col, ps[j].0)
            }
            &&& row == lines.saturating_sub(1) ==> down == items.saturating_sub(1)
            &&& row != lines.saturating_sub(1) && (exists|j: int| #[trigger] in_row_from(ps, from, j, row + 1)) ==> {
                &&& in_row_from(ps, from, down, row + 1)
                &&& forall|j: int| #[trigger] in_row_from(ps, from, j, row + 1) ==> abs_diff(col, ps[down].0) <= abs_diff(col, ps[j].0)
            }
        }),
{
    let (col, row) = t.spec_index_place();
    let ps = tag_places(ws, t.spec_list_width(), t.spec_options().gap);
    lemma_tags_fit(ws, t.spec_list_width(), t.spec_options().gap);
    if row > 0 {
        lemma_nearest_is_closest(ps, 0, row - 1, col);
    }
    lemma_nearest_is_closest(ps, t.spec_index() + 1, row + 1, col);
}

/// Right and Left step to the next and the previous tag, staying within
/// the tags; Home and End go to the first and the last tag; other keys
/// leave the current tag.
pub proof fn lemma_horizontal_moves_step(t: TagList, ws: Seq<u16>, key: KeyCode)
    ensures
        ({
            let i = t.spec_index() as int;
            let last = if t.spec_totals().1 == 0 { 0 } else { t.spec_totals().1 - 1 };
            let r = t.key_index(key, ws) as int;
            &&& key == KeyCode::Right ==> r == if i + 1 < last { i + 1 } else { last }
            &&& key == KeyCode::Left ==> r == if i == 0 { 0 } else { i - 1 }
            &&& key == KeyCode::Home ==> r == 0
            &&& key == KeyCode::End ==> r == last
            &&& !(key is Right || key is Left || key is Up || key is Down || key is Home || key is End) ==> r == i
        }),
{
}

} // verus!
