//! A scrolling list with a current item and an optional range selection.
use vstd::prelude::*;

use core::ops::{Range, RangeInclusive};

use crate::input::{KeyCode, KeyModifiers};
use crate::layout::{Constraint, Margin, Pos, Rect, Size, split_fits, split_starts_fit, spec_split};
use crate::scroll::{
    Scroll, ScrollData, ScrollMargins, ScrollbarColors, ScrollbarData, spec_scroll,
};
use crate::style::Color;

verus! {

#[derive(Debug, Clone, Copy, PartialEq, Eq, Structural)]
pub struct ListOptions {
    pub scrolloff: ScrollMargins,
    pub padding: Margin,
    pub scrollbar: bool,
    pub scrollbar_margin: u16,
}

impl ListOptions {
    /// No scroll margins, no padding, no scrollbar.
    pub fn new() -> (r: Self)
        ensures
            r == (ListOptions {
                scrolloff: ScrollMargins { margin_top: 0, margin_bottom: 0, padding_bottom: 0 },
                padding: Margin { left: 0, right: 0, top: 0, bottom: 0 },
                scrollbar: false,
                scrollbar_margin: 1,
            }),
    {
        ListOptions {
            scrolloff: ScrollMargins::zero(),
            padding: Margin::zero(),
            scrollbar: false,
            scrollbar_margin: 1,
        }
    }
}

impl Default for ListOptions {
    fn default() -> (r: Self)
        ensures
            r == (ListOptions {
                scrolloff: ScrollMargins { margin_top: 0, margin_bottom: 0, padding_bottom: 0 },
                padding: Margin { left: 0, right: 0, top: 0, bottom: 0 },
                scrollbar: false,
                scrollbar_margin: 1,
            }),
    {
        Self::new()
    }
}

#[derive(Debug, Clone, Copy, PartialEq, Eq, Structural)]
pub struct ListColors {
    pub scrollbar: ScrollbarColors,
}

impl ListColors {
    pub fn new() -> (r: Self)
        ensures
            r.scrollbar == (ScrollbarColors { thumb: Color::Indexed(240), track: None }),
    {
        ListColors { scrollbar: ScrollbarColors::default_colors() }
    }
}

impl Default for ListColors {
    fn default() -> (r: Self)
        ensures
            r.scrollbar == (ScrollbarColors { thumb: Color::Indexed(240), track: None }),
    {
        Self::new()
    }
}

/// How an item is shown.
#[derive(Debug, Clone, Copy, PartialEq, Eq, Structural)]
pub enum ListIndex {
    /// The current item.
    Selected,
    /// Another item of the selected range.
    Selection,
    Normal,
}

/// The columns of a table.
pub struct TableLayout {
    pub gap: u16,
    pub constraints: Vec<Constraint>,
}

impl TableLayout {
    pub fn new(gap: u16, constraints: Vec<Constraint>) -> (r: Self)
        ensures
            r.gap == gap,
            r.constraints@ == constraints@,
    {
        TableLayout { gap, constraints }
    }

    pub open spec fn areas_fit(&self, area: Rect) -> bool {
        &&& area.spec_right_out() <= u16::MAX
        &&& split_fits(area.size.cols, self.gap, self.constraints@)
        &&& split_starts_fit(
            area.pos.col as int,
            area.spec_right_out(),
            self.gap as int,
            spec_split(area.size.cols, self.gap, self.constraints@),
        )
    }

    /// The cell of each column in `area`.
    pub fn areas(&self, area: Rect) -> (r: Vec<Rect>)
        requires
            self.areas_fit(area),
        ensures
            r@ == area.spec_split_horizontal(self.gap, self.constraints@),
    {
        area.split_horizontal(self.gap, self.constraints.as_slice())
    }
}

/// One line of a list as laid out: where it goes, which item, and how it
/// is shown.
#[derive(Debug, Clone, Copy, PartialEq, Eq, Structural)]
pub struct ListLine {
    pub area: Rect,
    pub item: usize,
    pub kind: ListIndex,
}

/// A list laid out for a frame: its visible lines, and the scrollbar if
/// one is shown.
pub struct ListView {
    pub lines: Vec<ListLine>,
    pub scrollbar: Option<(Rect, ScrollbarData)>,
}

/// One row of a table as laid out: the whole line, the cell of each column,
/// which item, and how it is shown.
pub struct TableRow {
    pub line: Rect,
    pub cells: Vec<Rect>,
    pub item: usize,
    pub kind: ListIndex,
}

/// A table laid out for a frame.
pub struct TableView {
    /// The header line and the cell of each column in it.
    pub header: Rect,
    pub columns: Vec<Rect>,
    pub rows: Vec<TableRow>,
    pub scrollbar: Option<(Rect, ScrollbarData)>,
}

pub open spec fn last_index(len: usize) -> usize {
    len.saturating_sub(1)
}

pub open spec fn min_usize(a: usize, b: usize) -> usize {
    if a < b { a } else { b }
}

/// A list's index, selector and scroll offset, among other things.
pub struct List {
    index: usize,
    selector: Option<usize>,
    scroll: usize,
    options: ListOptions,
    colors: ListColors,
    last_height: u16,
    list_height: u16,
    len: usize,
}

impl List {
    pub closed spec fn spec_index(&self) -> usize {
        self.index
    }

    pub closed spec fn spec_selector(&self) -> Option<usize> {
        self.selector
    }

    pub closed spec fn spec_scroll(&self) -> usize {
        self.scroll
    }

    pub closed spec fn spec_options(&self) -> ListOptions {
        self.options
    }

    pub closed spec fn spec_colors(&self) -> ListColors {
        self.colors
    }

    pub closed spec fn spec_last_height(&self) -> u16 {
        self.last_height
    }

    pub closed spec fn spec_list_height(&self) -> u16 {
        self.list_height
    }

    /// The number of items seen at the last render.
    pub closed spec fn spec_len(&self) -> usize {
        self.len
    }

    pub open spec fn cursor(&self) -> (usize, Option<usize>) {
        (self.spec_index(), self.spec_selector())
    }

    /// Everything but the index and the selector is as in `other`.
    pub open spec fn same_but_cursor(&self, other: &List) -> bool {
        &&& self.spec_scroll() == other.spec_scroll()
        &&& self.spec_options() == other.spec_options()
        &&& self.spec_colors() == other.spec_colors()
        &&& self.spec_last_height() == other.spec_last_height()
        &&& self.spec_list_height() == other.spec_list_height()
        &&& self.spec_len() == other.spec_len()
    }

    pub fn new() -> (r: Self)
        ensures
            r.spec_index() == 0,
            r.spec_selector() is None,
            r.spec_scroll() == 0,
            r.spec_options() == (ListOptions {
                scrolloff: ScrollMargins { margin_top: 0, margin_bottom: 0, padding_bottom: 0 },
                padding: Margin { left: 0, right: 0, top: 0, bottom: 0 },
                scrollbar: false,
                scrollbar_margin: 1,
            }),
            r.spec_colors().scrollbar == (ScrollbarColors { thumb: Color::Indexed(240), track: None }),
            r.spec_last_height() == 0,
            r.spec_list_height() == 0,
            r.spec_len() == 0,
    {
        List {
            index: 0,
            selector: None,
            scroll: 0,
            options: ListOptions::new(),
            colors: ListColors::new(),
            last_height: 0,
            list_height: 0,
            len: 0,
        }
    }

    pub fn with_index(self, index: usize) -> (r: Self)
        ensures
            r.spec_index() == index,
            r.spec_selector() == self.spec_selector(),
            r.same_but_cursor(&self),
    {
        let mut s = self;
        s.index = index;
        s
    }

    pub fn with_scrolloff(self, margins: ScrollMargins) -> (r: Self)
        ensures
            r.spec_options() == (ListOptions { scrolloff: margins, ..self.spec_options() }),
            r.spec_index() == self.spec_index(),
            r.spec_selector() == self.spec_selector(),
            r.spec_scroll() == self.spec_scroll(),
            r.spec_colors() == self.spec_colors(),
            r.spec_last_height() == self.spec_last_height(),
            r.spec_list_height() == self.spec_list_height(),
            r.spec_len() == self.spec_len(),
    {
        let mut s = self;
        s.options.scrolloff = margins;
        s
    }

    pub fn with_padding(self, padding: Margin) -> (r: Self)
        ensures
            r.spec_options() == (ListOptions { padding, ..self.spec_options() }),
            r.spec_index() == self.spec_index(),
            r.spec_selector() == self.spec_selector(),
            r.spec_scroll() == self.spec_scroll(),
            r.spec_colors() == self.spec_colors(),
            r.spec_last_height() == self.spec_last_height(),
            r.spec_list_height() == self.spec_list_height(),
            r.spec_len() == self.spec_len(),
    {
        let mut s = self;
        s.options.padding = padding;
        s
    }

    /// Shows a scrollbar `margin` columns right of the items.
    pub fn with_scrollbar(self, margin: u16) -> (r: Self)
        ensures
            r.spec_options() == (ListOptions {
                scrollbar: true,
                scrollbar_margin: margin,
                ..self.spec_options()
            }),
            r.spec_index() == self.spec_index(),
            r.spec_selector() == self.spec_selector(),
            r.spec_scroll() == self.spec_scroll(),
            r.spec_colors() == self.spec_colors(),
            r.spec_last_height() == self.spec_last_height(),
            r.spec_list_height() == self.spec_list_height(),
            r.spec_len() == self.spec_len(),
    {
        let mut s = self;
        s.options.scrollbar = true;
        s.options.scrollbar_margin = margin;
        s
    }

    pub fn with_colors(self, colors: ListColors) -> (r: Self)
        ensures
            r.spec_colors() == colors,
            r.spec_index() == self.spec_index(),
            r.spec_selector() == self.spec_selector(),
            r.spec_scroll() == self.spec_scroll(),
            r.spec_options() == self.spec_options(),
            r.spec_last_height() == self.spec_last_height(),
            r.spec_list_height() == self.spec_list_height(),
            r.spec_len() == self.spec_len(),
    {
        let mut s = self;
        s.colors = colors;
        s
    }

    pub fn index(&self) -> (r: usize)
        ensures
            r == self.spec_index(),
    {
        self.index
    }

    pub fn selector(&self) -> (r: Option<usize>)
        ensures
            r == self.spec_selector(),
    {
        self.selector
    }

    pub fn scroll(&self) -> (r: usize)
        ensures
            r == self.spec_scroll(),
    {
        self.scroll
    }

    /// The rows the items had at the last render, which the page keys move by.
    pub fn list_height(&self) -> (r: u16)
        ensures
            r == self.spec_list_height(),
    {
        self.list_height
    }

    pub fn set_index(&mut self, i: usize)
        ensures
            final(self).spec_index() == i,
            final(self).spec_selector() == old(self).spec_selector(),
            final(self).same_but_cursor(&*old(self)),
    {
        self.index = i;
    }

    pub fn set_selector(&mut self, s: Option<usize>)
        ensures
            final(self).spec_index() == old(self).spec_index(),
            final(self).spec_selector() == s,
            final(self).same_but_cursor(&*old(self)),
    {
        self.selector = s;
    }

    pub fn set_scrolloff(&mut self, margins: ScrollMargins)
        ensures
            final(self).spec_options() == (ListOptions { scrolloff: margins, ..old(self).spec_options() }),
            final(self).spec_index() == old(self).spec_index(),
            final(self).spec_selector() == old(self).spec_selector(),
            final(self).spec_scroll() == old(self).spec_scroll(),
            final(self).spec_colors() == old(self).spec_colors(),
            final(self).spec_last_height() == old(self).spec_last_height(),
            final(self).spec_list_height() == old(self).spec_list_height(),
            final(self).spec_len() == old(self).spec_len(),
    {
        self.options.scrolloff = margins;
    }

    pub fn set_padding(&mut self, padding: Margin)
        ensures
            final(self).spec_options() == (ListOptions { padding, ..old(self).spec_options() }),
            final(self).spec_index() == old(self).spec_index(),
            final(self).spec_selector() == old(self).spec_selector(),
            final(self).spec_scroll() == old(self).spec_scroll(),
            final(self).spec_colors() == old(self).spec_colors(),
            final(self).spec_last_height() == old(self).spec_last_height(),
            final(self).spec_list_height() == old(self).spec_list_height(),
            final(self).spec_len() == old(self).spec_len(),
    {
        self.options.padding = padding;
    }

    pub fn set_scrollbar(&mut self, enabled: bool)
        ensures
            final(self).spec_options() == (ListOptions { scrollbar: enabled, ..old(self).spec_options() }),
            final(self).spec_index() == old(self).spec_index(),
            final(self).spec_selector() == old(self).spec_selector(),
            final(self).spec_scroll() == old(self).spec_scroll(),
            final(self).spec_colors() == old(self).spec_colors(),
            final(self).spec_last_height() == old(self).spec_last_height(),
            final(self).spec_list_height() == old(self).spec_list_height(),
            final(self).spec_len() == old(self).spec_len(),
    {
        self.options.scrollbar = enabled;
    }

    pub fn set_colors(&mut self, colors: ListColors)
        ensures
            final(self).spec_colors() == colors,
            final(self).spec_index() == old(self).spec_index(),
            final(self).spec_selector() == old(self).spec_selector(),
            final(self).spec_scroll() == old(self).spec_scroll(),
            final(self).spec_options() == old(self).spec_options(),
            final(self).spec_last_height() == old(self).spec_last_height(),
            final(self).spec_list_height() == old(self).spec_list_height(),
            final(self).spec_len() == old(self).spec_len(),
    {
        self.colors = colors;
    }

    /// The selector after a move: kept or started at the old index when
    /// extending the selection, dropped otherwise, and dropped again when it
    /// would equal the new index.
    pub open spec fn moved(&self, i: usize, shift: bool) -> (usize, Option<usize>) {
        let sel = if shift {
            if self.spec_selector() is None { Some(self.spec_index()) } else { self.spec_selector() }
        } else {
            None
        };
        let index = min_usize(i, last_index(self.spec_len()));
        (index, if sel == Some(index) { None } else { sel })
    }

    /// Moves to item `i` (at most the last item), extending the selection
    /// when `shift` is held. Returns whether anything changed.
    fn set_index_and_selector(&mut self, i: usize, shift: bool) -> (r: bool)
        ensures
            final(self).cursor() == old(self).moved(i, shift),
            final(self).same_but_cursor(&*old(self)),
            r == (final(self).spec_index() != old(self).spec_index() || final(self).spec_selector()
                != old(self).spec_selector()),
    {
        let old_index = self.index;
        let old_selector = self.selector;
        if shift {
            if self.selector.is_none() {
                self.selector = Some(self.index);
            }
        } else {
            self.selector = None;
        }
        let last: usize = self.len.saturating_sub(1);
        self.index = if i < last { i } else { last };
        match self.selector {
            Some(s) => {
                if s == self.index {
                    self.selector = None;
                }
            },
            None => {},
        }
        old_index != self.index || !option_eq(old_selector, self.selector)
    }

    pub fn move_down(&mut self, n: usize, shift: bool) -> (r: bool)
        requires
            old(self).spec_index() + n <= usize::MAX,
        ensures
            final(self).cursor() == old(self).moved(
                (old(self).spec_index() + n) as usize,
                shift,
            ),
            final(self).same_but_cursor(&*old(self)),
            r == (final(self).spec_index() != old(self).spec_index() || final(self).spec_selector()
                != old(self).spec_selector()),
    {
        self.set_index_and_selector(self.index + n, shift)
    }

    pub fn move_up(&mut self, n: usize, shift: bool) -> (r: bool)
        ensures
            final(self).cursor() == old(self).moved(
                old(self).spec_index().saturating_sub(n),
                shift,
            ),
            final(self).same_but_cursor(&*old(self)),
            r == (final(self).spec_index() != old(self).spec_index() || final(self).spec_selector()
                != old(self).spec_selector()),
    {
        self.set_index_and_selector(self.index.saturating_sub(n), shift)
    }

    pub fn move_to_end(&mut self, shift: bool) -> (r: bool)
        ensures
            final(self).cursor() == old(self).moved(usize::MAX, shift),
            final(self).same_but_cursor(&*old(self)),
            r == (final(self).spec_index() != old(self).spec_index() || final(self).spec_selector()
                != old(self).spec_selector()),
    {
        self.set_index_and_selector(usize::MAX, shift)
    }

    pub fn move_to_start(&mut self, shift: bool) -> (r: bool)
        ensures
            final(self).cursor() == old(self).moved(0, shift),
            final(self).same_but_cursor(&*old(self)),
            r == (final(self).spec_index() != old(self).spec_index() || final(self).spec_selector()
                != old(self).spec_selector()),
    {
        self.set_index_and_selector(0, shift)
    }

    /// Moves the current item and the selector up together; without a
    /// selection, just moves up.
    pub fn move_selection_up(&mut self) -> (r: bool)
        ensures
            final(self).same_but_cursor(&*old(self)),
            old(self).spec_selector() is None ==> final(self).cursor() == old(self).moved(old(self).spec_index().saturating_sub(1), false)
                && r == (final(self).spec_index() != old(self).spec_index() || final(self).spec_selector() != old(self).spec_selector()),
            old(self).spec_selector() matches Some(s) ==> (if old(self).spec_index() == 0 || s == 0 {
                !r && final(self).cursor() == old(self).cursor()
            } else {
                r && final(self).cursor() == ((old(self).spec_index() - 1) as usize, Some((s - 1) as usize))
            }),
    {
        match self.selector {
            None => self.set_index_and_selector(self.index.saturating_sub(1), false),
            Some(selector) => {
                let index = self.index;
                let i: usize = index.saturating_sub(1);
                let s: usize = selector.saturating_sub(1);
                if i == index || s == selector {
                    return false;
                }
                self.index = i;
                self.selector = Some(s);
                true
            },
        }
    }

    /// Moves the current item and the selector down together, neither past
    /// the last item; without a selection, just moves down.
    pub fn move_selection_down(&mut self) -> (r: bool)
        requires
            old(self).spec_index() < usize::MAX,
            old(self).spec_selector() matches Some(s) ==> s < usize::MAX,
        ensures
            final(self).same_but_cursor(&*old(self)),
            old(self).spec_selector() is None ==> final(self).cursor() == old(self).moved((old(self).spec_index() + 1) as usize, false)
                && r == (final(self).spec_index() != old(self).spec_index() || final(self).spec_selector() != old(self).spec_selector()),
            old(self).spec_selector() matches Some(s) ==> ({
                let last = last_index(old(self).spec_len());
                let i = min_usize((old(self).spec_index() + 1) as usize, last);
                let t = min_usize((s + 1) as usize, last);
                if i == old(self).spec_index() || t == s {
                    !r && final(self).spec_index() == old(self).spec_index() && final(self).spec_selector() == old(self).spec_selector()
                } else {
                    r && final(self).spec_index() == i && final(self).spec_selector() == Some(t)
                }
            }),
    {
        match self.selector {
            None => self.set_index_and_selector(self.index + 1, false),
            Some(selector) => {
                let index = self.index;
                let last: usize = self.len.saturating_sub(1);
                let i: usize = if index + 1 < last { index + 1 } else { last };
                let s: usize = if selector + 1 < last { selector + 1 } else { last };
                if i == index || s == selector {
                    return false;
                }
                self.index = i;
                self.selector = Some(s);
                true
            },
        }
    }

    /// Selects every item: the current item becomes the first and the
    /// selector the last (no selector when there is at most one item).
    pub fn select_all(&mut self) -> (r: bool)
        ensures
            final(self).spec_index() == 0,
            final(self).spec_selector() == (if last_index(old(self).spec_len()) == 0 {
                None
            } else {
                Some(last_index(old(self).spec_len()))
            }),
            final(self).same_but_cursor(&*old(self)),
            r == (final(self).spec_index() != old(self).spec_index() || final(self).spec_selector()
                != old(self).spec_selector()),
    {
        let old_index = self.index;
        let old_selector = self.selector;
        self.index = 0;
        let last: usize = self.len.saturating_sub(1);
        self.selector = if last == 0 { None } else { Some(last) };
        old_index != self.index || !option_eq(old_selector, self.selector)
    }

    /// The selected items other than the current one, if any.
    pub fn selection(&self) -> (r: Option<Range<usize>>)
        requires
            self.spec_selector() matches Some(s) ==> (self.spec_index() < s ==> s < usize::MAX),
        ensures
            match self.spec_selector() {
                None => r is None,
                Some(s) => if self.spec_index() < s {
                    r == Some(Range { start: (self.spec_index() + 1) as usize, end: (s + 1) as usize })
                } else if self.spec_index() > s {
                    r == Some(Range { start: s, end: self.spec_index() })
                } else {
                    r is None
                },
            },
    {
        match self.selector {
            None => None,
            Some(selector) => {
                if self.index < selector {
                    Some(Range { start: self.index + 1, end: selector + 1 })
                } else if self.index > selector {
                    Some(Range { start: selector, end: self.index })
                } else {
                    None
                }
            },
        }
    }

    pub open spec fn selection_bounds(&self) -> (usize, usize) {
        match self.spec_selector() {
            Some(s) => if self.spec_index() < s {
                (self.spec_index(), s)
            } else {
                (s, self.spec_index())
            },
            None => (self.spec_index(), self.spec_index()),
        }
    }

    /// The selected items including the current one.
    pub fn selection_inclusive(&self) -> (r: RangeInclusive<usize>)
        ensures
            r@.start == self.selection_bounds().0,
            r@.end == self.selection_bounds().1,
            !r@.exhausted,
    {
        let (a, b) = self.selection_bounds_exec();
        RangeInclusive::new(a, b)
    }

    fn selection_bounds_exec(&self) -> (r: (usize, usize))
        ensures
            r == self.selection_bounds(),
    {
        match self.selector {
            Some(s) => if self.index < s {
                (self.index, s)
            } else {
                (s, self.index)
            },
            None => (self.index, self.index),
        }
    }

    /// Back to the first item, unscrolled, with no selection.
    pub fn reset(&mut self)
        ensures
            final(self).spec_index() == 0,
            final(self).spec_scroll() == 0,
            final(self).spec_selector() is None,
            final(self).spec_options() == old(self).spec_options(),
            final(self).spec_colors() == old(self).spec_colors(),
            final(self).spec_last_height() == old(self).spec_last_height(),
            final(self).spec_list_height() == old(self).spec_list_height(),
            final(self).spec_len() == old(self).spec_len(),
    {
        self.index = 0;
        self.scroll = 0;
        self.selector = None;
    }

    /// The index and the selector after `key`, or `None` for a key that
    /// moves nothing.
    pub open spec fn key_cursor(&self, key: KeyCode, mods: KeyModifiers) -> Option<(usize, Option<usize>)> {
        let shift = mods.shift_held();
        let ctrl = mods.control_held();
        match key {
            KeyCode::Down => Some(self.moved((self.spec_index() + 1) as usize, shift)),
            KeyCode::Up => Some(self.moved(self.spec_index().saturating_sub(1), shift)),
            KeyCode::PageDown => Some(
                self.moved(
                    (self.spec_index() + self.spec_list_height()) as usize,
                    shift,
                ),
            ),
            KeyCode::PageUp => Some(
                self.moved(
                    self.spec_index().saturating_sub(self.spec_list_height() as usize),
                    shift,
                ),
            ),
            KeyCode::End => Some(self.moved(usize::MAX, shift)),
            KeyCode::Home => Some(self.moved(0, shift)),
            KeyCode::Char(c) => if c == 'a' && ctrl {
                let last = last_index(self.spec_len());
                Some((0usize, if last == 0 { None } else { Some(last) }))
            } else {
                None
            },
            _ => None,
        }
    }

    /// Handles a key: arrows, page keys, Home and End move (extending the
    /// selection with Shift), Ctrl+A selects all. Returns whether anything
    /// changed.
    pub fn input(&mut self, key_pressed: KeyCode, key_modifiers: KeyModifiers) -> (r: bool)
        requires
            key_pressed == KeyCode::Down ==> old(self).spec_index() + 1 <= usize::MAX,
            key_pressed == KeyCode::PageDown ==> old(self).spec_index() + old(self).spec_list_height()
                <= usize::MAX,
        ensures
            final(self).same_but_cursor(&*old(self)),
            match old(self).key_cursor(key_pressed, key_modifiers) {
                Some(m) => final(self).cursor() == m && r == (final(self).spec_index() != old(self).spec_index()
                    || final(self).spec_selector() != old(self).spec_selector()),
                None => !r && final(self).spec_index() == old(self).spec_index() && final(self).spec_selector()
                    == old(self).spec_selector(),
            },
    {
        let ctrl = key_modifiers.contains(KeyModifiers::control());
        let shift = key_modifiers.contains(KeyModifiers::shift());
        match key_pressed {
            KeyCode::Down => self.move_down(1, shift),
            KeyCode::Up => self.move_up(1, shift),
            KeyCode::PageDown => self.move_down(self.list_height as usize, shift),
            KeyCode::PageUp => self.move_up(self.list_height as usize, shift),
            KeyCode::End => self.move_to_end(shift),
            KeyCode::Home => self.move_to_start(shift),
            KeyCode::Char(c) => {
                if c == 'a' && ctrl {
                    self.select_all()
                } else {
                    false
                }
            },
            _ => false,
        }
    }
}

impl List {
    /// The rectangle inside the padding.
    pub open spec fn spec_inner(&self, area: Rect) -> Rect {
        area.spec_inner(self.spec_options().padding)
    }

    /// Whether a scrollbar is shown for `len` items.
    pub open spec fn spec_scrollable(&self, inner: Rect, len: usize) -> bool {
        self.spec_options().scrollbar && len > inner.size.rows && inner.size.cols > 10
    }

    /// Where the items go: inside the padding, less the scrollbar's columns.
    pub open spec fn spec_body(&self, inner: Rect, len: usize) -> Rect {
        if self.spec_scrollable(inner, len) {
            inner.with_cols_spec(
                inner.size.cols.saturating_sub((1 + self.spec_options().scrollbar_margin) as u16) as int,
            )
        } else {
            inner
        }
    }

    /// The item and selector kept within `len` items.
    pub open spec fn clamped(&self, len: usize) -> (usize, Option<usize>) {
        let last = last_index(len);
        (
            min_usize(self.spec_index(), last),
            match self.spec_selector() {
                Some(s) => Some(min_usize(s, last)),
                None => None,
            },
        )
    }

    /// The scroll offset after a render of `len` items in a body of `height` rows,
    /// in an area of `area_height` rows.
    pub open spec fn rescrolled(&self, len: usize, height: u16, area_height: u16) -> int {
        spec_scroll(
            ScrollData {
                current_index: self.clamped(len).0,
                current_scroll: if self.spec_last_height() != area_height { 0 } else { self.spec_scroll() },
                total_lines: len,
                viewport_height: height,
                margins: self.spec_options().scrolloff,
            },
        )
    }

    /// How item `item` is shown once the list is `state`.
    pub open spec fn kind_of(&self, item: usize) -> ListIndex {
        if item == self.spec_index() {
            ListIndex::Selected
        } else if self.selection_bounds().0 <= item <= self.selection_bounds().1 {
            ListIndex::Selection
        } else {
            ListIndex::Normal
        }
    }

    /// The number of lines shown.
    pub open spec fn shown(&self, body: Rect) -> int {
        let left = self.spec_len() - self.spec_scroll();
        if left <= 0 {
            0
        } else if left < body.size.rows {
            left
        } else {
            body.size.rows as int
        }
    }

    /// What render requires of the area and the state.
    pub open spec fn render_fits(&self, area: Rect, len: usize) -> bool {
        &&& area.inner_fits(self.spec_options().padding)
        &&& area.spec_right_out() <= u16::MAX
        &&& area.spec_bottom_out() <= u16::MAX
        &&& 1 + self.spec_options().scrollbar_margin <= u16::MAX
        &&& len + self.spec_options().scrolloff.padding_bottom <= usize::MAX
        &&& self.spec_scroll() + area.size.rows <= usize::MAX
    }

    /// The list state after a render, apart from the scroll offset.
    pub open spec fn rendered_state(&self, old_list: &List, area: Rect, len: usize) -> bool {
        let body = old_list.spec_body(old_list.spec_inner(area), len);
        &&& self.cursor() == old_list.clamped(len)
        &&& self.spec_scroll() == old_list.rescrolled(len, body.size.rows, area.size.rows)
        &&& self.spec_len() == len
        &&& self.spec_list_height() == body.size.rows
        &&& self.spec_last_height() == area.size.rows
        &&& self.spec_options() == old_list.spec_options()
        &&& self.spec_colors() == old_list.spec_colors()
    }

    fn clamp_index_and_selector(&mut self)
        ensures
            final(self).cursor() == old(self).clamped(old(self).spec_len()),
            final(self).same_but_cursor(&*old(self)),
    {
        let last: usize = self.len.saturating_sub(1);
        self.index = if self.index < last { self.index } else { last };
        self.selector = match self.selector {
            Some(s) => Some(if s < last { s } else { last }),
            None => None,
        };
    }

    fn prepare_scrollbar(&self, area: &mut Rect, inner: &mut Rect) -> (r: Option<Rect>)
        requires
            old(area).spec_right_out() <= u16::MAX,
            1 + self.spec_options().scrollbar_margin <= u16::MAX,
        ensures
            self.spec_scrollable(*old(inner), self.spec_len()) ==> r == Some(Rect {
                pos: Pos {
                    col: (old(area).pos.col + old(area).size.cols.saturating_sub(1)) as u16,
                    row: old(area).pos.row,
                },
                size: Size { cols: 1, rows: old(area).size.rows },
            }) && *final(area) == old(area).with_cols_spec(
                old(area).size.cols.saturating_sub((1 + self.spec_options().scrollbar_margin) as u16) as int,
            ),
            !self.spec_scrollable(*old(inner), self.spec_len()) ==> r is None && *final(area) == *old(area),
            *final(inner) == self.spec_body(*old(inner), self.spec_len()),
    {
        let is_scrollable = self.options.scrollbar && Scroll::is_scrollable(self.len, inner.size, 10);
        if !is_scrollable {
            return None;
        }
        let scroll_area = Scroll::make_scroll_area(area, self.options.scrollbar_margin);
        inner.sub_cols(scroll_area.cols() + self.options.scrollbar_margin);
        Some(scroll_area)
    }

    fn update_scroll(&mut self, area_height: u16)
        requires
            old(self).spec_len() + old(self).spec_options().scrolloff.padding_bottom <= usize::MAX,
            old(self).spec_scroll() + old(self).spec_list_height() <= usize::MAX,
        ensures
            final(self).spec_scroll() == spec_scroll(
                ScrollData {
                    current_index: old(self).spec_index(),
                    current_scroll: if old(self).spec_last_height() != area_height {
                        0
                    } else {
                        old(self).spec_scroll()
                    },
                    total_lines: old(self).spec_len(),
                    viewport_height: old(self).spec_list_height(),
                    margins: old(self).spec_options().scrolloff,
                },
            ),
            final(self).cursor() == old(self).cursor(),
            final(self).spec_options() == old(self).spec_options(),
            final(self).spec_colors() == old(self).spec_colors(),
            final(self).spec_last_height() == old(self).spec_last_height(),
            final(self).spec_list_height() == old(self).spec_list_height(),
            final(self).spec_len() == old(self).spec_len(),
    {
        let scroll: usize = if self.last_height != area_height { 0 } else { self.scroll };
        self.scroll = Scroll::calc(
            ScrollData {
                current_index: self.index,
                current_scroll: scroll,
                total_lines: self.len,
                viewport_height: self.list_height,
                margins: self.options.scrolloff,
            },
        );
    }

    /// Updates the state for `len` items in `area`, returning the padded
    /// area, the body where the items go and the scrollbar column if any;
    /// `None` when nothing fits inside the padding, with the state unchanged.
    fn layout(&mut self, area: Rect, len: usize) -> (r: Option<(Rect, Rect, Option<Rect>)>)
        requires
            old(self).render_fits(area, len),
        ensures
            old(self).spec_inner(area).size.spec_is_empty() ==> r is None && *final(self) == *old(self),
            !old(self).spec_inner(area).size.spec_is_empty() ==> (r matches Some(t) && t.0 == old(
                self,
            ).spec_inner(area) && t.1 == old(self).spec_body(old(self).spec_inner(area), len) && (
            old(self).spec_scrollable(old(self).spec_inner(area), len) ==> t.2 == Some(
                Rect {
                    pos: Pos {
                        col: (area.pos.col + area.size.cols.saturating_sub(1)) as u16,
                        row: area.pos.row,
                    },
                    size: Size { cols: 1, rows: area.size.rows },
                },
            )) && (!old(self).spec_scrollable(old(self).spec_inner(area), len) ==> t.2 is None))
                && final(self).rendered_state(&*old(self), area, len),
    {
        let mut area = area;
        let inner0 = area.inner(self.options.padding);
        let mut inner = inner0;
        if inner.is_empty() {
            return None;
        }
        let ghost before = *self;
        self.len = len;
        let scroll_area = self.prepare_scrollbar(&mut area, &mut inner);
        self.list_height = inner.size.rows;
        self.clamp_index_and_selector();
        self.update_scroll(area.size.rows);
        self.last_height = area.size.rows;
        Some((inner0, inner, scroll_area))
    }

    fn scrollbar_data(&self) -> (r: ScrollbarData)
        ensures
            r == (ScrollbarData {
                current_scroll: self.spec_scroll(),
                total_items: self.spec_len(),
                viewport_height: self.spec_list_height(),
            }),
    {
        ScrollbarData { current_scroll: self.scroll, total_items: self.len, viewport_height: self.list_height }
    }

    fn item_kind(&self, item: usize) -> (r: ListIndex)
        ensures
            r == self.kind_of(item),
    {
        let (a, b) = self.selection_bounds_exec();
        if item == self.index {
            ListIndex::Selected
        } else if a <= item && item <= b {
            ListIndex::Selection
        } else {
            ListIndex::Normal
        }
    }

    /// Lays the list out for `len` items in `area`: updates the current
    /// item, the selection and the scroll offset, and returns the visible
    /// lines and the scrollbar to draw. `None` when nothing fits inside the
    /// padding.
    pub fn render(&mut self, area: Rect, len: usize) -> (r: Option<ListView>)
        requires
            old(self).render_fits(area, len),
        ensures
            old(self).spec_inner(area).size.spec_is_empty() ==> r is None && *final(self) == *old(self),
            !old(self).spec_inner(area).size.spec_is_empty() ==> r is Some && final(self).rendered_state(
                &*old(self),
                area,
                len,
            ),
            r matches Some(v) ==> ({
                let body = old(self).spec_body(old(self).spec_inner(area), len);
                &&& v.lines@.len() == final(self).shown(body)
                &&& forall|k: int|
                    0 <= k < v.lines@.len() ==> #[trigger] v.lines@[k] == (ListLine {
                        area: Rect {
                            pos: Pos { col: body.pos.col, row: (body.pos.row + k) as u16 },
                            size: Size { cols: body.size.cols, rows: 1 },
                        },
                        item: (final(self).spec_scroll() + k) as usize,
                        kind: final(self).kind_of((final(self).spec_scroll() + k) as usize),
                    })
                &&& old(self).spec_scrollable(old(self).spec_inner(area), len) ==> v.scrollbar == Some(
                    (
                        Rect {
                            pos: Pos {
                                col: (area.pos.col + area.size.cols.saturating_sub(1)) as u16,
                                row: area.pos.row,
                            },
                            size: Size { cols: 1, rows: area.size.rows },
                        },
                        ScrollbarData {
                            current_scroll: final(self).spec_scroll(),
                            total_items: len,
                            viewport_height: body.size.rows,
                        },
                    ),
                )
                &&& !old(self).spec_scrollable(old(self).spec_inner(area), len) ==> v.scrollbar is None
            }),
    {
        let laid = self.layout(area, len);
        match laid {
            None => None,
            Some((_inner, body, scroll_area)) => {
                let lines = self.visible_lines(body);
                let scrollbar = match scroll_area {
                    Some(a) => Some((a, self.scrollbar_data())),
                    None => None,
                };
                Some(ListView { lines, scrollbar })
            },
        }
    }

    fn visible_lines(&self, body: Rect) -> (r: Vec<ListLine>)
        requires
            body.spec_bottom_out() <= u16::MAX,
        ensures
            r@.len() == self.shown(body),
            forall|k: int|
                0 <= k < r@.len() ==> #[trigger] r@[k] == (ListLine {
                    area: Rect {
                        pos: Pos { col: body.pos.col, row: (body.pos.row + k) as u16 },
                        size: Size { cols: body.size.cols, rows: 1 },
                    },
                    item: (self.spec_scroll() + k) as usize,
                    kind: self.kind_of((self.spec_scroll() + k) as usize),
                }),
    {
        let mut out: Vec<ListLine> = Vec::new();
        let count: usize = if self.len <= self.scroll {
            0
        } else if self.len - self.scroll < body.size.rows as usize {
            self.len - self.scroll
        } else {
            body.size.rows as usize
        };
        let mut k: usize = 0;
        while k < count
            invariant
                count == self.shown(body),
                k <= count,
                count <= body.size.rows,
                body.spec_bottom_out() <= u16::MAX,
                count > 0 ==> self.spec_scroll() + count <= self.spec_len(),
                out@.len() == k,
                forall|j: int|
                    0 <= j < k ==> #[trigger] out@[j] == (ListLine {
                        area: Rect {
                            pos: Pos { col: body.pos.col, row: (body.pos.row + j) as u16 },
                            size: Size { cols: body.size.cols, rows: 1 },
                        },
                        item: (self.spec_scroll() + j) as usize,
                        kind: self.kind_of((self.spec_scroll() + j) as usize),
                    }),
            decreases count - k,
        {
            let item: usize = self.scroll + k;
            let row: u16 = body.pos.row + k as u16;
            let line = ListLine {
                area: Rect {
                    pos: Pos { col: body.pos.col, row },
                    size: Size { cols: body.size.cols, rows: 1 },
                },
                item,
                kind: self.item_kind(item),
            };
            out.push(line);
            k = k + 1;
        }
        out
    }
}

impl List {
    /// Where a table's rows go: the body less its first row.
    pub open spec fn spec_table_body(&self, area: Rect, len: usize) -> Rect {
        let body = self.spec_body(self.spec_inner(area), len);
        Rect {
            pos: Pos { col: body.pos.col, row: (body.pos.row + 1) as u16 },
            size: Size { cols: body.size.cols, rows: body.size.rows.saturating_sub(1) },
        }
    }

    /// A table's header line: the table body moved up to the area's first row.
    pub open spec fn spec_table_header(&self, area: Rect, len: usize) -> Rect {
        self.spec_table_body(area, len).with_row_spec(area.pos.row as int)
    }

    /// What render_table requires of the area, the layout and the state.
    pub open spec fn table_fits(&self, area: Rect, len: usize, layout: &TableLayout) -> bool {
        &&& self.render_fits(area, len)
        &&& self.spec_inner(area).pos.row + 1 <= u16::MAX
        &&& layout.areas_fit(self.spec_table_header(area, len))
    }

    /// The list state after a table render, apart from the scroll offset.
    pub open spec fn table_state(&self, old_list: &List, area: Rect, len: usize) -> bool {
        let body = old_list.spec_table_body(area, len);
        &&& self.cursor() == old_list.clamped(len)
        &&& self.spec_scroll() == old_list.rescrolled(len, body.size.rows, area.size.rows)
        &&& self.spec_len() == len
        &&& self.spec_list_height() == body.size.rows
        &&& self.spec_last_height() == area.size.rows
        &&& self.spec_options() == old_list.spec_options()
        &&& self.spec_colors() == old_list.spec_colors()
    }

    /// Like `render`, for a table: the first row inside the padding holds the
    /// header, split into columns by `layout`, and each item's row gets the
    /// same columns moved down to it.
    pub fn render_table(&mut self, area: Rect, len: usize, layout: &TableLayout) -> (r: Option<TableView>)
        requires
            old(self).table_fits(area, len, layout),
        ensures
            old(self).spec_inner(area).size.spec_is_empty() ==> r is None && *final(self) == *old(self),
            !old(self).spec_inner(area).size.spec_is_empty() ==> r is Some && final(self).table_state(
                &*old(self),
                area,
                len,
            ),
            r matches Some(v) ==> ({
                let body = old(self).spec_table_body(area, len);
                let header = old(self).spec_table_header(area, len);
                let columns = header.spec_split_horizontal(layout.gap, layout.constraints@);
                &&& v.header == header
                &&& v.columns@ == columns
                &&& v.rows@.len() == final(self).shown(body)
                &&& forall|k: int|
                    0 <= k < v.rows@.len() ==> #[trigger] row_matches(
                        v.rows@[k],
                        ListLine {
                            area: Rect {
                                pos: Pos { col: body.pos.col, row: (body.pos.row + k) as u16 },
                                size: Size { cols: body.size.cols, rows: 1 },
                            },
                            item: (final(self).spec_scroll() + k) as usize,
                            kind: final(self).kind_of((final(self).spec_scroll() + k) as usize),
                        },
                        columns,
                        area.pos.row + 1 + k,
                    )
                &&& old(self).spec_scrollable(old(self).spec_inner(area), len) ==> v.scrollbar == Some(
                    (
                        Rect {
                            pos: Pos {
                                col: (area.pos.col + area.size.cols.saturating_sub(1)) as u16,
                                row: area.pos.row,
                            },
                            size: Size { cols: 1, rows: area.size.rows },
                        },
                        ScrollbarData {
                            current_scroll: final(self).spec_scroll(),
                            total_items: len,
                            viewport_height: body.size.rows,
                        },
                    ),
                )
                &&& !old(self).spec_scrollable(old(self).spec_inner(area), len) ==> v.scrollbar is None
            }),
    {
        let mut area_m = area;
        let mut inner = area.inner(self.options.padding);
        if inner.is_empty() {
            return None;
        }
        self.len = len;
        let header_row: u16 = area.row();
        let scroll_area = self.prepare_scrollbar(&mut area_m, &mut inner);
        inner.shrink_down(1);
        let header_area = inner.with_row(header_row);
        let columns = layout.areas(header_area);
        self.list_height = inner.size.rows;
        self.clamp_index_and_selector();
        self.update_scroll(area_m.size.rows);
        self.last_height = area_m.size.rows;
        let lines = self.visible_lines(inner);
        let mut rows: Vec<TableRow> = Vec::new();
        let mut k: usize = 0;
        while k < lines.len()
            invariant
                k <= lines@.len(),
                lines@.len() == self.shown(inner),
                lines@.len() <= inner.size.rows,
                header_row + 1 <= inner.pos.row,
                inner.spec_bottom_out() <= u16::MAX,
                forall|j: int|
                    0 <= j < lines@.len() ==> #[trigger] lines@[j] == (ListLine {
                        area: Rect {
                            pos: Pos { col: inner.pos.col, row: (inner.pos.row + j) as u16 },
                            size: Size { cols: inner.size.cols, rows: 1 },
                        },
                        item: (self.spec_scroll() + j) as usize,
                        kind: self.kind_of((self.spec_scroll() + j) as usize),
                    }),
                rows@.len() == k,
                forall|i: int|
                    0 <= i < k ==> #[trigger] row_matches(rows@[i], lines@[i], columns@, header_row + 1 + i),
            decreases lines@.len() - k,
        {
            let row: u16 = header_row + 1 + k as u16;
            let cells = moved_to_row(&columns, row);
            let l = lines[k];
            let ghost before = rows@;
            let ghost cv = cells@;
            assert(row == header_row + 1 + k);
            rows.push(TableRow { line: l.area, cells, item: l.item, kind: l.kind });
            assert forall|i: int| 0 <= i < k + 1 implies #[trigger] row_matches(
                rows@[i],
                lines@[i],
                columns@,
                header_row + 1 + i,
            ) by {
                if i < k {
                    assert(rows@[i] == before[i]);
                } else {
                    assert(rows@[i].cells@ == cv);
                }
            }
            k = k + 1;
        }
        let scrollbar = match scroll_area {
            Some(a) => Some((a, self.scrollbar_data())),
            None => None,
        };
        let view = TableView { header: header_area, columns, rows, scrollbar };
        proof {
            assert(inner == old(self).spec_table_body(area, len));
            assert(view.header == old(self).spec_table_header(area, len));
            assert(view.columns@ == old(self).spec_table_header(area, len).spec_split_horizontal(layout.gap, layout.constraints@));
            assert(view.rows@.len() == self.shown(inner));
            assert(old(self).spec_scrollable(old(self).spec_inner(area), len) ==> view.scrollbar == Some(
                    (
                        Rect {
                            pos: Pos {
                                col: (area.pos.col + area.size.cols.saturating_sub(1)) as u16,
                                row: area.pos.row,
                            },
                            size: Size { cols: 1, rows: area.size.rows },
                        },
                        ScrollbarData {
                            current_scroll: self.spec_scroll(),
                            total_items: len,
                            viewport_height: inner.size.rows,
                        },
                    ),
                ));
            assert forall|k: int| 0 <= k < view.rows@.len() implies #[trigger] row_matches(
                view.rows@[k],
                ListLine {
                    area: Rect {
                        pos: Pos { col: inner.pos.col, row: (inner.pos.row + k) as u16 },
                        size: Size { cols: inner.size.cols, rows: 1 },
                    },
                    item: (self.spec_scroll() + k) as usize,
                    kind: self.kind_of((self.spec_scroll() + k) as usize),
                },
                view.columns@,
                area.pos.row + 1 + k,
            ) by {
                assert(row_matches(view.rows@[k], lines@[k], view.columns@, header_row + 1 + k));
            }
        }
        Some(view)
    }
}

/// A table row is the list line with the columns moved down to `row`.
pub open spec fn row_matches(row: TableRow, line: ListLine, columns: Seq<Rect>, at: int) -> bool {
    &&& row.line == line.area
    &&& row.item == line.item
    &&& row.kind == line.kind
    &&& row.cells@.len() == columns.len()
    &&& forall|j: int| 0 <= j < columns.len() ==> #[trigger] row.cells@[j] == columns[j].with_row_spec(at)
}

/// The rectangles moved to `row`.
fn moved_to_row(rects: &Vec<Rect>, row: u16) -> (r: Vec<Rect>)
    ensures
        r@.len() == rects@.len(),
        forall|j: int| 0 <= j < rects@.len() ==> #[trigger] r@[j] == rects@[j].with_row_spec(row as int),
{
    let mut out: Vec<Rect> = Vec::new();
    let mut j: usize = 0;
    while j < rects.len()
        invariant
            j <= rects@.len(),
            out@.len() == j,
            forall|i: int| 0 <= i < j ==> #[trigger] out@[i] == rects@[i].with_row_spec(row as int),
        decreases rects@.len() - j,
    {
        out.push(rects[j].with_row(row));
        j = j + 1;
    }
    out
}

fn option_eq(a: Option<usize>, b: Option<usize>) -> (r: bool)
    ensures
        r == (a == b),
{
    match (a, b) {
        (Some(x), Some(y)) => x == y,
        (None, None) => true,
        _ => false,
    }
}

/// After any move the selector, if there is one, differs from the index.
pub proof fn lemma_moved_selector_differs(l: List, i: usize, shift: bool)
    ensures
        l.moved(i, shift).1 != Some(l.moved(i, shift).0),
{
}

/// A move never goes past the last item.
pub proof fn lemma_moved_within_len(l: List, i: usize, shift: bool)
    ensures
        l.moved(i, shift).0 <= last_index(l.spec_len()),
{
}

/// Moving without Shift drops the selection.
pub proof fn lemma_move_without_shift_clears(l: List, i: usize)
    ensures
        l.moved(i, false).1 is None,
{
}

/// The inclusive selection always holds the current item.
pub proof fn lemma_selection_holds_index(l: List)
    ensures
        l.selection_bounds().0 <= l.spec_index() <= l.selection_bounds().1,
{
}

/// The navigation keys move the index by their own step, clamped to the
/// items: Up and Down by one, PageUp and PageDown by the height of the
/// list's body, Home and End to the first and the last item. Without Shift
/// the selection is dropped; with Shift it is anchored where it was, or at
/// the index it starts from, and dropped where the index comes back to
/// its anchor.
pub proof fn lemma_navigation_steps(l: List, mods: KeyModifiers, key: KeyCode)
    requires
        l.spec_index() + l.spec_list_height() + 1 <= usize::MAX,
        key == KeyCode::Up || key == KeyCode::Down || key == KeyCode::PageUp || key == KeyCode::PageDown
            || key == KeyCode::Home || key == KeyCode::End,
    ensures
        ({
            let i = l.spec_index() as int;
            let h = l.spec_list_height() as int;
            let last = if l.spec_len() == 0 { 0 } else { l.spec_len() - 1 };
            let target = match key {
                KeyCode::Up => i - 1,
                KeyCode::Down => i + 1,
                KeyCode::PageUp => i - h,
                KeyCode::PageDown => i + h,
                KeyCode::Home => 0,
                _ => last,
            };
            let clamped = if target < 0 { 0 } else if target > last { last } else { target };
            let anchor = match l.spec_selector() {
                Some(s) => s,
                None => l.spec_index(),
            };
            &&& l.key_cursor(key, mods) matches Some((j, sel)) && {
                &&& j == clamped
                &&& !mods.shift_held() ==> sel is None
                &&& mods.shift_held() ==> sel == if anchor == clamped {
                    None
                } else {
                    Some(anchor)
                }
            }
        }),
{
}

} // verus!
