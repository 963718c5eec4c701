//! A single-line text input with a cursor, a selection and horizontal scrolling.
use vstd::prelude::*;

use core::ops::Range;

use crate::chars::{
    all_whitespace, copy_range, byte_len, byte_offset, saturate_usize, chars_all_whitespace, push_str, str_chars,
    trim, trimmed, };
use crate::input::{KeyCode, KeyModifiers};
use crate::layout::{HorizontalAlignment, Pos, Rect};
use crate::scroll::{Scroll, ScrollData, ScrollMargins, spec_scroll};
use crate::style::{AnsiDisplay, Color, Sgr};
use crate::term::{move_to_code, render_output, Framebuffer, TextMode, TextOptions, area_fits};
use crate::text::{
    chars_width, first_grapheme_len, grapheme_chars, grapheme_clusters, last_grapheme_len,
    string_from_chars, unicode_str_columns,
};

verus! {

pub struct PromptColors {
    pub placeholder: Color,
    pub disabled: Color,
}

impl PromptColors {
    pub fn new() -> (r: Self)
        ensures
            r.placeholder == Color::Indexed(240),
            r.disabled == Color::Indexed(238),
    {
        PromptColors { placeholder: Color::Indexed(240), disabled: Color::Indexed(238) }
    }

    pub fn all(color: Color) -> (r: Self)
        ensures
            r.placeholder == color,
            r.disabled == color,
    {
        PromptColors { placeholder: color, disabled: color }
    }
}

impl Default for PromptColors {
    fn default() -> (r: Self)
        ensures
            r.placeholder == Color::Indexed(240),
            r.disabled == Color::Indexed(238),
    {
        Self::new()
    }
}

/// The columns a grapheme takes in a prompt: one for white space.
pub open spec fn prompt_gwidth(g: Seq<char>) -> u16 {
    if all_whitespace(g) {
        1
    } else {
        unicode_str_columns(g) as u16
    }
}

/// What a prompt shows for a grapheme: one space for white space.
pub open spec fn prompt_grender(g: Seq<char>) -> Seq<char> {
    if all_whitespace(g) {
        seq![' ']
    } else {
        g
    }
}

/// The widths of the graphemes added up in u16, wrapping.
pub open spec fn prompt_widths(gs: Seq<Seq<char>>) -> u16
    decreases gs.len(),
{
    if gs.len() == 0 {
        0
    } else {
        prompt_widths(gs.drop_last()).wrapping_add(prompt_gwidth(gs.last()))
    }
}

/// The width of a text in a prompt.
pub open spec fn prompt_text_width(s: Seq<char>) -> u16 {
    prompt_widths(grapheme_clusters(s))
}

/// Where the visible text starts when scrolled by `scroll` columns: at the
/// first grapheme that has at least `scroll` columns before it, else at the
/// last grapheme.
pub open spec fn prompt_start(gs: Seq<Seq<char>>, width: u16, scroll: u16, offset: int, start: int) -> int
    decreases gs.len(),
{
    if gs.len() == 0 {
        start
    } else if width >= scroll {
        offset
    } else {
        prompt_start(gs.drop_first(), width.wrapping_add(prompt_gwidth(gs[0])), scroll, offset + gs[0].len(), offset)
    }
}

/// The graphemes shown in `max` columns: each with the index after it and
/// what is written for it.
pub open spec fn prompt_items(gs: Seq<Seq<char>>, index: int, width: int, max: int) -> Seq<(int, Seq<char>)>
    decreases gs.len(),
{
    if gs.len() == 0 || width + prompt_gwidth(gs[0]) > max {
        Seq::empty()
    } else {
        seq![(index + gs[0].len(), prompt_grender(gs[0]))] + prompt_items(
            gs.drop_first(),
            index + gs[0].len(),
            width + prompt_gwidth(gs[0]),
            max,
        )
    }
}

pub open spec fn item_text(items: Seq<(int, Seq<char>)>) -> Seq<char>
    decreases items.len(),
{
    if items.len() == 0 {
        Seq::empty()
    } else {
        items[0].1 + item_text(items.drop_first())
    }
}

/// The shown graphemes with the selection `start..end` reversed: reverse
/// video starts before the first grapheme that ends past `start`, and a
/// reset goes before each grapheme that ends past `end` after that.
pub open spec fn selection_walk(items: Seq<(int, Seq<char>)>, start: int, end: int, found: bool, reset: bool) -> Seq<char>
    decreases items.len(),
{
    if items.len() == 0 {
        if !reset && found {
            Sgr::NotReverse.ansi()
        } else {
            Seq::empty()
        }
    } else {
        let (i, g) = items[0];
        if i > start && !found {
            Sgr::Reverse.ansi() + g + selection_walk(items.drop_first(), start, end, true, reset)
        } else if i > end && found {
            Sgr::NotReverse.ansi() + g + selection_walk(items.drop_first(), start, end, found, true)
        } else {
            g + selection_walk(items.drop_first(), start, end, found, reset)
        }
    }
}

/// The input with `start..end` removed.
pub open spec fn cut(s: Seq<char>, start: int, end: int) -> Seq<char> {
    s.subrange(0, start) + s.subrange(end, s.len() as int)
}

/// A single-line text input.
pub struct Prompt {
    input: Vec<char>,
    placeholder: &'static str,
    cursor: usize,
    selector: Option<usize>,
    scroll: u16,
    margins: u16,
    disabled: bool,
    colors: PromptColors,
    area_pos: Pos,
    last_width: u16,
}

impl Prompt {
    /// The cursor and the selector stay within the text.
    #[verifier::type_invariant]
    spec fn inv(self) -> bool {
        &&& self.cursor <= self.input@.len()
        &&& self.selector matches Some(s) ==> s <= self.input@.len()
    }

    pub closed spec fn text(&self) -> Seq<char> {
        self.input@
    }

    /// The cursor, as a number of characters before it.
    pub closed spec fn spec_cursor(&self) -> usize {
        self.cursor
    }

    pub closed spec fn spec_selector(&self) -> Option<usize> {
        self.selector
    }

    pub closed spec fn spec_scroll(&self) -> u16 {
        self.scroll
    }

    pub closed spec fn spec_placeholder(&self) -> Seq<char> {
        self.placeholder@
    }

    pub closed spec fn spec_margins(&self) -> u16 {
        self.margins
    }

    pub closed spec fn spec_disabled(&self) -> bool {
        self.disabled
    }

    pub closed spec fn spec_placeholder_color(&self) -> Color {
        self.colors.placeholder
    }

    pub closed spec fn spec_disabled_color(&self) -> Color {
        self.colors.disabled
    }

    pub closed spec fn spec_area_pos(&self) -> Pos {
        self.area_pos
    }

    pub closed spec fn spec_last_width(&self) -> u16 {
        self.last_width
    }

    pub open spec fn edit_state(&self) -> (Seq<char>, usize, Option<usize>) {
        (self.text(), self.spec_cursor(), self.spec_selector())
    }

    /// Everything but the text, the cursor and the selector is as in `other`.
    pub open spec fn same_settings(&self, other: &Prompt) -> bool {
        &&& self.spec_scroll() == other.spec_scroll()
        &&& self.spec_placeholder() == other.spec_placeholder()
        &&& self.spec_margins() == other.spec_margins()
        &&& self.spec_disabled() == other.spec_disabled()
        &&& self.spec_placeholder_color() == other.spec_placeholder_color()
        &&& self.spec_disabled_color() == other.spec_disabled_color()
        &&& self.spec_area_pos() == other.spec_area_pos()
        &&& self.spec_last_width() == other.spec_last_width()
    }

    pub open spec fn fresh(&self, text: Seq<char>) -> bool {
        &&& self.text() == text
        &&& self.spec_cursor() == 0
        &&& self.spec_selector() is None
        &&& self.spec_scroll() == 0
        &&& self.spec_placeholder() == Seq::<char>::empty()
        &&& self.spec_margins() == 0
        &&& !self.spec_disabled()
        &&& self.spec_placeholder_color() == Color::Indexed(240)
        &&& self.spec_disabled_color() == Color::Indexed(238)
        &&& self.spec_area_pos() == (Pos { col: 0, row: 0 })
        &&& self.spec_last_width() == 0
    }

    pub fn new() -> (r: Self)
        ensures
            r.fresh(Seq::empty()),
    {
        let p = Prompt {
            input: Vec::new(),
            placeholder: "",
            cursor: 0,
            selector: None,
            scroll: 0,
            margins: 0,
            disabled: false,
            colors: PromptColors::new(),
            area_pos: Pos::zero(),
            last_width: 0,
        };
        proof {
            reveal_strlit("");
            assert(p.placeholder@ =~= Seq::<char>::empty());
        }
        p
    }

    /// A prompt holding `s`, with the cursor at its start.
    pub fn from(s: String) -> (r: Self)
        ensures
            r.fresh(s@),
    {
        let p = Prompt {
            input: str_chars(s.as_str()),
            placeholder: "",
            cursor: 0,
            selector: None,
            scroll: 0,
            margins: 0,
            disabled: false,
            colors: PromptColors::new(),
            area_pos: Pos::zero(),
            last_width: 0,
        };
        proof {
            reveal_strlit("");
            assert(p.placeholder@ =~= Seq::<char>::empty());
        }
        p
    }

    pub fn with_placeholder(self, s: &'static str) -> (r: Self)
        ensures
            r.spec_placeholder() == s@,
            r.edit_state() == self.edit_state(),
            r.spec_scroll() == self.spec_scroll(),
            r.spec_margins() == self.spec_margins(),
            r.spec_disabled() == self.spec_disabled(),
            r.spec_placeholder_color() == self.spec_placeholder_color(),
            r.spec_disabled_color() == self.spec_disabled_color(),
            r.spec_area_pos() == self.spec_area_pos(),
            r.spec_last_width() == self.spec_last_width(),
    {
        proof {
            use_type_invariant(&self);
        }
        let mut p = self;
        p.placeholder = s;
        p
    }

    pub fn with_colors(self, colors: PromptColors) -> (r: Self)
        ensures
            r.spec_placeholder_color() == colors.placeholder,
            r.spec_disabled_color() == colors.disabled,
            r.edit_state() == self.edit_state(),
            r.spec_scroll() == self.spec_scroll(),
            r.spec_placeholder() == self.spec_placeholder(),
            r.spec_margins() == self.spec_margins(),
            r.spec_disabled() == self.spec_disabled(),
            r.spec_area_pos() == self.spec_area_pos(),
            r.spec_last_width() == self.spec_last_width(),
    {
        proof {
            use_type_invariant(&self);
        }
        let mut p = self;
        p.colors = colors;
        p
    }

    pub fn with_margins(self, horizontal: u16) -> (r: Self)
        ensures
            r.spec_margins() == horizontal,
            r.edit_state() == self.edit_state(),
            r.spec_scroll() == self.spec_scroll(),
            r.spec_placeholder() == self.spec_placeholder(),
            r.spec_disabled() == self.spec_disabled(),
            r.spec_placeholder_color() == self.spec_placeholder_color(),
            r.spec_disabled_color() == self.spec_disabled_color(),
            r.spec_area_pos() == self.spec_area_pos(),
            r.spec_last_width() == self.spec_last_width(),
    {
        proof {
            use_type_invariant(&self);
        }
        let mut p = self;
        p.margins = horizontal;
        p
    }

    pub fn with_disabled(self) -> (r: Self)
        ensures
            r.spec_disabled(),
            r.edit_state() == self.edit_state(),
            r.spec_scroll() == self.spec_scroll(),
            r.spec_placeholder() == self.spec_placeholder(),
            r.spec_margins() == self.spec_margins(),
            r.spec_placeholder_color() == self.spec_placeholder_color(),
            r.spec_disabled_color() == self.spec_disabled_color(),
            r.spec_area_pos() == self.spec_area_pos(),
            r.spec_last_width() == self.spec_last_width(),
    {
        proof {
            use_type_invariant(&self);
        }
        let mut p = self;
        p.disabled = true;
        p
    }

    pub fn set_colors(&mut self, colors: PromptColors)
        ensures
            final(self).spec_placeholder_color() == colors.placeholder,
            final(self).spec_disabled_color() == colors.disabled,
            final(self).edit_state() == old(self).edit_state(),
            final(self).spec_scroll() == old(self).spec_scroll(),
            final(self).spec_placeholder() == old(self).spec_placeholder(),
            final(self).spec_margins() == old(self).spec_margins(),
            final(self).spec_disabled() == old(self).spec_disabled(),
            final(self).spec_area_pos() == old(self).spec_area_pos(),
            final(self).spec_last_width() == old(self).spec_last_width(),
    {
        proof {
            use_type_invariant(&*self);
        }
        self.colors = colors;
    }

    pub fn set_disabled(&mut self, value: bool)
        ensures
            final(self).spec_disabled() == value,
            final(self).edit_state() == old(self).edit_state(),
            final(self).spec_scroll() == old(self).spec_scroll(),
            final(self).spec_placeholder() == old(self).spec_placeholder(),
            final(self).spec_margins() == old(self).spec_margins(),
            final(self).spec_placeholder_color() == old(self).spec_placeholder_color(),
            final(self).spec_disabled_color() == old(self).spec_disabled_color(),
            final(self).spec_area_pos() == old(self).spec_area_pos(),
            final(self).spec_last_width() == old(self).spec_last_width(),
    {
        proof {
            use_type_invariant(&*self);
        }
        self.disabled = value;
    }

    pub fn is_empty(&self) -> (r: bool)
        ensures
            r == (self.text().len() == 0),
    {
        self.input.len() == 0
    }

    /// Whether the text is empty or all white space.
    pub fn is_empty_trim(&self) -> (r: bool)
        ensures
            r == (trimmed(self.text()).len() == 0),
    {
        let t = trim(self.input.as_slice());
        t.len() == 0
    }

    pub fn has_selection(&self) -> (r: bool)
        ensures
            r == self.spec_selector() is Some,
    {
        self.selector.is_some()
    }

    /// The text.
    pub fn as_str(&self) -> (r: String)
        ensures
            r@ == self.text(),
    {
        string_from_chars(self.input.as_slice())
    }

    /// The text without white space at either end.
    pub fn as_str_trim(&self) -> (r: String)
        ensures
            r@ == trimmed(self.text()),
    {
        let t = trim(self.input.as_slice());
        string_from_chars(t.as_slice())
    }

    /// A hash of the text.
    pub fn hash(&self) -> (r: u64)
        ensures
            r == crate::chars::hash_of(self.text()),
    {
        crate::chars::hash_fast(self.input.as_slice())
    }

    /// A hash of the text without white space at either end.
    pub fn hash_trim(&self) -> (r: u64)
        ensures
            r == crate::chars::hash_of(trimmed(self.text())),
    {
        let t = trim(self.input.as_slice());
        crate::chars::hash_fast(t.as_slice())
    }

    pub fn get_render_pos(&self) -> (r: Pos)
        ensures
            r == self.spec_area_pos(),
    {
        self.area_pos
    }
}

/// How the cursor moves.
#[derive(Debug, Clone, Copy, PartialEq, Eq, Structural)]
pub enum CursorMove {
    Forward,
    Back,
    Start,
    End,
}

/// The cursor after a move in `text`: over one grapheme forward or back,
/// or to either end.
pub open spec fn moved_cursor(text: Seq<char>, cursor: int, cm: CursorMove) -> int {
    match cm {
        CursorMove::Forward => {
            let gs = grapheme_clusters(text.subrange(cursor, text.len() as int));
            if gs.len() > 0 { cursor + gs[0].len() } else { cursor }
        },
        CursorMove::Back => {
            let gs = grapheme_clusters(text.subrange(0, cursor));
            if gs.len() > 0 { cursor - gs.last().len() } else { cursor }
        },
        CursorMove::Start => 0,
        CursorMove::End => text.len() as int,
    }
}

/// The selector after the cursor moved from `cursor` to `new_cursor`:
/// started or kept while extending, dropped otherwise or when it meets the
/// cursor.
pub open spec fn moved_selector(selector: Option<usize>, cursor: usize, new_cursor: int, shift: bool) -> Option<usize> {
    let sel = if shift {
        if selector is None { Some(cursor) } else { selector }
    } else {
        None
    };
    if sel matches Some(s) && s == new_cursor { None } else { sel }
}

/// The text and the cursor once the selected range is deleted.
pub open spec fn delete_range(text: Seq<char>, cursor: usize, selector: usize) -> (Seq<char>, usize) {
    if cursor < selector {
        (cut(text, cursor as int, selector as int), cursor)
    } else if cursor > selector {
        (cut(text, selector as int, cursor as int), selector)
    } else {
        (text, cursor)
    }
}

pub(crate) fn remove_range(v: &mut Vec<char>, start: usize, end: usize)
    requires
        start <= end <= old(v)@.len(),
    ensures
        final(v)@ == cut(old(v)@, start as int, end as int),
{
    let mut k: usize = start;
    while k < end
        invariant
            start <= k <= end <= old(v)@.len(),
            v@ == cut(old(v)@, start as int, k as int),
        decreases end - k,
    {
        v.remove(start);
        assert(v@ =~= cut(old(v)@, start as int, k as int + 1));
        k = k + 1;
    }
}

impl Prompt {
    /// Takes the text, the cursor and the selector out, leaving an empty text.
    fn take_text(&mut self) -> (r: (Vec<char>, usize, Option<usize>))
        ensures
            r.0@ == old(self).text(),
            r.1 == old(self).spec_cursor(),
            r.2 == old(self).spec_selector(),
            r.1 <= r.0@.len(),
            r.2 matches Some(s) ==> s <= r.0@.len(),
            final(self).text() == Seq::<char>::empty(),
            final(self).spec_cursor() == 0,
            final(self).spec_selector() is None,
            final(self).same_settings(&*old(self)),
    {
        proof {
            use_type_invariant(&*self);
        }
        let cursor = self.cursor;
        let selector = self.selector;
        self.cursor = 0;
        self.selector = None;
        let mut v: Vec<char> = Vec::new();
        std::mem::swap(&mut v, &mut self.input);
        (v, cursor, selector)
    }

    /// Puts a text, a cursor and a selector back.
    fn put_text(&mut self, v: Vec<char>, cursor: usize, selector: Option<usize>)
        requires
            old(self).text() == Seq::<char>::empty(),
            old(self).spec_cursor() == 0,
            old(self).spec_selector() is None,
            cursor <= v@.len(),
            selector matches Some(s) ==> s <= v@.len(),
        ensures
            final(self).text() == v@,
            final(self).spec_cursor() == cursor,
            final(self).spec_selector() == selector,
            final(self).same_settings(&*old(self)),
    {
        self.input = v;
        self.cursor = cursor;
        self.selector = selector;
    }

    pub open spec fn after_push(&self, s: Seq<char>) -> (Seq<char>, usize, Option<usize>) {
        let (t, c) = match self.spec_selector() {
            Some(sel) => delete_range(self.text(), self.spec_cursor(), sel),
            None => (self.text(), self.spec_cursor()),
        };
        (t.subrange(0, c as int) + s + t.subrange(c as int, t.len() as int), (c + s.len()) as usize, None)
    }

    pub open spec fn after_move(&self, cm: CursorMove, shift: bool) -> (Seq<char>, usize, Option<usize>) {
        let c = moved_cursor(self.text(), self.spec_cursor() as int, cm);
        (self.text(), c as usize, moved_selector(self.spec_selector(), self.spec_cursor(), c, shift))
    }

    /// The state after deleting the selection, and whether anything was deleted.
    pub open spec fn after_delete_selection(&self) -> ((Seq<char>, usize, Option<usize>), bool) {
        match self.spec_selector() {
            Some(sel) => {
                let (t, c) = delete_range(self.text(), self.spec_cursor(), sel);
                ((t, c, None), sel != self.spec_cursor())
            },
            None => (self.edit_state(), false),
        }
    }

    pub open spec fn after_delete_forward(&self) -> ((Seq<char>, usize, Option<usize>), bool) {
        if self.spec_selector() is Some {
            self.after_delete_selection()
        } else {
            let gs = grapheme_clusters(self.text().subrange(self.spec_cursor() as int, self.text().len() as int));
            if gs.len() > 0 {
                ((cut(self.text(), self.spec_cursor() as int, self.spec_cursor() + gs[0].len()), self.spec_cursor(), None), true)
            } else {
                (self.edit_state(), false)
            }
        }
    }

    pub open spec fn after_delete_backward(&self) -> ((Seq<char>, usize, Option<usize>), bool) {
        if self.spec_selector() is Some {
            self.after_delete_selection()
        } else {
            let gs = grapheme_clusters(self.text().subrange(0, self.spec_cursor() as int));
            if gs.len() > 0 {
                let c = self.spec_cursor() - gs.last().len();
                ((cut(self.text(), c, self.spec_cursor() as int), c as usize, None), true)
            } else {
                (self.edit_state(), false)
            }
        }
    }

    /// Deletes `cursor..selector` (either way round), leaving the cursor at
    /// its start. Returns whether the range was not empty.
    fn try_delete_selection(&mut self, selector: usize) -> (r: bool)
        requires
            old(self).spec_selector() is None,
            selector <= old(self).text().len(),
        ensures
            (final(self).text(), final(self).spec_cursor()) == delete_range(old(self).text(), old(self).spec_cursor(), selector),
            final(self).spec_selector() is None,
            final(self).same_settings(&*old(self)),
            r == (selector != old(self).spec_cursor()),
    {
        let (mut v, cursor, _) = self.take_text();
        if cursor < selector {
            remove_range(&mut v, cursor, selector);
            self.put_text(v, cursor, None);
            true
        } else if cursor > selector {
            remove_range(&mut v, selector, cursor);
            self.put_text(v, selector, None);
            true
        } else {
            self.put_text(v, cursor, None);
            false
        }
    }

    /// Deletes the selection, if there is one.
    pub fn delete_selection(&mut self) -> (r: bool)
        ensures
            (final(self).edit_state(), r) == old(self).after_delete_selection(),
            final(self).same_settings(&*old(self)),
    {
        proof {
            use_type_invariant(&*self);
        }
        let taken = self.selector;
        self.selector = None;
        match taken {
            Some(selector) => self.try_delete_selection(selector),
            None => false,
        }
    }

    /// Replaces the selection, if any, with `c`, and moves the cursor past it.
    pub fn push_char(&mut self, c: char)
        ensures
            final(self).edit_state() == old(self).after_push(seq![c]),
            final(self).same_settings(&*old(self)),
    {
        self.delete_selection();
        let (mut v, cursor, _) = self.take_text();
        let ghost t = v@;
        v.insert(cursor, c);
        assert(v@ =~= t.subrange(0, cursor as int) + seq![c] + t.subrange(cursor as int, t.len() as int));
        assert(cursor < v.len());
        self.put_text(v, cursor + 1, None);
    }

    /// Replaces the selection, if any, with `s`, and moves the cursor past it.
    pub fn push_str(&mut self, s: &str)
        ensures
            final(self).edit_state() == old(self).after_push(s@),
            final(self).same_settings(&*old(self)),
    {
        self.delete_selection();
        let (mut v, cursor, _) = self.take_text();
        let chars = str_chars(s);
        let ghost t = v@;
        let ghost c0 = cursor as int;
        let mut c: usize = cursor;
        let mut i: usize = 0;
        while i < chars.len()
            invariant
                i <= chars@.len(),
                c == c0 + i,
                v@ == t.subrange(0, c0) + chars@.take(i as int) + t.subrange(c0, t.len() as int),
                0 <= c0 <= t.len(),
            decreases chars@.len() - i,
        {
            v.insert(c, chars[i]);
            assert(c < v.len());
            c = c + 1;
            assert(v@ =~= t.subrange(0, c0) + chars@.take(i as int + 1) + t.subrange(c0, t.len() as int));
            i = i + 1;
        }
        assert(chars@.take(chars@.len() as int) =~= chars@);
        self.put_text(v, c, None);
    }

    fn move_cursor(&mut self, cm: CursorMove, shift: bool) -> (r: bool)
        ensures
            final(self).edit_state() == old(self).after_move(cm, shift),
            final(self).same_settings(&*old(self)),
            r == (final(self).spec_cursor() != old(self).spec_cursor() || final(self).spec_selector() != old(self).spec_selector()),
    {
        proof {
            use_type_invariant(&*self);
        }
        let old_cursor = self.cursor;
        let old_selector = self.selector;
        if shift {
            if self.selector.is_none() {
                self.selector = Some(self.cursor);
            }
        } else {
            self.selector = None;
        }
        match cm {
            CursorMove::Forward => {
                let rest = copy_range(self.input.as_slice(), self.cursor, self.input.len());
                match first_grapheme_len(rest.as_slice()) {
                    Some(n) => {
                        self.cursor = self.cursor + n;
                    },
                    None => {},
                }
            },
            CursorMove::Back => {
                let before = copy_range(self.input.as_slice(), 0, self.cursor);
                match last_grapheme_len(before.as_slice()) {
                    Some(n) => {
                        self.cursor = self.cursor - n;
                    },
                    None => {},
                }
            },
            CursorMove::Start => {
                self.cursor = 0;
            },
            CursorMove::End => {
                self.cursor = self.input.len();
            },
        }
        match self.selector {
            Some(s) => {
                if s == self.cursor {
                    self.selector = None;
                }
            },
            None => {},
        }
        self.cursor != old_cursor || !option_eq(self.selector, old_selector)
    }

    pub fn move_forward(&mut self, shift: bool) -> (r: bool)
        ensures
            final(self).edit_state() == old(self).after_move(CursorMove::Forward, shift),
            final(self).same_settings(&*old(self)),
            r == (final(self).spec_cursor() != old(self).spec_cursor() || final(self).spec_selector() != old(self).spec_selector()),
    {
        self.move_cursor(CursorMove::Forward, shift)
    }

    pub fn move_backward(&mut self, shift: bool) -> (r: bool)
        ensures
            final(self).edit_state() == old(self).after_move(CursorMove::Back, shift),
            final(self).same_settings(&*old(self)),
            r == (final(self).spec_cursor() != old(self).spec_cursor() || final(self).spec_selector() != old(self).spec_selector()),
    {
        self.move_cursor(CursorMove::Back, shift)
    }

    pub fn move_to_end(&mut self, shift: bool) -> (r: bool)
        ensures
            final(self).edit_state() == old(self).after_move(CursorMove::End, shift),
            final(self).same_settings(&*old(self)),
            r == (final(self).spec_cursor() != old(self).spec_cursor() || final(self).spec_selector() != old(self).spec_selector()),
    {
        self.move_cursor(CursorMove::End, shift)
    }

    pub fn move_to_start(&mut self, shift: bool) -> (r: bool)
        ensures
            final(self).edit_state() == old(self).after_move(CursorMove::Start, shift),
            final(self).same_settings(&*old(self)),
            r == (final(self).spec_cursor() != old(self).spec_cursor() || final(self).spec_selector() != old(self).spec_selector()),
    {
        self.move_cursor(CursorMove::Start, shift)
    }

    /// Puts the cursor at the end and the selector at the start.
    pub fn select_all(&mut self) -> (r: bool)
        ensures
            final(self).edit_state() == (old(self).text(), old(self).text().len() as usize, Some(0usize)),
            final(self).same_settings(&*old(self)),
            r == (final(self).spec_cursor() != old(self).spec_cursor() || final(self).spec_selector() != old(self).spec_selector()),
    {
        proof {
            use_type_invariant(&*self);
        }
        let old_cursor = self.cursor;
        let old_selector = self.selector;
        self.cursor = self.input.len();
        self.selector = Some(0);
        self.cursor != old_cursor || !option_eq(self.selector, old_selector)
    }

    /// Deletes the selection, or else the grapheme after the cursor.
    pub fn delete_forward(&mut self) -> (r: bool)
        ensures
            (final(self).edit_state(), r) == old(self).after_delete_forward(),
            final(self).same_settings(&*old(self)),
    {
        proof {
            use_type_invariant(&*self);
        }
        let taken = self.selector;
        self.selector = None;
        if let Some(selector) = taken {
            return self.try_delete_selection(selector);
        }
        let rest = copy_range(self.input.as_slice(), self.cursor, self.input.len());
        match first_grapheme_len(rest.as_slice()) {
            Some(n) => {
                let (mut v, cursor, _) = self.take_text();
                remove_range(&mut v, cursor, cursor + n);
                self.put_text(v, cursor, None);
                true
            },
            None => false,
        }
    }

    /// Deletes the selection, or else the grapheme before the cursor.
    pub fn delete_backward(&mut self) -> (r: bool)
        ensures
            (final(self).edit_state(), r) == old(self).after_delete_backward(),
            final(self).same_settings(&*old(self)),
    {
        proof {
            use_type_invariant(&*self);
        }
        let taken = self.selector;
        self.selector = None;
        if let Some(selector) = taken {
            return self.try_delete_selection(selector);
        }
        let before = copy_range(self.input.as_slice(), 0, self.cursor);
        match last_grapheme_len(before.as_slice()) {
            Some(n) => {
                let (mut v, cursor, _) = self.take_text();
                remove_range(&mut v, cursor - n, cursor);
                self.put_text(v, cursor - n, None);
                true
            },
            None => false,
        }
    }

    /// Empties the text.
    pub fn clear(&mut self)
        ensures
            final(self).text() == Seq::<char>::empty(),
            final(self).spec_cursor() == 0,
            final(self).spec_selector() is None,
            final(self).spec_scroll() == 0,
            final(self).spec_placeholder() == old(self).spec_placeholder(),
            final(self).spec_margins() == old(self).spec_margins(),
            final(self).spec_disabled() == old(self).spec_disabled(),
            final(self).spec_placeholder_color() == old(self).spec_placeholder_color(),
            final(self).spec_disabled_color() == old(self).spec_disabled_color(),
            final(self).spec_area_pos() == old(self).spec_area_pos(),
            final(self).spec_last_width() == old(self).spec_last_width(),
    {
        proof {
            use_type_invariant(&*self);
        }
        let _ = self.take_text();
        self.scroll = 0;
    }

    /// The state after a key, and whether to redraw.
    pub open spec fn after_key(&self, key: KeyCode, mods: KeyModifiers) -> ((Seq<char>, usize, Option<usize>), bool) {
        let shift = mods.shift_held();
        let ctrl = mods.control_held();
        let changed = |s: (Seq<char>, usize, Option<usize>)| (s, s.1 != self.spec_cursor() || s.2 != self.spec_selector());
        if self.spec_disabled() {
            (self.edit_state(), false)
        } else {
            match key {
                KeyCode::Right => changed(self.after_move(CursorMove::Forward, shift)),
                KeyCode::Left => changed(self.after_move(CursorMove::Back, shift)),
                KeyCode::Home => changed(self.after_move(CursorMove::Start, shift)),
                KeyCode::End => changed(self.after_move(CursorMove::End, shift)),
                KeyCode::Backspace => self.after_delete_backward(),
                KeyCode::Delete => self.after_delete_forward(),
                KeyCode::Char(c) => if c == 'a' && ctrl {
                    changed((self.text(), self.text().len() as usize, Some(0usize)))
                } else {
                    (self.after_push(seq![c]), true)
                },
                _ => (self.edit_state(), false),
            }
        }
    }

    /// Handles a key while enabled: arrows, Home and End move (extending
    /// the selection with Shift), Backspace and Delete delete, Ctrl+A selects
    /// all and other characters are typed. Returns whether to redraw.
    pub fn input(&mut self, key_pressed: KeyCode, key_modifiers: KeyModifiers) -> (r: bool)
        ensures
            (final(self).edit_state(), r) == old(self).after_key(key_pressed, key_modifiers),
            final(self).same_settings(&*old(self)),
    {
        if self.disabled {
            return false;
        }
        let ctrl = key_modifiers.contains(KeyModifiers::control());
        let shift = key_modifiers.contains(KeyModifiers::shift());
        match key_pressed {
            KeyCode::Right => self.move_forward(shift),
            KeyCode::Left => self.move_backward(shift),
            KeyCode::Home => self.move_to_start(shift),
            KeyCode::End => self.move_to_end(shift),
            KeyCode::Backspace => self.delete_backward(),
            KeyCode::Delete => self.delete_forward(),
            KeyCode::Char(c) => {
                if c == 'a' && ctrl {
                    self.select_all()
                } else {
                    self.push_char(c);
                    true
                }
            },
            _ => false,
        }
    }
}

pub(crate) fn option_eq(a: Option<usize>, b: Option<usize>) -> (r: bool)
    ensures
        r == (a == b),
{
    match (a, b) {
        (Some(x), Some(y)) => x == y,
        (None, None) => true,
        _ => false,
    }
}

fn grapheme_width(g: &[char]) -> (r: u16)
    ensures
        r == prompt_gwidth(g@),
{
    if chars_all_whitespace(g) {
        1
    } else {
        chars_width(g)
    }
}

fn grapheme_render(g: &[char]) -> (r: Vec<char>)
    ensures
        r@ == prompt_grender(g@),
{
    if chars_all_whitespace(g) {
        let mut v: Vec<char> = Vec::new();
        v.push(' ');
        assert(v@ =~= seq![' ']);
        v
    } else {
        copy_range(g, 0, g.len())
    }
}

/// The width of a text in a prompt, in columns.
fn text_width(s: &[char]) -> (r: u16)
    ensures
        r == prompt_text_width(s@),
{
    let gs = grapheme_chars(s);
    let ghost all = gs@.map_values(|g: Vec<char>| g@);
    let mut w: u16 = 0;
    let mut i: usize = 0;
    while i < gs.len()
        invariant
            all == gs@.map_values(|g: Vec<char>| g@),
            all == grapheme_clusters(s@),
            i <= gs@.len(),
            w == prompt_widths(all.take(i as int)),
        decreases gs@.len() - i,
    {
        assert(all.take(i as int + 1).drop_last() =~= all.take(i as int));
        assert(all[i as int] == gs@[i as int]@);
        w = w.wrapping_add(grapheme_width(gs[i].as_slice()));
        i = i + 1;
    }
    assert(all.take(gs@.len() as int) =~= all);
    w
}


impl Prompt {
    /// Where the shown text starts, as a character index.
    pub open spec fn spec_start(&self) -> int {
        prompt_start(grapheme_clusters(self.text()), 0, self.spec_scroll(), 0, 0)
    }

    /// The graphemes shown in `max` columns.
    pub open spec fn spec_items(&self, max: u16) -> Seq<(int, Seq<char>)> {
        let start = self.spec_start();
        prompt_items(grapheme_clusters(self.text().subrange(start, self.text().len() as int)), start, 0, max as int)
    }

    /// The cursor's column on screen.
    pub open spec fn spec_cursor_col(&self) -> u16 {
        self.spec_area_pos().col.wrapping_add(prompt_text_width(self.text().take(self.spec_cursor() as int))).saturating_sub(self.spec_scroll())
    }

    /// The scroll offset after rendering `width` columns, having rendered
    /// `last_width` columns before.
    pub open spec fn rescrolled(&self, last_width: u16, width: u16) -> u16 {
        spec_scroll(ScrollData {
            current_index: saturate_usize(byte_len(self.text().take(self.spec_cursor() as int))),
            current_scroll: if last_width != width { 0 } else { self.spec_scroll() as usize },
            total_lines: (prompt_text_width(self.text()) + 1) as usize,
            viewport_height: width,
            margins: ScrollMargins { margin_top: 0, margin_bottom: 0, padding_bottom: 0 },
        }) as u16
    }

    pub open spec fn text_output(&self, area: Rect, color: Option<Color>) -> Seq<char> {
        (match color { Some(c) => Sgr::Fg(c).ansi(), None => Seq::empty() })
            + move_to_code(area.pos.col, area.pos.row) + item_text(self.spec_items(area.size.cols))
            + (match color { Some(c) => Sgr::Fg(Color::Default).ansi(), None => Seq::empty() })
    }

    pub open spec fn selection_output(&self, area: Rect, start: int, end: int) -> Seq<char> {
        move_to_code(area.pos.col, area.pos.row) + selection_walk(self.spec_items(area.size.cols), start, end, false, false)
    }

    /// The selected range, if it is not empty.
    pub open spec fn spec_selection(&self) -> Option<(int, int)> {
        match self.spec_selector() {
            Some(s) => if self.spec_cursor() < s {
                Some((self.spec_cursor() as int, s as int))
            } else if self.spec_cursor() > s {
                Some((s as int, self.spec_cursor() as int))
            } else {
                None
            },
            None => None,
        }
    }

    fn selection_range(&self, selector: usize) -> (r: Option<Range<usize>>)
        ensures
            self.spec_cursor() < selector ==> r == Some(Range { start: self.spec_cursor(), end: selector }),
            self.spec_cursor() > selector ==> r == Some(Range { start: selector, end: self.spec_cursor() }),
            self.spec_cursor() == selector ==> r is None,
    {
        if self.cursor < selector {
            Some(Range { start: self.cursor, end: selector })
        } else if self.cursor > selector {
            Some(Range { start: selector, end: self.cursor })
        } else {
            None
        }
    }

    fn try_selection(&self) -> (r: Option<Range<usize>>)
        ensures
            match self.spec_selection() {
                Some((a, b)) => r matches Some(rg) && rg.start == a && rg.end == b,
                None => r is None,
            },
    {
        match self.selector {
            Some(s) => self.selection_range(s),
            None => None,
        }
    }

    fn input_width(&self) -> (r: u16)
        ensures
            r == prompt_text_width(self.text()),
    {
        text_width(self.input.as_slice())
    }

    fn cursor_col(&self) -> (r: u16)
        ensures
            r == prompt_text_width(self.text().take(self.spec_cursor() as int)),
    {
        proof {
            use_type_invariant(self);
        }
        let before = copy_range(self.input.as_slice(), 0, self.cursor);
        assert(before@ =~= self.text().take(self.spec_cursor() as int));
        text_width(before.as_slice())
    }

    fn start_index(&self) -> (r: usize)
        ensures
            r == self.spec_start(),
            r <= self.text().len(),
    {
        let gs = grapheme_chars(self.input.as_slice());
        let ghost all = gs@.map_values(|g: Vec<char>| g@);
        let mut width: u16 = 0;
        let mut start: usize = 0;
        let mut offset: usize = 0;
        let mut i: usize = 0;
        assert(all.skip(0) =~= all);
        proof {
            crate::text::lemma_concat_prefix(all, 0);
        }
        while i < gs.len()
            invariant
                all == gs@.map_values(|g: Vec<char>| g@),
                all == grapheme_clusters(self.text()),
                crate::text::concat(all) == self.text(),
                i <= gs@.len(),
                offset == crate::text::concat(all.take(i as int)).len(),
                start <= offset,
                prompt_start(all.skip(i as int), width, self.spec_scroll(), offset as int, start as int)
                    == prompt_start(all, 0, self.spec_scroll(), 0, 0),
            decreases gs@.len() - i,
        {
            if width >= self.scroll {
                proof {
                    crate::text::lemma_concat_prefix(all, i as int);
                }
                return offset;
            }
            assert(all[i as int] == gs@[i as int]@);
            assert(all.skip(i as int).drop_first() =~= all.skip(i as int + 1));
            proof {
                crate::text::lemma_concat_prefix(all, i as int + 1);
                assert(all.take(i as int + 1).drop_last() =~= all.take(i as int));
                assert(all.take(i as int + 1).last() == all[i as int]);
                assert(crate::text::concat(all.take(i as int + 1))
                    == crate::text::concat(all.take(i as int)) + all[i as int]);
                assert(self.text().len() == self.input@.len());
                assert(offset + all[i as int].len() <= self.input@.len());
            }
            let glen = gs[i].len();
            assert(glen == all[i as int].len());
            let total = self.input.len();
            assert(offset + glen <= total);
            width = width.wrapping_add(grapheme_width(gs[i].as_slice()));
            start = offset;
            offset = offset + glen;
            i = i + 1;
        }
        proof {
            crate::text::lemma_concat_prefix(all, i as int);
        }
        start
    }
}

/// The shown graphemes as index and text.
pub open spec fn items_view(v: Seq<(usize, Vec<char>)>) -> Seq<(int, Seq<char>)> {
    v.map_values(|p: (usize, Vec<char>)| (p.0 as int, p.1@))
}

/// What rendering the placeholder in `area` writes, given the text already
/// pushed to the framebuffer.
pub open spec fn placeholder_output(area: Rect, pending: Seq<char>, placeholder: Seq<char>, color: Color) -> Seq<char> {
    render_output(
        area,
        TextOptions { mode: TextMode::Span { fill: false }, align: HorizontalAlignment::Left },
        pending + Sgr::Fg(color).ansi() + placeholder + Sgr::Fg(Color::Default).ansi(),
    )
}

impl Prompt {
    /// The graphemes shown in `max_width` columns, each with the character
    /// index after it and what is written for it.
    fn render_items(&self, max_width: u16) -> (r: Vec<(usize, Vec<char>)>)
        ensures
            items_view(r@) == self.spec_items(max_width),
    {
        proof {
            use_type_invariant(self);
        }
        let start = self.start_index();
        let rest = copy_range(self.input.as_slice(), start, self.input.len());
        let gs = grapheme_chars(rest.as_slice());
        let ghost all = gs@.map_values(|g: Vec<char>| g@);
        let mut out: Vec<(usize, Vec<char>)> = Vec::new();
        let mut width: u32 = 0;
        let mut index: usize = start;
        let mut i: usize = 0;
        assert(all.skip(0) =~= all);
        assert(all.take(0) =~= Seq::<Seq<char>>::empty());
        assert(items_view(out@) =~= Seq::<(int, Seq<char>)>::empty());
        while i < gs.len()
            invariant
                all == gs@.map_values(|g: Vec<char>| g@),
                all == grapheme_clusters(rest@),
                crate::text::concat(all) == rest@,
                rest@ == self.text().subrange(start as int, self.text().len() as int),
                start <= self.text().len(),
                self.spec_start() == start,
                i <= gs@.len(),
                index == start + crate::text::concat(all.take(i as int)).len(),
                width <= max_width,
                items_view(out@) + prompt_items(all.skip(i as int), index as int, width as int, max_width as int)
                    == prompt_items(all, start as int, 0, max_width as int),
            ensures
                items_view(out@) == prompt_items(all, start as int, 0, max_width as int),
            decreases gs@.len() - i,
        {
            assert(all[i as int] == gs@[i as int]@);
            assert(all.skip(i as int)[0] == all[i as int]);
            assert(all.skip(i as int).drop_first() =~= all.skip(i as int + 1));
            let w = grapheme_width(gs[i].as_slice());
            if width + w as u32 > max_width as u32 {
                assert(items_view(out@) + Seq::<(int, Seq<char>)>::empty() =~= items_view(out@));
                break;
            }
            proof {
                crate::text::lemma_concat_prefix(all, i as int + 1);
                assert(all.take(i as int + 1).drop_last() =~= all.take(i as int));
                assert(all.take(i as int + 1).last() == all[i as int]);
                assert(crate::text::concat(all.take(i as int + 1))
                    == crate::text::concat(all.take(i as int)) + all[i as int]);
            }
            let glen = gs[i].len();
            let total = self.input.len();
            assert(index + glen <= total);
            index = index + glen;
            width = width + w as u32;
            let shown = grapheme_render(gs[i].as_slice());
            let ghost before = out@;
            out.push((index, shown));
            proof {
                assert(items_view(out@) =~= items_view(before).push((index as int, prompt_grender(all[i as int]))));
                let tail = prompt_items(all.skip(i as int + 1), index as int, width as int, max_width as int);
                assert(items_view(before).push((index as int, prompt_grender(all[i as int]))) + tail
                    =~= items_view(before) + (seq![(index as int, prompt_grender(all[i as int]))] + tail));
            }
            i = i + 1;
        }
        if i == gs.len() {
            assert(all.skip(i as int) =~= Seq::<Seq<char>>::empty());
            assert(items_view(out@) + Seq::<(int, Seq<char>)>::empty() =~= items_view(out@));
        }
        out
    }

    /// Writes the shown text at the area, in `color` where one is given.
    fn render_text(&self, area: Rect, frame: &mut Framebuffer, color: Option<Color>)
        requires
            area_fits(area),
        ensures
            final(frame).output() == old(frame).output() + self.text_output(area, color),
            final(frame).pending() == old(frame).pending(),
            final(frame).spec_size() == old(frame).spec_size(),
    {
        let ghost base = frame.output();
        match color {
            Some(c) => frame.print_fmt(Sgr::Fg(c)),
            None => {},
        }
        frame.cursor_move(area.pos);
        let items = self.render_items(area.size.cols);
        let ghost view = items_view(items@);
        let ghost head = frame.output();
        let mut k: usize = 0;
        assert(view.skip(0) =~= view);
        while k < items.len()
            invariant
                view == items_view(items@),
                view == self.spec_items(area.size.cols),
                k <= items@.len(),
                frame.output() + item_text(view.skip(k as int)) == head + item_text(view),
                frame.pending() == old(frame).pending(),
                frame.spec_size() == old(frame).spec_size(),
            decreases items@.len() - k,
        {
            let ghost at = frame.output();
            frame.print_chars(items[k].1.as_slice());
            proof {
                assert(view.skip(k as int)[0] == view[k as int]);
                assert(view.skip(k as int).drop_first() =~= view.skip(k as int + 1));
                assert(at + item_text(view.skip(k as int))
                    =~= (at + items@[k as int].1@) + item_text(view.skip(k as int + 1)));
            }
            k = k + 1;
        }
        assert(view.skip(k as int) =~= Seq::<(int, Seq<char>)>::empty());
        assert(frame.output() + Seq::<char>::empty() =~= frame.output());
        match color {
            Some(c) => frame.print_fmt(Sgr::Fg(Color::Default)),
            None => {},
        }
        assert(frame.output() =~= old(frame).output() + self.text_output(area, color));
    }

    /// Writes the shown text at the area with `selector` in reverse video.
    fn render_text_with_selection(&self, area: Rect, frame: &mut Framebuffer, selector: Range<usize>)
        requires
            area_fits(area),
        ensures
            final(frame).output() == old(frame).output()
                + self.selection_output(area, selector.start as int, selector.end as int),
            final(frame).pending() == old(frame).pending(),
            final(frame).spec_size() == old(frame).spec_size(),
    {
        let mut found = false;
        let mut reset = false;
        frame.cursor_move(area.pos);
        let items = self.render_items(area.size.cols);
        let ghost view = items_view(items@);
        let ghost head = frame.output();
        let ghost (start, end) = (selector.start as int, selector.end as int);
        let mut k: usize = 0;
        assert(view.skip(0) =~= view);
        while k < items.len()
            invariant
                view == items_view(items@),
                view == self.spec_items(area.size.cols),
                start == selector.start,
                end == selector.end,
                k <= items@.len(),
                frame.output() + selection_walk(view.skip(k as int), start, end, found, reset)
                    == head + selection_walk(view, start, end, false, false),
                frame.pending() == old(frame).pending(),
                frame.spec_size() == old(frame).spec_size(),
            decreases items@.len() - k,
        {
            let ghost at = frame.output();
            let ghost (f0, r0) = (found, reset);
            assert(view.skip(k as int)[0] == view[k as int]);
            assert(view.skip(k as int).drop_first() =~= view.skip(k as int + 1));
            let i = items[k].0;
            if i > selector.start && !found {
                frame.print_fmt(Sgr::Reverse);
                found = true;
            } else if i > selector.end && found {
                frame.print_fmt(Sgr::NotReverse);
                reset = true;
            }
            let ghost mid = frame.output();
            frame.print_chars(items[k].1.as_slice());
            proof {
                let g = items@[k as int].1@;
                let rest = selection_walk(view.skip(k as int + 1), start, end, found, reset);
                if i > selector.start && !f0 {
                    assert(at + selection_walk(view.skip(k as int), start, end, f0, r0)
                        =~= at + Sgr::Reverse.ansi() + g + rest);
                } else if i > selector.end && f0 {
                    assert(at + selection_walk(view.skip(k as int), start, end, f0, r0)
                        =~= at + Sgr::NotReverse.ansi() + g + rest);
                } else {
                    assert(at + selection_walk(view.skip(k as int), start, end, f0, r0) =~= at + g + rest);
                }
            }
            k = k + 1;
        }
        assert(view.skip(k as int) =~= Seq::<(int, Seq<char>)>::empty());
        if !reset && found {
            frame.print_fmt(Sgr::NotReverse);
        } else {
            assert(frame.output() + Seq::<char>::empty() =~= frame.output());
        }
        assert(frame.output() =~= old(frame).output()
            + self.selection_output(area, selector.start as int, selector.end as int));
    }

    /// Writes the placeholder in `color` and lays it out at the area.
    fn render_placeholder(&self, area: Rect, frame: &mut Framebuffer, color: Color)
        requires
            area_fits(area),
        ensures
            final(frame).output() == old(frame).output()
                + placeholder_output(area, old(frame).pending(), self.spec_placeholder(), color),
            final(frame).pending() == Seq::<char>::empty(),
            final(frame).spec_size() == old(frame).spec_size(),
    {
        frame.push_fmt(Sgr::Fg(color));
        frame.push_str(self.placeholder);
        frame.push_fmt(Sgr::Fg(Color::Default));
        frame.render(area, TextOptions::span());
    }

    /// Where the cursor is drawn.
    fn cursor_render_pos(&self) -> (r: Pos)
        ensures
            r == (Pos { col: self.spec_cursor_col(), row: self.spec_area_pos().row }),
    {
        let col = self.area_pos.col.wrapping_add(self.cursor_col()).saturating_sub(self.scroll);
        self.area_pos.with_col(col)
    }

    /// Scrolls so that the cursor stays in a line `width` columns wide; the
    /// scroll starts over when the width changed.
    fn update_scroll(&mut self, last_width: u16, width: u16, input_width: u16)
        requires
            input_width == prompt_text_width(old(self).text()),
        ensures
            final(self).spec_scroll() == old(self).rescrolled(last_width, width),
            final(self).edit_state() == old(self).edit_state(),
            final(self).spec_placeholder() == old(self).spec_placeholder(),
            final(self).spec_margins() == old(self).spec_margins(),
            final(self).spec_disabled() == old(self).spec_disabled(),
            final(self).spec_placeholder_color() == old(self).spec_placeholder_color(),
            final(self).spec_disabled_color() == old(self).spec_disabled_color(),
            final(self).spec_area_pos() == old(self).spec_area_pos(),
            final(self).spec_last_width() == old(self).spec_last_width(),
    {
        proof {
            use_type_invariant(&*self);
        }
        let scroll: u16 = if last_width != width { 0 } else { self.scroll };
        let index = byte_offset(self.input.as_slice(), self.cursor);
        let r = Scroll::calc(ScrollData {
            current_index: index,
            current_scroll: scroll as usize,
            total_lines: input_width as usize + 1,
            viewport_height: width,
            margins: ScrollMargins::zero(),
        });
        self.scroll = r as u16;
    }
}

/// Moving the cursor to column `col` of `row`, where the terminal can address it.
pub open spec fn cursor_code(col: u16, row: u16) -> Seq<char> {
    if col < u16::MAX {
        move_to_code(col, row)
    } else {
        Seq::empty()
    }
}

impl Prompt {
    /// Everything but the scroll, the last width and the area is as in `other`.
    pub open spec fn same_content(&self, other: &Prompt) -> bool {
        &&& self.edit_state() == other.edit_state()
        &&& self.spec_placeholder() == other.spec_placeholder()
        &&& self.spec_margins() == other.spec_margins()
        &&& self.spec_disabled() == other.spec_disabled()
        &&& self.spec_placeholder_color() == other.spec_placeholder_color()
        &&& self.spec_disabled_color() == other.spec_disabled_color()
    }

    /// Where the cursor was drawn.
    pub fn get_cursor_pos(&self) -> (r: Pos)
        ensures
            r == (Pos { col: self.spec_cursor_col(), row: self.spec_area_pos().row }),
    {
        self.cursor_render_pos()
    }

    /// Draws the prompt in `area` and places the terminal cursor.
    ///
    /// A disabled prompt shows its placeholder, or its text, in the disabled
    /// color. An empty prompt shows its placeholder and puts the cursor at
    /// the area's start. Otherwise the text is scrolled to keep the cursor
    /// in view, the selection is shown in reverse video and the cursor is
    /// placed.
    pub fn render(&mut self, area: Rect, frame: &mut Framebuffer)
        requires
            !area.size.spec_is_empty() ==> area_fits(area),
        ensures
            final(self).same_content(&*old(self)),
            final(self).spec_area_pos() == area.pos,
            final(frame).spec_size() == old(frame).spec_size(),
            area.size.spec_is_empty() ==> {
                &&& *final(frame) == *old(frame)
                &&& final(self).spec_scroll() == old(self).spec_scroll()
                &&& final(self).spec_last_width() == old(self).spec_last_width()
            },
            !area.size.spec_is_empty() && old(self).text().len() == 0 ==> {
                let color = if old(self).spec_disabled() {
                    old(self).spec_disabled_color()
                } else {
                    old(self).spec_placeholder_color()
                };
                let tail = if old(self).spec_disabled() {
                    Seq::<char>::empty()
                } else {
                    move_to_code(area.pos.col, area.pos.row)
                };
                &&& final(self).spec_scroll() == 0
                &&& final(self).spec_last_width() == old(self).spec_last_width()
                &&& final(frame).output() == old(frame).output()
                    + placeholder_output(area, old(frame).pending(), old(self).spec_placeholder(), color) + tail
                &&& final(frame).pending() == Seq::<char>::empty()
            },
            !area.size.spec_is_empty() && old(self).text().len() > 0 && old(self).spec_disabled() ==> {
                &&& final(self).spec_scroll() == old(self).rescrolled(old(self).spec_last_width(), area.size.cols)
                &&& final(self).spec_last_width() == old(self).spec_last_width()
                &&& final(frame).output() == old(frame).output()
                    + final(self).text_output(area, Some(old(self).spec_disabled_color()))
                &&& final(frame).pending() == old(frame).pending()
            },
            !area.size.spec_is_empty() && old(self).text().len() > 0 && !old(self).spec_disabled() ==> {
                let shown = match final(self).spec_selection() {
                    Some((a, b)) => final(self).selection_output(area, a, b),
                    None => final(self).text_output(area, None),
                };
                &&& final(self).spec_scroll() == old(self).rescrolled(old(self).spec_last_width(), area.size.cols)
                &&& final(self).spec_last_width() == area.size.cols
                &&& final(frame).output() == old(frame).output() + shown
                    + cursor_code(final(self).spec_cursor_col(), area.pos.row)
                &&& final(frame).pending() == old(frame).pending()
            },
    {
        proof {
            use_type_invariant(&*self);
        }
        self.area_pos = area.pos;
        if area.is_empty() {
            return;
        }
        let last_width = self.last_width;
        if self.disabled {
            if self.input.len() == 0 {
                self.scroll = 0;
                self.render_placeholder(area, frame, self.colors.disabled);
                assert(frame.output() + Seq::<char>::empty() =~= frame.output());
            } else {
                let w = self.input_width();
                self.update_scroll(last_width, area.size.cols, w);
                self.render_text(area, frame, Some(self.colors.disabled));
            }
            return;
        }
        if self.input.len() == 0 {
            self.scroll = 0;
            self.render_placeholder(area, frame, self.colors.placeholder);
            frame.cursor_move(area.pos);
            return;
        }
        let w = self.input_width();
        self.update_scroll(last_width, area.size.cols, w);
        self.last_width = area.size.cols;
        match self.try_selection() {
            Some(range) => self.render_text_with_selection(area, frame, range),
            None => self.render_text(area, frame, None),
        }
        let pos = self.cursor_render_pos();
        if pos.col < u16::MAX {
            frame.cursor_move(pos);
        } else {
            assert(frame.output() + Seq::<char>::empty() =~= frame.output());
        }
    }
}

/// Deleting the selection after selecting everything leaves an empty text
/// with the cursor at its start.
pub proof fn lemma_select_all_then_delete_clears(text: Seq<char>)
    requires
        0 < text.len() <= usize::MAX,
    ensures
        delete_range(text, text.len() as usize, 0) == (Seq::<char>::empty(), 0usize),
{
    assert(cut(text, 0, text.len() as int) =~= Seq::<char>::empty());
}

/// The text typed in at the cursor sits between what was before and after
/// the cursor, and the cursor lands after it.
pub proof fn lemma_push_inserts_at_cursor(p: Prompt, s: Seq<char>)
    requires
        p.spec_selector() is None,
        p.spec_cursor() <= p.text().len(),
        p.spec_cursor() + s.len() <= usize::MAX,
    ensures
        p.after_push(s).0.subrange(0, p.spec_cursor() as int) == p.text().subrange(0, p.spec_cursor() as int),
        p.after_push(s).0.subrange(p.spec_cursor() as int, p.spec_cursor() + s.len()) == s,
        p.after_push(s).0.subrange(p.spec_cursor() + s.len(), p.after_push(s).0.len() as int)
            == p.text().subrange(p.spec_cursor() as int, p.text().len() as int),
        p.after_push(s).1 == p.spec_cursor() + s.len(),
{
    let t = p.text();
    let c = p.spec_cursor() as int;
    let r = p.after_push(s).0;
    assert(r =~= t.subrange(0, c) + s + t.subrange(c, t.len() as int));
    assert(r.subrange(0, c) =~= t.subrange(0, c));
    assert(r.subrange(c, c + s.len()) =~= s);
    assert(r.subrange(c + s.len(), r.len() as int) =~= t.subrange(c, t.len() as int));
}

/// Delete removes what follows the cursor, never what precedes it: in an
/// enabled prompt with no selection, the text before the cursor and the
/// cursor stay, the first grapheme cluster after the cursor goes and the
/// rest follows the cursor, and a redraw is asked for; at the end of the
/// text nothing changes.
pub proof fn lemma_delete_removes_after_cursor(p: Prompt, mods: KeyModifiers)
    requires
        !p.spec_disabled(),
        p.spec_selector() is None,
        p.spec_cursor() <= p.text().len(),
    ensures
        ({
            let t = p.text();
            let c = p.spec_cursor() as int;
            let after = grapheme_clusters(t.subrange(c, t.len() as int));
            let ((t2, c2, sel), redraw) = p.after_key(KeyCode::Delete, mods);
            &&& after.len() > 0 ==> {
                &&& t2.subrange(0, c) == t.subrange(0, c)
                &&& t2.subrange(c, t2.len() as int) == t.subrange(c + after[0].len(), t.len() as int)
                &&& c2 == p.spec_cursor()
                &&& sel is None
                &&& redraw
            }
            &&& after.len() == 0 ==> t2 == t && c2 == p.spec_cursor() && sel is None && !redraw
        }),
{
    let t = p.text();
    let c = p.spec_cursor() as int;
    let after = grapheme_clusters(t.subrange(c, t.len() as int));
    if after.len() > 0 {
        let t2 = cut(t, c, c + after[0].len());
        assert(t2.subrange(0, c) =~= t.subrange(0, c));
        assert(t2.subrange(c, t2.len() as int) =~= t.subrange(c + after[0].len(), t.len() as int));
    }
}

/// Backspace removes what precedes the cursor, never what follows it: in
/// an enabled prompt with no selection, the last grapheme cluster before
/// the cursor goes, the cursor moves back over it, and the text from the
/// cursor on stays; at the start of the text nothing changes.
pub proof fn lemma_backspace_removes_before_cursor(p: Prompt, mods: KeyModifiers)
    requires
        !p.spec_disabled(),
        p.spec_selector() is None,
        p.spec_cursor() <= p.text().len(),
    ensures
        ({
            let t = p.text();
            let c = p.spec_cursor() as int;
            let before = grapheme_clusters(t.subrange(0, c));
            let ((t2, c2, sel), redraw) = p.after_key(KeyCode::Backspace, mods);
            &&& before.len() > 0 && before.last().len() <= c ==> {
                &&& c2 == c - before.last().len()
                &&& t2.subrange(0, c2 as int) == t.subrange(0, c2 as int)
                &&& t2.subrange(c2 as int, t2.len() as int) == t.subrange(c, t.len() as int)
                &&& sel is None
                &&& redraw
            }
            &&& before.len() == 0 ==> t2 == t && c2 == p.spec_cursor() && sel is None && !redraw
        }),
{
    let t = p.text();
    let c = p.spec_cursor() as int;
    let before = grapheme_clusters(t.subrange(0, c));
    if before.len() > 0 && before.last().len() <= c {
        let c2 = c - before.last().len();
        let t2 = cut(t, c2, c);
        assert(t2.subrange(0, c2) =~= t.subrange(0, c2));
        assert(t2.subrange(c2, t2.len() as int) =~= t.subrange(c, t.len() as int));
    }
}

/// The moving keys of an enabled prompt leave the text as it is: Right
/// steps over the first grapheme cluster after the cursor, Left over the
/// last one before it, Home and End go to the start and the end. Without
/// Shift the selection is dropped; with Shift it is anchored where it was,
/// or where the cursor started, and dropped where the cursor comes back to
/// its anchor. Ctrl+A puts the cursor at the end with the selection from
/// the start, and typing a character with no selection inserts it at the
/// cursor and moves the cursor past it.
pub proof fn lemma_prompt_keys(p: Prompt, mods: KeyModifiers, key: KeyCode)
    requires
        !p.spec_disabled(),
        p.spec_cursor() <= p.text().len() < usize::MAX,
    ensures
        ({
            let t = p.text();
            let c = p.spec_cursor() as int;
            let after = grapheme_clusters(t.subrange(c, t.len() as int));
            let before = grapheme_clusters(t.subrange(0, c));
            let target = match key {
                KeyCode::Right => if after.len() > 0 { c + after[0].len() } else { c },
                KeyCode::Left => if before.len() > 0 { c - before.last().len() } else { c },
                KeyCode::Home => 0,
                _ => t.len() as int,
            };
            let anchor = match p.spec_selector() {
                Some(s) => s as int,
                None => c,
            };
            let ((t2, c2, sel), _) = p.after_key(key, mods);
            &&& (key is Right || key is Left || key is Home || key is End) ==> {
                &&& t2 == t
                &&& c2 == target as usize
                &&& !mods.shift_held() ==> sel is None
                &&& mods.shift_held() ==> sel == if anchor == target { None } else { Some(anchor as usize) }
            }
            &&& key == KeyCode::Char('a') && mods.control_held() ==> t2 == t && c2 == t.len() && sel == Some(0usize)
            &&& (key matches KeyCode::Char(ch) && !(ch == 'a' && mods.control_held())) && p.spec_selector() is None ==> {
                &&& t2.len() == t.len() + 1
                &&& t2.subrange(0, c) == t.subrange(0, c)
                &&& t2[c] == key->Char_0
                &&& t2.subrange(c + 1, t2.len() as int) == t.subrange(c, t.len() as int)
                &&& c2 == c + 1
                &&& sel is None
            }
        }),
{
    let t = p.text();
    let c = p.spec_cursor() as int;
    if let KeyCode::Char(ch) = key {
        let t2 = t.subrange(0, c) + seq![ch] + t.subrange(c, t.len() as int);
        assert(t2.subrange(0, c) =~= t.subrange(0, c));
        assert(t2.subrange(c + 1, t2.len() as int) =~= t.subrange(c, t.len() as int));
    }
}

} // verus!
