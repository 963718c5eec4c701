//! The demo application's pages: which one is shown, how keys move between
//! them, and how each page answers a key.
use vstd::prelude::*;

use crate::editor::Editor;
use crate::image::Image;
use crate::input::{KeyCode, KeyModifiers};
use crate::layout::{Pos, Rect};
use crate::list::List;
use crate::prompt::Prompt;
use crate::tag_list::TagList;
use crate::term::{area_fits, hide_cursor_code, render_output, show_cursor_code, Framebuffer, TextMode, TextOptions};
use crate::layout::HorizontalAlignment;
use crate::text::{str_width, unicode_str_columns};

verus! {

/// What the application does after an event.
#[derive(Debug, Clone, Copy, PartialEq, Eq, Structural)]
pub enum Action {
    Nothing,
    Render,
    Forward,
    Backward,
    Quit,
}

/// The pages, in the order Tab goes through them.
#[derive(Debug, Clone, Copy, PartialEq, Eq, Structural)]
pub enum Route {
    Demo,
    List,
    Tags,
    Image,
    Editor,
}

impl Route {
    /// The page after this one, back to the first after the last.
    pub open spec fn spec_next(self) -> Route {
        match self {
            Route::Demo => Route::List,
            Route::List => Route::Tags,
            Route::Tags => Route::Image,
            Route::Image => Route::Editor,
            Route::Editor => Route::Demo,
        }
    }

    /// The page before this one, back to the last before the first.
    pub open spec fn spec_prev(self) -> Route {
        match self {
            Route::Demo => Route::Editor,
            Route::List => Route::Demo,
            Route::Tags => Route::List,
            Route::Image => Route::Tags,
            Route::Editor => Route::Image,
        }
    }

    /// The page shown first.
    pub fn default_route() -> (r: Route)
        ensures
            r == Route::Demo,
    {
        Route::Demo
    }

    pub fn next(self) -> (r: Route)
        ensures
            r == self.spec_next(),
    {
        match self {
            Route::Demo => Route::List,
            Route::List => Route::Tags,
            Route::Tags => Route::Image,
            Route::Image => Route::Editor,
            Route::Editor => Route::Demo,
        }
    }

    pub fn prev(self) -> (r: Route)
        ensures
            r == self.spec_prev(),
    {
        match self {
            Route::Demo => Route::Editor,
            Route::List => Route::Demo,
            Route::Tags => Route::List,
            Route::Image => Route::Tags,
            Route::Editor => Route::Image,
        }
    }
}

/// Going forward then back, or back then forward, returns to the same page.
pub proof fn lemma_route_round_trip(r: Route)
    ensures
        r.spec_next().spec_prev() == r,
        r.spec_prev().spec_next() == r,
{
}

/// Going forward through all five pages returns to the start, and no fewer
/// steps do.
pub proof fn lemma_route_cycle(r: Route)
    ensures
        r.spec_next().spec_next().spec_next().spec_next().spec_next() == r,
        r.spec_next() != r,
        r.spec_next().spec_next() != r,
        r.spec_next().spec_next().spec_next() != r,
        r.spec_next().spec_next().spec_next().spec_next() != r,
{
}

/// Which of the two inputs of the editor page has the focus.
#[derive(Debug, Clone, Copy, PartialEq, Eq, Structural)]
pub enum EditorPageState {
    Prompt,
    Editor,
}

/// A prompt above an editor; Down moves the focus from the prompt to the
/// editor, Up from the editor's first row back to the prompt.
pub struct EditorPage {
    pub state: EditorPageState,
    pub prompt: Prompt,
    pub editor: Editor,
    pub editor_pos: Pos,
}

pub open spec fn action_of(render: bool) -> Action {
    if render { Action::Render } else { Action::Nothing }
}

impl EditorPage {
    pub fn new() -> (r: Self)
        ensures
            r.state == EditorPageState::Prompt,
            r.prompt.text() == Seq::<char>::empty(),
            r.prompt.spec_placeholder() == "Search..."@,
            !r.prompt.spec_disabled(),
            r.editor.text() == Seq::<char>::empty(),
            r.editor.spec_placeholder() == "Content..."@,
            r.editor.spec_disabled(),
            r.editor_pos == (Pos { col: 0, row: 0 }),
    {
        let prompt = Prompt::new().with_placeholder("Search...");
        let editor = Editor::new().with_placeholder("Content...").with_disabled();
        EditorPage { state: EditorPageState::Prompt, prompt, editor, editor_pos: Pos::zero() }
    }

    pub fn on_enter(&self, frame: &mut Framebuffer)
        ensures
            final(frame).output() == old(frame).output() + show_cursor_code(),
            final(frame).pending() == old(frame).pending(),
            final(frame).spec_size() == old(frame).spec_size(),
    {
        frame.cursor_show();
    }

    pub fn on_exit(&self, frame: &mut Framebuffer)
        ensures
            final(frame).output() == old(frame).output() + hide_cursor_code(),
            final(frame).pending() == old(frame).pending(),
            final(frame).spec_size() == old(frame).spec_size(),
    {
        frame.cursor_hide();
    }

    /// Whether a key moves the focus rather than going to the focused input.
    pub open spec fn switches(&self, key: KeyCode) -> bool {
        ||| key == KeyCode::Up && self.state == EditorPageState::Editor
            && self.editor.spec_cursor_render_pos().row == self.editor_pos.row
        ||| key == KeyCode::Down && self.state == EditorPageState::Prompt
    }

    /// Whether a key goes to the editor.
    pub open spec fn to_editor(&self, key: KeyCode) -> bool {
        !self.switches(key) && self.state == EditorPageState::Editor
    }

    /// Whether a key goes to the prompt.
    pub open spec fn to_prompt(&self, key: KeyCode) -> bool {
        !self.switches(key) && self.state == EditorPageState::Prompt && key != KeyCode::Up && key != KeyCode::Down
    }

    /// Handles a key: Down in the prompt and Up on the editor's first row
    /// move the focus (disabling the other input); other keys go to the
    /// focused input, but Up in the prompt, which does nothing.
    pub fn input(&mut self, key: KeyCode, mods: KeyModifiers) -> (r: Action)
        ensures
            final(self).editor_pos == old(self).editor_pos,
            old(self).switches(key) ==> {
                &&& r == Action::Render
                &&& final(self).state == (if key == KeyCode::Up { EditorPageState::Prompt } else { EditorPageState::Editor })
                &&& final(self).prompt.spec_disabled() == (key == KeyCode::Down)
                &&& final(self).editor.spec_disabled() == (key == KeyCode::Up)
                &&& final(self).prompt.edit_state() == old(self).prompt.edit_state()
                &&& final(self).editor.cursor_state() == old(self).editor.cursor_state()
            },
            old(self).to_editor(key) ==> {
                let (st, render) = old(self).editor.after_key(key, mods);
                &&& final(self).state == old(self).state
                &&& final(self).editor.cursor_state() == st
                &&& final(self).editor.same_frame(&old(self).editor)
                &&& final(self).prompt == old(self).prompt
                &&& r == action_of(render)
            },
            old(self).to_prompt(key) ==> {
                let (st, render) = old(self).prompt.after_key(key, mods);
                &&& final(self).state == old(self).state
                &&& final(self).prompt.edit_state() == st
                &&& final(self).prompt.same_settings(&old(self).prompt)
                &&& final(self).editor == old(self).editor
                &&& r == action_of(render)
            },
            !old(self).switches(key) && !old(self).to_editor(key) && !old(self).to_prompt(key) ==> {
                &&& r == Action::Nothing
                &&& *final(self) == *old(self)
            },
    {
        let render = match key {
            KeyCode::Up => {
                match self.state {
                    EditorPageState::Editor => {
                        let cpos = self.editor.get_cursor_pos();
                        if cpos.row == self.editor_pos.row {
                            self.state = EditorPageState::Prompt;
                            self.editor.set_disabled(true);
                            self.prompt.set_disabled(false);
                            true
                        } else {
                            self.editor.input(key, mods)
                        }
                    },
                    EditorPageState::Prompt => false,
                }
            },
            KeyCode::Down => {
                match self.state {
                    EditorPageState::Prompt => {
                        self.state = EditorPageState::Editor;
                        self.prompt.set_disabled(true);
                        self.editor.set_disabled(false);
                        true
                    },
                    EditorPageState::Editor => self.editor.input(key, mods),
                }
            },
            _ => match self.state {
                EditorPageState::Prompt => self.prompt.input(key, mods),
                EditorPageState::Editor => self.editor.input(key, mods),
            },
        };
        if render {
            Action::Render
        } else {
            Action::Nothing
        }
    }

    /// Where the focused input draws the cursor.
    pub fn get_cursor_pos(&self) -> (r: Pos)
        ensures
            self.state == EditorPageState::Prompt ==> r == (Pos {
                col: self.prompt.spec_cursor_col(),
                row: self.prompt.spec_area_pos().row,
            }),
            self.state == EditorPageState::Editor ==> r == self.editor.spec_cursor_render_pos(),
    {
        match self.state {
            EditorPageState::Prompt => self.prompt.get_cursor_pos(),
            EditorPageState::Editor => self.editor.get_cursor_pos(),
        }
    }
}

/// The list page: a list of so many items.
pub struct ListPage {
    pub list: List,
    pub len: usize,
}

/// The tags page: tags with their labels.
pub struct TagsPage {
    pub list: TagList,
    pub tags: Vec<&'static str>,
}

/// The widths of labels in columns.
pub open spec fn label_widths(tags: Seq<&'static str>) -> Seq<u16> {
    tags.map_values(|t: &'static str| unicode_str_columns(t@) as u16)
}

impl TagsPage {
    /// The width of each tag's label.
    pub fn widths(&self) -> (r: Vec<u16>)
        ensures
            r@ == label_widths(self.tags@),
    {
        let mut out: Vec<u16> = Vec::new();
        let mut i: usize = 0;
        while i < self.tags.len()
            invariant
                i <= self.tags@.len(),
                out@ == label_widths(self.tags@.take(i as int)),
            decreases self.tags@.len() - i,
        {
            out.push(str_width(self.tags[i]));
            assert(label_widths(self.tags@.take(i as int + 1)) =~= label_widths(self.tags@.take(i as int)).push(
                unicode_str_columns(self.tags@[i as int]@) as u16,
            ));
            i = i + 1;
        }
        assert(self.tags@.take(i as int) =~= self.tags@);
        out
    }
}

/// The pages and the one shown.
pub struct Pages {
    pub route: Route,
    pub list: ListPage,
    pub tags: TagsPage,
    pub image: Image,
    pub editor: EditorPage,
}

impl Pages {
    pub open spec fn spec_route(&self) -> Route {
        self.route
    }

    /// The pages, showing the first, with `image` on the image page.
    pub fn new(image: Image, list: List, list_len: usize, tag_list: TagList, tags: Vec<&'static str>) -> (r: Self)
        ensures
            r.spec_route() == Route::Demo,
            r.list.list == list,
            r.list.len == list_len,
            r.tags.list == tag_list,
            r.tags.tags@ == tags@,
            r.image == image,
            r.editor.state == EditorPageState::Prompt,
            r.editor.prompt.text() == Seq::<char>::empty(),
            r.editor.editor.text() == Seq::<char>::empty(),
            r.editor.editor.spec_disabled(),
    {
        Pages {
            route: Route::default_route(),
            list: ListPage { list, len: list_len },
            tags: TagsPage { list: tag_list, tags },
            image,
            editor: EditorPage::new(),
        }
    }

    /// The page shown.
    pub fn route(&self) -> (r: Route)
        ensures
            r == self.spec_route(),
    {
        self.route
    }

    /// Leaving a page hides the cursor if it was the editor page; entering
    /// one shows it if it is.
    pub open spec fn switch_output(from: Route, to: Route) -> Seq<char> {
        (if from == Route::Editor { hide_cursor_code() } else { Seq::empty() })
            + (if to == Route::Editor { show_cursor_code() } else { Seq::empty() })
    }

    fn set_route(&mut self, route: Route, frame: &mut Framebuffer)
        ensures
            final(self).spec_route() == route,
            final(frame).output() == old(frame).output() + Pages::switch_output(old(self).spec_route(), route),
            final(frame).pending() == old(frame).pending(),
            final(frame).spec_size() == old(frame).spec_size(),
            final(self).list == old(self).list,
            final(self).tags == old(self).tags,
            final(self).image == old(self).image,
            final(self).editor == old(self).editor,
    {
        let ghost start = frame.output();
        if self.route == Route::Editor {
            self.editor.on_exit(frame);
        }
        let ghost mid = frame.output();
        assert(mid == start + (if old(self).spec_route() == Route::Editor { hide_cursor_code() } else { Seq::empty() })) by {
            if old(self).spec_route() != Route::Editor {
                assert(start + Seq::<char>::empty() =~= start);
            }
        }
        self.route = route;
        if route == Route::Editor {
            self.editor.on_enter(frame);
        } else {
            assert(frame.output() + Seq::<char>::empty() =~= frame.output());
        }
        assert(frame.output() =~= start + Pages::switch_output(old(self).spec_route(), route));
    }

    /// Shows the next page.
    pub fn forward(&mut self, frame: &mut Framebuffer)
        ensures
            final(self).spec_route() == old(self).spec_route().spec_next(),
            final(frame).output() == old(frame).output()
                + Pages::switch_output(old(self).spec_route(), old(self).spec_route().spec_next()),
            final(frame).pending() == old(frame).pending(),
            final(frame).spec_size() == old(frame).spec_size(),
            final(self).list == old(self).list,
            final(self).tags == old(self).tags,
            final(self).image == old(self).image,
            final(self).editor == old(self).editor,
    {
        let next = self.route.next();
        self.set_route(next, frame);
    }

    /// Shows the page before.
    pub fn backward(&mut self, frame: &mut Framebuffer)
        ensures
            final(self).spec_route() == old(self).spec_route().spec_prev(),
            final(frame).output() == old(frame).output()
                + Pages::switch_output(old(self).spec_route(), old(self).spec_route().spec_prev()),
            final(frame).pending() == old(frame).pending(),
            final(frame).spec_size() == old(frame).spec_size(),
            final(self).list == old(self).list,
            final(self).tags == old(self).tags,
            final(self).image == old(self).image,
            final(self).editor == old(self).editor,
    {
        let prev = self.route.prev();
        self.set_route(prev, frame);
    }

    /// Passes a key to the page shown; the demo and image pages take none.
    pub fn on_input(&mut self, key: KeyCode, mods: KeyModifiers) -> (r: Action)
        requires
            old(self).spec_route() == Route::List && key == KeyCode::Down ==> old(self).list.list.spec_index() + 1 <= usize::MAX,
            old(self).spec_route() == Route::List && key == KeyCode::PageDown ==> old(self).list.list.spec_index()
                + old(self).list.list.spec_list_height() <= usize::MAX,
        ensures
            final(self).spec_route() == old(self).spec_route(),
            old(self).spec_route() != Route::List ==> final(self).list == old(self).list,
            old(self).spec_route() != Route::Tags ==> final(self).tags == old(self).tags,
            final(self).image == old(self).image,
            old(self).spec_route() != Route::Editor ==> final(self).editor == old(self).editor,
            old(self).spec_route() == Route::Demo || old(self).spec_route() == Route::Image ==> r == Action::Nothing,
            old(self).spec_route() == Route::List ==> {
                &&& final(self).list.len == old(self).list.len
                &&& final(self).list.list.same_but_cursor(&old(self).list.list)
                &&& match old(self).list.list.key_cursor(key, mods) {
                    Some(m) => final(self).list.list.cursor() == m,
                    None => final(self).list.list.cursor() == old(self).list.list.cursor(),
                }
                &&& r == action_of(final(self).list.list.cursor() != old(self).list.list.cursor())
            },
            old(self).spec_route() == Route::Tags ==> {
                let idx = old(self).tags.list.key_index(key, label_widths(old(self).tags.tags@));
                &&& final(self).tags.tags == old(self).tags.tags
                &&& final(self).tags.list.spec_index() == idx
                &&& final(self).tags.list.same_but_index(&old(self).tags.list)
                &&& r == action_of(idx != old(self).tags.list.spec_index())
            },
    {
        match self.route {
            Route::Demo => Action::Nothing,
            Route::List => {
                if self.list.list.input(key, mods) {
                    Action::Render
                } else {
                    Action::Nothing
                }
            },
            Route::Tags => {
                let widths = self.tags.widths();
                if self.tags.list.input(key, widths.as_slice()) {
                    Action::Render
                } else {
                    Action::Nothing
                }
            },
            Route::Image => Action::Nothing,
            Route::Editor => self.editor.input(key, mods),
        }
    }

    /// Writes the navigation line in `area`.
    pub fn render_navigation(&self, area: Rect, frame: &mut Framebuffer)
        requires
            area_fits(area),
        ensures
            final(frame).output() == old(frame).output() + render_output(
                area,
                TextOptions { mode: TextMode::Span { fill: false }, align: HorizontalAlignment::Center },
                old(frame).pending() + "TODO TOP"@,
            ),
            final(frame).pending() == Seq::<char>::empty(),
            final(frame).spec_size() == old(frame).spec_size(),
    {
        frame.push_str("TODO TOP");
        frame.render(area, TextOptions::span_center());
    }
}

} // verus!
