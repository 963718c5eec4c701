use yolo::editor::Editor;
use yolo::input::{KeyCode, KeyModifiers};
use yolo::layout::{Margin, Pos, Rect, Size};
use yolo::list::{List, ListIndex, ListLine};
use yolo::prompt::Prompt;
use yolo::tag_list::{item_widths, TagItem, TagList, TagPlacement};
use yolo::term::{Framebuffer, TermSize};

fn frame() -> Framebuffer {
    Framebuffer::new(TermSize::new(80, 24, 640, 384))
}

fn rect(col: u16, row: u16, cols: u16, rows: u16) -> Rect {
    Rect::new(Pos::new(col, row), Size::new(cols, rows))
}

fn none() -> KeyModifiers {
    KeyModifiers::none()
}

fn shift() -> KeyModifiers {
    KeyModifiers::shift()
}

fn ctrl() -> KeyModifiers {
    KeyModifiers::control()
}

#[test]
fn prompt_typing_and_moving() {
    let mut p = Prompt::from(String::from("hello"));
    assert!(p.move_to_end(false));
    p.push_char('!');
    assert_eq!(p.as_str(), "hello!");
    assert!(p.move_to_start(false));
    p.push_str("> ");
    assert_eq!(p.as_str(), "> hello!");
    assert!(!p.is_empty());
}

#[test]
fn prompt_select_all_then_delete_clears() {
    let mut p = Prompt::from(String::from("abc"));
    assert!(p.input(KeyCode::Char('a'), ctrl()));
    assert!(p.has_selection());
    assert!(p.delete_selection());
    assert!(p.is_empty());
    assert!(!p.has_selection());
}

#[test]
fn prompt_deletes_whole_graphemes() {
    let mut p = Prompt::from(String::from("xe\u{301}"));
    p.move_to_end(false);
    assert!(p.delete_backward());
    assert_eq!(p.as_str(), "x");
    assert!(p.delete_backward());
    assert!(!p.delete_backward());
    let mut q = Prompt::from(String::from("e\u{301}y"));
    assert!(q.delete_forward());
    assert_eq!(q.as_str(), "y");
}

#[test]
fn prompt_typing_replaces_the_selection() {
    let mut p = Prompt::from(String::from("abcd"));
    p.move_forward(false);
    p.move_forward(true);
    p.move_forward(true);
    p.push_char('X');
    assert_eq!(p.as_str(), "aXd");
}

#[test]
fn prompt_trim_and_hash() {
    let p = Prompt::from(String::from("  hi "));
    assert_eq!(p.as_str_trim(), "hi");
    assert_eq!(p.hash_trim(), Prompt::from(String::from("hi")).hash());
    assert!(!p.is_empty_trim());
    assert!(Prompt::from(String::from("   ")).is_empty_trim());
}

#[test]
fn prompt_disabled_ignores_keys() {
    let mut p = Prompt::from(String::from("a")).with_disabled();
    assert!(!p.input(KeyCode::Char('b'), none()));
    assert_eq!(p.as_str(), "a");
}

#[test]
fn prompt_renders_text_and_cursor() {
    let mut f = frame();
    let mut p = Prompt::from(String::from("abc"));
    p.move_to_end(false);
    p.render(rect(0, 0, 10, 1), &mut f);
    assert_eq!(f.output_string(), "\x1b[1;1Habc\x1b[1;4H");
    assert_eq!(p.get_cursor_pos(), Pos::new(3, 0));
    assert_eq!(p.get_render_pos(), Pos::new(0, 0));
}

#[test]
fn prompt_renders_placeholder_when_empty() {
    let mut f = frame();
    let mut p = Prompt::new().with_placeholder("Search");
    p.render(rect(0, 0, 10, 1), &mut f);
    assert_eq!(f.output_string(), "\x1b[1;1H\x1b[38;5;240mSearch\x1b[39m\x1b[1;1H");
}

#[test]
fn prompt_renders_selection_reversed() {
    let mut f = frame();
    let mut p = Prompt::from(String::from("abc"));
    p.move_forward(true);
    p.move_forward(true);
    p.render(rect(0, 0, 10, 1), &mut f);
    assert_eq!(f.output_string(), "\x1b[1;1H\x1b[7mab\x1b[27mc\x1b[1;3H");
}

#[test]
fn prompt_scrolls_to_keep_the_cursor_visible() {
    let mut f = frame();
    let mut p = Prompt::from(String::from("abcdefgh"));
    p.move_to_end(false);
    p.render(rect(0, 0, 4, 1), &mut f);
    assert_eq!(f.output_string(), "\x1b[1;1Hfgh\x1b[1;4H");
}

#[test]
fn editor_wraps_lines_and_moves_between_them() {
    let mut f = frame();
    let mut e = Editor::new();
    e.push_str("hello world");
    e.render(rect(0, 0, 5, 3), &mut f);
    assert_eq!(f.output_string(), "\x1b[1;1Hhello \x1b[2;1Hworld\x1b[2;6H");
    assert_eq!(e.get_cursor_pos(), Pos::new(5, 1));
    assert!(e.move_up(false));
    assert_eq!(e.get_cursor_pos(), Pos::new(5, 0));
    assert!(e.move_down(false));
    assert_eq!(e.get_cursor_pos(), Pos::new(5, 1));
    assert!(!e.is_cursor_on_first_row());
}

#[test]
fn editor_enter_starts_a_new_line() {
    let mut e = Editor::new();
    assert!(e.input(KeyCode::Char('a'), none()));
    assert!(e.input(KeyCode::Enter, none()));
    assert!(e.input(KeyCode::Char('b'), none()));
    assert_eq!(e.as_str(), "a\nb");
    assert!(e.input(KeyCode::Backspace, none()));
    assert_eq!(e.as_str(), "a\n");
}

#[test]
fn editor_select_all_then_delete_clears() {
    let mut e = Editor::new();
    e.push_str("some text");
    assert!(e.select_all());
    assert!(e.delete_selection());
    assert!(e.is_empty());
    assert!(!e.move_forward(false));
}

#[test]
fn editor_disabled_ignores_keys_and_shows_placeholder() {
    let mut f = frame();
    let mut e = Editor::new().with_placeholder("Content").with_disabled();
    assert!(e.is_disabled());
    assert!(!e.input(KeyCode::Char('x'), none()));
    e.render(rect(2, 1, 10, 2), &mut f);
    assert_eq!(f.output_string(), "\x1b[2;3H\x1b[38;5;238mContent\x1b[39m");
    e.set_disabled(false);
    assert!(!e.is_disabled());
}

#[test]
fn editor_tab_renders_as_four_spaces() {
    let mut f = frame();
    let mut e = Editor::new();
    e.push_str("\tx");
    e.move_to_start(false);
    e.render(rect(0, 0, 10, 2), &mut f);
    assert_eq!(f.output_string(), "\x1b[1;1H    x\x1b[1;1H");
}

#[test]
fn editor_clear_forgets_everything() {
    let mut e = Editor::new();
    e.push_str("abc");
    e.clear();
    assert!(e.is_empty());
    assert_eq!(e.get_scroll(), 0);
}

#[test]
fn list_moves_after_render() {
    let mut l = List::new();
    let view = l.render(rect(0, 0, 10, 5), 20).unwrap();
    assert_eq!(view.lines.len(), 5);
    assert!(l.input(KeyCode::Down, none()));
    assert_eq!(l.index(), 1);
    assert!(l.input(KeyCode::Down, shift()));
    assert!(l.input(KeyCode::Down, shift()));
    assert_eq!(l.index(), 3);
    assert_eq!(l.selector(), Some(1));
    assert_eq!(l.selection(), Some(1..3));
    assert_eq!(l.selection_inclusive(), 1..=3);
    let view = l.render(rect(0, 0, 10, 5), 20).unwrap();
    let kinds: Vec<ListIndex> = view.lines.iter().map(|x| x.kind).collect();
    assert_eq!(
        kinds,
        vec![ListIndex::Normal, ListIndex::Selection, ListIndex::Selection, ListIndex::Selected, ListIndex::Normal]
    );
    assert_eq!(view.lines[2], ListLine { area: rect(0, 2, 10, 1), item: 2, kind: ListIndex::Selection });
}

#[test]
fn list_select_all_and_clamp() {
    let mut l = List::new();
    l.render(rect(0, 0, 10, 5), 20);
    assert!(l.input(KeyCode::Char('a'), ctrl()));
    assert_eq!(l.index(), 0);
    assert_eq!(l.selector(), Some(19));
    assert!(l.move_to_end(false));
    assert_eq!(l.index(), 19);
    assert_eq!(l.selector(), None);
    let view = l.render(rect(0, 0, 10, 5), 20).unwrap();
    assert_eq!(l.scroll(), 15);
    assert_eq!(view.lines[4].item, 19);
}

#[test]
fn list_inside_padding_that_leaves_nothing() {
    let mut l = List::new().with_padding(Margin::all(3));
    assert!(l.render(rect(0, 0, 4, 4), 20).is_none());
}

struct Label(&'static str);

impl TagItem for Label {
    fn width(&self) -> u16 {
        yolo::text::str_width(self.0)
    }
}

#[test]
fn tag_widths_from_items() {
    let items = [Label("tag"), Label("好")];
    assert_eq!(item_widths(&items), vec![3, 2]);
}

#[test]
fn tags_wrap_into_rows() {
    let widths = [3u16, 4, 4, 18];
    let mut t = TagList::new();
    let view = t.render(rect(0, 0, 12, 5), &widths).unwrap();
    assert_eq!(
        view.tags,
        vec![
            TagPlacement { area: rect(0, 0, 3, 1), index: 0, selected: true },
            TagPlacement { area: rect(5, 0, 4, 1), index: 1, selected: false },
            TagPlacement { area: rect(0, 1, 4, 1), index: 2, selected: false },
            TagPlacement { area: rect(0, 2, 12, 1), index: 3, selected: false },
        ]
    );
    assert!(view.scrollbar.is_none());
}

#[test]
fn tags_move_between_rows() {
    let widths = [3u16, 4, 4, 18];
    let mut t = TagList::new();
    t.render(rect(0, 0, 12, 5), &widths);
    assert!(t.input(KeyCode::Right, &widths));
    assert_eq!(t.index(), 1);
    assert!(t.input(KeyCode::Left, &widths));
    assert!(!t.input(KeyCode::Left, &widths));
    assert!(t.input(KeyCode::Down, &widths));
    assert_eq!(t.index(), 2);
    t.render(rect(0, 0, 12, 5), &widths);
    assert!(t.input(KeyCode::Up, &widths));
    assert_eq!(t.index(), 0);
    assert!(t.input(KeyCode::End, &widths));
    assert_eq!(t.index(), 3);
    assert!(t.input(KeyCode::Home, &widths));
    assert_eq!(t.index(), 0);
}

#[test]
fn editor_backspace_undoes_typing_ascii() {
    let mut e = Editor::new();
    e.push_str("ab\r\ncd");
    e.move_backward(false);
    for ch in ['x', ' ', '~', '#'] {
        e.push_char(ch);
        assert!(e.delete_backward());
        assert_eq!(e.as_str(), "ab\r\ncd");
    }
    e.move_to_start(false);
    e.push_char('z');
    assert!(e.delete_backward());
    assert_eq!(e.as_str(), "ab\r\ncd");
    assert!(!e.delete_backward());
}
