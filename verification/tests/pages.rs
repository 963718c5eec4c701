use yolo::image::Image;
use yolo::input::{KeyCode, KeyModifiers};
use yolo::layout::{Pos, Rect, Size};
use yolo::list::List;
use yolo::pages::{Action, EditorPage, EditorPageState, Pages, Route};
use yolo::tag_list::TagList;
use yolo::term::{Framebuffer, TermSize};

fn frame() -> Framebuffer {
    Framebuffer::new(TermSize::new(80, 24, 640, 384))
}

fn pages() -> Pages {
    Pages::new(Image::new(1), List::new(), 200, TagList::new(), vec!["tag", "tag2", "tag3"])
}

#[test]
fn routes_cycle_both_ways() {
    let mut r = Route::default_route();
    for _ in 0..5 {
        assert_eq!(r.next().prev(), r);
        r = r.next();
    }
    assert_eq!(r, Route::Demo);
    assert_eq!(Route::Demo.prev(), Route::Editor);
}

#[test]
fn forward_into_the_editor_page_shows_the_cursor() {
    let mut p = pages();
    let mut f = frame();
    p.forward(&mut f);
    p.forward(&mut f);
    p.forward(&mut f);
    assert_eq!(f.output_string(), "");
    p.forward(&mut f);
    assert_eq!(p.route(), Route::Editor);
    assert_eq!(f.output_string(), "\x1b[?25h");
    p.forward(&mut f);
    assert_eq!(p.route(), Route::Demo);
    assert_eq!(f.output_string(), "\x1b[?25h\x1b[?25l");
    p.backward(&mut f);
    assert_eq!(p.route(), Route::Editor);
}

#[test]
fn demo_and_image_pages_take_no_keys() {
    let mut p = pages();
    assert_eq!(p.on_input(KeyCode::Down, KeyModifiers::none()), Action::Nothing);
}

#[test]
fn tags_page_moves_its_tags() {
    let mut p = pages();
    let mut f = frame();
    p.forward(&mut f);
    p.forward(&mut f);
    assert_eq!(p.route(), Route::Tags);
    assert_eq!(p.tags.widths(), vec![3, 4, 4]);
    assert_eq!(p.on_input(KeyCode::End, KeyModifiers::none()), Action::Nothing);
    p.tags.list.render(Rect::new(Pos::new(0, 0), Size::new(20, 5)), &p.tags.widths());
    assert_eq!(p.on_input(KeyCode::End, KeyModifiers::none()), Action::Render);
    assert_eq!(p.tags.list.index(), 2);
}

#[test]
fn editor_page_moves_focus() {
    let mut page = EditorPage::new();
    assert_eq!(page.state, EditorPageState::Prompt);
    assert_eq!(page.input(KeyCode::Char('x'), KeyModifiers::none()), Action::Render);
    assert_eq!(page.prompt.as_str(), "x");
    assert_eq!(page.input(KeyCode::Up, KeyModifiers::none()), Action::Nothing);
    assert_eq!(page.input(KeyCode::Down, KeyModifiers::none()), Action::Render);
    assert_eq!(page.state, EditorPageState::Editor);
    assert!(page.editor.input(KeyCode::Char('y'), KeyModifiers::none()));
    assert_eq!(page.input(KeyCode::Up, KeyModifiers::none()), Action::Render);
    assert_eq!(page.state, EditorPageState::Prompt);
    assert!(page.editor.is_disabled());
    assert_eq!(page.editor.as_str(), "y");
}
