use yolo::block::{Block, Shape};
use yolo::layout::{HorizontalAlignment, Pos, Rect, Size};
use yolo::style::{Color, Sgr};
use yolo::term::{lines, Framebuffer, TermSize, TextMode, TextOptions};

fn frame(cols: u16, rows: u16) -> Framebuffer {
    Framebuffer::new(TermSize::new(cols, rows, cols * 8, rows * 16))
}

fn rect(col: u16, row: u16, cols: u16, rows: u16) -> Rect {
    Rect::new(Pos::new(col, row), Size::new(cols, rows))
}

fn chars(s: &str) -> Vec<char> {
    s.chars().collect()
}

#[test]
fn cursor_codes() {
    let mut f = frame(80, 24);
    f.cursor_move(Pos::new(1, 2));
    f.cursor_hide();
    f.cursor_show();
    assert_eq!(f.output_string(), "\x1b[3;2H\x1b[?25l\x1b[?25h");
}

#[test]
fn span_left_moves_to_the_area() {
    let mut f = frame(80, 24);
    f.push_str("hi");
    f.render(rect(1, 2, 5, 1), TextOptions::span());
    assert_eq!(f.output_string(), "\x1b[3;2Hhi");
}

#[test]
fn span_fill_pads_with_spaces() {
    let mut f = frame(80, 24);
    f.push_str("hi");
    f.render(rect(0, 0, 5, 1), TextOptions::span_fill());
    assert_eq!(f.output_string(), "\x1b[1;1Hhi   ");
}

#[test]
fn span_center_and_right() {
    let mut f = frame(80, 24);
    f.push_str("ab");
    f.render(rect(0, 0, 6, 1), TextOptions::span_center());
    f.push_str("ab");
    f.render(rect(0, 1, 6, 1), TextOptions::span_right());
    assert_eq!(f.output_string(), "\x1b[1;3Hab\x1b[2;5Hab");
}

#[test]
fn span_too_wide_is_clipped_keeping_escapes() {
    let mut f = frame(80, 24);
    f.push_str("ab\x1b[1mcdef");
    f.render(rect(0, 0, 3, 1), TextOptions::span());
    assert_eq!(f.output_string(), "\x1b[1;1Hab\x1b[1mc");
}

#[test]
fn paragraph_wraps_into_lines() {
    let mut f = frame(80, 24);
    f.push_str("hello world");
    f.render(rect(0, 0, 5, 3), TextOptions::paragraph());
    assert_eq!(f.output_string(), "\x1b[1;1Hhello\x1b[2;1Hworld");
}

#[test]
fn paragraph_stops_at_the_last_row() {
    let mut f = frame(80, 24);
    f.push_str("a b c");
    f.render(rect(0, 0, 1, 2), TextOptions::paragraph());
    assert_eq!(f.output_string(), "\x1b[1;1Ha\x1b[2;1Hb");
}

#[test]
fn paragraph_centered_vertically() {
    let mut f = frame(80, 24);
    f.push_str("hi");
    let options = TextOptions { mode: TextMode::Paragraph { center_vertical: true }, align: HorizontalAlignment::Left };
    f.render(rect(0, 0, 5, 5), options);
    assert_eq!(f.output_string(), "\x1b[3;1Hhi");
}

#[test]
fn render_without_text_only_moves() {
    let mut f = frame(80, 24);
    f.render(rect(4, 0, 5, 1), TextOptions::span());
    assert_eq!(f.output_string(), "\x1b[1;5H");
}

#[test]
fn flush_clears_lines_then_writes() {
    let mut f = frame(3, 2);
    f.print_str("x");
    let out: String = f.flush_output().unwrap().into_iter().collect();
    assert_eq!(out, "\x1b[1;1H\x1b[2K\x1b[2;1H\x1b[2Kx");
    assert_eq!(f.output_string(), "");
}

#[test]
fn flush_of_a_tiny_window_writes_nothing() {
    let mut f = frame(1, 5);
    f.print_str("x");
    assert!(f.flush_output().is_none());
    assert_eq!(f.output_string(), "");
}

#[test]
fn print_styles() {
    let mut f = frame(80, 24);
    f.print_fmt(Sgr::Fg(Color::Red));
    f.print_ch_repeat('-', 3);
    assert_eq!(f.output_string(), "\x1b[31m---");
}

#[test]
fn lines_split_on_newlines() {
    assert_eq!(lines(&chars("a\nb\r\nc")), vec![chars("a"), chars("b"), chars("c")]);
    assert_eq!(lines(&chars("a\n")), vec![chars("a")]);
    assert_eq!(lines(&[]), Vec::<Vec<char>>::new());
}

#[test]
fn cell_dims_from_window() {
    let f = frame(10, 5);
    let cell = f.cell_dims();
    assert_eq!((cell.width, cell.height), (8, 16));
    assert_eq!(f.area(), rect(0, 0, 10, 5));
}

#[test]
fn rectangle_block_draws_a_frame() {
    let mut f = frame(80, 24);
    Block::rectangle().render(rect(0, 0, 3, 3), &mut f);
    assert_eq!(f.output_string(), "\x1b[1;1H┌─┐\x1b[2;1H│\x1b[2;3H│\x1b[3;1H└─┘");
}

#[test]
fn colored_block_sets_and_resets_the_color() {
    let mut f = frame(80, 24);
    Block::rectangle().with_color(Color::Cyan).render(rect(0, 0, 3, 3), &mut f);
    let out = f.output_string();
    assert!(out.starts_with("\x1b[36m"));
    assert!(out.ends_with("\x1b[39m"));
}

#[test]
fn horizontal_line_block() {
    let mut f = frame(80, 24);
    Block::new(Shape::LineHorizontal).render(rect(0, 0, 3, 1), &mut f);
    let out = f.output_string();
    assert!(out.contains("───"));
}

#[test]
fn a_color_only_wraps_the_drawing() {
    for shape in [Shape::LineHorizontal, Shape::LineVertical, Shape::Horizontals, Shape::Verticals, Shape::Rectangle, Shape::Corners] {
        let mut plain = frame(80, 24);
        Block::new(shape).render(rect(1, 1, 4, 3), &mut plain);
        let mut colored = frame(80, 24);
        Block::new(shape).with_color(Color::Yellow).render(rect(1, 1, 4, 3), &mut colored);
        assert_eq!(colored.output_string(), format!("\x1b[33m{}\x1b[39m", plain.output_string()));
    }
}

#[test]
fn render_at_the_last_column_edge() {
    let mut f = frame(80, 24);
    f.push_str("ab");
    f.render(rect(65533, 0, 2, 1), TextOptions::span());
    assert_eq!(f.output_string(), "\x1b[1;65534Hab");
    let mut g = frame(80, 24);
    g.render(rect(0, 0, 65535, 1), TextOptions::span());
    assert_eq!(g.output_string(), "\x1b[1;1H");
}

#[test]
fn right_aligned_text_must_start_before_the_last_column() {
    let right = TextOptions { mode: TextMode::Span { fill: false }, align: HorizontalAlignment::Right };
    let mut f = frame(80, 24);
    f.push_str("\x1b[1m");
    assert!(!f.try_render(rect(65533, 0, 2, 1), right));
    assert_eq!(f.output_string(), "");
    f.push_str("a");
    assert!(f.try_render(rect(65533, 0, 2, 1), right));
    assert_eq!(f.output_string(), "\x1b[1;65535H\x1b[1ma");

    let paragraph = TextOptions { mode: TextMode::Paragraph { center_vertical: false }, align: HorizontalAlignment::Right };
    let mut g = frame(80, 24);
    g.push_str("a\n\nb");
    assert!(!g.try_render(rect(65530, 0, 5, 3), paragraph));
    let mut h = frame(80, 24);
    h.push_str("a\n\nb");
    assert!(h.try_render(rect(65530, 0, 5, 1), paragraph));
    assert_eq!(h.output_string(), "\x1b[1;65535Ha");
}

#[test]
fn a_line_may_run_past_the_last_column() {
    let mut f = frame(80, 24);
    Block::new(Shape::LineHorizontal).render(rect(65534, 2, 5, 1), &mut f);
    assert_eq!(f.output_string(), "\x1b[3;65535H─────");
}

#[test]
fn a_left_span_needs_only_its_start_in_range() {
    let mut f = frame(80, 24);
    f.push_str("ab");
    assert!(f.try_render(rect(65000, 0, 1000, 1), TextOptions::span()));
    assert_eq!(f.output_string(), "\x1b[1;65001Hab");
    let mut g = frame(80, 24);
    g.push_str("ab");
    assert!(!g.try_render(rect(65000, 0, 2000, 1), TextOptions::span_center()));
    assert_eq!(g.output_string(), "");
}
