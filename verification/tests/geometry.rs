use yolo::layout::{
    split, CellDims, Constraint, HorizontalAlignment, ImageDims, Margin, Pos, Rect, Size, VerticalAlignment,
};
use yolo::scroll::{Scroll, ScrollData, ScrollMargins};

fn rect(col: u16, row: u16, cols: u16, rows: u16) -> Rect {
    Rect::new(Pos::new(col, row), Size::new(cols, rows))
}

#[test]
fn split_percent_halves() {
    let w = split(100, 0, &[Constraint::Percent(50), Constraint::Percent(50)]);
    assert_eq!(w, vec![50, 50]);
}

#[test]
fn split_fixed_then_percent_with_gaps() {
    let w = split(20, 1, &[Constraint::Fixed(3), Constraint::Percent(50), Constraint::Percent(50)]);
    assert_eq!(w, vec![3, 7, 7]);
}

#[test]
fn split_fixed_larger_than_width_is_clipped() {
    let w = split(5, 0, &[Constraint::Fixed(10)]);
    assert_eq!(w, vec![5]);
}

#[test]
fn split_horizontal_places_columns_with_gap() {
    let r = rect(2, 3, 20, 4);
    let parts = r.split_horizontal(1, &[Constraint::Fixed(3), Constraint::Percent(50), Constraint::Percent(50)]);
    assert_eq!(parts, vec![rect(2, 3, 3, 4), rect(6, 3, 7, 4), rect(14, 3, 7, 4)]);
}

#[test]
fn split_vertical_places_rows_with_gap() {
    let r = rect(0, 0, 10, 11);
    let parts = r.split_vertical(1, &[Constraint::Percent(50), Constraint::Percent(50)]);
    assert_eq!(parts, vec![rect(0, 0, 10, 5), rect(0, 6, 10, 5)]);
}

#[test]
fn split_horizontally_covers_the_rectangle() {
    let r = rect(1, 2, 8, 7);
    let (top, bottom) = r.split_horizontally();
    assert_eq!(top, rect(1, 2, 8, 3));
    assert_eq!(bottom, rect(1, 5, 8, 4));
    assert_eq!(top.rows() + bottom.rows(), r.rows());
}

#[test]
fn split_vertically_covers_the_rectangle() {
    let r = rect(1, 2, 9, 3);
    let (left, right) = r.split_vertically();
    assert_eq!(left, rect(1, 2, 4, 3));
    assert_eq!(right, rect(5, 2, 5, 3));
}

#[test]
fn inner_with_zero_margin_is_the_same() {
    let r = rect(3, 4, 10, 6);
    assert_eq!(r.inner(Margin::zero()), r);
}

#[test]
fn inner_shrinks_by_the_margin() {
    let r = rect(3, 4, 10, 6);
    assert_eq!(r.inner(Margin::new(1, 2, 1, 0)), rect(4, 5, 7, 5));
    assert_eq!(r.inner(Margin::all(5)), rect(8, 9, 0, 0));
}

#[test]
fn alignment_offsets() {
    assert_eq!(HorizontalAlignment::Left.calc(10, 20, 6), 10);
    assert_eq!(HorizontalAlignment::Center.calc(10, 20, 6), 17);
    assert_eq!(HorizontalAlignment::Right.calc(10, 20, 6), 24);
    assert_eq!(VerticalAlignment::Bottom.calc(0, 5, 9), 0);
}

#[test]
fn center_in_outer() {
    let outer = rect(0, 0, 20, 10);
    let inner = rect(0, 0, 4, 2);
    assert_eq!(inner.center(outer), rect(8, 4, 4, 2));
}

#[test]
fn right_and_bottom_edges() {
    let r = rect(3, 4, 10, 6);
    assert_eq!(r.right_out(), 13);
    assert_eq!(r.bottom_out(), 10);
}

#[test]
fn cell_dims_round_trip() {
    let cell = CellDims { width: 8, height: 16 };
    assert_eq!(cell.cols(17), 3);
    assert_eq!(cell.rows(32), 2);
    let dims = cell.dims(Size::new(3, 2));
    assert_eq!(dims, ImageDims { width: 24, height: 32 });
    assert_eq!(cell.size(dims), Size::new(3, 2));
}

#[test]
fn scroll_down_to_show_index() {
    let d = ScrollData { current_index: 10, current_scroll: 0, total_lines: 20, viewport_height: 5, margins: ScrollMargins::zero() };
    assert_eq!(Scroll::calc(d), 6);
}

#[test]
fn scroll_up_to_show_index() {
    let d = ScrollData { current_index: 2, current_scroll: 5, total_lines: 20, viewport_height: 5, margins: ScrollMargins::zero() };
    assert_eq!(Scroll::calc(d), 2);
}

#[test]
fn scroll_stays_when_index_visible() {
    let d = ScrollData { current_index: 7, current_scroll: 5, total_lines: 20, viewport_height: 5, margins: ScrollMargins::zero() };
    assert_eq!(Scroll::calc(d), 5);
}

#[test]
fn scroll_is_capped_by_the_last_page() {
    let d = ScrollData { current_index: 30, current_scroll: 0, total_lines: 20, viewport_height: 5, margins: ScrollMargins::zero() };
    assert_eq!(Scroll::calc(d), 15);
}

#[test]
fn scrollable_needs_more_lines_and_room() {
    assert!(Scroll::is_scrollable(10, Size::new(20, 5), 10));
    assert!(!Scroll::is_scrollable(5, Size::new(20, 5), 10));
    assert!(!Scroll::is_scrollable(10, Size::new(10, 5), 10));
}

#[test]
fn make_scroll_area_takes_last_column() {
    let mut area = rect(2, 1, 10, 4);
    let bar = Scroll::make_scroll_area(&mut area, 1);
    assert_eq!(bar, rect(11, 1, 1, 4));
    assert_eq!(area, rect(2, 1, 8, 4));
}

#[test]
fn positions_add_and_subtract() {
    let p = Pos::new(3, 4);
    let q = Pos::new(1, 2);
    assert_eq!(p.add(q), Pos::new(4, 6));
    assert_eq!(p.add(q).sub(q), p);
    assert_eq!(q.sub(p), Pos::new(0, 0));
}

#[test]
fn sizes_divide() {
    assert_eq!(Size::new(10, 7) / 2, Size::new(5, 3));
    assert_eq!(Size::new(10, 7) / (5, 7), Size::new(2, 1));
}

#[test]
fn scrolling_again_changes_nothing() {
    let margins = ScrollMargins { margin_top: 2, margin_bottom: 3, padding_bottom: 1 };
    for index in [0usize, 3, 9, 17, 40] {
        for scroll in [0usize, 4, 12] {
            let d = ScrollData { current_index: index, current_scroll: scroll, total_lines: 30, viewport_height: 8, margins };
            let r = Scroll::calc(d);
            assert_eq!(Scroll::calc(ScrollData { current_scroll: r, ..d }), r);
        }
    }
}
