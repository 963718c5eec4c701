//! Lines, frames and filled blocks drawn with box-drawing characters.
use vstd::prelude::*;

use crate::chars::repeat;
use crate::layout::{Pos, Rect};
use crate::style::{AnsiDisplay, Color, Sgr};
use crate::term::{move_to_code, Framebuffer};

verus! {

/// The shape a block draws.
#[derive(Debug, Clone, Copy, PartialEq, Eq, Structural)]
pub enum Shape {
    /// One horizontal line along the top row.
    LineHorizontal,
    /// One vertical line down the left column.
    LineVertical,
    /// Horizontal lines along the top and bottom rows.
    Horizontals,
    /// Vertical lines down the left and right columns.
    Verticals,
    /// A frame around the area.
    Rectangle,
    /// The four corners of a frame.
    Corners,
    /// Every cell, in a background color.
    Fill,
}

/// A shape with an optional color.
#[derive(Debug, Clone, Copy, PartialEq, Eq, Structural)]
pub struct Block {
    pub shape: Shape,
    pub color: Option<Color>,
}

/// A horizontal line of `width` cells from `pos`.
pub open spec fn hline(col: u16, row: u16, width: u16) -> Seq<char> {
    move_to_code(col, row) + repeat('─', width as nat)
}

/// A vertical line of `height` cells from `(col, row)` down.
pub open spec fn vline(col: u16, row: u16, height: nat) -> Seq<char>
    decreases height,
{
    if height == 0 {
        Seq::empty()
    } else {
        vline(col, row, (height - 1) as nat) + move_to_code(col, (row + height - 1) as u16) + seq!['│']
    }
}

/// The left and right sides of a frame's middle rows.
pub open spec fn frame_sides(left: u16, right: u16, row: u16, n: nat) -> Seq<char>
    decreases n,
{
    if n == 0 {
        Seq::empty()
    } else {
        frame_sides(left, right, row, (n - 1) as nat) + move_to_code(left, (row + n - 1) as u16)
            + seq!['│'] + move_to_code(right, (row + n - 1) as u16) + seq!['│']
    }
}

/// Rows of spaces covering an area.
pub open spec fn fill_rows(col: u16, row: u16, cols: u16, n: nat) -> Seq<char>
    decreases n,
{
    if n == 0 {
        Seq::empty()
    } else {
        fill_rows(col, row, cols, (n - 1) as nat) + move_to_code(col, (row + n - 1) as u16) + repeat(
            ' ',
            cols as nat,
        )
    }
}

pub open spec fn horizontals_output(area: Rect) -> Seq<char> {
    hline(area.pos.col, area.pos.row, area.size.cols) + hline(
        area.pos.col,
        (area.pos.row + area.size.rows - 1) as u16,
        area.size.cols,
    )
}

pub open spec fn verticals_output(area: Rect) -> Seq<char> {
    vline(area.pos.col, area.pos.row, area.size.rows as nat) + vline(
        (area.pos.col + area.size.cols - 1) as u16,
        area.pos.row,
        area.size.rows as nat,
    )
}

pub open spec fn rectangle_output(area: Rect) -> Seq<char> {
    let right = (area.pos.col + area.size.cols - 1) as u16;
    let bottom = (area.pos.row + area.size.rows - 1) as u16;
    let bar = repeat('─', (area.size.cols - 2) as nat);
    move_to_code(area.pos.col, area.pos.row) + seq!['┌'] + bar + seq!['┐'] + frame_sides(
        area.pos.col,
        right,
        (area.pos.row + 1) as u16,
        (area.size.rows - 2) as nat,
    ) + move_to_code(area.pos.col, bottom) + seq!['└'] + bar + seq!['┘']
}

pub open spec fn corners_output(area: Rect) -> Seq<char> {
    let right = (area.pos.col + area.size.cols - 1) as u16;
    let bottom = (area.pos.row + area.size.rows - 1) as u16;
    move_to_code(area.pos.col, area.pos.row) + seq!['┌'] + move_to_code(right, area.pos.row) + seq![
        '┐',
    ] + move_to_code(area.pos.col, bottom) + seq!['└'] + move_to_code(right, bottom) + seq!['┘']
}

/// A shape drawn in a foreground color when one is given.
pub open spec fn colored(color: Option<Color>, shape: Seq<char>) -> Seq<char> {
    match color {
        Some(c) => Sgr::Fg(c).ansi() + shape + Sgr::Fg(Color::Default).ansi(),
        None => shape,
    }
}

/// Whether a shape draws anything in an area: frames and corners need two
/// cells each way, the other shapes one.
pub open spec fn shape_visible(shape: Shape, area: Rect) -> bool {
    match shape {
        Shape::Rectangle => !area.size.spec_is_less(2),
        Shape::Corners => !area.size.spec_is_less(2),
        _ => !area.size.spec_is_empty(),
    }
}

/// The lines of a shape other than `Fill`, without color.
pub open spec fn shape_output(shape: Shape, area: Rect) -> Seq<char> {
    let cols = area.size.cols;
    let rows = area.size.rows;
    match shape {
        Shape::LineHorizontal => hline(area.pos.col, area.pos.row, cols),
        Shape::LineVertical => vline(area.pos.col, area.pos.row, rows as nat),
        Shape::Horizontals => if rows == 1 {
            hline(area.pos.col, area.pos.row, cols)
        } else {
            horizontals_output(area)
        },
        Shape::Verticals => if cols == 1 {
            vline(area.pos.col, area.pos.row, rows as nat)
        } else {
            verticals_output(area)
        },
        Shape::Rectangle => rectangle_output(area),
        Shape::Corners => corners_output(area),
        Shape::Fill => Seq::empty(),
    }
}

/// What a block writes for an area.
pub open spec fn block_output(b: Block, area: Rect) -> Seq<char> {
    if !shape_visible(b.shape, area) {
        Seq::empty()
    } else if b.shape == Shape::Fill {
        let bg = match b.color {
            Some(c) => c,
            None => Color::Default,
        };
        Sgr::Bg(bg).ansi() + fill_rows(area.pos.col, area.pos.row, area.size.cols, area.size.rows as nat)
            + Sgr::Bg(Color::Default).ansi()
    } else {
        colored(b.color, shape_output(b.shape, area))
    }
}

fn draw_shape(shape: Shape, area: Rect, frame: &mut Framebuffer)
    requires
        block_fits(shape, area),
        shape_visible(shape, area),
        shape != Shape::Fill,
    ensures
        final(frame).output() == old(frame).output() + shape_output(shape, area),
        final(frame).pending() == old(frame).pending(),
        final(frame).spec_size() == old(frame).spec_size(),
{
    match shape {
        Shape::LineHorizontal => draw_line_horizontal(area.pos, area.size.cols, frame),
        Shape::LineVertical => draw_line_vertical(area.pos, area.size.rows, frame),
        Shape::Horizontals => {
            if area.size.rows == 1 {
                draw_line_horizontal(area.pos, area.size.cols, frame)
            } else {
                draw_horizontals(area, frame)
            }
        },
        Shape::Verticals => {
            if area.size.cols == 1 {
                draw_line_vertical(area.pos, area.size.rows, frame)
            } else {
                draw_verticals(area, frame)
            }
        },
        Shape::Rectangle => draw_rectangle(area, frame),
        Shape::Corners => draw_corners(area, frame),
        Shape::Fill => {},
    }
}

/// Every cell of the area can be reached by the cursor.
pub open spec fn block_area_fits(area: Rect) -> bool {
    &&& area.spec_right_out() <= u16::MAX
    &&& area.spec_bottom_out() <= u16::MAX
}

/// Every cell a shape draws in the area can be reached by the cursor, and
/// the rows and columns it steps through stay in range.
pub open spec fn block_fits(shape: Shape, area: Rect) -> bool {
    shape_visible(shape, area) ==> match shape {
        Shape::LineHorizontal => area.pos.col < u16::MAX && area.pos.row < u16::MAX,
        Shape::LineVertical => area.pos.col < u16::MAX && area.spec_bottom_out() <= u16::MAX,
        Shape::Fill => area.pos.col < u16::MAX && area.spec_bottom_out() <= u16::MAX,
        Shape::Horizontals => area.pos.col < u16::MAX && if area.size.rows == 1 {
            area.pos.row < u16::MAX
        } else {
            area.spec_bottom_out() <= u16::MAX
        },
        Shape::Verticals => area.spec_bottom_out() <= u16::MAX && if area.size.cols == 1 {
            area.pos.col < u16::MAX
        } else {
            area.spec_right_out() <= u16::MAX
        },
        Shape::Rectangle => block_area_fits(area),
        Shape::Corners => block_area_fits(area),
    }
}

fn draw_line_horizontal(pos: Pos, width: u16, frame: &mut Framebuffer)
    requires
        pos.col < u16::MAX,
        pos.row < u16::MAX,
    ensures
        final(frame).output() == old(frame).output() + hline(pos.col, pos.row, width),
        final(frame).pending() == old(frame).pending(),
        final(frame).spec_size() == old(frame).spec_size(),
{
    frame.cursor_move(pos);
    frame.print_ch_repeat('─', width);
}

fn draw_line_vertical(pos: Pos, height: u16, frame: &mut Framebuffer)
    requires
        pos.col < u16::MAX,
        pos.row + height <= u16::MAX,
    ensures
        final(frame).output() == old(frame).output() + vline(pos.col, pos.row, height as nat),
        final(frame).pending() == old(frame).pending(),
        final(frame).spec_size() == old(frame).spec_size(),
{
    let ghost start = frame.output();
    let mut p = pos;
    let mut i: u16 = 0;
    while i < height
        invariant
            i <= height,
            p.col == pos.col,
            p.row == pos.row + i,
            pos.col < u16::MAX,
            pos.row + height <= u16::MAX,
            frame.output() == start + vline(pos.col, pos.row, i as nat),
            frame.pending() == old(frame).pending(),
            frame.spec_size() == old(frame).spec_size(),
        decreases height - i,
    {
        frame.cursor_move(p);
        frame.print_ch('│');
        assert(frame.output() =~= start + vline(pos.col, pos.row, i as nat + 1));
        p.row = p.row + 1;
        i = i + 1;
    }
}

fn draw_horizontals(area: Rect, frame: &mut Framebuffer)
    requires
        area.pos.col < u16::MAX,
        area.spec_bottom_out() <= u16::MAX,
        area.size.cols > 0,
        area.size.rows > 0,
    ensures
        final(frame).output() == old(frame).output() + horizontals_output(area),
        final(frame).pending() == old(frame).pending(),
        final(frame).spec_size() == old(frame).spec_size(),
{
    let bottom = area.pos.with_row(area.pos.row + area.size.rows - 1);
    draw_line_horizontal(area.pos, area.size.cols, frame);
    draw_line_horizontal(bottom, area.size.cols, frame);
    assert(final(frame).output() =~= old(frame).output() + horizontals_output(area));
}

fn draw_verticals(area: Rect, frame: &mut Framebuffer)
    requires
        area.spec_right_out() <= u16::MAX,
        area.spec_bottom_out() <= u16::MAX,
        area.size.cols > 0,
        area.size.rows > 0,
    ensures
        final(frame).output() == old(frame).output() + verticals_output(area),
        final(frame).pending() == old(frame).pending(),
        final(frame).spec_size() == old(frame).spec_size(),
{
    let right = area.pos.with_col(area.pos.col + area.size.cols - 1);
    draw_line_vertical(area.pos, area.size.rows, frame);
    draw_line_vertical(right, area.size.rows, frame);
    assert(final(frame).output() =~= old(frame).output() + verticals_output(area));
}

fn draw_rectangle(area: Rect, frame: &mut Framebuffer)
    requires
        block_area_fits(area),
        area.size.cols >= 2,
        area.size.rows >= 2,
    ensures
        final(frame).output() == old(frame).output() + rectangle_output(area),
        final(frame).pending() == old(frame).pending(),
        final(frame).spec_size() == old(frame).spec_size(),
{
    let ghost start = frame.output();
    let mut pos = area.pos;
    let cols: u16 = area.size.cols;
    let rows: u16 = area.size.rows;
    let horizontals: u16 = cols - 2;
    frame.cursor_move(area.pos);
    frame.print_ch('┌');
    frame.print_ch_repeat('─', horizontals);
    frame.print_ch('┐');
    let ghost top = frame.output();
    pos.row = pos.row + 1;
    let right: u16 = area.pos.col + cols - 1;
    let mut i: u16 = 0;
    while i < rows - 2
        invariant
            i <= rows - 2,
            cols == area.size.cols,
            rows == area.size.rows,
            rows >= 2,
            cols >= 2,
            right == area.pos.col + cols - 1,
            block_area_fits(area),
            pos.col == area.pos.col,
            pos.row == area.pos.row + 1 + i,
            frame.output() == top + frame_sides(area.pos.col, right, (area.pos.row + 1) as u16, i as nat),
            frame.pending() == old(frame).pending(),
            frame.spec_size() == old(frame).spec_size(),
        decreases rows - 2 - i,
    {
        frame.cursor_move(pos);
        frame.print_ch('│');
        pos.col = pos.col + (cols - 1);
        frame.cursor_move(pos);
        frame.print_ch('│');
        pos.col = area.pos.col;
        assert(frame.output() =~= top + frame_sides(area.pos.col, right, (area.pos.row + 1) as u16, i as nat + 1));
        pos.row = pos.row + 1;
        i = i + 1;
    }
    frame.cursor_move(pos);
    frame.print_ch('└');
    frame.print_ch_repeat('─', horizontals);
    frame.print_ch('┘');
    assert(frame.output() =~= start + rectangle_output(area));
}

fn draw_corners(area: Rect, frame: &mut Framebuffer)
    requires
        block_area_fits(area),
        area.size.cols >= 2,
        area.size.rows >= 2,
    ensures
        final(frame).output() == old(frame).output() + corners_output(area),
        final(frame).pending() == old(frame).pending(),
        final(frame).spec_size() == old(frame).spec_size(),
{
    let right: u16 = area.pos.col + area.size.cols - 1;
    let bottom: u16 = area.pos.row + area.size.rows - 1;
    frame.cursor_move(area.pos);
    frame.print_ch('┌');
    frame.cursor_move(area.pos.with_col(right));
    frame.print_ch('┐');
    frame.cursor_move(area.pos.with_row(bottom));
    frame.print_ch('└');
    frame.cursor_move(Pos::new(right, bottom));
    frame.print_ch('┘');
    assert(final(frame).output() =~= old(frame).output() + corners_output(area));
}

fn fill(area: Rect, frame: &mut Framebuffer, bg: Color)
    requires
        area.pos.col < u16::MAX,
        area.spec_bottom_out() <= u16::MAX,
        area.size.cols > 0,
        area.size.rows > 0,
    ensures
        final(frame).output() == old(frame).output() + Sgr::Bg(bg).ansi() + fill_rows(
            area.pos.col,
            area.pos.row,
            area.size.cols,
            area.size.rows as nat,
        ) + Sgr::Bg(Color::Default).ansi(),
        final(frame).pending() == old(frame).pending(),
        final(frame).spec_size() == old(frame).spec_size(),
{
    frame.print_fmt(Sgr::Bg(bg));
    let ghost start = frame.output();
    let mut i: u16 = 0;
    while i < area.size.rows
        invariant
            i <= area.size.rows,
            area.pos.col < u16::MAX,
            area.spec_bottom_out() <= u16::MAX,
            area.size.cols > 0,
            frame.output() == start + fill_rows(area.pos.col, area.pos.row, area.size.cols, i as nat),
            frame.pending() == old(frame).pending(),
            frame.spec_size() == old(frame).spec_size(),
        decreases area.size.rows - i,
    {
        frame.cursor_move(area.pos.with_row(area.pos.row + i));
        frame.print_ch_repeat(' ', area.size.cols);
        assert(frame.output() =~= start + fill_rows(area.pos.col, area.pos.row, area.size.cols, i as nat + 1));
        i = i + 1;
    }
    frame.print_fmt(Sgr::Bg(Color::Default));
}

impl Block {
    pub fn new(shape: Shape) -> (r: Self)
        ensures
            r == (Block { shape, color: None }),
    {
        Block { shape, color: None }
    }

    pub fn rectangle() -> (r: Self)
        ensures
            r == (Block { shape: Shape::Rectangle, color: None }),
    {
        Self::new(Shape::Rectangle)
    }

    /// Every cell of the area in the color.
    pub fn fill(color: Color) -> (r: Self)
        ensures
            r == (Block { shape: Shape::Fill, color: Some(color) }),
    {
        Self::new(Shape::Fill).with_color(color)
    }

    /// Every cell of the area in the default background.
    pub fn clear() -> (r: Self)
        ensures
            r == (Block { shape: Shape::Fill, color: None }),
    {
        Self::new(Shape::Fill)
    }

    pub fn with_color(self, color: Color) -> (r: Self)
        ensures
            r == (Block { color: Some(color), ..self }),
    {
        let mut s = self;
        s.color = Some(color);
        s
    }

    /// Draws the block's shape over the area.
    pub fn render(self, area: Rect, frame: &mut Framebuffer)
        requires
            block_fits(self.shape, area),
        ensures
            final(frame).output() == old(frame).output() + block_output(self, area),
            final(frame).pending() == old(frame).pending(),
            final(frame).spec_size() == old(frame).spec_size(),
    {
        let ghost start = frame.output();
        let visible = match self.shape {
            Shape::Rectangle => !area.size.is_less(2),
            Shape::Corners => !area.size.is_less(2),
            _ => !area.is_empty(),
        };
        if !visible {
            assert(frame.output() =~= start + block_output(self, area));
            return;
        }
        match self.shape {
            Shape::Fill => {
                let bg = match self.color {
                    Some(c) => c,
                    None => Color::Default,
                };
                fill(area, frame, bg);
            },
            _ => match self.color {
                Some(color) => {
                    frame.print_fmt(Sgr::Fg(color));
                    draw_shape(self.shape, area, frame);
                    frame.print_fmt(Sgr::Fg(Color::Default));
                },
                None => draw_shape(self.shape, area, frame),
            },
        }
        assert(frame.output() =~= start + block_output(self, area));
    }
}

/// A color only wraps the drawing: a shape other than `Fill` drawn in a
/// color is the uncolored drawing between the foreground color and its
/// reset, where the shape shows at all, and nothing otherwise.
pub proof fn lemma_color_wraps(b: Block, c: Color, area: Rect)
    requires
        b.shape != Shape::Fill,
    ensures
        shape_visible(b.shape, area) ==> block_output(Block { color: Some(c), ..b }, area)
            == Sgr::Fg(c).ansi() + block_output(Block { color: None, ..b }, area) + Sgr::Fg(Color::Default).ansi(),
        !shape_visible(b.shape, area) ==> block_output(Block { color: Some(c), ..b }, area) == Seq::<char>::empty(),
{
}

} // verus!
