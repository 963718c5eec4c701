//! Screen geometry: positions, sizes, rectangles, margins and alignment.
use vstd::prelude::*;

verus! {

/// A cell position on the screen, zero based.
#[derive(Debug, Clone, Copy, PartialEq, Eq, Structural)]
pub struct Pos {
    pub col: u16,
    pub row: u16,
}

impl Pos {
    /// The top-left cell.
    pub fn zero() -> (r: Self)
        ensures
            r.col == 0 && r.row == 0,
    {
        Pos { col: 0, row: 0 }
    }

    pub fn new(col: u16, row: u16) -> (r: Self)
        ensures
            r.col == col,
            r.row == row,
    {
        Pos { col, row }
    }

    pub fn with_col(self, col: u16) -> (r: Self)
        ensures
            r == (Pos { col, ..self }),
    {
        let mut s = self;
        s.col = col;
        s
    }

    pub fn with_row(self, row: u16) -> (r: Self)
        ensures
            r == (Pos { row, ..self }),
    {
        let mut s = self;
        s.row = row;
        s
    }

    /// Component-wise sum.
    pub fn add(self, rhs: Self) -> (r: Self)
        requires
            self.col + rhs.col <= u16::MAX,
            self.row + rhs.row <= u16::MAX,
        ensures
            r.col == self.col + rhs.col,
            r.row == self.row + rhs.row,
    {
        Pos { col: self.col + rhs.col, row: self.row + rhs.row }
    }

    /// Component-wise difference, stopping at zero.
    pub fn sub(self, rhs: Self) -> (r: Self)
        ensures
            r.col == self.col.saturating_sub(rhs.col),
            r.row == self.row.saturating_sub(rhs.row),
    {
        Pos { col: self.col.saturating_sub(rhs.col), row: self.row.saturating_sub(rhs.row) }
    }

    pub fn add_col(&mut self, v: u16)
        requires
            old(self).col + v <= u16::MAX,
        ensures
            final(self).col == old(self).col + v,
            final(self).row == old(self).row,
    {
        self.col = self.col + v;
    }

    pub fn add_row(&mut self, v: u16)
        requires
            old(self).row + v <= u16::MAX,
        ensures
            final(self).row == old(self).row + v,
            final(self).col == old(self).col,
    {
        self.row = self.row + v;
    }

    pub fn sub_col(&mut self, v: u16)
        ensures
            final(self).col == old(self).col.saturating_sub(v),
            final(self).row == old(self).row,
    {
        self.col = self.col.saturating_sub(v);
    }

    pub fn sub_row(&mut self, v: u16)
        ensures
            final(self).row == old(self).row.saturating_sub(v),
            final(self).col == old(self).col,
    {
        self.row = self.row.saturating_sub(v);
    }
}

/// A size in terminal cells.
#[derive(Debug, Clone, Copy, PartialEq, Eq, Structural)]
pub struct Size {
    pub cols: u16,
    pub rows: u16,
}

impl Size {
    /// The empty size.
    pub fn zero() -> (r: Self)
        ensures
            r.cols == 0 && r.rows == 0,
    {
        Size { cols: 0, rows: 0 }
    }

    pub fn new(cols: u16, rows: u16) -> (r: Self)
        ensures
            r.cols == cols,
            r.rows == rows,
    {
        Size { cols, rows }
    }

    pub fn with_cols(self, cols: u16) -> (r: Self)
        ensures
            r == (Size { cols, ..self }),
    {
        let mut s = self;
        s.cols = cols;
        s
    }

    pub fn with_rows(self, rows: u16) -> (r: Self)
        ensures
            r == (Size { rows, ..self }),
    {
        let mut s = self;
        s.rows = rows;
        s
    }

    pub open spec fn spec_is_empty(self) -> bool {
        self.cols == 0 || self.rows == 0
    }

    /// No cell fits in a size with zero columns or zero rows.
    pub fn is_empty(&self) -> (r: bool)
        ensures
            r == self.spec_is_empty(),
    {
        self.cols == 0 || self.rows == 0
    }

    pub open spec fn spec_is_less(self, v: u16) -> bool {
        self.cols < v || self.rows < v
    }

    /// Whether either dimension is below `v`.
    pub fn is_less(&self, v: u16) -> (r: bool)
        ensures
            r == self.spec_is_less(v),
    {
        self.cols < v || self.rows < v
    }

    pub fn eq(&self, other: Self) -> (r: bool)
        ensures
            r == (self.cols == other.cols && self.rows == other.rows),
    {
        self.cols == other.cols && self.rows == other.rows
    }

    pub fn neq(&self, other: Self) -> (r: bool)
        ensures
            r == (self.cols != other.cols || self.rows != other.rows),
    {
        self.cols != other.cols || self.rows != other.rows
    }

    pub fn add(self, rhs: Self) -> (r: Self)
        requires
            self.cols + rhs.cols <= u16::MAX,
            self.rows + rhs.rows <= u16::MAX,
        ensures
            r.cols == self.cols + rhs.cols,
            r.rows == self.rows + rhs.rows,
    {
        Size { cols: self.cols + rhs.cols, rows: self.rows + rhs.rows }
    }

    pub fn sub(self, rhs: Self) -> (r: Self)
        ensures
            r.cols == self.cols.saturating_sub(rhs.cols),
            r.rows == self.rows.saturating_sub(rhs.rows),
    {
        Size { cols: self.cols.saturating_sub(rhs.cols), rows: self.rows.saturating_sub(rhs.rows) }
    }

    pub fn mul(self, rhs: Self) -> (r: Self)
        requires
            self.cols * rhs.cols <= u16::MAX,
            self.rows * rhs.rows <= u16::MAX,
        ensures
            r.cols == self.cols * rhs.cols,
            r.rows == self.rows * rhs.rows,
    {
        Size { cols: self.cols * rhs.cols, rows: self.rows * rhs.rows }
    }

    pub fn div(self, rhs: Self) -> (r: Self)
        requires
            rhs.cols != 0,
            rhs.rows != 0,
        ensures
            r.cols == self.cols / rhs.cols,
            r.rows == self.rows / rhs.rows,
    {
        Size { cols: self.cols / rhs.cols, rows: self.rows / rhs.rows }
    }

    pub fn add_cols(&mut self, v: u16)
        requires
            old(self).cols + v <= u16::MAX,
        ensures
            *final(self) == (Size { cols: (old(self).cols + v) as u16, ..*old(self) }),
    {
        self.cols = self.cols + v;
    }

    pub fn add_rows(&mut self, v: u16)
        requires
            old(self).rows + v <= u16::MAX,
        ensures
            *final(self) == (Size { rows: (old(self).rows + v) as u16, ..*old(self) }),
    {
        self.rows = self.rows + v;
    }

    pub fn sub_cols(&mut self, v: u16)
        ensures
            *final(self) == (Size { cols: old(self).cols.saturating_sub(v), ..*old(self) }),
    {
        self.cols = self.cols.saturating_sub(v);
    }

    pub fn sub_rows(&mut self, v: u16)
        ensures
            *final(self) == (Size { rows: old(self).rows.saturating_sub(v), ..*old(self) }),
    {
        self.rows = self.rows.saturating_sub(v);
    }

    pub fn mul_cols(&mut self, v: u16)
        requires
            old(self).cols * v <= u16::MAX,
        ensures
            *final(self) == (Size { cols: (old(self).cols * v) as u16, ..*old(self) }),
    {
        self.cols = self.cols * v;
    }

    pub fn mul_rows(&mut self, v: u16)
        requires
            old(self).rows * v <= u16::MAX,
        ensures
            *final(self) == (Size { rows: (old(self).rows * v) as u16, ..*old(self) }),
    {
        self.rows = self.rows * v;
    }

    pub fn div_cols(&mut self, v: u16)
        requires
            v != 0,
        ensures
            *final(self) == (Size { cols: (old(self).cols / v) as u16, ..*old(self) }),
    {
        self.cols = self.cols / v;
    }

    pub fn div_rows(&mut self, v: u16)
        requires
            v != 0,
        ensures
            *final(self) == (Size { rows: (old(self).rows / v) as u16, ..*old(self) }),
    {
        self.rows = self.rows / v;
    }
}

/// How an inner extent is placed in an outer one along one axis.
pub open spec fn align_offset(kind: int, outer_start: int, outer_len: u16, inner_len: u16) -> int {
    if kind == 0 {
        outer_start
    } else if kind == 1 {
        outer_start + outer_len.saturating_sub(inner_len) / 2
    } else {
        outer_start + outer_len.saturating_sub(inner_len)
    }
}

#[derive(Debug, Clone, Copy, PartialEq, Eq, Structural)]
pub enum HorizontalAlignment {
    Left,
    Center,
    Right,
}

impl HorizontalAlignment {
    pub open spec fn kind(self) -> int {
        match self {
            HorizontalAlignment::Left => 0,
            HorizontalAlignment::Center => 1,
            HorizontalAlignment::Right => 2,
        }
    }

    pub open spec fn spec_calc(self, outer_x: u16, outer_width: u16, inner_width: u16) -> int {
        align_offset(self.kind(), outer_x as int, outer_width, inner_width)
    }

    /// The column at which an extent of `inner_width` starts inside
    /// `outer_width` columns that begin at `outer_x`.
    pub fn calc(self, outer_x: u16, outer_width: u16, inner_width: u16) -> (r: u16)
        requires
            self.spec_calc(outer_x, outer_width, inner_width) <= u16::MAX,
        ensures
            r == self.spec_calc(outer_x, outer_width, inner_width),
    {
        match self {
            HorizontalAlignment::Left => outer_x,
            HorizontalAlignment::Center => outer_x + outer_width.saturating_sub(inner_width) / 2,
            HorizontalAlignment::Right => outer_x + outer_width.saturating_sub(inner_width),
        }
    }
}

#[derive(Debug, Clone, Copy, PartialEq, Eq, Structural)]
pub enum VerticalAlignment {
    Top,
    Center,
    Bottom,
}

impl VerticalAlignment {
    pub open spec fn kind(self) -> int {
        match self {
            VerticalAlignment::Top => 0,
            VerticalAlignment::Center => 1,
            VerticalAlignment::Bottom => 2,
        }
    }

    pub open spec fn spec_calc(self, outer_y: u16, outer_height: u16, inner_height: u16) -> int {
        align_offset(self.kind(), outer_y as int, outer_height, inner_height)
    }

    /// The row at which an extent of `inner_height` starts inside
    /// `outer_height` rows that begin at `outer_y`.
    pub fn calc(self, outer_y: u16, outer_height: u16, inner_height: u16) -> (r: u16)
        requires
            self.spec_calc(outer_y, outer_height, inner_height) <= u16::MAX,
        ensures
            r == self.spec_calc(outer_y, outer_height, inner_height),
    {
        match self {
            VerticalAlignment::Top => outer_y,
            VerticalAlignment::Center => outer_y + outer_height.saturating_sub(inner_height) / 2,
            VerticalAlignment::Bottom => outer_y + outer_height.saturating_sub(inner_height),
        }
    }
}

/// Space kept free on each side of a rectangle.
#[derive(Debug, Clone, Copy, PartialEq, Eq, Structural)]
pub struct Margin {
    pub left: u16,
    pub right: u16,
    pub top: u16,
    pub bottom: u16,
}

impl Margin {
    /// No margin at all.
    pub fn zero() -> (r: Self)
        ensures
            r == (Margin { left: 0, right: 0, top: 0, bottom: 0 }),
    {
        Margin { left: 0, right: 0, top: 0, bottom: 0 }
    }

    pub fn new(left: u16, right: u16, top: u16, bottom: u16) -> (r: Self)
        ensures
            r == (Margin { left, right, top, bottom }),
    {
        Margin { left, right, top, bottom }
    }

    pub fn all(value: u16) -> (r: Self)
        ensures
            r == (Margin { left: value, right: value, top: value, bottom: value }),
    {
        Margin { left: value, right: value, top: value, bottom: value }
    }

    pub fn horizontal(value: u16) -> (r: Self)
        ensures
            r == (Margin { left: value, right: value, top: 0, bottom: 0 }),
    {
        Margin { left: value, right: value, top: 0, bottom: 0 }
    }

    pub fn vertical(value: u16) -> (r: Self)
        ensures
            r == (Margin { left: 0, right: 0, top: value, bottom: value }),
    {
        Margin { left: 0, right: 0, top: value, bottom: value }
    }

    pub fn symmetric(horizontal: u16, vertical: u16) -> (r: Self)
        ensures
            r == (Margin { left: horizontal, right: horizontal, top: vertical, bottom: vertical }),
    {
        Margin { left: horizontal, right: horizontal, top: vertical, bottom: vertical }
    }

    /// Twice as much margin left and right as on top and bottom, which looks
    /// even because terminal cells are about twice as tall as wide.
    pub fn proportional(value: u16) -> (r: Self)
        requires
            value * 2 <= u16::MAX,
        ensures
            r == (Margin {
                left: (value * 2) as u16,
                right: (value * 2) as u16,
                top: value,
                bottom: value,
            }),
    {
        Self::symmetric(value * 2, value)
    }

    pub fn left(value: u16) -> (r: Self)
        ensures
            r == (Margin { left: value, right: 0, top: 0, bottom: 0 }),
    {
        Margin { left: value, right: 0, top: 0, bottom: 0 }
    }

    pub fn right(value: u16) -> (r: Self)
        ensures
            r == (Margin { left: 0, right: value, top: 0, bottom: 0 }),
    {
        Margin { left: 0, right: value, top: 0, bottom: 0 }
    }

    pub fn top(value: u16) -> (r: Self)
        ensures
            r == (Margin { left: 0, right: 0, top: value, bottom: 0 }),
    {
        Margin { left: 0, right: 0, top: value, bottom: 0 }
    }

    pub fn bottom(value: u16) -> (r: Self)
        ensures
            r == (Margin { left: 0, right: 0, top: 0, bottom: value }),
    {
        Margin { left: 0, right: 0, top: 0, bottom: value }
    }

    pub fn with_left(self, value: u16) -> (r: Self)
        ensures
            r == (Margin { left: value, ..self }),
    {
        let mut s = self;
        s.left = value;
        s
    }

    pub fn with_right(self, value: u16) -> (r: Self)
        ensures
            r == (Margin { right: value, ..self }),
    {
        let mut s = self;
        s.right = value;
        s
    }

    pub fn with_top(self, value: u16) -> (r: Self)
        ensures
            r == (Margin { top: value, ..self }),
    {
        let mut s = self;
        s.top = value;
        s
    }

    pub fn with_bottom(self, value: u16) -> (r: Self)
        ensures
            r == (Margin { bottom: value, ..self }),
    {
        let mut s = self;
        s.bottom = value;
        s
    }
}

/// A rectangle of cells: a top-left position and a size.
#[derive(Debug, Clone, Copy, PartialEq, Eq, Structural)]
pub struct Rect {
    pub pos: Pos,
    pub size: Size,
}

impl Rect {
    pub fn new(pos: Pos, size: Size) -> (r: Self)
        ensures
            r.pos == pos,
            r.size == size,
    {
        Rect { pos, size }
    }

    pub fn with_pos(self, pos: Pos) -> (r: Self)
        ensures
            r == (Rect { pos, ..self }),
    {
        let mut s = self;
        s.pos = pos;
        s
    }

    pub fn with_col(self, col: u16) -> (r: Self)
        ensures
            r == (Rect { pos: Pos { col, ..self.pos }, ..self }),
    {
        let mut s = self;
        s.pos.col = col;
        s
    }

    pub fn with_row(self, row: u16) -> (r: Self)
        ensures
            r == (Rect { pos: Pos { row, ..self.pos }, ..self }),
    {
        let mut s = self;
        s.pos.row = row;
        s
    }

    pub fn with_size(self, size: Size) -> (r: Self)
        ensures
            r == (Rect { size, ..self }),
    {
        let mut s = self;
        s.size = size;
        s
    }

    pub fn with_cols(self, cols: u16) -> (r: Self)
        ensures
            r == (Rect { size: Size { cols, ..self.size }, ..self }),
    {
        let mut s = self;
        s.size.cols = cols;
        s
    }

    pub fn with_rows(self, rows: u16) -> (r: Self)
        ensures
            r == (Rect { size: Size { rows, ..self.size }, ..self }),
    {
        let mut s = self;
        s.size.rows = rows;
        s
    }

    pub fn is_empty(&self) -> (r: bool)
        ensures
            r == self.size.spec_is_empty(),
    {
        self.size.is_empty()
    }

    pub fn col(&self) -> (r: u16)
        ensures
            r == self.pos.col,
    {
        self.pos.col
    }

    pub fn row(&self) -> (r: u16)
        ensures
            r == self.pos.row,
    {
        self.pos.row
    }

    pub fn cols(&self) -> (r: u16)
        ensures
            r == self.size.cols,
    {
        self.size.cols
    }

    pub fn rows(&self) -> (r: u16)
        ensures
            r == self.size.rows,
    {
        self.size.rows
    }

    pub fn set_pos(&mut self, p: Pos)
        ensures
            *final(self) == (Rect { pos: p, ..*old(self) }),
    {
        self.pos = p;
    }

    pub fn set_col(&mut self, v: u16)
        ensures
            *final(self) == old(self).with_col_spec(v as int),
    {
        self.pos.col = v;
    }

    pub fn set_row(&mut self, v: u16)
        ensures
            *final(self) == old(self).with_row_spec(v as int),
    {
        self.pos.row = v;
    }

    pub fn set_cols(&mut self, v: u16)
        ensures
            *final(self) == old(self).with_cols_spec(v as int),
    {
        self.size.cols = v;
    }

    pub fn set_rows(&mut self, v: u16)
        ensures
            *final(self) == old(self).with_rows_spec(v as int),
    {
        self.size.rows = v;
    }

    pub fn set_size(&mut self, s: Size)
        ensures
            *final(self) == (Rect { size: s, ..*old(self) }),
    {
        self.size = s;
    }

    pub open spec fn with_col_spec(self, v: int) -> Rect {
        Rect { pos: Pos { col: v as u16, ..self.pos }, ..self }
    }

    pub open spec fn with_row_spec(self, v: int) -> Rect {
        Rect { pos: Pos { row: v as u16, ..self.pos }, ..self }
    }

    pub open spec fn with_cols_spec(self, v: int) -> Rect {
        Rect { size: Size { cols: v as u16, ..self.size }, ..self }
    }

    pub open spec fn with_rows_spec(self, v: int) -> Rect {
        Rect { size: Size { rows: v as u16, ..self.size }, ..self }
    }

    /// Computes the position moved by `p` and discards it, so the
    /// rectangle is left as it is.
    pub fn add_pos(&mut self, p: Pos)
        requires
            old(self).pos.col + p.col <= u16::MAX,
            old(self).pos.row + p.row <= u16::MAX,
        ensures
            *final(self) == *old(self),
    {
        let _ = self.pos.add(p);
    }

    pub fn add_col(&mut self, v: u16)
        requires
            old(self).pos.col + v <= u16::MAX,
        ensures
            *final(self) == old(self).with_col_spec(old(self).pos.col + v),
    {
        self.pos.add_col(v);
    }

    pub fn add_row(&mut self, v: u16)
        requires
            old(self).pos.row + v <= u16::MAX,
        ensures
            *final(self) == old(self).with_row_spec(old(self).pos.row + v),
    {
        self.pos.add_row(v);
    }

    /// Like `add_pos`, the difference is computed and discarded.
    pub fn sub_pos(&mut self, p: Pos)
        ensures
            *final(self) == *old(self),
    {
        let _ = self.pos.sub(p);
    }

    pub fn sub_col(&mut self, v: u16)
        ensures
            *final(self) == old(self).with_col_spec(old(self).pos.col.saturating_sub(v) as int),
    {
        self.pos.sub_col(v);
    }

    pub fn sub_row(&mut self, v: u16)
        ensures
            *final(self) == old(self).with_row_spec(old(self).pos.row.saturating_sub(v) as int),
    {
        self.pos.sub_row(v);
    }

    /// Like `add_pos`, the sum is computed and discarded.
    pub fn add_size(&mut self, s: Size)
        requires
            old(self).size.cols + s.cols <= u16::MAX,
            old(self).size.rows + s.rows <= u16::MAX,
        ensures
            *final(self) == *old(self),
    {
        let _ = self.size.add(s);
    }

    pub fn add_cols(&mut self, v: u16)
        requires
            old(self).size.cols + v <= u16::MAX,
        ensures
            *final(self) == old(self).with_cols_spec(old(self).size.cols + v),
    {
        self.size.add_cols(v);
    }

    pub fn add_rows(&mut self, v: u16)
        requires
            old(self).size.rows + v <= u16::MAX,
        ensures
            *final(self) == old(self).with_rows_spec(old(self).size.rows + v),
    {
        self.size.add_rows(v);
    }

    /// Like `add_pos`, the difference is computed and discarded.
    pub fn sub_size(&mut self, s: Size)
        ensures
            *final(self) == *old(self),
    {
        let _ = self.size.sub(s);
    }

    pub fn sub_cols(&mut self, v: u16)
        ensures
            *final(self) == old(self).with_cols_spec(old(self).size.cols.saturating_sub(v) as int),
    {
        self.size.sub_cols(v);
    }

    pub fn sub_rows(&mut self, v: u16)
        ensures
            *final(self) == old(self).with_rows_spec(old(self).size.rows.saturating_sub(v) as int),
    {
        self.size.sub_rows(v);
    }

    /// Moves the top edge down by `rows`, keeping the bottom edge where it is
    /// as far as the height allows.
    pub fn shrink_down(&mut self, rows: u16)
        requires
            old(self).pos.row + rows <= u16::MAX,
        ensures
            final(self).pos.row == old(self).pos.row + rows,
            final(self).pos.col == old(self).pos.col,
            final(self).size.rows == old(self).size.rows.saturating_sub(rows),
            final(self).size.cols == old(self).size.cols,
    {
        self.pos.row = self.pos.row + rows;
        self.size.rows = self.size.rows.saturating_sub(rows);
    }

    pub open spec fn spec_right_out(self) -> int {
        self.pos.col + self.size.cols
    }

    pub open spec fn spec_bottom_out(self) -> int {
        self.pos.row + self.size.rows
    }

    /// The first column right of the rectangle.
    pub fn right_out(&self) -> (r: u16)
        requires
            self.spec_right_out() <= u16::MAX,
        ensures
            r == self.spec_right_out(),
    {
        self.pos.col + self.size.cols
    }

    /// The last column of the rectangle (its left column when it has no width).
    pub fn right_col(&self) -> (r: u16)
        requires
            self.spec_right_out() <= u16::MAX,
        ensures
            r == (self.spec_right_out() as u16).saturating_sub(1),
    {
        self.right_out().saturating_sub(1)
    }

    /// The first row below the rectangle.
    pub fn bottom_out(&self) -> (r: u16)
        requires
            self.spec_bottom_out() <= u16::MAX,
        ensures
            r == self.spec_bottom_out(),
    {
        self.pos.row + self.size.rows
    }

    /// The last row of the rectangle (its top row when it has no height).
    pub fn bottom_row(&self) -> (r: u16)
        requires
            self.spec_bottom_out() <= u16::MAX,
        ensures
            r == (self.spec_bottom_out() as u16).saturating_sub(1),
    {
        self.bottom_out().saturating_sub(1)
    }

    pub fn right_bottom(&self) -> (r: Pos)
        requires
            self.spec_right_out() <= u16::MAX,
            self.spec_bottom_out() <= u16::MAX,
        ensures
            r.col == (self.spec_right_out() as u16).saturating_sub(1),
            r.row == (self.spec_bottom_out() as u16).saturating_sub(1),
    {
        Pos::new(self.right_col(), self.bottom_row())
    }

    pub open spec fn inner_fits(self, margin: Margin) -> bool {
        &&& self.pos.col + margin.left <= u16::MAX
        &&& self.pos.row + margin.top <= u16::MAX
        &&& margin.left + margin.right <= u16::MAX
        &&& margin.top + margin.bottom <= u16::MAX
    }

    pub open spec fn spec_inner(self, margin: Margin) -> Rect {
        Rect {
            pos: Pos {
                col: (self.pos.col + margin.left) as u16,
                row: (self.pos.row + margin.top) as u16,
            },
            size: Size {
                cols: self.size.cols.saturating_sub((margin.left + margin.right) as u16),
                rows: self.size.rows.saturating_sub((margin.top + margin.bottom) as u16),
            },
        }
    }

    /// The rectangle left inside `margin`.
    pub fn inner(self, margin: Margin) -> (r: Self)
        requires
            self.inner_fits(margin),
        ensures
            r == self.spec_inner(margin),
    {
        Rect {
            pos: Pos { col: self.pos.col + margin.left, row: self.pos.row + margin.top },
            size: Size {
                cols: self.size.cols.saturating_sub(margin.left + margin.right),
                rows: self.size.rows.saturating_sub(margin.top + margin.bottom),
            },
        }
    }

    pub fn align(self, outer: Self, horz: HorizontalAlignment, vert: VerticalAlignment) -> (r: Self)
        requires
            horz.spec_calc(outer.pos.col, outer.size.cols, self.size.cols) <= u16::MAX,
            vert.spec_calc(outer.pos.row, outer.size.rows, self.size.rows) <= u16::MAX,
        ensures
            r.size == self.size,
            r.pos.col == horz.spec_calc(outer.pos.col, outer.size.cols, self.size.cols),
            r.pos.row == vert.spec_calc(outer.pos.row, outer.size.rows, self.size.rows),
    {
        let mut s = self;
        s.pos.col = horz.calc(outer.pos.col, outer.size.cols, self.size.cols);
        s.pos.row = vert.calc(outer.pos.row, outer.size.rows, self.size.rows);
        s
    }

    pub fn align_horz(self, outer: Self, alignment: HorizontalAlignment) -> (r: Self)
        requires
            alignment.spec_calc(outer.pos.col, outer.size.cols, self.size.cols) <= u16::MAX,
        ensures
            r == self.with_col_spec(alignment.spec_calc(outer.pos.col, outer.size.cols, self.size.cols)),
    {
        let mut s = self;
        s.pos.col = alignment.calc(outer.pos.col, outer.size.cols, self.size.cols);
        s
    }

    pub fn align_vert(self, outer: Self, alignment: VerticalAlignment) -> (r: Self)
        requires
            alignment.spec_calc(outer.pos.row, outer.size.rows, self.size.rows) <= u16::MAX,
        ensures
            r == self.with_row_spec(alignment.spec_calc(outer.pos.row, outer.size.rows, self.size.rows)),
    {
        let mut s = self;
        s.pos.row = alignment.calc(outer.pos.row, outer.size.rows, self.size.rows);
        s
    }

    pub open spec fn spec_center_col(self, outer: Self) -> int {
        outer.pos.col + outer.size.cols.saturating_sub(self.size.cols) / 2
    }

    pub open spec fn spec_center_row(self, outer: Self) -> int {
        outer.pos.row + outer.size.rows.saturating_sub(self.size.rows) / 2
    }

    /// Places the rectangle in the middle of `outer`.
    pub fn center(self, outer: Self) -> (r: Self)
        requires
            self.spec_center_col(outer) <= u16::MAX,
            self.spec_center_row(outer) <= u16::MAX,
        ensures
            r.size == self.size,
            r.pos.col == self.spec_center_col(outer),
            r.pos.row == self.spec_center_row(outer),
    {
        self.align(outer, HorizontalAlignment::Center, VerticalAlignment::Center)
    }

    pub fn center_horz(self, outer: Self) -> (r: Self)
        requires
            self.spec_center_col(outer) <= u16::MAX,
        ensures
            r == self.with_col_spec(self.spec_center_col(outer)),
    {
        self.align_horz(outer, HorizontalAlignment::Center)
    }

    pub fn center_vert(self, outer: Self) -> (r: Self)
        requires
            self.spec_center_row(outer) <= u16::MAX,
        ensures
            r == self.with_row_spec(self.spec_center_row(outer)),
    {
        self.align_vert(outer, VerticalAlignment::Center)
    }

    /// Cuts the rectangle into a top half and the rest below it.
    pub fn split_horizontally(self) -> (r: (Self, Self))
        requires
            self.pos.row + self.size.rows / 2 <= u16::MAX,
        ensures
            r.0 == self.with_rows_spec(self.size.rows as int / 2),
            r.1.pos.col == self.pos.col,
            r.1.pos.row == self.pos.row + self.size.rows / 2,
            r.1.size.cols == self.size.cols,
            r.1.size.rows == self.size.rows - self.size.rows / 2,
    {
        let top_rows: u16 = self.size.rows / 2;
        (
            self.with_rows(top_rows),
            Rect {
                pos: self.pos.with_row(self.pos.row + top_rows),
                size: self.size.with_rows(self.size.rows - top_rows),
            },
        )
    }

    /// Cuts the rectangle into a left half and the rest right of it.
    pub fn split_vertically(self) -> (r: (Self, Self))
        requires
            self.pos.col + self.size.cols / 2 <= u16::MAX,
        ensures
            r.0 == self.with_cols_spec(self.size.cols as int / 2),
            r.1.pos.row == self.pos.row,
            r.1.pos.col == self.pos.col + self.size.cols / 2,
            r.1.size.rows == self.size.rows,
            r.1.size.cols == self.size.cols - self.size.cols / 2,
    {
        let left_cols: u16 = self.size.cols / 2;
        (
            self.with_cols(left_cols),
            Rect {
                pos: self.pos.with_col(self.pos.col + left_cols),
                size: self.size.with_cols(self.size.cols - left_cols),
            },
        )
    }

    /// Two halves of equal height with `1 + 2 * extra_gaps` rows between them.
    pub fn split_horizontally_with_gap(self, extra_gaps: u16) -> (r: (Self, Self))
        requires
            extra_gaps * 2 <= u16::MAX,
            self.pos.row + (self.size.rows / 2).saturating_sub(extra_gaps) + 1 + extra_gaps * 2
                <= u16::MAX,
        ensures
            r.0 == self.with_rows_spec((self.size.rows / 2).saturating_sub(extra_gaps) as int),
            r.1.pos.col == self.pos.col,
            r.1.pos.row == self.pos.row + (self.size.rows / 2).saturating_sub(extra_gaps) + 1
                + extra_gaps * 2,
            r.1.size.cols == self.size.cols,
            r.1.size.rows == (self.size.rows / 2).saturating_sub(extra_gaps),
    {
        let top_rows: u16 = (self.size.rows / 2).saturating_sub(extra_gaps);
        (
            self.with_rows(top_rows),
            Rect {
                pos: self.pos.with_row(self.pos.row + top_rows + 1 + extra_gaps * 2),
                size: self.size.with_rows(top_rows),
            },
        )
    }

    /// Two halves of equal width with `1 + 2 * extra_gaps` columns between them.
    pub fn split_vertically_with_gap(self, extra_gaps: u16) -> (r: (Self, Self))
        requires
            extra_gaps * 2 <= u16::MAX,
            self.pos.col + (self.size.cols / 2).saturating_sub(extra_gaps) + 1 + extra_gaps * 2
                <= u16::MAX,
        ensures
            r.0 == self.with_cols_spec((self.size.cols / 2).saturating_sub(extra_gaps) as int),
            r.1.pos.row == self.pos.row,
            r.1.pos.col == self.pos.col + (self.size.cols / 2).saturating_sub(extra_gaps) + 1
                + extra_gaps * 2,
            r.1.size.rows == self.size.rows,
            r.1.size.cols == (self.size.cols / 2).saturating_sub(extra_gaps),
    {
        let left_cols: u16 = (self.size.cols / 2).saturating_sub(extra_gaps);
        (
            self.with_cols(left_cols),
            Rect {
                pos: self.pos.with_col(self.pos.col + left_cols + 1 + extra_gaps * 2),
                size: self.size.with_cols(left_cols),
            },
        )
    }
}

/// The two halves of `split_horizontally` cover the rectangle exactly: the
/// second starts on the row after the first ends, and their heights add up.
pub proof fn lemma_split_horizontally_covers(r: Rect)
    requires
        r.pos.row + r.size.rows <= u16::MAX,
    ensures
        ({
            let top = r.with_rows_spec(r.size.rows as int / 2);
            let bottom_row = r.pos.row + r.size.rows / 2;
            let bottom_rows = r.size.rows - r.size.rows / 2;
            &&& top.spec_bottom_out() == bottom_row
            &&& top.size.rows + bottom_rows == r.size.rows
            &&& bottom_row + bottom_rows == r.spec_bottom_out()
        }),
{
}

/// The two halves of `split_vertically` cover the rectangle exactly.
pub proof fn lemma_split_vertically_covers(r: Rect)
    requires
        r.pos.col + r.size.cols <= u16::MAX,
    ensures
        ({
            let left = r.with_cols_spec(r.size.cols as int / 2);
            let right_col = r.pos.col + r.size.cols / 2;
            let right_cols = r.size.cols - r.size.cols / 2;
            &&& left.spec_right_out() == right_col
            &&& left.size.cols + right_cols == r.size.cols
            &&& right_col + right_cols == r.spec_right_out()
        }),
{
}

/// A zero margin leaves a rectangle as it is.
pub proof fn lemma_inner_zero_margin(r: Rect)
    ensures
        r.spec_inner(Margin { left: 0, right: 0, top: 0, bottom: 0 }) == r,
{
}

/// The rectangle inside a margin lies within the outer rectangle.
pub proof fn lemma_inner_within(r: Rect, m: Margin)
    requires
        r.inner_fits(m),
        r.pos.col + r.size.cols <= u16::MAX,
        r.pos.row + r.size.rows <= u16::MAX,
        m.left + m.right <= r.size.cols,
        m.top + m.bottom <= r.size.rows,
    ensures
        r.spec_inner(m).pos.col >= r.pos.col,
        r.spec_inner(m).pos.row >= r.pos.row,
        r.spec_inner(m).spec_right_out() + m.right == r.spec_right_out(),
        r.spec_inner(m).spec_bottom_out() + m.bottom == r.spec_bottom_out(),
{
}

/// An alignment never places a smaller extent outside the outer one.
pub proof fn lemma_align_within(kind: int, outer_start: int, outer_len: u16, inner_len: u16)
    requires
        inner_len <= outer_len,
    ensures
        outer_start <= align_offset(kind, outer_start, outer_len, inner_len),
        align_offset(kind, outer_start, outer_len, inner_len) + inner_len <= outer_start + outer_len,
{
}

/// Subtracting what was added gives the position back.
pub proof fn lemma_pos_add_sub(p: Pos, q: Pos)
    requires
        p.col + q.col <= u16::MAX,
        p.row + q.row <= u16::MAX,
    ensures
        ((p.col + q.col) as u16).saturating_sub(q.col) == p.col,
        ((p.row + q.row) as u16).saturating_sub(q.row) == p.row,
{
}
/// How much of a split's length one part takes.
#[derive(Debug, Clone, Copy, PartialEq, Eq, Structural)]
pub enum Constraint {
    /// Exactly this many cells.
    Fixed(u8),
    /// This percentage of what the fixed parts leave over.
    Percent(u8),
}

/// The cells that fixed parts claim, summed.
pub open spec fn fixed_total(cs: Seq<Constraint>) -> int
    decreases cs.len(),
{
    if cs.len() == 0 {
        0
    } else {
        fixed_total(cs.drop_last()) + match cs.last() {
            Constraint::Fixed(w) => w as int,
            Constraint::Percent(_) => 0,
        }
    }
}

/// What one constraint asks for, given what the fixed parts leave over.
pub open spec fn constraint_want(c: Constraint, remaining: int) -> int {
    match c {
        Constraint::Fixed(w) => w as int,
        Constraint::Percent(p) => (remaining * p) / 100,
    }
}

/// The width of each part: each takes what it wants, capped by what is
/// still available, and the available amount shrinks by what it wanted.
pub open spec fn split_parts(available: int, remaining: int, cs: Seq<Constraint>) -> Seq<u16>
    decreases cs.len(),
{
    if cs.len() == 0 {
        Seq::empty()
    } else {
        let want = constraint_want(cs[0], remaining);
        let w = if want < available { want } else { available };
        let rest = if available - want < 0 { 0 } else { available - want };
        seq![w as u16].add(split_parts(rest, remaining, cs.drop_first()))
    }
}

/// The gap cells between `n` parts, as the u16 arithmetic computes them.
pub open spec fn total_gap(gap: u16, n: nat) -> int {
    gap * ((if n == 0 { 0 } else { n - 1 }) as u16)
}

pub open spec fn split_available(width: u16, gap: u16, n: nat) -> int {
    width.saturating_sub(total_gap(gap, n) as u16) as int
}

pub open spec fn split_remaining(width: u16, gap: u16, cs: Seq<Constraint>) -> int {
    let a = split_available(width, gap, cs.len());
    if a - fixed_total(cs) < 0 { 0 } else { a - fixed_total(cs) }
}

/// When the u16 arithmetic of a split stays in range.
pub open spec fn split_fits(width: u16, gap: u16, cs: Seq<Constraint>) -> bool {
    &&& total_gap(gap, cs.len()) <= u16::MAX
    &&& fixed_total(cs) <= u16::MAX
    &&& forall|i: int|
        0 <= i < cs.len() ==> match #[trigger] cs[i] {
            Constraint::Fixed(_) => true,
            Constraint::Percent(p) => split_remaining(width, gap, cs) * p <= u16::MAX,
        }
}

pub open spec fn spec_split(width: u16, gap: u16, cs: Seq<Constraint>) -> Seq<u16> {
    split_parts(split_available(width, gap, cs.len()), split_remaining(width, gap, cs), cs)
}

proof fn lemma_fixed_total_prefix(cs: Seq<Constraint>, i: int)
    requires
        0 <= i < cs.len(),
    ensures
        fixed_total(cs.take(i + 1)) == fixed_total(cs.take(i)) + match cs[i] {
            Constraint::Fixed(w) => w as int,
            Constraint::Percent(_) => 0,
        },
        fixed_total(cs.take(i)) <= fixed_total(cs.take(i + 1)),
{
    assert(cs.take(i + 1).drop_last() =~= cs.take(i));
}

proof fn lemma_fixed_total_mono(cs: Seq<Constraint>, i: int)
    requires
        0 <= i <= cs.len(),
    ensures
        fixed_total(cs.take(i)) <= fixed_total(cs),
    decreases cs.len() - i,
{
    if i < cs.len() {
        lemma_fixed_total_prefix(cs, i);
        lemma_fixed_total_mono(cs, i + 1);
    } else {
        assert(cs.take(i) =~= cs);
    }
}

/// Splits `width` cells into parts with `gap` cells between neighbours.
pub fn split(width: u16, gap: u16, constraints: &[Constraint]) -> (r: Vec<u16>)
    requires
        split_fits(width, gap, constraints@),
    ensures
        r@ == spec_split(width, gap, constraints@),
{
    let n: usize = constraints.len();
    let n_minus: usize = n.saturating_sub(1);
    let total: u16 = gap * (n_minus as u16);
    let mut available: u16 = width.saturating_sub(total);
    let ghost available0: int = available as int;
    let mut sum: u16 = 0;
    let mut i: usize = 0;
    while i < n
        invariant
            n == constraints@.len(),
            i <= n,
            sum == fixed_total(constraints@.take(i as int)),
            fixed_total(constraints@) <= u16::MAX,
        decreases n - i,
    {
        proof {
            lemma_fixed_total_prefix(constraints@, i as int);
            lemma_fixed_total_mono(constraints@, i as int + 1);
        }
        let add: u16 = match constraints[i] {
            Constraint::Fixed(w) => w as u16,
            Constraint::Percent(_) => 0,
        };
        sum = sum + add;
        i = i + 1;
    }
    assert(constraints@.take(n as int) =~= constraints@);
    let remaining: u16 = available.saturating_sub(sum);
    let ghost cs = constraints@;
    let mut widths: Vec<u16> = Vec::new();
    let mut j: usize = 0;
    while j < n
        invariant
            n == cs.len(),
            cs == constraints@,
            j <= n,
            split_fits(width, gap, cs),
            remaining == split_remaining(width, gap, cs),
            available0 == split_available(width, gap, cs.len()),
            widths@ + split_parts(available as int, remaining as int, cs.skip(j as int))
                == split_parts(available0, remaining as int, cs),
        decreases n - j,
    {
        let ghost rest = cs.skip(j as int);
        assert(rest[0] == cs[j as int]);
        assert(rest.drop_first() =~= cs.skip(j as int + 1));
        let cw: u16 = match constraints[j] {
            Constraint::Fixed(w) => w as u16,
            Constraint::Percent(p) => {
                assert(remaining * p <= u16::MAX);
                (remaining * (p as u16)) / 100
            },
        };
        let w: u16 = if cw < available { cw } else { available };
        proof {
            assert(split_parts(available as int, remaining as int, rest) == seq![w].add(
                split_parts(available.saturating_sub(cw) as int, remaining as int, rest.drop_first()),
            ));
            assert(widths@.push(w) + split_parts(available.saturating_sub(cw) as int, remaining as int, cs.skip(j as int + 1))
                =~= widths@ + split_parts(available as int, remaining as int, rest));
        }
        available = available.saturating_sub(cw);
        widths.push(w);
        j = j + 1;
    }
    assert(cs.skip(n as int) =~= Seq::<Constraint>::empty());
    assert(widths@ =~= widths@ + split_parts(available as int, remaining as int, cs.skip(n as int)));
    widths
}

/// The widths of a split never add up to more than the cells left after
/// the gaps.
pub proof fn lemma_split_within_available(available: int, remaining: int, cs: Seq<Constraint>)
    requires
        0 <= available,
        0 <= remaining,
    ensures
        sum_widths(split_parts(available, remaining, cs)) <= available,
    decreases cs.len(),
{
    if cs.len() > 0 {
        let want = constraint_want(cs[0], remaining);
        let rest = if available - want < 0 { 0 } else { available - want };
        assert(want >= 0) by (nonlinear_arith)
            requires
                want == constraint_want(cs[0], remaining),
                remaining >= 0,
        {
        }
        lemma_split_within_available(rest, remaining, cs.drop_first());
        let s = split_parts(available, remaining, cs);
        lemma_sum_widths_first(s);
        assert(s.drop_first() == split_parts(rest, remaining, cs.drop_first()));
    }
}

pub open spec fn sum_widths(s: Seq<u16>) -> int
    decreases s.len(),
{
    if s.len() == 0 {
        0
    } else {
        s[0] + sum_widths(s.drop_first())
    }
}

proof fn lemma_sum_widths_first(s: Seq<u16>)
    requires
        s.len() > 0,
    ensures
        sum_widths(s) == s[0] + sum_widths(s.drop_first()),
{
}

/// A split has one part per constraint.
pub proof fn lemma_split_len(available: int, remaining: int, cs: Seq<Constraint>)
    ensures
        split_parts(available, remaining, cs).len() == cs.len(),
    decreases cs.len(),
{
    if cs.len() > 0 {
        let want = constraint_want(cs[0], remaining);
        let rest = if available - want < 0 { 0 } else { available - want };
        lemma_split_len(rest, remaining, cs.drop_first());
    }
}
/// Where each part of a split starts: the first at `start`, each next one a
/// gap after the previous part ends, never past `limit`.
pub open spec fn split_starts(start: int, limit: int, gap: int, ws: Seq<u16>) -> Seq<int>
    decreases ws.len(),
{
    if ws.len() == 0 {
        Seq::empty()
    } else {
        let next = start + ws[0] + gap;
        seq![start].add(split_starts(if next < limit { next } else { limit }, limit, gap, ws.drop_first()))
    }
}

/// The u16 arithmetic of a split's positions stays in range.
pub open spec fn split_starts_fit(start: int, limit: int, gap: int, ws: Seq<u16>) -> bool {
    forall|i: int| 0 <= i < ws.len() ==> #[trigger] split_starts(start, limit, gap, ws)[i] + ws[i] + gap <= u16::MAX
}

proof fn lemma_split_starts_len(start: int, limit: int, gap: int, ws: Seq<u16>)
    ensures
        split_starts(start, limit, gap, ws).len() == ws.len(),
    decreases ws.len(),
{
    if ws.len() > 0 {
        let next = start + ws[0] + gap;
        lemma_split_starts_len(if next < limit { next } else { limit }, limit, gap, ws.drop_first());
    }
}

/// The parts of a split start in order, never before the first and never
/// past the limit.
pub proof fn lemma_split_starts_ordered(start: int, limit: int, gap: int, ws: Seq<u16>, i: int, j: int)
    requires
        start <= limit,
        0 <= gap,
        0 <= i <= j < ws.len(),
    ensures
        start <= split_starts(start, limit, gap, ws)[i] <= split_starts(start, limit, gap, ws)[j] <= limit,
    decreases ws.len(),
{
    lemma_split_starts_len(start, limit, gap, ws);
    let next = start + ws[0] + gap;
    let n2 = if next < limit { next } else { limit };
    lemma_split_starts_len(n2, limit, gap, ws.drop_first());
    if i == 0 {
        if j > 0 {
            lemma_split_starts_ordered(n2, limit, gap, ws.drop_first(), 0, j - 1);
        }
    } else {
        lemma_split_starts_ordered(n2, limit, gap, ws.drop_first(), i - 1, j - 1);
    }
}

impl Rect {
    pub open spec fn spec_split_horizontal(self, gap: u16, cs: Seq<Constraint>) -> Seq<Rect> {
        let ws = spec_split(self.size.cols, gap, cs);
        let starts = split_starts(self.pos.col as int, self.spec_right_out(), gap as int, ws);
        Seq::new(cs.len(), |i: int| Rect {
            pos: Pos { col: starts[i] as u16, row: self.pos.row },
            size: Size { cols: ws[i], rows: self.size.rows },
        })
    }

    pub open spec fn spec_split_vertical(self, gap: u16, cs: Seq<Constraint>) -> Seq<Rect> {
        let hs = spec_split(self.size.rows, gap, cs);
        let starts = split_starts(self.pos.row as int, self.spec_bottom_out(), gap as int, hs);
        Seq::new(cs.len(), |i: int| Rect {
            pos: Pos { col: self.pos.col, row: starts[i] as u16 },
            size: Size { cols: self.size.cols, rows: hs[i] },
        })
    }

    /// Splits the rectangle into columns side by side, `gap` cells apart.
    pub fn split_horizontal(self, gap: u16, constraints: &[Constraint]) -> (r: Vec<Rect>)
        requires
            self.spec_right_out() <= u16::MAX,
            split_fits(self.size.cols, gap, constraints@),
            split_starts_fit(
                self.pos.col as int,
                self.spec_right_out(),
                gap as int,
                spec_split(self.size.cols, gap, constraints@),
            ),
        ensures
            r@ == self.spec_split_horizontal(gap, constraints@),
    {
        let right_out: u16 = self.right_out();
        let splits = split(self.size.cols, gap, constraints);
        let ghost ws = splits@;
        proof {
            lemma_split_len(
                split_available(self.size.cols, gap, constraints@.len()),
                split_remaining(self.size.cols, gap, constraints@),
                constraints@,
            );
            lemma_split_starts_len(self.pos.col as int, right_out as int, gap as int, ws);
        }
        let ghost starts = split_starts(self.pos.col as int, right_out as int, gap as int, ws);
        let mut col: u16 = self.pos.col;
        assert(ws.skip(0) =~= ws);
        assert(starts.skip(0) =~= starts);
        let mut rects: Vec<Rect> = Vec::new();
        let mut i: usize = 0;
        while i < splits.len()
            invariant
                ws == splits@,
                ws.len() == constraints@.len(),
                starts.len() == ws.len(),
                ws == spec_split(self.size.cols, gap, constraints@),
                starts == split_starts(self.pos.col as int, right_out as int, gap as int, ws),
                right_out == self.spec_right_out(),
                split_starts_fit(self.pos.col as int, right_out as int, gap as int, ws),
                i <= ws.len(),
                rects@.len() == i,
                split_starts(col as int, right_out as int, gap as int, ws.skip(i as int))
                    == starts.skip(i as int),
                forall|k: int| 0 <= k < i ==> rects@[k] == self.spec_split_horizontal(gap, constraints@)[k],
            decreases ws.len() - i,
        {
            let w: u16 = splits[i];
            assert(starts.skip(i as int)[0] == starts[i as int]);
            assert(ws.skip(i as int)[0] == ws[i as int]);
            assert(col == starts[i as int]);
            assert(starts[i as int] + ws[i as int] + gap <= u16::MAX);
            let r = Rect::new(Pos::new(col, self.pos.row), Size::new(w, self.size.rows));
            let next_col: u16 = col + w + gap;
            col = if next_col < right_out { next_col } else { right_out };
            assert(ws.skip(i as int).drop_first() =~= ws.skip(i as int + 1));
            assert(starts.skip(i as int).drop_first() =~= starts.skip(i as int + 1));
            rects.push(r);
            i = i + 1;
        }
        assert(rects@ =~= self.spec_split_horizontal(gap, constraints@));
        rects
    }

    /// Splits the rectangle into rows stacked top to bottom, `gap` cells apart.
    pub fn split_vertical(self, gap: u16, constraints: &[Constraint]) -> (r: Vec<Rect>)
        requires
            self.spec_bottom_out() <= u16::MAX,
            split_fits(self.size.rows, gap, constraints@),
            split_starts_fit(
                self.pos.row as int,
                self.spec_bottom_out(),
                gap as int,
                spec_split(self.size.rows, gap, constraints@),
            ),
        ensures
            r@ == self.spec_split_vertical(gap, constraints@),
    {
        let bottom_out: u16 = self.bottom_out();
        let splits = split(self.size.rows, gap, constraints);
        let ghost hs = splits@;
        proof {
            lemma_split_len(
                split_available(self.size.rows, gap, constraints@.len()),
                split_remaining(self.size.rows, gap, constraints@),
                constraints@,
            );
            lemma_split_starts_len(self.pos.row as int, bottom_out as int, gap as int, hs);
        }
        let ghost starts = split_starts(self.pos.row as int, bottom_out as int, gap as int, hs);
        let mut row: u16 = self.pos.row;
        assert(hs.skip(0) =~= hs);
        assert(starts.skip(0) =~= starts);
        let mut rects: Vec<Rect> = Vec::new();
        let mut i: usize = 0;
        while i < splits.len()
            invariant
                hs == splits@,
                hs.len() == constraints@.len(),
                starts.len() == hs.len(),
                hs == spec_split(self.size.rows, gap, constraints@),
                starts == split_starts(self.pos.row as int, bottom_out as int, gap as int, hs),
                bottom_out == self.spec_bottom_out(),
                split_starts_fit(self.pos.row as int, bottom_out as int, gap as int, hs),
                i <= hs.len(),
                rects@.len() == i,
                split_starts(row as int, bottom_out as int, gap as int, hs.skip(i as int))
                    == starts.skip(i as int),
                forall|k: int| 0 <= k < i ==> rects@[k] == self.spec_split_vertical(gap, constraints@)[k],
            decreases hs.len() - i,
        {
            let h: u16 = splits[i];
            assert(starts.skip(i as int)[0] == starts[i as int]);
            assert(hs.skip(i as int)[0] == hs[i as int]);
            assert(row == starts[i as int]);
            assert(starts[i as int] + hs[i as int] + gap <= u16::MAX);
            let r = Rect::new(Pos::new(self.pos.col, row), Size::new(self.size.cols, h));
            let next_row: u16 = row + h + gap;
            row = if next_row < bottom_out { next_row } else { bottom_out };
            assert(hs.skip(i as int).drop_first() =~= hs.skip(i as int + 1));
            assert(starts.skip(i as int).drop_first() =~= starts.skip(i as int + 1));
            rects.push(r);
            i = i + 1;
        }
        assert(rects@ =~= self.spec_split_vertical(gap, constraints@));
        rects
    }
}
/// Rounds a division up.
pub open spec fn ceil_div(a: int, b: int) -> int {
    if a % b == 0 { a / b } else { a / b + 1 }
}

fn div_ceil_u16(a: u16, b: u16) -> (r: u16)
    requires
        b != 0,
    ensures
        r == ceil_div(a as int, b as int),
{
    let q: u16 = a / b;
    if a % b == 0 {
        q
    } else {
        assert(q * b <= a) by (nonlinear_arith)
            requires
                q == a / b,
                b > 0,
        ;
        assert(q < a || b == 1) by (nonlinear_arith)
            requires
                q == a / b,
                b > 0,
                a % b != 0,
        ;
        q + 1
    }
}

/// The pixel dimensions of a single cell in the terminal.
#[derive(Debug, Clone, Copy, PartialEq, Eq, Structural)]
pub struct CellDims {
    pub width: u16,
    pub height: u16,
}

impl CellDims {
    /// Pixels across `cols` cells.
    pub fn width(&self, cols: u16) -> (r: u16)
        requires
            self.width * cols <= u16::MAX,
        ensures
            r == self.width * cols,
    {
        self.width * cols
    }

    /// Pixels down `rows` cells.
    pub fn height(&self, rows: u16) -> (r: u16)
        requires
            self.height * rows <= u16::MAX,
        ensures
            r == self.height * rows,
    {
        self.height * rows
    }

    /// Cells needed to show `width` pixels.
    pub fn cols(&self, width: u16) -> (r: u16)
        requires
            self.width != 0,
        ensures
            r == ceil_div(width as int, self.width as int),
    {
        div_ceil_u16(width, self.width)
    }

    /// Cells needed to show `height` pixels.
    pub fn rows(&self, height: u16) -> (r: u16)
        requires
            self.height != 0,
        ensures
            r == ceil_div(height as int, self.height as int),
    {
        div_ceil_u16(height, self.height)
    }

    /// Cells needed to show an image.
    pub fn size(&self, dims: ImageDims) -> (r: Size)
        requires
            self.width != 0,
            self.height != 0,
        ensures
            r.cols == ceil_div(dims.width as int, self.width as int),
            r.rows == ceil_div(dims.height as int, self.height as int),
    {
        Size { cols: self.cols(dims.width), rows: self.rows(dims.height) }
    }

    /// Pixels covered by a size in cells.
    pub fn dims(&self, size: Size) -> (r: ImageDims)
        requires
            self.width * size.cols <= u16::MAX,
            self.height * size.rows <= u16::MAX,
        ensures
            r.width == self.width * size.cols,
            r.height == self.height * size.rows,
    {
        ImageDims { width: self.width(size.cols), height: self.height(size.rows) }
    }
}

/// Converting cells to pixels and back gives the cells again.
pub proof fn lemma_cells_pixels_roundtrip(cell: u16, n: u16)
    requires
        cell > 0,
    ensures
        ceil_div(cell * n, cell as int) == n,
{
    assert((cell * n) % (cell as int) == 0 && (cell * n) / (cell as int) == n) by (nonlinear_arith)
        requires
            cell > 0,
    ;
}

/// The pixel dimensions of an image.
#[derive(Debug, Clone, Copy, PartialEq, Eq, Structural)]
pub struct ImageDims {
    pub width: u16,
    pub height: u16,
}

impl ImageDims {
    /// No pixels.
    pub fn zero() -> (r: Self)
        ensures
            r.width == 0 && r.height == 0,
    {
        ImageDims { width: 0, height: 0 }
    }

    pub fn new(width: u16, height: u16) -> (r: Self)
        ensures
            r.width == width,
            r.height == height,
    {
        ImageDims { width, height }
    }

    pub fn with_width(self, width: u16) -> (r: Self)
        ensures
            r == (ImageDims { width, ..self }),
    {
        let mut s = self;
        s.width = width;
        s
    }

    pub fn with_height(self, height: u16) -> (r: Self)
        ensures
            r == (ImageDims { height, ..self }),
    {
        let mut s = self;
        s.height = height;
        s
    }
}
impl From<(u16, u16)> for Pos {
    fn from(pair: (u16, u16)) -> (r: Self) {
        Pos { col: pair.0, row: pair.1 }
    }
}

impl vstd::std_specs::convert::FromSpecImpl<(u16, u16)> for Pos {
    open spec fn obeys_from_spec() -> bool {
        true
    }

    open spec fn from_spec(v: (u16, u16)) -> Self {
        Pos { col: v.0, row: v.1 }
    }
}

impl From<(u32, u32)> for ImageDims {
    fn from(pair: (u32, u32)) -> (r: Self) {
        ImageDims { width: pair.0 as u16, height: pair.1 as u16 }
    }
}

impl vstd::std_specs::convert::FromSpecImpl<(u32, u32)> for ImageDims {
    open spec fn obeys_from_spec() -> bool {
        true
    }

    open spec fn from_spec(v: (u32, u32)) -> Self {
        ImageDims { width: v.0 as u16, height: v.1 as u16 }
    }
}

impl core::ops::Add for Pos {
    type Output = Pos;

    fn add(self, rhs: Pos) -> (r: Pos) {
        Pos { col: self.col + rhs.col, row: self.row + rhs.row }
    }
}

impl vstd::std_specs::ops::AddSpecImpl for Pos {
    open spec fn obeys_add_spec() -> bool {
        true
    }

    open spec fn add_req(self, rhs: Pos) -> bool {
        self.col + rhs.col <= u16::MAX && self.row + rhs.row <= u16::MAX
    }

    open spec fn add_spec(self, rhs: Pos) -> Pos {
        Pos { col: (self.col + rhs.col) as u16, row: (self.row + rhs.row) as u16 }
    }
}

impl core::ops::Add<u16> for Pos {
    type Output = Pos;

    fn add(self, rhs: u16) -> (r: Pos) {
        Pos { col: self.col + rhs, row: self.row + rhs }
    }
}

impl vstd::std_specs::ops::AddSpecImpl<u16> for Pos {
    open spec fn obeys_add_spec() -> bool {
        true
    }

    open spec fn add_req(self, rhs: u16) -> bool {
        self.col + rhs <= u16::MAX && self.row + rhs <= u16::MAX
    }

    open spec fn add_spec(self, rhs: u16) -> Pos {
        Pos { col: (self.col + rhs) as u16, row: (self.row + rhs) as u16 }
    }
}

/// The `+` of two sizes: its rows take the right operand's columns, not its rows.
impl core::ops::Add for Size {
    type Output = Size;

    fn add(self, rhs: Size) -> (r: Size) {
        Size { cols: self.cols + rhs.cols, rows: self.rows + rhs.cols }
    }
}

impl vstd::std_specs::ops::AddSpecImpl for Size {
    open spec fn obeys_add_spec() -> bool {
        true
    }

    open spec fn add_req(self, rhs: Size) -> bool {
        self.cols + rhs.cols <= u16::MAX && self.rows + rhs.cols <= u16::MAX
    }

    open spec fn add_spec(self, rhs: Size) -> Size {
        Size { cols: (self.cols + rhs.cols) as u16, rows: (self.rows + rhs.cols) as u16 }
    }
}

impl core::ops::Add<u16> for Size {
    type Output = Size;

    fn add(self, rhs: u16) -> (r: Size) {
        Size { cols: self.cols + rhs, rows: self.rows + rhs }
    }
}

impl vstd::std_specs::ops::AddSpecImpl<u16> for Size {
    open spec fn obeys_add_spec() -> bool {
        true
    }

    open spec fn add_req(self, rhs: u16) -> bool {
        self.cols + rhs <= u16::MAX && self.rows + rhs <= u16::MAX
    }

    open spec fn add_spec(self, rhs: u16) -> Size {
        Size { cols: (self.cols + rhs) as u16, rows: (self.rows + rhs) as u16 }
    }
}

impl core::ops::Add<(u16, u16)> for Size {
    type Output = Size;

    fn add(self, rhs: (u16, u16)) -> (r: Size) {
        Size { cols: self.cols + rhs.0, rows: self.rows + rhs.1 }
    }
}

impl vstd::std_specs::ops::AddSpecImpl<(u16, u16)> for Size {
    open spec fn obeys_add_spec() -> bool {
        true
    }

    open spec fn add_req(self, rhs: (u16, u16)) -> bool {
        self.cols + rhs.0 <= u16::MAX && self.rows + rhs.1 <= u16::MAX
    }

    open spec fn add_spec(self, rhs: (u16, u16)) -> Size {
        Size { cols: (self.cols + rhs.0) as u16, rows: (self.rows + rhs.1) as u16 }
    }
}

impl core::ops::Div<u16> for Size {
    type Output = Size;

    fn div(self, rhs: u16) -> (r: Size) {
        Size { cols: self.cols / rhs, rows: self.rows / rhs }
    }
}

impl vstd::std_specs::ops::DivSpecImpl<u16> for Size {
    open spec fn obeys_div_spec() -> bool {
        true
    }

    open spec fn div_req(self, rhs: u16) -> bool {
        rhs != 0
    }

    open spec fn div_spec(self, rhs: u16) -> Size {
        Size { cols: (self.cols / rhs) as u16, rows: (self.rows / rhs) as u16 }
    }
}

impl core::ops::Div<(u16, u16)> for Size {
    type Output = Size;

    fn div(self, rhs: (u16, u16)) -> (r: Size) {
        Size { cols: self.cols / rhs.0, rows: self.rows / rhs.1 }
    }
}

impl vstd::std_specs::ops::DivSpecImpl<(u16, u16)> for Size {
    open spec fn obeys_div_spec() -> bool {
        true
    }

    open spec fn div_req(self, rhs: (u16, u16)) -> bool {
        rhs.0 != 0 && rhs.1 != 0
    }

    open spec fn div_spec(self, rhs: (u16, u16)) -> Size {
        Size { cols: (self.cols / rhs.0) as u16, rows: (self.rows / rhs.1) as u16 }
    }
}

} // verus!
