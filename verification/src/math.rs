//! Positions and rectangles on the screen grid.
use vstd::prelude::*;

verus! {

/// Width of the screen, in cells.
pub const W: i32 = 130;

/// Height of the screen, in cells.
pub const H: i32 = 80;

/// A position on the screen grid: `i` is the row, `j` the column.
#[derive(Clone, Copy, PartialEq, Eq, Debug)]
pub struct Pos {
    pub i: i32,
    pub j: i32,
}

/// Whether the cell (`i`, `j`) lies in the rectangle with top left corner
/// (`ri`, `rj`), `w` columns wide and `h` rows high.
pub open spec fn spec_inside(i: int, j: int, ri: int, rj: int, w: int, h: int) -> bool {
    ri <= i < ri + h && rj <= j < rj + w
}

impl Pos {
    pub fn new(i: i32, j: i32) -> (r: Self)
        ensures
            r.i == i,
            r.j == j,
    {
        Pos { i, j }
    }

    /// The position of the point (`x`, `y`): column `x`, row `y`.
    pub fn from_xy(xy: (i32, i32)) -> (r: Self)
        ensures
            r.i == xy.1,
            r.j == xy.0,
    {
        Pos { i: xy.1, j: xy.0 }
    }

    /// Whether the position lies in `r`.
    pub fn inside(&self, r: &Rect) -> (b: bool)
        requires
            i32::MIN <= r.pos.i + r.size.h <= i32::MAX,
            i32::MIN <= r.pos.j + r.size.w <= i32::MAX,
        ensures
            b == spec_inside(
                self.i as int,
                self.j as int,
                r.pos.i as int,
                r.pos.j as int,
                r.size.w as int,
                r.size.h as int,
            ),
    {
        !(self.i < r.pos.i || self.i >= r.pos.i + r.size.h || self.j < r.pos.j || self.j >= r.pos.j
            + r.size.w)
    }
}

/// A width and a height, in cells.
#[derive(Debug, Clone, Copy, PartialEq, Eq)]
pub struct Size {
    pub w: i32,
    pub h: i32,
}

impl Size {
    pub fn new(w: i32, h: i32) -> (r: Self)
        ensures
            r.w == w,
            r.h == h,
    {
        Size { w, h }
    }
}

/// A rectangle of cells: its top left corner and its size. A single cell is a
/// rectangle of size (1, 1).
#[derive(Debug, Clone, Copy, PartialEq, Eq)]
pub struct Rect {
    pub pos: Pos,
    pub size: Size,
}

/// Half of `x`, rounded toward zero, as integer division does.
pub open spec fn half(x: int) -> int {
    if x >= 0 {
        x / 2
    } else {
        -((-x) / 2)
    }
}

impl Rect {
    pub fn new(i: i32, j: i32, w: i32, h: i32) -> (r: Self)
        ensures
            r.pos.i == i,
            r.pos.j == j,
            r.size.w == w,
            r.size.h == h,
    {
        Rect { pos: Pos { i, j }, size: Size { w, h } }
    }

    /// The rectangle of size (`w`, `h`) in the middle of the screen.
    pub fn centered(w: i32, h: i32) -> (r: Self)
        ensures
            r.pos.i == H / 2 - half(h as int),
            r.pos.j == W / 2 - half(w as int),
            r.size.w == w,
            r.size.h == h,
    {
        Rect { pos: Pos { i: H / 2 - h / 2, j: W / 2 - w / 2 }, size: Size { w, h } }
    }

    /// The last row of the rectangle.
    pub fn bottom(&self) -> (r: i32)
        requires
            i32::MIN + 1 <= self.pos.i + self.size.h <= i32::MAX,
        ensures
            r == self.pos.i + self.size.h - 1,
    {
        self.pos.i + self.size.h - 1
    }

    /// The first column of the rectangle.
    pub fn left(&self) -> (r: i32)
        ensures
            r == self.pos.j,
    {
        self.pos.j
    }
}

/// Whether `mouse` lies on `rect` or on the frame drawn around it: two rows
/// above, one row below, and one column on each side.
pub fn inside_consider_border(mouse: &Pos, rect: &Rect) -> (b: bool)
    requires
        i32::MIN + 2 <= rect.pos.i,
        i32::MIN + 1 <= rect.pos.j,
        rect.size.w + 2 <= i32::MAX,
        rect.size.h + 3 <= i32::MAX,
        i32::MIN <= rect.pos.i + rect.size.h + 1 <= i32::MAX,
        i32::MIN <= rect.pos.j + rect.size.w + 1 <= i32::MAX,
    ensures
        b == spec_inside(
            mouse.i as int,
            mouse.j as int,
            rect.pos.i - 2,
            rect.pos.j - 1,
            rect.size.w + 2,
            rect.size.h + 3,
        ),
{
    mouse.inside(&Rect::new(rect.pos.i - 2, rect.pos.j - 1, rect.size.w + 2, rect.size.h + 3))
}

} // verus!
