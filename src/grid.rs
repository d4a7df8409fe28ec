use crate::pixel::Pixel;
use vstd::prelude::*;

verus! {

/// What a pixel buffer holds: its dimensions and its cells in row-major
/// order, the cell of `(x, y)` at index `y * width + x`.
pub struct Grid {
    pub width: nat,
    pub height: nat,
    pub cells: Seq<Pixel>,
}

impl Grid {
    /// Whether `(x, y)` names a cell of the grid.
    pub open spec fn contains(self, x: int, y: int) -> bool {
        0 <= x < self.width && 0 <= y < self.height
    }

    /// The pixel at column `x` of row `y`.
    pub open spec fn at(self, x: int, y: int) -> Pixel {
        self.cells[y * self.width + x]
    }

    /// The pixels in row-major order: row 0 left to right, then row 1, and so on.
    pub open spec fn row_major(self) -> Seq<Pixel> {
        Seq::new(self.width * self.height, |i: int| self.at(i % self.width as int, i / self.width as int))
    }

    /// The grid with the cell of `(x, y)` replaced by `p`.
    pub open spec fn with(self, x: int, y: int, p: Pixel) -> Grid {
        Grid {
            width: self.width,
            height: self.height,
            cells: Seq::new(
                self.width * self.height,
                |i: int| if i == y * self.width + x { p } else { self.cells[i] },
            ),
        }
    }
}

/// A cell inside a `width` by `height` grid has a row-major index below `width * height`.
pub proof fn lemma_cell_index(x: int, y: int, width: int, height: int)
    requires
        0 <= x < width,
        0 <= y < height,
    ensures
        0 <= y * width + x < width * height,
{
    assert(0 <= y * width) by (nonlinear_arith)
        requires 0 <= y, 0 <= width;
    assert(y * width + x < width * height) by (nonlinear_arith)
        requires 0 <= x < width, 0 <= y < height;
}

/// The row-major position of a cell holds that cell.
pub proof fn lemma_row_major_index(g: Grid, x: int, y: int)
    requires
        g.contains(x, y),
    ensures
        0 <= y * g.width + x < g.row_major().len(),
        g.row_major()[y * g.width + x] == g.at(x, y),
{
    lemma_cell_index(x, y, g.width as int, g.height as int);
    vstd::arithmetic::div_mod::lemma_fundamental_div_mod_converse(y * g.width + x, g.width as int, y, x);
    assert(y * g.width == g.width * y) by (nonlinear_arith);
}

/// Replacing one cell changes that cell and no other.
pub proof fn lemma_with_at(g: Grid, x: int, y: int, p: Pixel, u: int, v: int)
    requires
        g.contains(x, y),
        g.contains(u, v),
    ensures
        g.with(x, y, p).width == g.width,
        g.with(x, y, p).height == g.height,
        g.with(x, y, p).at(u, v) == if u == x && v == y { p } else { g.at(u, v) },
{
    let w = g.width as int;
    lemma_cell_index(x, y, w, g.height as int);
    lemma_cell_index(u, v, w, g.height as int);
    if v * w + u == y * w + x {
        vstd::arithmetic::div_mod::lemma_fundamental_div_mod_converse(y * w + x, w, y, x);
        vstd::arithmetic::div_mod::lemma_fundamental_div_mod_converse(v * w + u, w, v, u);
        assert(y * w == w * y && v * w == w * v) by (nonlinear_arith);
    }
}

} // verus!
