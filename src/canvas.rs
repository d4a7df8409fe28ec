use crate::grid::{lemma_cell_index, Grid};
use crate::pixel::Pixel;
use vstd::prelude::*;

verus! {

/// A pixel buffer of fixed dimensions, every cell addressed by `(x, y)`
/// with `x < width` and `y < height`.
pub struct Canvas {
    dimensions: (usize, usize),
    color_buffer: Vec<Pixel>,
}

impl View for Canvas {
    type V = Grid;

    closed spec fn view(&self) -> Grid {
        Grid {
            width: self.dimensions.0 as nat,
            height: self.dimensions.1 as nat,
            cells: self.color_buffer@,
        }
    }
}

impl Canvas {
    #[verifier::type_invariant]
    spec fn well_formed(&self) -> bool {
        self.color_buffer.len() == self.dimensions.0 * self.dimensions.1
    }

    /// A canvas of `width` by `height` cells, all black. Its cells take three
    /// bytes each, which must fit in memory.
    pub fn new(width: usize, height: usize) -> (c: Canvas)
        requires
            3 * width * height <= isize::MAX,
        ensures
            c@.width == width,
            c@.height == height,
            forall|x: int, y: int| c@.contains(x, y) ==> #[trigger] c@.at(x, y) == (Pixel { r: 0, g: 0, b: 0 }),
    {
        assert(width * height <= isize::MAX) by (nonlinear_arith)
            requires
                3 * width * height <= isize::MAX,
        ;
        let n: usize = width * height;
        let mut color_buffer: Vec<Pixel> = Vec::with_capacity(n);
        let mut i: usize = 0;
        while i < n
            invariant
                i <= n,
                color_buffer.len() == i,
                forall|j: int| 0 <= j < i ==> #[trigger] color_buffer@[j] == (Pixel { r: 0, g: 0, b: 0 }),
            decreases n - i,
        {
            color_buffer.push(Pixel::black());
            i = i + 1;
        }
        let c = Canvas { dimensions: (width, height), color_buffer };
        assert forall|x: int, y: int| c@.contains(x, y) implies #[trigger] c@.at(x, y) == (Pixel { r: 0, g: 0, b: 0 }) by {
            lemma_cell_index(x, y, width as int, height as int);
        }
        c
    }

    /// The number of columns.
    pub fn width(&self) -> (w: usize)
        ensures
            w == self@.width,
    {
        self.dimensions.0
    }

    /// The number of rows.
    pub fn height(&self) -> (h: usize)
        ensures
            h == self@.height,
    {
        self.dimensions.1
    }

    /// The pixel at `(x, y)`.
    pub fn get(&self, x: usize, y: usize) -> (p: Pixel)
        requires
            self@.contains(x as int, y as int),
        ensures
            p == self@.at(x as int, y as int),
    {
        proof {
            use_type_invariant(self);
            lemma_cell_index(x as int, y as int, self.dimensions.0 as int, self.dimensions.1 as int);
        }
        self.color_buffer[y * self.dimensions.0 + x]
    }

    /// Sets the pixel at `(x, y)` to `color`, leaving every other cell as it was.
    pub fn set(&mut self, x: usize, y: usize, color: Pixel)
        requires
            old(self)@.contains(x as int, y as int),
        ensures
            final(self)@ == old(self)@.with(x as int, y as int, color),
        no_unwind
    {
        proof {
            use_type_invariant(&*self);
            lemma_cell_index(x as int, y as int, self.dimensions.0 as int, self.dimensions.1 as int);
        }
        let i: usize = y * self.dimensions.0 + x;
        self.color_buffer[i] = color;
        assert(self.color_buffer@ =~= old(self)@.with(x as int, y as int, color).cells);
    }
}

} // verus!
