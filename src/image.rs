use crate::grid::{lemma_cell_index, Grid};
use crate::pixel::{pack_bytes, Pixel};
use vstd::prelude::*;

verus! {

/// The word `0xAARRGGBB` of a pixel, fully opaque.
pub open spec fn argb(p: Pixel) -> u32 {
    pack_bytes(0xFF, p.r, p.g, p.b) as u32
}

/// A pixel buffer that also keeps each pixel packed as an `0xAARRGGBB` word,
/// ready to hand to a display surface.
pub struct Image {
    dimensions: (usize, usize),
    color_buffer: Vec<Pixel>,
    image_buffer: Vec<u32>,
}

impl View for Image {
    type V = Grid;

    closed spec fn view(&self) -> Grid {
        Grid {
            width: self.dimensions.0 as nat,
            height: self.dimensions.1 as nat,
            cells: self.color_buffer@,
        }
    }
}

impl Image {
    #[verifier::type_invariant]
    spec fn well_formed(&self) -> bool {
        &&& self.color_buffer.len() == self.dimensions.0 * self.dimensions.1
        &&& self.image_buffer.len() == self.color_buffer.len()
        &&& 4 * self.dimensions.0 * self.dimensions.1 <= isize::MAX
        &&& forall|i: int| 0 <= i < self.image_buffer.len() ==> #[trigger] self.image_buffer@[i] == argb(self.color_buffer@[i])
    }

    /// An image of `width` by `height` pixels, all black. Its packed words
    /// take `4 * width * height` bytes, which must fit in memory.
    pub fn new(width: usize, height: usize) -> (img: Image)
        requires
            4 * width * height <= isize::MAX,
        ensures
            img@.width == width,
            img@.height == height,
            forall|x: int, y: int| img@.contains(x, y) ==> #[trigger] img@.at(x, y) == (Pixel { r: 0, g: 0, b: 0 }),
    {
        assert(width * height <= isize::MAX) by (nonlinear_arith)
            requires
                4 * width * height <= isize::MAX,
        ;
        let n: usize = width * height;
        let black = Pixel::black();
        let word = black.to_argb();
        let mut color_buffer: Vec<Pixel> = Vec::with_capacity(n);
        let mut image_buffer: Vec<u32> = Vec::with_capacity(n);
        let mut i: usize = 0;
        while i < n
            invariant
                i <= n,
                black == (Pixel { r: 0, g: 0, b: 0 }),
                word == argb(black),
                color_buffer.len() == i,
                image_buffer.len() == i,
                forall|j: int| 0 <= j < i ==> #[trigger] color_buffer@[j] == black,
                forall|j: int| 0 <= j < i ==> #[trigger] image_buffer@[j] == word,
            decreases n - i,
        {
            color_buffer.push(black);
            image_buffer.push(word);
            i = i + 1;
        }
        let img = Image { dimensions: (width, height), color_buffer, image_buffer };
        assert forall|x: int, y: int| img@.contains(x, y) implies #[trigger] img@.at(x, y) == (Pixel { r: 0, g: 0, b: 0 }) by {
            lemma_cell_index(x, y, width as int, height as int);
        }
        img
    }

    /// The number of columns.
    pub fn width(&self) -> (w: usize)
        ensures
            w == self@.width,
    {
        self.dimensions.0
    }

    /// The number of rows.
    pub fn height(&self) -> (h: usize)
        ensures
            h == self@.height,
    {
        self.dimensions.1
    }

    /// The number of columns and of rows. The packed words of an image take
    /// `4 * width * height` bytes, which fit in memory.
    pub fn dimensions(&self) -> (d: (usize, usize))
        ensures
            d.0 == self@.width,
            d.1 == self@.height,
            4 * self@.width * self@.height <= isize::MAX,
    {
        proof {
            use_type_invariant(self);
        }
        self.dimensions
    }

    /// The pixel at `(x, y)`.
    pub fn get(&self, x: usize, y: usize) -> (p: Pixel)
        requires
            self@.contains(x as int, y as int),
        ensures
            p == self@.at(x as int, y as int),
    {
        proof {
            use_type_invariant(self);
            lemma_cell_index(x as int, y as int, self.dimensions.0 as int, self.dimensions.1 as int);
        }
        self.color_buffer[y * self.dimensions.0 + x]
    }

    /// Sets the pixel at `(x, y)` to `color`, and its packed word with it,
    /// leaving every other cell as it was.
    pub fn set(&mut self, x: usize, y: usize, color: Pixel)
        requires
            old(self)@.contains(x as int, y as int),
        ensures
            final(self)@ == old(self)@.with(x as int, y as int, color),
    {
        proof {
            use_type_invariant(&*self);
            lemma_cell_index(x as int, y as int, self.dimensions.0 as int, self.dimensions.1 as int);
        }
        let i: usize = y * self.dimensions.0 + x;
        let word = color.to_argb();
        let mut taken = Image { dimensions: (0, 0), color_buffer: Vec::new(), image_buffer: Vec::new() };
        std::mem::swap(self, &mut taken);
        let Image { dimensions, mut color_buffer, mut image_buffer } = taken;
        color_buffer.set(i, color);
        image_buffer.set(i, word);
        *self = Image { dimensions, color_buffer, image_buffer };
        assert(self.color_buffer@ =~= old(self)@.with(x as int, y as int, color).cells);
    }

    /// Sets every pixel to `color`.
    pub fn fill(&mut self, color: Pixel)
        ensures
            final(self)@.width == old(self)@.width,
            final(self)@.height == old(self)@.height,
            forall|x: int, y: int| final(self)@.contains(x, y) ==> #[trigger] final(self)@.at(x, y) == color,
    {
        proof {
            use_type_invariant(&*self);
        }
        let (width, height) = self.dimensions;
        let n: usize = self.color_buffer.len();
        let word = color.to_argb();
        let mut color_buffer: Vec<Pixel> = Vec::with_capacity(n);
        let mut image_buffer: Vec<u32> = Vec::with_capacity(n);
        let mut i: usize = 0;
        while i < n
            invariant
                i <= n,
                word == argb(color),
                color_buffer.len() == i,
                image_buffer.len() == i,
                forall|j: int| 0 <= j < i ==> #[trigger] color_buffer@[j] == color,
                forall|j: int| 0 <= j < i ==> #[trigger] image_buffer@[j] == word,
            decreases n - i,
        {
            color_buffer.push(color);
            image_buffer.push(word);
            i = i + 1;
        }
        *self = Image { dimensions: (width, height), color_buffer, image_buffer };
        assert forall|x: int, y: int| final(self)@.contains(x, y) implies #[trigger] final(self)@.at(x, y) == color by {
            lemma_cell_index(x, y, width as int, height as int);
        }
    }

    /// The packed `0xAARRGGBB` words of all pixels, in row-major order.
    pub fn as_u32_slice(&self) -> (words: &[u32])
        ensures
            words@.len() == self@.width * self@.height,
            forall|x: int, y: int| self@.contains(x, y) ==> #[trigger] words@[y * self@.width + x] == argb(self@.at(x, y)),
    {
        proof {
            use_type_invariant(self);
            assert forall|x: int, y: int| self@.contains(x, y) implies #[trigger] self.image_buffer@[y * self@.width + x] == argb(self@.at(x, y)) by {
                lemma_cell_index(x, y, self.dimensions.0 as int, self.dimensions.1 as int);
            }
        }
        self.image_buffer.as_slice()
    }
}

} // verus!
