use crate::image::Image;
use crate::grid::lemma_with_at;
use crate::pixel::Pixel;
use vstd::prelude::*;

verus! {

/// The rows climbed and the error term before step `k` of a line drawn `dx`
/// columns to the right and `dy` rows down: each step adds `2 * dy` to the
/// error and, once it is no longer negative, climbs a row and takes `2 * dx` off.
pub open spec fn line_state(dx: int, dy: int, k: nat) -> (int, int)
    decreases k,
{
    if k == 0 {
        (0, 2 * dy - dx)
    } else {
        let (t, e) = line_state(dx, dy, (k - 1) as nat);
        if e + 2 * dy >= 0 {
            (t + 1, e + 2 * dy - 2 * dx)
        } else {
            (t, e + 2 * dy)
        }
    }
}

/// Whether the line from `(x1, y1)` towards `(x2, y2)` covers `(x, y)`: one
/// pixel in each column from `x1` up to, not including, `x2`.
pub open spec fn on_line(x1: int, y1: int, x2: int, y2: int, x: int, y: int) -> bool {
    x1 <= x < x2 && y == y1 + line_state(x2 - x1, y2 - y1, (x - x1) as nat).0
}

/// The error term is tied to the rows climbed, stays at or above `-2 * dx`,
/// and at most one row is climbed per step.
proof fn lemma_line_state(dx: int, dy: int, k: nat)
    requires
        dx > 0,
        dy >= 0,
    ensures
        line_state(dx, dy, k).1 == 2 * dy * (k + 1) - dx - 2 * dx * line_state(dx, dy, k).0,
        line_state(dx, dy, k).1 >= -2 * dx,
        0 <= line_state(dx, dy, k).0 <= k,
    decreases k,
{
    if k > 0 {
        let j = (k - 1) as nat;
        lemma_line_state(dx, dy, j);
        let t = line_state(dx, dy, j).0;
        let e = line_state(dx, dy, j).1;
        assert(e == 2 * dy * k - dx - 2 * dx * t);
        assert(2 * dy * (k + 1) == 2 * dy * k + 2 * dy) by (nonlinear_arith);
        assert(2 * dx * (t + 1) == 2 * dx * t + 2 * dx) by (nonlinear_arith);
        if e + 2 * dy >= 0 {
            assert(line_state(dx, dy, k) == (t + 1, e + 2 * dy - 2 * dx));
        } else {
            assert(line_state(dx, dy, k) == (t, e + 2 * dy));
        }
    } else {
        assert(2 * dy * (k + 1) == 2 * dy && 2 * dx * 0 == 0) by (nonlinear_arith)
            requires
                k == 0,
        ;
    }
}

/// Before each step of a line whose `dx` steps are drawn, at most `dy` rows have been
/// climbed, and the error term is at most `2 * dy * dx`.
proof fn lemma_line_bounds(dx: int, dy: int, k: nat)
    requires
        dx > 0,
        dy >= 0,
        k < dx,
    ensures
        line_state(dx, dy, k).0 <= dy,
        line_state(dx, dy, k).1 <= 2 * dy * dx,
{
    lemma_line_state(dx, dy, k);
    let t = line_state(dx, dy, k).0;
    let e = line_state(dx, dy, k).1;
    assert(t <= dy) by (nonlinear_arith)
        requires
            e == 2 * dy * (k + 1) - dx - 2 * dx * t,
            e >= -2 * dx,
            dx > 0,
            dy >= 0,
            0 <= k < dx,
    ;
    assert(e <= 2 * dy * dx) by (nonlinear_arith)
        requires
            e == 2 * dy * (k + 1) - dx - 2 * dx * t,
            t >= 0,
            dx > 0,
            dy >= 0,
            0 <= k < dx,
    ;
}

/// Drawing primitives on an [`Image`].
pub struct Rasterizer;

impl Rasterizer {
    /// Sets every pixel of `image` to `color`.
    pub fn clear(image: &mut Image, color: Pixel)
        ensures
            final(image)@.width == old(image)@.width,
            final(image)@.height == old(image)@.height,
            forall|x: int, y: int| final(image)@.contains(x, y) ==> #[trigger] final(image)@.at(x, y) == color,
    {
        image.fill(color);
    }

    /// Sets the pixel at `(x, y)` to `color`.
    pub fn draw_point(image: &mut Image, x: usize, y: usize, color: Pixel)
        requires
            old(image)@.contains(x as int, y as int),
        ensures
            final(image)@ == old(image)@.with(x as int, y as int, color),
    {
        image.set(x, y, color);
    }

    /// Draws the line from `(x1, y1)` towards `(x2, y2)` with Bresenham's
    /// algorithm: one pixel in each column from `x1` up to, not including, `x2`,
    /// the row climbing from `y1` as the error term allows. Every other pixel
    /// is left as it was.
    pub fn draw_line(image: &mut Image, x1: usize, y1: usize, x2: usize, y2: usize, color: Pixel)
        requires
            x1 <= x2 <= old(image)@.width,
            y1 <= y2,
            x1 < x2 ==> y2 < old(image)@.height,
        ensures
            final(image)@.width == old(image)@.width,
            final(image)@.height == old(image)@.height,
            forall|x: int, y: int| #[trigger] final(image)@.contains(x, y) ==> final(image)@.at(x, y) == if on_line(
                x1 as int,
                y1 as int,
                x2 as int,
                y2 as int,
                x,
                y,
            ) {
                color
            } else {
                old(image)@.at(x, y)
            },
    {
        if x1 == x2 {
            return;
        }
        let (w, h) = image.dimensions();
        let ghost dx: int = x2 - x1;
        let ghost dy: int = y2 - y1;
        proof {
            assert(2 * dy * (dx + 1) <= 4 * w * h) by (nonlinear_arith)
                requires
                    0 < dx <= w,
                    0 <= dy < h,
            ;
            assert(4 * dy <= 2 * dy * (dx + 1)) by (nonlinear_arith)
                requires
                    dx >= 1,
                    dy >= 0,
            ;
            assert(4 * dx <= 4 * w * h) by (nonlinear_arith)
                requires
                    0 < dx <= w,
                    h >= 1,
            ;
        }
        let m_new: isize = 2 * (y2 - y1) as isize;
        let mut slope_error_new: isize = m_new - (x2 - x1) as isize;
        let mut y: usize = y1;
        let mut x: usize = x1;
        while x < x2
            invariant
                x1 <= x <= x2,
                x1 < x2,
                y1 <= y2,
                dx == x2 - x1,
                dy == y2 - y1,
                w == old(image)@.width,
                h == old(image)@.height,
                x2 <= w,
                y2 < h,
                2 * dy * (dx + 1) <= isize::MAX,
                4 * dx <= isize::MAX,
                m_new == 2 * dy,
                y == y1 + line_state(dx, dy, (x - x1) as nat).0,
                slope_error_new == line_state(dx, dy, (x - x1) as nat).1,
                image@.width == w,
                image@.height == h,
                forall|u: int, v: int| #[trigger] image@.contains(u, v) ==> image@.at(u, v) == if x1 <= u < x
                    && v == y1 + line_state(dx, dy, (u - x1) as nat).0 {
                    color
                } else {
                    old(image)@.at(u, v)
                },
            decreases x2 - x,
        {
            let ghost k = (x - x1) as nat;
            proof {
                lemma_line_state(dx, dy, k);
                lemma_line_bounds(dx, dy, k);
                assert(2 * dy * dx + 2 * dy == 2 * dy * (dx + 1)) by (nonlinear_arith);
            }
            let ghost before = image@;
            image.set(x, y, color);
            proof {
                assert forall|u: int, v: int| #[trigger] image@.contains(u, v) implies image@.at(u, v) == if x1 <= u
                    < x + 1 && v == y1 + line_state(dx, dy, (u - x1) as nat).0 {
                    color
                } else {
                    old(image)@.at(u, v)
                } by {
                    lemma_with_at(before, x as int, y as int, color, u, v);
                }
            }
            slope_error_new = slope_error_new + m_new;
            if slope_error_new >= 0 {
                y = y + 1;
                slope_error_new = slope_error_new - 2 * (x2 - x1) as isize;
            }
            x = x + 1;
        }
    }
}

} // verus!
