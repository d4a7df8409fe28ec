use crate::canvas::Canvas;
use crate::grid::{lemma_row_major_index, Grid};
use crate::pixel::Pixel;
use vstd::prelude::*;

verus! {

/// ASCII `'0'`.
pub const DIGIT_ZERO: u8 = 48;

/// ASCII `' '`.
pub const SPACE: u8 = 32;

/// ASCII `'\n'`.
pub const NEWLINE: u8 = 10;

/// ASCII `'P'`, the first byte of the PPM magic number `P3`.
pub const MAGIC_P: u8 = 80;

/// ASCII `'3'`, the second byte of the PPM magic number `P3`.
pub const MAGIC_3: u8 = 51;

/// Pixels on each line of pixel data.
pub const PIXELS_PER_LINE: usize = 5;

/// The largest channel value, written in the header.
pub const MAX_CHANNEL: usize = 255;

/// The ASCII decimal digits of `n`, most significant first, without leading zeros.
pub open spec fn decimal(n: nat) -> Seq<u8>
    decreases n,
{
    if n < 10 {
        seq![(DIGIT_ZERO + n) as u8]
    } else {
        decimal(n / 10) + seq![(DIGIT_ZERO + n % 10) as u8]
    }
}

/// The PPM header: `P3`, the dimensions, and the maximum channel value 255, one per line.
pub open spec fn ppm_header(width: nat, height: nat) -> Seq<u8> {
    seq![MAGIC_P, MAGIC_3, NEWLINE] + decimal(width) + seq![SPACE] + decimal(height) + seq![NEWLINE]
        + decimal(MAX_CHANNEL as nat) + seq![NEWLINE]
}

/// The text of the pixel at row-major position `i`: its three channels in
/// decimal, then a newline after the last pixel of each line and a space after the others.
pub open spec fn ppm_pixel(p: Pixel, i: nat) -> Seq<u8> {
    decimal(p.r as nat) + seq![SPACE] + decimal(p.g as nat) + seq![SPACE] + decimal(p.b as nat)
        + if i % PIXELS_PER_LINE as nat == PIXELS_PER_LINE - 1 { seq![NEWLINE] } else { seq![SPACE] }
}

/// The text of a row-major run of pixels.
pub open spec fn ppm_data(pixels: Seq<Pixel>) -> Seq<u8>
    decreases pixels.len(),
{
    if pixels.len() == 0 {
        seq![]
    } else {
        ppm_data(pixels.drop_last()) + ppm_pixel(pixels.last(), (pixels.len() - 1) as nat)
    }
}

/// A whole plain-text PPM (`P3`) file for a grid.
pub open spec fn ppm_bytes(g: Grid) -> Seq<u8> {
    ppm_header(g.width, g.height) + ppm_data(g.row_major())
}

/// Encoding as a plain-text PPM (`P3`) image.
pub trait PPM {
    /// The bytes of the encoded file.
    spec fn ppm_file(&self) -> Seq<u8>;

    /// The encoded file.
    fn to_ppm(&self) -> (bytes: Vec<u8>)
        ensures
            bytes@ == self.ppm_file(),
    ;
}

/// Appends the decimal digits of `n`.
fn push_decimal(out: &mut Vec<u8>, n: usize)
    ensures
        final(out)@ == old(out)@ + decimal(n as nat),
    decreases n,
{
    if n >= 10 {
        push_decimal(out, n / 10);
    }
    out.push(DIGIT_ZERO + (n % 10) as u8);
}

/// Appends the text of pixel `p` at row-major position `i`, given the count of
/// pixels already on its line, and returns the count after it.
fn push_ppm_pixel(out: &mut Vec<u8>, p: Pixel, count: usize, Ghost(i): Ghost<nat>) -> (next: usize)
    requires
        count == i % PIXELS_PER_LINE as nat,
    ensures
        final(out)@ == old(out)@ + ppm_pixel(p, i),
        next == (i + 1) % PIXELS_PER_LINE as nat,
{
    push_decimal(out, p.r as usize);
    out.push(SPACE);
    push_decimal(out, p.g as usize);
    out.push(SPACE);
    push_decimal(out, p.b as usize);
    if count < PIXELS_PER_LINE - 1 {
        out.push(SPACE);
        assert(out@ =~= old(out)@ + ppm_pixel(p, i));
        count + 1
    } else {
        out.push(NEWLINE);
        assert(out@ =~= old(out)@ + ppm_pixel(p, i));
        0
    }
}

/// One more pixel adds its text to the end.
proof fn lemma_ppm_data_step(pixels: Seq<Pixel>, k: int)
    requires
        0 <= k < pixels.len(),
    ensures
        ppm_data(pixels.take(k + 1)) == ppm_data(pixels.take(k)) + ppm_pixel(pixels[k], k as nat),
{
    assert(pixels.take(k + 1).drop_last() =~= pixels.take(k));
}

impl PPM for Canvas {
    open spec fn ppm_file(&self) -> Seq<u8> {
        ppm_bytes(self@)
    }

    fn to_ppm(&self) -> (bytes: Vec<u8>) {
        let ghost g = self@;
        let ghost pixels = g.row_major();
        let w: usize = self.width();
        let h: usize = self.height();
        let mut out: Vec<u8> = Vec::new();
        out.push(MAGIC_P);
        out.push(MAGIC_3);
        out.push(NEWLINE);
        push_decimal(&mut out, w);
        out.push(SPACE);
        push_decimal(&mut out, h);
        out.push(NEWLINE);
        push_decimal(&mut out, MAX_CHANNEL);
        out.push(NEWLINE);
        assert(out@ =~= ppm_header(g.width, g.height) + ppm_data(pixels.take(0)));
        let mut count: usize = 0;
        let mut y: usize = 0;
        while y < h
            invariant
                g == self@,
                pixels == g.row_major(),
                w == g.width,
                h == g.height,
                y <= h,
                count == (y * w) % PIXELS_PER_LINE as int,
                y * w <= pixels.len(),
                out@ == ppm_header(g.width, g.height) + ppm_data(pixels.take(y * w)),
            decreases h - y,
        {
            let mut x: usize = 0;
            while x < w
                invariant
                    g == self@,
                    pixels == g.row_major(),
                    w == g.width,
                    h == g.height,
                    y < h,
                    x <= w,
                    count == (y * w + x) % PIXELS_PER_LINE as int,
                    y * w + x <= pixels.len(),
                    out@ == ppm_header(g.width, g.height) + ppm_data(pixels.take(y * w + x)),
                decreases w - x,
            {
                let ghost k = y * w + x;
                proof {
                    lemma_row_major_index(g, x as int, y as int);
                }
                let p = self.get(x, y);
                count = push_ppm_pixel(&mut out, p, count, Ghost(k as nat));
                proof {
                    lemma_ppm_data_step(pixels, k);
                }
                x = x + 1;
            }
            proof {
                assert((y + 1) * w == y * w + w) by (nonlinear_arith);
                assert((y + 1) * w <= w * h) by (nonlinear_arith)
                    requires
                        y + 1 <= h,
                ;
            }
            y = y + 1;
        }
        assert(pixels.take(h * w) =~= pixels) by {
            assert(h * w == w * h) by (nonlinear_arith);
        }
        out
    }
}

} // verus!
