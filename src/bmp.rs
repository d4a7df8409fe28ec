use crate::canvas::Canvas;
use crate::grid::{lemma_row_major_index, Grid};
use crate::pixel::Pixel;
use byteorder::{ByteOrder, LittleEndian};
use vstd::prelude::*;

verus! {

/// Size in bytes of the BMP file header.
pub const FILE_HEADER_SIZE: u32 = 14;

/// Size in bytes of the BITMAPINFOHEADER that follows the file header.
pub const INFO_HEADER_SIZE: u32 = 40;

/// Bits per pixel: one byte each of alpha, red, green and blue.
pub const BITS_PER_PIXEL: u16 = 32;

/// Bytes per pixel.
pub const BYTES_PER_PIXEL: usize = 4;

/// The alpha byte written with every pixel: fully opaque.
pub const OPAQUE: u8 = 0xFF;

/// The two bytes of `n`, least significant first.
pub open spec fn le_u16(n: u16) -> Seq<u8> {
    seq![(n % 0x100) as u8, (n / 0x100) as u8]
}

/// The four bytes of `n`, least significant first.
pub open spec fn le_u32(n: u32) -> Seq<u8> {
    seq![(n % 0x100) as u8, (n / 0x100 % 0x100) as u8, (n / 0x1_0000 % 0x100) as u8, (n / 0x100_0000) as u8]
}

/// The four bytes of `n` in two's complement, least significant first.
pub open spec fn le_i32(n: i32) -> Seq<u8> {
    le_u32((if n < 0 { n + 0x1_0000_0000 } else { n as int }) as u32)
}

/// Relies on byteorder's `LittleEndian::write_u16`: it stores the two bytes of `n`,
/// least significant first, in a buffer of exactly two bytes.
#[verifier::external_body]
fn le_u16_bytes(n: u16) -> (b: [u8; 2])
    ensures
        b@ == le_u16(n),
{
    let mut b = [0u8; 2];
    LittleEndian::write_u16(&mut b, n);
    b
}

/// Relies on byteorder's `LittleEndian::write_u32`: it stores the four bytes of `n`,
/// least significant first, in a buffer of exactly four bytes.
#[verifier::external_body]
fn le_u32_bytes(n: u32) -> (b: [u8; 4])
    ensures
        b@ == le_u32(n),
{
    let mut b = [0u8; 4];
    LittleEndian::write_u32(&mut b, n);
    b
}

/// Relies on byteorder's `LittleEndian::write_i32`: it stores the four bytes of `n`
/// in two's complement, least significant first, in a buffer of exactly four bytes.
#[verifier::external_body]
fn le_i32_bytes(n: i32) -> (b: [u8; 4])
    ensures
        b@ == le_i32(n),
{
    let mut b = [0u8; 4];
    LittleEndian::write_i32(&mut b, n);
    b
}

/// Whether a `width` by `height` image fits the format's 32-bit size and dimension fields.
pub open spec fn bmp_fits(width: nat, height: nat) -> bool {
    &&& width <= i32::MAX
    &&& height <= i32::MAX
    &&& FILE_HEADER_SIZE + INFO_HEADER_SIZE + BYTES_PER_PIXEL * width * height <= u32::MAX
}

/// The 14-byte file header followed by the 40-byte BITMAPINFOHEADER of a
/// 32-bit uncompressed `width` by `height` image.
pub open spec fn bmp_header(width: nat, height: nat) -> Seq<u8> {
    let data_size = BYTES_PER_PIXEL * width * height;
    seq![0x42u8, 0x4Du8]
        + le_u32((FILE_HEADER_SIZE + INFO_HEADER_SIZE + data_size) as u32)
        + le_u32(0)
        + le_u32((FILE_HEADER_SIZE + INFO_HEADER_SIZE) as u32)
        + le_u32(INFO_HEADER_SIZE)
        + le_i32(width as i32)
        + le_i32(height as i32)
        + le_u16(1)
        + le_u16(BITS_PER_PIXEL)
        + le_u32(0)
        + le_u32(data_size as u32)
        + le_i32(0)
        + le_i32(0)
        + le_u32(0)
        + le_u32(0)
}

/// The four bytes of one pixel: alpha (opaque), red, green, blue.
pub open spec fn bmp_pixel(p: Pixel) -> Seq<u8> {
    seq![OPAQUE, p.r, p.g, p.b]
}

/// The bytes of a run of pixels, in the order given.
pub open spec fn bmp_data(pixels: Seq<Pixel>) -> Seq<u8>
    decreases pixels.len(),
{
    if pixels.len() == 0 {
        seq![]
    } else {
        bmp_data(pixels.drop_last()) + bmp_pixel(pixels.last())
    }
}

/// A whole BMP file for a grid: the headers, then the pixels in row-major order,
/// top row first.
pub open spec fn bmp_bytes(g: Grid) -> Seq<u8> {
    bmp_header(g.width, g.height) + bmp_data(g.row_major())
}

/// Encoding as an uncompressed 32-bit BMP image.
pub trait BMP {
    /// Whether the image fits the format's size fields.
    spec fn bmp_encodable(&self) -> bool;

    /// The bytes of the encoded file.
    spec fn bmp_file(&self) -> Seq<u8>;

    /// The encoded file.
    fn to_bmp(&self) -> (bytes: Vec<u8>)
        requires
            self.bmp_encodable(),
        ensures
            bytes@ == self.bmp_file(),
    ;
}

fn push_u16(out: &mut Vec<u8>, n: u16)
    ensures
        final(out)@ == old(out)@ + le_u16(n),
{
    let b = le_u16_bytes(n);
    out.push(b[0]);
    out.push(b[1]);
    assert(out@ =~= old(out)@ + le_u16(n));
}

fn push_u32(out: &mut Vec<u8>, n: u32)
    ensures
        final(out)@ == old(out)@ + le_u32(n),
{
    let b = le_u32_bytes(n);
    out.push(b[0]);
    out.push(b[1]);
    out.push(b[2]);
    out.push(b[3]);
    assert(out@ =~= old(out)@ + le_u32(n));
}

fn push_i32(out: &mut Vec<u8>, n: i32)
    ensures
        final(out)@ == old(out)@ + le_i32(n),
{
    let b = le_i32_bytes(n);
    out.push(b[0]);
    out.push(b[1]);
    out.push(b[2]);
    out.push(b[3]);
    assert(out@ =~= old(out)@ + le_i32(n));
}

/// The two header blocks of a `width` by `height` image.
fn push_bmp_header(out: &mut Vec<u8>, width: usize, height: usize)
    requires
        bmp_fits(width as nat, height as nat),
    ensures
        final(out)@ == old(out)@ + bmp_header(width as nat, height as nat),
{
    assert(width * height * BYTES_PER_PIXEL <= u32::MAX && width * height <= u32::MAX) by (nonlinear_arith)
        requires
            BYTES_PER_PIXEL * width * height <= u32::MAX,
            BYTES_PER_PIXEL == 4,
    ;
    let data_size: usize = width * height * BYTES_PER_PIXEL;
    assert(data_size == BYTES_PER_PIXEL * width * height) by (nonlinear_arith)
        requires data_size == width * height * BYTES_PER_PIXEL;
    let file_size: usize = (FILE_HEADER_SIZE + INFO_HEADER_SIZE) as usize + data_size;
    out.push(0x42);
    out.push(0x4D);
    push_u32(out, file_size as u32);
    push_u32(out, 0);
    push_u32(out, FILE_HEADER_SIZE + INFO_HEADER_SIZE);
    push_u32(out, INFO_HEADER_SIZE);
    push_i32(out, width as i32);
    push_i32(out, height as i32);
    push_u16(out, 1);
    push_u16(out, BITS_PER_PIXEL);
    push_u32(out, 0);
    push_u32(out, data_size as u32);
    push_i32(out, 0);
    push_i32(out, 0);
    push_u32(out, 0);
    push_u32(out, 0);
    assert(out@ =~= old(out)@ + bmp_header(width as nat, height as nat));
}

/// One more pixel adds its bytes to the end.
proof fn lemma_bmp_data_step(pixels: Seq<Pixel>, k: int)
    requires
        0 <= k < pixels.len(),
    ensures
        bmp_data(pixels.take(k + 1)) == bmp_data(pixels.take(k)) + bmp_pixel(pixels[k]),
{
    assert(pixels.take(k + 1).drop_last() =~= pixels.take(k));
}

impl BMP for Canvas {
    open spec fn bmp_encodable(&self) -> bool {
        bmp_fits(self@.width, self@.height)
    }

    open spec fn bmp_file(&self) -> Seq<u8> {
        bmp_bytes(self@)
    }

    fn to_bmp(&self) -> (bytes: Vec<u8>) {
        let ghost g = self@;
        let ghost pixels = g.row_major();
        let w: usize = self.width();
        let h: usize = self.height();
        let mut out: Vec<u8> = Vec::new();
        push_bmp_header(&mut out, w, h);
        assert(out@ =~= bmp_header(g.width, g.height) + bmp_data(pixels.take(0)));
        let mut y: usize = 0;
        while y < h
            invariant
                g == self@,
                pixels == g.row_major(),
                w == g.width,
                h == g.height,
                y <= h,
                y * w <= pixels.len(),
                out@ == bmp_header(g.width, g.height) + bmp_data(pixels.take(y * w)),
            decreases h - y,
        {
            let mut x: usize = 0;
            while x < w
                invariant
                    g == self@,
                    pixels == g.row_major(),
                    w == g.width,
                    h == g.height,
                    y < h,
                    x <= w,
                    y * w + x <= pixels.len(),
                    out@ == bmp_header(g.width, g.height) + bmp_data(pixels.take(y * w + x)),
                decreases w - x,
            {
                let ghost k = y * w + x;
                proof {
                    lemma_row_major_index(g, x as int, y as int);
                    lemma_bmp_data_step(pixels, k);
                }
                let p = self.get(x, y);
                out.push(OPAQUE);
                out.push(p.r);
                out.push(p.g);
                out.push(p.b);
                assert(out@ =~= bmp_header(g.width, g.height) + bmp_data(pixels.take(k + 1)));
                x = x + 1;
            }
            proof {
                assert((y + 1) * w == y * w + w) by (nonlinear_arith);
                assert((y + 1) * w <= w * h) by (nonlinear_arith)
                    requires
                        y + 1 <= h,
                ;
            }
            y = y + 1;
        }
        assert(pixels.take(h * w) =~= pixels) by {
            assert(h * w == w * h) by (nonlinear_arith);
        }
        out
    }
}

} // verus!
