//! A small software-rendering kernel: 8-bit pixels, pixel buffers with
//! bounds-checked access, a line rasterizer, PPM and BMP encoders, and the
//! row / column layout conversion of square matrices.

pub mod bmp;
pub mod canvas;
pub mod grid;
pub mod image;
pub mod layout;
pub mod pixel;
pub mod ppm;
pub mod rasterizer;

pub use bmp::BMP;
pub use canvas::Canvas;
pub use grid::Grid;
pub use image::Image;
pub use layout::transpose;
pub use pixel::Pixel;
pub use ppm::PPM;
pub use rasterizer::Rasterizer;
