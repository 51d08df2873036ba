//! Pixels on their way to the texture uploader.
//!
//! An image comes from the decoder with its first row on top; the uploader
//! wants the bottom row first. What leaves this module says how the
//! uploader is to sample the texture it makes.

use vstd::prelude::*;
use crate::error::LoadError;

verus! {

/// Decoded pixels, four bytes each (red, green, blue, alpha), row after
/// row from the top.
pub struct Image {
    pub pixels: Vec<u8>,
    pub width: u32,
    pub height: u32,
}

/// How the bytes of a pixel are laid out.
#[derive(Clone, Copy, Debug, PartialEq, Eq, Structural)]
pub enum Layout {
    /// Three bytes: red, green, blue.
    Rgb,
    /// Four bytes: red, green, blue, alpha.
    Rgba,
}

/// How a texture is sampled.
#[derive(Clone, Copy, Debug, PartialEq, Eq, Structural)]
pub enum Sampling {
    /// Nothing is set: the texture keeps what the uploader gives a new one.
    Untouched,
    /// Both axes clamp to the border, magnification is linear,
    /// minification is linear between mipmaps, and the mipmaps are
    /// generated.
    Trilinear,
}

/// One texture for the uploader to make.
pub struct Upload {
    pub pixels: Vec<u8>,
    pub width: u32,
    pub height: u32,
    pub layout: Layout,
    pub sampling: Sampling,
}

/// What an `Upload` holds.
pub struct UploadView {
    pub pixels: Seq<u8>,
    pub width: u32,
    pub height: u32,
    pub layout: Layout,
    pub sampling: Sampling,
}

impl View for Upload {
    type V = UploadView;

    open spec fn view(&self) -> UploadView {
        UploadView {
            pixels: self.pixels@,
            width: self.width,
            height: self.height,
            layout: self.layout,
            sampling: self.sampling,
        }
    }
}

/// The pixels fill `width` times `height` places of four bytes.
pub open spec fn fits(pixels: Seq<u8>, width: u32, height: u32) -> bool {
    pixels.len() == 4 * width * height
}

/// The rows of `pixels` in the opposite order: byte `i` of the result lies
/// in row `i / (4 * width)`, and is taken from the same place in the row as
/// far from the bottom as that one is from the top.
pub open spec fn flipped(pixels: Seq<u8>, width: u32, height: u32) -> Seq<u8> {
    Seq::new(
        pixels.len(),
        |i: int| pixels[(height - 1 - i / (4 * width)) * (4 * width) + i % (4 * width)],
    )
}

/// The texture that the pixels of `image` become.
pub open spec fn texture_of(pixels: Seq<u8>, width: u32, height: u32) -> UploadView {
    UploadView {
        pixels: flipped(pixels, width, height),
        width,
        height,
        layout: Layout::Rgba,
        sampling: Sampling::Trilinear,
    }
}

/// One opaque white pixel, which leaves what it is multiplied with as it
/// is.
pub open spec fn white_pixel() -> UploadView {
    UploadView {
        pixels: seq![255u8, 255u8, 255u8],
        width: 1,
        height: 1,
        layout: Layout::Rgb,
        sampling: Sampling::Untouched,
    }
}

/// Calls `image::imageops::flip_vertical` on an `image::RgbaImage` made of
/// the pixels by `ImageBuffer::from_raw`, and hands out the buffer of the
/// result. Trusted: the result has as many bytes as the input, and the
/// pixel at column `x` of row `y` is the input's pixel at column `x` of
/// row `height - 1 - y`.
#[verifier::external_body]
fn flip_rows(pixels: Vec<u8>, width: u32, height: u32) -> (out: Vec<u8>)
    requires
        fits(pixels@, width, height),
    ensures
        out@ == flipped(pixels@, width, height),
{
    match image::RgbaImage::from_raw(width, height, pixels) {
        Some(picture) => image::imageops::flip_vertical(&picture).into_raw(),
        None => Vec::new(),
    }
}

/// Tells whether the pixels fill the width and height.
pub fn check_layout(pixels: &Vec<u8>, width: u32, height: u32) -> (r: bool)
    ensures
        r == fits(pixels@, width, height),
{
    assert(width * height <= 0xffff_ffff * 0xffff_ffff) by (nonlinear_arith)
        requires
            width <= 0xffff_ffff,
            height <= 0xffff_ffff,
    ;
    let area: u64 = width as u64 * height as u64;
    let wanted: u128 = 4 * (area as u128);
    assert(4 * width * height == 4 * (width * height)) by (nonlinear_arith);
    pixels.len() as u128 == wanted
}

impl Image {
    /// Prepares the image for the uploader: the rows turned upside down,
    /// to be sampled trilinearly. An error where the pixels do not fill
    /// the width and height.
    pub fn into_texture(self) -> (r: Result<Upload, LoadError>)
        ensures
            fits(self.pixels@, self.width, self.height) ==> r is Ok && r->Ok_0@ == texture_of(
                self.pixels@,
                self.width,
                self.height,
            ),
            !fits(self.pixels@, self.width, self.height) ==> r == Err::<Upload, LoadError>(
                LoadError::ImageLayout,
            ),
    {
        if check_layout(&self.pixels, self.width, self.height) {
            Ok(
                Upload {
                    pixels: flip_rows(self.pixels, self.width, self.height),
                    width: self.width,
                    height: self.height,
                    layout: Layout::Rgba,
                    sampling: Sampling::Trilinear,
                },
            )
        } else {
            Err(LoadError::ImageLayout)
        }
    }
}

/// The placeholder texture.
pub fn placeholder() -> (r: Upload)
    ensures
        r@ == white_pixel(),
{
    let pixels: Vec<u8> = vec![255, 255, 255];
    assert(pixels@ =~= seq![255u8, 255u8, 255u8]);
    Upload { pixels, width: 1, height: 1, layout: Layout::Rgb, sampling: Sampling::Untouched }
}

/// Turning the rows upside down keeps the number of bytes, and doing it
/// twice gives the image back.
pub proof fn lemma_flipped_twice(pixels: Seq<u8>, width: u32, height: u32)
    requires
        fits(pixels, width, height),
    ensures
        flipped(pixels, width, height).len() == pixels.len(),
        flipped(flipped(pixels, width, height), width, height) == pixels,
{
    let once = flipped(pixels, width, height);
    let twice = flipped(once, width, height);
    let row = 4 * width;
    assert forall|i: int| 0 <= i < pixels.len() implies twice[i] == pixels[i] by {
        lemma_row_place(i, row, height as int);
        let j = (height - 1 - i / row) * row + i % row;
        lemma_place_back(i, row, height as int);
    }
    assert(twice =~= pixels);
}

/// Where byte `i` of an image of `height` rows of `row` bytes goes when the
/// rows are turned upside down.
proof fn lemma_row_place(i: int, row: int, height: int)
    requires
        0 <= i < row * height,
        row >= 0,
        height >= 0,
    ensures
        row > 0,
        0 <= i / row < height,
        0 <= i % row < row,
        0 <= (height - 1 - i / row) * row + i % row < row * height,
{
    assert(row > 0) by (nonlinear_arith)
        requires
            0 <= i < row * height,
            row >= 0,
            height >= 0,
    ;
    vstd::arithmetic::div_mod::lemma_fundamental_div_mod(i, row);
    vstd::arithmetic::div_mod::lemma_mod_bound(i, row);
    let q = i / row;
    let r = i % row;
    assert(0 <= q < height) by (nonlinear_arith)
        requires
            i == row * q + r,
            0 <= r < row,
            0 <= i < row * height,
    ;
    assert(0 <= (height - 1 - q) * row + r < row * height) by (nonlinear_arith)
        requires
            0 <= q < height,
            0 <= r < row,
    ;
}

/// The place that byte `i` goes to sends its own byte back to `i`.
proof fn lemma_place_back(i: int, row: int, height: int)
    requires
        0 <= i < row * height,
        row > 0,
        0 <= i / row < height,
    ensures
        ({
            let j = (height - 1 - i / row) * row + i % row;
            j / row == height - 1 - i / row && j % row == i % row && (height - 1 - j / row) * row
                + j % row == i
        }),
{
    let q = i / row;
    let r = i % row;
    vstd::arithmetic::div_mod::lemma_fundamental_div_mod(i, row);
    vstd::arithmetic::div_mod::lemma_mod_bound(i, row);
    let j = (height - 1 - q) * row + r;
    vstd::arithmetic::div_mod::lemma_fundamental_div_mod_converse(j, row, height - 1 - q, r);
    assert((height - 1 - (height - 1 - q)) * row + r == i) by (nonlinear_arith)
        requires
            i == row * q + r,
    ;
}

} // verus!
