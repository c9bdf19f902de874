//! Random integers, and the random-pixel canvas of the SDL demo: a grid of
//! pixels of which one, picked at random, gets a random colour each frame.

use vstd::prelude::*;
use rand::Rng;

verus! {

/// `rand::Rng::gen_range(from..to)` on `rand::thread_rng()`. Its
/// documentation says the result lies in the half-open range and that it
/// panics on an empty range; which value comes out rests on chance.
#[verifier::external_body]
fn random_in_range(from: u64, to: u64) -> (r: u64)
    requires
        from < to,
    ensures
        from <= r < to,
{
    rand::thread_rng().gen_range(from..to)
}

/// A random integer from `from` up to, but not including, `to`.
pub fn rand(from: u64, to: u64) -> (r: u64)
    requires
        from < to,
    ensures
        from <= r < to,
{
    random_in_range(from, to)
}

/// One point of the canvas: its colour and where it is drawn.
#[derive(PartialEq, Eq, Structural, Clone, Copy, Debug)]
pub struct Pixel {
    pub r: u8,
    pub g: u8,
    pub b: u8,
    pub x: i32,
    pub y: i32,
}

/// A black pixel drawn at the origin.
pub open spec fn blank_pixel() -> Pixel {
    Pixel { r: 0, g: 0, b: 0, x: 0, y: 0 }
}

/// `width * height` black pixels at the origin.
pub fn blank_canvas(width: usize, height: usize) -> (pixels: Vec<Pixel>)
    requires
        width * height <= usize::MAX,
    ensures
        pixels@.len() == width * height,
        forall|i: int| 0 <= i < pixels@.len() ==> pixels@[i] == blank_pixel(),
{
    let n = width * height;
    let mut pixels: Vec<Pixel> = Vec::new();
    let mut i: usize = 0;
    while i < n
        invariant
            i <= n,
            pixels@.len() == i,
            forall|j: int| 0 <= j < i ==> pixels@[j] == blank_pixel(),
        decreases n - i,
    {
        pixels.push(Pixel { r: 0, g: 0, b: 0, x: 0, y: 0 });
        i += 1;
    }
    pixels
}

/// Where the pixel at (`x`, `y`) of a canvas `width` wide is kept.
pub open spec fn canvas_index(x: int, y: int, width: int) -> int {
    x + width * y
}

/// Gives one random pixel of the canvas a random colour (each channel
/// below 255) and returns it; the pixel keeps its place in the canvas and
/// records where it is drawn.
pub fn paint_random_pixel(pixels: &mut Vec<Pixel>, width: usize, height: usize) -> (p: Pixel)
    requires
        0 < width,
        0 < height,
        width * height <= i32::MAX,
        old(pixels)@.len() == width * height,
    ensures
        0 <= p.x < width,
        0 <= p.y < height,
        p.r < 255 && p.g < 255 && p.b < 255,
        final(pixels)@ == old(pixels)@.update(canvas_index(p.x as int, p.y as int, width as int), p),
{
    let r = rand(0, 255) as u8;
    let g = rand(0, 255) as u8;
    let b = rand(0, 255) as u8;
    let xr = rand(0, width as u64);
    let yr = rand(0, height as u64);
    assert(width <= width * height && height <= width * height && xr + width * yr < width
        * height) by (nonlinear_arith)
        requires
            xr < width,
            yr < height,
            0 < height,
            0 < width,
    ;
    let x = xr as i32;
    let y = yr as i32;
    let i = xr as usize + width * (yr as usize);
    let p = Pixel { r, g, b, x, y };
    pixels.set(i as usize, p);
    p
}

} // verus!
