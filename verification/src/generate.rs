use vstd::arithmetic::div_mod::lemma_fundamental_div_mod_converse;
use vstd::arithmetic::div_mod::lemma_fundamental_div_mod_converse_mod;
use vstd::arithmetic::div_mod::lemma_mod_add_multiples_vanish;
use vstd::arithmetic::div_mod::lemma_mod_bound;
use vstd::prelude::*;

use crate::buffer::PixelBuffer;
use crate::color::RGBColor;

verus! {

/// The green channel emitted at column `x` of any gradient row: the sweep
/// starts at 0 rising, steps by one per pixel, and turns around at 255
/// and at 0, so the first emitted value is 1 and the value at period
/// offset `p` is `p + 1` on the way up and `509 - p` on the way down.
pub open spec fn green_at(x: int) -> int {
    let p = x % 510;
    if p < 255 {
        p + 1
    } else {
        509 - p
    }
}

/// Whether the sweep is rising after the pixel at column `x` is emitted.
pub open spec fn rising_at(x: int) -> bool {
    x % 510 <= 254
}

/// The pixel a gradient image holds at column `x`.
pub open spec fn gradient_pixel(red: u8, blue: u8, x: int) -> RGBColor {
    RGBColor { red, blue, green: green_at(x) as u8 }
}

/// A 1000 by 1000 image whose red and blue channels are `red` and `blue`
/// everywhere and whose green channel sweeps with the column alone.
pub open spec fn is_gradient(img: PixelBuffer, red: u8, blue: u8) -> bool {
    forall|x: int, y: int|
        0 <= x < 1000 && 0 <= y < 1000 ==> img.pixel(x, y) == gradient_pixel(red, blue, x)
}

/// For `x` below two periods, the period offset is `x` or `x - 510`.
proof fn lemma_period_offset(x: int)
    requires
        0 <= x < 1020,
    ensures
        x % 510 == if x < 510 {
            x
        } else {
            x - 510
        },
{
    if x < 510 {
        lemma_fundamental_div_mod_converse_mod(x, 510, 0, x);
    } else {
        lemma_fundamental_div_mod_converse_mod(x, 510, 1, x - 510);
    }
}

/// The sweep never leaves the 8-bit channel range.
pub proof fn lemma_green_at_bounds(x: int)
    requires
        0 <= x,
    ensures
        0 <= green_at(x) <= 255,
{
    lemma_mod_bound(x, 510);
}

/// One step of the sweep state machine: from the state after column
/// `x - 1`, first turn around at the bounds, then move one unit; the
/// result is the state after column `x`.
proof fn lemma_gradient_step(x: int)
    requires
        1 <= x < 1020,
    ensures
        ({
            let g = green_at(x - 1);
            let r1 = if g == 255 {
                false
            } else {
                rising_at(x - 1)
            };
            let r2 = if g == 0 {
                true
            } else {
                r1
            };
            let g2 = if r2 && g < 255 {
                g + 1
            } else if !r2 && g > 0 {
                g - 1
            } else {
                g
            };
            green_at(x) == g2 && rising_at(x) == r2
        }),
{
    lemma_period_offset(x - 1);
    lemma_period_offset(x);
}

/// The sweep depends only on the column's offset in its period.
pub proof fn lemma_gradient_period(x: int)
    requires
        0 <= x,
    ensures
        green_at(x + 510) == green_at(x),
{
    lemma_mod_add_multiples_vanish(x, 510);
}

/// Within one period, the sweep does not decrease while rising toward
/// its peak at offset 254, where it reaches 255.
pub proof fn lemma_gradient_unimodal_rising(a: int, b: int)
    requires
        0 <= a <= b <= 254,
    ensures
        green_at(a) <= green_at(b),
        green_at(254) == 255,
{
    lemma_period_offset(a);
    lemma_period_offset(b);
    lemma_period_offset(254);
}

/// Within one period, the sweep does not increase while falling from its
/// peak back to 0 at offset 509.
pub proof fn lemma_gradient_unimodal_falling(a: int, b: int)
    requires
        254 <= a <= b <= 509,
    ensures
        green_at(a) >= green_at(b),
        green_at(509) == 0,
{
    lemma_period_offset(a);
    lemma_period_offset(b);
    lemma_period_offset(509);
}

/// Every row of a gradient image is independent of the others: the same
/// column holds the same pixel in every row.
pub proof fn lemma_gradient_rows_identical(
    img: PixelBuffer,
    red: u8,
    blue: u8,
    x: int,
    y1: int,
    y2: int,
)
    requires
        is_gradient(img, red, blue),
        0 <= x < 1000,
        0 <= y1 < 1000,
        0 <= y2 < 1000,
    ensures
        img.pixel(x, y1) == img.pixel(x, y2),
{
}

/// The red and blue channels of a gradient image are the chosen values
/// at every coordinate.
pub proof fn lemma_gradient_red_blue_constant(
    img: PixelBuffer,
    red: u8,
    blue: u8,
    x: int,
    y: int,
)
    requires
        is_gradient(img, red, blue),
        0 <= x < 1000,
        0 <= y < 1000,
    ensures
        img.pixel(x, y).red == red,
        img.pixel(x, y).blue == blue,
{
}

/// Build the vertical gradient image: red and blue are fixed for the
/// whole image, and every row sweeps the green channel from the same
/// starting state, so all rows are identical.
pub fn gradient(red: u8, blue: u8) -> (img: PixelBuffer)
    ensures
        img.wf(),
        img.width == 1000,
        img.height == 1000,
        is_gradient(img, red, blue),
{
    let mut pixels: Vec<RGBColor> = Vec::new();
    let mut y: usize = 0;
    while y < 1000
        invariant
            y <= 1000,
            pixels@.len() == y * 1000,
            forall|j: int|
                0 <= j < pixels@.len() ==> pixels@[j] == gradient_pixel(red, blue, j % 1000),
        decreases 1000 - y,
    {
        let mut green: u8 = 0;
        let mut rising: bool = true;
        let mut x: usize = 0;
        while x < 1000
            invariant
                y < 1000,
                x <= 1000,
                pixels@.len() == y * 1000 + x,
                green as int == if x == 0 {
                    0int
                } else {
                    green_at(x - 1)
                },
                rising == if x == 0 {
                    true
                } else {
                    rising_at(x - 1)
                },
                forall|j: int|
                    0 <= j < pixels@.len() ==> pixels@[j] == gradient_pixel(red, blue, j % 1000),
            decreases 1000 - x,
        {
            if green == 255 {
                rising = false;
            }
            if green == 0 {
                rising = true;
            }
            if rising && green < 255 {
                green = green + 1;
            } else if !rising && green > 0 {
                green = green - 1;
            }
            proof {
                if x >= 1 {
                    lemma_gradient_step(x as int);
                }
                lemma_green_at_bounds(x as int);
                lemma_fundamental_div_mod_converse(
                    y * 1000 + x,
                    1000,
                    y as int,
                    x as int,
                );
            }
            pixels.push(RGBColor { red, blue, green });
            x = x + 1;
        }
        y = y + 1;
    }
    let img = PixelBuffer { width: 1000, height: 1000, pixels };
    assert forall|x: int, yy: int| 0 <= x < 1000 && 0 <= yy < 1000 implies img.pixel(x, yy)
        == gradient_pixel(red, blue, x) by {
        lemma_fundamental_div_mod_converse(yy * 1000 + x, 1000, yy, x);
        assert(img.pixels@[yy * 1000 + x] == gradient_pixel(red, blue, (yy * 1000 + x) % 1000));
    }
    img
}

/// Relies on rand's `thread_rng` and `Rng::gen_range`: a sample drawn
/// from the half-open range `0..255` lies below 255.
#[verifier::external_body]
fn random_channel() -> (r: u8)
    ensures
        r < 255,
{
    rand::Rng::gen_range(&mut rand::thread_rng(), 0..255)
}

/// Build the gradient with red and blue drawn at random: whatever the
/// two draws return, both lie below 255 and the image is the gradient
/// for them.
pub fn gradient_random() -> (img: PixelBuffer)
    ensures
        img.wf(),
        img.width == 1000,
        img.height == 1000,
        exists|red: u8, blue: u8| red < 255 && blue < 255 && is_gradient(img, red, blue),
{
    let red = random_channel();
    let blue = random_channel();
    let img = gradient(red, blue);
    assert(red < 255 && blue < 255 && is_gradient(img, red, blue));
    img
}

/// Build the 1000 by 1000 solid image: every pixel is the given color.
pub fn generate_color(rgb_color: RGBColor) -> (img: PixelBuffer)
    ensures
        img.wf(),
        img.width == 1000,
        img.height == 1000,
        forall|x: int, y: int|
            0 <= x < 1000 && 0 <= y < 1000 ==> img.pixel(x, y) == rgb_color,
{
    let mut pixels: Vec<RGBColor> = Vec::new();
    let mut i: usize = 0;
    while i < 1000000
        invariant
            i <= 1000000,
            pixels@.len() == i,
            forall|j: int| 0 <= j < i ==> pixels@[j] == rgb_color,
        decreases 1000000 - i,
    {
        pixels.push(rgb_color);
        i = i + 1;
    }
    let img = PixelBuffer { width: 1000, height: 1000, pixels };
    img
}

/// The red channel of the fractal background: the integer part of three
/// tenths of the column, which stays below 240 for columns below 800.
pub open spec fn fractal_red(x: int) -> int {
    3 * x / 10
}

/// The blue channel of the fractal background: the integer part of three
/// tenths of the row.
pub open spec fn fractal_blue(y: int) -> int {
    3 * y / 10
}

/// The pixel of the fractal image at column `x` of row `y`, given the
/// row-major escape counts.
pub open spec fn fractal_pixel(greens: Seq<u8>, x: int, y: int) -> RGBColor {
    RGBColor {
        red: fractal_red(x) as u8,
        blue: fractal_blue(y) as u8,
        green: greens[y * 800 + x],
    }
}

/// An 800 by 800 image whose background rises linearly with the
/// coordinates and whose green channel holds the given escape counts.
pub open spec fn is_fractal(img: PixelBuffer, greens: Seq<u8>) -> bool {
    forall|x: int, y: int|
        0 <= x < 800 && 0 <= y < 800 ==> img.pixel(x, y) == fractal_pixel(greens, x, y)
}

/// Assemble the fractal image from the row-major escape counts of its
/// 800 by 800 pixels: the count at a coordinate becomes the green
/// channel there, over the linear red and blue background.
pub fn fractal(greens: Vec<u8>) -> (img: PixelBuffer)
    requires
        greens@.len() == 640000,
    ensures
        img.wf(),
        img.width == 800,
        img.height == 800,
        is_fractal(img, greens@),
{
    let mut pixels: Vec<RGBColor> = Vec::new();
    let mut y: usize = 0;
    while y < 800
        invariant
            y <= 800,
            greens@.len() == 640000,
            pixels@.len() == y * 800,
            forall|j: int|
                0 <= j < pixels@.len() ==> pixels@[j] == fractal_pixel(greens@, j % 800, j / 800),
        decreases 800 - y,
    {
        let mut x: usize = 0;
        while x < 800
            invariant
                y < 800,
                x <= 800,
                greens@.len() == 640000,
                pixels@.len() == y * 800 + x,
                forall|j: int|
                    0 <= j < pixels@.len() ==> pixels@[j] == fractal_pixel(
                        greens@,
                        j % 800,
                        j / 800,
                    ),
            decreases 800 - x,
        {
            let red: u8 = ((3 * x) / 10) as u8;
            let blue: u8 = ((3 * y) / 10) as u8;
            let green: u8 = greens[y * 800 + x];
            proof {
                lemma_fundamental_div_mod_converse(y * 800 + x, 800, y as int, x as int);
            }
            pixels.push(RGBColor { red, blue, green });
            x = x + 1;
        }
        y = y + 1;
    }
    let img = PixelBuffer { width: 800, height: 800, pixels };
    assert forall|x: int, yy: int| 0 <= x < 800 && 0 <= yy < 800 implies img.pixel(x, yy)
        == fractal_pixel(greens@, x, yy) by {
        lemma_fundamental_div_mod_converse(yy * 800 + x, 800, yy, x);
        assert(img.pixels@[yy * 800 + x] == fractal_pixel(greens@, (yy * 800 + x) % 800, (yy * 800
            + x) / 800));
    }
    img
}

} // verus!

