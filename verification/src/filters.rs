use vstd::prelude::*;

use crate::color::CropPayload;
use crate::color::RotateDegrees;
use image::DynamicImage;

verus! {

#[verifier::external_type_specification]
#[verifier::external_body]
pub struct ExDynamicImage(DynamicImage);

/// The width and height of an image held by the imaging library.
pub uninterp spec fn image_dims(img: DynamicImage) -> (nat, nat);

/// What an image holds: at each coordinate inside its grid, the stored
/// bytes of the pixel's color channels and, apart, of its alpha
/// channels (every storage format of the library keeps 8-bit channels).
pub uninterp spec fn image_pixels(img: DynamicImage) -> Map<(int, int), (Seq<u8>, Seq<u8>)>;

/// Whether the image stores its color channels blue-first together with
/// an alpha channel: the one storage format whose inversion also
/// mirrors the three color bytes.
pub uninterp spec fn image_blue_first_alpha(img: DynamicImage) -> bool;

/// Whether the image stores its color channels blue-first, with or
/// without an alpha channel: the gray conversion reads such channels
/// in the reversed order.
pub uninterp spec fn image_blue_first(img: DynamicImage) -> bool;

/// The 8-bit luma of a pixel's stored color channel bytes, read
/// blue-first when the flag says so: what the imaging library's gray
/// conversion yields for that pixel. The value depends on the bytes
/// and the order alone.
pub uninterp spec fn gray_of(channels: Seq<u8>, blue_first: bool) -> u8;

/// The coordinates of a grid of the given width and height.
pub open spec fn grid(d: (nat, nat)) -> Set<(int, int)> {
    Set::new(|c: (int, int)| 0 <= c.0 < d.0 && 0 <= c.1 < d.1)
}

/// The dimensions after a quarter turn: width and height change places.
pub open spec fn rot90_dims(d: (nat, nat)) -> (nat, nat) {
    (d.1, d.0)
}

/// The pixels after a clockwise quarter turn of a grid of dimensions
/// `d`: the pixel of column `x` and row `y` moves to column
/// `height - 1 - y` and row `x`.
pub open spec fn rot90_pixels(d: (nat, nat), m: Map<(int, int), (Seq<u8>, Seq<u8>)>) -> Map<
    (int, int),
    (Seq<u8>, Seq<u8>),
> {
    Map::new(
        |c: (int, int)| 0 <= c.0 < d.1 && 0 <= c.1 < d.0,
        |c: (int, int)| m[(c.1, d.1 - 1 - c.0)],
    )
}

/// The pixels after a half turn: the pixel of column `x` and row `y`
/// moves to column `width - 1 - x` and row `height - 1 - y`.
pub open spec fn rot180_pixels(d: (nat, nat), m: Map<(int, int), (Seq<u8>, Seq<u8>)>) -> Map<
    (int, int),
    (Seq<u8>, Seq<u8>),
> {
    Map::new(
        |c: (int, int)| 0 <= c.0 < d.0 && 0 <= c.1 < d.1,
        |c: (int, int)| m[(d.0 - 1 - c.0, d.1 - 1 - c.1)],
    )
}

/// The pixels after a clockwise three-quarter turn: the pixel of column
/// `x` and row `y` moves to column `y` and row `width - 1 - x`.
pub open spec fn rot270_pixels(d: (nat, nat), m: Map<(int, int), (Seq<u8>, Seq<u8>)>) -> Map<
    (int, int),
    (Seq<u8>, Seq<u8>),
> {
    Map::new(
        |c: (int, int)| 0 <= c.0 < d.1 && 0 <= c.1 < d.0,
        |c: (int, int)| m[(d.0 - 1 - c.1, c.0)],
    )
}

/// Each color channel byte replaced by its distance from 255.
pub open spec fn inv_channels(s: Seq<u8>) -> Seq<u8> {
    s.map_values(|b: u8| (255 - b) as u8)
}

/// Every pixel with its color channels inverted and its alpha kept.
pub open spec fn inv_pixels(m: Map<(int, int), (Seq<u8>, Seq<u8>)>) -> Map<
    (int, int),
    (Seq<u8>, Seq<u8>),
> {
    m.map_values(|p: (Seq<u8>, Seq<u8>)| (inv_channels(p.0), p.1))
}

/// Every pixel with its color channels mirrored and inverted and its
/// alpha kept: what inversion does to blue-first storage with alpha.
pub open spec fn inv_mirror_pixels(m: Map<(int, int), (Seq<u8>, Seq<u8>)>) -> Map<
    (int, int),
    (Seq<u8>, Seq<u8>),
> {
    m.map_values(|p: (Seq<u8>, Seq<u8>)| (inv_channels(p.0.reverse()), p.1))
}

/// An integer forced into the 8-bit channel range.
pub open spec fn clamp_channel(v: int) -> int {
    if v < 0 {
        0
    } else if v > 255 {
        255
    } else {
        v
    }
}

/// Each color channel byte moved by `amount` and clamped to the range.
pub open spec fn brighten_channels(s: Seq<u8>, amount: int) -> Seq<u8> {
    s.map_values(|b: u8| clamp_channel(b + amount) as u8)
}

/// Every pixel brightened on its color channels with its alpha kept.
pub open spec fn brighten_pixels(m: Map<(int, int), (Seq<u8>, Seq<u8>)>, amount: int) -> Map<
    (int, int),
    (Seq<u8>, Seq<u8>),
> {
    m.map_values(|p: (Seq<u8>, Seq<u8>)| (brighten_channels(p.0, amount), p.1))
}

/// The corner actually used by a crop: the requested corner pulled back
/// onto the image.
pub open spec fn crop_corner(d: (nat, nat), payload: CropPayload) -> (nat, nat) {
    (
        if payload.x <= d.0 {
            payload.x as nat
        } else {
            d.0
        },
        if payload.y <= d.1 {
            payload.y as nat
        } else {
            d.1
        },
    )
}

/// The dimensions a crop yields: the requested extent, clamped so the
/// cut-out stays inside the source.
pub open spec fn crop_dims(d: (nat, nat), payload: CropPayload) -> (nat, nat) {
    let corner = crop_corner(d, payload);
    (
        if payload.width <= d.0 - corner.0 {
            payload.width as nat
        } else {
            (d.0 - corner.0) as nat
        },
        if payload.height <= d.1 - corner.1 {
            payload.height as nat
        } else {
            (d.1 - corner.1) as nat
        },
    )
}

/// The pixels a crop yields: the source pixels, shifted by the corner.
pub open spec fn crop_pixels(
    d: (nat, nat),
    payload: CropPayload,
    m: Map<(int, int), (Seq<u8>, Seq<u8>)>,
) -> Map<(int, int), (Seq<u8>, Seq<u8>)> {
    let corner = crop_corner(d, payload);
    let out = crop_dims(d, payload);
    Map::new(
        |c: (int, int)| 0 <= c.0 < out.0 && 0 <= c.1 < out.1,
        |c: (int, int)| m[(corner.0 + c.0, corner.1 + c.1)],
    )
}

/// Relies on the imaging library's `DynamicImage::rotate90`: the result
/// has the dimensions swapped, and the pixel of column `x` and row `y`
/// is stored at column `height - 1 - y` and row `x` of the result.
#[verifier::external_body]
fn rotate90_image(source: &DynamicImage) -> (r: DynamicImage)
    ensures
        image_dims(r) == rot90_dims(image_dims(*source)),
        image_pixels(r) == rot90_pixels(image_dims(*source), image_pixels(*source)),
        image_pixels(r).dom() == grid(image_dims(r)),
{
    source.rotate90()
}

/// Relies on the imaging library's `DynamicImage::rotate180`: the
/// dimensions stay, and the pixel of column `x` and row `y` is stored at
/// column `width - 1 - x` and row `height - 1 - y` of the result.
#[verifier::external_body]
fn rotate180_image(source: &DynamicImage) -> (r: DynamicImage)
    ensures
        image_dims(r) == image_dims(*source),
        image_pixels(r) == rot180_pixels(image_dims(*source), image_pixels(*source)),
        image_pixels(r).dom() == grid(image_dims(r)),
{
    source.rotate180()
}

/// Relies on the imaging library's `DynamicImage::rotate270`: the result
/// has the dimensions swapped, and the pixel of column `x` and row `y`
/// is stored at column `y` and row `width - 1 - x` of the result.
#[verifier::external_body]
fn rotate270_image(source: &DynamicImage) -> (r: DynamicImage)
    ensures
        image_dims(r) == rot90_dims(image_dims(*source)),
        image_pixels(r) == rot270_pixels(image_dims(*source), image_pixels(*source)),
        image_pixels(r).dom() == grid(image_dims(r)),
{
    source.rotate270()
}

/// Rotate the image clockwise by the chosen number of quarter turns.
pub fn rotate(source: &DynamicImage, degree_option: RotateDegrees) -> (r: DynamicImage)
    ensures
        match degree_option {
            RotateDegrees::OneFouth => image_dims(r) == rot90_dims(image_dims(*source))
                && image_pixels(r) == rot90_pixels(image_dims(*source), image_pixels(*source)),
            RotateDegrees::Half => image_dims(r) == image_dims(*source) && image_pixels(r)
                == rot180_pixels(image_dims(*source), image_pixels(*source)),
            RotateDegrees::ThreeQuarters => image_dims(r) == rot90_dims(image_dims(*source))
                && image_pixels(r) == rot270_pixels(image_dims(*source), image_pixels(*source)),
        },
        image_pixels(r).dom() == grid(image_dims(r)),
{
    match degree_option {
        RotateDegrees::OneFouth => rotate90_image(source),
        RotateDegrees::Half => rotate180_image(source),
        RotateDegrees::ThreeQuarters => rotate270_image(source),
    }
}

/// Relies on the imaging library's `DynamicImage::invert`, which turns
/// each color channel byte `b` of each pixel into `255 - b` in place and
/// keeps the alpha channels; no storage format of the library keeps
/// channels wider than 8 bits. The blue-first format with alpha is the
/// one exception: its inversion also mirrors the three color bytes.
/// The storage format itself stays what it was.
#[verifier::external_body]
pub fn invert(source: &mut DynamicImage)
    ensures
        image_dims(*final (source)) == image_dims(*old(source)),
        image_blue_first_alpha(*final (source)) == image_blue_first_alpha(*old(source)),
        !image_blue_first_alpha(*old(source)) ==> image_pixels(*final (source)) == inv_pixels(
            image_pixels(*old(source)),
        ),
        image_blue_first_alpha(*old(source)) ==> image_pixels(*final (source))
            == inv_mirror_pixels(image_pixels(*old(source))),
{
    source.invert()
}

/// Relies on the imaging library's `DynamicImage::brighten`, which adds
/// `value` to each color channel byte of each pixel, clamped to the
/// 8-bit range, and keeps the alpha channels. The sum is taken in
/// 32-bit integers, so the amount must leave room for a channel byte
/// above it.
#[verifier::external_body]
pub fn brighten(source: &DynamicImage, brightness_amount: i32) -> (r: DynamicImage)
    requires
        brightness_amount <= i32::MAX - 255,
    ensures
        image_dims(r) == image_dims(*source),
        image_pixels(r) == brighten_pixels(image_pixels(*source), brightness_amount as int),
        image_pixels(r).dom() == grid(image_dims(r)),
{
    source.brighten(brightness_amount)
}

/// Relies on the imaging library's `DynamicImage::grayscale`, which maps
/// each pixel to an 8-bit gray pixel of one color channel and no alpha,
/// on a grid of the same dimensions; the gray value is the luma of the
/// pixel's own color channels, read blue-first where the storage is.
#[verifier::external_body]
pub fn grayscale(source: &DynamicImage) -> (r: DynamicImage)
    ensures
        image_dims(r) == image_dims(*source),
        image_pixels(r).dom() == grid(image_dims(r)),
        image_pixels(r) == image_pixels(*source).map_values(
            |p: (Seq<u8>, Seq<u8>)|
                (seq![gray_of(p.0, image_blue_first(*source))], Seq::<u8>::empty()),
        ),
{
    source.grayscale()
}

/// Relies on the imaging library's `DynamicImage::crop`, which pulls the
/// requested corner and extent back inside the source, copies that
/// cut-out into a new image, and leaves the source as it was.
#[verifier::external_body]
pub fn crop(source: &mut DynamicImage, payload: CropPayload) -> (r: DynamicImage)
    ensures
        *final (source) == *old(source),
        image_dims(r) == crop_dims(image_dims(*old(source)), payload),
        image_pixels(r) == crop_pixels(
            image_dims(*old(source)),
            payload,
            image_pixels(*old(source)),
        ),
        image_pixels(r).dom() == grid(image_dims(r)),
{
    source.crop(payload.x, payload.y, payload.width, payload.height)
}

/// Turning a grid four quarter turns brings every pixel back: the
/// rotated maps return to the original pixels, coordinate for
/// coordinate.
pub proof fn lemma_rotate90_four_times(d: (nat, nat), m: Map<(int, int), (Seq<u8>, Seq<u8>)>)
    requires
        m.dom() == grid(d),
    ensures
        ({
            let m1 = rot90_pixels(d, m);
            let m2 = rot90_pixels(rot90_dims(d), m1);
            let m3 = rot90_pixels(d, m2);
            let m4 = rot90_pixels(rot90_dims(d), m3);
            rot90_dims(rot90_dims(rot90_dims(rot90_dims(d)))) == d && m4 =~= m
        }),
{
    let m1 = rot90_pixels(d, m);
    let m2 = rot90_pixels(rot90_dims(d), m1);
    let m3 = rot90_pixels(d, m2);
    let m4 = rot90_pixels(rot90_dims(d), m3);
    assert(m4.dom() =~= m.dom());
    assert forall|c: (int, int)| m.dom().contains(c) implies m4[c] == m[c] by {
        assert(grid(d).contains(c));
    }
}

/// Rotating by a quarter turn four times over gives back an image
/// pixel-identical to the source, coordinate for coordinate.
pub fn rotate_four_quarters(source: &DynamicImage) -> (r: DynamicImage)
    ensures
        image_dims(r) == image_dims(*source),
        image_pixels(*source).dom() == grid(image_dims(*source)) ==> image_pixels(r)
            == image_pixels(*source),
{
    let r1 = rotate(source, RotateDegrees::OneFouth);
    let r2 = rotate(&r1, RotateDegrees::OneFouth);
    let r3 = rotate(&r2, RotateDegrees::OneFouth);
    let r4 = rotate(&r3, RotateDegrees::OneFouth);
    proof {
        if image_pixels(*source).dom() == grid(image_dims(*source)) {
            lemma_rotate90_four_times(image_dims(*source), image_pixels(*source));
        }
    }
    r4
}

/// A half turn is two quarter turns: on any grid, rotating twice by a
/// quarter moves every pixel where one half turn moves it.
pub proof fn lemma_rot180_is_two_quarter_turns(d: (nat, nat), m: Map<(int, int), (Seq<u8>, Seq<u8>)>)
    requires
        m.dom() == grid(d),
    ensures
        rot90_pixels(rot90_dims(d), rot90_pixels(d, m)) =~= rot180_pixels(d, m),
{
    assert forall|c: (int, int)|
        rot180_pixels(d, m).dom().contains(c) implies rot90_pixels(
        rot90_dims(d),
        rot90_pixels(d, m),
    )[c] == rot180_pixels(d, m)[c] by {
        assert(grid(d).contains((d.0 - 1 - c.0, d.1 - 1 - c.1)));
    }
}

/// Inverting a pixel's color channels twice returns each byte.
pub proof fn lemma_invert_channels_twice(s: Seq<u8>)
    ensures
        inv_channels(inv_channels(s)) =~= s,
{
    assert forall|i: int| 0 <= i < s.len() implies inv_channels(inv_channels(s))[i] == s[i] by {
        assert(inv_channels(s)[i] == (255 - s[i]) as u8);
    }
}

/// Mirroring and inverting a pixel's color channels twice returns each
/// byte: the mirror and the inversion each undo themselves, and they
/// commute.
pub proof fn lemma_invert_mirror_channels_twice(s: Seq<u8>)
    ensures
        inv_channels(inv_channels(s.reverse()).reverse()) =~= s,
{
    let t = inv_channels(s.reverse());
    assert forall|i: int| 0 <= i < s.len() implies inv_channels(t.reverse())[i] == s[i] by {
        assert(t[s.len() - 1 - i] == (255 - s[i]) as u8);
    }
}

/// Inverting an image twice returns the original pixels exactly, at
/// every coordinate, whichever of its two forms the inversion takes.
pub proof fn lemma_invert_twice(m: Map<(int, int), (Seq<u8>, Seq<u8>)>)
    ensures
        inv_pixels(inv_pixels(m)) =~~= m,
        inv_mirror_pixels(inv_mirror_pixels(m)) =~~= m,
{
    assert(inv_pixels(inv_pixels(m)).dom() =~= m.dom());
    assert forall|c: (int, int)| m.dom().contains(c) implies inv_pixels(inv_pixels(m))[c] =~~= m[c] by {
        lemma_invert_channels_twice(m[c].0);
    }
    assert(inv_mirror_pixels(inv_mirror_pixels(m)).dom() =~= m.dom());
    assert forall|c: (int, int)| m.dom().contains(c) implies inv_mirror_pixels(
        inv_mirror_pixels(m),
    )[c] =~~= m[c] by {
        lemma_invert_mirror_channels_twice(m[c].0);
    }
}

/// Inverting an image twice in place returns the original pixel bytes
/// exactly, whichever storage format the image uses.
pub fn invert_twice(source: &mut DynamicImage)
    ensures
        image_dims(*final (source)) == image_dims(*old(source)),
        image_pixels(*final (source)) =~~= image_pixels(*old(source)),
{
    invert(source);
    invert(source);
    proof {
        lemma_invert_twice(image_pixels(*old(source)));
    }
}

} // verus!
