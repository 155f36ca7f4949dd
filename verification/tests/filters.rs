use image::DynamicImage;
use image::GenericImageView;
use photo_filters::brighten;
use photo_filters::crop;
use photo_filters::grayscale;
use photo_filters::invert;
use photo_filters::rotate;
use photo_filters::CropPayload;
use photo_filters::RotateDegrees;

/// A small RGB image whose every pixel is distinct.
fn sample_image(width: u32, height: u32) -> DynamicImage {
    let buf = image::ImageBuffer::from_fn(width, height, |x, y| {
        image::Rgb([(x * 7 + 1) as u8, (y * 11 + 2) as u8, (x + y * 3 + 5) as u8])
    });
    DynamicImage::ImageRgb8(buf)
}

fn rgb_at(img: &DynamicImage, x: u32, y: u32) -> [u8; 3] {
    let p = img.as_rgb8().expect("an RGB image").get_pixel(x, y);
    [p[0], p[1], p[2]]
}

#[test]
fn rotate_one_quarter_moves_each_pixel() {
    let img = sample_image(3, 2);
    let r = rotate(&img, RotateDegrees::OneFouth);
    assert_eq!(r.dimensions(), (2, 3));
    for y in 0..2 {
        for x in 0..3 {
            // Source (x, y) lands at (height - 1 - y, x).
            assert_eq!(rgb_at(&r, 2 - 1 - y, x), rgb_at(&img, x, y));
        }
    }
}

#[test]
fn rotate_half_moves_each_pixel() {
    let img = sample_image(3, 2);
    let r = rotate(&img, RotateDegrees::Half);
    assert_eq!(r.dimensions(), (3, 2));
    for y in 0..2 {
        for x in 0..3 {
            assert_eq!(rgb_at(&r, 3 - 1 - x, 2 - 1 - y), rgb_at(&img, x, y));
        }
    }
}

#[test]
fn rotate_three_quarters_moves_each_pixel() {
    let img = sample_image(3, 2);
    let r = rotate(&img, RotateDegrees::ThreeQuarters);
    assert_eq!(r.dimensions(), (2, 3));
    for y in 0..2 {
        for x in 0..3 {
            assert_eq!(rgb_at(&r, y, 3 - 1 - x), rgb_at(&img, x, y));
        }
    }
}

#[test]
fn rotate_four_quarter_turns_is_the_identity() {
    let img = sample_image(5, 4);
    let mut r = rotate(&img, RotateDegrees::OneFouth);
    r = rotate(&r, RotateDegrees::OneFouth);
    r = rotate(&r, RotateDegrees::OneFouth);
    r = rotate(&r, RotateDegrees::OneFouth);
    assert_eq!(r.dimensions(), (5, 4));
    for y in 0..4 {
        for x in 0..5 {
            assert_eq!(rgb_at(&r, x, y), rgb_at(&img, x, y));
        }
    }
}

#[test]
fn rotate_four_quarters_returns_the_source_pixels() {
    let img = sample_image(7, 3);
    let r = photo_filters::rotate_four_quarters(&img);
    assert_eq!(r.dimensions(), (7, 3));
    for y in 0..3 {
        for x in 0..7 {
            assert_eq!(rgb_at(&r, x, y), rgb_at(&img, x, y));
        }
    }
}

#[test]
fn invert_flips_every_channel_byte() {
    let mut img = sample_image(4, 3);
    let original = img.clone();
    invert(&mut img);
    for y in 0..3 {
        for x in 0..4 {
            let [r, g, b] = rgb_at(&original, x, y);
            assert_eq!(rgb_at(&img, x, y), [255 - r, 255 - g, 255 - b]);
        }
    }
}

#[test]
fn invert_twice_returns_the_original_bytes() {
    let mut img = sample_image(6, 5);
    let original = img.clone();
    invert(&mut img);
    invert(&mut img);
    assert_eq!(img.dimensions(), original.dimensions());
    for y in 0..5 {
        for x in 0..6 {
            assert_eq!(rgb_at(&img, x, y), rgb_at(&original, x, y));
        }
    }
}

#[test]
fn invert_twice_in_one_call_restores_the_bytes() {
    let mut img = sample_image(3, 3);
    let original = img.clone();
    photo_filters::invert_twice(&mut img);
    for y in 0..3 {
        for x in 0..3 {
            assert_eq!(rgb_at(&img, x, y), rgb_at(&original, x, y));
        }
    }
}

#[test]
fn invert_on_blue_first_alpha_storage_mirrors_the_color_bytes() {
    let buf = image::ImageBuffer::from_fn(1, 1, |_x, _y| image::Bgra([10u8, 20, 30, 40]));
    let mut img = DynamicImage::ImageBgra8(buf);
    invert(&mut img);
    let p = img.as_bgra8().expect("a BGRA image").get_pixel(0, 0);
    // The three color bytes come back mirrored as well as inverted;
    // the alpha byte stays.
    assert_eq!([p[0], p[1], p[2], p[3]], [255 - 30, 255 - 20, 255 - 10, 40]);
    // A second inversion still restores the original bytes.
    invert(&mut img);
    let p = img.as_bgra8().expect("a BGRA image").get_pixel(0, 0);
    assert_eq!([p[0], p[1], p[2], p[3]], [10, 20, 30, 40]);
}

#[test]
fn brighten_shifts_and_clamps() {
    let buf = image::ImageBuffer::from_fn(2, 1, |x, _y| {
        if x == 0 {
            image::Rgb([10u8, 200, 250])
        } else {
            image::Rgb([0u8, 5, 255])
        }
    });
    let img = DynamicImage::ImageRgb8(buf);

    let up = brighten(&img, 100);
    assert_eq!(up.dimensions(), (2, 1));
    assert_eq!(rgb_at(&up, 0, 0), [110, 255, 255]);
    assert_eq!(rgb_at(&up, 1, 0), [100, 105, 255]);

    let down = brighten(&img, -100);
    assert_eq!(rgb_at(&down, 0, 0), [0, 100, 150]);
    assert_eq!(rgb_at(&down, 1, 0), [0, 0, 155]);
}

#[test]
fn brighten_at_the_largest_allowed_amount_saturates() {
    let img = sample_image(2, 2);
    // The largest shift the library takes still clamps cleanly: every
    // color channel saturates at 255.
    let up = brighten(&img, i32::MAX - 255);
    assert_eq!(up.dimensions(), (2, 2));
    for y in 0..2 {
        for x in 0..2 {
            assert_eq!(rgb_at(&up, x, y), [255, 255, 255]);
        }
    }
    // The deepest negative shift clamps every color channel to 0.
    let down = brighten(&img, i32::MIN);
    for y in 0..2 {
        for x in 0..2 {
            assert_eq!(rgb_at(&down, x, y), [0, 0, 0]);
        }
    }
}

/// The luma the imaging library computes for one RGB pixel.
fn expected_luma(r: u8, g: u8, b: u8) -> u8 {
    (0.2126f32 * r as f32 + 0.7152f32 * g as f32 + 0.0722f32 * b as f32) as u8
}

#[test]
fn grayscale_yields_one_gray_channel() {
    let img = sample_image(4, 3);
    let g = grayscale(&img);
    assert_eq!(g.dimensions(), (4, 3));
    let gray = g.as_luma8().expect("a gray image");
    for y in 0..3 {
        for x in 0..4 {
            let [r, gr, b] = rgb_at(&img, x, y);
            assert_eq!(gray.get_pixel(x, y)[0], expected_luma(r, gr, b));
        }
    }
}

#[test]
fn grayscale_reads_blue_first_storage_in_reverse() {
    let buf = image::ImageBuffer::from_fn(1, 1, |_x, _y| image::Bgr([10u8, 20, 200]));
    let img = DynamicImage::ImageBgr8(buf);
    let g = grayscale(&img);
    let gray = g.as_luma8().expect("a gray image");
    // Stored blue-first, the bytes [10, 20, 200] mean red 200, green 20,
    // blue 10.
    assert_eq!(gray.get_pixel(0, 0)[0], expected_luma(200, 20, 10));
}

#[test]
fn crop_inside_the_bounds_copies_the_cutout() {
    let mut img = sample_image(4, 4);
    let original = img.clone();
    let r = crop(&mut img, CropPayload { x: 1, y: 2, width: 2, height: 1 });
    assert_eq!(r.dimensions(), (2, 1));
    for x in 0..2 {
        assert_eq!(rgb_at(&r, x, 0), rgb_at(&original, x + 1, 2));
    }
    // The source is left as it was.
    for y in 0..4 {
        for x in 0..4 {
            assert_eq!(rgb_at(&img, x, y), rgb_at(&original, x, y));
        }
    }
}

#[test]
fn crop_clamps_an_oversize_request() {
    let mut img = sample_image(4, 4);
    let original = img.clone();
    // The library clamps the extent to what is left of the source.
    let r = crop(&mut img, CropPayload { x: 1, y: 1, width: 100, height: 100 });
    assert_eq!(r.dimensions(), (3, 3));
    for y in 0..3 {
        for x in 0..3 {
            assert_eq!(rgb_at(&r, x, y), rgb_at(&original, x + 1, y + 1));
        }
    }
}

#[test]
fn crop_clamps_a_corner_outside_the_image() {
    let mut img = sample_image(4, 4);
    let r = crop(&mut img, CropPayload { x: 10, y: 0, width: 2, height: 2 });
    // The corner is pulled back to the right edge: nothing is left.
    assert_eq!(r.dimensions(), (0, 2));
}
