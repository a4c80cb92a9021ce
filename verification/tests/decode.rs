use image::codecs::gif::GifEncoder;
use image::{Delay, DynamicImage, Frame, ImageFormat, Rgba, RgbaImage};
use plan::{decode_gif, decode_image, delay_nanos, image_size, image_thumbnail};
use std::io::Cursor;

fn sample(width: u32, height: u32) -> RgbaImage {
    RgbaImage::from_fn(width, height, |x, y| Rgba([(x * 7) as u8, (y * 5) as u8, 90, 255]))
}

fn png_bytes(image: &RgbaImage) -> Vec<u8> {
    let mut out = Cursor::new(Vec::new());
    image.write_to(&mut out, ImageFormat::Png).unwrap();
    out.into_inner()
}

#[test]
fn decodes_by_extension() {
    let image = sample(30, 20);
    let data = png_bytes(&image);
    assert_eq!(decode_image(&data, "/pics/a.png"), Some((30, 20, image.clone().into_raw())));
    // No extension, an empty one, or one naming another format: nothing.
    assert_eq!(decode_image(&data, "/pics/a"), None);
    assert_eq!(decode_image(&data, "/pics/a."), None);
    assert_eq!(decode_image(&data, "/pics/a.jpg"), None);
    assert_eq!(decode_image(b"not an image", "/pics/a.png"), None);
}

#[test]
fn reads_size_from_header() {
    let data = png_bytes(&sample(123, 45));
    assert_eq!(image_size(&data), Some((123, 45)));
    assert_eq!(image_size(b"short"), None);
}

#[test]
fn thumbnail_fits_and_matches_image() {
    let image = sample(600, 300);
    let data = png_bytes(&image);
    let (w, h, rgba) = image_thumbnail(&data, "x.png", 256).expect("thumbnail");
    assert!(w <= 256 && h <= 256);
    assert_eq!((w, h), (256, 128));
    let expected = DynamicImage::ImageRgba8(image).thumbnail(256, 256).to_rgba8();
    assert_eq!(rgba, expected.into_raw());
    assert_eq!(image_thumbnail(&data, "x.gif", 256), None);
}

#[test]
fn delays_in_nanoseconds() {
    assert_eq!(delay_nanos(100, 1), 100_000_000);
    assert_eq!(delay_nanos(3, 2), 1_500_000);
    assert_eq!(delay_nanos(10, 3), 3_333_333);
    assert_eq!(delay_nanos(0, 1), 0);
    assert_eq!(delay_nanos(u32::MAX, 1), u32::MAX as u64 * 1_000_000);
}

#[test]
fn gif_frames_and_delays() {
    let mut data = Vec::new();
    {
        let mut encoder = GifEncoder::new(&mut data);
        encoder
            .encode_frames(vec![
                Frame::from_parts(sample(4, 3), 0, 0, Delay::from_numer_denom_ms(100, 1)),
                Frame::from_parts(sample(4, 3), 0, 0, Delay::from_numer_denom_ms(250, 1)),
            ])
            .unwrap();
    }
    let (frames, delays) = decode_gif(&data).expect("decodes");
    assert_eq!(frames.len(), 2);
    assert!(frames.iter().all(|(w, h, rgba)| (*w, *h) == (4, 3) && rgba.len() == 48));
    assert_eq!(delays, vec![100_000_000, 250_000_000]);
    assert_eq!(decode_gif(b"GIF89a but broken"), None);
}
