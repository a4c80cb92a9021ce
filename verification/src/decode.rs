//! Decoding image files already read into memory: their size, their pixels,
//! the frames of an animated GIF, and thumbnails.
use vstd::prelude::*;
use vstd::string::StrSliceExecFns;
use crate::images::{path_extension, spec_extension};

verus! {

/// The size (width, height) `imagesize::blob_size` reads from the header
/// of the image file `data`.
pub uninterp spec fn spec_blob_size(data: Seq<u8>) -> Option<(usize, usize)>;

/// The pixels (width, height, RGBA bytes) `image` decodes from `data` read
/// as the format named by the extension `ext`.
pub uninterp spec fn spec_decode_rgba(data: Seq<u8>, ext: Seq<char>) -> Option<(u32, u32, Seq<u8>)>;

/// The frames `image`'s GIF decoder makes of `data`: each frame's width,
/// height, RGBA bytes, and delay as milliseconds in lowest terms (numerator,
/// denominator).
pub uninterp spec fn spec_gif_frames(data: Seq<u8>) -> Option<Seq<(u32, u32, Seq<u8>, u32, u32)>>;

/// The thumbnail (width, height, RGBA bytes) `DynamicImage::thumbnail`
/// makes of an RGBA image to fit within `side` by `side`.
pub uninterp spec fn spec_thumbnail(width: u32, height: u32, rgba: Seq<u8>, side: u32) -> Option<
    (u32, u32, Seq<u8>),
>;

/// The view of an image: width, height and the bytes of its pixels.
pub open spec fn image_view(image: (u32, u32, Vec<u8>)) -> (u32, u32, Seq<u8>) {
    (image.0, image.1, image.2@)
}

/// The view of a decoded GIF frame.
pub open spec fn frame_view(frame: (u32, u32, Vec<u8>, u32, u32)) -> (u32, u32, Seq<u8>, u32, u32) {
    (frame.0, frame.1, frame.2@, frame.3, frame.4)
}

/// Calls `imagesize::blob_size` on `data`; the contract names its result.
#[verifier::external_body]
fn blob_size(data: &[u8]) -> (res: Option<(usize, usize)>)
    ensures
        res == spec_blob_size(data@),
{
    imagesize::blob_size(data).ok().map(|size| (size.width, size.height))
}

/// Decodes `data` with `image`, as the format `ImageFormat::from_extension`
/// gives for `ext`, and converts the image to RGBA; the contract names the
/// result.
#[verifier::external_body]
fn decode_rgba(data: &[u8], ext: &str) -> (res: Option<(u32, u32, Vec<u8>)>)
    ensures
        match res {
            Some(image) => spec_decode_rgba(data@, ext@) == Some(image_view(image)),
            None => spec_decode_rgba(data@, ext@) is None,
        },
{
    let format = image::ImageFormat::from_extension(ext)?;
    let reader = image::ImageReader::with_format(std::io::Cursor::new(data), format);
    let rgba = reader.decode().ok()?.to_rgba8();
    Some((rgba.width(), rgba.height(), rgba.into_raw()))
}

/// Decodes every frame of the GIF `data` with `image`'s `GifDecoder`. The
/// contract names the result, and states what `Delay`'s source shows: its
/// ratio is kept in lowest terms with a denominator that is never zero.
#[verifier::external_body]
fn gif_frames(data: &[u8]) -> (res: Option<Vec<(u32, u32, Vec<u8>, u32, u32)>>)
    ensures
        match res {
            Some(frames) => spec_gif_frames(data@) == Some(frames@.map_values(|f| frame_view(f)))
                && forall|i: int| 0 <= i < frames@.len() ==> #[trigger] frames@[i].4 > 0,
            None => spec_gif_frames(data@) is None,
        },
{
    let decoder = image::codecs::gif::GifDecoder::new(std::io::Cursor::new(data)).ok()?;
    let frames = image::AnimationDecoder::into_frames(decoder).collect_frames().ok()?;
    Some(frames.into_iter().map(|frame| {
        let (numer, denom) = frame.delay().numer_denom_ms();
        let buffer = frame.into_buffer();
        (buffer.width(), buffer.height(), buffer.into_raw(), numer, denom)
    }).collect())
}

/// Makes the `DynamicImage::thumbnail` of the RGBA image `rgba` (of
/// `width` by `height`) to fit within `side` by `side`; the contract names
/// the result, and states what the method's documentation promises: the
/// thumbnail fits within those bounds. Nothing comes when `rgba` does not
/// hold `width` by `height` pixels.
#[verifier::external_body]
fn thumbnail_rgba(width: u32, height: u32, rgba: &[u8], side: u32) -> (res: Option<(u32, u32, Vec<u8>)>)
    requires
        1 <= side,
    ensures
        match res {
            Some(thumb) => spec_thumbnail(width, height, rgba@, side) == Some(image_view(thumb))
                && thumb.0 <= side && thumb.1 <= side,
            None => spec_thumbnail(width, height, rgba@, side) is None,
        },
{
    let image = image::RgbaImage::from_raw(width, height, rgba.to_vec())?;
    let thumb = image::DynamicImage::ImageRgba8(image).thumbnail(side, side).to_rgba8();
    Some((thumb.width(), thumb.height(), thumb.into_raw()))
}

/// The size (width, height) of the image file `data`, from its header.
pub fn image_size(data: &[u8]) -> (size: Option<(usize, usize)>)
    ensures
        size == spec_blob_size(data@),
{
    blob_size(data)
}

/// What decoding the image file at `path`, whose contents are `data`,
/// gives: the format is named by the path's extension, and a path without
/// one, or with an empty one, gives nothing.
pub open spec fn decoded(data: Seq<u8>, path: Seq<char>) -> Option<(u32, u32, Seq<u8>)> {
    match spec_extension(path) {
        Some(ext) => if ext.len() == 0 {
            None
        } else {
            spec_decode_rgba(data, ext)
        },
        None => None,
    }
}

/// Decodes the image file at `path`, whose contents are `data`, into RGBA
/// pixels: see [`decoded`].
pub fn decode_image(data: &[u8], path: &str) -> (image: Option<(u32, u32, Vec<u8>)>)
    ensures
        match image {
            Some(image) => decoded(data@, path@) == Some(image_view(image)),
            None => decoded(data@, path@) is None,
        },
{
    match path_extension(path) {
        Some(ext) => if ext.as_str().unicode_len() == 0 {
            None
        } else {
            decode_rgba(data, ext.as_str())
        },
        None => None,
    }
}

/// The thumbnail, fitting within `side` by `side`, of the image file at
/// `path` whose contents are `data`: its decoded pixels (see [`decoded`])
/// made into a thumbnail.
pub fn image_thumbnail(data: &[u8], path: &str, side: u32) -> (thumb: Option<(u32, u32, Vec<u8>)>)
    requires
        1 <= side,
    ensures
        match decoded(data@, path@) {
            Some((w, h, rgba)) => match thumb {
                Some(t) => spec_thumbnail(w, h, rgba, side) == Some(image_view(t)) && t.0 <= side
                    && t.1 <= side,
                None => spec_thumbnail(w, h, rgba, side) is None,
            },
            None => thumb is None,
        },
{
    match decode_image(data, path) {
        Some((w, h, rgba)) => thumbnail_rgba(w, h, rgba.as_slice(), side),
        None => None,
    }
}

/// The nanoseconds of a delay of `numer` / `denom` milliseconds, as
/// `image` converts a frame `Delay` into a `Duration`: the whole
/// milliseconds, and the fraction left, in whole nanoseconds rounded down.
pub open spec fn spec_delay_nanos(numer: u32, denom: u32) -> nat {
    ((numer / denom) * 1_000_000 + (numer % denom) as nat * 1_000_000 / denom as nat) as nat
}

/// The nanoseconds of a delay of `numer` / `denom` milliseconds: see
/// [`spec_delay_nanos`].
pub fn delay_nanos(numer: u32, denom: u32) -> (nanos: u64)
    requires
        denom > 0,
    ensures
        nanos == spec_delay_nanos(numer, denom),
{
    let whole = (numer / denom) as u64;
    let rest = (numer % denom) as u64;
    proof {
        assert(rest * 1_000_000 <= 0xffff_ffff * 1_000_000) by (nonlinear_arith)
            requires
                rest <= 0xffff_ffff,
        ;
        assert(whole * 1_000_000 <= 0xffff_ffff * 1_000_000) by (nonlinear_arith)
            requires
                whole <= 0xffff_ffff,
        ;
        assert((rest * 1_000_000) / (denom as int) <= rest * 1_000_000) by (nonlinear_arith)
            requires
                denom >= 1,
                rest >= 0,
        ;
    }
    whole * 1_000_000 + rest * 1_000_000 / (denom as u64)
}

/// The frames of the GIF `data` as RGBA images, and the delay of each in
/// nanoseconds (see [`spec_delay_nanos`]); nothing when it cannot be
/// decoded.
pub fn decode_gif(data: &[u8]) -> (res: Option<(Vec<(u32, u32, Vec<u8>)>, Vec<u64>)>)
    ensures
        match spec_gif_frames(data@) {
            Some(frames) => res matches Some((images, delays)) && images@.len() == frames.len()
                && delays@.len() == frames.len() && forall|i: int|
                0 <= i < frames.len() ==> image_view(#[trigger] images@[i]) == (
                    frames[i].0,
                    frames[i].1,
                    frames[i].2,
                ) && delays@[i] == spec_delay_nanos(frames[i].3, frames[i].4),
            None => res is None,
        },
{
    let mut pending = match gif_frames(data) {
        Some(frames) => frames,
        None => {
            return None;
        },
    };
    let ghost all = pending@;
    let ghost frames = all.map_values(|f| frame_view(f));
    let n = pending.len();
    let mut images: Vec<(u32, u32, Vec<u8>)> = Vec::new();
    let mut delays: Vec<u64> = Vec::new();
    let mut i: usize = 0;
    while i < n
        invariant
            n == all.len(),
            0 <= i <= n,
            frames == all.map_values(|f| frame_view(f)),
            forall|k: int| 0 <= k < all.len() ==> #[trigger] all[k].4 > 0,
            pending@ == all.skip(i as int),
            images@.len() == i,
            delays@.len() == i,
            forall|k: int|
                0 <= k < i ==> image_view(#[trigger] images@[k]) == (
                    frames[k].0,
                    frames[k].1,
                    frames[k].2,
                ) && delays@[k] == spec_delay_nanos(frames[k].3, frames[k].4),
        decreases n - i,
    {
        let (width, height, pixels, numer, denom) = pending.remove(0);
        assert(all[i as int] == (width, height, pixels, numer, denom));
        assert(pending@ =~= all.skip(i + 1));
        let nanos = delay_nanos(numer, denom);
        images.push((width, height, pixels));
        delays.push(nanos);
        i = i + 1;
    }
    Some((images, delays))
}

} // verus!
