use vstd::prelude::*;

verus! {

// ---------------------------------------------------------------------------
// Outside values the wrappers below traffic in. Each carrier struct is
// opaque: the names `rgba_pixels`, `rgba_dims`, `gif_remaining`,
// `gif_canvas` and `gif_clean` stand for what a value of it holds.
// ---------------------------------------------------------------------------

#[verifier::external_type_specification]
#[verifier::external_body]
pub struct ExImageError(image::ImageError);

#[verifier::external_type_specification]
#[verifier::external_body]
pub struct ExGifDecodingError(gif::DecodingError);

/// A decoded RGBA image buffer of the image crate. Held behind an opaque
/// struct because its own type takes trait bounds Verus cannot declare.
#[verifier::external_body]
pub struct RgbaBuffer {
    inner: image::ImageBuffer<image::Rgba<u8>, Vec<u8>>,
}

/// An open GIF decoder of the gif crate reading from an in-memory byte
/// buffer, configured for full RGBA frame output.
#[verifier::external_body]
pub struct GifDecoder {
    inner: gif::Decoder<std::io::Cursor<Vec<u8>>>,
}

// ---------------------------------------------------------------------------
// Still images.
// ---------------------------------------------------------------------------

/// The raw bytes an RGBA image buffer holds: four bytes per pixel,
/// row-major.
pub uninterp spec fn rgba_pixels(img: RgbaBuffer) -> Seq<u8>;

/// The width and height of an RGBA image buffer.
pub uninterp spec fn rgba_dims(img: RgbaBuffer) -> (u32, u32);

/// What decoding a byte string as a still image yields: `None` when the
/// bytes are not a decodable image, else the image's width, height and raw
/// RGBA bytes. Decoding is a function of the bytes alone.
pub uninterp spec fn decoded(bytes: Seq<u8>) -> Option<(u32, u32, Seq<u8>)>;

/// The raw RGBA bytes of the smooth (Catmull-Rom) resampling of a raw RGBA
/// buffer with the given dimensions to the given target dimensions. A
/// function of its arguments alone.
pub uninterp spec fn resized(pixels: Seq<u8>, sw: u32, sh: u32, tw: u32, th: u32) -> Seq<u8>;

/// Relies on image::load_from_memory, which detects the on-disk format and
/// decodes, and on DynamicImage::into_rgba8, which converts the decoded
/// image to the 4-bytes-per-pixel RGBA representation. The buffer length
/// equals width * height * 4 by the buffer's own construction.
#[verifier::external_body]
pub fn decode_rgba(bytes: &Vec<u8>) -> (r: Result<RgbaBuffer, image::ImageError>)
    ensures
        match r {
            Ok(img) => decoded(bytes@) == Some(
                (rgba_dims(img).0, rgba_dims(img).1, rgba_pixels(img)),
            ) && rgba_pixels(img).len() == 4 * rgba_dims(img).0 * rgba_dims(img).1,
            Err(_) => decoded(bytes@) is None,
        },
{
    image::load_from_memory(bytes.as_slice()).map(|i| RgbaBuffer { inner: i.into_rgba8() })
}

/// Relies on image::imageops::resize with the Catmull-Rom filter: the
/// result has exactly the requested dimensions, whatever the source
/// dimensions were, and its buffer holds width * height * 4 bytes.
#[verifier::external_body]
pub fn resize_rgba(img: &RgbaBuffer, width: u32, height: u32) -> (r: RgbaBuffer)
    requires
        4 * width * height <= usize::MAX,
    ensures
        rgba_dims(r) == (width, height),
        rgba_pixels(r) == resized(
            rgba_pixels(*img),
            rgba_dims(*img).0,
            rgba_dims(*img).1,
            width,
            height,
        ),
        rgba_pixels(r).len() == 4 * width * height,
{
    RgbaBuffer {
        inner: image::imageops::resize(
            &img.inner,
            width,
            height,
            image::imageops::FilterType::CatmullRom,
        ),
    }
}

/// Relies on ImageBuffer::from_vec: a buffer of exactly width * height * 4
/// bytes is accepted and kept as the image's raw contents.
#[verifier::external_body]
pub fn rgba_from_vec(width: u32, height: u32, buf: Vec<u8>) -> (r: Option<RgbaBuffer>)
    requires
        buf@.len() == 4 * width * height,
    ensures
        match r {
            Some(img) => rgba_dims(img) == (width, height) && rgba_pixels(img) == buf@,
            None => false,
        },
{
    image::ImageBuffer::from_vec(width, height, buf).map(|inner| RgbaBuffer { inner })
}

/// Relies on ImageBuffer::into_raw: it returns the raw contents.
#[verifier::external_body]
pub fn rgba_into_raw(img: RgbaBuffer) -> (r: Vec<u8>)
    ensures
        r@ == rgba_pixels(img),
{
    img.inner.into_raw()
}

/// Relies on ImageError's Display impl for the text of a decode failure.
#[verifier::external_body]
pub fn image_error_text(e: &image::ImageError) -> String {
    format!("{}", e)
}

// ---------------------------------------------------------------------------
// Animations.
// ---------------------------------------------------------------------------

/// What opening a byte string as a GIF yields: `None` when the header is
/// not decodable; otherwise the canvas width and height, the sequence of
/// frames (each frame's width, height, and raw RGBA bytes) that decoding
/// will deliver, and whether the container then ends cleanly rather than
/// in a mid-stream decode error. A function of the bytes alone.
pub uninterp spec fn gif_decoding(bytes: Seq<u8>) -> Option<
    (u16, u16, Seq<(u16, u16, Seq<u8>)>, bool),
>;

/// The frames a GIF decoder has yet to deliver.
pub uninterp spec fn gif_remaining(d: GifDecoder) -> Seq<(u16, u16, Seq<u8>)>;

/// The canvas dimensions a GIF decoder read from the header.
pub uninterp spec fn gif_canvas(d: GifDecoder) -> (u16, u16);

/// Whether the decoder's container ends cleanly after its frames, rather
/// than in a mid-stream decode error.
pub uninterp spec fn gif_clean(d: GifDecoder) -> bool;

/// Relies on gif::DecodeOptions::read_info, configured to expand every
/// frame to full RGBA output. On success the decoder will deliver exactly
/// the frames that the bytes hold.
#[verifier::external_body]
pub fn gif_open(bytes: Vec<u8>) -> (r: Result<GifDecoder, gif::DecodingError>)
    ensures
        match r {
            Ok(d) => gif_decoding(bytes@) matches Some(info) && gif_canvas(d) == (info.0, info.1)
                && gif_remaining(d) == info.2 && gif_clean(d) == info.3,
            Err(_) => gif_decoding(bytes@) is None,
        },
{
    let mut options = gif::DecodeOptions::new();
    options.set_color_output(gif::ColorOutput::RGBA);
    options.read_info(std::io::Cursor::new(bytes)).map(|inner| GifDecoder { inner })
}

/// Relies on gif::Decoder::width: the canvas width from the header.
#[verifier::external_body]
pub fn gif_width(d: &GifDecoder) -> (r: u16)
    ensures
        r == gif_canvas(*d).0,
{
    d.inner.width()
}

/// Relies on gif::Decoder::height: the canvas height from the header.
#[verifier::external_body]
pub fn gif_height(d: &GifDecoder) -> (r: u16)
    ensures
        r == gif_canvas(*d).1,
{
    d.inner.height()
}

/// Relies on gif::Decoder::read_next_frame with RGBA output configured:
/// each delivered frame carries its own width and height and a buffer of
/// exactly width * height * 4 bytes; `None` marks the clean end of the
/// container, and an error can only follow the last deliverable frame.
#[verifier::external_body]
pub fn gif_next_frame(d: &mut GifDecoder) -> (r: Result<
    Option<(u16, u16, Vec<u8>)>,
    gif::DecodingError,
>)
    ensures
        gif_canvas(*final(d)) == gif_canvas(*old(d)),
        gif_clean(*final(d)) == gif_clean(*old(d)),
        match r {
            Ok(Some(f)) => gif_remaining(*old(d)).len() > 0 && f.0 == gif_remaining(*old(d))[0].0
                && f.1 == gif_remaining(*old(d))[0].1 && f.2@ == gif_remaining(*old(d))[0].2
                && gif_remaining(*final(d)) == gif_remaining(*old(d)).drop_first()
                && f.2@.len() == 4 * f.0 * f.1,
            Ok(None) => gif_remaining(*old(d)).len() == 0 && gif_clean(*old(d)) && gif_remaining(
                *final(d),
            ).len() == 0,
            Err(_) => gif_remaining(*old(d)).len() == 0 && !gif_clean(*old(d)),
        },
{
    match d.inner.read_next_frame() {
        Ok(Some(frame)) => Ok(Some((frame.width, frame.height, frame.buffer.to_vec()))),
        Ok(None) => Ok(None),
        Err(e) => Err(e),
    }
}

/// Relies on DecodingError's Display impl for the text of a failure.
#[verifier::external_body]
pub fn gif_error_text(e: &gif::DecodingError) -> String {
    format!("{}", e)
}

} // verus!
