//! The pixels of the wallpaper: decoding the source picture, scaling it so that
//! it covers the screen, centring it on a canvas of the screen's size, and
//! encoding the finished canvas.
//!
//! Decoding, resampling, blending and encoding are the work of the `image`
//! crate. The functions that call it are marked as trusted; what each of them
//! claims is said above it.

use vstd::prelude::*;
use vstd::string::*;
use crate::geometry::{center_offset, centered_offset, cover_height, cover_size, cover_width, within_u32};

verus! {

/// A decoded picture in whatever pixel format its file had.
#[verifier::external_type_specification]
#[verifier::external_body]
pub struct ExDynamicImage(image::DynamicImage);

/// Why the `image` crate could not decode or encode.
#[verifier::external_type_specification]
#[verifier::external_body]
pub struct ExImageError(image::ImageError);

/// JPEG quality of the wallpaper.
pub const WALLPAPER_QUALITY: u8 = 95;

/// The largest width and height that a JPEG file can record.
pub const JPEG_MAX_EXTENT: u32 = 0xFFFF;

/// An image of 8-bit RGBA pixels, row by row from the top, four bytes a pixel.
#[derive(Clone, Debug, PartialEq, Eq)]
pub struct Canvas {
    pub width: u32,
    pub height: u32,
    pub pixels: Vec<u8>,
}

/// How a picture is resampled when it is resized.
#[derive(Clone, Copy, Debug, PartialEq, Eq, Structural)]
pub enum ResizeFilter {
    Nearest,
    Triangle,
    CatmullRom,
    Gaussian,
    Lanczos3,
}

/// Why no wallpaper could be composed.
#[derive(Clone, Debug, PartialEq, Eq)]
pub enum ComposeError {
    /// The source is no picture that can be decoded. Holds the decoder's message.
    Decode(String),
    /// The source picture has no width or no height.
    EmptySource,
    /// The canvas could not be encoded. Holds the encoder's message.
    Encode(String),
}

/// The picture that `image::load_from_memory` decodes from `bytes`, if it
/// decodes one.
pub uninterp spec fn decoded(bytes: Seq<u8>) -> Option<image::DynamicImage>;

/// Width and height of a decoded picture.
pub uninterp spec fn picture_size(picture: image::DynamicImage) -> (u32, u32);

/// The pixels of a decoded picture as 8-bit RGBA, row by row.
pub uninterp spec fn rgba_pixels(picture: image::DynamicImage) -> Seq<u8>;

/// The picture that `DynamicImage::resize_exact` makes of `picture` for the
/// size `w` by `h`.
pub uninterp spec fn resized(picture: image::DynamicImage, w: u32, h: u32, filter: ResizeFilter) -> image::DynamicImage;

/// The pixels of a `bw` by `bh` RGBA image after `image::imageops::overlay`
/// has blended a `tw` by `th` RGBA image onto it with its top left corner at
/// `(x, y)`.
pub uninterp spec fn overlaid(
    base: Seq<u8>,
    bw: u32,
    bh: u32,
    top: Seq<u8>,
    tw: u32,
    th: u32,
    x: i64,
    y: i64,
) -> Seq<u8>;

/// The JPEG file that the `image` crate's encoder writes for a `w` by `h` RGBA
/// image at the given quality.
pub uninterp spec fn jpeg_encoding(pixels: Seq<u8>, w: u32, h: u32, quality: u8) -> Seq<u8>;

/// The pixels of a `w` by `h` canvas of transparent black.
pub open spec fn blank_pixels(w: int, h: int) -> Seq<u8> {
    Seq::new((4 * w * h) as nat, |i: int| 0u8)
}

/// What resizing allocates stays within what a vector can hold: the canvas,
/// the picture scaled to `cw` by `ch`, and the intermediate picture of the
/// source's width and the new height, at up to 16 bytes a pixel.
pub open spec fn sizes_fit(sw: int, tw: int, th: int, cw: int, ch: int) -> bool {
    &&& 4 * tw * th <= isize::MAX
    &&& 16 * sw * ch <= isize::MAX
    &&& 16 * cw * ch <= isize::MAX
}

/// The size to which a `sw` by `sh` picture is scaled for a `tw` by `th` screen.
pub open spec fn scaled_size(sw: int, sh: int, tw: int, th: int) -> (int, int) {
    (within_u32(cover_width(sw, sh, tw, th)), within_u32(cover_height(sw, sh, tw, th)))
}

/// Composing the base layer for a `tw` by `th` screen from a `sw` by `sh`
/// picture stays within what a vector can hold.
pub open spec fn base_fits(sw: int, sh: int, tw: int, th: int) -> bool {
    sizes_fit(sw, tw, th, scaled_size(sw, sh, tw, th).0, scaled_size(sw, sh, tw, th).1)
}

/// The pixels of the base layer: the source scaled to cover the screen, laid
/// centred over a blank canvas of the screen's size. What lies outside the
/// canvas is cut off.
pub open spec fn base_pixels(source: image::DynamicImage, tw: u32, th: u32) -> Seq<u8> {
    let (sw, sh) = picture_size(source);
    let (cw, ch) = scaled_size(sw as int, sh as int, tw as int, th as int);
    overlaid(
        blank_pixels(tw as int, th as int),
        tw,
        th,
        rgba_pixels(resized(source, cw as u32, ch as u32, ResizeFilter::Triangle)),
        cw as u32,
        ch as u32,
        centered_offset(tw as int, cw) as i64,
        centered_offset(th as int, ch) as i64,
    )
}

impl Canvas {
    /// The canvas holds four bytes for each of its pixels.
    pub open spec fn well_formed(&self) -> bool {
        self.pixels@.len() == 4 * self.width * self.height
    }

    /// Tells whether the canvas holds four bytes for each of its pixels.
    pub fn is_well_formed(&self) -> (ok: bool)
        ensures
            ok == self.well_formed(),
    {
        proof {
            assert(4 * self.width * self.height <= 4 * 0xFFFF_FFFF * 0xFFFF_FFFF) by (nonlinear_arith)
                requires
                    0 <= self.width <= 0xFFFF_FFFF,
                    0 <= self.height <= 0xFFFF_FFFF,
            ;
        }
        let needed: u128 = 4 * (self.width as u128) * (self.height as u128);
        (self.pixels.len() as u128) == needed
    }

    /// A canvas of transparent black.
    pub fn blank(width: u32, height: u32) -> (canvas: Canvas)
        requires
            4 * width * height <= isize::MAX,
        ensures
            canvas.well_formed(),
            canvas.width == width,
            canvas.height == height,
            canvas.pixels@ == blank_pixels(width as int, height as int),
    {
        proof {
            assert(width * height >= 0) by (nonlinear_arith)
                requires
                    width >= 0,
                    height >= 0,
            ;
            assert(4 * width * height == 4 * (width * height)) by (nonlinear_arith);
        }
        let area: usize = (width as usize) * (height as usize);
        let pixels: Vec<u8> = vec![0u8; 4 * area];
        proof {
            assert(pixels@ =~= blank_pixels(width as int, height as int));
        }
        Canvas { width, height, pixels }
    }
}

/// Calls `image::load_from_memory`, which guesses the file format from the
/// first bytes and decodes. Claims that what it returns depends on the bytes
/// alone.
#[verifier::external_body]
fn load_picture(bytes: &[u8]) -> (loaded: Result<image::DynamicImage, image::ImageError>)
    ensures
        match loaded {
            Ok(picture) => decoded(bytes@) == Some(picture),
            Err(_) => decoded(bytes@) is None,
        },
{
    image::load_from_memory(bytes)
}

/// Calls `GenericImageView::dimensions` of a decoded picture, which returns the
/// width and height of its pixel buffer.
#[verifier::external_body]
fn picture_dimensions(picture: &image::DynamicImage) -> (size: (u32, u32))
    ensures
        size == picture_size(*picture),
{
    image::GenericImageView::dimensions(picture)
}

/// Calls `DynamicImage::resize_exact`, which resamples to exactly `w` by `h`
/// without regard to the aspect ratio. Claims that the result has that size.
/// Left out are a source without pixels, which the resampler cannot read, and
/// sizes whose buffers a vector cannot hold.
#[verifier::external_body]
fn resize_picture(picture: &image::DynamicImage, w: u32, h: u32, filter: ResizeFilter) -> (scaled:
    image::DynamicImage)
    requires
        picture_size(*picture).0 > 0,
        picture_size(*picture).1 > 0,
        16 * picture_size(*picture).0 * h <= isize::MAX,
        16 * w * h <= isize::MAX,
    ensures
        scaled == resized(*picture, w, h, filter),
        picture_size(scaled) == (w, h),
{
    let kind = match filter {
        ResizeFilter::Nearest => image::imageops::FilterType::Nearest,
        ResizeFilter::Triangle => image::imageops::FilterType::Triangle,
        ResizeFilter::CatmullRom => image::imageops::FilterType::CatmullRom,
        ResizeFilter::Gaussian => image::imageops::FilterType::Gaussian,
        ResizeFilter::Lanczos3 => image::imageops::FilterType::Lanczos3,
    };
    picture.resize_exact(w, h, kind)
}

/// Calls `DynamicImage::to_rgba8`, which converts every pixel to 8-bit RGBA
/// and keeps the size, and takes the buffer out of the result.
#[verifier::external_body]
fn rgba_canvas(picture: &image::DynamicImage) -> (canvas: Canvas)
    requires
        4 * picture_size(*picture).0 * picture_size(*picture).1 <= isize::MAX,
    ensures
        canvas.well_formed(),
        canvas.width == picture_size(*picture).0,
        canvas.height == picture_size(*picture).1,
        canvas.pixels@ == rgba_pixels(*picture),
{
    let buffer = picture.to_rgba8();
    Canvas { width: buffer.width(), height: buffer.height(), pixels: buffer.into_raw() }
}

/// Calls `image::imageops::overlay`, which blends the part of `top` that lies
/// over `base` onto it and changes nothing else. Both canvases are handed over
/// as views of their pixel vectors, so the size of `base` cannot change.
#[verifier::external_body]
fn overlay_canvas(base: &mut Canvas, top: &Canvas, x: i64, y: i64)
    requires
        old(base).well_formed(),
        top.well_formed(),
    ensures
        final(base).width == old(base).width,
        final(base).height == old(base).height,
        final(base).well_formed(),
        final(base).pixels@ == overlaid(
            old(base).pixels@,
            old(base).width,
            old(base).height,
            top.pixels@,
            top.width,
            top.height,
            x,
            y,
        ),
{
    let mut bottom: image::ImageBuffer<image::Rgba<u8>, &mut [u8]> = image::ImageBuffer::from_raw(
        base.width,
        base.height,
        base.pixels.as_mut_slice(),
    ).unwrap();
    let above: image::ImageBuffer<image::Rgba<u8>, &[u8]> = image::ImageBuffer::from_raw(
        top.width,
        top.height,
        top.pixels.as_slice(),
    ).unwrap();
    image::imageops::overlay(&mut bottom, &above, x, y);
}

/// Calls `JpegEncoder::new_with_quality` and `encode_image` on a vector. The
/// encoder fails only where a side of the image does not fit the 16 bits that
/// the file format has for it; writing to a vector cannot fail.
#[verifier::external_body]
fn encode_jpeg(canvas: &Canvas, quality: u8) -> (encoded: Result<Vec<u8>, image::ImageError>)
    requires
        canvas.well_formed(),
    ensures
        encoded is Ok == (canvas.width <= JPEG_MAX_EXTENT && canvas.height <= JPEG_MAX_EXTENT),
        encoded matches Ok(bytes) ==> bytes@ == jpeg_encoding(
            canvas.pixels@,
            canvas.width,
            canvas.height,
            quality,
        ),
{
    let view: image::ImageBuffer<image::Rgba<u8>, &[u8]> = image::ImageBuffer::from_raw(
        canvas.width,
        canvas.height,
        canvas.pixels.as_slice(),
    ).unwrap();
    let mut bytes: Vec<u8> = Vec::new();
    let done = image::codecs::jpeg::JpegEncoder::new_with_quality(&mut bytes, quality).encode_image(&view);
    done.map(|_| bytes)
}

/// The message of an `image::ImageError`, as its `Display` gives it.
#[verifier::external_body]
fn error_message(error: &image::ImageError) -> (message: String) {
    format!("{}", error)
}

/// Decodes the source picture from the bytes of its file.
pub fn decode_source(bytes: &[u8]) -> (picture: Result<image::DynamicImage, ComposeError>)
    ensures
        match picture {
            Ok(source) => decoded(bytes@) == Some(source),
            Err(e) => decoded(bytes@) is None && e is Decode,
        },
{
    match load_picture(bytes) {
        Ok(picture) => Ok(picture),
        Err(error) => Err(ComposeError::Decode(error_message(&error))),
    }
}

/// Width and height of a decoded picture.
pub fn source_size(source: &image::DynamicImage) -> (size: (u32, u32))
    ensures
        size == picture_size(*source),
{
    picture_dimensions(source)
}

/// Tells whether composing the base layer stays within what a vector can hold.
pub fn check_base_fits(sw: u32, sh: u32, tw: u32, th: u32) -> (fits: bool)
    requires
        sw > 0,
        sh > 0,
    ensures
        fits == base_fits(sw as int, sh as int, tw as int, th as int),
{
    let (cw, ch) = cover_size(sw, sh, tw, th);
    proof {
        lemma_product_bound(tw as int, th as int);
        lemma_product_bound(sw as int, ch as int);
        lemma_product_bound(cw as int, ch as int);
    }
    let limit: u128 = isize::MAX as u128;
    let canvas: u128 = 4 * ((tw as u128) * (th as u128));
    let strip: u128 = 16 * ((sw as u128) * (ch as u128));
    let scaled: u128 = 16 * ((cw as u128) * (ch as u128));
    canvas <= limit && strip <= limit && scaled <= limit
}

/// The product of two 32-bit lengths is far from the limit of 128 bits.
proof fn lemma_product_bound(a: int, b: int)
    requires
        0 <= a <= 0xFFFF_FFFF,
        0 <= b <= 0xFFFF_FFFF,
    ensures
        0 <= a * b <= 0xFFFF_FFFF * 0xFFFF_FFFF,
        4 * a * b == 4 * (a * b),
        16 * a * b == 16 * (a * b),
{
    assert(0 <= a * b <= 0xFFFF_FFFF * 0xFFFF_FFFF) by (nonlinear_arith)
        requires
            0 <= a <= 0xFFFF_FFFF,
            0 <= b <= 0xFFFF_FFFF,
    ;
    assert(4 * a * b == 4 * (a * b)) by (nonlinear_arith);
    assert(16 * a * b == 16 * (a * b)) by (nonlinear_arith);
}

/// Composes the base layer of the wallpaper for a `tw` by `th` screen: the
/// source scaled to cover the screen and centred on it. Fails where the source
/// has no width or no height.
pub fn compose_base(source: &image::DynamicImage, tw: u32, th: u32) -> (composed: Result<
    Canvas,
    ComposeError,
>)
    requires
        picture_size(*source).0 > 0 && picture_size(*source).1 > 0 ==> base_fits(
            picture_size(*source).0 as int,
            picture_size(*source).1 as int,
            tw as int,
            th as int,
        ),
    ensures
        composed is Ok == (picture_size(*source).0 > 0 && picture_size(*source).1 > 0),
        composed matches Ok(canvas) ==> {
            &&& canvas.well_formed()
            &&& canvas.width == tw
            &&& canvas.height == th
            &&& canvas.pixels@ == base_pixels(*source, tw, th)
        },
        composed matches Err(e) ==> e is EmptySource,
{
    let (sw, sh) = picture_dimensions(source);
    if sw == 0 || sh == 0 {
        return Err(ComposeError::EmptySource);
    }
    let (cw, ch) = cover_size(sw, sh, tw, th);
    proof {
        lemma_product_bound(cw as int, ch as int);
        lemma_product_bound(tw as int, th as int);
    }
    let scaled = resize_picture(source, cw, ch, ResizeFilter::Triangle);
    let top = rgba_canvas(&scaled);
    let mut canvas = Canvas::blank(tw, th);
    overlay_canvas(&mut canvas, &top, center_offset(tw, cw), center_offset(th, ch));
    Ok(canvas)
}

/// Composes the base layer as `compose_base` does, where that stays within
/// what a vector can hold, and returns nothing where it does not.
pub fn try_compose_base(source: &image::DynamicImage, tw: u32, th: u32) -> (attempt: Option<
    Result<Canvas, ComposeError>,
>)
    ensures
        attempt is Some == (picture_size(*source).0 > 0 && picture_size(*source).1 > 0 ==> base_fits(
            picture_size(*source).0 as int,
            picture_size(*source).1 as int,
            tw as int,
            th as int,
        )),
        attempt matches Some(composed) ==> {
            &&& composed is Ok == (picture_size(*source).0 > 0 && picture_size(*source).1 > 0)
            &&& composed matches Ok(canvas) ==> {
                &&& canvas.well_formed()
                &&& canvas.width == tw
                &&& canvas.height == th
                &&& canvas.pixels@ == base_pixels(*source, tw, th)
            }
            &&& composed matches Err(e) ==> e is EmptySource
        },
{
    let (sw, sh) = picture_dimensions(source);
    if sw > 0 && sh > 0 && !check_base_fits(sw, sh, tw, th) {
        None
    } else {
        Some(compose_base(source, tw, th))
    }
}

/// Composes the base layer from the bytes of the source file: decodes them and
/// goes on as `try_compose_base` does.
pub fn base_from_bytes(bytes: &[u8], tw: u32, th: u32) -> (attempt: Option<Result<Canvas, ComposeError>>)
    ensures
        match decoded(bytes@) {
            None => attempt matches Some(Err(e)) && e is Decode,
            Some(source) => if picture_size(source).0 == 0 || picture_size(source).1 == 0 {
                attempt == Some(Err::<Canvas, ComposeError>(ComposeError::EmptySource))
            } else if !base_fits(
                picture_size(source).0 as int,
                picture_size(source).1 as int,
                tw as int,
                th as int,
            ) {
                attempt is None
            } else {
                &&& attempt matches Some(Ok(canvas))
                &&& canvas.well_formed()
                &&& canvas.width == tw
                &&& canvas.height == th
                &&& canvas.pixels@ == base_pixels(source, tw, th)
            },
        },
{
    match decode_source(bytes) {
        Ok(source) => try_compose_base(&source, tw, th),
        Err(error) => Some(Err(error)),
    }
}

/// Encodes the finished canvas as the JPEG file of the wallpaper. Fails where
/// a side of the canvas is longer than a JPEG file can record.
pub fn encode_wallpaper(canvas: &Canvas) -> (encoded: Result<Vec<u8>, ComposeError>)
    requires
        canvas.well_formed(),
    ensures
        encoded is Ok == (canvas.width <= JPEG_MAX_EXTENT && canvas.height <= JPEG_MAX_EXTENT),
        encoded matches Ok(bytes) ==> bytes@ == jpeg_encoding(
            canvas.pixels@,
            canvas.width,
            canvas.height,
            WALLPAPER_QUALITY,
        ),
        encoded matches Err(e) ==> e is Encode,
{
    match encode_jpeg(canvas, WALLPAPER_QUALITY) {
        Ok(bytes) => Ok(bytes),
        Err(error) => Err(ComposeError::Encode(error_message(&error))),
    }
}

} // verus!
