use image::imageops::FilterType;
use image::{DynamicImage, GenericImageView, ImageOutputFormat, Rgb, RgbImage, Rgba, RgbaImage};
use std::io::Cursor;
use wallpaper_tool::picture::{
    base_from_bytes, check_base_fits, compose_base, decode_source, encode_wallpaper, source_size, try_compose_base, Canvas,
    ComposeError, JPEG_MAX_EXTENT, WALLPAPER_QUALITY,
};

fn png_bytes(picture: &DynamicImage) -> Vec<u8> {
    let mut bytes = Vec::new();
    picture.write_to(&mut Cursor::new(&mut bytes), ImageOutputFormat::Png).unwrap();
    bytes
}

fn gradient(width: u32, height: u32) -> DynamicImage {
    let mut picture = RgbImage::new(width, height);
    for y in 0..height {
        for x in 0..width {
            picture.put_pixel(x, y, Rgb([(x * 37 % 256) as u8, (y * 91 % 256) as u8, ((x + y) * 13 % 256) as u8]));
        }
    }
    DynamicImage::ImageRgb8(picture)
}

/// The base layer made with the codec directly: cover size, resample, centre.
fn reference_base(source: &DynamicImage, tw: u32, th: u32) -> RgbaImage {
    let (sw, sh) = source.dimensions();
    let (cw, ch) = if (tw as u64) * (sh as u64) >= (th as u64) * (sw as u64) {
        (tw, ((sh as u64) * (tw as u64) / (sw as u64)) as u32)
    } else {
        (((sw as u64) * (th as u64) / (sh as u64)) as u32, th)
    };
    let scaled = source.resize_exact(cw, ch, FilterType::Triangle);
    let mut canvas = RgbaImage::new(tw, th);
    let x = (tw as i64 - cw as i64) / 2;
    let y = (th as i64 - ch as i64) / 2;
    image::imageops::overlay(&mut canvas, &scaled.to_rgba8(), x, y);
    canvas
}

#[test]
fn decode_source_reads_a_png() {
    let source = decode_source(&png_bytes(&gradient(5, 3))).unwrap();
    assert_eq!(source_size(&source), (5, 3));
    assert_eq!(source.to_rgb8(), gradient(5, 3).to_rgb8());
}

#[test]
fn decode_source_rejects_what_is_no_picture() {
    assert!(matches!(decode_source(b"this is no picture"), Err(ComposeError::Decode(_))));
    assert!(matches!(decode_source(b""), Err(ComposeError::Decode(_))));
    let mut cut = png_bytes(&gradient(5, 3));
    cut.truncate(20);
    match decode_source(&cut) {
        Err(ComposeError::Decode(message)) => assert!(!message.is_empty()),
        other => panic!("a cut file was decoded: {:?}", other.map(|p| p.dimensions())),
    }
}

#[test]
fn composed_canvas_has_the_screen_size_whatever_the_source() {
    for (sw, sh) in [(1u32, 1u32), (5, 3), (3, 5), (64, 2), (2, 64), (40, 30)] {
        for (tw, th) in [(1u32, 1u32), (16, 9), (9, 16), (32, 32), (7, 50)] {
            let canvas = compose_base(&gradient(sw, sh), tw, th).unwrap();
            assert_eq!((canvas.width, canvas.height), (tw, th));
            assert_eq!(canvas.pixels.len(), (4 * tw * th) as usize);
            assert!(canvas.is_well_formed());
        }
    }
}

#[test]
fn a_plain_source_fills_the_whole_canvas() {
    let source = DynamicImage::ImageRgb8(RgbImage::from_pixel(4, 2, Rgb([10, 20, 30])));
    let canvas = compose_base(&source, 8, 8).unwrap();
    assert_eq!(canvas.pixels.len(), 8 * 8 * 4);
    for pixel in canvas.pixels.chunks(4) {
        assert_eq!(pixel, &[10u8, 20, 30, 255][..]);
    }
}

#[test]
fn compose_base_agrees_with_the_codec_used_directly() {
    for (sw, sh, tw, th) in [(5u32, 3u32, 16u32, 9u32), (3, 5, 16, 9), (40, 30, 17, 31), (16, 9, 16, 9), (2, 1, 2, 2)] {
        let source = gradient(sw, sh);
        let canvas = compose_base(&source, tw, th).unwrap();
        let expected = reference_base(&source, tw, th);
        assert_eq!(canvas.pixels, expected.into_raw(), "{}x{} on {}x{}", sw, sh, tw, th);
    }
}

#[test]
fn the_overflowing_axis_is_cut_in_the_middle() {
    let mut picture = RgbImage::new(4, 1);
    picture.put_pixel(0, 0, Rgb([255, 0, 0]));
    picture.put_pixel(1, 0, Rgb([0, 255, 0]));
    picture.put_pixel(2, 0, Rgb([0, 255, 0]));
    picture.put_pixel(3, 0, Rgb([0, 0, 255]));
    let canvas = compose_base(&DynamicImage::ImageRgb8(picture), 2, 1).unwrap();
    assert_eq!(canvas.pixels, vec![0, 255, 0, 255, 0, 255, 0, 255]);
}

#[test]
fn a_source_without_pixels_is_refused() {
    assert_eq!(compose_base(&DynamicImage::new_rgb8(0, 5), 8, 8), Err(ComposeError::EmptySource));
    assert_eq!(compose_base(&DynamicImage::new_rgba8(5, 0), 8, 8), Err(ComposeError::EmptySource));
    assert_eq!(compose_base(&DynamicImage::new_luma8(0, 0), 8, 8), Err(ComposeError::EmptySource));
    assert_eq!(try_compose_base(&DynamicImage::new_rgb8(0, 5), u32::MAX, u32::MAX), Some(Err(ComposeError::EmptySource)));
}

#[test]
fn try_compose_base_declines_what_memory_cannot_hold() {
    let source = gradient(2, 2);
    assert_eq!(try_compose_base(&source, u32::MAX, u32::MAX), None);
    assert!(!check_base_fits(2, 2, u32::MAX, u32::MAX));
    assert!(!check_base_fits(u32::MAX, 1, 1, u32::MAX));
    assert!(check_base_fits(1, 4096, 1, 1));
    assert!(check_base_fits(1920, 1080, 1920, 1080));
    let canvas = try_compose_base(&source, 6, 4).unwrap().unwrap();
    assert_eq!(canvas, compose_base(&source, 6, 4).unwrap());
}

#[test]
fn blank_canvas_is_transparent_black() {
    let canvas = Canvas::blank(3, 2);
    assert_eq!((canvas.width, canvas.height), (3, 2));
    assert_eq!(canvas.pixels, vec![0u8; 24]);
    assert!(canvas.is_well_formed());
    assert!(Canvas::blank(0, 7).pixels.is_empty());
    assert!(!Canvas { width: 2, height: 2, pixels: vec![0; 15] }.is_well_formed());
    assert!(!Canvas { width: 2, height: 2, pixels: vec![0; 17] }.is_well_formed());
}

#[test]
fn encode_wallpaper_writes_a_jpeg_of_the_canvas() {
    let canvas = compose_base(&gradient(40, 30), 32, 24).unwrap();
    let bytes = encode_wallpaper(&canvas).unwrap();
    assert_eq!(&bytes[..2], &[0xFF, 0xD8]);
    assert_eq!(&bytes[bytes.len() - 2..], &[0xFF, 0xD9]);
    let back = image::load_from_memory(&bytes).unwrap();
    assert_eq!(back.dimensions(), (32, 24));
    assert_ne!(bytes, canvas.pixels);
}

#[test]
fn encode_wallpaper_agrees_with_the_encoder_used_directly() {
    assert_eq!(WALLPAPER_QUALITY, 95);
    let canvas = compose_base(&gradient(9, 7), 20, 10).unwrap();
    let picture = RgbaImage::from_raw(20, 10, canvas.pixels.clone()).unwrap();
    let mut expected = Vec::new();
    image::codecs::jpeg::JpegEncoder::new_with_quality(&mut expected, 95).encode_image(&picture).unwrap();
    assert_eq!(encode_wallpaper(&canvas).unwrap(), expected);
    let mut other = Vec::new();
    image::codecs::jpeg::JpegEncoder::new_with_quality(&mut other, 50).encode_image(&picture).unwrap();
    assert_ne!(encode_wallpaper(&canvas).unwrap(), other);
}

#[test]
fn encode_wallpaper_fails_beyond_what_a_jpeg_records() {
    assert_eq!(JPEG_MAX_EXTENT, 65535);
    let wide = Canvas { width: 65536, height: 1, pixels: vec![0; 4 * 65536] };
    assert!(matches!(encode_wallpaper(&wide), Err(ComposeError::Encode(_))));
    let tall = Canvas { width: 1, height: 65536, pixels: vec![0; 4 * 65536] };
    assert!(matches!(encode_wallpaper(&tall), Err(ComposeError::Encode(_))));
    let widest = Canvas { width: 65535, height: 1, pixels: vec![0; 4 * 65535] };
    assert!(encode_wallpaper(&widest).is_ok());
}

#[test]
fn translucent_pixels_are_blended_onto_the_blank_canvas() {
    let source = DynamicImage::ImageRgba8(RgbaImage::from_pixel(2, 2, Rgba([200, 100, 50, 128])));
    let canvas = compose_base(&source, 2, 2).unwrap();
    let expected = reference_base(&source, 2, 2);
    assert_eq!(canvas.pixels, expected.into_raw());
    assert_ne!(canvas.pixels, vec![0u8; 16]);
}

#[test]
fn base_from_bytes_decodes_and_composes() {
    let source = gradient(5, 3);
    let bytes = png_bytes(&source);
    let canvas = base_from_bytes(&bytes, 16, 9).unwrap().unwrap();
    assert_eq!(canvas, compose_base(&source, 16, 9).unwrap());
    assert!(matches!(base_from_bytes(b"no picture", 16, 9), Some(Err(ComposeError::Decode(_)))));
    assert_eq!(base_from_bytes(&bytes, u32::MAX, u32::MAX), None);
}
