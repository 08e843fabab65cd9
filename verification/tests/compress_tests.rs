use asset_pipeline::compress::{compress_image_to_jpeg_under_limit, target_dimensions};
use asset_pipeline::errors::PipelineError;
use image::GenericImageView;

#[test]
fn target_dimensions_cap_and_ratio() {
    assert_eq!(target_dimensions(3000, 1000), (1920, 640));
    assert_eq!(target_dimensions(1000, 3000), (640, 1920));
    assert_eq!(target_dimensions(5000, 5000), (1920, 1920));
    assert_eq!(target_dimensions(4000, 1), (1920, 1));
}

#[test]
fn target_dimensions_never_upscale() {
    assert_eq!(target_dimensions(100, 50), (100, 50));
    assert_eq!(target_dimensions(1920, 1920), (1920, 1920));
    assert_eq!(target_dimensions(1, 1), (1, 1));
}

/// A PNG of the given size filled with smooth interfering waves: large as a
/// PNG, yet friendly to JPEG re-encoding.
fn block_noise_png(w: u32, h: u32) -> Vec<u8> {
    let img = image::RgbImage::from_fn(w, h, |x, y| {
        let xf = x as f64;
        let yf = y as f64;
        let r = ((xf * 0.11).sin() * (yf * 0.07).cos() * 127.0 + 128.0) as u8;
        let g = ((xf * 0.05 + yf * 0.13).sin() * 127.0 + 128.0) as u8;
        let b = ((xf * 0.02).cos() * (yf * 0.03).sin() * 127.0 + 128.0) as u8;
        image::Rgb([r, g, b])
    });
    let mut out = Vec::new();
    image::DynamicImage::ImageRgb8(img)
        .write_to(&mut std::io::Cursor::new(&mut out), image::ImageFormat::Png)
        .unwrap();
    out
}

#[test]
fn oversized_image_lands_under_budget_at_the_cap() {
    let png = block_noise_png(3000, 1000);
    assert!(png.len() > 500000);
    let out = compress_image_to_jpeg_under_limit(&png, 500000).unwrap();
    assert!(out.len() <= 500000);
    let img = image::load_from_memory(&out).unwrap();
    let (w, h) = img.dimensions();
    assert_eq!(w.max(h), 1920);
    // aspect ratio 3:1 within a pixel of rounding
    assert_eq!(w, 1920);
    assert!((639..=641).contains(&h));
}

#[test]
fn small_image_is_never_upscaled() {
    let png = block_noise_png(100, 50);
    let out = compress_image_to_jpeg_under_limit(&png, 10_000_000).unwrap();
    let img = image::load_from_memory(&out).unwrap();
    assert_eq!(img.dimensions(), (100, 50));
}

#[test]
fn result_is_jpeg_with_alpha_flattened() {
    let rgba = image::RgbaImage::from_fn(64, 64, |x, y| {
        image::Rgba([x as u8 * 4, y as u8 * 4, 128, 10])
    });
    let mut png = Vec::new();
    image::DynamicImage::ImageRgba8(rgba)
        .write_to(&mut std::io::Cursor::new(&mut png), image::ImageFormat::Png)
        .unwrap();
    let out = compress_image_to_jpeg_under_limit(&png, 10_000_000).unwrap();
    // JPEG magic marker, and a decode without an alpha channel
    assert_eq!(&out[0..2], &[0xff, 0xd8]);
    let img = image::load_from_memory(&out).unwrap();
    assert_eq!(img.color().channel_count(), 3);
}

#[test]
fn impossible_budget_fails_and_never_returns_oversize() {
    let png = block_noise_png(400, 300);
    let e = compress_image_to_jpeg_under_limit(&png, 50).unwrap_err();
    assert!(matches!(e, PipelineError::EncodingFailure(_)));
    assert_eq!(e.message(), "unable to compress image under size limit");
}

#[test]
fn identical_inputs_give_identical_results() {
    let png = block_noise_png(300, 200);
    let a = compress_image_to_jpeg_under_limit(&png, 1_000_000).unwrap();
    let b = compress_image_to_jpeg_under_limit(&png, 1_000_000).unwrap();
    assert_eq!(a, b);
}

#[test]
fn corrupt_input_fails_with_a_decode_error() {
    let garbage = vec![0u8, 1, 2, 3, 4, 5, 6, 7];
    let e = compress_image_to_jpeg_under_limit(&garbage, 1000).unwrap_err();
    assert!(matches!(e, PipelineError::EncodingFailure(_)));
    assert_ne!(e.message(), "unable to compress image under size limit");
}
