use sqsh::pipeline::{stage_transform, TransformError, TransformKind};

fn s(x: &str) -> String {
    x.to_string()
}

fn solid_png(w: u32, h: u32) -> Vec<u8> {
    let img = image::DynamicImage::ImageRgb8(image::RgbImage::from_pixel(
        w,
        h,
        image::Rgb([10, 200, 30]),
    ));
    let mut cur = std::io::Cursor::new(Vec::new());
    img.write_to(&mut cur, image::ImageFormat::Png).unwrap();
    cur.into_inner()
}

fn solid_jpeg(w: u32, h: u32) -> Vec<u8> {
    let img = image::DynamicImage::ImageRgb8(image::RgbImage::from_pixel(
        w,
        h,
        image::Rgb([10, 200, 30]),
    ));
    let mut cur = std::io::Cursor::new(Vec::new());
    img.write_to(&mut cur, image::ImageFormat::Jpeg).unwrap();
    cur.into_inner()
}

#[test]
fn optimize_png_stays_png_and_reencodes() {
    let png = solid_png(200, 200);
    let st = stage_transform(&s("t.png"), &png, &None).unwrap();
    assert_eq!(st.kind, TransformKind::OptimizePng);
    assert_eq!(st.target_ext, "png");
    assert!(st.same_format);
    assert!(!st.converting);
    assert_eq!(st.original_size, png.len() as u64);
    assert_eq!(st.new_size, st.data.len() as u64);
    assert_eq!(image::guess_format(&st.data).unwrap(), image::ImageFormat::Png);
    let out = image::load_from_memory(&st.data).unwrap();
    assert_eq!((out.width(), out.height()), (200, 200));
    assert_ne!(st.data, png);
}

#[test]
fn reencode_jpeg_stays_jpeg() {
    let jpg = solid_jpeg(64, 64);
    let st = stage_transform(&s("photo.JPG"), &jpg, &None).unwrap();
    assert_eq!(st.kind, TransformKind::ReencodeJpeg);
    assert_eq!(st.target_ext, "jpg");
    assert!(st.same_format);
    assert_eq!(image::guess_format(&st.data).unwrap(), image::ImageFormat::Jpeg);
    let out = image::load_from_memory(&st.data).unwrap();
    assert_eq!((out.width(), out.height()), (64, 64));
}

#[test]
fn convert_png_to_jpeg_changes_format() {
    let png = solid_png(64, 64);
    let st = stage_transform(&s("t.png"), &png, &Some(s("jpg"))).unwrap();
    assert_eq!(st.target_ext, "jpg");
    assert!(st.converting);
    assert!(!st.same_format);
    assert_eq!(image::guess_format(&st.data).unwrap(), image::ImageFormat::Jpeg);
    let out = image::load_from_memory(&st.data).unwrap();
    assert_eq!((out.width(), out.height()), (64, 64));
}

#[test]
fn convert_jpeg_to_png_changes_format() {
    let jpg = solid_jpeg(32, 32);
    let st = stage_transform(&s("photo.jpeg"), &jpg, &Some(s("png"))).unwrap();
    assert_eq!(st.target_ext, "png");
    assert_eq!(image::guess_format(&st.data).unwrap(), image::ImageFormat::Png);
}

#[test]
fn convert_png_to_webp_changes_format() {
    let png = solid_png(32, 32);
    let st = stage_transform(&s("t.png"), &png, &Some(s("webp"))).unwrap();
    assert_eq!(st.target_ext, "webp");
    assert_eq!(image::guess_format(&st.data).unwrap(), image::ImageFormat::WebP);
}

#[test]
fn convert_bmp_to_png_changes_format() {
    let img = image::DynamicImage::ImageRgb8(image::RgbImage::from_pixel(
        8,
        8,
        image::Rgb([1, 2, 3]),
    ));
    let mut cur = std::io::Cursor::new(Vec::new());
    img.write_to(&mut cur, image::ImageFormat::Bmp).unwrap();
    let bmp = cur.into_inner();
    let st = stage_transform(&s("t.bmp"), &bmp, &Some(s("png"))).unwrap();
    assert_eq!(image::guess_format(&st.data).unwrap(), image::ImageFormat::Png);
}

#[test]
fn convert_gif_to_jpeg_changes_format() {
    let img = image::DynamicImage::ImageRgb8(image::RgbImage::from_pixel(
        8,
        8,
        image::Rgb([1, 2, 3]),
    ));
    let mut cur = std::io::Cursor::new(Vec::new());
    img.write_to(&mut cur, image::ImageFormat::Gif).unwrap();
    let gif = cur.into_inner();
    let st = stage_transform(&s("t.gif"), &gif, &Some(s("jpg"))).unwrap();
    assert_eq!(image::guess_format(&st.data).unwrap(), image::ImageFormat::Jpeg);
}

#[test]
fn convert_tiff_to_webp_changes_format() {
    let img = image::DynamicImage::ImageRgb8(image::RgbImage::from_pixel(
        8,
        8,
        image::Rgb([1, 2, 3]),
    ));
    let mut cur = std::io::Cursor::new(Vec::new());
    img.write_to(&mut cur, image::ImageFormat::Tiff).unwrap();
    let tiff = cur.into_inner();
    let st = stage_transform(&s("t.tiff"), &tiff, &Some(s("webp"))).unwrap();
    assert_eq!(image::guess_format(&st.data).unwrap(), image::ImageFormat::WebP);
}

#[test]
fn transparency_is_flattened_for_jpeg() {
    let img = image::DynamicImage::ImageRgba8(image::RgbaImage::from_pixel(
        16,
        16,
        image::Rgba([10, 200, 30, 0]),
    ));
    let mut cur = std::io::Cursor::new(Vec::new());
    img.write_to(&mut cur, image::ImageFormat::Png).unwrap();
    let png = cur.into_inner();
    let st = stage_transform(&s("t.png"), &png, &Some(s("jpg"))).unwrap();
    assert_eq!(image::guess_format(&st.data).unwrap(), image::ImageFormat::Jpeg);
}

#[test]
fn temp_name_carries_stem_token_and_target_ext() {
    let png = solid_png(16, 16);
    let st = stage_transform(&s("picture.png"), &png, &Some(s("webp"))).unwrap();
    assert!(st.temp_name.starts_with("picture_"));
    assert!(st.temp_name.ends_with(".webp"));
    assert_eq!(st.temp_name.len(), "picture".len() + 1 + 36 + 1 + "webp".len());
    let token = &st.temp_name["picture".len() + 1..st.temp_name.len() - ".webp".len()];
    assert!(token.chars().all(|c| c == '-' || c.is_ascii_hexdigit()));
    assert!(!token.contains('.') && !token.contains('/'));
    let again = stage_transform(&s("picture.png"), &png, &Some(s("webp"))).unwrap();
    assert_ne!(st.temp_name, again.temp_name);
}

#[test]
fn garbage_bytes_fail_with_codec_error() {
    let garbage = vec![1u8, 2, 3, 4, 5, 6, 7, 8];
    let e = stage_transform(&s("t.png"), &garbage, &Some(s("jpg"))).unwrap_err();
    assert!(matches!(e, TransformError::CodecFailure(_)));
}

#[test]
fn unsupported_target_fails_before_any_codec() {
    let e = stage_transform(&s("t.png"), &Vec::new(), &Some(s("tiff"))).unwrap_err();
    assert!(matches!(e, TransformError::UnsupportedTarget));
}
