use sqsh::pipeline::{
    classify, committed_result, decide_disposition, saved_bytes, skipped_result, Disposition,
    TargetFormat, TransformError, TransformKind,
};

fn s(x: &str) -> String {
    x.to_string()
}

#[test]
fn classify_same_format_paths() {
    let p = classify(&s("png"), &None).unwrap();
    assert_eq!(p.kind, TransformKind::OptimizePng);
    assert_eq!(p.target_ext, "png");
    assert!(p.same_format);

    let p = classify(&s("JPG"), &None).unwrap();
    assert_eq!(p.kind, TransformKind::ReencodeJpeg);
    assert_eq!(p.target_ext, "jpg");
    assert!(p.same_format);

    let p = classify(&s("jpeg"), &None).unwrap();
    assert_eq!(p.kind, TransformKind::ReencodeJpeg);
    assert_eq!(p.target_ext, "jpeg");
}

#[test]
fn classify_conversion_paths() {
    let p = classify(&s("png"), &Some(s("jpg"))).unwrap();
    assert_eq!(p.kind, TransformKind::Convert(TargetFormat::Jpg));
    assert_eq!(p.target_ext, "jpg");
    assert!(!p.same_format);

    let p = classify(&s("jpeg"), &Some(s("jpg"))).unwrap();
    assert!(!p.same_format);

    let p = classify(&s("WEBP"), &Some(s("webp"))).unwrap();
    assert_eq!(p.kind, TransformKind::Convert(TargetFormat::Webp));
    assert!(p.same_format);

    let p = classify(&s("gif"), &Some(s("png"))).unwrap();
    assert_eq!(p.kind, TransformKind::Convert(TargetFormat::Png));
    assert!(!p.same_format);
}

#[test]
fn classify_rejects_unknown_target() {
    let e = classify(&s("png"), &Some(s("bmp"))).unwrap_err();
    assert!(matches!(e, TransformError::UnsupportedTarget));
    assert_eq!(e.message(), "Unsupported conversion format");
}

#[test]
fn classify_requires_conversion_for_other_rasters() {
    let e = classify(&s("webp"), &None).unwrap_err();
    assert!(matches!(e, TransformError::ConvertRequired));
    assert_eq!(e.message(), "Skipped: Enable auto-convert");
    let e = classify(&s("TIFF"), &None).unwrap_err();
    assert!(matches!(e, TransformError::ConvertRequired));
}

#[test]
fn classify_rejects_unknown_source() {
    let e = classify(&s("txt"), &None).unwrap_err();
    assert!(matches!(e, TransformError::UnsupportedSource));
    assert_eq!(e.message(), "Unsupported file format");
    let e = classify(&s(""), &None).unwrap_err();
    assert!(matches!(e, TransformError::UnsupportedSource));
}

#[test]
fn not_found_message() {
    assert_eq!(TransformError::NotFound.message(), "File not found");
}

#[test]
fn failure_messages_carry_their_text() {
    assert_eq!(TransformError::CodecFailure("bad header".to_string()).message(), "bad header");
    assert_eq!(TransformError::IoFailure("disk gone".to_string()).message(), "disk gone");
}

#[test]
fn no_gain_same_format_skips() {
    assert_eq!(decide_disposition(100, 100, false, true, true), Disposition::Skip);
    assert_eq!(decide_disposition(100, 150, false, true, false), Disposition::Skip);
    assert_eq!(decide_disposition(100, 100, true, true, true), Disposition::Skip);
}

#[test]
fn smaller_same_format_overwrite_replaces_source() {
    assert_eq!(decide_disposition(100, 80, false, true, true), Disposition::ReplaceSource);
}

#[test]
fn conversion_accepts_size_increase_and_keeps_source() {
    assert_eq!(decide_disposition(100, 150, true, false, true), Disposition::SaveAlongside);
    assert_eq!(decide_disposition(100, 80, true, false, true), Disposition::SaveAlongside);
    assert_eq!(decide_disposition(100, 150, true, false, false), Disposition::KeepStaged);
}

#[test]
fn no_overwrite_keeps_staged() {
    assert_eq!(decide_disposition(100, 80, false, true, false), Disposition::KeepStaged);
}

#[test]
fn saved_bytes_clamps_at_zero() {
    assert_eq!(saved_bytes(100, 80), 20);
    assert_eq!(saved_bytes(100, 100), 0);
    assert_eq!(saved_bytes(100, 150), 0);
}

#[test]
fn skipped_result_reports_original() {
    let r = skipped_result(1234, s("/pics/a.png"), 17);
    assert!(r.skipped);
    assert_eq!(r.original_size, 1234);
    assert_eq!(r.new_size, 1234);
    assert_eq!(r.saved_bytes, 0);
    assert_eq!(r.output_path, "/pics/a.png");
    assert_eq!(r.duration_ms, 17);
}

#[test]
fn committed_result_reports_savings() {
    let r = committed_result(1234, 1000, s("/pics/a.png"), 9);
    assert!(!r.skipped);
    assert_eq!(r.saved_bytes, 234);
    let r = committed_result(1000, 1234, s("/pics/a.jpg"), 9);
    assert_eq!(r.saved_bytes, 0);
    assert_eq!(r.new_size, 1234);
}
