use sqsh::scan::{eq_lower, file_name_of, filter_supported, is_supported_ext};

fn s(x: &str) -> String {
    x.to_string()
}

#[test]
fn eq_lower_folds_ascii_only() {
    assert!(eq_lower("PNG", "png"));
    assert!(eq_lower("pNg", "png"));
    assert!(!eq_lower("png", "jpg"));
    assert!(!eq_lower("pngx", "png"));
    assert!(!eq_lower("pn", "png"));
}

#[test]
fn supported_set_is_case_insensitive_and_closed() {
    for e in [
        "png", "jpg", "jpeg", "webp", "tiff", "tif", "bmp", "gif", "ico", "tga", "dds", "pnm",
        "qoi", "hdr", "exr", "ff",
    ] {
        assert!(is_supported_ext(e));
        assert!(is_supported_ext(&e.to_uppercase()));
    }
    assert!(!is_supported_ext("txt"));
    assert!(!is_supported_ext(""));
    assert!(!is_supported_ext("png "));
}

#[test]
fn file_name_is_last_component() {
    assert_eq!(file_name_of(&s("dir/sub/a.png")), "a.png");
    assert_eq!(file_name_of(&s("a.png")), "a.png");
    assert_eq!(file_name_of(&s("dir.v2/plain")), "plain");
}

#[test]
fn scan_keeps_supported_files_in_order() {
    let entries = vec![
        (s("root"), false),
        (s("root/a.png"), true),
        (s("root/b.txt"), true),
        (s("root/sub"), false),
        (s("root/sub/c.jpg"), true),
    ];
    assert_eq!(filter_supported(&entries), vec![s("root/a.png"), s("root/sub/c.jpg")]);
}

#[test]
fn scan_is_case_insensitive_on_extensions() {
    let entries = vec![(s("A.PNG"), true), (s("b.JpEg"), true), (s("c.TXT"), true)];
    assert_eq!(filter_supported(&entries), vec![s("A.PNG"), s("b.JpEg")]);
}

#[test]
fn directories_with_raster_names_are_not_files() {
    let entries = vec![(s("looks_like.png"), false), (s("real.png"), true)];
    assert_eq!(filter_supported(&entries), vec![s("real.png")]);
}

#[test]
fn empty_entry_list_scans_to_nothing() {
    let entries: Vec<(String, bool)> = Vec::new();
    assert!(filter_supported(&entries).is_empty());
}

#[test]
fn dotted_directories_do_not_fake_extensions() {
    let entries = vec![(s("photos.png/readme"), true), (s("photos.d/a.gif"), true)];
    assert_eq!(filter_supported(&entries), vec![s("photos.d/a.gif")]);
}
