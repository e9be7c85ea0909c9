use sqsh::names::{dec_string, make_numbered, make_replacement_name, resolve_name, split_name};

fn s(x: &str) -> String {
    x.to_string()
}

#[test]
fn dec_string_renders_decimal() {
    assert_eq!(dec_string(0), "0");
    assert_eq!(dec_string(7), "7");
    assert_eq!(dec_string(10), "10");
    assert_eq!(dec_string(12345), "12345");
    assert_eq!(dec_string(1000), "1000");
    assert_eq!(dec_string(u64::MAX), "18446744073709551615");
}

#[test]
fn empty_claimed_list_keeps_any_name() {
    let claimed: Vec<String> = Vec::new();
    assert_eq!(resolve_name(&s("a.png"), &claimed, None), "a.png");
    assert_eq!(resolve_name(&s(""), &claimed, None), "");
}

#[test]
fn split_name_at_last_dot() {
    assert_eq!(split_name(&s("a.png")), (s("a"), s("png")));
    assert_eq!(split_name(&s("archive.tar.gz")), (s("archive.tar"), s("gz")));
    assert_eq!(split_name(&s("notes")), (s("notes"), s("")));
    assert_eq!(split_name(&s(".hidden")), (s(".hidden"), s("")));
    assert_eq!(split_name(&s("a.")), (s("a"), s("")));
}

#[test]
fn make_numbered_formats_candidates() {
    assert_eq!(make_numbered(&s("a"), &s("png"), 1), "a (1).png");
    assert_eq!(make_numbered(&s("a"), &s("png"), 12), "a (12).png");
    assert_eq!(make_numbered(&s("notes"), &s(""), 3), "notes (3)");
}

#[test]
fn free_name_is_kept() {
    let claimed = vec![s("b.png")];
    assert_eq!(resolve_name(&s("a.png"), &claimed, None), "a.png");
}

#[test]
fn taken_name_gets_counter() {
    let claimed = vec![s("a.png")];
    assert_eq!(resolve_name(&s("a.png"), &claimed, None), "a (1).png");
}

#[test]
fn growing_set_never_repeats() {
    let mut claimed: Vec<String> = Vec::new();
    let mut seen: Vec<String> = Vec::new();
    for _ in 0..5 {
        let r = resolve_name(&s("a.png"), &claimed, None);
        assert!(!seen.contains(&r));
        seen.push(r.clone());
        claimed.push(r);
    }
    assert_eq!(
        seen,
        vec![s("a.png"), s("a (1).png"), s("a (2).png"), s("a (3).png"), s("a (4).png")]
    );
}

#[test]
fn extension_less_candidates() {
    let claimed = vec![s("notes"), s("notes (1)")];
    assert_eq!(resolve_name(&s("notes"), &claimed, None), "notes (2)");
}

#[test]
fn self_overwrite_is_not_a_collision() {
    let claimed = vec![s("a.png"), s("b.png")];
    let allow = s("a.png");
    assert_eq!(resolve_name(&s("a.png"), &claimed, Some(&allow)), "a.png");
}

#[test]
fn replacement_name_joins_stem_and_extension() {
    assert_eq!(make_replacement_name(&s("photo"), &s("jpg")), "photo.jpg");
}

#[test]
fn conversion_target_never_lands_on_source() {
    let existing = vec![s("photo.png"), s("photo.jpg"), s("photo (1).jpg")];
    let source = s("photo.png");
    let desired = make_replacement_name(&s("photo"), &s("jpg"));
    let r = resolve_name(&desired, &existing, Some(&source));
    assert_eq!(r, "photo (2).jpg");
    assert_ne!(r, source);
}

#[test]
fn gap_in_counters_takes_first_free() {
    let claimed = vec![s("a.png"), s("a (1).png"), s("a (3).png")];
    assert_eq!(resolve_name(&s("a.png"), &claimed, None), "a (2).png");
}
