use sqsh::config::{apply_settings, AppConfig};
use sqsh::debounce::{SaveDebouncer, WindowEvent, DEBOUNCE_MS};
use sqsh::geometry::{restore_geometry, MonitorRect, WindowRect};

#[test]
fn off_screen_rect_lands_on_first_monitor() {
    let saved = WindowRect { x: 5000, y: 5000, width: 300, height: 100 };
    let monitors = vec![MonitorRect { x: 0, y: 0, width: 1920, height: 1080 }];
    let r = restore_geometry(&saved, &monitors, 400, 800);
    assert_eq!(r.width, 400);
    assert_eq!(r.height, 800);
    assert_eq!(r.x, 1520);
    assert_eq!(r.y, 280);
    assert!(r.x >= 0 && r.x + r.width as i32 <= 1920);
    assert!(r.y >= 0 && r.y + r.height as i32 <= 1080);
}

#[test]
fn containing_monitor_is_preferred_over_first() {
    let saved = WindowRect { x: 2000, y: 100, width: 640, height: 900 };
    let monitors = vec![
        MonitorRect { x: 0, y: 0, width: 1920, height: 1080 },
        MonitorRect { x: 1920, y: 0, width: 1920, height: 1080 },
    ];
    let r = restore_geometry(&saved, &monitors, 400, 800);
    assert_eq!((r.x, r.y), (2000, 100));
    assert_eq!((r.width, r.height), (640, 900));
}

#[test]
fn oversized_rect_is_cut_to_its_monitor() {
    let saved = WindowRect { x: 100, y: 100, width: 5000, height: 5000 };
    let monitors = vec![MonitorRect { x: 0, y: 0, width: 1920, height: 1080 }];
    let r = restore_geometry(&saved, &monitors, 400, 800);
    assert_eq!((r.width, r.height), (1920, 1080));
    assert_eq!((r.x, r.y), (0, 0));
}

#[test]
fn negative_origin_monitor_is_respected() {
    let saved = WindowRect { x: -5000, y: -5000, width: 500, height: 900 };
    let monitors = vec![MonitorRect { x: -1920, y: -1080, width: 1920, height: 1080 }];
    let r = restore_geometry(&saved, &monitors, 400, 800);
    assert_eq!((r.x, r.y), (-1920, -1080));
    assert_eq!((r.width, r.height), (500, 900));
}

#[test]
fn no_monitors_only_applies_minimums() {
    let saved = WindowRect { x: 7, y: 9, width: 100, height: 100 };
    let monitors: Vec<MonitorRect> = Vec::new();
    let r = restore_geometry(&saved, &monitors, 400, 800);
    assert_eq!((r.x, r.y), (7, 9));
    assert_eq!((r.width, r.height), (400, 800));
}

#[test]
fn close_events_within_interval_coalesce_to_one_write() {
    let mut d = SaveDebouncer::new(0);
    assert!(d.on_event(DEBOUNCE_MS + 1, WindowEvent::Resized));
    assert!(!d.on_event(DEBOUNCE_MS + 200, WindowEvent::Resized));
    assert!(!d.on_event(2 * DEBOUNCE_MS + 1, WindowEvent::Moved));
}

#[test]
fn events_in_the_first_interval_after_startup_wait() {
    let mut d = SaveDebouncer::new(1000);
    assert!(!d.on_event(1000 + DEBOUNCE_MS, WindowEvent::Moved));
    assert!(d.on_event(1001 + DEBOUNCE_MS, WindowEvent::Moved));
}

#[test]
fn close_always_persists() {
    let mut d = SaveDebouncer::new(0);
    assert!(d.on_event(DEBOUNCE_MS + 1, WindowEvent::Resized));
    assert!(d.on_event(DEBOUNCE_MS + 2, WindowEvent::CloseRequested));
    assert!(d.on_event(DEBOUNCE_MS + 3, WindowEvent::CloseRequested));
}

#[test]
fn default_config_values() {
    let c = AppConfig::default();
    assert_eq!((c.x, c.y, c.width, c.height), (0, 0, 800, 600));
    assert!(c.dark_mode);
    assert!(c.overwrite);
    assert!(!c.convert_enabled);
    assert_eq!(c.convert_format, "jpg");
}

#[test]
fn apply_settings_merges_partial_updates() {
    let mut c = AppConfig::default();
    c.x = 11;
    c.y = 22;
    apply_settings(&mut c, Some(false), None, Some(true), Some("webp".to_string()));
    assert!(!c.dark_mode);
    assert!(c.overwrite);
    assert!(c.convert_enabled);
    assert_eq!(c.convert_format, "webp");
    assert_eq!((c.x, c.y), (11, 22));
    apply_settings(&mut c, None, Some(false), None, None);
    assert!(!c.overwrite);
    assert!(!c.dark_mode);
    assert_eq!(c.convert_format, "webp");
}
