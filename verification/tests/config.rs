use monado_frame::config::{
    app_config_path, app_settings_in, config_path, load, load_app, save, save_app, screenshots_dir,
    settings_in, AppSettings, Settings,
};

fn settings(enabled: bool, hold_ms: i32, debug: bool) -> Settings {
    Settings { enabled, hold_ms, debug, path: String::from("/p"), dirty: true }
}

#[test]
fn config_path_prefers_xdg() {
    assert_eq!(config_path(Some("/xdg"), Some("/home/me")), "/xdg/monado/gestures.json");
    assert_eq!(app_config_path(Some("/xdg"), Some("/home/me")), "/xdg/monado-frame/config.json");
}

#[test]
fn config_path_falls_back_to_home() {
    assert_eq!(config_path(None, Some("/home/me")), "/home/me/.config/monado/gestures.json");
    assert_eq!(config_path(Some(""), Some("/home/me")), "/home/me/.config/monado/gestures.json");
    assert_eq!(app_config_path(None, None), "/.config/monado-frame/config.json");
}

#[test]
fn screenshots_dir_default_and_override() {
    assert_eq!(screenshots_dir(None, Some("/home/me")), "/home/me/Pictures/Monado");
    assert_eq!(screenshots_dir(Some(""), Some("/home/me")), "/home/me/Pictures/Monado");
    assert_eq!(screenshots_dir(Some("/shots"), Some("/home/me")), "/shots");
}

#[test]
fn load_without_file_gives_defaults() {
    let s = load(String::from("/c"), None);
    assert!(s.enabled && s.hold_ms == 2000 && !s.debug && !s.dirty);
    assert_eq!(s.path, "/c");
    let a = load_app(String::from("/a"), None);
    assert!(!a.qr_detect && !a.qr_autodelete && a.cleanup_days == 0);
    assert_eq!(a.path, "/a");
}

#[test]
fn load_reads_fields() {
    let s = load(String::from("/c"), Some("{\"enabled\": false, \"hold_ms\": 750, \"debug\": true}"));
    assert!(!s.enabled && s.hold_ms == 750 && s.debug);
    let a = load_app(String::from("/a"), Some("{\"qr_detect\": true, \"cleanup_days\": 14}"));
    assert!(a.qr_detect && !a.qr_autodelete && a.cleanup_days == 14);
}

#[test]
fn load_keeps_defaults_for_wrong_kinds() {
    let s = load(String::from("/c"), Some("{\"enabled\": 1, \"hold_ms\": \"900\", \"debug\": null}"));
    assert!(s.enabled && s.hold_ms == 2000 && !s.debug);
    let s = load(String::from("/c"), Some("{\"hold_ms\": 1.5}"));
    assert_eq!(s.hold_ms, 2000);
    let s = load(String::from("/c"), Some("[true]"));
    assert!(s.enabled);
    let s = load(String::from("/c"), Some("{ not json"));
    assert!(s.enabled && s.hold_ms == 2000);
}

#[test]
fn load_cuts_large_numbers_to_32_bits() {
    let s = load(String::from("/c"), Some("{\"hold_ms\": 4294967297}"));
    assert_eq!(s.hold_ms, 1);
}

#[test]
fn save_writes_indented_json() {
    assert_eq!(
        save(&settings(true, 2000, false)),
        "{\n  \"debug\": false,\n  \"enabled\": true,\n  \"hold_ms\": 2000\n}"
    );
    let a = AppSettings { qr_detect: true, qr_autodelete: false, cleanup_days: 30, path: String::new() };
    assert_eq!(
        save_app(&a),
        "{\n  \"cleanup_days\": 30,\n  \"qr_autodelete\": false,\n  \"qr_detect\": true\n}"
    );
}

#[test]
fn saved_settings_load_again() {
    for hold in [i32::MIN, -1, 0, 500, 2000, 4000, i32::MAX] {
        for enabled in [false, true] {
            let s = settings(enabled, hold, !enabled);
            let back = load(String::from("/p"), Some(&save(&s)));
            assert_eq!((back.enabled, back.hold_ms, back.debug), (enabled, hold, !enabled));
            assert!(!back.dirty);
        }
    }
    for days in [i32::MIN, 0, 7, i32::MAX] {
        let a = AppSettings { qr_detect: true, qr_autodelete: true, cleanup_days: days, path: String::new() };
        let back = load_app(String::new(), Some(&save_app(&a)));
        assert!(back.qr_detect && back.qr_autodelete && back.cleanup_days == days);
    }
}

#[test]
fn settings_from_a_document() {
    let doc: serde_json::Value = serde_json::from_str("{\"enabled\": false, \"hold_ms\": 600}").unwrap();
    let s = settings_in(String::from("/x"), &doc);
    assert!(!s.enabled && s.hold_ms == 600 && !s.debug && s.path == "/x");
    let a = app_settings_in(String::from("/y"), &doc);
    assert!(!a.qr_detect && a.cleanup_days == 0 && a.path == "/y");
}
