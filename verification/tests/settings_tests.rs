use shotly::settings::{Region, Settings};

#[test]
fn default_settings() {
    let s = Settings::default();
    assert_eq!(s.capture_hotkey, "CommandOrControl+Shift+A");
    assert_eq!(s.fixed_hotkey, "CommandOrControl+Shift+R");
    assert_eq!(s.pin_hotkey, "CommandOrControl+Shift+V");
    assert_eq!(s.ocr_lang, "zh-Hans,en-US");
    assert_eq!(s.translate_provider, "google");
    assert_eq!(s.translate_key, "");
    assert_eq!(s.translate_endpoint, "");
    assert_eq!(s.translate_model, "gpt-4o-mini");
    assert_eq!(s.save_dir, "");
    assert!(s.fixed_regions.is_empty());
    assert!(s.smart_detect);
    assert_eq!(s.smart_detect_level, "control");
    assert_eq!(Region::default(), Region { x: 0, y: 0, w: 0, h: 0 });
}

#[test]
fn fixed_region_set_read_clear() {
    let mut s = Settings::default();
    let r = Region { x: -10, y: 20, w: 300, h: 200 };
    s.set_fixed_region(1, r);
    assert_eq!(s.fixed_region(1), Some(r));
    assert_eq!(s.fixed_region(2), None);
    let r2 = Region { x: 1, y: 2, w: 3, h: 4 };
    s.set_fixed_region(1, r2);
    assert_eq!(s.fixed_region(1), Some(r2));
    s.set_fixed_region(2, r);
    s.clear_fixed_region(1);
    assert_eq!(s.fixed_region(1), None);
    assert_eq!(s.fixed_region(2), Some(r));
    assert_eq!(s.capture_hotkey, "CommandOrControl+Shift+A");
}

#[test]
fn fixed_capture_target() {
    let mut s = Settings::default();
    assert_eq!(
        s.fixed_capture_target().unwrap_err(),
        "还没有固定任何区域：先截图，然后在工具栏点「固定区域」"
    );
    let r = Region { x: 5, y: 6, w: 7, h: 8 };
    s.set_fixed_region(3, r);
    assert_eq!(s.fixed_capture_target().unwrap(), (3, r));
    s.set_fixed_region(4, r);
    let (id, got) = s.fixed_capture_target().unwrap();
    assert!(id == 3 || id == 4);
    assert_eq!(got, r);
}

#[test]
fn ocr_languages_fall_back() {
    let mut s = Settings::default();
    s.ocr_lang = "ja-JP".into();
    assert_eq!(s.ocr_languages(), "ja-JP");
    s.ocr_lang = "  \t".into();
    assert_eq!(s.ocr_languages(), "zh-Hans,en-US");
    s.ocr_lang = " en-US ".into();
    assert_eq!(s.ocr_languages(), " en-US ");
}

#[test]
fn save_directory() {
    let mut s = Settings::default();
    assert_eq!(s.save_directory(), None);
    s.save_dir = "  ".into();
    assert_eq!(s.save_directory(), None);
    s.save_dir = " /home/u/Pictures ".into();
    assert_eq!(s.save_directory(), Some("/home/u/Pictures".to_string()));
}
