use shotly::commands::{
    clipboard_image, crop_bounds, crop_selection, editor_url, pin_label, pin_origin, pin_url,
    save_file_name,
};
use shotly::commands::{hides_on_close, hotkeys, menu_action, Action};
use shotly::pixels::RgbaPixels;

#[test]
fn crop_bounds_clamp() {
    assert_eq!(crop_bounds(10, 20, 100, 50, 1920, 1080), (10, 20, 100, 50));
    assert_eq!(crop_bounds(-5, -7, 100, 50, 1920, 1080), (0, 0, 100, 50));
    assert_eq!(crop_bounds(1900, 1070, 100, 50, 1920, 1080), (1900, 1070, 20, 10));
    assert_eq!(crop_bounds(3000, 3000, 100, 50, 1920, 1080), (3000, 3000, 1, 1));
    assert_eq!(crop_bounds(0, 0, 0, 0, 1920, 1080), (0, 0, 1, 1));
}

#[test]
fn crop_selection_reports_size() {
    let data: Vec<u8> = (0..4 * 3 * 2).map(|i| i as u8).collect();
    let img = RgbaPixels::from_raw(3, 2, data).unwrap();
    let c = crop_selection(&img, 1, 0, 5, 5);
    assert_eq!((c.width, c.height), (2, 2));
    assert_eq!((c.pixels.width, c.pixels.height), (2, 2));
    assert_eq!(&c.pixels.data[0..4], &[4, 5, 6, 7]);
    let c = crop_selection(&img, 9, 9, 5, 5);
    assert_eq!((c.width, c.height), (1, 1));
    assert_eq!((c.pixels.width, c.pixels.height), (0, 0));
}

#[test]
fn window_addresses() {
    assert_eq!(editor_url("/tmp/a b.png", true), "index.html?win=editor&src=/tmp/a%20b.png&ocr=1");
    assert_eq!(editor_url("/tmp/x.png", false), "index.html?win=editor&src=/tmp/x.png&ocr=0");
    assert_eq!(pin_url("/tmp/截.png", 800, 600), "index.html?win=pin&src=/tmp/%E6%88%AA.png&w=800&h=600");
    assert_eq!(pin_label(1700000000123), "pin-1700000000123");
    assert_eq!(save_file_name(17), "shotly-17.png");
}

#[test]
fn pin_is_centred() {
    assert_eq!(pin_origin(Some((0, 0, 1920, 1080)), 800, 600), (560, 240));
    assert_eq!(pin_origin(Some((-1920, 100, 1920, 1080)), 801, 601), (-1920 + 559, 100 + 239));
    assert_eq!(pin_origin(None, 1920, 1080), (0, 0));
    assert_eq!(pin_origin(None, 2000, 1200), (0, 0));
    let (x, y) = pin_origin(Some((100, 50, 1000, 800)), 400, 300);
    assert!(100 <= x && x + 400 <= 1100 && 50 <= y && y + 300 <= 850);
}

#[test]
fn clipboard_images() {
    let p = clipboard_image(2, 1, vec![1, 2, 3, 4, 5, 6, 7, 8]).unwrap();
    assert_eq!((p.width, p.height), (2, 1));
    assert_eq!(p.pick_color(1, 0), "#050607");
    assert_eq!(clipboard_image(2, 2, vec![0; 8]).err().unwrap(), "剪贴板图片格式不支持");
}

#[test]
fn tray_and_shortcut_actions() {
    assert_eq!(menu_action("capture"), Some(Action::Capture));
    assert_eq!(menu_action("fixed"), Some(Action::FixedCapture));
    assert_eq!(menu_action("pin"), Some(Action::PinClipboard));
    assert_eq!(menu_action("settings"), Some(Action::OpenSettings));
    assert_eq!(menu_action("quit"), Some(Action::Quit));
    assert_eq!(menu_action("other"), None);
    let s = shotly::settings::Settings::default();
    let h = hotkeys(&s);
    assert_eq!(
        h,
        vec![
            ("CommandOrControl+Shift+A".to_string(), Action::Capture),
            ("CommandOrControl+Shift+R".to_string(), Action::FixedCapture),
            ("CommandOrControl+Shift+V".to_string(), Action::PinClipboard),
        ]
    );
    assert!(hides_on_close("main"));
    assert!(hides_on_close("editor"));
    assert!(!hides_on_close("overlay-1"));
    assert!(!hides_on_close("pin-1"));
}
