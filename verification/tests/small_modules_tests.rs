use shotly::detect::ax_trusted;
use shotly::ocr::{engine_language_tags, recognition_languages};
use shotly::perm;
use shotly::windows::{is_overlay_label, overlay_label, overlay_size, overlay_url, OVERLAY_PREFIX};

#[test]
fn overlay_windows() {
    assert_eq!(OVERLAY_PREFIX, "overlay-");
    assert_eq!(overlay_label(0), "overlay-0");
    assert_eq!(overlay_label(4294967295), "overlay-4294967295");
    assert!(is_overlay_label(&overlay_label(17)));
    assert!(!is_overlay_label("editor"));
    assert!(!is_overlay_label("main"));
    assert_eq!(overlay_url(2), "index.html?win=overlay&m=2");
    assert_eq!(overlay_size(1920, 1080, 3840, 2160), (3840, 2160));
    assert_eq!(overlay_size(1920, 1200, 1920, 1080), (1920, 1200));
}

#[test]
fn permission_reports() {
    let (p, ask) = perm::check(true, "hint");
    assert!(p.granted);
    assert_eq!(p.hint, "");
    assert!(!ask);
    let (p, ask) = perm::check(false, &perm::macos::hint());
    assert!(!p.granted);
    assert!(ask);
    assert!(p.hint.starts_with("需要「屏幕录制」权限"));
    assert!(p.hint.ends_with("只关窗口是没用的。"));
    assert!(perm::windows::granted());
    perm::windows::request();
    assert_eq!(perm::windows::hint(), "Windows 无需额外授权。若无法截取某些窗口，请尝试以管理员身份运行。");
    assert!(!perm::other::granted());
    perm::other::request();
    assert_eq!(perm::other::hint(), "当前平台暂未适配。");
    assert!(ax_trusted());
}

#[test]
fn ocr_language_lists() {
    assert_eq!(recognition_languages("zh-Hans,en-US"), vec!["zh-Hans", "en-US"]);
    assert_eq!(recognition_languages(" ja-JP , ,en-US,"), vec!["ja-JP", "en-US"]);
    assert!(recognition_languages("").is_empty());
    assert_eq!(
        engine_language_tags("zh-Hans, en-US,ja-JP,ko"),
        vec!["zh-Hans-CN", "en-US", "ja-JP", "ko"]
    );
}
