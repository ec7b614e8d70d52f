use shotly::capture::{
    crop_fixed_region, fixed_region_bounds, monitor_bounds, monitor_id, monitor_name,
    no_monitor_message, select_monitor,
};
use shotly::pixels::RgbaPixels;
use shotly::settings::Region;

#[test]
fn monitor_selection() {
    let ids = [Some(5), None, Some(7)];
    assert_eq!(select_monitor(&ids, 7), Ok(2));
    assert_eq!(select_monitor(&ids, 5), Ok(0));
    assert_eq!(select_monitor(&ids, 9), Ok(0));
    assert_eq!(select_monitor(&ids, u32::MAX), Ok(1));
    assert_eq!(select_monitor(&[], 1), Err("没有可用的显示器".to_string()));
    assert_eq!(no_monitor_message(), "没有可用的显示器");
}

#[test]
fn monitor_identity() {
    assert_eq!(monitor_id(Some(42), 3), 42);
    assert_eq!(monitor_id(None, 3), 3);
    assert_eq!(monitor_name(Some("DELL U2720Q".into()), 0), "DELL U2720Q");
    assert_eq!(monitor_name(None, 1), "显示器 2");
    assert_eq!(monitor_bounds(Some((1, 2, 3, 4)), Some(9), Some(9), 10, 10), (1, 2, 3, 4));
    assert_eq!(monitor_bounds(None, Some(-1920), None, 3840, 2160), (-1920, 0, 3840, 2160));
}

#[test]
fn fixed_bounds() {
    let r = Region { x: 100, y: 50, w: 300, h: 200 };
    assert_eq!(fixed_region_bounds(&r, 1920, 1080), Ok((100, 50, 300, 200)));
    let r = Region { x: -20, y: 1000, w: 300, h: 200 };
    assert_eq!(fixed_region_bounds(&r, 1920, 1080), Ok((0, 1000, 300, 80)));
    let r = Region { x: 2000, y: 0, w: 10, h: 10 };
    assert_eq!(
        fixed_region_bounds(&r, 1920, 1080),
        Err("固定区域已超出当前屏幕范围".to_string())
    );
    let r = Region { x: 0, y: 0, w: 0, h: 10 };
    assert!(fixed_region_bounds(&r, 1920, 1080).is_err());
}

#[test]
fn fixed_crop() {
    let data: Vec<u8> = (0..4 * 4 * 4).map(|i| i as u8).collect();
    let img = RgbaPixels::from_raw(4, 4, data).unwrap();
    let p = crop_fixed_region(&img, &Region { x: 2, y: 3, w: 5, h: 5 }).unwrap();
    assert_eq!((p.width, p.height), (2, 1));
    assert_eq!(p.data, (56..64).collect::<Vec<u8>>());
    assert!(crop_fixed_region(&img, &Region { x: 4, y: 0, w: 1, h: 1 }).is_err());
}
