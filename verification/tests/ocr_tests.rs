use d2rhub::account::AccountMeta;
use d2rhub::channel_a::{crop_roi, detect_red_in_roi};
use d2rhub::config::GlobalConfig;
use d2rhub::error::AppError;
use d2rhub::ocr::{
    monitor_config, next_interval, sleep_after_poll, watchdog_timeout_ms, OcrConfig, OcrRunState,
    OcrTextItem, ResultBuffer,
};

fn item(n: u32) -> OcrTextItem {
    OcrTextItem {
        text: format!("t{}", n),
        source: "A".to_string(),
        timestamp: String::new(),
        rune_number: None,
        screenshot_path: None,
        is_town: false,
        rune_name_en: None,
    }
}

#[test]
fn config_for_an_account() {
    let g = GlobalConfig::default();
    let mut a = AccountMeta::new("acount2");
    a.display_name = "   ".to_string();
    let c = OcrConfig::from_account(&g, &a, Some(5));
    assert_eq!(c.window_title, "acount2");
    assert_eq!(c.target_pid, Some(5));
    assert_eq!(c.poll_interval_ms, 500);
    assert_eq!(c.text_matcher_threshold, 67);
    assert_eq!(c.scene_text_color_rgb, [202, 23, 0]);
    assert_eq!(c.rune_text_color_range, [10, 100, 75]);
    assert_eq!(c.rune_background_color_rgb, [0, 71, 141]);
    assert!(!c.use_cuda);
}

#[test]
fn monitor_configuration_errors() {
    let g = GlobalConfig::default();
    assert_eq!(monitor_config(None, Ok(None), None).unwrap_err(), "尚未完成首次配置");
    assert_eq!(monitor_config(Some(&g), Ok(None), None).unwrap_err(), "OCR 尚未启用");
    let err = AppError::ConfigWriteError("启用 OCR 前请先选择目标账号".to_string());
    assert_eq!(monitor_config(Some(&g), Err(err), None).unwrap_err(), "启用 OCR 前请先选择目标账号");
    let mut a = AccountMeta::new("acount1");
    a.display_name = "Hero".to_string();
    a.running_pid = Some(3);
    let c = monitor_config(Some(&g), Ok(Some(a.clone())), Some(9)).unwrap();
    assert_eq!(c.target_pid, Some(9));
    assert_eq!(c.window_title, "Hero");
    let c = monitor_config(Some(&g), Ok(Some(a)), None).unwrap();
    assert_eq!(c.target_pid, Some(3));
}

#[test]
fn result_buffer_keeps_the_latest_two_hundred() {
    let mut b = ResultBuffer::new();
    for n in 0..250 {
        b.push_result(item(n));
        assert!(b.len() <= 200);
    }
    let all = b.take_all();
    assert_eq!(all.len(), 200);
    assert_eq!(all[0].text, "t50");
    assert_eq!(all[199].text, "t249");
    assert_eq!(b.len(), 0);
}

#[test]
fn polling_interval_adapts_within_bounds() {
    assert_eq!(next_interval(500, 500, 300), 600);
    assert_eq!(next_interval(1950, 500, 1500), 2000);
    assert_eq!(next_interval(2000, 500, 1500), 2000);
    assert_eq!(next_interval(600, 500, 100), 550);
    assert_eq!(next_interval(520, 500, 10), 500);
    let mut cur = 500;
    for elapsed in [900u64, 900, 10, 5000, 5000, 5000, 0, 0] {
        cur = next_interval(cur, 500, elapsed);
        assert!((500..=2000).contains(&cur));
    }
    assert_eq!(sleep_after_poll(500, 120), 380);
    assert_eq!(sleep_after_poll(500, 700), 0);
    assert_eq!(watchdog_timeout_ms(500), 5000);
    assert_eq!(watchdog_timeout_ms(2000), 6000);
}

#[test]
fn stopping_ends_older_workers() {
    let mut s = OcrRunState::new();
    assert!(s.begin().is_ok());
    let g1 = s.next_generation();
    assert!(s.should_continue(g1));
    assert_eq!(s.begin().unwrap_err(), "OCR 监控器已在运行中");
    s.stop();
    assert!(!s.should_continue(g1));
    assert!(s.begin().is_ok());
    let g2 = s.next_generation();
    s.mark_generation_stopped(g1);
    assert!(s.should_continue(g2));
    s.mark_generation_stopped(g2);
    assert!(!s.should_continue(g2));
}

fn frame_3x2() -> Vec<u8> {
    // Row 0: red, black, red; row 1: red, white, black.
    let px: [[u8; 4]; 6] = [
        [255, 0, 0, 255],
        [0, 0, 0, 255],
        [255, 0, 0, 255],
        [255, 0, 0, 255],
        [255, 255, 255, 255],
        [0, 0, 0, 255],
    ];
    px.iter().flat_map(|p| p.iter().copied()).collect()
}

fn red(r: u8, g: u8, b: u8) -> bool {
    r > 200 && g < 50 && b < 50
}

fn black(r: u8, g: u8, b: u8) -> bool {
    r < 20 && g < 20 && b < 20
}

#[test]
fn red_pixels_are_counted_with_a_ceiling() {
    let f = frame_3x2();
    let r = detect_red_in_roi(&f, 3, (0, 0, 3, 2), 2, 10, red, black);
    assert!(r.triggered);
    assert_eq!((r.red_pixel_count, r.black_pixel_count), (3, 2));
    let r = detect_red_in_roi(&f, 3, (0, 0, 3, 2), 4, 10, red, black);
    assert!(!r.triggered);
    let r = detect_red_in_roi(&f, 3, (0, 0, 3, 2), 1, 2, red, black);
    assert!(!r.triggered);
    assert_eq!((r.red_pixel_count, r.black_pixel_count), (2, 1));
    let r = detect_red_in_roi(&f, 3, (1, 1, 2, 1), 0, 10, red, black);
    assert!(r.triggered);
    assert_eq!((r.red_pixel_count, r.black_pixel_count), (0, 1));
    let r = detect_red_in_roi(&[], 0, (0, 0, 0, 0), 0, 0, red, black);
    assert!(!r.triggered);
    assert_eq!((r.red_pixel_count, r.black_pixel_count), (0, 0));
    let r = detect_red_in_roi(&f, 3, (1, 1, 2, 1), 0, 0, red, black);
    assert!(!r.triggered);
}

#[test]
fn region_is_copied_row_by_row() {
    let f = frame_3x2();
    let mut dst = vec![7u8; 2 * 2 * 4 + 3];
    crop_roi(&f, 3, (1, 0, 2, 2), &mut dst);
    assert_eq!(&dst[0..4], &[0, 0, 0, 255]);
    assert_eq!(&dst[4..8], &[255, 0, 0, 255]);
    assert_eq!(&dst[8..12], &[255, 255, 255, 255]);
    assert_eq!(&dst[12..16], &[0, 0, 0, 255]);
    assert_eq!(&dst[16..], &[7, 7, 7]);
}
