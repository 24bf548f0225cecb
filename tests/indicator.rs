use audio_cycle::config::Config;
use audio_cycle::indicator::number_icon_rgba;

fn px(rgba: &[u8], x: usize, y: usize) -> [u8; 4] {
    let i = 4 * (32 * y + x);
    [rgba[i], rgba[i + 1], rgba[i + 2], rgba[i + 3]]
}

const WHITE: [u8; 4] = [255, 255, 255, 255];
const DARK: [u8; 4] = [30, 30, 30, 255];
const CLEAR: [u8; 4] = [0, 0, 0, 0];

#[test]
fn icon_has_disc_on_transparent_square() {
    let rgba = number_icon_rgba(0);
    assert_eq!(rgba.len(), 32 * 32 * 4);
    assert_eq!(px(&rgba, 0, 0), CLEAR);
    assert_eq!(px(&rgba, 31, 31), CLEAR);
    assert_eq!(px(&rgba, 16, 16), DARK);
    assert_eq!(px(&rgba, 16, 2), DARK);
    assert_eq!(px(&rgba, 16, 1), CLEAR);
    assert!((0..32 * 32).all(|p| rgba[4 * p..4 * p + 4] != WHITE));
}

#[test]
fn icon_draws_digit_one() {
    let rgba = number_icon_rgba(1);
    assert_eq!(px(&rgba, 13, 11), DARK);
    for (x, y) in [(15, 11), (16, 11), (15, 12), (16, 12)] {
        assert_eq!(px(&rgba, x, y), WHITE);
    }
    assert_eq!(px(&rgba, 17, 11), DARK);
    for x in 13..19 {
        assert_eq!(px(&rgba, x, 19), WHITE);
        assert_eq!(px(&rgba, x, 20), WHITE);
    }
    let white = (0..32 * 32).filter(|p| rgba[4 * p..4 * p + 4] == WHITE).count();
    assert_eq!(white, 8 * 4);
}

#[test]
fn icon_caps_at_nine() {
    assert_eq!(number_icon_rgba(12), number_icon_rgba(9));
    assert_ne!(number_icon_rgba(8), number_icon_rgba(9));
    let eight = number_icon_rgba(8);
    let white = (0..32 * 32).filter(|p| eight[4 * p..4 * p + 4] == WHITE).count();
    assert_eq!(white, 13 * 4);
}

#[test]
fn default_config_has_no_exclusions_and_hotkey() {
    let c = Config::default();
    assert!(c.excluded_device_ids.is_empty());
    assert_eq!(c.hotkey.as_deref(), Some("CommandOrControl+Shift+A"));
    let c = c.with_excluded_devices(vec!["A".to_string()]);
    assert_eq!(c.excluded_device_ids, vec!["A".to_string()]);
    assert_eq!(c.hotkey.as_deref(), Some("CommandOrControl+Shift+A"));
}
