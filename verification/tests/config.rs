use winflow::config::{
    clamp_delay, clamp_interval, load, save, Config, DEFAULT_CAPTURE_INTERVAL_SECS,
    DEFAULT_QUICK_DELAY_MS,
};

#[test]
fn settings_roundtrip_and_clamping() {
    // No settings: defaults.
    let cfg = load(None);
    assert_eq!(cfg.capture_interval, DEFAULT_CAPTURE_INTERVAL_SECS * 1000);
    assert_eq!(cfg.quick_delay, DEFAULT_QUICK_DELAY_MS);

    // Save and load.
    let text = save(25, 300);
    let cfg = load(Some(&text));
    assert_eq!(cfg.capture_interval, 25 * 1000);
    assert_eq!(cfg.quick_delay, 300);
    assert_eq!(cfg.thumb_height, 200_000, "unexposed fields keep defaults");

    // Out-of-range values are clamped, garbage is ignored.
    let cfg = load(Some("capture_interval=99999\nquick_delay=1\nbogus=xyz\n"));
    assert_eq!(cfg.capture_interval, 3600 * 1000);
    assert_eq!(cfg.quick_delay, 50);
}

#[test]
fn saved_text_is_exact() {
    assert_eq!(
        save(25, 300),
        "# winflow settings (edited via the menu-bar panel)\n\
         # capture_interval: thumbnail capture interval in seconds (1-3600)\n\
         # quick_delay: hotkey judgment delay in milliseconds (50-2000)\n\
         capture_interval=25\n\
         quick_delay=300\n"
    );
    assert!(save(0, 99_999).ends_with("capture_interval=1\nquick_delay=2000\n"));
}

#[test]
fn settings_tolerate_spaces_and_garbage() {
    let cfg = load(Some("  capture_interval = 7 \r\n\nquick_delay\nquick_delay=abc\n# quick_delay=9\n"));
    assert_eq!(cfg.capture_interval, 7000);
    assert_eq!(cfg.quick_delay, 80);
    // The last value wins; a number may have a plus sign; a file may lack the
    // last line break.
    let cfg = load(Some("quick_delay=100\nquick_delay=+200"));
    assert_eq!(cfg.quick_delay, 200);
    // Too large for a number: ignored. A second `=` spoils the value.
    let cfg = load(Some("capture_interval=99999999999999999999999\nquick_delay=1=2"));
    assert_eq!(cfg.capture_interval, 45_000);
    assert_eq!(cfg.quick_delay, 80);
}

#[test]
fn every_saved_setting_loads_back() {
    for secs in [1, 2, 10, 99, 1000, 3600] {
        for ms in [50, 80, 123, 2000] {
            let cfg = load(Some(&save(secs, ms)));
            assert_eq!(cfg.capture_interval, secs * 1000);
            assert_eq!(cfg.quick_delay, ms);
        }
    }
}

#[test]
fn ranges_clamp() {
    assert_eq!(clamp_interval(0), 1);
    assert_eq!(clamp_interval(3601), 3600);
    assert_eq!(clamp_interval(45), 45);
    assert_eq!(clamp_delay(49), 50);
    assert_eq!(clamp_delay(2001), 2000);
    assert_eq!(clamp_delay(80), 80);
}

#[test]
fn default_config_values() {
    let cfg = Config::default();
    assert_eq!(cfg.max_width_frac, 800_000);
    assert_eq!(cfg.min_window_w, 120_000);
    assert_eq!(cfg.min_window_h, 80_000);
    assert!(cfg.filter_terms.is_empty());
    assert!(cfg.wrap);
    let copy = cfg.clone();
    assert_eq!(copy.thumb_px_scale, 1_000_000);
}
