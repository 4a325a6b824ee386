use sauna_monitor::util::{get_interval_ms, is_rpi};

#[test]
fn platform_needs_all_three_facts() {
    assert!(is_rpi(true, true, true));
    assert!(!is_rpi(false, true, true));
    assert!(!is_rpi(true, false, true));
    assert!(!is_rpi(true, true, false));
    assert!(!is_rpi(false, false, true));
    assert!(!is_rpi(false, true, false));
    assert!(!is_rpi(true, false, false));
    assert!(!is_rpi(false, false, false));
}

#[test]
fn interval_per_build_kind() {
    assert_eq!(get_interval_ms(true), 5_000);
    assert_eq!(get_interval_ms(false), 60_000);
}
