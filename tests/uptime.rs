use daemon_manager::uptime::{format_duration, monotonic_uptime, now_micros, uptime_at};

const BOOT: u64 = 1_700_000_000;

fn event_micros(monotonic_us: u64) -> u128 {
    BOOT as u128 * 1_000_000 + monotonic_us as u128
}

#[test]
fn format_duration_days_keep_lower_zero_components() {
    assert_eq!(format_duration(90000), "1d 1h 0m 0s");
}

#[test]
fn format_duration_seconds_only() {
    assert_eq!(format_duration(45), "45s");
}

#[test]
fn format_duration_minutes_and_seconds() {
    assert_eq!(format_duration(125), "2m 5s");
}

#[test]
fn format_duration_zero() {
    assert_eq!(format_duration(0), "0s");
}

#[test]
fn format_duration_whole_hour() {
    assert_eq!(format_duration(3600), "1h 0m 0s");
}

#[test]
fn format_duration_large_value() {
    assert_eq!(format_duration(u64::MAX), "213503982334601d 7h 0m 15s");
}

#[test]
fn uptime_twenty_five_hours() {
    let mono: u64 = 90_000_000_000;
    let now = event_micros(mono) + 25 * 3600 * 1_000_000;
    assert_eq!(uptime_at(mono, BOOT, now), "1d 1h 0m 0s");
}

#[test]
fn uptime_forty_five_seconds() {
    let mono: u64 = 45_000_000;
    let now = event_micros(mono) + 45 * 1_000_000;
    assert_eq!(uptime_at(mono, BOOT, now), "45s");
}

#[test]
fn uptime_truncates_partial_seconds() {
    let mono: u64 = 1_500_000;
    let now = event_micros(mono) + 2_999_999;
    assert_eq!(uptime_at(mono, BOOT, now), "2s");
}

#[test]
fn uptime_event_in_future_is_zero() {
    let mono: u64 = 10_000_000;
    let now = event_micros(mono) - 5_000_000;
    assert_eq!(uptime_at(mono, BOOT, now), "0s");
}

#[test]
fn uptime_never_shows_minus_sign() {
    for now in [0u128, 1, event_micros(7), event_micros(7) + 86_400_000_000 * 3] {
        let text = uptime_at(7, BOOT, now);
        assert!(!text.contains('-'));
    }
}

#[test]
fn uptime_grows_with_clock() {
    let mono: u64 = 1_000_000;
    let a = uptime_at(mono, BOOT, event_micros(mono) + 10_000_000);
    let b = uptime_at(mono, BOOT, event_micros(mono) + 70_000_000);
    assert_eq!(a, "10s");
    assert_eq!(b, "1m 10s");
}

#[test]
fn wall_clock_is_after_epoch() {
    assert!(now_micros() > 0);
}

#[test]
fn monotonic_uptime_of_recent_boot_is_short_text() {
    let text = monotonic_uptime(0, 0);
    assert!(text.ends_with('s'));
    assert!(text.contains('d'));
}
