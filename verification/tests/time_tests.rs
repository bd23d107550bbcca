use gt::time::relative_time_at;

fn now() -> i64 {
    chrono::Utc::now().timestamp()
}

#[test]
fn test_relative_time_just_now() {
    assert_eq!(relative_time_at(now(), now()), "just now");
}

#[test]
fn test_relative_time_minutes() {
    let t = now() - 5 * 60;
    assert_eq!(relative_time_at(now(), t), "5m ago");
}

#[test]
fn test_relative_time_hours() {
    let t = now() - 3 * 3600;
    assert_eq!(relative_time_at(now(), t), "3h ago");
}

#[test]
fn test_relative_time_days() {
    let t = now() - 4 * 86400;
    assert_eq!(relative_time_at(now(), t), "4d ago");
}

#[test]
fn test_relative_time_weeks() {
    let t = now() - 10 * 604800;
    assert_eq!(relative_time_at(now(), t), "10w ago");
}

#[test]
fn test_relative_time_old_date() {
    let t = now() - 60 * 604800;
    assert!(relative_time_at(now(), t).contains('-'));
}

#[test]
fn relative_time_bucket_edges() {
    assert_eq!(relative_time_at(1000, 1000), "just now");
    assert_eq!(relative_time_at(1000, 2000), "just now");
    assert_eq!(relative_time_at(1059, 1000), "just now");
    assert_eq!(relative_time_at(1060, 1000), "1m ago");
    assert_eq!(relative_time_at(3599, 0), "59m ago");
    assert_eq!(relative_time_at(3600, 0), "1h ago");
    assert_eq!(relative_time_at(86400, 0), "1d ago");
    assert_eq!(relative_time_at(604800, 0), "1w ago");
    assert_eq!(relative_time_at(51 * 604800 + 604799, 0), "51w ago");
}

#[test]
fn relative_time_date_after_a_year() {
    // 2024-03-05 00:00:00 UTC, seen more than 52 weeks later.
    let then = 1709596800;
    assert_eq!(relative_time_at(then + 53 * 604800, then), "2024-03-05");
}

#[test]
fn old_moments_print_the_calendar_date() {
    let later = 40_000_000;
    for (then, date) in [
        (0i64, "1970-01-01"),
        (-1, "1969-12-31"),
        (951_782_400, "2000-02-29"),
        (1_709_164_800, "2024-02-29"),
        (-62_167_219_200, "0000-01-01"),
        (253_402_300_799, "9999-12-31"),
        (-2_208_988_800, "1900-01-01"),
    ] {
        assert_eq!(gt::time::relative_time_at(then + later, then), date);
    }
}
