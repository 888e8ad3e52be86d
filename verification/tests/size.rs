use tgx::format::size::{human_duration, human_size};

#[test]
fn sizes_truncate_they_do_not_round() {
    assert_eq!(human_size(1_940_744), "1.8 MB");
    let rounded = (1_940_744f64 / (1024.0 * 1024.0) * 10.0).round() / 10.0;
    assert_eq!(format!("{rounded:.1}"), "1.9");
}

#[test]
fn each_unit_boundary() {
    assert_eq!(human_size(0), "");
    assert_eq!(human_size(-5), "");
    assert_eq!(human_size(1), "1 B");
    assert_eq!(human_size(1023), "1023 B");
    assert_eq!(human_size(1024), "1.0 KB");
    assert_eq!(human_size(1024 * 1024), "1.0 MB");
    assert_eq!(human_size(1024 * 1024 * 1024), "1.0 GB");
}

#[test]
fn just_under_a_boundary_truncates_down() {
    assert_eq!(human_size(1024 * 1024 - 1), "1023.9 KB");
}

#[test]
fn a_huge_size_does_not_overflow() {
    let s = human_size(i64::MAX);
    assert!(s.ends_with(" GB"), "got {s}");
}

#[test]
fn durations_drop_the_hour_when_there_is_none() {
    assert_eq!(human_duration(0), "");
    assert_eq!(human_duration(9), "00:09");
    assert_eq!(human_duration(69), "01:09");
    assert_eq!(human_duration(3600), "1:00:00");
    assert_eq!(human_duration(3661), "1:01:01");
}

#[test]
fn the_largest_size_reads_its_exact_truncated_value() {
    assert_eq!(human_size(i64::MAX), "8589934591.9 GB");
    assert_eq!(human_size(1536), "1.5 KB");
    assert_eq!(human_duration(-3), "");
    assert_eq!(human_duration(36_000), "10:00:00");
}
