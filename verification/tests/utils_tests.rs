use playarr::utils::aired_ago_label;
use playarr::utils::episode_crumb;
use playarr::utils::episode_label;
use playarr::utils::playback_time_label;
use playarr::utils::season_or_specials_label;
use playarr::utils::seconds_to_video_duration;
use playarr::utils::show_crumb;
use playarr::utils::time_since_airing;
use playarr::utils::MAX_DURATION_SECONDS;

#[test]
fn video_duration_below_an_hour() {
    assert_eq!(seconds_to_video_duration(0), "0:00");
    assert_eq!(seconds_to_video_duration(9), "0:09");
    assert_eq!(seconds_to_video_duration(59), "0:59");
    assert_eq!(seconds_to_video_duration(61), "1:01");
    assert_eq!(seconds_to_video_duration(600), "10:00");
    assert_eq!(seconds_to_video_duration(3599), "59:59");
}

#[test]
fn video_duration_from_an_hour() {
    assert_eq!(seconds_to_video_duration(3600), "1:00:00");
    assert_eq!(seconds_to_video_duration(3661), "1:01:01");
    assert_eq!(seconds_to_video_duration(86399), "23:59:59");
    assert_eq!(seconds_to_video_duration(90061), "25:01:01");
    assert_eq!(
        seconds_to_video_duration(MAX_DURATION_SECONDS),
        "2562047788015:12:55"
    );
}

#[test]
fn playback_time_label_joins_both_times() {
    assert_eq!(playback_time_label(65, 3725), "1:05 / 1:02:05");
    assert_eq!(playback_time_label(0, 0), "0:00 / 0:00");
}

#[test]
fn season_names() {
    assert_eq!(season_or_specials_label(0), "Specials");
    assert_eq!(season_or_specials_label(1), "Season 1");
    assert_eq!(season_or_specials_label(12), "Season 12");
    assert_eq!(season_or_specials_label(-1), "Season -1");
}

#[test]
fn trail_entries() {
    assert_eq!(show_crumb("Severance", 2), "Severance (Season 2)");
    assert_eq!(show_crumb("Severance", 0), "Severance (Specials)");
    assert_eq!(episode_crumb("Good News About Hell", 1), "Good News About Hell (Episode 1)");
    assert_eq!(episode_label(10), "Episode 10");
}

#[test]
fn aired_ago_in_days_hours_minutes() {
    let day = 86_400i64;
    let hour = 3_600i64;
    let minute = 60i64;
    assert_eq!(aired_ago_label(0, 0, 3 * day + 5 * hour, 0), "3 days ago");
    assert_eq!(aired_ago_label(0, 0, day, 0), "1 days ago");
    assert_eq!(aired_ago_label(0, 1, day, 0), "23 hours ago");
    assert_eq!(aired_ago_label(0, 0, 61 * minute, 0), "1 hours ago");
    assert_eq!(aired_ago_label(0, 0, 60 * minute, 0), "60 minutes ago");
    assert_eq!(aired_ago_label(0, 0, 59 * minute + 59, 999_999_999), "59 minutes ago");
    assert_eq!(aired_ago_label(0, 0, 0, 0), "0 minutes ago");
    assert_eq!(aired_ago_label(1, 0, 0, 0), "0 minutes ago");
    assert_eq!(aired_ago_label(10 * minute, 0, 0, 0), "-10 minutes ago");
    assert_eq!(aired_ago_label(2 * day, 0, 0, 0), "-2880 minutes ago");
    assert_eq!(aired_ago_label(i64::MIN, 0, i64::MAX, 999_999_999), "213503982334601 days ago");
}

#[test]
fn aired_ago_counts_nanoseconds() {
    // One nanosecond short of 61 minutes is 60 whole minutes.
    assert_eq!(aired_ago_label(0, 1, 61 * 60, 0), "60 minutes ago");
    assert_eq!(aired_ago_label(-1, 999_999_999, 61 * 60, 0), "1 hours ago");
    assert_eq!(aired_ago_label(0, 0, 61 * 60, 0), "1 hours ago");
}

#[test]
fn aired_ago_counts_a_passed_leap_second() {
    // Aired within the leap second after 00:00:59 (second 59, 1.5 s of
    // nanoseconds); the leap second counts once the time of day is past it.
    assert_eq!(aired_ago_label(59, 1_500_000_000, 59 + 3660, 600_000_000), "1 hours ago");
    assert_eq!(aired_ago_label(59, 1_500_000_000, 59 + 3660, 400_000_000), "60 minutes ago");
}

fn chrono_label(aired: &str, now: chrono::DateTime<chrono::Utc>) -> String {
    let prev_airing = chrono::DateTime::parse_from_rfc3339(aired).unwrap();
    let diff = now.signed_duration_since(prev_airing);
    if diff.num_days() > 0 {
        format!("{} days ago", diff.num_days())
    } else if diff.num_minutes() > 60 {
        format!("{} hours ago", diff.num_hours())
    } else {
        format!("{} minutes ago", diff.num_minutes())
    }
}

#[test]
fn aired_ago_agrees_with_chrono() {
    let airings = [
        "2023-01-01T00:00:00Z",
        "2023-01-01T00:00:00.000000001Z",
        "2023-01-01T02:00:00+02:00",
        "2016-12-31T23:59:60.5Z",
        "2016-12-31T23:59:59.999999999Z",
        "1969-12-31T23:59:59.25Z",
    ];
    let base = 1_672_531_200i64;
    let nows = [
        (base, 0u32),
        (base + 3660, 0),
        (base + 3659, 999_999_999),
        (base - 3660, 1),
        (base + 86_399, 500_000_000),
        (1_483_228_799 + 3660, 600_000_000),
        (1_483_228_799 + 3660, 400_000_000),
        (1_483_228_800, 0),
        (-1, 0),
        (0, 750_000_000),
    ];
    for aired in airings {
        for (secs, nanos) in nows {
            let now = chrono::DateTime::from_timestamp(secs, nanos).unwrap();
            assert_eq!(
                time_since_airing(aired, secs, nanos),
                Some(chrono_label(aired, now)),
                "aired {aired}, now {secs}.{nanos:09}"
            );
        }
    }
}

#[test]
fn time_since_airing_reads_rfc3339() {
    // 2023-01-01T00:00:00Z is 1672531200 seconds after the epoch.
    let now = 1_672_531_200i64 + 2 * 86_400;
    assert_eq!(
        time_since_airing("2023-01-01T00:00:00Z", now, 0),
        Some("2 days ago".to_string())
    );
    assert_eq!(
        time_since_airing("2023-01-01T02:00:00+02:00", now, 0),
        Some("2 days ago".to_string())
    );
    assert_eq!(
        time_since_airing("2023-01-02T22:30:00Z", now, 0),
        Some("1 hours ago".to_string())
    );
    assert_eq!(time_since_airing("yesterday", now, 0), None);
}
