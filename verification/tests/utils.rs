use lemonbeatd::abortable_sleep::AbortableSleep;
use lemonbeatd::abortable_sleep::SleepResult;
use lemonbeatd::config::current_config;
use lemonbeatd::config::set_config;
use lemonbeatd::config::Config;
use lemonbeatd::config::ConfigStore;
use lemonbeatd::digest::bytes_equal;
use lemonbeatd::time::saturating_add;
use lemonbeatd::time::MAX_DURATION;
use lemonbeatd::utils::create_version;
use lemonbeatd::utils::decimal_text;
use lemonbeatd::utils::gateway_timestamp;
use lemonbeatd::utils::inner_text;
use lemonbeatd::utils::padded_decimal_text;
use lemonbeatd::utils::text_is;
use lemonbeatd::utils::Version;
use lemonbeatd::utils::VersionOrder;

#[test]
fn interrupted_sleep() {
    let mut sleep = AbortableSleep::new();
    assert_eq!(sleep.begin_sleep(), None);
    assert!(sleep.abort());
    assert_eq!(sleep.end_sleep(), SleepResult::Interrupted);
    assert_eq!(sleep.begin_sleep(), None);
    assert_eq!(sleep.end_sleep(), SleepResult::Slept);
}

#[test]
fn interruption_between_sleeps_is_kept() {
    let mut sleep = AbortableSleep::new();
    assert_eq!(sleep.begin_sleep(), None);
    assert_eq!(sleep.end_sleep(), SleepResult::Slept);
    assert!(!sleep.abort());
    assert_eq!(sleep.begin_sleep(), Some(SleepResult::Interrupted));
    assert_eq!(sleep.begin_sleep(), None);
    assert_eq!(sleep.end_sleep(), SleepResult::Slept);
}

#[test]
fn early_interruption_is_kept() {
    let mut sleep = AbortableSleep::new();
    assert!(!sleep.abort());
    assert!(!sleep.abort());
    assert_eq!(sleep.begin_sleep(), Some(SleepResult::Interrupted));
    assert_eq!(sleep.begin_sleep(), None);
}

#[test]
fn closed_sleep() {
    let mut sleep = AbortableSleep::new();
    assert_eq!(sleep.begin_sleep(), None);
    assert!(sleep.close());
    assert_eq!(sleep.end_sleep(), SleepResult::Dropped);
    assert_eq!(sleep.begin_sleep(), Some(SleepResult::Dropped));
    sleep.abort();
    assert_eq!(sleep.begin_sleep(), Some(SleepResult::Dropped));
}

#[test]
fn configuration() {
    let mut store = ConfigStore::new();
    assert_eq!(current_config(&store), Config::default());
    assert_eq!(current_config(&store).error_timeout_interval, 900_000_000_000);
    assert_eq!(current_config(&store).gotosleep_duration, 20_000_000_000);
    let config = Config { fota_min_wait: 5, ..Config::default() };
    set_config(&mut store, config);
    assert_eq!(current_config(&store).fota_min_wait, 5);
    assert_eq!(current_config(&store), config);
}

#[test]
fn durations_are_cut_off() {
    assert_eq!(saturating_add(1, 2), 3);
    assert_eq!(saturating_add(MAX_DURATION, 1), MAX_DURATION);
    assert_eq!(saturating_add(u128::MAX, u128::MAX), MAX_DURATION);
}

#[test]
fn versions() {
    let version = |text| Version::parse(text).unwrap();
    assert_eq!(version("1.5.3").compare(&create_version(1, 5, 3)), VersionOrder::Same);
    assert_eq!(version("1.5.10").compare(&create_version(1, 5, 3)), VersionOrder::Newer);
    assert_eq!(version("1.2.5").compare(&create_version(1, 5, 2)), VersionOrder::Older);
    assert_eq!(create_version(2, 0, 0).compare(&create_version(1, 9, 9)), VersionOrder::Newer);
    assert!(Version::parse("no version").is_none());
}

#[test]
fn timestamps() {
    assert_eq!(gateway_timestamp(0, Some(1629142915419)), 1629142915419);
    assert_eq!(gateway_timestamp(0, Some(1 << 64)), 0);
    assert_eq!(gateway_timestamp(0, None), 0);
    assert_eq!(gateway_timestamp(1000, Some(2000)), 2000);
    assert_eq!(gateway_timestamp(2000, Some(1000)), 2000);
    assert_eq!(gateway_timestamp(2000, None), 2000);
}

#[test]
fn decimal_numbers() {
    assert_eq!(decimal_text(0), "0");
    assert_eq!(decimal_text(9070), "9070");
    assert_eq!(decimal_text(u64::MAX), "18446744073709551615");
    assert_eq!(padded_decimal_text(42, 8), "00000042");
    assert_eq!(padded_decimal_text(123456789, 8), "123456789");
    assert_eq!(padded_decimal_text(0, 0), "0");
}

#[test]
fn texts() {
    assert_eq!(inner_text("a/ü/b", "a/", "/b"), Some("ü"));
    assert_eq!(inner_text("a/b", "a/", "/b"), None);
    assert_eq!(inner_text("a//b", "a/", "/b"), Some(""));
    assert_eq!(inner_text("x/1/b", "a/", "/b"), None);
    assert!(text_is(&"abc".to_string(), "abc"));
    assert!(!text_is(&"abc".to_string(), "abd"));
    assert!(bytes_equal(&[1, 2], &[1, 2]));
    assert!(!bytes_equal(&[1, 2], &[1]));
    assert!(!bytes_equal(&[1, 2], &[1, 3]));
}
