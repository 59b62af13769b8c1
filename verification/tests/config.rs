//! Settings of the scheduler and the sentences of errors.

use std::collections::BTreeSet;
use swarmy_store::check_limit;
use swarmy_store::config::{
    interval, parse_partitions, setting, store_directory, sweep_interval, Config, ConfigError,
};
use swarmy_store::error::StoreError;
use swarmy_store::time::Duration;

#[test]
fn partitions_accept_ranges_lists_and_duplicates() {
    assert_eq!(parse_partitions("0-255").unwrap().len(), 256);
    assert_eq!(
        parse_partitions(" 0, 2-4, 3,255 ").unwrap(),
        BTreeSet::from([0, 2, 3, 4, 255])
    );
    for invalid in ["", "256", "4-2", "-1", "0-256", "1,", "1-2-3", "x"] {
        assert!(parse_partitions(invalid).is_err(), "accepted {invalid:?}");
    }
}

#[test]
fn the_first_wrong_component_decides() {
    assert_eq!(
        parse_partitions("1, x ,4-2"),
        Err(ConfigError::InvalidComponent("x".into()))
    );
    assert_eq!(parse_partitions("4-2,x"), Err(ConfigError::InvalidRange));
    assert_eq!(
        ConfigError::InvalidComponent("x".into()).message(),
        "invalid SWARMY_SCHEDULER_PARTITIONS component: x"
    );
    assert_eq!(
        ConfigError::InvalidRange.message(),
        "SWARMY_SCHEDULER_PARTITIONS must be in 0-255 with ascending ranges"
    );
}

#[test]
fn intervals_are_positive_milliseconds() {
    assert_eq!(interval("A", "5"), Ok(Duration::from_millis(5)));
    assert_eq!(interval("A", "0"), Err(ConfigError::NotPositive("A".into())));
    assert_eq!(interval("A", "x"), Err(ConfigError::NotANumber("A".into())));
    assert_eq!(ConfigError::NotPositive("A".into()).message(), "A must be positive");
    assert_eq!(
        ConfigError::NotANumber("A".into()).message(),
        "A must be a positive number of milliseconds"
    );
}

#[test]
fn absent_settings_have_defaults() {
    let config = Config::from_env(&None, &None, &None).unwrap();
    assert_eq!(config.partitions.len(), 256);
    assert_eq!(config.scan_interval, Duration::from_millis(1_000));
    assert_eq!(config.resend_interval, Duration::from_millis(5_000));
    let config =
        Config::from_env(&Some("3".into()), &Some("7".into()), &Some("9".into())).unwrap();
    assert_eq!(config.partitions, BTreeSet::from([3]));
    assert_eq!(config.scan_interval, Duration::from_millis(7));
    assert_eq!(config.resend_interval, Duration::from_millis(9));
    assert!(matches!(
        Config::from_env(&None, &Some("0".into()), &None),
        Err(ConfigError::NotPositive(name)) if name == "SWARMY_SCHEDULER_SCAN_INTERVAL_MS"
    ));
    assert!(matches!(
        Config::from_env(&None, &None, &Some("-1".into())),
        Err(ConfigError::NotANumber(name)) if name == "SWARMY_SCHEDULER_RESEND_INTERVAL_MS"
    ));
    assert!(matches!(
        Config::from_env(&Some("x".into()), &None, &None),
        Err(ConfigError::InvalidComponent(component)) if component == "x"
    ));
    assert_eq!(setting(&Some("a".into()), "b"), "a");
    assert_eq!(setting(&None, "b"), "b");
}

#[test]
fn sweeps_run_at_least_once_a_minute() {
    assert_eq!(sweep_interval(10), Duration::from_secs(10));
    assert_eq!(sweep_interval(3_600), Duration::from_secs(60));
}

#[test]
fn directories_have_no_empty_component() {
    assert_eq!(store_directory("a/b"), Some(vec!["a".to_owned(), "b".to_owned()]));
    assert_eq!(store_directory("a"), Some(vec!["a".to_owned()]));
    for wrong in ["", "/a", "a/", "a//b"] {
        assert_eq!(store_directory(wrong), None, "{wrong:?}");
    }
}

#[test]
fn limits_are_from_1_to_64() {
    assert_eq!(check_limit(0), Err(StoreError::InvalidLimit));
    assert_eq!(check_limit(1), Ok(()));
    assert_eq!(check_limit(64), Ok(()));
    assert_eq!(check_limit(65), Err(StoreError::InvalidLimit));
}

#[test]
fn error_sentences_name_their_details() {
    assert_eq!(
        StoreError::StaleSequence { expected: 3, actual: 12 }.message(),
        "expected head 3, found 12"
    );
    assert_eq!(
        StoreError::ImageMissing { image: "a\"b".into(), registered: "(none)".into() }.message(),
        "image \"a\\\"b\" is not registered; registered images: (none)"
    );
    assert_eq!(StoreError::InvalidRoute("r".into()).message(), "invalid route: r");
    assert_eq!(
        StoreError::NodeAtCapacity { detail: "2 of 2 computers".into() }.message(),
        "node has no computer capacity available: 2 of 2 computers"
    );
    assert_eq!(StoreError::Corrupt.message(), "stored key or blob is corrupt");
}
