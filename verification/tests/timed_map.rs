use segmented_encoder::timed_map::{TimeSpan, TimedMap};
use std::time::Duration;

const TEST_TIMEOUT: Duration = Duration::from_millis(10);

#[test]
fn lib_new_timed_map_is_empty() {
    let map: TimedMap<String, String> = TimedMap::new();
    assert!(map.is_empty())
}

#[test]
fn lib_new_timed_map_is_not_empty_after_insert() {
    let mut map = TimedMap::new();
    let key = "KEY";
    let value = "Value";
    map.insert(key.to_string(), value.to_string());
    assert!(!map.is_empty())
}

#[test]
fn lib_new_timed_map_get_after_insert() {
    let mut map = TimedMap::new();
    let key = "KEY";
    let value = "Value";
    map.insert(key.to_string(), value.to_string());
    let got = map.get(&key.to_string()).expect("Should get the stored value");
    assert_eq!(got, value)
}

#[test]
fn lib_new_timed_map_after_remove_is_empty() {
    let mut map = TimedMap::new();
    let key = "KEY";
    let value = "Value";
    map.insert(key.to_string(), value.to_string());
    map.remove(&key.to_string());
    assert!(map.is_empty(), "Element should be removed")
}

#[test]
fn lib_new_timed_map_insert_get_other_type() {
    let mut map = TimedMap::new();
    let key = 123456;
    let value = 789;
    map.insert(key.clone(), value.clone());
    let got = map.get(&key).expect("Should get the stored value");
    assert_eq!(got, &value)
}

#[test]
fn lib_new_timed_map_timeout_without_delay_wont_remove() {
    let mut map = TimedMap::new();
    let key = "KEY";
    let value = "Value";
    map.insert(key, value);

    let timeout = TimeSpan::from_secs(1);
    map.timeout(timeout);

    assert!(!map.is_empty())
}

#[test]
fn lib_new_timed_map_timeout_with_delay_will_remove() {
    let mut map = TimedMap::new();
    let key = "KEY";
    let value = "Value";
    let start: u128 = 1_000_000_000_000;
    map.insert_at(key, value, start);

    let timeout = Duration::from_secs(1).as_nanos();
    map.timeout_at(timeout, start + timeout + 1);

    assert!(map.is_empty(), "Timeout should remove after the sleep")
}

#[test]
fn lib_new_timed_map_timeout_after_get_should_not_remove() {
    let mut map = TimedMap::new();
    let key = "KEY";
    let value = "Value";
    let start: u128 = 1_000_000_000_000;
    map.insert_at(key, value, start);

    let timeout = Duration::from_secs(1).as_nanos();
    let later = start + timeout + 1;
    map.get_at(&key, later).expect("Should get");
    map.timeout_at(timeout, later);

    assert!(
        !map.is_empty(),
        "Timeout should not remove because the get updates the timestamp"
    )
}

#[test]
fn timed_map_new_timed_map_is_empty() {
    let map: TimedMap<String, String> = TimedMap::new();
    assert!(map.is_empty())
}

#[test]
fn timed_map_new_timed_map_is_not_empty_after_insert() {
    let mut map = TimedMap::new();
    let key = "KEY";
    let value = "Value";
    map.insert(key.to_string(), value.to_string());
    assert!(!map.is_empty())
}

#[test]
fn timed_map_new_timed_map_get_after_insert() {
    let mut map = TimedMap::new();
    let key = "KEY";
    let value = "Value";
    map.insert(key.to_string(), value.to_string());
    let got = map.get(&key.to_string()).expect("Should get the stored value");
    assert_eq!(got, value)
}

#[test]
fn timed_map_new_timed_map_after_remove_is_empty() {
    let mut map = TimedMap::new();
    let key = "KEY";
    let value = "Value";
    map.insert(key.to_string(), value.to_string());
    map.remove(&key.to_string());
    assert!(map.is_empty(), "Element should be removed")
}

#[test]
fn timed_map_new_timed_map_insert_get_other_type() {
    let mut map = TimedMap::new();
    let key = 123456;
    let value = 789;
    map.insert(key.clone(), value.clone());
    let got = map.get(&key).expect("Should get the stored value");
    assert_eq!(got, &value)
}

#[test]
fn timed_map_new_timed_map_timeout_without_delay_wont_remove() {
    let mut map = TimedMap::new();
    let key = "KEY";
    let value = "Value";
    map.insert(key, value);

    let timeout = TimeSpan::from_millis(TEST_TIMEOUT.as_millis() as u64);
    map.timeout(timeout);

    assert!(!map.is_empty())
}

#[test]
fn timed_map_new_timed_map_timeout_with_delay_will_remove() {
    let mut map = TimedMap::new();
    let key = "KEY";
    let value = "Value";
    let start: u128 = 5_000_000_000;
    map.insert_at(key, value, start);

    let timeout = TEST_TIMEOUT.as_nanos();
    map.timeout_at(timeout, start + timeout + 1);

    assert!(map.is_empty(), "Timeout should remove after the sleep")
}

#[test]
fn timed_map_new_timed_map_timeout_after_get_should_not_remove() {
    let mut map = TimedMap::new();
    let key = "KEY";
    let value = "Value";
    let start: u128 = 5_000_000_000;
    map.insert_at(key, value, start);

    let timeout = TEST_TIMEOUT.as_nanos();
    let later = start + timeout + 1;
    map.get_at(&key, later).expect("Should get");
    map.timeout_at(timeout, later);

    assert!(
        !map.is_empty(),
        "Timeout should not remove because the get updates the timestamp"
    )
}

#[test]
fn timeout_keeps_entry_used_exactly_at_expiry() {
    let mut map = TimedMap::new();
    map.insert_at(1u64, "a", 100);
    map.insert_at(2u64, "b", 99);
    map.timeout_at(10, 110);
    assert!(map.get_at(&1, 200).is_some());
    assert!(map.get_at(&2, 200).is_none());
}

#[test]
fn timeout_with_window_before_epoch_keeps_everything() {
    let mut map = TimedMap::new();
    map.insert_at(1u64, "a", 0);
    map.timeout_at(1_000, 10);
    assert!(!map.is_empty());
}

#[test]
fn insert_under_existing_key_replaces_value() {
    let mut map = TimedMap::new();
    map.insert_at(7u64, "old", 1);
    map.insert_at(7u64, "new", 2);
    assert_eq!(map.get_at(&7, 3), Some(&"new"));
}

#[test]
fn expiry_saturates_at_zero() {
    assert_eq!(segmented_encoder::timed_map::expiry(10, 3), 7);
    assert_eq!(segmented_encoder::timed_map::expiry(3, 10), 0);
}

#[test]
fn time_span_counts_nanoseconds_as_duration_does() {
    assert_eq!(TimeSpan::from_millis(1_500), TimeSpan { secs: 1, nanos: 500_000_000 });
    assert_eq!(TimeSpan::from_millis(1_500).as_nanos(), Duration::from_millis(1_500).as_nanos());
    assert_eq!(TimeSpan::from_secs(3).as_nanos(), 3_000_000_000);
    assert_eq!(TimeSpan { secs: 2, nanos: 7 }.as_nanos(), 2_000_000_007);
}

#[test]
fn timeout_with_a_long_window_keeps_fresh_entries() {
    let mut map = TimedMap::new();
    map.insert(1u64, "one");
    map.timeout(TimeSpan::from_secs(3_600));
    assert_eq!(map.get(&1u64), Some(&"one"));
}
