use lumora::presence::{PresenceThrottle, Window, PRESENCE_WINDOW, PRUNE_THRESHOLD};

const SECOND: u64 = 1_000_000_000;

#[test]
fn records_last_seen_once_per_window() {
    let mut throttle = PresenceThrottle::new();
    assert!(throttle.should_record_last_seen("user-1"));
    assert!(!throttle.should_record_last_seen("user-1"));
    assert!(!throttle.should_record_last_seen("user-1"));
    assert!(throttle.should_record_last_seen("user-2"));
}

#[test]
fn records_last_seen_again_after_window_elapses() {
    let mut throttle = PresenceThrottle::new();
    let now: u64 = 5 * SECOND;
    assert!(throttle.check_window("user-1", now, Window::LastSeen));
    let inside = now + PRESENCE_WINDOW - SECOND;
    assert!(!throttle.check_window("user-1", inside, Window::LastSeen));
    let outside = now + PRESENCE_WINDOW + SECOND;
    assert!(throttle.check_window("user-1", outside, Window::LastSeen));
}

#[test]
fn records_one_activity_day_per_user_per_date() {
    let mut throttle = PresenceThrottle::new();
    assert!(throttle.should_record_activity_day("user-1", "2026-08-04"));
    assert!(!throttle.should_record_activity_day("user-1", "2026-08-04"));
    assert!(throttle.should_record_activity_day("user-1", "2026-08-05"));
    assert!(!throttle.should_record_activity_day("user-1", "2026-08-05"));
    assert_eq!(throttle.activity_day_count(), 1);
}

#[test]
fn prunes_expired_entries_once_over_threshold() {
    let mut throttle = PresenceThrottle::new();
    let start: u64 = 7 * SECOND;
    for index in 0..=PRUNE_THRESHOLD {
        throttle.check_window(&format!("user-{index}"), start, Window::LastSeen);
    }
    assert!(throttle.last_seen_count() > PRUNE_THRESHOLD);

    let later = start + PRESENCE_WINDOW + SECOND;
    throttle.check_window("user-fresh", later, Window::LastSeen);
    assert_eq!(throttle.last_seen_count(), 1);
}

#[test]
fn failed_persistence_can_be_retried() {
    let mut throttle = PresenceThrottle::new();
    assert!(throttle.should_record_last_seen("user-1"));
    throttle.forget_last_seen("user-1");
    assert!(throttle.should_record_last_seen("user-1"));

    assert!(throttle.should_record_activity_day("user-1", "2026-08-05"));
    throttle.forget_activity_day("user-1", "2026-08-05");
    assert!(throttle.should_record_activity_day("user-1", "2026-08-05"));

    assert!(throttle.should_record_api_key_use("hash-1"));
    throttle.forget_api_key_use("hash-1");
    assert!(throttle.should_record_api_key_use("hash-1"));
}

#[test]
fn windows_of_users_and_keys_are_apart() {
    let mut throttle = PresenceThrottle::default();
    assert!(throttle.check_window("same", 0, Window::LastSeen));
    assert!(throttle.check_window("same", 0, Window::ApiKeyUse));
    assert!(!throttle.check_window("same", 0, Window::ApiKeyUse));
}

#[test]
fn a_window_is_over_when_its_length_has_passed() {
    let mut throttle = PresenceThrottle::new();
    assert!(throttle.check_window("user-1", 0, Window::LastSeen));
    assert!(!throttle.check_window("user-1", PRESENCE_WINDOW - 1, Window::LastSeen));
    assert!(throttle.check_window("user-1", PRESENCE_WINDOW, Window::LastSeen));
}

#[test]
fn another_day_is_not_forgotten() {
    let mut throttle = PresenceThrottle::new();
    assert!(throttle.should_record_activity_day("user-1", "2026-08-05"));
    throttle.forget_activity_day("user-1", "2026-08-04");
    assert!(!throttle.should_record_activity_day("user-1", "2026-08-05"));
}

#[test]
fn windows_count_their_keys() {
    let mut throttle = PresenceThrottle::new();
    for index in 0..=PRUNE_THRESHOLD {
        assert!(throttle.check_window(&format!("user-{index}"), SECOND, Window::LastSeen));
    }
    assert_eq!(throttle.last_seen_count(), 4097);
    throttle.forget_last_seen("user-0");
    throttle.forget_last_seen("nobody");
    assert_eq!(throttle.last_seen_count(), 4096);
    assert!(throttle.check_window("user-fresh", 62 * SECOND, Window::LastSeen));
    assert_eq!(throttle.last_seen_count(), 1);
}
