use bugsnag::{RateLimit, RateLimitNotificationOptions, SendLimit, Severity};

#[test]
fn rate_limit() {
    // one window: up to 10 sends per 1000 ms
    let (mut rate_limit, _persist) = RateLimit::new(
        vec![SendLimit::new(1000, 10)],
        String::from("rate_limit.json"),
        None,
        None,
    );

    // an initial rate limit is neither reached nor triggered
    assert_eq!(rate_limit.reached_at(0), false);
    assert_eq!(rate_limit.triggered(), false);

    // registering 10 notifications within 450 ms leaves it unreached
    for i in 0..10i64 {
        rate_limit.register_at(None, 50 * (i + 1));
    }
    assert_eq!(rate_limit.reached_at(500), false);
    assert_eq!(rate_limit.triggered(), false);

    // the 11th notification reaches and triggers it
    rate_limit.register_at(None, 550);
    assert_eq!(rate_limit.reached_at(550), true);
    assert_eq!(rate_limit.triggered(), true);

    // a further notification keeps it reached but does not trigger again
    rate_limit.register_at(None, 560);
    assert_eq!(rate_limit.reached_at(560), true);
    assert_eq!(rate_limit.triggered(), false);

    // once the window ages out it is no longer reached
    assert_eq!(rate_limit.reached_at(1600), false);

    // two windows: 1 per 100 ms and 10 per 2000 ms
    let (mut rate_limit, _persist) = RateLimit::new(
        vec![SendLimit::new(100, 1), SendLimit::new(2000, 10)],
        String::from("rate_limit.json"),
        None,
        None,
    );

    assert_eq!(rate_limit.reached_at(0), false);
    assert_eq!(rate_limit.triggered(), false);

    // one notification does not reach either window
    rate_limit.register_at(None, 0);
    assert_eq!(rate_limit.reached_at(0), false);
    assert_eq!(rate_limit.triggered(), false);

    // a second notification 10 ms later reaches and triggers the 100 ms window
    rate_limit.register_at(None, 10);
    assert_eq!(rate_limit.reached_at(10), true);
    assert_eq!(rate_limit.triggered(), true);

    // a third notification 10 ms later keeps it reached without triggering
    rate_limit.register_at(None, 20);
    assert_eq!(rate_limit.reached_at(20), true);
    assert_eq!(rate_limit.triggered(), false);

    // after both windows age out it is no longer reached
    assert_eq!(rate_limit.reached_at(2100), false);

    // 10 notifications 100 ms apart reach neither window
    for i in 0..10i64 {
        rate_limit.register_at(None, 2100 + 100 * i);
    }
    assert_eq!(rate_limit.reached_at(3000), false);

    // one more after 150 ms reaches and triggers the 2000 ms window
    rate_limit.register_at(None, 3150);
    assert_eq!(rate_limit.reached_at(3150), true);
    assert_eq!(rate_limit.triggered(), true);

    // persistence: a limiter reconstructed from its own record with the same
    // configuration answers as it did before
    let (mut rate_limit, _persist) = RateLimit::new(
        vec![SendLimit::new(2000, 2)],
        String::from("rate_limit.json"),
        None,
        None,
    );

    assert_eq!(rate_limit.reached_at(0), false);
    assert_eq!(rate_limit.triggered(), false);
    rate_limit.register_at(None, 0);
    assert_eq!(rate_limit.reached_at(0), false);
    assert_eq!(rate_limit.triggered(), false);
    rate_limit.register_at(None, 10);
    assert_eq!(rate_limit.reached_at(10), false);
    assert_eq!(rate_limit.triggered(), false);

    // the third notification reaches and triggers the limit
    let record = rate_limit.register_at(None, 20);
    assert_eq!(rate_limit.reached_at(20), true);
    assert_eq!(rate_limit.triggered(), true);

    // reconstructing from the record restores reached and triggered exactly
    let (mut rate_limit, _persist) = RateLimit::new(
        vec![SendLimit::new(2000, 2)],
        String::from("rate_limit.json"),
        None,
        Some(&record),
    );
    assert_eq!(rate_limit.reached_at(20), true);
    assert_eq!(rate_limit.triggered(), true);

    // a further notification keeps it reached without triggering
    let record = rate_limit.register_at(None, 30);
    assert_eq!(rate_limit.reached_at(30), true);
    assert_eq!(rate_limit.triggered(), false);

    // reconstructing with a different limit resets the accounting
    let (mut rate_limit, _persist) = RateLimit::new(
        vec![SendLimit::new(2000, 3)],
        String::from("rate_limit.json"),
        None,
        Some(&record),
    );
    assert_eq!(rate_limit.reached_at(30), false);
    assert_eq!(rate_limit.triggered(), false);

    // reaching that limit as well
    rate_limit.register_at(None, 30);
    rate_limit.register_at(None, 31);
    rate_limit.register_at(None, 32);
    let record = rate_limit.register_at(None, 33);
    assert_eq!(rate_limit.reached_at(33), true);
    assert_eq!(rate_limit.triggered(), true);

    // reconstructing with different notification options resets as well
    let (rate_limit, _persist) = RateLimit::new(
        vec![SendLimit::new(2000, 3)],
        String::from("rate_limit.json"),
        Some(RateLimitNotificationOptions::new(
            Some(String::from(r#"{"foo": "bar"}"#)),
            Some(Severity::Warning),
        )),
        Some(&record),
    );
    assert_eq!(rate_limit.reached_at(33), false);
    assert_eq!(rate_limit.reached_at(33), false);
    assert_eq!(rate_limit.triggered(), false);
}

#[test]
fn record_round_trip_plain() {
    let (mut rl, initial) = RateLimit::new(
        vec![SendLimit::new(1000, 1)],
        String::from("state.json"),
        None,
        None,
    );
    // a fresh limiter writes a record for an empty history
    assert_eq!(
        initial,
        r#"{"persistenceFile":"state.json","limits":[{"duration":1000,"limit":1}],"sentNotifications":[],"triggered":false,"notificationOptions":null}"#
    );

    rl.register_at(None, 5);
    let record = rl.register_at(None, 7);
    assert_eq!(
        record,
        r#"{"persistenceFile":"state.json","limits":[{"duration":1000,"limit":1}],"sentNotifications":[5,7],"triggered":true,"notificationOptions":null}"#
    );

    // the record parses back to the very state
    let parsed = bugsnag::persist::parse_state(&record).unwrap();
    assert_eq!(parsed.persistence_file, "state.json");
    assert_eq!(parsed.sent_notifications, vec![5, 7]);
    assert_eq!(parsed.triggered, true);
    assert_eq!(parsed.limits, vec![SendLimit::new(1000, 1)]);
    assert!(parsed.notification_options.is_none());
}

#[test]
fn record_round_trip_awkward_strings() {
    // quotes and backslashes in the path and the metadata survive the trip
    let (rl, record) = RateLimit::new(
        vec![SendLimit::new(10, 0)],
        String::from("we\"ird\\path\nfile"),
        Some(RateLimitNotificationOptions::new(
            Some(String::from(r#"{"a":"b\"c"}"#)),
            Some(Severity::Info),
        )),
        None,
    );
    let parsed = bugsnag::persist::parse_state(&record).unwrap();
    assert_eq!(parsed.persistence_file, rl.persistence_file);
    let opts = parsed.notification_options.unwrap();
    assert_eq!(opts.metadata.as_deref(), Some(r#"{"a":"b\"c"}"#));
    assert_eq!(opts.severity, Some(Severity::Info));
}

#[test]
fn record_round_trip_negative_times() {
    let (mut rl, _r) = RateLimit::new(
        vec![SendLimit::new(100, 2)],
        String::from("s.json"),
        None,
        None,
    );
    rl.register_at(None, -50);
    let record = rl.register_at(None, -3);
    let parsed = bugsnag::persist::parse_state(&record).unwrap();
    assert_eq!(parsed.sent_notifications, vec![-50, -3]);
}

#[test]
fn record_round_trip_extreme_values() {
    let (mut rl, _r) = RateLimit::new(
        vec![SendLimit::new(u64::MAX, u32::MAX)],
        String::from("s.json"),
        None,
        None,
    );
    rl.register_at(None, i64::MIN);
    let record = rl.register_at(None, i64::MAX);
    let parsed = bugsnag::persist::parse_state(&record).unwrap();
    assert_eq!(parsed.sent_notifications, vec![i64::MIN, i64::MAX]);
    assert_eq!(parsed.limits, vec![SendLimit::new(u64::MAX, u32::MAX)]);
}

#[test]
fn corrupt_record_counts_as_no_prior_state() {
    let (rl, _r) = RateLimit::new(
        vec![SendLimit::new(100, 2)],
        String::from("s.json"),
        None,
        Some("{\"persistenceFile\":\"s.json\",garbage"),
    );
    assert_eq!(rl.reached_at(0), false);
    assert_eq!(rl.triggered(), false);
    assert!(rl.sent_notifications.is_empty());
}

#[test]
fn register_merges_freshly_loaded_record() {
    // the record read just before registering wins over the in-memory state
    let (mut writer, _r) = RateLimit::new(
        vec![SendLimit::new(1000, 1)],
        String::from("shared.json"),
        None,
        None,
    );
    writer.register_at(None, 0);
    let record = writer.register_at(None, 1);

    let (mut reader, _r) = RateLimit::new(
        vec![SendLimit::new(1000, 1)],
        String::from("shared.json"),
        None,
        None,
    );
    // reader itself has seen nothing, but adopts the record when registering
    reader.register_at(Some(&record), 2);
    assert_eq!(reader.sent_notifications, vec![0, 1, 2]);
    assert_eq!(reader.reached_at(2), true);
}

#[test]
fn empty_limits_never_reach() {
    let (mut rl, _r) = RateLimit::new(Vec::new(), String::from("s.json"), None, None);
    for i in 0..100i64 {
        rl.register_at(None, i);
    }
    assert_eq!(rl.reached_at(99), false);
    assert_eq!(rl.triggered(), false);
}

#[test]
fn boundary_permits_limit_count_exactly() {
    // a limit of n permits up to and including n sends in the window; the
    // (n+1)th reaches it
    let (mut rl, _r) = RateLimit::new(
        vec![SendLimit::new(100, 3)],
        String::from("s.json"),
        None,
        None,
    );
    rl.register_at(None, 0);
    rl.register_at(None, 1);
    rl.register_at(None, 2);
    assert_eq!(rl.reached_at(2), false);
    rl.register_at(None, 3);
    assert_eq!(rl.reached_at(3), true);
    assert_eq!(rl.triggered(), true);
}

#[test]
fn future_timestamps_count_in_window() {
    // a timestamp ahead of the clock has a negative age and still counts
    let (mut rl, _r) = RateLimit::new(
        vec![SendLimit::new(10, 0)],
        String::from("s.json"),
        None,
        None,
    );
    rl.register_at(None, 1000);
    assert_eq!(rl.reached_at(0), true);
}
