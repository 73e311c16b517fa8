use bugsnag::bugsnag_impl::{frame_in_project, is_offline_report_name, offline_report_name,
    offline_report_path, retry_step, transfer_failure_error};
use bugsnag::ext::fresh_report_token;
use bugsnag::{Bugsnag, Error, RateLimit, RateLimitNotificationOptions, RetryStep, SendLimit,
    SendPrep, Severity, StoreOutcome};

#[test]
fn test_get_project_dir() {
    let api = Bugsnag::new("api-key", "my-dir");
    assert_eq!(api.get_project_source_dir(), "my-dir");
}

#[test]
fn send_prep_without_limiter_transmits() {
    let api = Bugsnag::new("api-key", "my-dir");
    let mut builder = api.notify("Assert", "it failed");
    let frames = Vec::new();
    match builder.prepare_send(&frames, None, 0) {
        SendPrep::Transmit { payload, persist } => {
            assert!(persist.is_none());
            let v: serde_json::Value = serde_json::from_str(&payload).unwrap();
            assert_eq!(v["events"][0]["exceptions"][0]["errorClass"], "Assert");
            assert_eq!(v["events"][0]["exceptions"][0]["message"], "it failed");
        }
        _ => panic!("expected a transmission"),
    }
}

#[test]
fn send_prep_is_idempotent() {
    // the explicit send operation on one constructed notification asks for
    // exactly one transmission; a second call is a no-op
    let api = Bugsnag::new("api-key", "my-dir");
    let mut builder = api.notify("Assert", "it failed");
    let frames = Vec::new();
    match builder.prepare_send(&frames, None, 0) {
        SendPrep::Transmit { .. } => {}
        _ => panic!("expected a transmission"),
    }
    match builder.prepare_send(&frames, None, 1) {
        SendPrep::AlreadySent => {}
        _ => panic!("expected the second call to be a no-op"),
    }
}

#[test]
fn metadata_and_severity_serialize_into_the_wire_body() {
    let mut api = Bugsnag::new("api-key", "my-dir");
    api.set_device_info(Some("host"), Some("1.0"));
    let mut builder = api
        .notify("Err", "boom")
        .metadata(r#"{"ip_addr":"1.2.3.4"}"#)
        .severity(Severity::Error);
    let frames = Vec::new();
    match builder.prepare_send(&frames, None, 0) {
        SendPrep::Transmit { payload, .. } => {
            let v: serde_json::Value = serde_json::from_str(&payload).unwrap();
            let event = &v["events"][0];
            assert_eq!(event["metaData"]["ip_addr"], "1.2.3.4");
            assert_eq!(event["severity"], "error");
            assert!(event.get("context").is_none());
        }
        _ => panic!("expected a transmission"),
    }
}

#[test]
fn triggering_call_substitutes_the_notice() {
    let mut api = Bugsnag::new("api-key", "my-dir");
    let (limiter, _record) = RateLimit::new(
        vec![SendLimit::new(1000, 0)],
        String::from("rl.json"),
        Some(RateLimitNotificationOptions::new(
            Some(String::from(r#"{"foo":"bar"}"#)),
            Some(Severity::Warning),
        )),
        None,
    );
    api.rate_limit(limiter);
    let frames = Vec::new();

    // the first send raises the edge: the report is replaced by the notice
    let mut builder = api.notify("Err", "boom");
    match builder.prepare_send(&frames, None, 0) {
        SendPrep::Transmit { payload, persist } => {
            assert!(persist.is_some());
            let v: serde_json::Value = serde_json::from_str(&payload).unwrap();
            let event = &v["events"][0];
            assert_eq!(event["exceptions"][0]["errorClass"], "RateLimit");
            assert_eq!(
                event["exceptions"][0]["message"],
                "Rate limit reached. Notifications will be suppressed."
            );
            assert_eq!(event["severity"], "warning");
            assert_eq!(event["metaData"]["foo"], "bar");
            assert_eq!(event["groupingHash"], "rate_limit");
        }
        _ => panic!("expected the substituted notice to be transmitted"),
    }
}

#[test]
fn reached_call_is_suppressed() {
    let mut api = Bugsnag::new("api-key", "my-dir");
    let (limiter, _record) = RateLimit::new(
        vec![SendLimit::new(1000, 0)],
        String::from("rl.json"),
        Some(RateLimitNotificationOptions::new(None, None)),
        None,
    );
    api.rate_limit(limiter);
    let frames = Vec::new();

    // first attempt: triggers and transmits the substituted notice
    let mut builder = api.notify("Err", "one");
    let record = match builder.prepare_send(&frames, None, 0) {
        SendPrep::Transmit { persist, .. } => persist.unwrap(),
        _ => panic!("expected a transmission"),
    };

    // second attempt while still reached: suppressed, no transmission
    let mut builder = api.notify("Err", "two");
    match builder.prepare_send(&frames, Some(&record), 10) {
        SendPrep::Suppressed { persist } => {
            assert!(persist.contains("\"triggered\":false"));
        }
        _ => panic!("expected suppression"),
    }
}

#[test]
fn triggering_call_without_options_sends_bare_notice() {
    // with no notice options configured, the triggering call still informs
    // the collector: the fixed notice goes out with severity and metadata
    // absent
    let mut api = Bugsnag::new("api-key", "my-dir");
    let (limiter, _record) = RateLimit::new(
        vec![SendLimit::new(1000, 0)],
        String::from("rl.json"),
        None,
        None,
    );
    api.rate_limit(limiter);
    let frames = Vec::new();
    let mut builder = api.notify("Err", "boom").severity(Severity::Info);
    match builder.prepare_send(&frames, None, 0) {
        SendPrep::Transmit { payload, persist } => {
            assert!(persist.is_some());
            let v: serde_json::Value = serde_json::from_str(&payload).unwrap();
            let event = &v["events"][0];
            assert_eq!(event["exceptions"][0]["errorClass"], "RateLimit");
            assert_eq!(
                event["exceptions"][0]["message"],
                "Rate limit reached. Notifications will be suppressed."
            );
            assert_eq!(event["groupingHash"], "rate_limit");
            assert!(event.get("severity").is_none());
            assert!(event.get("metaData").is_none());
            assert!(event.get("context").is_none());
        }
        _ => panic!("expected the bare notice to be transmitted"),
    }
}

#[test]
fn transfer_failure_errors_by_store_outcome() {
    assert_eq!(
        transfer_failure_error(StoreOutcome::NotConfigured),
        Error::JsonTransferFailed
    );
    assert_eq!(
        transfer_failure_error(StoreOutcome::Stored),
        Error::JsonTransferFailed
    );
    assert_eq!(
        transfer_failure_error(StoreOutcome::StoreFailed),
        Error::JsonTransferAndStorageFailed
    );
}

#[test]
fn error_descriptions() {
    assert_eq!(
        Error::JsonConversionFailed.description(),
        "conversion to json failed"
    );
    assert_eq!(
        Error::JsonTransferFailed.description(),
        "while transferring the json to Bugsnag, a problem occurred"
    );
    assert_eq!(
        Error::JsonTransferAndStorageFailed.description(),
        "transferring json to Bugsnag failed and subsequent attempt to store json for retransmission failed as well"
    );
    assert_eq!(
        Error::OfflineStorageError.description(),
        "reading from / writing to offline storage failed"
    );
}

#[test]
fn offline_report_names() {
    let name = offline_report_name("abc-123");
    assert_eq!(name, "bugsnag_report_abc-123");
    assert!(is_offline_report_name(&name));
    assert!(!is_offline_report_name("other_file"));
    assert!(!is_offline_report_name("bugsnag"));

    let path = offline_report_path("/tmp/store", "abc-123");
    assert_eq!(path, "/tmp/store/bugsnag_report_abc-123");
}

#[test]
fn report_tokens_have_the_documented_length() {
    let token = fresh_report_token();
    assert_eq!(token.chars().count(), 36);
    assert!(is_offline_report_name(&offline_report_name(&token)));
}

#[test]
fn retry_step_decisions() {
    assert!(matches!(
        retry_step(false, false),
        RetryStep::Abort(Error::OfflineStorageError)
    ));
    assert!(matches!(
        retry_step(true, false),
        RetryStep::Abort(Error::JsonTransferFailed)
    ));
    assert!(matches!(retry_step(true, true), RetryStep::DeleteAndContinue));
}

#[test]
fn frame_in_project_by_directory() {
    // without methods to ignore, only the file's directory decides
    assert!(frame_in_project("/proj/src/main.rs", "main", "/proj", None));
    assert!(!frame_in_project("/other/lib.rs", "main", "/proj", None));
}

#[test]
fn frame_in_project_with_ignored_methods() {
    // with methods named, a frame stays in-project while some named method
    // does not occur in the frame's method name
    let ignore = vec![String::from("alloc"), String::from("panic")];
    assert!(frame_in_project(
        "/proj/src/main.rs",
        "run_alloc",
        "/proj",
        Some(&ignore)
    ));
    assert!(!frame_in_project(
        "/proj/src/main.rs",
        "alloc_then_panic",
        "/proj",
        Some(&ignore)
    ));
    assert!(!frame_in_project("/elsewhere/main.rs", "run", "/proj", Some(&ignore)));
}

#[test]
fn builder_setters_compose() {
    let api = Bugsnag::new("api-key", "my-dir");
    let mut builder = api
        .notify("Err", "boom")
        .context("during tests")
        .grouping_hash("g1")
        .methods_to_ignore(&["ignore_me"]);
    let frames = vec![bugsnag::Frame::new("main.rs", 7, "main", true)];
    match builder.prepare_send(&frames, None, 0) {
        SendPrep::Transmit { payload, .. } => {
            let v: serde_json::Value = serde_json::from_str(&payload).unwrap();
            let event = &v["events"][0];
            assert_eq!(event["context"], "during tests");
            assert_eq!(event["groupingHash"], "g1");
            assert_eq!(event["exceptions"][0]["stacktrace"][0]["file"], "main.rs");
            assert_eq!(event["exceptions"][0]["stacktrace"][0]["lineNumber"], 7);
            assert_eq!(event["exceptions"][0]["stacktrace"][0]["inProject"], true);
        }
        _ => panic!("expected a transmission"),
    }
}
