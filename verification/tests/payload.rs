use bugsnag::{AppInfo, DeviceInfo, Event, Exception, Frame, Notification, Severity, User};

fn val(s: &str) -> serde_json::Value {
    serde_json::from_str(s).unwrap()
}

fn app_info_json(info: &AppInfo) -> serde_json::Value {
    let mut s = String::new();
    info.append_json(&mut s);
    val(&s)
}

fn device_info_json(info: &DeviceInfo) -> serde_json::Value {
    let mut s = String::new();
    info.append_json(&mut s);
    val(&s)
}

fn event_json(evt: &Event) -> serde_json::Value {
    let mut s = String::new();
    evt.append_json(&mut s);
    val(&s)
}

fn exception_json(ex: &Exception) -> serde_json::Value {
    let mut s = String::new();
    ex.append_json(&mut s);
    val(&s)
}

#[test]
fn test_appinfo_to_json() {
    let info = AppInfo::new(Some("1.0.0"), Some("test"), Some("rust"));

    assert_eq!(
        app_info_json(&info),
        val(r#"{"version":"1.0.0","releaseStage":"test","type":"rust"}"#)
    );
}

#[test]
fn test_appinfo_with_version_to_json() {
    let info = AppInfo::new(Some("1.0.0"), None, None);

    assert_eq!(app_info_json(&info), val(r#"{"version":"1.0.0"}"#));
}

#[test]
fn test_appinfo_with_release_stage_to_json() {
    let info = AppInfo::new(None, Some("test"), None);

    assert_eq!(app_info_json(&info), val(r#"{"releaseStage":"test"}"#));
}

#[test]
fn test_appinfo_with_type_to_json() {
    let info = AppInfo::new(None, None, Some("rust"));

    assert_eq!(app_info_json(&info), val(r#"{"type":"rust"}"#));
}

#[test]
fn test_appinfo_escapes_strings() {
    let info = AppInfo::new(Some("a\"b\\c"), None, None);

    assert_eq!(app_info_json(&info), val("{\"version\":\"a\\\"b\\\\c\"}"));
}

#[test]
fn test_deviceinfo_to_json() {
    let info = DeviceInfo::new("1.0.0", "testmachine");

    assert_eq!(
        device_info_json(&info),
        val(r#"{"osVersion":"1.0.0","hostname":"testmachine"}"#)
    );
}

#[test]
fn test_deviceinfo_to_json_with_set() {
    let mut info = DeviceInfo::generate();
    info.set_hostname("testmachine3");
    info.set_os_version("3.0.0");

    assert_eq!(
        device_info_json(&info),
        val(r#"{"osVersion":"3.0.0","hostname":"testmachine3"}"#)
    );
}

#[test]
fn test_deviceinfo_from_host_report_defaults() {
    let info = DeviceInfo::from_host_report(None, None, None);

    assert_eq!(
        device_info_json(&info),
        val(r#"{"osVersion":"Unknown:u.k.n.o.w.n","hostname":"UnknownHost"}"#)
    );
}

#[test]
fn test_event_to_json() {
    let empty_vec = Vec::new();
    let device = DeviceInfo::new("1.0.0", "testmachine");
    let app = None;
    let user = None;
    let metadata = None;
    let evt = Event::new(
        &empty_vec,
        Some(Severity::Error),
        None,
        None,
        &device,
        &app,
        &user,
        &metadata,
    );

    assert_eq!(
        event_json(&evt),
        val(
            r#"{"exceptions":[],"severity":"error","device":{"osVersion":"1.0.0","hostname":"testmachine"}}"#
        )
    );
}

#[test]
fn test_event_with_context_to_json() {
    let empty_vec = Vec::new();
    let device = DeviceInfo::new("1.0.0", "testmachine");
    let app = None;
    let user = None;
    let metadata = None;
    let evt = Event::new(
        &empty_vec,
        Some(Severity::Error),
        Some("test/context"),
        None,
        &device,
        &app,
        &user,
        &metadata,
    );

    assert_eq!(
        event_json(&evt),
        val(
            r#"{"exceptions":[],"severity":"error","context":"test/context","device":{"osVersion":"1.0.0","hostname":"testmachine"}}"#
        )
    );
}

#[test]
fn test_event_with_app_info_to_json() {
    let empty_vec = Vec::new();
    let device = DeviceInfo::new("1.0.0", "testmachine");
    let app = Some(AppInfo::new(Some("1.0.0"), Some("test"), Some("rust")));
    let user = None;
    let metadata = None;
    let evt = Event::new(
        &empty_vec,
        Some(Severity::Error),
        None,
        None,
        &device,
        &app,
        &user,
        &metadata,
    );

    assert_eq!(
        event_json(&evt),
        val(
            r#"{"exceptions":[],"severity":"error","device":{"osVersion":"1.0.0","hostname":"testmachine"},"app":{"version":"1.0.0","releaseStage":"test","type":"rust"}}"#
        )
    );
}

#[test]
fn test_event_with_user_to_json() {
    let empty_vec = Vec::new();
    let device = DeviceInfo::new("1.0.0", "testmachine");
    let app = None;
    let user = Some(User::new("123456789", "testuser", "test@user.com"));
    let metadata = None;
    let evt = Event::new(
        &empty_vec,
        Some(Severity::Error),
        None,
        None,
        &device,
        &app,
        &user,
        &metadata,
    );

    assert_eq!(
        event_json(&evt),
        val(
            r#"{"exceptions":[],"severity":"error","device":{"osVersion":"1.0.0","hostname":"testmachine"},"user":{"id":"123456789","name":"testuser","email":"test@user.com"}}"#
        )
    );
}

#[test]
fn test_event_with_metadata_to_json() {
    let empty_vec = Vec::new();
    let device = DeviceInfo::new("1.0.0", "testmachine");
    let app = None;
    let user = None;
    let metadata = Some(String::from(
        r#"{"test":"DATA_META_TEST","meta":"test meta data","data":{"boolean":false,"float":1.0,"number":42}}"#,
    ));
    let evt = Event::new(
        &empty_vec,
        Some(Severity::Error),
        None,
        None,
        &device,
        &app,
        &user,
        &metadata,
    );

    assert_eq!(
        event_json(&evt),
        val(
            r#"{"exceptions":[],"severity":"error","device":{"osVersion":"1.0.0","hostname":"testmachine"},"metaData":{"test":"DATA_META_TEST","meta":"test meta data","data":{"boolean":false,"float":1.0,"number":42}}}"#
        )
    );
}

#[test]
fn test_exception_to_json() {
    let empty_vec = Vec::new();
    let ex = Exception::new("Assert", "Assert", &empty_vec);

    assert_eq!(
        exception_json(&ex),
        val(r#"{"errorClass":"Assert","message":"Assert","stacktrace":[]}"#)
    );
}

#[test]
fn test_notification_to_json() {
    let empty_vec = Vec::new();
    let notification = Notification::new(&empty_vec);

    assert_eq!(
        val(&notification.to_json()),
        val(
            r#"{"payloadVersion":"5","notifier":{"name":"Bugsnag Rust","version":"0.1.0","url":"https://github.com/Hum-Systems/bugsnag-rs"},"events":[]}"#
        )
    );
}

#[test]
fn test_notification_with_event_to_json() {
    let frames = vec![Frame::new("test.rs", 400, "test", false)];
    let exceptions = vec![Exception::new("Assert", "Assert", &frames)];
    let device = DeviceInfo::new("1.0.0", "testmachine");
    let app = None;
    let user = None;
    let metadata = None;
    let events = vec![Event::new(
        &exceptions,
        None,
        None,
        None,
        &device,
        &app,
        &user,
        &metadata,
    )];

    let notification = Notification::new(&events);

    assert_eq!(
        val(&notification.to_json()),
        val(
            r#"{"payloadVersion":"5","notifier":{"name":"Bugsnag Rust","version":"0.1.0","url":"https://github.com/Hum-Systems/bugsnag-rs"},"events":[{"exceptions":[{"errorClass":"Assert","message":"Assert","stacktrace":[{"file":"test.rs","lineNumber":400,"method":"test","inProject":false}]}],"device":{"osVersion":"1.0.0","hostname":"testmachine"}}]}"#
        )
    );
}
