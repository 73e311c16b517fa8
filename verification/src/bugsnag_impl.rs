//! The delivery pipeline: one notification attempt consults the rate
//! limiter, substitutes a synthetic notice when a window has just become
//! exceeded, suppresses further sends while it stays exceeded, and otherwise
//! hands the caller a wire payload to transmit; a failed transmission falls
//! back to the offline report store.

use crate::appinfo::{AppInfo, AppInfoModel};
use crate::deviceinfo::{DeviceInfo, DeviceInfoModel};
use crate::event::{Event, EventModel};
use crate::exception::{Exception, ExceptionModel};
use crate::notification::{notification_json, Notification, NotificationModel};
use crate::rate_limit::{limits_reached, loaded_record, registered, RateLimit, RateLimitModel,
    RateLimitNotificationOptions};
use crate::stacktrace::{Frame, FrameModel};
use crate::user::{User, UserModel};
use vstd::prelude::*;
use vstd::string::StringExecFns;

verus! {

/// How severe a reported error is.
#[derive(Clone, Copy, Debug, PartialEq, Eq, Structural)]
pub enum Severity {
    Error,
    Warning,
    Info,
}

/// The JSON form of a severity: its lower-case name as a JSON string.
pub open spec fn severity_json(s: Severity) -> Seq<char> {
    match s {
        Severity::Error => "\"error\""@,
        Severity::Warning => "\"warning\""@,
        Severity::Info => "\"info\""@,
    }
}

/// Appends the JSON form of a severity.
pub fn append_severity_json(out: &mut String, s: Severity)
    ensures
        final(out)@ == old(out)@ + severity_json(s),
{
    match s {
        Severity::Error => out.append("\"error\""),
        Severity::Warning => out.append("\"warning\""),
        Severity::Info => out.append("\"info\""),
    }
}

/// What went wrong with a delivery attempt.
#[derive(Clone, Copy, Debug, PartialEq, Eq, Structural)]
pub enum Error {
    /// The wire payload for the notification could not be produced.
    JsonConversionFailed,
    /// While transferring the payload to the collector, a problem occurred.
    /// This error does not reflect whether the collector rejected the payload.
    JsonTransferFailed,
    /// Transfer failed and the subsequent attempt to keep the payload in
    /// offline storage failed as well.
    JsonTransferAndStorageFailed,
    /// No offline storage has been specified, or it could not be read.
    OfflineStorageError,
}

/// The fixed description of each error kind.
pub open spec fn error_description(e: Error) -> Seq<char> {
    match e {
        Error::JsonConversionFailed => "conversion to json failed"@,
        Error::JsonTransferFailed => "while transferring the json to Bugsnag, a problem occurred"@,
        Error::JsonTransferAndStorageFailed => "transferring json to Bugsnag failed and subsequent attempt to store json for retransmission failed as well"@,
        Error::OfflineStorageError => "reading from / writing to offline storage failed"@,
    }
}

impl Error {
    /// A short, fixed description of this error kind.
    pub fn description(&self) -> (d: &'static str)
        ensures
            d@ == error_description(*self),
    {
        match *self {
            Error::JsonConversionFailed => "conversion to json failed",
            Error::JsonTransferFailed => "while transferring the json to Bugsnag, a problem occurred",
            Error::JsonTransferAndStorageFailed => "transferring json to Bugsnag failed and subsequent attempt to store json for retransmission failed as well",
            Error::OfflineStorageError => "reading from / writing to offline storage failed",
        }
    }
}

// ---------------------------------------------------------------------------
// The client configuration.
// ---------------------------------------------------------------------------

/// The client: the collector credentials and the configuration every
/// notification attempt starts from.
pub struct Bugsnag {
    api_key: String,
    device_info: DeviceInfo,
    app_info: Option<AppInfo>,
    user: Option<User>,
    project_source_dir: String,
    offline_storage: Option<String>,
    rate_limit: Option<RateLimit>,
}

/// The mathematical content of a client.
pub struct BugsnagModel {
    pub api_key: Seq<char>,
    pub device: DeviceInfoModel,
    pub app: Option<AppInfoModel>,
    pub user: Option<UserModel>,
    pub project_source_dir: Seq<char>,
    pub offline_storage: Option<Seq<char>>,
    pub rate_limit: Option<RateLimitModel>,
}

impl View for Bugsnag {
    type V = BugsnagModel;

    closed spec fn view(&self) -> BugsnagModel {
        BugsnagModel {
            api_key: self.api_key@,
            device: self.device_info@,
            app: match self.app_info {
                Some(a) => Some(a@),
                None => None,
            },
            user: match self.user {
                Some(u) => Some(u@),
                None => None,
            },
            project_source_dir: self.project_source_dir@,
            offline_storage: self.offline_storage.deep_view(),
            rate_limit: match self.rate_limit {
                Some(rl) => Some(rl@),
                None => None,
            },
        }
    }
}

impl Bugsnag {
    /// A client for the given collector key, reporting this machine's device
    /// block, with nothing else configured yet.
    pub fn new(api_key: &str, project_source_dir: &str) -> (b: Bugsnag)
        ensures
            b@.api_key == api_key@,
            b@.project_source_dir == project_source_dir@,
            b@.app is None,
            b@.user is None,
            b@.offline_storage is None,
            b@.rate_limit is None,
            exists|t: Option<Seq<char>>, r: Option<Seq<char>>, h: Option<Seq<char>>|
                b@.device.os_version == crate::deviceinfo::generated_version(t, r)
                    && b@.device.hostname == crate::deviceinfo::generated_hostname(h),
    {
        Bugsnag {
            api_key: api_key.to_owned(),
            device_info: DeviceInfo::generate(),
            app_info: None,
            user: None,
            project_source_dir: project_source_dir.to_owned(),
            offline_storage: None,
            rate_limit: None,
        }
    }

    /// Replaces the parts of the device block that are given.
    pub fn set_device_info(&mut self, hostname: Option<&str>, version: Option<&str>)
        ensures
            final(self)@.device.hostname == (match hostname {
                Some(h) => h@,
                None => old(self)@.device.hostname,
            }),
            final(self)@.device.os_version == (match version {
                Some(v) => v@,
                None => old(self)@.device.os_version,
            }),
            final(self)@ == (BugsnagModel { device: final(self)@.device, ..old(self)@ }),
    {
        if let Some(name) = hostname {
            self.device_info.set_hostname(name);
        }
        if let Some(ver) = version {
            self.device_info.set_os_version(ver);
        }
    }

    /// Sets the application block sent with every notification.
    pub fn set_app_info(
        &mut self,
        version: Option<&str>,
        release_stage: Option<&str>,
        atype: Option<&str>,
    )
        ensures
            final(self)@ == (BugsnagModel {
                app: Some(
                    AppInfoModel {
                        version: version.deep_view(),
                        release_stage: release_stage.deep_view(),
                        atype: atype.deep_view(),
                    },
                ),
                ..old(self)@
            }),
    {
        self.app_info = Some(AppInfo::new(version, release_stage, atype));
    }

    /// Removes the application block.
    pub fn reset_app_info(&mut self)
        ensures
            final(self)@ == (BugsnagModel { app: None, ..old(self)@ }),
    {
        self.app_info = None;
    }

    /// Sets the user block sent with every notification.
    pub fn set_user(&mut self, user: User)
        ensures
            final(self)@ == (BugsnagModel { user: Some(user@), ..old(self)@ }),
    {
        self.user = Some(user);
    }

    /// Configures the directory where reports that failed transmission are
    /// kept for a later retry.
    pub fn use_offline_storage(&mut self, storage: &str)
        ensures
            final(self)@ == (BugsnagModel { offline_storage: Some(storage@), ..old(self)@ }),
    {
        self.offline_storage = Some(storage.to_owned());
    }

    /// Configures the rate limiter every notification attempt consults.
    pub fn rate_limit(&mut self, rate_limit: RateLimit)
        ensures
            final(self)@ == (BugsnagModel { rate_limit: Some(rate_limit@), ..old(self)@ }),
    {
        self.rate_limit = Some(rate_limit);
    }

    /// The directory that counts as in-project for stack frames.
    pub fn get_project_source_dir(&self) -> (r: &String)
        ensures
            r@ == self@.project_source_dir,
    {
        &self.project_source_dir
    }

    /// The collector key, for the transport headers.
    pub fn api_key(&self) -> (r: &String)
        ensures
            r@ == self@.api_key,
    {
        &self.api_key
    }

    /// The configured offline storage directory, if any.
    pub fn offline_storage(&self) -> (r: &Option<String>)
        ensures
            r.deep_view() == self@.offline_storage,
    {
        &self.offline_storage
    }

    /// Begins a notification attempt for one error: a builder holding a
    /// snapshot of the client's current configuration.
    pub fn notify(&self, error_class: &str, message: &str) -> (b: NotifyBuilder)
        ensures
            b@ == initial_builder(self@, error_class@, message@),
    {
        NotifyBuilder {
            error_class: error_class.to_owned(),
            message: message.to_owned(),
            send_executed: false,
            methods_to_ignore: None,
            context: None,
            metadata: None,
            severity: None,
            grouping_hash: None,
            rate_limit: match &self.rate_limit {
                Some(rl) => Some(rl.clone()),
                None => None,
            },
            api_key: self.api_key.clone(),
            device_info: self.device_info.clone(),
            app_info: match &self.app_info {
                Some(a) => Some(a.clone()),
                None => None,
            },
            user: match &self.user {
                Some(u) => Some(u.clone()),
                None => None,
            },
        }
    }
}

// ---------------------------------------------------------------------------
// One notification attempt.
// ---------------------------------------------------------------------------

/// A notification being put together: the error, what the caller adds to it,
/// and the snapshot of the client configuration taken when it was begun.
pub struct NotifyBuilder {
    error_class: String,
    message: String,
    send_executed: bool,
    methods_to_ignore: Option<Vec<String>>,
    context: Option<String>,
    metadata: Option<String>,
    severity: Option<Severity>,
    grouping_hash: Option<String>,
    rate_limit: Option<RateLimit>,
    api_key: String,
    device_info: DeviceInfo,
    app_info: Option<AppInfo>,
    user: Option<User>,
}

/// The mathematical content of a notification attempt. The metadata is an
/// opaque piece of JSON text, embedded verbatim in the payload.
pub struct BuilderModel {
    pub error_class: Seq<char>,
    pub message: Seq<char>,
    pub send_executed: bool,
    pub methods_to_ignore: Option<Seq<Seq<char>>>,
    pub context: Option<Seq<char>>,
    pub metadata: Option<Seq<char>>,
    pub severity: Option<Severity>,
    pub grouping_hash: Option<Seq<char>>,
    pub rate_limit: Option<RateLimitModel>,
    pub api_key: Seq<char>,
    pub device: DeviceInfoModel,
    pub app: Option<AppInfoModel>,
    pub user: Option<UserModel>,
}

impl View for NotifyBuilder {
    type V = BuilderModel;

    closed spec fn view(&self) -> BuilderModel {
        BuilderModel {
            error_class: self.error_class@,
            message: self.message@,
            send_executed: self.send_executed,
            methods_to_ignore: match self.methods_to_ignore {
                Some(ref v) => Some(v.deep_view()),
                None => None,
            },
            context: self.context.deep_view(),
            metadata: self.metadata.deep_view(),
            severity: self.severity,
            grouping_hash: self.grouping_hash.deep_view(),
            rate_limit: match self.rate_limit {
                Some(ref rl) => Some(rl@),
                None => None,
            },
            api_key: self.api_key@,
            device: self.device_info@,
            app: match self.app_info {
                Some(ref a) => Some(a@),
                None => None,
            },
            user: match self.user {
                Some(ref u) => Some(u@),
                None => None,
            },
        }
    }
}

/// The state a notification attempt starts in: nothing set yet, nothing
/// sent, the client's configuration snapshotted.
pub open spec fn initial_builder(bs: BugsnagModel, error_class: Seq<char>, message: Seq<char>)
    -> BuilderModel {
    BuilderModel {
        error_class,
        message,
        send_executed: false,
        methods_to_ignore: None,
        context: None,
        metadata: None,
        severity: None,
        grouping_hash: None,
        rate_limit: bs.rate_limit,
        api_key: bs.api_key,
        device: bs.device,
        app: bs.app,
        user: bs.user,
    }
}

/// The single event a notification attempt sends.
pub open spec fn builder_event(b: BuilderModel, frames: Seq<FrameModel>) -> EventModel {
    EventModel {
        exceptions: seq![
            ExceptionModel { error_class: b.error_class, message: b.message, stacktrace: frames },
        ],
        severity: b.severity,
        context: b.context,
        device: b.device,
        app: b.app,
        user: b.user,
        meta_data: b.metadata,
        grouping_hash: b.grouping_hash,
    }
}

/// The wire payload a notification attempt sends: a complete body holding
/// its one event.
pub open spec fn builder_payload(b: BuilderModel, frames: Seq<FrameModel>) -> Seq<char> {
    notification_json(NotificationModel { events: seq![builder_event(b, frames)] })
}

/// A builder with its report replaced by the fixed notice sent the moment a
/// window becomes exceeded: class and message are fixed, context cleared,
/// metadata and severity shaped by the configured options — absent when no
/// options are configured — and the grouping hash fixed so the collector
/// groups all such notices together.
pub open spec fn substituted(b: BuilderModel, o: Option<crate::rate_limit::OptionsModel>)
    -> BuilderModel {
    BuilderModel {
        error_class: "RateLimit"@,
        message: "Rate limit reached. Notifications will be suppressed."@,
        context: None,
        metadata: match o {
            Some(op) => op.metadata,
            None => None,
        },
        severity: match o {
            Some(op) => op.severity,
            None => None,
        },
        grouping_hash: Some("rate_limit"@),
        ..b
    }
}

/// The limiter state after a notification attempt registered its send, where
/// one is configured.
pub open spec fn registered_limiter(b: BuilderModel, loaded: Option<RateLimitModel>, now: i64)
    -> Option<RateLimitModel> {
    match b.rate_limit {
        Some(rl) => Some(registered(rl, loaded, now)),
        None => None,
    }
}

/// Whether the attempt replaces its report with the fixed notice: exactly
/// when the registration raised the edge indicator. The notice goes out on
/// every triggering call, so the collector is informed once per edge whether
/// or not notice options are configured.
pub open spec fn will_substitute(b: BuilderModel, loaded: Option<RateLimitModel>, now: i64)
    -> bool {
    match registered_limiter(b, loaded, now) {
        Some(rl1) => rl1.triggered,
        None => false,
    }
}

/// Whether the attempt is suppressed without contacting the network: a limit
/// is reached and the report is not being substituted.
pub open spec fn will_suppress(b: BuilderModel, loaded: Option<RateLimitModel>, now: i64)
    -> bool {
    match registered_limiter(b, loaded, now) {
        Some(rl1) => !will_substitute(b, loaded, now) && limits_reached(
            rl1.limits,
            rl1.sent_at,
            now,
        ),
        None => false,
    }
}

/// The builder after its send step: marked sent, the limiter updated, and
/// the report substituted where the registration raised the edge indicator.
pub open spec fn builder_after_send(b: BuilderModel, loaded: Option<RateLimitModel>, now: i64)
    -> BuilderModel {
    let rl1 = registered_limiter(b, loaded, now);
    let b1 = BuilderModel { send_executed: true, rate_limit: rl1, ..b };
    if will_substitute(b, loaded, now) {
        substituted(b1, rl1->Some_0.options)
    } else {
        b1
    }
}

/// What a prepared notification attempt asks the caller to do.
#[allow(inconsistent_fields)]
pub enum SendPrep {
    /// This notification was already sent: nothing to do, report success.
    AlreadySent,
    /// A limit is reached: write the limiter record and report success
    /// without contacting the network.
    Suppressed { persist: String },
    /// Transmit the payload; where a limiter is configured, write its record
    /// first.
    Transmit { payload: String, persist: Option<String> },
}

impl NotifyBuilder {
    /// Names methods whose frames a stack-trace provider should mark as not
    /// belonging to the project.
    pub fn methods_to_ignore(self, val: &[&str]) -> (r: Self)
        ensures
            r@ == (BuilderModel { methods_to_ignore: Some(val.deep_view()), ..self@ }),
    {
        let mut v: Vec<String> = Vec::new();
        let mut i: usize = 0;
        while i < val.len()
            invariant
                i <= val.len(),
                v.deep_view() =~= val.deep_view().take(i as int),
            decreases val.len() - i,
        {
            let ghost pre = v.deep_view();
            v.push(val[i].to_owned());
            proof {
                assert(v.deep_view() =~= pre.push(val@[i as int]@));
                assert(val.deep_view().take(i + 1) =~= pre.push(val.deep_view()[i as int]));
            }
            i = i + 1;
        }
        proof {
            assert(val.deep_view().take(val.len() as int) =~= val.deep_view());
        }
        let r = NotifyBuilder { methods_to_ignore: Some(v), ..self };
        proof {
            assert(r@ == (BuilderModel { methods_to_ignore: Some(val.deep_view()), ..self@ }));
        }
        r
    }

    /// The limiter this attempt consults, if one is configured; its
    /// persistence path names the file to read before the send step and to
    /// write the returned record to.
    pub fn rate_limiter(&self) -> (r: &Option<RateLimit>)
        ensures
            (match r {
                Some(rl) => self@.rate_limit == Some(rl@),
                None => self@.rate_limit is None,
            }),
    {
        &self.rate_limit
    }

    /// The configured methods to ignore, for a stack-trace provider.
    pub fn ignored_methods(&self) -> (r: &Option<Vec<String>>)
        ensures
            (match r {
                Some(v) => self@.methods_to_ignore == Some(v.deep_view()),
                None => self@.methods_to_ignore is None,
            }),
    {
        &self.methods_to_ignore
    }

    /// Sets a context describing the state of the application when the error
    /// occurred.
    pub fn context(self, val: &str) -> (r: Self)
        ensures
            r@ == (BuilderModel { context: Some(val@), ..self@ }),
    {
        NotifyBuilder { context: Some(val.to_owned()), ..self }
    }

    /// Attaches metadata to the report, as a piece of JSON text embedded
    /// verbatim in the payload.
    pub fn metadata(self, val: &str) -> (r: Self)
        ensures
            r@ == (BuilderModel { metadata: Some(val@), ..self@ }),
    {
        NotifyBuilder { metadata: Some(val.to_owned()), ..self }
    }

    /// Sets the severity of the error.
    pub fn severity(self, val: Severity) -> (r: Self)
        ensures
            r@ == (BuilderModel { severity: Some(val), ..self@ }),
    {
        NotifyBuilder { severity: Some(val), ..self }
    }

    /// Sets the grouping hash for the collector.
    pub fn grouping_hash(self, val: &str) -> (r: Self)
        ensures
            r@ == (BuilderModel { grouping_hash: Some(val@), ..self@ }),
    {
        NotifyBuilder { grouping_hash: Some(val.to_owned()), ..self }
    }

    /// The wire payload for this attempt with the given stack trace.
    pub fn create_json(&self, frames: &Vec<Frame>) -> (r: String)
        ensures
            r@ == builder_payload(self@, frames.deep_view()),
    {
        let exceptions = vec![
            Exception::new(self.error_class.as_str(), self.message.as_str(), frames),
        ];
        let metadata: Option<String> = match &self.metadata {
            Some(m) => Some(m.clone()),
            None => None,
        };
        let events = vec![
            Event::new(
                &exceptions,
                self.severity,
                match &self.context {
                    Some(c) => Some(c.as_str()),
                    None => None,
                },
                match &self.grouping_hash {
                    Some(g) => Some(g.as_str()),
                    None => None,
                },
                &self.device_info,
                &self.app_info,
                &self.user,
                &metadata,
            ),
        ];
        let n = Notification::new(&events);
        proof {
            assert(exceptions.deep_view() =~= seq![
                ExceptionModel {
                    error_class: self@.error_class,
                    message: self@.message,
                    stacktrace: frames.deep_view(),
                },
            ]);
            assert(events.deep_view() =~= seq![builder_event(self@, frames.deep_view())]);
            assert(n@ == (NotificationModel {
                events: seq![builder_event(self@, frames.deep_view())],
            }));
        }
        n.to_json()
    }

    /// Prepares the send step of this attempt: at most one transmission per
    /// constructed notification, the limiter consulted and updated where one
    /// is configured, the report substituted on the not-reached to reached
    /// edge, and suppressed while a limit stays reached. The caller performs
    /// what the returned value asks.
    pub fn prepare_send(&mut self, frames: &Vec<Frame>, loaded: Option<&str>, now_ms: i64) -> (r:
        SendPrep)
        ensures
            final(self)@ == (if old(self)@.send_executed {
                old(self)@
            } else {
                builder_after_send(old(self)@, loaded_record(loaded), now_ms)
            }),
            (r is AlreadySent) <==> old(self)@.send_executed,
            !old(self)@.send_executed ==> ((r is Suppressed) <==> will_suppress(
                old(self)@,
                loaded_record(loaded),
                now_ms,
            )),
            (r matches SendPrep::Suppressed { persist } ==> persist@
                == crate::persist::encode_state(
                registered_limiter(old(self)@, loaded_record(loaded), now_ms)->Some_0,
            )),
            (r matches SendPrep::Transmit { payload, persist } ==> payload@ == builder_payload(
                builder_after_send(old(self)@, loaded_record(loaded), now_ms),
                frames.deep_view(),
            ) && persist.deep_view() == (match registered_limiter(
                old(self)@,
                loaded_record(loaded),
                now_ms,
            ) {
                Some(rl1) => Some(crate::persist::encode_state(rl1)),
                None => None::<Seq<char>>,
            })),
    {
        if self.send_executed {
            return SendPrep::AlreadySent;
        }
        self.send_executed = true;
        let mut persist_opt: Option<String> = None;
        let mut substitute: bool = false;
        let mut subst_opts: Option<RateLimitNotificationOptions> = None;
        if let Some(rl) = &mut self.rate_limit {
            let persist = rl.register_at(loaded, now_ms);
            let trig = rl.triggered();
            let reached = rl.reached_at(now_ms);
            if trig {
                substitute = true;
                if let Some(o) = &rl.notification_options {
                    subst_opts = Some(o.clone());
                }
            }
            if !substitute && reached {
                return SendPrep::Suppressed { persist };
            }
            persist_opt = Some(persist);
        }
        if substitute {
            self.error_class = "RateLimit".to_owned();
            self.message = "Rate limit reached. Notifications will be suppressed.".to_owned();
            self.context = None;
            match subst_opts {
                Some(o) => {
                    self.metadata = o.metadata;
                    self.severity = o.severity;
                },
                None => {
                    self.metadata = None;
                    self.severity = None;
                },
            }
            self.grouping_hash = Some("rate_limit".to_owned());
        }
        let payload = self.create_json(frames);
        SendPrep::Transmit { payload, persist: persist_opt }
    }
}

// ---------------------------------------------------------------------------
// The in-project predicate a stack-trace provider applies to its frames.
// ---------------------------------------------------------------------------

/// Whether the text `sub` occurs anywhere in `s`.
pub open spec fn contains_sub(s: Seq<char>, sub: Seq<char>) -> bool {
    exists|i: int| crate::persist::lit_at(s, i, sub)
}

/// Whether the text `sub` occurs anywhere in `s`, decided by scanning.
fn str_contains(s: &str, sub: &str) -> (r: bool)
    ensures
        r == contains_sub(s@, sub@),
{
    let slen = s.unicode_len();
    let sublen = sub.unicode_len();
    if sublen == 0 {
        proof {
            assert(s@.subrange(0, 0) =~= sub@);
            assert(crate::persist::lit_at(s@, 0, sub@));
        }
        return true;
    }
    if sublen > slen {
        proof {
            assert forall|j: int| !crate::persist::lit_at(s@, j, sub@) by {}
        }
        return false;
    }
    let mut i: usize = 0;
    while i <= slen - sublen
        invariant
            slen == s@.len(),
            sublen == sub@.len(),
            1 <= sublen <= slen,
            i <= slen - sublen + 1,
            forall|j: int| 0 <= j < i ==> !crate::persist::lit_at(s@, j, sub@),
        decreases slen - sublen + 1 - i,
    {
        if crate::persist::match_lit(s, i, sub) {
            return true;
        }
        i = i + 1;
    }
    proof {
        assert forall|j: int| !crate::persist::lit_at(s@, j, sub@) by {
            if 0 <= j < i {
            } else {
            }
        }
    }
    false
}

/// Whether a frame counts as in-project: its file lies under the project
/// source directory and, where methods to ignore are named, some named
/// method does not occur in the frame's method name.
pub open spec fn frame_in_project_spec(
    file: Seq<char>,
    method: Seq<char>,
    project_source_dir: Seq<char>,
    ignore: Option<Seq<Seq<char>>>,
) -> bool {
    crate::persist::lit_at(file, 0, project_source_dir) && (match ignore {
        Some(list) => exists|k: int| 0 <= k < list.len() && !contains_sub(method, list[k]),
        None => true,
    })
}

/// Whether a frame counts as in-project, for a stack-trace provider marking
/// frames before they are handed to a notification attempt.
#[verifier::loop_isolation(false)]
pub fn frame_in_project(
    file: &str,
    method: &str,
    project_source_dir: &str,
    ignore: Option<&Vec<String>>,
) -> (r: bool)
    ensures
        r == frame_in_project_spec(
            file@,
            method@,
            project_source_dir@,
            match ignore {
                Some(v) => Some(v.deep_view()),
                None => None,
            },
        ),
{
    if !crate::persist::match_lit(file, 0, project_source_dir) {
        return false;
    }
    match ignore {
        None => true,
        Some(list) => {
            let mut k: usize = 0;
            while k < list.len()
                invariant
                    k <= list.len(),
                    forall|j: int|
                        0 <= j < k ==> contains_sub(method@, #[trigger] list.deep_view()[j]),
                decreases list.len() - k,
            {
                if !str_contains(method, list[k].as_str()) {
                    proof {
                        assert(!contains_sub(method@, list.deep_view()[k as int]));
                        assert(ignore == Some(list));
                        assert(frame_in_project_spec(
                            file@,
                            method@,
                            project_source_dir@,
                            Some(list.deep_view()),
                        ));
                    }
                    return true;
                }
                k = k + 1;
            }
            false
        },
    }
}

// ---------------------------------------------------------------------------
// The transport's failure policy and the offline report store's naming.
// ---------------------------------------------------------------------------

/// How the fallback to offline storage went after a failed transmission.
pub enum StoreOutcome {
    /// No offline storage is configured.
    NotConfigured,
    /// The payload was written to offline storage.
    Stored,
    /// Writing to offline storage failed too.
    StoreFailed,
}

/// The error a failed transmission surfaces, by how the fallback went:
/// storing the payload is a consolation, not success, so the attempt still
/// fails; only a fallback that itself failed escalates the kind.
pub open spec fn transfer_failure_error_spec(store: StoreOutcome) -> Error {
    match store {
        StoreOutcome::NotConfigured => Error::JsonTransferFailed,
        StoreOutcome::Stored => Error::JsonTransferFailed,
        StoreOutcome::StoreFailed => Error::JsonTransferAndStorageFailed,
    }
}

/// The error a failed transmission surfaces, by how the fallback went.
pub fn transfer_failure_error(store: StoreOutcome) -> (e: Error)
    ensures
        e == transfer_failure_error_spec(store),
{
    match store {
        StoreOutcome::NotConfigured => Error::JsonTransferFailed,
        StoreOutcome::Stored => Error::JsonTransferFailed,
        StoreOutcome::StoreFailed => Error::JsonTransferAndStorageFailed,
    }
}

/// What the retry walk does after one stored report: abort with an error to
/// surface, or delete the file and continue with the next.
pub enum RetryStep {
    /// Stop the walk and surface this error; the file stays in the store.
    Abort(Error),
    /// The report went out: delete its file and continue.
    DeleteAndContinue,
}

/// The decision for one stored report during a retry: a failed read of the
/// store surfaces the storage error, a failed transmission surfaces the
/// transfer error, and only a delivered report leaves the store.
pub open spec fn retry_step_spec(read_ok: bool, send_ok: bool) -> RetryStep {
    if !read_ok {
        RetryStep::Abort(Error::OfflineStorageError)
    } else if !send_ok {
        RetryStep::Abort(Error::JsonTransferFailed)
    } else {
        RetryStep::DeleteAndContinue
    }
}

/// The decision for one stored report during a retry.
pub fn retry_step(read_ok: bool, send_ok: bool) -> (r: RetryStep)
    ensures
        r == retry_step_spec(read_ok, send_ok),
{
    if !read_ok {
        RetryStep::Abort(Error::OfflineStorageError)
    } else if !send_ok {
        RetryStep::Abort(Error::JsonTransferFailed)
    } else {
        RetryStep::DeleteAndContinue
    }
}

/// The file name of one stored report: the fixed prefix and the unique
/// token.
pub open spec fn report_name(token: Seq<char>) -> Seq<char> {
    "bugsnag_report_"@ + token
}

/// Whether a file name marks a stored report: it starts with the fixed
/// prefix.
pub open spec fn has_report_prefix(name: Seq<char>) -> bool {
    crate::persist::lit_at(name, 0, "bugsnag_report"@)
}

/// The file name of one stored report.
pub fn offline_report_name(token: &str) -> (r: String)
    ensures
        r@ == report_name(token@),
{
    let mut out = "bugsnag_report_".to_owned();
    out.append(token);
    out
}

/// The path of one stored report under the storage directory.
pub fn offline_report_path(dir: &str, token: &str) -> (r: String)
    ensures
        r@ == dir@ + "/"@ + report_name(token@),
{
    let mut out = dir.to_owned();
    out.append("/");
    out.append("bugsnag_report_");
    out.append(token);
    proof {
        assert(out@ =~= dir@ + "/"@ + report_name(token@));
    }
    out
}

/// Whether a file name marks a stored report.
pub fn is_offline_report_name(name: &str) -> (r: bool)
    ensures
        r == has_report_prefix(name@),
{
    crate::persist::match_lit(name, 0, "bugsnag_report")
}

/// Every name the store gives a report carries the store's prefix, so what
/// was stored is found again when the pending reports are listed.
pub proof fn lemma_report_name_has_prefix(token: Seq<char>)
    ensures
        has_report_prefix(report_name(token)),
{
    reveal_strlit("bugsnag_report_");
    reveal_strlit("bugsnag_report");
    let n = report_name(token);
    let p = "bugsnag_report"@;
    assert(n.subrange(0, p.len() as int) =~= p);
}

} // verus!
