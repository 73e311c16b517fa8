//! The multi-window rate limiter: a history of send timestamps held against
//! one or more configured windows, with an edge indicator for the moment a
//! window first becomes exceeded.

use crate::bugsnag_impl::Severity;
use vstd::prelude::*;

verus! {

/// One configured window: a duration in milliseconds and the greatest number
/// of sends the window permits before it counts as exceeded.
#[derive(Clone, Copy, Debug, PartialEq, Eq, Structural)]
pub struct SendLimit {
    pub duration_ms: u64,
    pub limit: u32,
}

impl SendLimit {
    /// A limit of `limit` sends per `duration_ms` milliseconds.
    pub fn new(duration_ms: u64, limit: u32) -> (l: SendLimit)
        ensures
            l == (SendLimit { duration_ms, limit }),
    {
        SendLimit { duration_ms, limit }
    }
}

/// Options shaping the synthetic notice sent the moment a window becomes
/// exceeded: optional metadata as opaque JSON text, and an optional severity.
pub struct RateLimitNotificationOptions {
    pub metadata: Option<String>,
    pub severity: Option<Severity>,
}

/// The mathematical content of the notice options.
pub struct OptionsModel {
    pub metadata: Option<Seq<char>>,
    pub severity: Option<Severity>,
}

impl View for RateLimitNotificationOptions {
    type V = OptionsModel;

    open spec fn view(&self) -> OptionsModel {
        OptionsModel { metadata: self.metadata.deep_view(), severity: self.severity }
    }
}

impl DeepView for RateLimitNotificationOptions {
    type V = OptionsModel;

    open spec fn deep_view(&self) -> OptionsModel {
        self.view()
    }
}

impl RateLimitNotificationOptions {
    /// Options with the given metadata and severity.
    pub fn new(metadata: Option<String>, severity: Option<Severity>) -> (o:
        RateLimitNotificationOptions)
        ensures
            o@.metadata == metadata.deep_view(),
            o@.severity == severity,
    {
        RateLimitNotificationOptions { metadata, severity }
    }
}

impl Clone for RateLimitNotificationOptions {
    fn clone(&self) -> (r: Self)
        ensures
            r@ == self@,
    {
        RateLimitNotificationOptions {
            metadata: match &self.metadata {
                Some(m) => Some(m.clone()),
                None => None,
            },
            severity: self.severity,
        }
    }
}

/// The persisted, multi-window rate limiter.
pub struct RateLimit {
    pub persistence_file: String,
    pub limits: Vec<SendLimit>,
    pub sent_notifications: Vec<i64>,
    pub triggered: bool,
    pub notification_options: Option<RateLimitNotificationOptions>,
}

/// The mathematical content of a limiter: its configuration, the send
/// history, and the edge indicator.
pub struct RateLimitModel {
    pub persistence_file: Seq<char>,
    pub limits: Seq<SendLimit>,
    pub sent_at: Seq<i64>,
    pub triggered: bool,
    pub options: Option<OptionsModel>,
}

impl View for RateLimit {
    type V = RateLimitModel;

    open spec fn view(&self) -> RateLimitModel {
        RateLimitModel {
            persistence_file: self.persistence_file@,
            limits: self.limits@,
            sent_at: self.sent_notifications@,
            triggered: self.triggered,
            options: self.notification_options.deep_view(),
        }
    }
}

impl DeepView for RateLimit {
    type V = RateLimitModel;

    open spec fn deep_view(&self) -> RateLimitModel {
        self.view()
    }
}

/// Whether a send at time `t` still counts at time `now` for a window of
/// `duration_ms`: its age is strictly below the duration. A timestamp in the
/// future has a negative age and counts.
pub open spec fn in_window(t: i64, now: i64, duration_ms: u64) -> bool {
    now - t < duration_ms
}

/// How many entries of the history count at `now` for a window of
/// `duration_ms`.
pub open spec fn count_in_window(sent: Seq<i64>, now: i64, duration_ms: u64) -> nat
    decreases sent.len(),
{
    if sent.len() == 0 {
        0
    } else {
        count_in_window(sent.drop_last(), now, duration_ms) + if in_window(
            sent.last(),
            now,
            duration_ms,
        ) {
            1nat
        } else {
            0nat
        }
    }
}

/// Whether one window is exceeded: the count of recent sends is strictly
/// greater than the permitted number, so a limit of `n` permits up to and
/// including `n` sends before being reached on the following one.
pub open spec fn window_exceeded(l: SendLimit, sent: Seq<i64>, now: i64) -> bool {
    count_in_window(sent, now, l.duration_ms) > l.limit
}

/// Whether any configured window is exceeded.
pub open spec fn limits_reached(limits: Seq<SendLimit>, sent: Seq<i64>, now: i64) -> bool {
    exists|i: int| 0 <= i < limits.len() && window_exceeded(limits[i], sent, now)
}

/// The limiter after adopting a record reloaded from the persistence file:
/// the record's limits, history and edge indicator replace the limiter's own;
/// the options and the path stay. Without a record the limiter is unchanged.
pub open spec fn merged(st: RateLimitModel, loaded: Option<RateLimitModel>) -> RateLimitModel {
    match loaded {
        Some(f) => RateLimitModel {
            limits: f.limits,
            sent_at: f.sent_at,
            triggered: f.triggered,
            ..st
        },
        None => st,
    }
}

/// The limiter after registering a send at `now`: the reloaded record is
/// adopted, `now` is appended to the history, and the edge indicator is set
/// exactly when the append moved the state from not reached to reached.
pub open spec fn registered(st: RateLimitModel, loaded: Option<RateLimitModel>, now: i64)
    -> RateLimitModel {
    let m = merged(st, loaded);
    let before = limits_reached(m.limits, m.sent_at, now);
    let after = limits_reached(m.limits, m.sent_at.push(now), now);
    RateLimitModel { sent_at: m.sent_at.push(now), triggered: after && !before, ..m }
}

/// The limiter a construction yields: a loaded record with the same limits
/// and options is adopted; a record with a different configuration, or no
/// record, yields a fresh limiter with an empty history.
pub open spec fn constructed(
    limits: Seq<SendLimit>,
    file: Seq<char>,
    options: Option<OptionsModel>,
    loaded: Option<RateLimitModel>,
) -> RateLimitModel {
    match loaded {
        Some(f) => if f.limits == limits && f.options == options {
            RateLimitModel {
                persistence_file: file,
                limits,
                sent_at: f.sent_at,
                triggered: f.triggered,
                options,
            }
        } else {
            RateLimitModel {
                persistence_file: file,
                limits,
                sent_at: Seq::empty(),
                triggered: false,
                options,
            }
        },
        None => RateLimitModel {
            persistence_file: file,
            limits,
            sent_at: Seq::empty(),
            triggered: false,
            options,
        },
    }
}

/// An exact copy of a list of limits.
fn clone_limits(v: &Vec<SendLimit>) -> (r: Vec<SendLimit>)
    ensures
        r@ == v@,
{
    let mut r: Vec<SendLimit> = Vec::new();
    let mut i: usize = 0;
    while i < v.len()
        invariant
            i <= v.len(),
            r@ =~= v@.take(i as int),
        decreases v.len() - i,
    {
        r.push(v[i]);
        proof {
            assert(r@ =~= v@.take(i + 1));
        }
        i = i + 1;
    }
    proof {
        assert(v@.take(v.len() as int) =~= v@);
    }
    r
}

/// An exact copy of a list of timestamps.
fn clone_times(v: &Vec<i64>) -> (r: Vec<i64>)
    ensures
        r@ == v@,
{
    let mut r: Vec<i64> = Vec::new();
    let mut i: usize = 0;
    while i < v.len()
        invariant
            i <= v.len(),
            r@ =~= v@.take(i as int),
        decreases v.len() - i,
    {
        r.push(v[i]);
        proof {
            assert(r@ =~= v@.take(i + 1));
        }
        i = i + 1;
    }
    proof {
        assert(v@.take(v.len() as int) =~= v@);
    }
    r
}

/// Whether two lists of limits are equal.
fn limits_eq(a: &Vec<SendLimit>, b: &Vec<SendLimit>) -> (r: bool)
    ensures
        r == (a@ == b@),
{
    if a.len() != b.len() {
        proof {
            assert(a@.len() != b@.len());
        }
        return false;
    }
    let mut i: usize = 0;
    while i < a.len()
        invariant
            i <= a.len(),
            a@.len() == b@.len(),
            forall|j: int| 0 <= j < i ==> a@[j] == b@[j],
        decreases a.len() - i,
    {
        if a[i] != b[i] {
            return false;
        }
        i = i + 1;
    }
    proof {
        assert(a@ =~= b@);
    }
    true
}

/// Whether two sets of notice options are equal.
fn options_eq(
    a: &Option<RateLimitNotificationOptions>,
    b: &Option<RateLimitNotificationOptions>,
) -> (r: bool)
    ensures
        r == (a.deep_view() == b.deep_view()),
{
    match (a, b) {
        (None, None) => true,
        (Some(x), Some(y)) => {
            let meta_eq: bool = match (&x.metadata, &y.metadata) {
                (None, None) => true,
                (Some(m), Some(n)) => m.eq(n),
                _ => false,
            };
            let sev_eq: bool = match (&x.severity, &y.severity) {
                (None, None) => true,
                (Some(s), Some(t)) => *s == *t,
                _ => false,
            };
            proof {
                assert(meta_eq == (x@.metadata == y@.metadata));
                assert(sev_eq == (x@.severity == y@.severity));
                if meta_eq && sev_eq {
                    assert(x@ == y@);
                } else {
                    assert(x@ != y@);
                }
            }
            meta_eq && sev_eq
        },
        _ => false,
    }
}

impl RateLimit {
    /// The limiter built from the supplied configuration and the record
    /// loaded from the persistence file, if one could be read and understood.
    pub fn with_loaded_record(
        limits: Vec<SendLimit>,
        persistence_file: String,
        notification_options: Option<RateLimitNotificationOptions>,
        loaded: Option<RateLimit>,
    ) -> (r: RateLimit)
        ensures
            r@ == constructed(
                limits@,
                persistence_file@,
                notification_options.deep_view(),
                loaded.deep_view(),
            ),
    {
        match loaded {
            Some(f) => {
                if limits_eq(&f.limits, &limits) && options_eq(
                    &f.notification_options,
                    &notification_options,
                ) {
                    RateLimit {
                        persistence_file,
                        limits,
                        sent_notifications: f.sent_notifications,
                        triggered: f.triggered,
                        notification_options,
                    }
                } else {
                    RateLimit {
                        persistence_file,
                        limits,
                        sent_notifications: Vec::new(),
                        triggered: false,
                        notification_options,
                    }
                }
            },
            None => RateLimit {
                persistence_file,
                limits,
                sent_notifications: Vec::new(),
                triggered: false,
                notification_options,
            },
        }
    }

    /// How many entries of the history count at `now` for one window.
    fn count_recent(&self, now_ms: i64, duration_ms: u64) -> (c: usize)
        ensures
            c == count_in_window(self@.sent_at, now_ms, duration_ms),
    {
        let sent = &self.sent_notifications;
        let mut c: usize = 0;
        let mut j: usize = 0;
        while j < sent.len()
            invariant
                j <= sent.len(),
                sent@ == self@.sent_at,
                c == count_in_window(sent@.take(j as int), now_ms, duration_ms),
                c <= j,
            decreases sent.len() - j,
        {
            if (now_ms as i128) - (sent[j] as i128) < (duration_ms as i128) {
                c = c + 1;
            }
            proof {
                let t = sent@.take(j + 1);
                assert(t.drop_last() =~= sent@.take(j as int));
                assert(t.last() == sent@[j as int]);
            }
            j = j + 1;
        }
        proof {
            assert(sent@.take(sent@.len() as int) =~= sent@);
        }
        c
    }

    /// Whether any configured window is exceeded at `now`.
    pub fn reached_at(&self, now_ms: i64) -> (r: bool)
        ensures
            r == limits_reached(self@.limits, self@.sent_at, now_ms),
    {
        let mut i: usize = 0;
        while i < self.limits.len()
            invariant
                i <= self.limits.len(),
                forall|k: int|
                    0 <= k < i ==> !window_exceeded(self@.limits[k], self@.sent_at, now_ms),
            decreases self.limits.len() - i,
        {
            let c = self.count_recent(now_ms, self.limits[i].duration_ms);
            if c as u64 > self.limits[i].limit as u64 {
                proof {
                    assert(window_exceeded(self@.limits[i as int], self@.sent_at, now_ms));
                }
                return true;
            }
            i = i + 1;
        }
        false
    }

    /// The edge indicator set by the most recent registration.
    pub fn triggered(&self) -> (r: bool)
        ensures
            r == self@.triggered,
    {
        self.triggered
    }

    /// Registers a send at `now_ms`: adopts the reloaded record, appends the
    /// timestamp, and sets the edge indicator exactly when this call moved the
    /// state from not reached to reached.
    pub fn register_state_at(&mut self, loaded: Option<RateLimit>, now_ms: i64)
        ensures
            final(self)@ == registered(old(self)@, loaded.deep_view(), now_ms),
    {
        if let Some(f) = loaded {
            self.limits = f.limits;
            self.sent_notifications = f.sent_notifications;
            self.triggered = f.triggered;
        }
        let before = self.reached_at(now_ms);
        self.sent_notifications.push(now_ms);
        let after = self.reached_at(now_ms);
        self.triggered = after && !before;
    }
}

/// The record held in the persistence text handed to a limiter operation:
/// what the text parses to, or nothing where no text could be read or it is
/// not a record. An unreadable or corrupt file counts as no prior state.
pub open spec fn loaded_record(loaded: Option<&str>) -> Option<RateLimitModel> {
    match loaded {
        Some(t) => crate::persist::parse_state_spec(t@),
        None => None,
    }
}

impl RateLimit {
    /// A limiter built from the supplied configuration and the contents of
    /// its persistence file, where the file could be read. A record with the
    /// same limits and options is adopted; a different configuration, a
    /// missing file or a corrupt one yields a fresh, empty limiter. The
    /// returned text is the record for the new state, to be written back so
    /// that the file reflects the active configuration.
    pub fn new(
        limits: Vec<SendLimit>,
        persistence_file: String,
        notification_options: Option<RateLimitNotificationOptions>,
        loaded: Option<&str>,
    ) -> (r: (RateLimit, String))
        ensures
            r.0@ == constructed(
                limits@,
                persistence_file@,
                notification_options.deep_view(),
                loaded_record(loaded),
            ),
            r.1@ == crate::persist::encode_state(r.0@),
    {
        let parsed: Option<RateLimit> = match loaded {
            Some(t) => crate::persist::parse_state(t),
            None => None,
        };
        let rl = Self::with_loaded_record(limits, persistence_file, notification_options, parsed);
        let text = crate::persist::encode_state_string(&rl);
        (rl, text)
    }

    /// Registers a send at `now_ms` against the freshly read contents of the
    /// persistence file: the file's record is adopted, the timestamp is
    /// appended, the edge indicator is set exactly on the not-reached to
    /// reached transition, and the returned text is the new record to write
    /// back.
    pub fn register_at(&mut self, loaded: Option<&str>, now_ms: i64) -> (persist: String)
        ensures
            final(self)@ == registered(old(self)@, loaded_record(loaded), now_ms),
            persist@ == crate::persist::encode_state(final(self)@),
    {
        let parsed: Option<RateLimit> = match loaded {
            Some(t) => crate::persist::parse_state(t),
            None => None,
        };
        self.register_state_at(parsed, now_ms);
        crate::persist::encode_state_string(self)
    }

    /// Registers a send at the present moment, read from the wall clock. The
    /// clock's value cannot be pinned down, so the contract promises the
    /// registration for some time value; `register_at` carries the exact one.
    pub fn register_notification(&mut self, loaded: Option<&str>) -> (persist: String)
        ensures
            exists|now: i64|
                final(self)@ == registered(old(self)@, loaded_record(loaded), now) && persist@
                    == crate::persist::encode_state(final(self)@),
    {
        let now = crate::ext::now_unix_millis();
        let persist = self.register_at(loaded, now);
        persist
    }

    /// Whether any configured window is exceeded at the present moment, read
    /// from the wall clock; `reached_at` carries the exact time value.
    pub fn reached(&self) -> (r: bool)
        ensures
            exists|now: i64| r == limits_reached(self@.limits, self@.sent_at, now),
            self@.limits.len() == 0 ==> r == false,
    {
        let now = crate::ext::now_unix_millis();
        let r = self.reached_at(now);
        proof {
            assert(r == limits_reached(self@.limits, self@.sent_at, now));
        }
        r
    }
}

// ---------------------------------------------------------------------------
// Laws of the limiter.
// ---------------------------------------------------------------------------

/// Every entry of a history that lies in the window is counted.
proof fn lemma_count_all_in_window(sent: Seq<i64>, now: i64, d: u64)
    requires
        forall|j: int| 0 <= j < sent.len() ==> in_window(#[trigger] sent[j], now, d),
    ensures
        count_in_window(sent, now, d) == sent.len(),
    decreases sent.len(),
{
    if sent.len() > 0 {
        lemma_count_all_in_window(sent.drop_last(), now, d);
    }
}

/// A window never counts more entries than the history holds.
proof fn lemma_count_le_len(sent: Seq<i64>, now: i64, d: u64)
    ensures
        count_in_window(sent, now, d) <= sent.len(),
    decreases sent.len(),
{
    if sent.len() > 0 {
        lemma_count_le_len(sent.drop_last(), now, d);
    }
}

/// For a limiter with the single window `(d, n)` and a history lying wholly
/// inside the window: the limit is reached exactly when the history holds
/// strictly more than `n` sends, so `n` sends leave it unreached; and the
/// send that brings the count to `n + 1` both reaches the limit and raises
/// the edge indicator on that registration alone.
pub proof fn lemma_single_window_boundary(d: u64, n: u32, st: RateLimitModel, now: i64)
    requires
        d >= 1,
        st.limits == seq![SendLimit { duration_ms: d, limit: n }],
        forall|j: int| 0 <= j < st.sent_at.len() ==> in_window(#[trigger] st.sent_at[j], now, d),
    ensures
        limits_reached(st.limits, st.sent_at, now) <==> st.sent_at.len() > n,
        st.sent_at.len() == n ==> ({
            let r = registered(st, None, now);
            r.triggered && limits_reached(r.limits, r.sent_at, now)
        }),
{
    lemma_count_all_in_window(st.sent_at, now, d);
    let l = SendLimit { duration_ms: d, limit: n };
    assert(st.limits[0] == l);
    if st.sent_at.len() > n {
        assert(window_exceeded(l, st.sent_at, now));
        assert(limits_reached(st.limits, st.sent_at, now));
    }
    if limits_reached(st.limits, st.sent_at, now) {
        let i = choose|i: int|
            0 <= i < st.limits.len() && window_exceeded(st.limits[i], st.sent_at, now);
        assert(i == 0);
        assert(st.sent_at.len() > n);
    }
    if st.sent_at.len() == n {
        let sent2 = st.sent_at.push(now);
        assert(in_window(now, now, d));
        assert(forall|j: int| 0 <= j < sent2.len() ==> in_window(#[trigger] sent2[j], now, d));
        lemma_count_all_in_window(sent2, now, d);
        assert(window_exceeded(l, sent2, now));
        let r = registered(st, None, now);
        assert(r.limits[0] == l);
        assert(limits_reached(r.limits, r.sent_at, now));
        assert(!limits_reached(st.limits, st.sent_at, now));
    }
}

/// Once a limit is reached, a further registration at the same moment never
/// raises the edge indicator again: it stays down until the window ages out
/// and a later send makes the state pass from not reached to reached anew.
pub proof fn lemma_no_retrigger_while_reached(
    st: RateLimitModel,
    loaded: Option<RateLimitModel>,
    now: i64,
)
    requires
        limits_reached(merged(st, loaded).limits, merged(st, loaded).sent_at, now),
    ensures
        !registered(st, loaded, now).triggered,
{
}

/// The edge indicator after a registration holds exactly when that
/// registration moved the state from not reached to reached.
pub proof fn lemma_trigger_is_edge(st: RateLimitModel, loaded: Option<RateLimitModel>, now: i64)
    ensures
        registered(st, loaded, now).triggered <==> (limits_reached(
            merged(st, loaded).limits,
            merged(st, loaded).sent_at.push(now),
            now,
        ) && !limits_reached(merged(st, loaded).limits, merged(st, loaded).sent_at, now)),
{
}

/// The windows are evaluated independently and reaching is their union:
/// a limiter with one more window is reached exactly when the added window
/// is exceeded or the others already reach.
pub proof fn lemma_reached_union(limits: Seq<SendLimit>, l: SendLimit, sent: Seq<i64>, now: i64)
    ensures
        limits_reached(limits.push(l), sent, now) <==> (limits_reached(limits, sent, now)
            || window_exceeded(l, sent, now)),
{
    let full = limits.push(l);
    if limits_reached(full, sent, now) {
        let i = choose|i: int| 0 <= i < full.len() && window_exceeded(full[i], sent, now);
        if i < limits.len() {
            assert(full[i] == limits[i]);
            assert(window_exceeded(limits[i], sent, now));
            assert(limits_reached(limits, sent, now));
        } else {
            assert(full[i] == l);
        }
    }
    if limits_reached(limits, sent, now) {
        let i = choose|i: int| 0 <= i < limits.len() && window_exceeded(limits[i], sent, now);
        assert(full[i] == limits[i]);
        assert(window_exceeded(full[i], sent, now));
        assert(limits_reached(full, sent, now));
    }
    if window_exceeded(l, sent, now) {
        assert(full[limits.len() as int] == l);
        assert(limits_reached(full, sent, now));
    }
}

/// Construction against a record whose limits or options differ discards the
/// record: the history comes out empty, the edge indicator down, and no
/// window is reached at any moment.
pub proof fn lemma_config_change_resets(
    limits: Seq<SendLimit>,
    file: Seq<char>,
    options: Option<OptionsModel>,
    loadedrec: RateLimitModel,
    now: i64,
)
    requires
        loadedrec.limits != limits || loadedrec.options != options,
    ensures
        ({
            let c = constructed(limits, file, options, Some(loadedrec));
            c.sent_at.len() == 0 && !c.triggered && !limits_reached(c.limits, c.sent_at, now)
        }),
{
    let c = constructed(limits, file, options, Some(loadedrec));
    assert forall|i: int| 0 <= i < c.limits.len() implies !window_exceeded(
        c.limits[i],
        c.sent_at,
        now,
    ) by {
        lemma_count_le_len(c.sent_at, now, c.limits[i].duration_ms);
    }
}

/// Reconstructing a limiter from its own persistence record with the same
/// limits and options restores the history and the edge indicator exactly,
/// so reached and triggered answer as they did before.
pub proof fn lemma_reload_restores(st: RateLimitModel, file2: Seq<char>, now: i64)
    ensures
        ({
            let c = constructed(
                st.limits,
                file2,
                st.options,
                crate::persist::parse_state_spec(crate::persist::encode_state(st)),
            );
            c.sent_at == st.sent_at && c.triggered == st.triggered && limits_reached(
                c.limits,
                c.sent_at,
                now,
            ) == limits_reached(st.limits, st.sent_at, now)
        }),
{
    crate::persist::lemma_round_trip(st);
}

impl Clone for RateLimit {
    fn clone(&self) -> (r: Self)
        ensures
            r@ == self@,
    {
        RateLimit {
            persistence_file: self.persistence_file.clone(),
            limits: clone_limits(&self.limits),
            sent_notifications: clone_times(&self.sent_notifications),
            triggered: self.triggered,
            notification_options: match &self.notification_options {
                Some(o) => Some(o.clone()),
                None => None,
            },
        }
    }
}

} // verus!
