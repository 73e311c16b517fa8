//! One event of a report: the exceptions, the optional severity, context,
//! application, user, metadata and grouping hash, and the device block.

use crate::appinfo::{app_info_json, AppInfo, AppInfoModel};
use crate::bugsnag_impl::{append_severity_json, severity_json, Severity};
use crate::deviceinfo::{device_info_json, DeviceInfo, DeviceInfoModel};
use crate::exception::{exception_json, Exception, ExceptionModel};
use crate::jsontext::{append_comma_join, append_json_str, comma_join, json_str, push_char};
use crate::user::{user_json, User, UserModel};
use vstd::prelude::*;
use vstd::string::StringExecFns;

verus! {

/// One event as it is sent to the collector.
pub struct Event {
    exceptions: Vec<Exception>,
    severity: Option<Severity>,
    context: Option<String>,
    device: DeviceInfo,
    app: Option<AppInfo>,
    user: Option<User>,
    meta_data: Option<String>,
    grouping_hash: Option<String>,
}

/// The mathematical content of an event. The metadata is an opaque piece of
/// JSON text, embedded verbatim.
pub struct EventModel {
    pub exceptions: Seq<ExceptionModel>,
    pub severity: Option<Severity>,
    pub context: Option<Seq<char>>,
    pub device: DeviceInfoModel,
    pub app: Option<AppInfoModel>,
    pub user: Option<UserModel>,
    pub meta_data: Option<Seq<char>>,
    pub grouping_hash: Option<Seq<char>>,
}

impl View for Event {
    type V = EventModel;

    closed spec fn view(&self) -> EventModel {
        EventModel {
            exceptions: self.exceptions.deep_view(),
            severity: self.severity,
            context: self.context.deep_view(),
            device: self.device@,
            app: match self.app {
                Some(a) => Some(a@),
                None => None,
            },
            user: match self.user {
                Some(u) => Some(u@),
                None => None,
            },
            meta_data: self.meta_data.deep_view(),
            grouping_hash: self.grouping_hash.deep_view(),
        }
    }
}

impl DeepView for Event {
    type V = EventModel;

    open spec fn deep_view(&self) -> EventModel {
        self.view()
    }
}

/// The members of an event's JSON object: the exceptions and the device block
/// are always present, every other field only when it is set, in a fixed
/// order. Metadata is embedded verbatim.
pub open spec fn event_fields(e: EventModel) -> Seq<Seq<char>> {
    seq![
        "\"exceptions\":["@ + comma_join(
            e.exceptions.map_values(|x: ExceptionModel| exception_json(x)),
        ) + "]"@,
    ] + (match e.severity {
        Some(s) => seq!["\"severity\":"@ + severity_json(s)],
        None => Seq::empty(),
    }) + (match e.context {
        Some(c) => seq!["\"context\":"@ + json_str(c)],
        None => Seq::empty(),
    }) + seq!["\"device\":"@ + device_info_json(e.device)] + (match e.app {
        Some(a) => seq!["\"app\":"@ + app_info_json(a)],
        None => Seq::empty(),
    }) + (match e.user {
        Some(u) => seq!["\"user\":"@ + user_json(u)],
        None => Seq::empty(),
    }) + (match e.meta_data {
        Some(m) => seq!["\"metaData\":"@ + m],
        None => Seq::empty(),
    }) + (match e.grouping_hash {
        Some(g) => seq!["\"groupingHash\":"@ + json_str(g)],
        None => Seq::empty(),
    })
}

/// The JSON object for one event.
pub open spec fn event_json(e: EventModel) -> Seq<char> {
    seq!['{'] + comma_join(event_fields(e)) + seq!['}']
}

impl Event {
    /// An event with the given parts; optional parts that are `None` stay
    /// absent from the JSON.
    pub fn new(
        exceptions: &Vec<Exception>,
        severity: Option<Severity>,
        context: Option<&str>,
        grouping_hash: Option<&str>,
        device: &DeviceInfo,
        app: &Option<AppInfo>,
        user: &Option<User>,
        meta_data: &Option<String>,
    ) -> (e: Event)
        ensures
            e@.exceptions == exceptions.deep_view(),
            e@.severity == severity,
            e@.context == context.deep_view(),
            e@.grouping_hash == grouping_hash.deep_view(),
            e@.device == device@,
            e@.app == (match *app {
                Some(a) => Some(a@),
                None => None::<AppInfoModel>,
            }),
            e@.user == (match *user {
                Some(u) => Some(u@),
                None => None::<UserModel>,
            }),
            e@.meta_data == meta_data.deep_view(),
    {
        let mut excs: Vec<Exception> = Vec::new();
        let mut i: usize = 0;
        while i < exceptions.len()
            invariant
                i <= exceptions.len(),
                excs.deep_view() =~= exceptions.deep_view().take(i as int),
            decreases exceptions.len() - i,
        {
            let ghost pre = excs.deep_view();
            excs.push(exceptions[i].clone());
            proof {
                assert(excs.deep_view() =~= pre.push(exceptions@[i as int].deep_view()));
                assert(exceptions.deep_view().take(i + 1) =~= pre.push(
                    exceptions.deep_view()[i as int],
                ));
            }
            i = i + 1;
        }
        proof {
            assert(exceptions.deep_view().take(exceptions.len() as int) =~= exceptions.deep_view());
        }
        Event {
            exceptions: excs,
            severity,
            context: match context {
                Some(c) => Some(c.to_owned()),
                None => None,
            },
            device: device.clone(),
            app: match app {
                Some(a) => Some(a.clone()),
                None => None,
            },
            user: match user {
                Some(u) => Some(u.clone()),
                None => None,
            },
            meta_data: match meta_data {
                Some(m) => Some(m.clone()),
                None => None,
            },
            grouping_hash: match grouping_hash {
                Some(g) => Some(g.to_owned()),
                None => None,
            },
        }
    }

    /// Appends this event's JSON object.
    pub fn append_json(&self, out: &mut String)
        ensures
            final(out)@ == old(out)@ + event_json(self@),
    {
        let mut excs: Vec<String> = Vec::new();
        let mut i: usize = 0;
        while i < self.exceptions.len()
            invariant
                i <= self.exceptions.len(),
                excs.deep_view() =~= self.exceptions.deep_view().take(i as int).map_values(
                    |x: ExceptionModel| exception_json(x),
                ),
            decreases self.exceptions.len() - i,
        {
            let mut p = String::new();
            self.exceptions[i].append_json(&mut p);
            proof {
                assert(p@ =~= exception_json(self.exceptions@[i as int]@));
            }
            let ghost pre = excs.deep_view();
            excs.push(p);
            proof {
                assert(excs.deep_view() =~= pre.push(p@));
                assert(self.exceptions.deep_view().take(i + 1).map_values(
                    |x: ExceptionModel| exception_json(x),
                ) =~= pre.push(p@));
            }
            i = i + 1;
        }
        proof {
            assert(self.exceptions.deep_view().take(self.exceptions.len() as int)
                =~= self.exceptions.deep_view());
        }
        let mut fields: Vec<String> = Vec::new();
        let mut p = "\"exceptions\":[".to_owned();
        append_comma_join(&mut p, &excs);
        p.append("]");
        fields.push(p);
        if let Some(s) = &self.severity {
            let mut p = "\"severity\":".to_owned();
            append_severity_json(&mut p, *s);
            fields.push(p);
        }
        if let Some(c) = &self.context {
            let mut p = "\"context\":".to_owned();
            append_json_str(&mut p, c.as_str());
            fields.push(p);
        }
        let mut p = "\"device\":".to_owned();
        self.device.append_json(&mut p);
        fields.push(p);
        if let Some(a) = &self.app {
            let mut p = "\"app\":".to_owned();
            a.append_json(&mut p);
            fields.push(p);
        }
        if let Some(u) = &self.user {
            let mut p = "\"user\":".to_owned();
            u.append_json(&mut p);
            fields.push(p);
        }
        if let Some(m) = &self.meta_data {
            let mut p = "\"metaData\":".to_owned();
            p.append(m.as_str());
            fields.push(p);
        }
        if let Some(g) = &self.grouping_hash {
            let mut p = "\"groupingHash\":".to_owned();
            append_json_str(&mut p, g.as_str());
            fields.push(p);
        }
        proof {
            assert(fields.deep_view() =~= event_fields(self@));
        }
        push_char(out, '{');
        append_comma_join(out, &fields);
        push_char(out, '}');
        proof {
            assert(final(out)@ =~= old(out)@ + event_json(self@));
        }
    }
}

impl Clone for Event {
    fn clone(&self) -> (r: Self)
        ensures
            r@ == self@,
    {
        let r = Event::new(
            &self.exceptions,
            self.severity,
            match &self.context {
                Some(c) => Some(c.as_str()),
                None => None,
            },
            match &self.grouping_hash {
                Some(g) => Some(g.as_str()),
                None => None,
            },
            &self.device,
            &self.app,
            &self.user,
            &self.meta_data,
        );
        proof {
            assert(r@ == self@);
        }
        r
    }
}

} // verus!
