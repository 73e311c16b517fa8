//! The complete wire body: payload version, the fixed notifier block, and the
//! events.

use crate::event::{event_json, Event, EventModel};
use crate::jsontext::{append_comma_join, comma_join};
use vstd::prelude::*;
use vstd::string::StringExecFns;

verus! {

/// A complete notification as posted to the collector.
pub struct Notification {
    events: Vec<Event>,
}

/// The mathematical content of a notification: its events.
pub struct NotificationModel {
    pub events: Seq<EventModel>,
}

impl View for Notification {
    type V = NotificationModel;

    closed spec fn view(&self) -> NotificationModel {
        NotificationModel { events: self.events.deep_view() }
    }
}

/// The fixed head of every wire body: the payload version and the notifier
/// identification block.
pub open spec fn notification_head() -> Seq<char> {
    "{\"payloadVersion\":\"5\",\"notifier\":{\"name\":\"Bugsnag Rust\",\"version\":\"0.1.0\",\"url\":\"https://github.com/Hum-Systems/bugsnag-rs\"},\"events\":["@
}

/// The JSON object for a complete wire body.
pub open spec fn notification_json(n: NotificationModel) -> Seq<char> {
    notification_head() + comma_join(n.events.map_values(|e: EventModel| event_json(e))) + "]}"@
}

/// The payload version announced in the body and in the version header.
pub fn payload_version() -> (v: &'static str)
    ensures
        v@ == "5"@,
{
    "5"
}

impl Notification {
    /// A notification holding the given events.
    pub fn new(events: &Vec<Event>) -> (n: Notification)
        ensures
            n@.events == events.deep_view(),
    {
        let mut evs: Vec<Event> = Vec::new();
        let mut i: usize = 0;
        while i < events.len()
            invariant
                i <= events.len(),
                evs.deep_view() =~= events.deep_view().take(i as int),
            decreases events.len() - i,
        {
            let ghost pre = evs.deep_view();
            evs.push(events[i].clone());
            proof {
                assert(evs.deep_view() =~= pre.push(events@[i as int].deep_view()));
                assert(events.deep_view().take(i + 1) =~= pre.push(events.deep_view()[i as int]));
            }
            i = i + 1;
        }
        proof {
            assert(events.deep_view().take(events.len() as int) =~= events.deep_view());
        }
        Notification { events: evs }
    }

    /// The complete wire body for this notification.
    pub fn to_json(&self) -> (r: String)
        ensures
            r@ == notification_json(self@),
    {
        let mut evs: Vec<String> = Vec::new();
        let mut i: usize = 0;
        while i < self.events.len()
            invariant
                i <= self.events.len(),
                evs.deep_view() =~= self.events.deep_view().take(i as int).map_values(
                    |e: EventModel| event_json(e),
                ),
            decreases self.events.len() - i,
        {
            let mut p = String::new();
            self.events[i].append_json(&mut p);
            proof {
                assert(p@ =~= event_json(self.events@[i as int]@));
            }
            let ghost pre = evs.deep_view();
            evs.push(p);
            proof {
                assert(evs.deep_view() =~= pre.push(p@));
                assert(self.events.deep_view().take(i + 1).map_values(
                    |e: EventModel| event_json(e),
                ) =~= pre.push(p@));
            }
            i = i + 1;
        }
        proof {
            assert(self.events.deep_view().take(self.events.len() as int)
                =~= self.events.deep_view());
        }
        let mut out =
            "{\"payloadVersion\":\"5\",\"notifier\":{\"name\":\"Bugsnag Rust\",\"version\":\"0.1.0\",\"url\":\"https://github.com/Hum-Systems/bugsnag-rs\"},\"events\":[".to_owned();
        append_comma_join(&mut out, &evs);
        out.append("]}");
        proof {
            assert(out@ =~= notification_json(self@));
        }
        out
    }
}

} // verus!
