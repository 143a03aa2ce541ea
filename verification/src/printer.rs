//! The raw debug printer: one-shot event dumps for manual protocol
//! exploration.
//!
//! Each function renders the events one browser delivered into the lines a
//! caller prints, one line per event. The caller owns the browsing and the
//! printing; the per-category functions only differ in which service type
//! (`cmc_service_type()` and friends) the caller is expected to browse.

use vstd::prelude::*;
use vstd::string::StringExecFns;
use crate::events::MdnsEvent;

verus! {

/// The dump line of one raw event.
pub open spec fn raw_event_line(e: MdnsEvent) -> Seq<char> {
    match e {
        MdnsEvent::SearchStarted(t) => "Search Started: "@ + t@,
        MdnsEvent::ServiceFound(t, f) => "Search Found: "@ + t@ + ", "@ + f@,
        MdnsEvent::ServiceResolved(rs) => "Service Resolved: "@ + rs.fullname@,
        MdnsEvent::ServiceRemoved(t, f) => "Service Removed: "@ + t@ + ", "@ + f@,
        MdnsEvent::SearchStopped(t) => "Search Stopped: "@ + t@,
    }
}

/// Renders one raw event.
fn render_event(e: &MdnsEvent) -> (r: String)
    ensures
        r@ == raw_event_line(*e),
{
    match e {
        MdnsEvent::SearchStarted(t) => {
            let mut s = String::from_str("Search Started: ");
            s.append(t.as_str());
            s
        },
        MdnsEvent::ServiceFound(t, f) => {
            let mut s = String::from_str("Search Found: ");
            s.append(t.as_str());
            s.append(", ");
            s.append(f.as_str());
            s
        },
        MdnsEvent::ServiceResolved(rs) => {
            let mut s = String::from_str("Service Resolved: ");
            s.append(rs.fullname.as_str());
            s
        },
        MdnsEvent::ServiceRemoved(t, f) => {
            let mut s = String::from_str("Service Removed: ");
            s.append(t.as_str());
            s.append(", ");
            s.append(f.as_str());
            s
        },
        MdnsEvent::SearchStopped(t) => {
            let mut s = String::from_str("Search Stopped: ");
            s.append(t.as_str());
            s
        },
    }
}

/// Renders a batch of raw events, one line per event.
fn render_mdns_events(events: &Vec<MdnsEvent>) -> (r: Vec<String>)
    ensures
        r@.len() == events@.len(),
        forall|i: int| 0 <= i < r@.len() ==> (#[trigger] r@[i])@ == raw_event_line(events@[i]),
{
    let mut r: Vec<String> = Vec::new();
    let mut i: usize = 0;
    while i < events.len()
        invariant
            0 <= i <= events@.len(),
            r@.len() == i,
            forall|j: int| 0 <= j < i ==> (#[trigger] r@[j])@ == raw_event_line(events@[j]),
        decreases events@.len() - i,
    {
        r.push(render_event(&events[i]));
        i = i + 1;
    }
    r
}

/// The dump lines for a batch of events from a browser of
/// `cmc_service_type()`.
pub fn print_cmc(events: &Vec<MdnsEvent>) -> (r: Vec<String>)
    ensures
        r@.len() == events@.len(),
        forall|i: int| 0 <= i < r@.len() ==> (#[trigger] r@[i])@ == raw_event_line(events@[i]),
{
    render_mdns_events(events)
}

/// The dump lines for a batch of events from a browser of
/// `dbc_service_type()`.
pub fn print_dbc(events: &Vec<MdnsEvent>) -> (r: Vec<String>)
    ensures
        r@.len() == events@.len(),
        forall|i: int| 0 <= i < r@.len() ==> (#[trigger] r@[i])@ == raw_event_line(events@[i]),
{
    render_mdns_events(events)
}

/// The dump lines for a batch of events from a browser of
/// `arc_service_type()`.
pub fn print_arc(events: &Vec<MdnsEvent>) -> (r: Vec<String>)
    ensures
        r@.len() == events@.len(),
        forall|i: int| 0 <= i < r@.len() ==> (#[trigger] r@[i])@ == raw_event_line(events@[i]),
{
    render_mdns_events(events)
}

/// The dump lines for a batch of events from a browser of
/// `chan_service_type()`.
pub fn print_chan(events: &Vec<MdnsEvent>) -> (r: Vec<String>)
    ensures
        r@.len() == events@.len(),
        forall|i: int| 0 <= i < r@.len() ==> (#[trigger] r@[i])@ == raw_event_line(events@[i]),
{
    render_mdns_events(events)
}

} // verus!
