//! Server-sent events.
use vstd::prelude::*;

use crate::json::{Json, JsonView};

verus! {

/// A server-sent event.
#[derive(Debug)]
pub struct SseEvent {
    /// The name of the event.
    pub event: String,
    /// The data that it carries.
    pub data: Json,
}

/// What an [`SseEvent`] stands for.
pub struct SseEventView {
    /// The name of the event.
    pub event: Seq<char>,
    /// The data that it carries.
    pub data: JsonView,
}

impl SseEvent {
    /// What the event stands for.
    pub open spec fn view(&self) -> SseEventView {
        SseEventView { event: self.event@, data: self.data@ }
    }

    /// An event with the given name and data.
    pub fn new(event: &str, data: Json) -> (r: SseEvent)
        ensures
            r@ == (SseEventView { event: event@, data: data@ }),
    {
        SseEvent { event: event.to_owned(), data }
    }
}

/// What each of the events stands for.
pub open spec fn event_views(s: Seq<SseEvent>) -> Seq<SseEventView> {
    s.map_values(|e: SseEvent| e@)
}

/// An event on the wire, of which `data` is what it carries as JSON text.
pub open spec fn wire_text(event: Seq<char>, data: Seq<char>) -> Seq<char> {
    "event: "@ + event + "\ndata: "@ + data + "\n\n"@
}

/// Computes [`wire_text`].
pub fn to_wire(event: &str, data: &str) -> (r: String)
    ensures
        r@ == wire_text(event@, data@),
{
    let mut out = "event: ".to_owned();
    out.append(event);
    out.append("\ndata: ");
    out.append(data);
    out.append("\n\n");
    out
}

/// An event on the wire is its name and its data, whole, between fixed words; the events of a
/// sequence stand for their names and data one by one.
pub proof fn law_wire_text_holds_name_and_data(
    event: Seq<char>,
    data: Seq<char>,
    events: Seq<SseEvent>,
    i: int,
)
    requires
        0 <= i < events.len(),
    ensures
        wire_text(event, data) == "event: "@ + event + "\ndata: "@ + data + "\n\n"@,
        event_views(events).len() == events.len(),
        event_views(events)[i].event == events[i].event@,
        event_views(events)[i].data == events[i].data@,
{
}

} // verus!
