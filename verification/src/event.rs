//! The data that flows through the exporter: events as read from the source,
//! the label sets they are grouped by, and the streams that are delivered.

use crate::catalog::{activity_name, get_activity_name};
use vstd::prelude::*;
use vstd::string::*;

verus! {

/// One record of the event source.
#[derive(Clone, Debug, PartialEq, Eq)]
pub struct Event {
    pub id: i64,
    pub timestamp: String,
    pub activity: i32,
    pub initiator_id: Option<String>,
    pub target_id: Option<String>,
    pub account_id: Option<String>,
    pub meta: Option<String>,
}

/// An event as contracts see it.
pub struct EventView {
    pub id: i64,
    pub timestamp: Seq<char>,
    pub activity: i32,
    pub initiator_id: Option<Seq<char>>,
    pub target_id: Option<Seq<char>>,
    pub account_id: Option<Seq<char>>,
    pub meta: Option<Seq<char>>,
}

/// The text of an optional field.
pub open spec fn optional_text(field: Option<String>) -> Option<Seq<char>> {
    match field {
        Some(text) => Some(text@),
        None => None,
    }
}

/// The text of an optional field, with `absent` where there is none.
pub open spec fn text_or(field: Option<Seq<char>>, absent: Seq<char>) -> Seq<char> {
    match field {
        Some(text) => text,
        None => absent,
    }
}

impl View for Event {
    type V = EventView;

    open spec fn view(&self) -> EventView {
        EventView {
            id: self.id,
            timestamp: self.timestamp@,
            activity: self.activity,
            initiator_id: optional_text(self.initiator_id),
            target_id: optional_text(self.target_id),
            account_id: optional_text(self.account_id),
            meta: optional_text(self.meta),
        }
    }
}

/// The events of a batch as contracts see them.
pub open spec fn events_view(events: Seq<Event>) -> Seq<EventView> {
    Seq::new(events.len(), |i: int| events[i]@)
}

/// An event together with the backend timestamp it was given.
#[derive(Clone, Debug, PartialEq, Eq)]
pub struct Stamped<'a> {
    pub event: &'a Event,
    pub stamp: String,
}

/// A stamped event as contracts see it.
pub struct StampedView {
    pub event: EventView,
    pub stamp: Seq<char>,
}

impl<'a> View for Stamped<'a> {
    type V = StampedView;

    open spec fn view(&self) -> StampedView {
        StampedView { event: self.event@, stamp: self.stamp@ }
    }
}

/// A stamped batch as contracts see it.
pub open spec fn stamped_view(batch: Seq<Stamped>) -> Seq<StampedView> {
    Seq::new(batch.len(), |i: int| batch[i]@)
}

/// The events of a stamped batch.
pub open spec fn events_of(batch: Seq<StampedView>) -> Seq<EventView> {
    Seq::new(batch.len(), |i: int| batch[i].event)
}

/// The text of an optional field, or `absent` where there is none.
pub fn field_or<'a>(field: &'a Option<String>, absent: &'a str) -> (r: &'a str)
    ensures
        r@ == text_or(optional_text(*field), absent@),
{
    match field {
        Some(text) => text.as_str(),
        None => absent,
    }
}

/// The key that events are grouped by. The `job` label is the same for every
/// event, see [`JOB`], and is not held here.
#[derive(Clone, Debug, PartialEq, Eq)]
pub struct LabelSet {
    pub account_id: String,
    pub activity: String,
    pub activity_code: i32,
}

/// A label set as contracts see it.
pub struct LabelSetView {
    pub account_id: Seq<char>,
    pub activity: Seq<char>,
    pub activity_code: i32,
}

impl View for LabelSet {
    type V = LabelSetView;

    open spec fn view(&self) -> LabelSetView {
        LabelSetView {
            account_id: self.account_id@,
            activity: self.activity@,
            activity_code: self.activity_code,
        }
    }
}

/// The value of the `job` label of every stream.
pub const JOB: &'static str = "netbird-events";

/// The `account_id` label of an event that names no account.
pub const UNKNOWN_ACCOUNT: &'static str = "unknown";

/// The label set of an event. It depends on the account and the activity code
/// alone: not on the event's id, timestamp or meta.
pub open spec fn labels_of(account_id: Option<Seq<char>>, activity: i32) -> LabelSetView {
    LabelSetView {
        account_id: text_or(account_id, UNKNOWN_ACCOUNT@),
        activity: activity_name(activity),
        activity_code: activity,
    }
}

/// Two events have the same label set exactly when they have the same
/// activity code and name the same account, an event that names none counting
/// as one that names the account `unknown`.
pub proof fn lemma_labels_equal_iff(
    first_account: Option<Seq<char>>,
    first_activity: i32,
    second_account: Option<Seq<char>>,
    second_activity: i32,
)
    ensures
        labels_of(first_account, first_activity) == labels_of(second_account, second_activity)
            <==> first_activity == second_activity && text_or(first_account, UNKNOWN_ACCOUNT@)
            == text_or(second_account, UNKNOWN_ACCOUNT@),
{
}

impl LabelSet {
    /// The label set of `event`.
    pub fn of_event(event: &Event) -> (r: LabelSet)
        ensures
            r@ == labels_of(event@.account_id, event@.activity),
    {
        LabelSet {
            account_id: String::from_str(field_or(&event.account_id, UNKNOWN_ACCOUNT)),
            activity: get_activity_name(event.activity),
            activity_code: event.activity,
        }
    }

    /// Whether two label sets hold the same labels.
    pub fn same_labels(&self, other: &LabelSet) -> (r: bool)
        ensures
            r == (self@ == other@),
    {
        self.activity_code == other.activity_code && self.account_id == other.account_id
            && self.activity == other.activity
    }
}

/// One entry of a stream: the backend timestamp and the line stored under it.
pub open spec fn entry_view(entry: (String, String)) -> (Seq<char>, Seq<char>) {
    (entry.0@, entry.1@)
}

/// The entries of a stream as contracts see them.
pub open spec fn entries_view(entries: Seq<(String, String)>) -> Seq<(Seq<char>, Seq<char>)> {
    Seq::new(entries.len(), |i: int| entry_view(entries[i]))
}

/// A label set with the entries of the events that carry it, in the order in
/// which the events were read.
#[derive(Clone, Debug, PartialEq, Eq)]
pub struct Stream {
    pub labels: LabelSet,
    pub values: Vec<(String, String)>,
}

/// A stream as contracts see it.
pub struct StreamView {
    pub labels: LabelSetView,
    pub values: Seq<(Seq<char>, Seq<char>)>,
}

impl View for Stream {
    type V = StreamView;

    open spec fn view(&self) -> StreamView {
        StreamView { labels: self.labels@, values: entries_view(self.values@) }
    }
}

/// A sequence of streams as contracts see it.
pub open spec fn streams_view(streams: Seq<Stream>) -> Seq<StreamView> {
    Seq::new(streams.len(), |i: int| streams[i]@)
}

} // verus!
