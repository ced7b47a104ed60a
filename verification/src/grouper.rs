//! Grouping: a batch of events becomes one stream per label set. The streams
//! are kept in a vector, in the order in which their label sets first appear,
//! and found by comparing label sets.

use crate::error::ExportError;
use crate::event::{
    entries_view, events_of, events_view, labels_of, stamped_view, streams_view, Event, EventView,
    LabelSet, LabelSetView, Stamped, StampedView, Stream, StreamView,
};
use crate::line::{log_line, log_line_text};
use crate::timestamp::{is_backend_time_for, resolved_nanos, timestamp_to_nanoseconds};
use vstd::prelude::*;
use vstd::string::*;

verus! {

/// Whether stream `k` is the first that carries `labels`.
pub open spec fn is_first_with(streams: Seq<StreamView>, labels: LabelSetView, k: int) -> bool {
    &&& 0 <= k < streams.len()
    &&& streams[k].labels == labels
    &&& forall|j: int| 0 <= j < k ==> (#[trigger] streams[j]).labels != labels
}

/// Whether some stream carries `labels`.
pub open spec fn carries(streams: Seq<StreamView>, labels: LabelSetView) -> bool {
    exists|k: int| 0 <= k < streams.len() && (#[trigger] streams[k]).labels == labels
}

/// Finds the first stream that carries `labels`.
pub fn find_stream(streams: &Vec<Stream>, labels: &LabelSet) -> (r: Option<usize>)
    ensures
        match r {
            Some(k) => is_first_with(streams_view(streams@), labels@, k as int),
            None => !carries(streams_view(streams@), labels@),
        },
{
    let mut k: usize = 0;
    while k < streams.len()
        invariant
            k <= streams.len(),
            forall|j: int| 0 <= j < k ==> (#[trigger] streams_view(streams@)[j]).labels != labels@,
        decreases streams.len() - k,
    {
        if streams[k].labels.same_labels(labels) {
            return Some(k);
        }
        k += 1;
    }
    None
}

/// The streams after one more entry: appended to the first stream that
/// carries `labels`, or in a new stream at the end where none does.
pub open spec fn with_entry(
    streams: Seq<StreamView>,
    labels: LabelSetView,
    entry: (Seq<char>, Seq<char>),
) -> Seq<StreamView> {
    if carries(streams, labels) {
        let k = choose|k: int| is_first_with(streams, labels, k);
        streams.update(k, StreamView { labels: labels, values: streams[k].values.push(entry) })
    } else {
        streams.push(StreamView { labels: labels, values: seq![entry] })
    }
}

/// Only one stream can be the first that carries a label set.
pub proof fn lemma_first_unique(streams: Seq<StreamView>, labels: LabelSetView, a: int, b: int)
    requires
        is_first_with(streams, labels, a),
        is_first_with(streams, labels, b),
    ensures
        a == b,
{
    if a < b {
        assert(streams[a].labels != labels);
    } else if b < a {
        assert(streams[b].labels != labels);
    }
}

/// Adds one entry to the stream of its label set, creating the stream where
/// this is the first entry with these labels.
pub fn add_entry(streams: &mut Vec<Stream>, labels: LabelSet, stamp: String, line: String)
    ensures
        streams_view(final(streams)@) == with_entry(
            streams_view(old(streams)@),
            labels@,
            (stamp@, line@),
        ),
{
    let ghost before = streams_view(streams@);
    let ghost entry = (stamp@, line@);
    match find_stream(streams, &labels) {
        Some(k) => {
            proof {
                let chosen = choose|j: int| is_first_with(before, labels@, j);
                lemma_first_unique(before, labels@, k as int, chosen);
            }
            let ghost values_before = entries_view(streams[k as int].values@);
            streams[k].values.push((stamp, line));
            proof {
                assert(entries_view(streams[k as int].values@) =~= values_before.push(entry));
                assert(streams_view(streams@) =~= before.update(
                    k as int,
                    StreamView { labels: labels@, values: values_before.push(entry) },
                ));
            }
        },
        None => {
            let mut values: Vec<(String, String)> = Vec::new();
            values.push((stamp, line));
            assert(entries_view(values@) =~= seq![entry]);
            streams.push(Stream { labels: labels, values: values });
            assert(streams_view(streams@) =~= before.push(
                StreamView { labels: labels@, values: seq![entry] },
            ));
        },
    }
}

/// One event as grouping sees it: the label set it is filed under and the
/// entry that is filed.
pub struct Keyed {
    pub labels: LabelSetView,
    pub entry: (Seq<char>, Seq<char>),
}

/// The label sets of `items`, each once, in the order of first appearance.
pub open spec fn distinct_labels(items: Seq<Keyed>) -> Seq<LabelSetView>
    decreases items.len(),
{
    if items.len() == 0 {
        Seq::empty()
    } else {
        let earlier = distinct_labels(items.drop_last());
        if earlier.contains(items.last().labels) {
            earlier
        } else {
            earlier.push(items.last().labels)
        }
    }
}

/// The entries of the items filed under `labels`, in the order of `items`.
pub open spec fn entries_with(items: Seq<Keyed>, labels: LabelSetView) -> Seq<
    (Seq<char>, Seq<char>),
>
    decreases items.len(),
{
    if items.len() == 0 {
        Seq::empty()
    } else {
        let earlier = entries_with(items.drop_last(), labels);
        if items.last().labels == labels {
            earlier.push(items.last().entry)
        } else {
            earlier
        }
    }
}

/// The streams of `items`: one per label set, in the order in which the label
/// sets first appear, each with the entries filed under its label set in the
/// order of `items`.
pub open spec fn grouped(items: Seq<Keyed>) -> Seq<StreamView> {
    Seq::new(
        distinct_labels(items).len(),
        |k: int|
            StreamView {
                labels: distinct_labels(items)[k],
                values: entries_with(items, distinct_labels(items)[k]),
            },
    )
}

/// Whether some item is filed under `labels`.
pub open spec fn filed_under(items: Seq<Keyed>, labels: LabelSetView) -> bool {
    exists|i: int| 0 <= i < items.len() && (#[trigger] items[i]).labels == labels
}

/// Every item's label set is among the distinct label sets, and they hold
/// nothing else.
pub proof fn lemma_distinct_labels_complete(items: Seq<Keyed>)
    ensures
        forall|i: int|
            0 <= i < items.len() ==> distinct_labels(items).contains((#[trigger] items[i]).labels),
        forall|k: int|
            0 <= k < distinct_labels(items).len() ==> filed_under(
                items,
                #[trigger] distinct_labels(items)[k],
            ),
    decreases items.len(),
{
    if items.len() > 0 {
        let front = items.drop_last();
        let earlier = distinct_labels(front);
        let all = distinct_labels(items);
        lemma_distinct_labels_complete(front);
        assert forall|i: int| 0 <= i < items.len() implies all.contains(
            (#[trigger] items[i]).labels,
        ) by {
            if i < front.len() {
                assert(front[i] == items[i]);
                assert(earlier.contains(front[i].labels));
                let at = choose|at: int| 0 <= at < earlier.len() && earlier[at] == front[i].labels;
                assert(all[at] == items[i].labels);
            } else if !earlier.contains(items.last().labels) {
                assert(all[earlier.len() as int] == items[i].labels);
            }
        }
        assert forall|k: int| 0 <= k < all.len() implies filed_under(items, #[trigger] all[k]) by {
            if k < earlier.len() {
                assert(filed_under(front, earlier[k]));
                let i = choose|i: int|
                    0 <= i < front.len() && (#[trigger] front[i]).labels == earlier[k];
                assert(items[i].labels == all[k]);
            } else {
                assert(items[items.len() - 1].labels == all[k]);
            }
        }
    }
}

/// No label set is listed twice: events with equal label sets share a stream.
pub proof fn lemma_distinct_labels_differ(items: Seq<Keyed>)
    ensures
        distinct_labels(items).no_duplicates(),
    decreases items.len(),
{
    if items.len() > 0 {
        lemma_distinct_labels_differ(items.drop_last());
    }
}

/// Nothing is filed under a label set that no item carries.
pub proof fn lemma_entries_with_unlisted(items: Seq<Keyed>, labels: LabelSetView)
    requires
        !distinct_labels(items).contains(labels),
    ensures
        entries_with(items, labels) == Seq::<(Seq<char>, Seq<char>)>::empty(),
    decreases items.len(),
{
    if items.len() > 0 {
        let front = items.drop_last();
        lemma_distinct_labels_complete(items);
        assert(items[items.len() - 1].labels != labels);
        if distinct_labels(front).contains(labels) {
            let at = choose|at: int|
                0 <= at < distinct_labels(front).len() && distinct_labels(front)[at] == labels;
            assert(distinct_labels(items)[at] == labels);
        }
        lemma_entries_with_unlisted(front, labels);
    }
}

/// Grouping one item more is adding its entry to what was grouped before.
pub proof fn lemma_grouped_push(items: Seq<Keyed>, item: Keyed)
    ensures
        grouped(items.push(item)) == with_entry(grouped(items), item.labels, item.entry),
{
    let more = items.push(item);
    assert(more.drop_last() =~= items);
    assert(more.last() == item);
    let before = grouped(items);
    let listed = distinct_labels(items);
    lemma_distinct_labels_differ(items);
    if listed.contains(item.labels) {
        let at = choose|at: int| 0 <= at < listed.len() && listed[at] == item.labels;
        assert(before[at].labels == item.labels);
        assert forall|j: int| 0 <= j < before.len() && j != at implies (#[trigger] before[j]).labels
            != item.labels by {
            assert(listed[j] != listed[at]);
        }
        assert(is_first_with(before, item.labels, at));
        let k = choose|k: int| is_first_with(before, item.labels, k);
        lemma_first_unique(before, item.labels, at, k);
        assert(grouped(more) =~= before.update(
            k,
            StreamView { labels: item.labels, values: before[k].values.push(item.entry) },
        ));
    } else {
        assert forall|k: int| 0 <= k < before.len() implies (#[trigger] before[k]).labels
            != item.labels by {
            assert(listed[k] == before[k].labels);
        }
        lemma_entries_with_unlisted(items, item.labels);
        assert(grouped(more) =~= before.push(
            StreamView { labels: item.labels, values: seq![item.entry] },
        ));
    }
}

/// How many items before item `i` are filed under the label set of item `i`:
/// the place of its entry in its stream.
pub open spec fn place_in_stream(items: Seq<Keyed>, i: int) -> nat {
    entries_with(items.take(i), items[i].labels).len()
}

/// Every event is in the stream of its label set, at the place that the
/// events before it with the same label set leave it: so the entries of a
/// stream stand in the order of their events.
pub proof fn lemma_entry_place(items: Seq<Keyed>, i: int)
    requires
        0 <= i < items.len(),
    ensures
        place_in_stream(items, i) < entries_with(items, items[i].labels).len(),
        entries_with(items, items[i].labels)[place_in_stream(items, i) as int] == items[i].entry,
    decreases items.len(),
{
    let front = items.drop_last();
    if i == items.len() - 1 {
        assert(items.take(i) =~= front);
    } else {
        lemma_entry_place(front, i);
        assert(front.take(i) =~= items.take(i));
        assert(front[i] == items[i]);
    }
}

/// Of two events with the same label set, the earlier one stands earlier in
/// their stream.
pub proof fn lemma_places_follow_input(items: Seq<Keyed>, i: int, j: int)
    requires
        0 <= i < j < items.len(),
        items[i].labels == items[j].labels,
    ensures
        place_in_stream(items, i) < place_in_stream(items, j),
{
    let upto = items.take(j);
    lemma_entry_place(upto, i);
    assert(upto[i] == items[i]);
    assert(upto.take(i) =~= items.take(i));
}

/// The number of entries in all streams together.
pub open spec fn total_entries(streams: Seq<StreamView>) -> nat
    decreases streams.len(),
{
    if streams.len() == 0 {
        0
    } else {
        total_entries(streams.drop_last()) + streams.last().values.len()
    }
}

/// One entry more in one stream is one entry more in all.
pub proof fn lemma_total_entries_update(streams: Seq<StreamView>, k: int, stream: StreamView)
    requires
        0 <= k < streams.len(),
    ensures
        total_entries(streams.update(k, stream)) + streams[k].values.len() == total_entries(
            streams,
        ) + stream.values.len(),
    decreases streams.len(),
{
    let updated = streams.update(k, stream);
    if k == streams.len() - 1 {
        assert(updated.drop_last() =~= streams.drop_last());
    } else {
        lemma_total_entries_update(streams.drop_last(), k, stream);
        assert(updated.drop_last() =~= streams.drop_last().update(k, stream));
    }
}

/// Grouping neither loses nor repeats an event: the streams together hold as
/// many entries as the batch holds events.
pub proof fn lemma_grouped_keeps_every_entry(items: Seq<Keyed>)
    ensures
        total_entries(grouped(items)) == items.len(),
    decreases items.len(),
{
    if items.len() == 0 {
        assert(grouped(items) =~= Seq::<StreamView>::empty());
    } else {
        let front = items.drop_last();
        let item = items.last();
        lemma_grouped_keeps_every_entry(front);
        lemma_grouped_push(front, item);
        assert(front.push(item) =~= items);
        let before = grouped(front);
        if carries(before, item.labels) {
            let k = choose|k: int| 0 <= k < before.len() && (#[trigger] before[k]).labels
                == item.labels;
            lemma_first_exists(before, item.labels, k);
            let first = choose|first: int| is_first_with(before, item.labels, first);
            lemma_total_entries_update(
                before,
                first,
                StreamView { labels: item.labels, values: before[first].values.push(item.entry) },
            );
        } else {
            let stream = StreamView { labels: item.labels, values: seq![item.entry] };
            assert(before.push(stream).drop_last() =~= before);
        }
    }
}

/// Among the streams that carry a label set there is a first.
pub proof fn lemma_first_exists(streams: Seq<StreamView>, labels: LabelSetView, k: int)
    requires
        0 <= k < streams.len(),
        streams[k].labels == labels,
    ensures
        exists|first: int| is_first_with(streams, labels, first),
    decreases k,
{
    if exists|j: int| 0 <= j < k && (#[trigger] streams[j]).labels == labels {
        let j = choose|j: int| 0 <= j < k && (#[trigger] streams[j]).labels == labels;
        lemma_first_exists(streams, labels, j);
    } else {
        assert(is_first_with(streams, labels, k));
    }
}

/// No stream is empty, and the label set of each is the label set of some
/// event of the batch.
pub proof fn lemma_streams_hold_entries(items: Seq<Keyed>, k: int)
    requires
        0 <= k < grouped(items).len(),
    ensures
        grouped(items)[k].values.len() >= 1,
        filed_under(items, grouped(items)[k].labels),
{
    lemma_distinct_labels_complete(items);
    let labels = distinct_labels(items)[k];
    assert(filed_under(items, labels));
    let i = choose|i: int| 0 <= i < items.len() && (#[trigger] items[i]).labels == labels;
    lemma_entry_place(items, i);
}

/// The events of a stamped batch as grouping sees them.
pub open spec fn keyed_items(batch: Seq<StampedView>) -> Seq<Keyed> {
    Seq::new(
        batch.len(),
        |i: int|
            Keyed {
                labels: labels_of(batch[i].event.account_id, batch[i].event.activity),
                entry: (batch[i].stamp, log_line_text(batch[i].event)),
            },
    )
}

/// The streams of a stamped batch.
pub open spec fn group_outcome(batch: Seq<StampedView>) -> Seq<StreamView> {
    grouped(keyed_items(batch))
}

/// Whether `batch` is the events of `events`, in order, each with a backend
/// timestamp that normalizing its timestamp text may give.
pub open spec fn is_stamping_of(events: Seq<EventView>, batch: Seq<StampedView>) -> bool {
    &&& events_of(batch) == events
    &&& forall|i: int|
        0 <= i < batch.len() ==> is_backend_time_for(
            (#[trigger] batch[i]).event.timestamp,
            batch[i].stamp,
        )
}

/// Whether `streams` is what grouping the batch may give: the streams of
/// some stamping of it.
pub open spec fn may_group_to(events: Seq<EventView>, streams: Seq<StreamView>) -> bool {
    exists|batch: Seq<StampedView>|
        is_stamping_of(events, batch) && streams == #[trigger] group_outcome(batch)
}

/// Normalizes the timestamp of every event of a batch, in order. An event
/// whose timestamp cannot be read gets the wall-clock time of the moment it
/// is looked at.
pub fn stamp_events<'a>(events: &'a Vec<Event>) -> (batch: Vec<Stamped<'a>>)
    ensures
        is_stamping_of(events_view(events@), stamped_view(batch@)),
{
    let mut batch: Vec<Stamped<'a>> = Vec::new();
    let mut i: usize = 0;
    while i < events.len()
        invariant
            i <= events.len(),
            batch.len() == i,
            forall|j: int| 0 <= j < i ==> (#[trigger] stamped_view(batch@)[j]).event == events[j]@,
            forall|j: int|
                0 <= j < i ==> is_backend_time_for(
                    (#[trigger] stamped_view(batch@)[j]).event.timestamp,
                    stamped_view(batch@)[j].stamp,
                ),
        decreases events.len() - i,
    {
        let event = &events[i];
        let stamp = timestamp_to_nanoseconds(event.timestamp.as_str());
        let ghost before = stamped_view(batch@);
        batch.push(Stamped { event: event, stamp: stamp });
        assert forall|j: int| 0 <= j < i + 1 implies (#[trigger] stamped_view(batch@)[j]).event
            == events[j]@ && is_backend_time_for(
            stamped_view(batch@)[j].event.timestamp,
            stamped_view(batch@)[j].stamp,
        ) by {
            if j < i {
                assert(stamped_view(batch@)[j] == before[j]);
            }
        }
        i += 1;
    }
    assert(events_of(stamped_view(batch@)) =~= events_view(events@));
    batch
}

/// Groups a batch whose timestamps are already normalized. Events are taken
/// in the order given; each goes to the stream of its label set, which is
/// created when its first event comes. This succeeds on every batch.
pub fn group_stamped(batch: &Vec<Stamped>) -> (r: Result<Vec<Stream>, ExportError>)
    ensures
        r is Ok,
        r matches Ok(streams) ==> streams_view(streams@) == group_outcome(stamped_view(batch@)),
{
    let ghost views = stamped_view(batch@);
    let ghost items = keyed_items(views);
    let mut streams: Vec<Stream> = Vec::new();
    let mut i: usize = 0;
    assert(streams_view(streams@) =~= grouped(items.take(0)));
    while i < batch.len()
        invariant
            i <= batch.len(),
            views == stamped_view(batch@),
            items == keyed_items(views),
            streams_view(streams@) == grouped(items.take(i as int)),
        decreases batch.len() - i,
    {
        let event = batch[i].event;
        assert(event@ == views[i as int].event);
        let line = log_line(event)?;
        let labels = LabelSet::of_event(event);
        add_entry(&mut streams, labels, batch[i].stamp.clone(), line);
        proof {
            lemma_grouped_push(items.take(i as int), items[i as int]);
            assert(items.take(i as int).push(items[i as int]) =~= items.take(i + 1));
        }
        i += 1;
    }
    assert(items.take(i as int) =~= items);
    Ok(streams)
}

/// Groups a batch into streams. Events are taken in the order given; each
/// goes to the stream of its label set, which is created when its first event
/// comes, so the entries of a stream stand in the order of their events. The
/// timestamps are normalized on the way. This succeeds on every batch.
pub fn group(events: &Vec<Event>) -> (r: Result<Vec<Stream>, ExportError>)
    ensures
        r is Ok,
        r matches Ok(streams) ==> may_group_to(events_view(events@), streams_view(streams@)),
{
    let batch = stamp_events(events);
    group_stamped(&batch)
}

/// Grouping is a function of the batch: where every timestamp of the batch
/// can be read, any two outcomes of grouping it are the same, stream by
/// stream and entry by entry.
pub proof fn lemma_group_deterministic(
    events: Seq<EventView>,
    first: Seq<StreamView>,
    second: Seq<StreamView>,
)
    requires
        forall|i: int|
            0 <= i < events.len() ==> resolved_nanos((#[trigger] events[i]).timestamp) is Some,
        may_group_to(events, first),
        may_group_to(events, second),
    ensures
        first == second,
{
    let a = choose|batch: Seq<StampedView>|
        is_stamping_of(events, batch) && first == #[trigger] group_outcome(batch);
    let b = choose|batch: Seq<StampedView>|
        is_stamping_of(events, batch) && second == #[trigger] group_outcome(batch);
    lemma_stamping_unique(events, a, b);
}

/// A batch whose timestamps can all be read has one stamping only.
pub proof fn lemma_stamping_unique(
    events: Seq<EventView>,
    first: Seq<StampedView>,
    second: Seq<StampedView>,
)
    requires
        forall|i: int|
            0 <= i < events.len() ==> resolved_nanos((#[trigger] events[i]).timestamp) is Some,
        is_stamping_of(events, first),
        is_stamping_of(events, second),
    ensures
        first == second,
{
    assert(first.len() == events_of(first).len());
    assert(second.len() == events_of(second).len());
    assert forall|i: int| 0 <= i < events.len() implies first[i] == second[i] by {
        assert(events_of(first)[i] == events[i]);
        assert(events_of(second)[i] == events[i]);
        assert(resolved_nanos(events[i].timestamp) is Some);
        assert(is_backend_time_for(first[i].event.timestamp, first[i].stamp));
        assert(is_backend_time_for(second[i].event.timestamp, second[i].stamp));
    }
    assert(first =~= second);
}

} // verus!
