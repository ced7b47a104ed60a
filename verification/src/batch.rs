//! One batch on its way from the source to a push request.

use crate::delivery::{plan_push, push_body_text, PushStep};
use crate::event::{
    events_of, events_view, stamped_view, Event, EventView, Stamped, StampedView,
};
use crate::grouper::{
    distinct_labels, group_outcome, group_stamped, grouped, is_stamping_of, keyed_items,
    lemma_distinct_labels_complete, stamp_events,
};
use vstd::prelude::*;

verus! {

/// The highest id among the events of a batch; `None` for an empty batch.
pub open spec fn highest_id_of(events: Seq<EventView>) -> Option<i64>
    decreases events.len(),
{
    if events.len() == 0 {
        None
    } else {
        match highest_id_of(events.drop_last()) {
            Some(earlier) if earlier >= events.last().id => Some(earlier),
            _ => Some(events.last().id),
        }
    }
}

/// The highest id of a batch is the id of one of its events, and no event of
/// the batch has a higher one.
pub proof fn lemma_highest_id_is_max(events: Seq<EventView>)
    requires
        events.len() > 0,
    ensures
        highest_id_of(events) is Some,
        exists|i: int|
            0 <= i < events.len() && (#[trigger] events[i]).id == highest_id_of(events)->0,
        forall|i: int|
            0 <= i < events.len() ==> (#[trigger] events[i]).id <= highest_id_of(events)->0,
    decreases events.len(),
{
    let front = events.drop_last();
    if front.len() > 0 {
        lemma_highest_id_is_max(front);
        let at = choose|i: int|
            0 <= i < front.len() && (#[trigger] front[i]).id == highest_id_of(front)->0;
        assert(events[at] == front[at]);
        if highest_id_of(front)->0 >= events.last().id {
            assert(events[at].id == highest_id_of(events)->0);
        } else {
            assert(events[events.len() - 1].id == highest_id_of(events)->0);
        }
        assert forall|i: int| 0 <= i < events.len() implies (#[trigger] events[i]).id
            <= highest_id_of(events)->0 by {
            if i < front.len() {
                assert(events[i] == front[i]);
            }
        }
    } else {
        assert(events[0].id == highest_id_of(events)->0);
    }
}

/// The highest id among the events of a batch.
pub fn highest_id(batch: &Vec<Stamped>) -> (r: Option<i64>)
    ensures
        r == highest_id_of(events_of(stamped_view(batch@))),
{
    let ghost events = events_of(stamped_view(batch@));
    let mut highest: Option<i64> = None;
    let mut i: usize = 0;
    assert(events.take(0) =~= Seq::<EventView>::empty());
    while i < batch.len()
        invariant
            i <= batch.len(),
            events == events_of(stamped_view(batch@)),
            highest == highest_id_of(events.take(i as int)),
        decreases batch.len() - i,
    {
        let id = batch[i].event.id;
        assert(events.take(i + 1).drop_last() =~= events.take(i as int));
        assert(events.take(i + 1).last().id == id);
        highest = match highest {
            Some(earlier) => if earlier >= id {
                Some(earlier)
            } else {
                Some(id)
            },
            None => Some(id),
        };
        i += 1;
    }
    assert(events.take(i as int) =~= events);
    highest
}

/// A batch made ready for delivery.
#[derive(Clone, Debug, PartialEq, Eq)]
pub enum Prepared {
    /// The batch holds no event: there is nothing to deliver.
    Empty,
    /// The body of the push request for the batch, and the highest id in it.
    Ready { body: String, max_id: i64 },
    /// The batch cannot be put into the backend's format.
    Unusable,
}

/// A prepared batch as contracts see it.
pub enum PreparedView {
    Empty,
    Ready { body: Seq<char>, max_id: i64 },
    Unusable,
}

impl View for Prepared {
    type V = PreparedView;

    open spec fn view(&self) -> PreparedView {
        match self {
            Prepared::Empty => PreparedView::Empty,
            Prepared::Ready { body, max_id } => PreparedView::Ready {
                body: body@,
                max_id: *max_id,
            },
            Prepared::Unusable => PreparedView::Unusable,
        }
    }
}

/// What preparing a stamped batch gives: nothing for an empty batch; for any
/// other the body of the push request for its streams, together with its
/// highest id.
pub open spec fn prepared_outcome(batch: Seq<StampedView>) -> PreparedView {
    if batch.len() == 0 {
        PreparedView::Empty
    } else {
        PreparedView::Ready {
            body: push_body_text(group_outcome(batch)),
            max_id: highest_id_of(events_of(batch))->0,
        }
    }
}

/// Whether `prepared` is what preparing the batch may give: the outcome for
/// some stamping of it.
pub open spec fn may_prepare_to(events: Seq<EventView>, prepared: PreparedView) -> bool {
    exists|batch: Seq<StampedView>|
        is_stamping_of(events, batch) && prepared == #[trigger] prepared_outcome(batch)
}

/// A batch that holds an event has a stream.
pub proof fn lemma_grouped_nonempty(batch: Seq<StampedView>)
    requires
        batch.len() > 0,
    ensures
        grouped(keyed_items(batch)).len() > 0,
{
    let items = keyed_items(batch);
    lemma_distinct_labels_complete(items);
    assert(distinct_labels(items).contains(items[0].labels));
}

/// Prepares a batch whose timestamps are already normalized. A batch that
/// holds an event always comes out ready.
pub fn prepare_stamped(batch: &Vec<Stamped>) -> (r: Prepared)
    ensures
        r@ == prepared_outcome(stamped_view(batch@)),
{
    let max_id = match highest_id(batch) {
        Some(id) => id,
        None => {
            return Prepared::Empty;
        },
    };
    let streams = match group_stamped(batch) {
        Ok(streams) => streams,
        Err(_) => {
            return Prepared::Unusable;
        },
    };
    proof {
        lemma_grouped_nonempty(stamped_view(batch@));
    }
    match plan_push(&streams) {
        Ok(PushStep::Send { body }) => Prepared::Ready { body: body, max_id: max_id },
        Ok(PushStep::Skip) => Prepared::Empty,
        Err(_) => Prepared::Unusable,
    }
}

/// Prepares a batch for delivery: normalizes its timestamps, groups it into
/// streams and writes the body of the push request. An empty batch gives
/// `Empty`, any other comes out ready.
pub fn prepare_batch(events: &Vec<Event>) -> (r: Prepared)
    ensures
        may_prepare_to(events_view(events@), r@),
        r is Empty <==> events.len() == 0,
        r is Ready <==> events.len() > 0,
{
    let batch = stamp_events(events);
    assert(events_of(stamped_view(batch@)).len() == events.len());
    prepare_stamped(&batch)
}

} // verus!
