//! The pump: the control loop of the exporter as a state machine. The loop
//! itself, with its reads, requests and sleeps, runs outside; it hands each
//! thing that happened to [`Pump::step`] and does what the answer says.

use crate::batch::{prepare_batch, may_prepare_to, Prepared, PreparedView};
use crate::cursor::Cursor;
use crate::delivery::Delivery;
use crate::event::{events_view, Event};
use vstd::prelude::*;

verus! {

/// Consecutive failures after which the pump pauses for longer.
pub const DEFAULT_FAILURE_THRESHOLD: u32 = 10;

/// Seconds of the extended pause, on top of the poll interval.
pub const EXTENDED_PAUSE_SECS: u64 = 30;

/// Where in its cycle the pump stands. A cycle goes from idle to reading and,
/// where the batch holds events that could be grouped, on to delivering; it
/// ends back at idle, by advancing the cursor after a delivery or by counting
/// a failure.
#[derive(Clone, Copy, Debug, PartialEq, Eq)]
pub enum Phase {
    /// Between two cycles.
    Idle,
    /// A read of the next batch was asked for.
    Reading,
    /// A push of a batch was asked for; `max_id` is the highest id in it.
    Delivering { max_id: i64 },
}

/// Something that happened in the loop.
#[derive(Clone, Debug, PartialEq, Eq)]
pub enum PumpEvent {
    /// The pause is over: the next cycle begins.
    Wake,
    /// The batch could not be read.
    ReadFailed,
    /// The batch was read and prepared.
    Batch(Prepared),
    /// The push came to an end.
    Outcome(Delivery),
}

/// What the loop is to do next.
#[derive(Clone, Debug, PartialEq, Eq)]
pub enum PumpAction {
    /// Read up to `limit` events with an id above `after_id`, in ascending
    /// order of id.
    Read { after_id: i64, limit: i64 },
    /// Send one push request with this body.
    Deliver { body: String },
    /// The cycle is over: sleep for the poll interval, after an extended
    /// pause where `extended` is set.
    Pause { extended: bool },
    /// The event does not belong to the phase the pump is in. Nothing
    /// changed.
    OutOfTurn,
}

/// An event as the transitions see it.
pub enum Signal {
    /// The pause is over.
    Wake,
    /// The batch could not be read.
    ReadFailed,
    /// The batch that was read holds no event.
    EmptyBatch,
    /// The batch was grouped; `body` is its push request, `max_id` the highest
    /// id in it.
    BatchReady { max_id: i64, body: Seq<char> },
    /// The batch could not be put into the backend's format.
    BatchUnusable,
    /// The backend accepted the push.
    Delivered,
    /// The push was rejected, or no answer was obtained.
    DeliveryFailed,
}

/// An action as contracts see it.
pub enum ActionView {
    Read { after_id: i64, limit: i64 },
    Deliver { body: Seq<char> },
    Pause { extended: bool },
    OutOfTurn,
}

impl View for PumpAction {
    type V = ActionView;

    open spec fn view(&self) -> ActionView {
        match self {
            PumpAction::Read { after_id, limit } => ActionView::Read {
                after_id: *after_id,
                limit: *limit,
            },
            PumpAction::Deliver { body } => ActionView::Deliver { body: body@ },
            PumpAction::Pause { extended } => ActionView::Pause { extended: *extended },
            PumpAction::OutOfTurn => ActionView::OutOfTurn,
        }
    }
}

/// What a prepared batch means to the pump.
pub open spec fn batch_signal(prepared: PreparedView) -> Signal {
    match prepared {
        PreparedView::Empty => Signal::EmptyBatch,
        PreparedView::Ready { body, max_id } => Signal::BatchReady { max_id: max_id, body: body },
        PreparedView::Unusable => Signal::BatchUnusable,
    }
}

/// What an event means to the pump. A rejected and an unreachable delivery
/// mean the same.
pub open spec fn signal_of(event: PumpEvent) -> Signal {
    match event {
        PumpEvent::Wake => Signal::Wake,
        PumpEvent::ReadFailed => Signal::ReadFailed,
        PumpEvent::Batch(prepared) => batch_signal(prepared@),
        PumpEvent::Outcome(delivery) => if delivery is Delivered {
            Signal::Delivered
        } else {
            Signal::DeliveryFailed
        },
    }
}

/// The state of a pump.
pub struct PumpView {
    /// The id of the last event delivered.
    pub cursor: i64,
    /// Failures in a row since the last success or extended pause.
    pub failures: u32,
    /// Failures in a row at which the pause is extended.
    pub threshold: u32,
    /// The most events one read asks for.
    pub batch_size: i64,
    pub phase: Phase,
}

/// Between cycles the failure count stays below the threshold: reaching it
/// resets it.
pub open spec fn well_formed(s: PumpView) -> bool {
    s.failures == 0 || s.failures < s.threshold
}

/// Whether the signal belongs to the phase.
pub open spec fn in_turn(phase: Phase, signal: Signal) -> bool {
    match phase {
        Phase::Idle => signal is Wake,
        Phase::Reading => signal is ReadFailed || signal is EmptyBatch || signal is BatchReady
            || signal is BatchUnusable,
        Phase::Delivering { .. } => signal is Delivered || signal is DeliveryFailed,
    }
}

/// Whether the signal, in its turn, is a failure of the cycle.
pub open spec fn is_failure(signal: Signal) -> bool {
    signal is ReadFailed || signal is BatchUnusable || signal is DeliveryFailed
}

/// The failure count that a cycle ends with, before it is held against the
/// threshold: one more after a failure, none after a delivery, the same after
/// an empty batch.
pub open spec fn failures_at_end(s: PumpView, signal: Signal) -> int {
    if is_failure(signal) {
        s.failures + 1
    } else if signal is Delivered {
        0
    } else {
        s.failures as int
    }
}

/// Whether the cycle that the signal ends is followed by the extended pause.
pub open spec fn escalates(s: PumpView, signal: Signal) -> bool {
    failures_at_end(s, signal) >= s.threshold
}

/// The state after a signal. A signal out of turn changes nothing. A cycle
/// ends on a failure, an empty batch or a delivery; the cursor moves on a
/// delivery alone, up to the highest id of the batch delivered.
pub open spec fn next_state(s: PumpView, signal: Signal) -> PumpView {
    if !in_turn(s.phase, signal) {
        s
    } else {
        match signal {
            Signal::Wake => PumpView { phase: Phase::Reading, ..s },
            Signal::BatchReady { max_id, body } => PumpView {
                phase: Phase::Delivering { max_id: max_id },
                ..s
            },
            _ => PumpView {
                cursor: if signal is Delivered && s.phase->max_id > s.cursor {
                    s.phase->max_id
                } else {
                    s.cursor
                },
                failures: if escalates(s, signal) {
                    0
                } else {
                    failures_at_end(s, signal) as u32
                },
                phase: Phase::Idle,
                ..s
            },
        }
    }
}

/// What the loop is told to do after a signal.
pub open spec fn next_action(s: PumpView, signal: Signal) -> ActionView {
    if !in_turn(s.phase, signal) {
        ActionView::OutOfTurn
    } else {
        match signal {
            Signal::Wake => ActionView::Read { after_id: s.cursor, limit: s.batch_size },
            Signal::BatchReady { max_id, body } => ActionView::Deliver { body: body },
            _ => ActionView::Pause { extended: escalates(s, signal) },
        }
    }
}

/// The pump of the exporter.
#[derive(Debug)]
pub struct Pump {
    cursor: Cursor,
    failures: u32,
    threshold: u32,
    batch_size: i64,
    phase: Phase,
}

impl View for Pump {
    type V = PumpView;

    closed spec fn view(&self) -> PumpView {
        PumpView {
            cursor: self.cursor@,
            failures: self.failures,
            threshold: self.threshold,
            batch_size: self.batch_size,
            phase: self.phase,
        }
    }
}

impl Pump {
    #[verifier::type_invariant]
    spec fn counted(self) -> bool {
        well_formed(self@)
    }

    /// A pump at startup: idle, without failures, its cursor at the highest
    /// id that the source holds, or at 0 for an empty source.
    pub fn new(source_max_id: Option<i64>, batch_size: i64, threshold: u32) -> (r: Pump)
        ensures
            r@ == (PumpView {
                cursor: match source_max_id {
                    Some(id) => id,
                    None => 0i64,
                },
                failures: 0,
                threshold: threshold,
                batch_size: batch_size,
                phase: Phase::Idle,
            }),
            well_formed(r@),
    {
        Pump {
            cursor: Cursor::initial(source_max_id),
            failures: 0,
            threshold: threshold,
            batch_size: batch_size,
            phase: Phase::Idle,
        }
    }

    /// The id of the last event delivered.
    pub fn cursor(&self) -> (r: i64)
        ensures
            r == self@.cursor,
    {
        self.cursor.current()
    }

    /// Failures in a row since the last success or extended pause.
    pub fn consecutive_failures(&self) -> (r: u32)
        ensures
            r == self@.failures,
            well_formed(self@),
    {
        proof {
            use_type_invariant(self);
        }
        self.failures
    }

    /// Where in its cycle the pump stands.
    pub fn phase(&self) -> (r: Phase)
        ensures
            r == self@.phase,
    {
        self.phase
    }

    /// Ends a cycle with `failures` failures in a row: holds them against the
    /// threshold and says how to pause.
    fn end_cycle(&mut self, failures: u32) -> (action: PumpAction)
        ensures
            final(self)@ == (PumpView {
                failures: if failures >= old(self)@.threshold {
                    0
                } else {
                    failures
                },
                phase: Phase::Idle,
                ..old(self)@
            }),
            action@ == (ActionView::Pause { extended: failures >= old(self)@.threshold }),
    {
        let extended = failures >= self.threshold;
        self.failures = if extended {
            0
        } else {
            failures
        };
        self.phase = Phase::Idle;
        PumpAction::Pause { extended: extended }
    }

    /// Takes one event and says what to do next. The state moves as
    /// [`next_state`] says and the answer is as [`next_action`] says.
    pub fn step(&mut self, event: PumpEvent) -> (action: PumpAction)
        ensures
            final(self)@ == next_state(old(self)@, signal_of(event)),
            action@ == next_action(old(self)@, signal_of(event)),
            well_formed(old(self)@),
            well_formed(final(self)@),
    {
        proof {
            use_type_invariant(&*self);
        }
        match (self.phase, event) {
            (Phase::Idle, PumpEvent::Wake) => {
                self.phase = Phase::Reading;
                PumpAction::Read { after_id: self.cursor.current(), limit: self.batch_size }
            },
            (Phase::Reading, PumpEvent::ReadFailed) => {
                let failures = self.failures + 1;
                self.end_cycle(failures)
            },
            (Phase::Reading, PumpEvent::Batch(Prepared::Unusable)) => {
                let failures = self.failures + 1;
                self.end_cycle(failures)
            },
            (Phase::Reading, PumpEvent::Batch(Prepared::Empty)) => {
                let failures = self.failures;
                self.end_cycle(failures)
            },
            (Phase::Reading, PumpEvent::Batch(Prepared::Ready { body, max_id })) => {
                self.phase = Phase::Delivering { max_id: max_id };
                PumpAction::Deliver { body: body }
            },
            (Phase::Delivering { max_id }, PumpEvent::Outcome(Delivery::Delivered)) => {
                let mut cursor = self.cursor;
                cursor.advance_to(max_id);
                self.cursor = cursor;
                self.end_cycle(0)
            },
            (Phase::Delivering { .. }, PumpEvent::Outcome(_)) => {
                let failures = self.failures + 1;
                self.end_cycle(failures)
            },
            _ => PumpAction::OutOfTurn,
        }
    }

    /// Prepares the batch that was read and takes it as the next event. In
    /// its turn an empty batch ends the cycle and any other is delivered.
    pub fn on_batch(&mut self, events: &Vec<Event>) -> (action: PumpAction)
        ensures
            exists|prepared: PreparedView| #[trigger]
                may_prepare_to(events_view(events@), prepared) && final(self)@ == next_state(
                    old(self)@,
                    batch_signal(prepared),
                ) && action@ == next_action(old(self)@, batch_signal(prepared)),
            events.len() == 0 ==> final(self)@ == next_state(old(self)@, Signal::EmptyBatch)
                && action@ == next_action(old(self)@, Signal::EmptyBatch),
            events.len() > 0 && old(self)@.phase is Reading ==> action@ is Deliver
                && final(self)@.phase is Delivering
                && final(self)@.cursor == old(self)@.cursor,
            well_formed(final(self)@),
    {
        let prepared = prepare_batch(events);
        let ghost view = prepared@;
        let action = self.step(PumpEvent::Batch(prepared));
        assert(may_prepare_to(events_view(events@), view));
        action
    }
}

/// The state after a sequence of signals, taken one by one.
pub open spec fn run(s: PumpView, signals: Seq<Signal>) -> PumpView
    decreases signals.len(),
{
    if signals.len() == 0 {
        s
    } else {
        next_state(run(s, signals.drop_last()), signals.last())
    }
}

/// What a read gives: the ids of `source` above `after_id`, in the order of
/// the source, and no more than `limit` of them. A negative limit is no limit.
pub open spec fn batch_of(source: Seq<i64>, after_id: i64, limit: i64) -> Seq<i64> {
    let later = source.filter(|id: i64| id > after_id);
    if 0 <= limit < later.len() {
        later.take(limit as int)
    } else {
        later
    }
}

/// The batch that the next cycle of an idle pump reads from `source`.
pub open spec fn next_batch(s: PumpView, source: Seq<i64>) -> Seq<i64> {
    batch_of(source, s.cursor, s.batch_size)
}

/// No signal breaks the bound on the failure count, and none changes the
/// threshold or the batch size.
pub proof fn lemma_step_keeps_well_formed(s: PumpView, signal: Signal)
    requires
        well_formed(s),
    ensures
        well_formed(next_state(s, signal)),
        next_state(s, signal).threshold == s.threshold,
        next_state(s, signal).batch_size == s.batch_size,
{
}

/// The cursor never goes down, and it moves only when a delivery that was
/// under way is reported as delivered.
pub proof fn lemma_cursor_moves_only_on_delivery(s: PumpView, signal: Signal)
    ensures
        next_state(s, signal).cursor >= s.cursor,
        next_state(s, signal).cursor != s.cursor ==> signal is Delivered && s.phase is Delivering,
        signal is Delivered && s.phase is Delivering ==> next_state(s, signal).cursor == (
        if s.phase->max_id > s.cursor {
            s.phase->max_id
        } else {
            s.cursor
        }),
{
}

/// Over any sequence of signals the cursor never goes down, and the bound on
/// the failure count holds throughout.
pub proof fn lemma_cursor_never_decreases(s: PumpView, signals: Seq<Signal>)
    requires
        well_formed(s),
    ensures
        run(s, signals).cursor >= s.cursor,
        well_formed(run(s, signals)),
        run(s, signals).threshold == s.threshold,
        run(s, signals).batch_size == s.batch_size,
    decreases signals.len(),
{
    if signals.len() > 0 {
        lemma_cursor_never_decreases(s, signals.drop_last());
        lemma_step_keeps_well_formed(run(s, signals.drop_last()), signals.last());
        lemma_cursor_moves_only_on_delivery(run(s, signals.drop_last()), signals.last());
    }
}

/// Without a delivery the cursor stays where it is: whatever else happens,
/// the next read asks for the same events.
pub proof fn lemma_cursor_kept_without_delivery(s: PumpView, signals: Seq<Signal>)
    requires
        forall|i: int| 0 <= i < signals.len() ==> !((#[trigger] signals[i]) is Delivered),
    ensures
        run(s, signals).cursor == s.cursor,
        run(s, signals).batch_size == s.batch_size,
    decreases signals.len(),
{
    if signals.len() > 0 {
        let front = signals.drop_last();
        assert forall|i: int| 0 <= i < front.len() implies !((#[trigger] front[i]) is Delivered)
        by {
            assert(front[i] == signals[i]);
        }
        lemma_cursor_kept_without_delivery(s, front);
        assert(!(signals[signals.len() - 1] is Delivered));
        lemma_cursor_moves_only_on_delivery(run(s, front), signals.last());
    }
}

/// A cycle that fails loses nothing: it leaves the pump idle with the cursor
/// where it was, so the next cycle asks for the same read and, from a source
/// that has not changed, gets the same batch. This holds of a read that
/// failed, of a batch that could not be prepared and of a delivery that
/// failed.
pub proof fn lemma_failed_cycle_repeats_batch(
    s: PumpView,
    cycle: Seq<Signal>,
    source: Seq<i64>,
)
    requires
        s.phase is Idle,
        cycle.len() >= 2,
        cycle[0] is Wake,
        cycle.len() == 2 ==> cycle[1] is ReadFailed || cycle[1] is BatchUnusable,
        cycle.len() > 2 ==> cycle.len() == 3 && cycle[1] is BatchReady
            && cycle[2] is DeliveryFailed,
    ensures
        run(s, cycle).phase is Idle,
        run(s, cycle).cursor == s.cursor,
        next_action(run(s, cycle), Signal::Wake) == next_action(s, Signal::Wake),
        next_batch(run(s, cycle), source) == next_batch(s, source),
{
    lemma_cursor_kept_without_delivery(s, cycle);
    let first = cycle.take(1);
    assert(first.drop_last() =~= Seq::<Signal>::empty());
    assert(run(s, first.drop_last()) == s);
    assert(run(s, first) == next_state(s, cycle[0]));
    let second = cycle.take(2);
    assert(second.drop_last() =~= first);
    assert(run(s, second) == next_state(run(s, first), cycle[1]));
    if cycle.len() == 2 {
        assert(cycle =~= second);
    } else {
        assert(cycle.drop_last() =~= second);
        assert(run(s, cycle) == next_state(run(s, second), cycle[2]));
    }
}

/// An empty batch ends the cycle at once: no delivery is asked for, and the
/// cursor and the failure count stay as they are.
pub proof fn lemma_empty_batch_short_circuit(s: PumpView)
    requires
        well_formed(s),
        s.phase is Reading,
    ensures
        next_action(s, Signal::EmptyBatch) is Pause,
        next_state(s, Signal::EmptyBatch).phase is Idle,
        next_state(s, Signal::EmptyBatch).failures == s.failures,
        next_state(s, Signal::EmptyBatch).cursor == s.cursor,
{
}

/// A delivery is asked for only when a batch that holds an event was read and
/// prepared.
pub proof fn lemma_deliver_only_ready_batch(s: PumpView, signal: Signal)
    requires
        next_action(s, signal) is Deliver,
    ensures
        s.phase is Reading,
        signal is BatchReady,
        next_action(s, signal) == (ActionView::Deliver { body: signal->body }),
{
}

/// Backoff has two tiers and no more: each failure in its turn counts one up;
/// the failure that brings the count to the threshold is followed by the
/// extended pause and sets the count back to zero, every other by the plain
/// pause.
pub proof fn lemma_failure_counts_or_escalates(s: PumpView, signal: Signal)
    requires
        well_formed(s),
        in_turn(s.phase, signal),
        is_failure(signal),
    ensures
        next_state(s, signal).phase is Idle,
        next_state(s, signal).cursor == s.cursor,
        s.failures + 1 < s.threshold ==> next_state(s, signal).failures == s.failures + 1
            && next_action(s, signal) == (ActionView::Pause { extended: false }),
        s.failures + 1 == s.threshold ==> next_state(s, signal).failures == 0 && next_action(
            s,
            signal,
        ) == (ActionView::Pause { extended: true }),
{
}

/// A delivery clears the failure count and moves the cursor to the highest id
/// of the batch.
pub proof fn lemma_delivery_advances(s: PumpView)
    requires
        well_formed(s),
        s.phase is Delivering,
    ensures
        next_state(s, Signal::Delivered).phase is Idle,
        next_state(s, Signal::Delivered).failures == 0,
        next_state(s, Signal::Delivered).cursor >= s.cursor,
        next_state(s, Signal::Delivered).cursor >= s.phase->max_id,
        s.threshold > 0 ==> next_action(s, Signal::Delivered) == (ActionView::Pause {
            extended: false,
        }),
{
}

} // verus!
