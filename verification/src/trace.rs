//! Whole runs of the display loop: what a sequence of events, each with the
//! clock reading at which it is handled, makes of a stopwatch.

use crate::channel::QueueState;
use crate::clock::Moment;
use crate::event::TimerEvent;
use crate::render::{lap_text, Output, WatchState};
use vstd::prelude::*;

verus! {

/// The stopwatch after it has handled the events of `trace` in order, each
/// at the reading that stands beside it.
pub open spec fn run(from: WatchState, trace: Seq<(TimerEvent, Moment)>) -> WatchState
    decreases trace.len(),
{
    if trace.len() == 0 {
        from
    } else {
        run(from, trace.drop_last()).after(trace.last().0, trace.last().1)
    }
}

/// Whether a stop is among the events of `trace`.
pub open spec fn has_stop(trace: Seq<(TimerEvent, Moment)>) -> bool {
    exists|i: int| 0 <= i < trace.len() && (#[trigger] trace[i]).0 == TimerEvent::Stop
}

/// The number of laps in `trace` that no stop comes before.
pub open spec fn laps_before_stop(trace: Seq<(TimerEvent, Moment)>) -> nat
    decreases trace.len(),
{
    if trace.len() == 0 {
        0
    } else if trace.last().0 == TimerEvent::Lap && !has_stop(trace.drop_last()) {
        laps_before_stop(trace.drop_last()) + 1
    } else {
        laps_before_stop(trace.drop_last())
    }
}

/// The reading at which the last lap of `trace` that no stop comes before is
/// handled, and `otherwise` where there is no such lap.
pub open spec fn latest_lap(otherwise: Moment, trace: Seq<(TimerEvent, Moment)>) -> Moment
    decreases trace.len(),
{
    if trace.len() == 0 {
        otherwise
    } else if trace.last().0 == TimerEvent::Lap && !has_stop(trace.drop_last()) {
        trace.last().1
    } else {
        latest_lap(otherwise, trace.drop_last())
    }
}

/// The reading at which the lap before the event at `index` was handled,
/// in a trace of laps alone: the reading of the event before it, and for the
/// first event the reading that the stopwatch came with.
pub open spec fn lap_began(from: WatchState, trace: Seq<(TimerEvent, Moment)>, index: int) -> Moment {
    if index == 0 {
        from.last_lap
    } else {
        trace[index - 1].1
    }
}

/// Handling one trace and then another is handling the two as one.
pub proof fn lemma_run_concat(
    from: WatchState,
    first: Seq<(TimerEvent, Moment)>,
    second: Seq<(TimerEvent, Moment)>,
)
    ensures
        run(from, first + second) == run(run(from, first), second),
    decreases second.len(),
{
    if second.len() == 0 {
        assert(first + second =~= first);
    } else {
        lemma_run_concat(from, first, second.drop_last());
        assert((first + second).drop_last() =~= first + second.drop_last());
    }
}

/// The start of a stopwatch never changes, and a running stopwatch stops
/// exactly when a stop is among the events.
pub proof fn lemma_run_keeps_start(from: WatchState, trace: Seq<(TimerEvent, Moment)>)
    ensures
        run(from, trace).start == from.start,
        run(from, trace).running == (from.running && !has_stop(trace)),
    decreases trace.len(),
{
    if trace.len() > 0 {
        let head = trace.drop_last();
        lemma_run_keeps_start(from, head);
        if has_stop(head) {
            let i = choose|i: int| 0 <= i < head.len() && (#[trigger] head[i]).0 == TimerEvent::Stop;
            assert(trace[i].0 == TimerEvent::Stop);
        }
        if trace.last().0 == TimerEvent::Stop {
            assert(trace[trace.len() - 1].0 == TimerEvent::Stop);
        }
        if has_stop(trace) && !has_stop(head) {
            let i = choose|i: int|
                0 <= i < trace.len() && (#[trigger] trace[i]).0 == TimerEvent::Stop;
            if i < head.len() {
                assert(head[i].0 == TimerEvent::Stop);
            }
        }
    }
}

/// The lap counter counts the laps handled: after any run of a stopwatch
/// that came running, it has grown by the number of laps in the trace that
/// no stop comes before. On a stopwatch fresh from its start it is that
/// number.
pub proof fn lemma_round_counts_laps(from: WatchState, trace: Seq<(TimerEvent, Moment)>)
    requires
        from.running,
    ensures
        run(from, trace).round == from.round + laps_before_stop(trace),
    decreases trace.len(),
{
    if trace.len() > 0 {
        lemma_round_counts_laps(from, trace.drop_last());
        lemma_run_keeps_start(from, trace.drop_last());
    }
}

/// The stopwatch remembers when the last lap was handled: after any run of a
/// stopwatch that came running, its `last_lap` is the reading at which the
/// last lap was handled that no stop came before, and what it was where
/// there was none. It is a reading of the display loop, taken when the lap
/// is handled; when the lap was sent plays no part.
pub proof fn lemma_last_lap_is_latest(from: WatchState, trace: Seq<(TimerEvent, Moment)>)
    requires
        from.running,
    ensures
        run(from, trace).last_lap == latest_lap(from.last_lap, trace),
    decreases trace.len(),
{
    if trace.len() > 0 {
        lemma_last_lap_is_latest(from, trace.drop_last());
        lemma_run_keeps_start(from, trace.drop_last());
    }
}

/// A stopwatch that has stopped is never changed again: whatever events
/// still come, it stays as the stop left it, and the answer to each is to
/// quit.
pub proof fn lemma_stopped_stays(from: WatchState, trace: Seq<(TimerEvent, Moment)>)
    requires
        !from.running,
    ensures
        run(from, trace) == from,
        forall|i: int|
            0 <= i < trace.len() ==> #[trigger] run(from, trace.take(i)).reaction(
                trace[i].0,
                trace[i].1,
            ) == Output::Quit,
    decreases trace.len(),
{
    if trace.len() > 0 {
        lemma_stopped_stays(from, trace.drop_last());
    }
    assert forall|i: int| 0 <= i < trace.len() implies #[trigger] run(
        from,
        trace.take(i),
    ).reaction(trace[i].0, trace[i].1) == Output::Quit by {
        lemma_run_keeps_start(from, trace.take(i));
    }
}

/// Nothing is handled after a stop. Once the events of `head` and then a
/// stop have been handled, the stopwatch has stopped, and the events of
/// `rest` behind the stop change nothing, however many were queued.
pub proof fn lemma_nothing_after_stop(
    from: WatchState,
    head: Seq<(TimerEvent, Moment)>,
    at: Moment,
    rest: Seq<(TimerEvent, Moment)>,
)
    ensures
        !run(from, head.push((TimerEvent::Stop, at))).running,
        run(from, head.push((TimerEvent::Stop, at)) + rest) == run(
            from,
            head.push((TimerEvent::Stop, at)),
        ),
        run(from, head.push((TimerEvent::Stop, at))).round == run(from, head).round,
{
    let stopped = head.push((TimerEvent::Stop, at));
    assert(stopped.drop_last() =~= head);
    lemma_run_concat(from, stopped, rest);
    lemma_stopped_stays(run(from, stopped), rest);
}

/// Laps one after the other. Let a running stopwatch handle a trace that
/// holds laps and nothing else. Then the lap counter grows by the length of
/// the trace, so from a fresh stopwatch it is that length; and the lap at
/// each place is reported with the time from the reading at which the lap
/// before it was handled (for the first, the reading the stopwatch came
/// with) to the reading at which it is handled itself. No reading of any
/// sender enters; the time is never negative, and it is the plain difference
/// of the two readings wherever the clock has not run backwards.
pub proof fn lemma_consecutive_laps(from: WatchState, trace: Seq<(TimerEvent, Moment)>)
    requires
        from.running,
        forall|i: int| 0 <= i < trace.len() ==> (#[trigger] trace[i]).0 == TimerEvent::Lap,
    ensures
        run(from, trace).running,
        run(from, trace).round == from.round + trace.len(),
        run(from, trace).last_lap == lap_began(from, trace, trace.len() as int),
        forall|i: int|
            0 <= i < trace.len() ==> {
                let before = #[trigger] run(from, trace.take(i));
                let delta = trace[i].1.span_since(lap_began(from, trace, i));
                &&& before.round == from.round + i
                &&& before.last_lap == lap_began(from, trace, i)
                &&& before.reaction(trace[i].0, trace[i].1) == Output::Report(lap_text(delta))
                &&& delta.nanos >= 0
                &&& trace[i].1.nanos >= lap_began(from, trace, i).nanos ==> delta.nanos
                    == trace[i].1.nanos - lap_began(from, trace, i).nanos
            },
    decreases trace.len(),
{
    if trace.len() > 0 {
        let head = trace.drop_last();
        lemma_consecutive_laps(from, head);
        assert forall|i: int| 0 <= i < trace.len() implies {
            let before = #[trigger] run(from, trace.take(i));
            let delta = trace[i].1.span_since(lap_began(from, trace, i));
            &&& before.round == from.round + i
            &&& before.last_lap == lap_began(from, trace, i)
            &&& before.reaction(trace[i].0, trace[i].1) == Output::Report(lap_text(delta))
            &&& delta.nanos >= 0
            &&& trace[i].1.nanos >= lap_began(from, trace, i).nanos ==> delta.nanos
                == trace[i].1.nanos - lap_began(from, trace, i).nanos
        } by {
            if i < head.len() {
                assert(trace.take(i) =~= head.take(i));
                assert(trace[i] == head[i]);
                assert(lap_began(from, trace, i) == lap_began(from, head, i));
            } else {
                assert(trace.take(i) =~= head);
            }
        }
    }
}

/// The stopwatch and the queue after one turn of the display loop at each of
/// `readings`, in order.
pub open spec fn turns(watch: WatchState, queue: QueueState, readings: Seq<Moment>) -> (
    WatchState,
    QueueState,
)
    decreases readings.len(),
{
    if readings.len() == 0 {
        (watch, queue)
    } else {
        let (before, left) = turns(watch, queue, readings.drop_last());
        (before.served(left, readings.last()), before.served_queue(left, readings.last()))
    }
}

/// The events of `events` from the front, each with the reading of its turn:
/// as many as there are events and readings for.
pub open spec fn paired(events: Seq<TimerEvent>, readings: Seq<Moment>) -> Seq<
    (TimerEvent, Moment),
> {
    Seq::new(
        if events.len() <= readings.len() {
            events.len()
        } else {
            readings.len()
        },
        |i: int| (events[i], readings[i]),
    )
}

/// The display loop handles what is pending, in order and nothing else. Turn
/// by turn, a running stopwatch handles the pending events from the oldest
/// on, each at the reading of its turn, as [`run`] says; a turn that finds
/// nothing changes nothing, and a turn that finds the end of the stream ends
/// the run. While the stopwatch runs the queue has lost exactly the events
/// handled; once it has stopped the queue is disconnected and empty.
pub proof fn lemma_turns_follow_the_queue(
    watch: WatchState,
    queue: QueueState,
    readings: Seq<Moment>,
)
    requires
        watch.running,
    ensures
        ({
            let (after, left) = turns(watch, queue, readings);
            let handled = paired(queue.pending, readings);
            let ended = !queue.open && readings.len() > queue.pending.len();
            &&& after == if ended {
                run(watch, handled).halted()
            } else {
                run(watch, handled)
            }
            &&& after.running ==> left.pending == queue.pending.skip(handled.len() as int)
                && left.connected == queue.connected && left.open == queue.open
            &&& !after.running && readings.len() > 0 ==> left == queue.disconnected()
        }),
    decreases readings.len(),
{
    if readings.len() == 0 {
        assert(paired(queue.pending, readings) =~= Seq::empty());
        assert(queue.pending.skip(0) =~= queue.pending);
    } else {
        let head = readings.drop_last();
        let now = readings.last();
        lemma_turns_follow_the_queue(watch, queue, head);
        let (before, left) = turns(watch, queue, head);
        let handled_before = paired(queue.pending, head);
        let handled = paired(queue.pending, readings);
        if head.len() < queue.pending.len() {
            let event = queue.pending[head.len() as int];
            assert(handled =~= handled_before.push((event, now)));
            assert(handled.drop_last() =~= handled_before);
            if before.running {
                assert(left.pending.drop_first() =~= queue.pending.skip(handled.len() as int));
            }
        } else {
            assert(handled =~= handled_before);
        }
    }
}

} // verus!
