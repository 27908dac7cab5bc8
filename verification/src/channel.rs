//! The queue of events between the producers and the display loop: without
//! bound, first in first out, and with an end on either side that can be
//! given up.

use crate::event::TimerEvent;
use std::collections::VecDeque;
use vstd::prelude::*;

verus! {

/// What a receiver finds in a queue.
#[derive(Clone, Copy, Debug, PartialEq, Eq, Structural)]
pub enum Received {
    /// The event that had been pending longest.
    Event(TimerEvent),
    /// Nothing is pending, but a producer may still send: a receiver that
    /// wants an event has to wait.
    Empty,
    /// Nothing is pending and nothing will come: every producer has hung up.
    End,
}

/// What a queue holds, as contracts see it.
pub struct QueueState {
    /// The events sent and not yet received, the oldest first.
    pub pending: Seq<TimerEvent>,
    /// Whether the receiving end still listens.
    pub connected: bool,
    /// Whether there is still a producer that may send.
    pub open: bool,
}

impl QueueState {
    /// What holds of every queue: once its receiving end is gone it holds
    /// nothing.
    pub open spec fn wf(self) -> bool {
        !self.connected ==> self.pending.len() == 0
    }

    /// Whether a send is taken: there is a receiver to take it and the
    /// producers have not hung up.
    pub open spec fn takes(self) -> bool {
        self.connected && self.open
    }

    /// The queue after a send of `event`: with `event` behind all that was
    /// pending where the send is taken, and as it was where it is not.
    pub open spec fn sent(self, event: TimerEvent) -> QueueState {
        if self.takes() {
            QueueState {
                pending: self.pending.push(event),
                connected: self.connected,
                open: self.open,
            }
        } else {
            self
        }
    }

    /// What the receiver finds next.
    pub open spec fn next(self) -> Received {
        if self.pending.len() > 0 {
            Received::Event(self.pending[0])
        } else if self.open {
            Received::Empty
        } else {
            Received::End
        }
    }

    /// The queue after the receiver has been to it: without its oldest
    /// event, if it had one.
    pub open spec fn received(self) -> QueueState {
        if self.pending.len() > 0 {
            QueueState {
                pending: self.pending.drop_first(),
                connected: self.connected,
                open: self.open,
            }
        } else {
            self
        }
    }

    /// The queue after `events` were sent into it, one after the other.
    pub open spec fn sent_all(self, events: Seq<TimerEvent>) -> QueueState
        decreases events.len(),
    {
        if events.len() == 0 {
            self
        } else {
            self.sent(events[0]).sent_all(events.drop_first())
        }
    }

    /// The queue after the receiver has been to it `count` times.
    pub open spec fn received_times(self, count: nat) -> QueueState
        decreases count,
    {
        if count == 0 {
            self
        } else {
            self.received().received_times((count - 1) as nat)
        }
    }

    /// The queue after its receiving end has gone: it holds nothing.
    pub open spec fn disconnected(self) -> QueueState {
        QueueState { pending: Seq::empty(), connected: false, open: self.open }
    }

    /// The queue after its producers have hung up: what is pending stays.
    pub open spec fn hung_up(self) -> QueueState {
        QueueState { pending: self.pending, connected: self.connected, open: false }
    }
}

/// A send that was not taken, because the receiving end is gone or the
/// producers have hung up.
#[derive(Clone, Copy, Debug, PartialEq, Eq, Structural)]
pub struct SendError {
    /// The event that was not delivered.
    pub event: TimerEvent,
}

/// The queue through which the producers reach the display loop.
///
/// Events leave in the order in which they came, whoever sent them; none is
/// dropped and none is merged with another. The queue has no bound, so a
/// send never waits. Once the receiving end has disconnected, the queue
/// holds nothing and takes nothing.
pub struct EventQueue {
    /// The pending events, the oldest in front; `None` once disconnected.
    pending: Option<VecDeque<TimerEvent>>,
    /// Whether there is still a producer that may send.
    open: bool,
}

impl View for EventQueue {
    type V = QueueState;

    closed spec fn view(&self) -> QueueState {
        match self.pending {
            Some(events) => QueueState { pending: events@, connected: true, open: self.open },
            None => QueueState { pending: Seq::empty(), connected: false, open: self.open },
        }
    }
}

impl EventQueue {
    /// An empty queue with both ends in place.
    pub fn new() -> (queue: EventQueue)
        ensures
            queue@.pending.len() == 0,
            queue@.connected,
            queue@.open,
    {
        EventQueue { pending: Some(VecDeque::new()), open: true }
    }

    /// Puts `event` behind all the events that are pending. This fails only
    /// where the receiving end is gone or the producers have hung up; the
    /// event then comes back in the error and the queue is as it was.
    pub fn send(&mut self, event: TimerEvent) -> (outcome: Result<(), SendError>)
        ensures
            final(self)@ == old(self)@.sent(event),
            outcome is Ok <==> old(self)@.takes(),
            outcome matches Err(undelivered) ==> undelivered.event == event,
    {
        if !self.open {
            return Err(SendError { event });
        }
        match &mut self.pending {
            Some(events) => {
                events.push_back(event);
                Ok(())
            },
            None => Err(SendError { event }),
        }
    }

    /// Takes out the event that has been pending longest. Where none is
    /// pending the result tells an empty queue, at which a receiver waits,
    /// from the end of the stream, which comes only when the producers have
    /// hung up.
    pub fn receive(&mut self) -> (found: Received)
        ensures
            found == old(self)@.next(),
            final(self)@ == old(self)@.received(),
    {
        let taken = match &mut self.pending {
            Some(events) => {
                let ghost before = events@;
                let taken = events.pop_front();
                proof {
                    if taken is Some {
                        assert(events@ =~= before.drop_first());
                    }
                }
                taken
            },
            None => None,
        };
        match taken {
            Some(event) => Received::Event(event),
            None => if self.open {
                Received::Empty
            } else {
                Received::End
            },
        }
    }

    /// The event that `receive` would take out next, left where it is.
    pub fn peek(&self) -> (event: Option<TimerEvent>)
        ensures
            event is Some <==> self@.pending.len() > 0,
            event matches Some(oldest) ==> oldest == self@.pending[0],
    {
        match &self.pending {
            Some(events) => {
                if events.len() > 0 {
                    Some(events[0])
                } else {
                    None
                }
            },
            None => None,
        }
    }

    /// Gives up the receiving end: what is pending is thrown away, and every
    /// later `send` fails.
    pub fn disconnect(&mut self)
        ensures
            final(self)@ == old(self)@.disconnected(),
    {
        self.pending = None;
    }

    /// Gives up the sending end, when the last producer has gone: what is
    /// pending can still be received, and behind it the stream ends.
    pub fn hang_up(&mut self)
        ensures
            final(self)@ == old(self)@.hung_up(),
    {
        self.open = false;
    }

    /// The number of pending events.
    pub fn len(&self) -> (count: usize)
        ensures
            count == self@.pending.len(),
    {
        match &self.pending {
            Some(events) => events.len(),
            None => 0,
        }
    }

    /// Whether no event is pending.
    pub fn is_empty(&self) -> (empty: bool)
        ensures
            empty <==> self@.pending.len() == 0,
    {
        self.len() == 0
    }

    /// Whether the receiving end still listens.
    pub fn is_connected(&self) -> (connected: bool)
        ensures
            connected == self@.connected,
    {
        self.pending.is_some()
    }

    /// Whether there is still a producer that may send.
    pub fn is_open(&self) -> (open: bool)
        ensures
            open == self@.open,
    {
        self.open
    }

    /// Every queue is well formed: one whose receiving end is gone holds
    /// nothing.
    pub proof fn lemma_well_formed(&self)
        ensures
            self@.wf(),
    {
    }
}

/// Sending puts events behind what is pending, in the order of the sends.
pub proof fn lemma_sent_all_appends(queue: QueueState, events: Seq<TimerEvent>)
    requires
        queue.takes(),
    ensures
        queue.sent_all(events).connected,
        queue.sent_all(events).open,
        queue.sent_all(events).pending == queue.pending + events,
    decreases events.len(),
{
    if events.len() == 0 {
        assert(queue.pending + events =~= queue.pending);
    } else {
        lemma_sent_all_appends(queue.sent(events[0]), events.drop_first());
        assert(queue.pending.push(events[0]) + events.drop_first() =~= queue.pending + events);
    }
}

/// Receiving takes events from the front: after `count` events were taken
/// out, what is pending is what was pending without its first `count`.
pub proof fn lemma_received_times_skips(queue: QueueState, count: nat)
    requires
        count <= queue.pending.len(),
    ensures
        queue.received_times(count).connected == queue.connected,
        queue.received_times(count).open == queue.open,
        queue.received_times(count).pending == queue.pending.skip(count as int),
    decreases count,
{
    if count == 0 {
        assert(queue.pending.skip(0) =~= queue.pending);
    } else {
        lemma_received_times_skips(queue.received(), (count - 1) as nat);
        assert(queue.pending.drop_first().skip(count - 1) =~= queue.pending.skip(count as int));
    }
}

/// First in, first out: the events leave in the order in which they are
/// pending. The receive that follows `position` others finds the event at
/// `position`.
pub proof fn lemma_receive_in_order(queue: QueueState, position: nat)
    requires
        position < queue.pending.len(),
    ensures
        queue.received_times(position).next() == Received::Event(queue.pending[position as int]),
{
    lemma_received_times_skips(queue, position);
}

/// The stream ends only behind the last pending event, and only when the
/// producers have hung up: after every pending event was received, the
/// receiver finds the end if they have, and an empty queue if they have not.
pub proof fn lemma_end_comes_last(queue: QueueState)
    ensures
        queue.received_times(queue.pending.len()).next() == if queue.open {
            Received::Empty
        } else {
            Received::End
        },
        forall|count: nat|
            count < queue.pending.len() ==> #[trigger] queue.received_times(count).next()
                is Event,
{
    lemma_received_times_skips(queue, queue.pending.len());
    assert forall|count: nat| count < queue.pending.len() implies #[trigger] queue.received_times(
        count,
    ).next() is Event by {
        lemma_receive_in_order(queue, count);
    }
}

/// The queue keeps the order of the sends. Where `earlier` is sent before
/// `later`, whatever others send in between, `earlier` is received before
/// `later`: each at the place at which it was sent, and these places are in
/// the order of the sends. No event is dropped on the way and none is added.
pub proof fn lemma_send_order_is_receive_order(
    queue: QueueState,
    earlier: TimerEvent,
    between: Seq<TimerEvent>,
    later: TimerEvent,
)
    requires
        queue.takes(),
    ensures
        ({
            let filled = queue.sent(earlier).sent_all(between).sent(later);
            let place_of_earlier = queue.pending.len();
            let place_of_later = queue.pending.len() + 1 + between.len();
            &&& filled.pending.len() == queue.pending.len() + between.len() + 2
            &&& place_of_earlier < place_of_later
            &&& filled.received_times(place_of_earlier).next() == Received::Event(earlier)
            &&& filled.received_times(place_of_later).next() == Received::Event(later)
        }),
{
    let filled = queue.sent(earlier).sent_all(between).sent(later);
    lemma_sent_all_appends(queue.sent(earlier), between);
    assert(filled.pending =~= (queue.pending.push(earlier) + between).push(later));
    lemma_receive_in_order(filled, queue.pending.len());
    lemma_receive_in_order(filled, queue.pending.len() + 1 + between.len());
}

} // verus!
