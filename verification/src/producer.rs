//! The two producers of events: the ticker, which asks for a redraw at a
//! fixed pace, and the keyboard, which asks for laps and for the stop. Each
//! function here is one round of a producer's endless loop; the waiting
//! between the rounds is the caller's.

use crate::channel::{SendError, EventQueue};
use crate::event::{interpret, meaning, Input, TimerEvent};
use vstd::prelude::*;

verus! {

/// The pause between two ticks, in milliseconds.
pub const TICK_INTERVAL_MILLIS: u64 = 50;

/// One round of the ticker: it sends a tick and says how many milliseconds
/// to sleep before the next round. The pause is always the same; nothing
/// makes up for the time that the round itself took. The ticker ends only
/// when the queue takes no more sends.
pub fn tick(queue: &mut EventQueue) -> (pause: Result<u64, SendError>)
    ensures
        final(queue)@ == old(queue)@.sent(TimerEvent::Tick),
        pause is Ok <==> old(queue)@.takes(),
        pause matches Ok(millis) ==> millis == TICK_INTERVAL_MILLIS,
        pause matches Err(undelivered) ==> undelivered.event == TimerEvent::Tick,
{
    match queue.send(TimerEvent::Tick) {
        Ok(()) => Ok(TICK_INTERVAL_MILLIS),
        Err(undelivered) => Err(undelivered),
    }
}

/// One round of the keyboard producer: it sends the event that `input`
/// stands for. An input that stands for none is dropped without a trace, and
/// the round succeeds. It fails only when there is an event to send and the
/// queue does not take it.
pub fn forward(input: &Input, queue: &mut EventQueue) -> (outcome: Result<(), SendError>)
    ensures
        final(queue)@ == match meaning(*input) {
            Some(event) => old(queue)@.sent(event),
            None => old(queue)@,
        },
        outcome is Err <==> meaning(*input) is Some && !old(queue)@.takes(),
        outcome matches Err(undelivered) ==> Some(undelivered.event) == meaning(*input),
{
    match interpret(input) {
        Some(event) => queue.send(event),
        None => Ok(()),
    }
}

} // verus!
