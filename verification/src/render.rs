//! The display loop's state machine: what the stopwatch holds, how each event
//! changes it, and what the terminal is to show for it.

use crate::channel::{EventQueue, QueueState, Received};
use crate::clock::{
    decimal, elapsed, format_duration, formatted, lap_delta, pad_left, push_padded, Moment, Span,
};
use crate::event::TimerEvent;
use vstd::prelude::*;

verus! {

/// The status line: the number of laps so far, set to the right in four
/// columns, a colon and a space, and the elapsed time.
pub open spec fn status_text(round: nat, elapsed: Span) -> Seq<char> {
    pad_left(decimal(round), 4, ' ') + seq![':', ' '] + formatted(elapsed)
}

/// The report of a finished lap: a line break, then a line of its own with
/// the label `Lap:`, two spaces, the lap's time and a space.
pub open spec fn lap_text(delta: Span) -> Seq<char> {
    seq!['\r', '\n', 'L', 'a', 'p', ':', ' ', ' '] + formatted(delta) + seq![' ', '\r', '\n']
}

/// The text of the status line for `round` laps and `elapsed` time.
pub fn status_line(round: u32, elapsed: Span) -> (line: String)
    ensures
        line@ == status_text(round as nat, elapsed),
{
    proof {
        reveal_strlit(" ");
        reveal_strlit(": ");
    }
    let mut line = String::new();
    push_padded(&mut line, round as u128, 4, " ");
    line.append(": ");
    let time = format_duration(elapsed);
    line.append(time.as_str());
    assert(line@ =~= status_text(round as nat, elapsed));
    line
}

/// The text that reports a lap of length `delta`.
pub fn lap_report(delta: Span) -> (report: String)
    ensures
        report@ == lap_text(delta),
{
    proof {
        reveal_strlit("\r\nLap:  ");
        reveal_strlit(" \r\n");
    }
    let mut report = String::new();
    report.append("\r\nLap:  ");
    let time = format_duration(delta);
    report.append(time.as_str());
    report.append(" \r\n");
    assert(report@ =~= lap_text(delta));
    report
}

/// What the terminal is to do for an event.
#[derive(Debug, PartialEq, Eq)]
pub enum Action {
    /// Write this status line over the one that is shown, in place: the
    /// cursor ends where it was and no new line begins.
    Redraw(String),
    /// Write this lap report, which moves the status line one line down.
    Report(String),
    /// Leave the display loop.
    Quit,
}

/// An [`Action`] as contracts see it.
pub enum Output {
    /// The status line to write in place.
    Redraw(Seq<char>),
    /// The lap report to write.
    Report(Seq<char>),
    /// Leave the display loop.
    Quit,
}

impl View for Action {
    type V = Output;

    open spec fn view(&self) -> Output {
        match self {
            Action::Redraw(line) => Output::Redraw(line@),
            Action::Report(report) => Output::Report(report@),
            Action::Quit => Output::Quit,
        }
    }
}

/// What a stopwatch holds, as contracts see it.
pub struct WatchState {
    /// The reading at which the stopwatch was started.
    pub start: Moment,
    /// The reading at which the last lap was handled; `start` before the first.
    pub last_lap: Moment,
    /// The number of laps handled so far.
    pub round: nat,
    /// Whether the display loop still runs.
    pub running: bool,
}

impl WatchState {
    /// The stopwatch as it is started at the reading `now`.
    pub open spec fn fresh(now: Moment) -> WatchState {
        WatchState { start: now, last_lap: now, round: 0, running: true }
    }

    /// The stopwatch after it has handled `event` at the reading `now`. A
    /// tick changes nothing. A lap is counted and begins the next lap at
    /// `now`. A stop ends the run, and a stopwatch that has stopped stays as
    /// it is whatever comes.
    pub open spec fn after(self, event: TimerEvent, now: Moment) -> WatchState {
        if !self.running {
            self
        } else {
            match event {
                TimerEvent::Tick => self,
                TimerEvent::Lap => WatchState {
                    start: self.start,
                    last_lap: now,
                    round: self.round + 1,
                    running: true,
                },
                TimerEvent::Stop => WatchState {
                    start: self.start,
                    last_lap: self.last_lap,
                    round: self.round,
                    running: false,
                },
            }
        }
    }

    /// What the terminal is to do when the stopwatch handles `event` at the
    /// reading `now`. A tick draws the status line with the laps counted so
    /// far and the time since the start. A lap reports the time since the
    /// lap before it was handled, or since the start for the first. A stop
    /// quits, and so does any event once the stopwatch has stopped.
    pub open spec fn reaction(self, event: TimerEvent, now: Moment) -> Output {
        if !self.running {
            Output::Quit
        } else {
            match event {
                TimerEvent::Tick => Output::Redraw(
                    status_text(self.round, now.span_since(self.start)),
                ),
                TimerEvent::Lap => Output::Report(lap_text(now.span_since(self.last_lap))),
                TimerEvent::Stop => Output::Quit,
            }
        }
    }

    /// Whether the lap counter has room for `event`: only a lap on a running
    /// stopwatch needs any.
    pub open spec fn accepts(self, event: TimerEvent) -> bool {
        self.running && event == TimerEvent::Lap ==> self.round < u32::MAX
    }

    /// The stopwatch with its run ended.
    pub open spec fn halted(self) -> WatchState {
        WatchState {
            start: self.start,
            last_lap: self.last_lap,
            round: self.round,
            running: false,
        }
    }

    /// The stopwatch after one turn of the display loop at the reading `now`,
    /// with `queue` to read from. A running stopwatch handles the oldest
    /// pending event, if there is one, and ends its run at the end of the
    /// stream; a stopped one reads nothing.
    pub open spec fn served(self, queue: QueueState, now: Moment) -> WatchState {
        if self.running {
            match queue.next() {
                Received::Event(event) => self.after(event, now),
                Received::Empty => self,
                Received::End => self.halted(),
            }
        } else {
            self
        }
    }

    /// The queue after that turn. It has lost the event that was handled;
    /// and once the stopwatch has stopped the queue is disconnected, with all
    /// that was still pending thrown away unread.
    pub open spec fn served_queue(self, queue: QueueState, now: Moment) -> QueueState {
        if self.served(queue, now).running {
            queue.received()
        } else {
            queue.disconnected()
        }
    }

    /// What the terminal is to do for that turn: nothing where nothing was
    /// read, and to quit at the end of the stream.
    pub open spec fn served_reaction(self, queue: QueueState, now: Moment) -> Option<Output> {
        if self.running {
            match queue.next() {
                Received::Event(event) => Some(self.reaction(event, now)),
                Received::Empty => None,
                Received::End => Some(Output::Quit),
            }
        } else {
            None
        }
    }
}

/// The state that the display loop owns: when it started, when the last lap
/// was handled, how many laps there were, and whether it still runs.
pub struct Stopwatch {
    start: Moment,
    last_lap: Moment,
    round: u32,
    running: bool,
}

impl View for Stopwatch {
    type V = WatchState;

    closed spec fn view(&self) -> WatchState {
        WatchState {
            start: self.start,
            last_lap: self.last_lap,
            round: self.round as nat,
            running: self.running,
        }
    }
}

impl Stopwatch {
    /// A stopwatch started at the reading `now`: running, with no lap yet.
    pub fn new(now: Moment) -> (watch: Stopwatch)
        ensures
            watch@ == WatchState::fresh(now),
    {
        Stopwatch { start: now, last_lap: now, round: 0, running: true }
    }

    /// Whether `handle` can take `event`: it can but for a lap when the lap
    /// counter is at its limit.
    pub fn can_handle(&self, event: TimerEvent) -> (accepted: bool)
        ensures
            accepted == self@.accepts(event),
            self@.round <= u32::MAX,
    {
        match event {
            TimerEvent::Lap => !self.running || self.round < u32::MAX,
            _ => true,
        }
    }

    /// Handles one event at the clock reading `now`: the stopwatch moves on
    /// as [`WatchState::after`] says, and the result is what the terminal is
    /// to do for it, as [`WatchState::reaction`] says.
    pub fn handle(&mut self, event: TimerEvent, now: Moment) -> (action: Action)
        requires
            old(self)@.accepts(event),
        ensures
            final(self)@ == old(self)@.after(event, now),
            action@ == old(self)@.reaction(event, now),
    {
        if !self.running {
            return Action::Quit;
        }
        match event {
            TimerEvent::Tick => {
                let shown = elapsed(&self.start, &now);
                Action::Redraw(status_line(self.round, shown))
            },
            TimerEvent::Lap => {
                let delta = lap_delta(&self.last_lap, &now);
                self.last_lap = now;
                self.round = self.round + 1;
                Action::Report(lap_report(delta))
            },
            TimerEvent::Stop => {
                self.running = false;
                Action::Quit
            },
        }
    }

    /// One turn of the display loop at the clock reading `now`. A running
    /// stopwatch takes the oldest pending event out of `queue` and handles
    /// it; the result is what the terminal is to do for it, and `None` where
    /// nothing was pending. At the end of the stream the run ends as with a
    /// stop. When the stopwatch stops, or has stopped before, the queue is
    /// disconnected: no event behind a stop is ever read.
    pub fn serve(&mut self, queue: &mut EventQueue, now: Moment) -> (action: Option<Action>)
        requires
            old(self)@.running && old(queue)@.pending.len() > 0 ==> old(self)@.accepts(
                old(queue)@.pending[0],
            ),
        ensures
            final(self)@ == old(self)@.served(old(queue)@, now),
            final(queue)@ == old(self)@.served_queue(old(queue)@, now),
            match action {
                Some(action) => Some(action@) == old(self)@.served_reaction(old(queue)@, now),
                None => old(self)@.served_reaction(old(queue)@, now) is None,
            },
    {
        if !self.running {
            queue.disconnect();
            return None;
        }
        match queue.receive() {
            Received::Event(event) => {
                let action = self.handle(event, now);
                if !self.running {
                    queue.disconnect();
                }
                Some(action)
            },
            Received::Empty => None,
            Received::End => {
                self.running = false;
                queue.disconnect();
                Some(Action::Quit)
            },
        }
    }

    /// The number of laps handled so far.
    pub fn round(&self) -> (round: u32)
        ensures
            round == self@.round,
    {
        self.round
    }

    /// Whether the display loop still runs: true until a stop is handled.
    pub fn is_running(&self) -> (running: bool)
        ensures
            running == self@.running,
    {
        self.running
    }

    /// The reading at which the stopwatch was started.
    pub fn start(&self) -> (start: Moment)
        ensures
            start == self@.start,
    {
        self.start
    }

    /// The reading at which the last lap was handled, or the start if there
    /// was none.
    pub fn last_lap(&self) -> (last_lap: Moment)
        ensures
            last_lap == self@.last_lap,
    {
        self.last_lap
    }
}

} // verus!
