//! The core of a terminal stopwatch: clock arithmetic and the text of the
//! display, the event queue between the producers and the display loop, and
//! the display loop's state machine.

pub mod channel;
pub mod clock;
pub mod event;
pub mod producer;
pub mod render;
pub mod trace;
