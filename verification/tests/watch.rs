use stopwatch::channel::EventQueue;
use stopwatch::clock::{Moment, Span};
use stopwatch::event::TimerEvent;
use stopwatch::render::{lap_report, status_line, Action, Stopwatch};

const SECOND: u128 = 1_000_000_000;

fn at(millis: u128) -> Moment {
    Moment::from_nanos(millis * 1_000_000)
}

#[test]
fn a_new_stopwatch_runs_with_no_lap() {
    let watch = Stopwatch::new(at(250));
    assert!(watch.is_running());
    assert_eq!(watch.round(), 0);
    assert_eq!(watch.start(), at(250));
    assert_eq!(watch.last_lap(), at(250));
}

#[test]
fn the_status_line_sets_the_round_in_four_columns() {
    assert_eq!(status_line(0, Span::from_millis(0)), "   0:  00:00.0s");
    assert_eq!(status_line(7, Span::from_millis(61_500)), "   7:  01:01.5s");
    assert_eq!(status_line(42, Span::from_millis(100)), "  42:  00:00.1s");
    assert_eq!(status_line(999, Span::from_millis(0)), " 999:  00:00.0s");
    assert_eq!(status_line(1000, Span::from_millis(0)), "1000:  00:00.0s");
    assert_eq!(status_line(12_345, Span::from_millis(0)), "12345:  00:00.0s");
    assert_eq!(
        status_line(u32::MAX, Span::from_millis(3_600_000)),
        "4294967295:  60:00.0s"
    );
}

#[test]
fn the_lap_report_is_a_break_and_a_line() {
    assert_eq!(lap_report(Span::from_millis(1_500)), "\r\nLap:   00:01.5s \r\n");
    assert_eq!(lap_report(Span::from_millis(0)), "\r\nLap:   00:00.0s \r\n");
}

#[test]
fn a_tick_redraws_and_changes_nothing() {
    let mut watch = Stopwatch::new(at(1_000));
    let action = watch.handle(TimerEvent::Tick, at(62_500));
    assert_eq!(action, Action::Redraw(String::from("   0:  01:01.5s")));
    assert!(watch.is_running());
    assert_eq!(watch.round(), 0);
    assert_eq!(watch.start(), at(1_000));
    assert_eq!(watch.last_lap(), at(1_000));
}

#[test]
fn a_lap_is_counted_and_measured_from_the_lap_before() {
    let mut watch = Stopwatch::new(at(0));
    let first = watch.handle(TimerEvent::Lap, at(1_500));
    assert_eq!(first, Action::Report(String::from("\r\nLap:   00:01.5s \r\n")));
    assert_eq!(watch.round(), 1);
    assert_eq!(watch.last_lap(), at(1_500));
    assert_eq!(watch.start(), at(0));
    let second = watch.handle(TimerEvent::Lap, at(4_000));
    assert_eq!(second, Action::Report(String::from("\r\nLap:   00:02.5s \r\n")));
    assert_eq!(watch.round(), 2);
    assert_eq!(watch.last_lap(), at(4_000));
    let tick = watch.handle(TimerEvent::Tick, at(5_000));
    assert_eq!(tick, Action::Redraw(String::from("   2:  00:05.0s")));
}

#[test]
fn laps_one_after_the_other_are_all_counted() {
    let mut watch = Stopwatch::new(at(0));
    let laps: u32 = 25;
    for lap in 1..=laps {
        let now = at(u128::from(lap) * 700);
        let action = watch.handle(TimerEvent::Lap, now);
        assert_eq!(action, Action::Report(String::from("\r\nLap:   00:00.7s \r\n")));
        assert_eq!(watch.round(), lap);
        assert_eq!(watch.last_lap(), now);
    }
    assert_eq!(watch.round(), laps);
    assert!(watch.is_running());
}

#[test]
fn no_laps_leave_the_round_at_zero() {
    let mut watch = Stopwatch::new(at(0));
    watch.handle(TimerEvent::Tick, at(50));
    watch.handle(TimerEvent::Tick, at(100));
    assert_eq!(watch.round(), 0);
}

#[test]
fn a_lap_at_the_reading_of_the_lap_before_is_zero_long() {
    let mut watch = Stopwatch::new(at(300));
    let action = watch.handle(TimerEvent::Lap, at(300));
    assert_eq!(action, Action::Report(String::from("\r\nLap:   00:00.0s \r\n")));
    let action = watch.handle(TimerEvent::Lap, at(200));
    assert_eq!(action, Action::Report(String::from("\r\nLap:   00:00.0s \r\n")));
    assert_eq!(watch.last_lap(), at(200));
    assert_eq!(watch.round(), 2);
}

#[test]
fn a_lap_keeps_the_nanoseconds_of_both_readings() {
    let mut watch = Stopwatch::new(Moment::from_nanos(0));
    watch.handle(TimerEvent::Lap, Moment::from_nanos(SECOND - 1));
    let action = watch.handle(TimerEvent::Lap, Moment::from_nanos(SECOND + 99_999_999));
    assert_eq!(action, Action::Report(String::from("\r\nLap:   00:00.1s \r\n")));
}

#[test]
fn a_stop_quits_and_nothing_changes_afterwards() {
    let mut watch = Stopwatch::new(at(0));
    watch.handle(TimerEvent::Lap, at(1_000));
    assert_eq!(watch.handle(TimerEvent::Stop, at(2_000)), Action::Quit);
    assert!(!watch.is_running());
    assert_eq!(watch.round(), 1);
    assert_eq!(watch.last_lap(), at(1_000));
    assert_eq!(watch.handle(TimerEvent::Lap, at(3_000)), Action::Quit);
    assert_eq!(watch.handle(TimerEvent::Tick, at(4_000)), Action::Quit);
    assert_eq!(watch.handle(TimerEvent::Stop, at(5_000)), Action::Quit);
    assert!(!watch.is_running());
    assert_eq!(watch.round(), 1);
    assert_eq!(watch.last_lap(), at(1_000));
    assert_eq!(watch.start(), at(0));
}

#[test]
fn every_event_can_be_handled_below_the_limit_of_the_counter() {
    let mut watch = Stopwatch::new(at(0));
    assert!(watch.can_handle(TimerEvent::Tick));
    assert!(watch.can_handle(TimerEvent::Lap));
    assert!(watch.can_handle(TimerEvent::Stop));
    watch.handle(TimerEvent::Stop, at(1));
    assert!(watch.can_handle(TimerEvent::Lap));
}

#[test]
fn tick_lap_tick_stop_end_to_end() {
    let mut queue = EventQueue::new();
    for event in [
        TimerEvent::Tick,
        TimerEvent::Lap,
        TimerEvent::Tick,
        TimerEvent::Stop,
    ] {
        queue.send(event).unwrap();
    }
    let mut watch = Stopwatch::new(at(0));
    let mut actions = Vec::new();
    let mut turns: u128 = 0;
    while watch.is_running() {
        turns += 1;
        let event = queue.peek().unwrap();
        assert!(watch.can_handle(event));
        actions.push(watch.serve(&mut queue, at(turns * 1_000)).unwrap());
    }
    assert_eq!(turns, 4);
    assert_eq!(
        actions,
        vec![
            Action::Redraw(String::from("   0:  00:01.0s")),
            Action::Report(String::from("\r\nLap:   00:02.0s \r\n")),
            Action::Redraw(String::from("   1:  00:03.0s")),
            Action::Quit,
        ]
    );
    let lap_lines = actions
        .iter()
        .filter(|action| matches!(action, Action::Report(_)))
        .count();
    assert_eq!(lap_lines, 1);
    assert_eq!(watch.round(), 1);
    assert!(!watch.is_running());
    assert!(!queue.is_connected());
}

#[test]
fn what_is_queued_behind_a_stop_is_never_handled() {
    let mut queue = EventQueue::new();
    for event in [
        TimerEvent::Lap,
        TimerEvent::Stop,
        TimerEvent::Lap,
        TimerEvent::Tick,
        TimerEvent::Lap,
    ] {
        queue.send(event).unwrap();
    }
    let mut watch = Stopwatch::new(at(0));
    assert!(matches!(watch.serve(&mut queue, at(100)), Some(Action::Report(_))));
    assert_eq!(queue.len(), 4);
    assert_eq!(watch.serve(&mut queue, at(200)), Some(Action::Quit));
    assert!(!watch.is_running());
    assert!(queue.is_empty());
    assert!(!queue.is_connected());
    assert_eq!(watch.serve(&mut queue, at(300)), None);
    assert_eq!(watch.round(), 1);
    assert_eq!(watch.last_lap(), at(100));
    assert!(queue.send(TimerEvent::Lap).is_err());
    assert_eq!(watch.serve(&mut queue, at(400)), None);
    assert_eq!(watch.round(), 1);
}

#[test]
fn the_end_of_the_stream_ends_the_run() {
    let mut queue = EventQueue::new();
    queue.send(TimerEvent::Lap).unwrap();
    queue.hang_up();
    let mut watch = Stopwatch::new(at(0));
    assert_eq!(
        watch.serve(&mut queue, at(500)),
        Some(Action::Report(String::from("\r\nLap:   00:00.5s \r\n")))
    );
    assert!(watch.is_running());
    assert!(queue.is_connected());
    assert_eq!(watch.serve(&mut queue, at(600)), Some(Action::Quit));
    assert!(!watch.is_running());
    assert!(!queue.is_connected());
    assert_eq!(watch.round(), 1);
    assert_eq!(watch.last_lap(), at(500));
    assert_eq!(watch.serve(&mut queue, at(700)), None);
}

#[test]
fn a_turn_with_nothing_pending_does_nothing() {
    let mut queue = EventQueue::new();
    let mut watch = Stopwatch::new(at(0));
    assert_eq!(watch.serve(&mut queue, at(100)), None);
    assert!(watch.is_running());
    assert!(queue.is_connected());
    assert_eq!(watch.round(), 0);
}

#[test]
fn a_stopped_stopwatch_shuts_the_queue_it_is_given() {
    let mut watch = Stopwatch::new(at(0));
    watch.handle(TimerEvent::Stop, at(10));
    let mut queue = EventQueue::new();
    queue.send(TimerEvent::Lap).unwrap();
    assert_eq!(watch.serve(&mut queue, at(20)), None);
    assert!(!queue.is_connected());
    assert!(queue.is_empty());
    assert_eq!(watch.round(), 0);
}
