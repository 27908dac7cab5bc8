use stopwatch::clock::{elapsed, format_duration, lap_delta, Moment, Span};

#[test]
fn zero_is_all_zeros() {
    assert_eq!(format_duration(Span::from_millis(0)), " 00:00.0s");
}

#[test]
fn a_minute_and_a_second_and_a_half() {
    assert_eq!(format_duration(Span::from_millis(61_500)), " 01:01.5s");
}

#[test]
fn minutes_are_not_wrapped_at_sixty() {
    assert_eq!(format_duration(Span::from_millis(3_600_000)), " 60:00.0s");
}

#[test]
fn minutes_take_the_digits_they_need() {
    assert_eq!(format_duration(Span::from_millis(6_000_000)), " 100:00.0s");
    assert_eq!(format_duration(Span::from_millis(599_999)), " 09:59.9s");
    assert_eq!(format_duration(Span::from_millis(600_000)), " 10:00.0s");
    assert_eq!(
        format_duration(Span::from_millis(u64::MAX)),
        " 307445734561825:51.6s"
    );
}

#[test]
fn tenths_are_cut_off_not_rounded() {
    assert_eq!(format_duration(Span::from_millis(99)), " 00:00.0s");
    assert_eq!(format_duration(Span::from_millis(100)), " 00:00.1s");
    assert_eq!(format_duration(Span::from_millis(199)), " 00:00.1s");
    assert_eq!(format_duration(Span::from_millis(999)), " 00:00.9s");
    assert_eq!(format_duration(Span::from_millis(59_999)), " 00:59.9s");
    assert_eq!(format_duration(Span::from_millis(60_000)), " 01:00.0s");
}

#[test]
fn nanoseconds_below_a_tenth_do_not_show() {
    assert_eq!(format_duration(Span::from_nanos(99_999_999)), " 00:00.0s");
    assert_eq!(format_duration(Span::from_nanos(100_000_000)), " 00:00.1s");
    assert_eq!(format_duration(Span::from_nanos(1_999_999_999)), " 00:01.9s");
}

#[test]
fn the_largest_span_is_formatted() {
    // u128::MAX nanoseconds are 340282366920938463463374607431 whole seconds.
    assert_eq!(
        format_duration(Span::from_nanos(u128::MAX)),
        " 5671372782015641057722910123:51.7s"
    );
}

#[test]
fn every_text_has_the_same_shape() {
    let samples: [u64; 9] = [0, 1, 99, 100, 59_999, 60_000, 61_500, 3_600_000, 86_399_999];
    for millis in samples {
        let text = format_duration(Span::from_millis(millis));
        let chars: Vec<char> = text.chars().collect();
        let end = chars.len();
        assert!(end >= 9);
        assert_eq!(chars[0], ' ');
        assert_eq!(chars[end - 1], 's');
        assert_eq!(chars[end - 3], '.');
        assert_eq!(chars[end - 6], ':');
        let minutes: String = chars[1..end - 6].iter().collect();
        let seconds: String = chars[end - 5..end - 3].iter().collect();
        let tenths: String = chars[end - 2..end - 1].iter().collect();
        assert!(minutes.len() >= 2);
        assert_eq!(minutes.parse::<u64>().unwrap(), millis / 60_000);
        assert_eq!(seconds.parse::<u64>().unwrap(), millis / 1000 % 60);
        assert!(seconds.parse::<u64>().unwrap() < 60);
        assert_eq!(tenths.parse::<u64>().unwrap(), millis % 1000 / 100);
    }
}

#[test]
fn span_units() {
    let span = Span::from_millis(61_500);
    assert_eq!(span.nanos, 61_500_000_000);
    assert_eq!(span.as_millis(), 61_500);
    assert_eq!(span.as_secs(), 61);
    assert_eq!(Span::from_nanos(1_999_999).as_millis(), 1);
    assert_eq!(Span::from_nanos(999_999_999).as_secs(), 0);
}

#[test]
fn the_span_between_two_readings() {
    let early = Moment::from_nanos(1_000);
    let late = Moment::from_nanos(4_500);
    assert_eq!(late.since(&early), Span::from_nanos(3_500));
    assert_eq!(late.since(&late), Span::from_nanos(0));
    assert_eq!(elapsed(&early, &late), Span::from_nanos(3_500));
    assert_eq!(lap_delta(&early, &late), Span::from_nanos(3_500));
}

#[test]
fn a_clock_that_ran_backwards_gives_zero() {
    let early = Moment::from_nanos(1_000);
    let late = Moment::from_nanos(4_500);
    assert_eq!(early.since(&late), Span::from_nanos(0));
    assert_eq!(elapsed(&late, &early), Span::from_nanos(0));
    assert_eq!(lap_delta(&late, &early), Span::from_nanos(0));
}
