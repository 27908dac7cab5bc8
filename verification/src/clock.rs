//! Clock arithmetic: readings of a monotonic clock, the spans between them,
//! and the text in which a span is shown.

use vstd::prelude::*;

verus! {

/// Nanoseconds in one millisecond.
pub const NANOS_PER_MILLI: u128 = 1_000_000;

/// Nanoseconds in one second.
pub const NANOS_PER_SEC: u128 = 1_000_000_000;

/// A reading of a monotonic clock: whole nanoseconds since the clock's origin.
#[derive(Clone, Copy, Debug, PartialEq, Eq, Structural)]
pub struct Moment {
    pub nanos: u128,
}

/// A length of time in whole nanoseconds. It is never negative.
#[derive(Clone, Copy, Debug, PartialEq, Eq, Structural)]
pub struct Span {
    pub nanos: u128,
}

impl Moment {
    /// The reading `nanos` nanoseconds after the clock's origin.
    pub fn from_nanos(nanos: u128) -> (moment: Moment)
        ensures
            moment.nanos == nanos,
    {
        Moment { nanos }
    }

    /// The time from `earlier` to `self`; zero where `earlier` is not earlier.
    pub open spec fn span_since(self, earlier: Moment) -> Span {
        if self.nanos >= earlier.nanos {
            Span { nanos: (self.nanos - earlier.nanos) as u128 }
        } else {
            Span { nanos: 0 }
        }
    }

    /// The time that has passed from `earlier` to `self`. A clock that does
    /// not run backwards never reads less than it read before; should
    /// `earlier` be the later reading all the same, the span is zero.
    pub fn since(&self, earlier: &Moment) -> (span: Span)
        ensures
            span == self.span_since(*earlier),
            self.nanos >= earlier.nanos ==> earlier.nanos + span.nanos == self.nanos,
    {
        if self.nanos >= earlier.nanos {
            Span { nanos: self.nanos - earlier.nanos }
        } else {
            Span { nanos: 0 }
        }
    }
}

/// The time elapsed at the reading `now` on a stopwatch started at `start`.
pub fn elapsed(start: &Moment, now: &Moment) -> (span: Span)
    ensures
        span == now.span_since(*start),
{
    now.since(start)
}

/// The length, at the reading `now`, of the lap that began at `last_lap`.
pub fn lap_delta(last_lap: &Moment, now: &Moment) -> (span: Span)
    ensures
        span == now.span_since(*last_lap),
{
    now.since(last_lap)
}

impl Span {
    /// The span of `nanos` nanoseconds.
    pub fn from_nanos(nanos: u128) -> (span: Span)
        ensures
            span.nanos == nanos,
    {
        Span { nanos }
    }

    /// The span of `millis` milliseconds.
    pub fn from_millis(millis: u64) -> (span: Span)
        ensures
            span.nanos == millis * NANOS_PER_MILLI,
            span.millis() == millis,
    {
        let wide: u128 = millis as u128;
        Span { nanos: wide * NANOS_PER_MILLI }
    }

    /// The whole milliseconds in the span.
    pub open spec fn millis(self) -> nat {
        (self.nanos / NANOS_PER_MILLI) as nat
    }

    /// The whole seconds in the span.
    pub open spec fn secs(self) -> nat {
        (self.nanos / NANOS_PER_SEC) as nat
    }

    /// The whole minutes in the span. They are not wrapped into hours.
    pub open spec fn minutes(self) -> nat {
        self.secs() / 60
    }

    /// The whole seconds past the last whole minute: less than 60.
    pub open spec fn seconds_of_minute(self) -> nat {
        self.secs() % 60
    }

    /// The whole tenths of a second past the last whole second: the
    /// milliseconds past that second, cut down to a multiple of 100.
    pub open spec fn tenths(self) -> nat {
        self.millis() % 1000 / 100
    }

    /// The whole milliseconds in the span.
    pub fn as_millis(&self) -> (millis: u128)
        ensures
            millis == self.millis(),
    {
        self.nanos / NANOS_PER_MILLI
    }

    /// The whole seconds in the span.
    pub fn as_secs(&self) -> (secs: u128)
        ensures
            secs == self.secs(),
    {
        self.nanos / NANOS_PER_SEC
    }
}

/// The character that shows the digit `d`, for `d` below ten.
pub open spec fn digit_char(d: nat) -> char {
    ('0' as nat + d) as char
}

/// Whether `c` is one of the ten decimal digits.
pub open spec fn is_digit(c: char) -> bool {
    '0' <= c <= '9'
}

/// The number that the digit `c` shows.
pub open spec fn digit_value(c: char) -> nat {
    (c as nat - '0' as nat) as nat
}

/// The decimal numeral of `n`: no sign, and no leading zero but for `0` itself.
pub open spec fn decimal(n: nat) -> Seq<char>
    decreases n,
{
    if n < 10 {
        seq![digit_char(n)]
    } else {
        decimal(n / 10).push(digit_char(n % 10))
    }
}

/// The number that a string of decimal digits shows; 0 for the empty string.
pub open spec fn number_of(digits: Seq<char>) -> nat
    decreases digits.len(),
{
    if digits.len() == 0 {
        0
    } else {
        number_of(digits.drop_last()) * 10 + digit_value(digits.last())
    }
}

/// `text` filled on the left with `fill` up to `width` characters, and left
/// as it is where it is at least that long.
pub open spec fn pad_left(text: Seq<char>, width: nat, fill: char) -> Seq<char> {
    if text.len() >= width {
        text
    } else {
        Seq::new((width - text.len()) as nat, |i: int| fill) + text
    }
}

/// The text of a span: a space, the minutes in two digits or more, a colon,
/// the seconds of the minute in two digits, a point, the tenths of a second
/// in one digit, and the letter `s`.
pub open spec fn formatted(span: Span) -> Seq<char> {
    seq![' '] + pad_left(decimal(span.minutes()), 2, '0') + seq![':'] + pad_left(
        decimal(span.seconds_of_minute()),
        2,
        '0',
    ) + seq!['.'] + decimal(span.tenths()) + seq!['s']
}

/// The one-character string that shows the digit `d`.
fn digit_str(d: u8) -> (text: &'static str)
    requires
        d < 10,
    ensures
        text@ == seq![digit_char(d as nat)],
{
    proof {
        reveal_strlit("0");
        reveal_strlit("1");
        reveal_strlit("2");
        reveal_strlit("3");
        reveal_strlit("4");
        reveal_strlit("5");
        reveal_strlit("6");
        reveal_strlit("7");
        reveal_strlit("8");
        reveal_strlit("9");
    }
    let text: &'static str = match d {
        0 => "0",
        1 => "1",
        2 => "2",
        3 => "3",
        4 => "4",
        5 => "5",
        6 => "6",
        7 => "7",
        8 => "8",
        _ => "9",
    };
    assert(text@ =~= seq![digit_char(d as nat)]);
    text
}

/// Appends the decimal numeral of `n` to `out`.
fn push_decimal(out: &mut String, n: u128)
    ensures
        final(out)@ == old(out)@ + decimal(n as nat),
    decreases n,
{
    if n >= 10 {
        push_decimal(out, n / 10);
    }
    let last: u8 = (n % 10) as u8;
    out.append(digit_str(last));
    assert(out@ =~= old(out)@ + decimal(n as nat));
}

/// Appends the decimal numeral of `n` to `out`, filled on the left with the
/// character of `fill` up to `width` characters.
pub(crate) fn push_padded(out: &mut String, n: u128, width: usize, fill: &str)
    requires
        fill@.len() == 1,
    ensures
        final(out)@ == old(out)@ + pad_left(decimal(n as nat), width as nat, fill@[0]),
{
    let ghost before = out@;
    let mut numeral = String::new();
    push_decimal(&mut numeral, n);
    let digits: usize = numeral.as_str().unicode_len();
    if digits < width {
        let missing: usize = width - digits;
        let mut filled: usize = 0;
        while filled < missing
            invariant
                filled <= missing,
                fill@.len() == 1,
                out@ == before + Seq::new(filled as nat, |i: int| fill@[0]),
            decreases missing - filled,
        {
            out.append(fill);
            filled += 1;
            assert(out@ =~= before + Seq::new(filled as nat, |i: int| fill@[0]));
        }
    }
    out.append(numeral.as_str());
    assert(out@ =~= before + pad_left(decimal(n as nat), width as nat, fill@[0]));
}

/// The text in which a span is shown, as [`formatted`] gives it: for a span
/// of 61.5 seconds, ` 01:01.5s`.
pub fn format_duration(duration: Span) -> (text: String)
    ensures
        text@ == formatted(duration),
{
    let secs: u128 = duration.as_secs();
    let millis: u128 = duration.as_millis();
    let minutes: u128 = secs / 60;
    let seconds: u128 = secs % 60;
    let tenths: u128 = millis % 1000 / 100;
    proof {
        reveal_strlit(" ");
        reveal_strlit("0");
        reveal_strlit(":");
        reveal_strlit(".");
        reveal_strlit("s");
    }
    let mut text = String::new();
    text.append(" ");
    push_padded(&mut text, minutes, 2, "0");
    text.append(":");
    push_padded(&mut text, seconds, 2, "0");
    text.append(".");
    push_decimal(&mut text, tenths);
    text.append("s");
    assert(text@ =~= formatted(duration));
    text
}

/// A numeral is made of digits alone, has one digit for a number below ten
/// and two for one below a hundred, begins with a zero only where it is `0`
/// itself, and shows the number it was made from.
pub proof fn lemma_decimal_reads_back(n: nat)
    ensures
        decimal(n).len() >= 1,
        forall|i: int| 0 <= i < decimal(n).len() ==> is_digit(#[trigger] decimal(n)[i]),
        number_of(decimal(n)) == n,
        n < 10 <==> decimal(n).len() == 1,
        n < 100 <==> decimal(n).len() <= 2,
        n > 0 ==> decimal(n)[0] != '0',
    decreases n,
{
    if n < 10 {
        assert(decimal(n).drop_last() =~= Seq::<char>::empty());
        assert(number_of(decimal(n).drop_last()) == 0);
    } else {
        lemma_decimal_reads_back(n / 10);
        assert(decimal(n).drop_last() =~= decimal(n / 10));
    }
}

/// A numeral filled with zeros on the left is still made of digits alone and
/// still shows the same number, in `width` characters or as many as the
/// numeral has, if these are more.
pub proof fn lemma_zero_padded_reads_back(n: nat, width: nat)
    ensures
        pad_left(decimal(n), width, '0').len() == if decimal(n).len() >= width {
            decimal(n).len()
        } else {
            width
        },
        forall|i: int|
            0 <= i < pad_left(decimal(n), width, '0').len() ==> is_digit(
                #[trigger] pad_left(decimal(n), width, '0')[i],
            ),
        number_of(pad_left(decimal(n), width, '0')) == n,
{
    lemma_decimal_reads_back(n);
    let numeral = decimal(n);
    if numeral.len() < width {
        lemma_leading_zeros(((width - numeral.len()) as nat), numeral);
    }
}

/// Zeros in front of a string of digits do not change the number it shows.
proof fn lemma_leading_zeros(count: nat, digits: Seq<char>)
    ensures
        number_of(Seq::new(count, |i: int| '0') + digits) == number_of(digits),
    decreases digits.len(),
{
    let zeros = Seq::new(count, |i: int| '0');
    if digits.len() == 0 {
        assert(zeros + digits =~= zeros);
        lemma_zeros_show_nothing(count);
    } else {
        lemma_leading_zeros(count, digits.drop_last());
        assert((zeros + digits).drop_last() =~= zeros + digits.drop_last());
    }
}

/// A string of zeros shows the number 0.
proof fn lemma_zeros_show_nothing(count: nat)
    ensures
        number_of(Seq::new(count, |i: int| '0')) == 0,
    decreases count,
{
    if count > 0 {
        lemma_zeros_show_nothing((count - 1) as nat);
        assert(Seq::new(count, |i: int| '0').drop_last() =~= Seq::new(
            (count - 1) as nat,
            |i: int| '0',
        ));
    }
}

/// The shape of every formatted span. Read from the right, the text ends in
/// `s`, one digit that is the span's milliseconds modulo 1000 divided by 100,
/// a point, two digits that show the seconds below 60, and a colon; what is
/// left after the leading space is the minutes, in two digits or more, all of
/// them: minutes are not wrapped at 60.
pub proof fn lemma_format_shape(span: Span)
    ensures
        ({
            let text = formatted(span);
            let end = text.len() as int;
            let minutes = text.subrange(1, end - 6);
            let seconds = text.subrange(end - 5, end - 3);
            &&& end >= 9
            &&& text[0] == ' '
            &&& minutes.len() >= 2
            &&& minutes == pad_left(decimal(span.minutes()), 2, '0')
            &&& forall|i: int| 0 <= i < minutes.len() ==> is_digit(#[trigger] minutes[i])
            &&& number_of(minutes) == span.minutes()
            &&& text[end - 6] == ':'
            &&& is_digit(seconds[0])
            &&& is_digit(seconds[1])
            &&& number_of(seconds) == span.seconds_of_minute()
            &&& span.seconds_of_minute() < 60
            &&& text[end - 3] == '.'
            &&& is_digit(text[end - 2])
            &&& digit_value(text[end - 2]) == span.millis() % 1000 / 100
            &&& text[end - 1] == 's'
        }),
{
    let text = formatted(span);
    let end = text.len() as int;
    let minutes = pad_left(decimal(span.minutes()), 2, '0');
    let seconds = pad_left(decimal(span.seconds_of_minute()), 2, '0');
    let tenths = decimal(span.tenths());
    lemma_zero_padded_reads_back(span.minutes(), 2);
    lemma_zero_padded_reads_back(span.seconds_of_minute(), 2);
    lemma_decimal_reads_back(span.seconds_of_minute());
    lemma_decimal_reads_back(span.tenths());
    assert(end == minutes.len() + 7);
    assert(text.subrange(1, end - 6) =~= minutes);
    assert(text.subrange(end - 5, end - 3) =~= seconds);
    assert(text[end - 2] == tenths[0]);
}

} // verus!
