//! Times of day.

use chrono::Timelike;
use vstd::prelude::*;

verus! {

/// Seconds in a day.
pub const DAY_SECS: u32 = 86_400;

/// Nanoseconds in a second.
pub const SECOND_NANOS: u32 = 1_000_000_000;

/// A time of day: whole seconds since midnight and a fraction in nanoseconds, which passes one
/// second only within a leap second.
#[derive(Clone, Copy, Debug, PartialEq, Eq, Structural)]
pub struct TimeOfDay {
    secs: u32,
    frac: u32,
}

/// `n / d`, rounded towards zero.
pub open spec fn quotient(n: int, d: int) -> int {
    if n >= 0 {
        n / d
    } else {
        -((-n) / d)
    }
}

/// Nanoseconds from `(b_secs, b_frac)` to `(a_secs, a_frac)`. Where the earlier of the two lies in
/// a leap second, and the other in another second, that leap second is counted.
pub open spec fn nanos_between(a_secs: int, a_frac: int, b_secs: int, b_frac: int) -> int {
    let leap: int = if a_secs > b_secs && b_frac >= SECOND_NANOS {
        1
    } else if a_secs < b_secs && a_frac >= SECOND_NANOS {
        -1
    } else {
        0
    };
    (a_secs - b_secs + leap) * SECOND_NANOS + a_frac - b_frac
}

pub open spec fn digit(n: int) -> char {
    (n % 10 + 48) as char
}

/// Hour and minute as `HH:MM`.
pub open spec fn hour_minute_text(secs: int) -> Seq<char> {
    let h = secs / 3600;
    let m = secs / 60 % 60;
    seq![digit(h / 10), digit(h), ':', digit(m / 10), digit(m)]
}

/// White space, as Unicode has it.
pub open spec fn blank(c: char) -> bool {
    let n = c as u32;
    ||| 0x09 <= n <= 0x0D || n == 0x20 || n == 0x85 || n == 0xA0 || n == 0x1680
    ||| 0x2000 <= n <= 0x200A || n == 0x2028 || n == 0x2029 || n == 0x202F || n == 0x205F
    ||| n == 0x3000
}

/// `text` without the white space in front.
pub open spec fn after_blanks(text: Seq<char>) -> Seq<char>
    decreases text.len(),
{
    if text.len() > 0 && blank(text[0]) {
        after_blanks(text.drop_first())
    } else {
        text
    }
}

pub open spec fn is_digit(c: char) -> bool {
    48 <= c as u32 <= 57
}

/// How many of the first two characters are digits, up to the first that is none.
pub open spec fn digits(text: Seq<char>) -> int {
    if text.len() == 0 || !is_digit(text[0]) {
        0
    } else if text.len() == 1 || !is_digit(text[1]) {
        1
    } else {
        2
    }
}

/// The number in these digits.
pub open spec fn leading_number(text: Seq<char>) -> int {
    if digits(text) == 2 {
        10 * (text[0] as u32 - 48) + (text[1] as u32 - 48)
    } else {
        text[0] as u32 - 48
    }
}

/// The seconds since midnight that a text gives as an hour, a colon and a minute: one or two digits
/// each, white space in front of either. `None` where the text reads otherwise, or there is no such
/// time.
pub open spec fn parsed_hour_minute(text: Seq<char>) -> Option<u32> {
    let hour = after_blanks(text);
    let rest = hour.skip(digits(hour));
    let minute = after_blanks(rest.drop_first());
    if {
        &&& digits(hour) > 0 && leading_number(hour) < 24
        &&& rest.len() > 0 && rest[0] == ':'
        &&& digits(minute) > 0 && leading_number(minute) < 60
        &&& minute.len() == digits(minute)
    } {
        Some((leading_number(hour) * 3600 + leading_number(minute) * 60) as u32)
    } else {
        None
    }
}

/// `chrono::NaiveTime::signed_duration_since`, in whole seconds as `chrono::TimeDelta::num_seconds`
/// gives them: the distance between two times of day, rounded towards zero.
#[verifier::external_body]
fn chrono_seconds_between(a_secs: u32, a_frac: u32, b_secs: u32, b_frac: u32) -> (r: i64)
    requires
        a_secs < DAY_SECS,
        b_secs < DAY_SECS,
        a_frac < 2 * SECOND_NANOS,
        b_frac < 2 * SECOND_NANOS,
    ensures
        r == quotient(
            nanos_between(a_secs as int, a_frac as int, b_secs as int, b_frac as int),
            SECOND_NANOS as int,
        ),
{
    let a = chrono::NaiveTime::from_num_seconds_from_midnight_opt(a_secs, 0).unwrap();
    let b = chrono::NaiveTime::from_num_seconds_from_midnight_opt(b_secs, 0).unwrap();
    let a = a.with_nanosecond(a_frac).unwrap();
    let b = b.with_nanosecond(b_frac).unwrap();
    a.signed_duration_since(b).num_seconds()
}

/// `chrono::NaiveTime::from_hms_opt`: the seconds since midnight of an hour, minute and second of
/// the day, `None` where there is no such time.
#[verifier::external_body]
fn chrono_from_hms(hour: u32, min: u32, sec: u32) -> (r: Option<u32>)
    ensures
        match r {
            Some(secs) => hour < 24 && min < 60 && sec < 60 && secs == hour * 3600 + min * 60 + sec,
            None => !(hour < 24 && min < 60 && sec < 60),
        },
{
    let t = chrono::NaiveTime::from_hms_opt(hour, min, sec)?;
    Some(t.num_seconds_from_midnight())
}

/// `chrono::NaiveTime::format` with `%H:%M`: hour and minute, two digits each.
#[verifier::external_body]
fn chrono_hour_minute(secs: u32) -> (r: String)
    requires
        secs < DAY_SECS,
    ensures
        r@ == hour_minute_text(secs as int),
{
    let t = chrono::NaiveTime::from_num_seconds_from_midnight_opt(secs, 0).unwrap();
    t.format("%H:%M").to_string()
}

/// `chrono::NaiveTime::parse_from_str` with `%H:%M`, in seconds since midnight: hour and minute have
/// one or two digits, white space before either is passed over, and `None` stands for an error.
#[verifier::external_body]
fn chrono_parse_hour_minute(text: &str) -> (r: Option<u32>)
    ensures
        r == parsed_hour_minute(text@),
{
    match chrono::NaiveTime::parse_from_str(text, "%H:%M") {
        Ok(t) => Some(t.num_seconds_from_midnight()),
        Err(_) => None,
    }
}

/// A time of day is known by its seconds and its fraction.
pub proof fn lemma_at(secs: int, frac: int)
    requires
        0 <= secs < DAY_SECS,
        0 <= frac < 2 * SECOND_NANOS,
    ensures
        TimeOfDay::at(secs, frac).secs() == secs,
        TimeOfDay::at(secs, frac).frac() == frac,
{
}

impl TimeOfDay {
    #[verifier::type_invariant]
    spec fn within_day(self) -> bool {
        self.valid()
    }

    pub closed spec fn secs(self) -> int {
        self.secs as int
    }

    pub closed spec fn frac(self) -> int {
        self.frac as int
    }

    pub open spec fn valid(self) -> bool {
        0 <= self.secs() < DAY_SECS && 0 <= self.frac() < 2 * SECOND_NANOS
    }

    /// The time `secs` seconds and `frac` nanoseconds after midnight.
    pub closed spec fn at(secs: int, frac: int) -> TimeOfDay {
        TimeOfDay { secs: secs as u32, frac: frac as u32 }
    }

    /// `self < other`.
    pub open spec fn before(self, other: TimeOfDay) -> bool {
        self.secs() < other.secs() || (self.secs() == other.secs() && self.frac() < other.frac())
    }

    /// Whole seconds since `earlier`, rounded towards zero.
    pub open spec fn seconds_after(self, earlier: TimeOfDay) -> int {
        quotient(
            nanos_between(self.secs(), self.frac(), earlier.secs(), earlier.frac()),
            SECOND_NANOS as int,
        )
    }

    /// The time `secs` seconds and `frac` nanoseconds after midnight.
    pub fn new(secs: u32, frac: u32) -> (t: Option<TimeOfDay>)
        ensures
            match t {
                Some(t) => {
                    &&& t.valid() && t.secs() == secs && t.frac() == frac
                    &&& t == TimeOfDay::at(secs as int, frac as int)
                },
                None => secs >= DAY_SECS || frac >= 2 * SECOND_NANOS,
            },
    {
        if secs < DAY_SECS && frac < 2 * SECOND_NANOS {
            Some(TimeOfDay { secs, frac })
        } else {
            None
        }
    }

    /// The time at `hour`, `min` and `sec`.
    pub fn from_hms(hour: u32, min: u32, sec: u32) -> (t: Option<TimeOfDay>)
        ensures
            match t {
                Some(t) => {
                    &&& hour < 24 && min < 60 && sec < 60
                    &&& t.secs() == hour * 3600 + min * 60 + sec
                    &&& t.frac() == 0
                    &&& t == TimeOfDay::at(hour * 3600 + min * 60 + sec, 0)
                },
                None => !(hour < 24 && min < 60 && sec < 60),
            },
    {
        match chrono_from_hms(hour, min, sec) {
            Some(secs) => TimeOfDay::new(secs, 0),
            None => None,
        }
    }

    /// The time that `text` gives as hour and minute.
    pub fn parse_hour_minute(text: &str) -> (t: Option<TimeOfDay>)
        ensures
            match t {
                Some(t) => {
                    &&& parsed_hour_minute(text@) is Some
                    &&& t.valid()
                    &&& t.secs() == parsed_hour_minute(text@)->0
                    &&& t.secs() % 60 == 0
                    &&& t.frac() == 0
                },
                None => parsed_hour_minute(text@) is None,
            },
    {
        match chrono_parse_hour_minute(text) {
            Some(secs) => TimeOfDay::new(secs, 0),
            None => None,
        }
    }

    /// Hour and minute as text.
    pub fn hour_minute(self) -> (s: String)
        ensures
            s@ == hour_minute_text(self.secs()),
    {
        proof {
            use_type_invariant(self);
        }
        chrono_hour_minute(self.secs)
    }

    /// Whether `self < other`.
    pub fn is_before(self, other: TimeOfDay) -> (b: bool)
        ensures
            b == self.before(other),
    {
        self.secs < other.secs || (self.secs == other.secs && self.frac < other.frac)
    }

    /// Whole seconds since `earlier`.
    pub fn seconds_since(self, earlier: TimeOfDay) -> (n: i64)
        ensures
            n == self.seconds_after(earlier),
    {
        proof {
            use_type_invariant(self);
            use_type_invariant(earlier);
        }
        chrono_seconds_between(self.secs, self.frac, earlier.secs, earlier.frac)
    }
}

/// Time runs with the clock: the seconds between two times are the whole ones in their distance. The
/// distance is that of seconds and fractions, with a second more where it starts in a leap second and
/// ends in another second.
pub proof fn seconds_are_the_whole_ones_between(a: TimeOfDay, b: TimeOfDay)
    requires
        a.valid(),
        b.valid(),
    ensures
        ({
            let (from, to) = if a.before(b) {
                (a, b)
            } else {
                (b, a)
            };
            let leap = if from.frac() >= 1_000_000_000 && from.secs() != to.secs() {
                1_000_000_000int
            } else {
                0
            };
            let nanos = (to.secs() - from.secs()) * 1_000_000_000 + to.frac() - from.frac() + leap;
            let n = to.seconds_after(from);
            &&& nanos >= 0
            &&& n * 1_000_000_000 <= nanos < (n + 1) * 1_000_000_000
            &&& from.seconds_after(to) == -n
        }),
{
}

/// Times of day follow each other by their seconds and, within a second, by their fractions.
pub proof fn times_follow_each_other(a: TimeOfDay, b: TimeOfDay)
    ensures
        a.secs() < b.secs() ==> a.before(b) && !b.before(a),
        a.secs() == b.secs() ==> (a.before(b) <==> a.frac() < b.frac()),
        a.valid() <==> 0 <= a.secs() < 86_400 && 0 <= a.frac() < 2_000_000_000,
{
}

/// Hour and minute are shown with two digits each.
pub proof fn hour_and_minute_have_two_digits(secs: int)
    requires
        0 <= secs < 86_400,
    ensures
        ({
            let t = hour_minute_text(secs);
            let d = |i: int| t[i] as u32 - 48;
            &&& t.len() == 5 && t[2] == ':'
            &&& 0 <= d(0) <= 9 && 0 <= d(1) <= 9 && 0 <= d(3) <= 9 && 0 <= d(4) <= 9
            &&& secs - 60 < (10 * d(0) + d(1)) * 3600 + (10 * d(3) + d(4)) * 60 <= secs
            &&& 10 * d(3) + d(4) < 60
        }),
{
}

/// A time that is shown can be read back, to the minute.
pub proof fn shown_time_reads_back(secs: int)
    requires
        0 <= secs < 86_400,
    ensures
        parsed_hour_minute(hour_minute_text(secs)) == Some((secs - secs % 60) as u32),
{
    let t = hour_minute_text(secs);
    hour_and_minute_have_two_digits(secs);
    assert(t.skip(2).drop_first() =~= t.skip(3));
    assert(t.skip(3)[0] == t[3] && t.skip(3)[1] == t[4]);
    assert(after_blanks(t) == t);
    assert(after_blanks(t.skip(3)) == t.skip(3));
}

/// A digit may stand alone, white space in front of an hour or a minute does not count, and what is
/// read is a time of the day.
pub proof fn short_and_spaced_times_are_read(h: int, m: int, c: char, text: Seq<char>)
    requires
        0 <= h <= 9,
        0 <= m <= 9,
    ensures
        parsed_hour_minute(seq![(48 + h) as char, ':', (48 + m) as char]) == Some(
            (h * 3600 + m * 60) as u32,
        ),
        c == ' ' ==> parsed_hour_minute(seq![c] + text) == parsed_hour_minute(text),
        parsed_hour_minute(text) is Some ==> {
            &&& parsed_hour_minute(text)->0 < 86_400
            &&& parsed_hour_minute(text)->0 % 60 == 0
            &&& text.contains(':')
            &&& is_digit(text.last())
        },
        is_digit(c) <==> '0' as u32 <= c as u32 <= '9' as u32,
{
    let t = seq![(48 + h) as char, ':', (48 + m) as char];
    assert(after_blanks(t) == t);
    assert(t.skip(1).drop_first() =~= seq![(48 + m) as char]);
    let minute = t.skip(1).drop_first();
    assert(after_blanks(minute) == minute);
    if c == ' ' {
        assert((seq![c] + text).drop_first() =~= text);
    }
    if parsed_hour_minute(text) is Some {
        lemma_after_blanks(text);
        let hour = after_blanks(text);
        let rest = hour.skip(digits(hour));
        lemma_after_blanks(rest.drop_first());
        let k = text.len() - hour.len() + digits(hour);
        assert(text[k] == ':');
        assert(after_blanks(rest.drop_first()).last() == text.last());
    }
}

proof fn lemma_after_blanks(text: Seq<char>)
    ensures
        after_blanks(text).len() <= text.len(),
        after_blanks(text) == text.skip(text.len() - after_blanks(text).len()),
    decreases text.len(),
{
    if text.len() > 0 && blank(text[0]) {
        lemma_after_blanks(text.drop_first());
        let n = text.len() - after_blanks(text).len();
        assert(text.drop_first().skip(n - 1) =~= text.skip(n));
    } else {
        assert(text.skip(0) =~= text);
    }
}

} // verus!
