//! Cloud cover over the day.

use crate::clock::TimeOfDay;
use crate::number::{Number, ZERO_BITS};
use crate::text::text_second_piece;
use vstd::prelude::*;

verus! {

/// A share of the sky covered, `elapsed` seconds after sunrise.
#[derive(Clone, Copy, Debug, PartialEq, Eq, Structural)]
pub struct CloudPoint {
    pub elapsed: i64,
    pub cover: Number,
}

/// The cloud cover from sunrise to sunset, `day` seconds later.
#[derive(Debug)]
pub struct Forecast {
    pub day: i64,
    pub points: Vec<CloudPoint>,
}

/// A time of day as seconds and nanoseconds.
pub type Moment = (int, int);

pub open spec fn moment(t: TimeOfDay) -> Moment {
    (t.secs(), t.frac())
}

pub open spec fn earlier(a: Moment, b: Moment) -> bool {
    a.0 < b.0 || (a.0 == b.0 && a.1 < b.1)
}

pub open spec fn whole_seconds(a: Moment, b: Moment) -> int {
    crate::clock::quotient(
        crate::clock::nanos_between(a.0, a.1, b.0, b.1),
        crate::clock::SECOND_NANOS as int,
    )
}

pub open spec fn moments(times: Seq<Option<TimeOfDay>>) -> Seq<Option<Moment>> {
    times.map_values(
        |t: Option<TimeOfDay>|
            match t {
                Some(t) => Some(moment(t)),
                None => None::<Moment>,
            },
    )
}

pub open spec fn as_pairs(points: Seq<CloudPoint>) -> Seq<(int, Number)> {
    points.map_values(|p: CloudPoint| (p.elapsed as int, p.cover))
}

pub open spec fn zero() -> Number {
    Number { bits: ZERO_BITS }
}

/// The readings among the first `n` that are timed and lie between sunrise and sunset.
pub open spec fn daytime(
    times: Seq<Option<Moment>>,
    cover: Seq<Number>,
    sunrise: Moment,
    sunset: Moment,
    n: int,
) -> Seq<(int, Number)>
    decreases n,
{
    if n <= 0 {
        Seq::empty()
    } else {
        let before = daytime(times, cover, sunrise, sunset, n - 1);
        match times[n - 1] {
            Some(t) => if earlier(t, sunrise) || earlier(sunset, t) {
                before
            } else {
                before.push(
                    (
                        crate::solar::within(
                            whole_seconds(t, sunrise),
                            whole_seconds(sunset, sunrise),
                        ),
                        cover[n - 1],
                    ),
                )
            },
            None => before,
        }
    }
}

/// Starts the points at sunrise, unless the first lies within one percent of the day from there.
pub open spec fn from_sunrise(points: Seq<(int, Number)>, day: int) -> Seq<(int, Number)> {
    if points.len() == 0 {
        seq![(0, zero())]
    } else if points[0].0 * 100 > day {
        seq![(0, points[0].1)] + points
    } else {
        points
    }
}

/// Ends the points at sunset, unless the last lies within one percent of the day from there.
pub open spec fn to_sunset(points: Seq<(int, Number)>, day: int) -> Seq<(int, Number)> {
    if points.last().0 * 100 < day * 99 {
        points.push((day, points.last().1))
    } else {
        points
    }
}

pub open spec fn readings(times: Seq<Option<Moment>>, cover: Seq<Number>) -> int {
    if times.len() < cover.len() {
        times.len() as int
    } else {
        cover.len() as int
    }
}

/// The points of a forecast made from `cover` at `times`.
pub open spec fn forecast_points(
    times: Seq<Option<Moment>>,
    cover: Seq<Number>,
    sunrise: Moment,
    sunset: Moment,
) -> Seq<(int, Number)> {
    let day = whole_seconds(sunset, sunrise);
    to_sunset(
        from_sunrise(daytime(times, cover, sunrise, sunset, readings(times, cover)), day),
        day,
    )
}

/// Whether `f` is the forecast made from `cover` at `times`: there is one where the day lasts.
pub open spec fn is_forecast(
    f: Option<Forecast>,
    times: Seq<Option<Moment>>,
    cover: Seq<Number>,
    sunrise: Moment,
    sunset: Moment,
) -> bool {
    match f {
        Some(f) => {
            &&& f.day == whole_seconds(sunset, sunrise) > 0
            &&& as_pairs(f.points@) == forecast_points(times, cover, sunrise, sunset)
        },
        None => whole_seconds(sunset, sunrise) <= 0,
    }
}

/// The points lie in the day.
spec fn in_day(points: Seq<(int, Number)>, day: int) -> bool {
    forall|i: int| 0 <= i < points.len() ==> 0 <= (#[trigger] points[i]).0 <= day
}

proof fn lemma_daytime(
    times: Seq<Option<Moment>>,
    cover: Seq<Number>,
    sunrise: Moment,
    sunset: Moment,
    n: int,
)
    requires
        whole_seconds(sunset, sunrise) > 0,
    ensures
        in_day(
            daytime(times, cover, sunrise, sunset, n),
            whole_seconds(sunset, sunrise),
        ),
    decreases n,
{
    if n > 0 {
        lemma_daytime(times, cover, sunrise, sunset, n - 1);
    }
}

/// A forecast has points near both ends of the day and none outside it.
pub proof fn forecast_spans_the_day(
    times: Seq<Option<Moment>>,
    cover: Seq<Number>,
    sunrise: Moment,
    sunset: Moment,
)
    requires
        whole_seconds(sunset, sunrise) > 0,
    ensures
        ({
            let day = whole_seconds(sunset, sunrise);
            let points = forecast_points(times, cover, sunrise, sunset);
            &&& points.len() >= 2
            &&& points[0].0 * 100 <= day
            &&& points.last().0 * 100 >= day * 99
            &&& forall|i: int| 0 <= i < points.len() ==> 0 <= (#[trigger] points[i]).0 <= day
        }),
{
    lemma_daytime(times, cover, sunrise, sunset, readings(times, cover));
    let kept = daytime(times, cover, sunrise, sunset, readings(times, cover));
    let day = whole_seconds(sunset, sunrise);
    let started = from_sunrise(kept, day);
    assert(in_day(started, day));
    assert(in_day(to_sunset(started, day), day));
}

/// The forecast from `cover` at `times`.
pub fn build_forecast(
    times: &Vec<Option<TimeOfDay>>,
    cover: &Vec<Number>,
    sunrise: TimeOfDay,
    sunset: TimeOfDay,
) -> (f: Option<Forecast>)
    ensures
        is_forecast(f, moments(times@), cover@, moment(sunrise), moment(sunset)),
{
    let day: i64 = sunset.seconds_since(sunrise);
    if day <= 0 {
        return None;
    }
    let ghost (ts, rise, set) = (moments(times@), moment(sunrise), moment(sunset));
    let mut points: Vec<CloudPoint> = Vec::new();
    let mut i: usize = 0;
    assert(as_pairs(points@) =~= daytime(ts, cover@, rise, set, 0));
    while i < times.len() && i < cover.len()
        invariant
            i <= times@.len(),
            i <= cover@.len(),
            ts == moments(times@),
            rise == moment(sunrise),
            set == moment(sunset),
            day == whole_seconds(set, rise),
            day > 0,
            as_pairs(points@) == daytime(ts, cover@, rise, set, i as int),
        decreases times@.len() - i,
    {
        let ghost before = points@;
        if let Some(t) = times[i] {
            if !t.is_before(sunrise) && !sunset.is_before(t) {
                let e: i64 = t.seconds_since(sunrise);
                let elapsed: i64 = if e < 0 {
                    0
                } else if e > day {
                    day
                } else {
                    e
                };
                points.push(CloudPoint { elapsed, cover: cover[i] });
                assert(as_pairs(points@) =~= as_pairs(before).push((elapsed as int, cover@[i as int])));
            }
        }
        i = i + 1;
    }
    assert(i == readings(ts, cover@));
    let ghost kept = as_pairs(points@);
    proof {
        lemma_daytime(ts, cover@, rise, set, i as int);
    }
    if points.len() == 0 {
        points.push(CloudPoint { elapsed: 0, cover: Number { bits: ZERO_BITS } });
    } else {
        let first: CloudPoint = points[0];
        assert(kept[0].0 == first.elapsed);
        if first.elapsed > day / 100 {
            points.insert(0, CloudPoint { elapsed: 0, cover: first.cover });
        }
    }
    let ghost started = from_sunrise(kept, day as int);
    assert(as_pairs(points@) =~= started);
    let n: usize = points.len();
    let last: CloudPoint = points[n - 1];
    assert(started.last().0 == last.elapsed);
    if (last.elapsed as i128) * 100 < (day as i128) * 99 {
        points.push(CloudPoint { elapsed: day, cover: last.cover });
    }
    assert(as_pairs(points@) =~= to_sunset(started, day as int));
    Some(Forecast { day, points })
}

/// When a reading was taken: its time stands after a `T`.
pub open spec fn reading_time(stamp: Seq<char>) -> Option<Moment> {
    match crate::text::second_piece(stamp, 'T') {
        Some(text) => match crate::clock::parsed_hour_minute(text) {
            Some(secs) => Some((secs as int, 0int)),
            None => None,
        },
        None => None,
    }
}

pub open spec fn reading_times(stamps: Seq<String>) -> Seq<Option<Moment>> {
    stamps.map_values(|s: String| reading_time(s@))
}

/// The forecast from a weather service's hourly readings, whose stamps read like
/// `2024-06-01T13:00`. Readings without a legible time are passed over.
pub fn fetch_forecast(
    stamps: &Vec<String>,
    cover: &Vec<Number>,
    sunrise: TimeOfDay,
    sunset: TimeOfDay,
) -> (f: Option<Forecast>)
    ensures
        is_forecast(f, reading_times(stamps@), cover@, moment(sunrise), moment(sunset)),
{
    let mut times: Vec<Option<TimeOfDay>> = Vec::new();
    let mut i: usize = 0;
    while i < stamps.len()
        invariant
            i <= stamps@.len(),
            times@.len() == i,
            forall|j: int| 0 <= j < i ==> moments(times@)[j] == reading_time(#[trigger] stamps@[j]@),
        decreases stamps@.len() - i,
    {
        let t: Option<TimeOfDay> = match text_second_piece(stamps[i].as_str(), 'T') {
            Some(text) => TimeOfDay::parse_hour_minute(text.as_str()),
            None => None,
        };
        let ghost before = times@;
        times.push(t);
        assert forall|j: int| 0 <= j < i + 1 implies moments(times@)[j] == reading_time(
            #[trigger] stamps@[j]@,
        ) by {
            if j < i {
                assert(moments(times@)[j] == moments(before)[j]);
            }
        }
        i = i + 1;
    }
    assert(moments(times@) =~= reading_times(stamps@));
    build_forecast(&times, cover, sunrise, sunset)
}

/// Where a moment of the day falls in a forecast.
#[derive(Clone, Copy, Debug, PartialEq, Eq)]
pub enum CloudCover {
    /// The forecast says nothing of it: the sky counts as clear.
    Clear,
    /// The cover is known.
    Exactly(Number),
    /// The cover lies between those of two points, each a progress and a cover.
    Between { from: (Number, Number), to: (Number, Number) },
}

/// Whether `progress` lies between point `i` and the next.
pub open spec fn spans(forecast: Seq<(Number, Number)>, progress: Number, i: int) -> bool {
    forecast[i].0.at_most(progress) && progress.at_most(forecast[i + 1].0)
}

pub open spec fn cover_at(forecast: Seq<(Number, Number)>, progress: Number, c: CloudCover) -> bool {
    if forecast.len() == 0 {
        c == CloudCover::Clear
    } else if progress.at_most(forecast[0].0) {
        c == CloudCover::Exactly(forecast[0].1)
    } else if forecast.last().0.at_most(progress) {
        c == CloudCover::Exactly(forecast.last().1)
    } else {
        match c {
            CloudCover::Between { from, to } => exists|i: int|
                {
                    &&& 0 <= i < forecast.len() - 1
                    &&& from == forecast[i]
                    &&& to == forecast[i + 1]
                    &&& #[trigger] spans(forecast, progress, i)
                    &&& forall|j: int| 0 <= j < i ==> !#[trigger] spans(forecast, progress, j)
                },
            CloudCover::Clear => forall|j: int|
                0 <= j < forecast.len() - 1 ==> !#[trigger] spans(forecast, progress, j),
            CloudCover::Exactly(_) => false,
        }
    }
}

/// Finds `progress` in a forecast of (progress, cover) points.
pub fn interpolate_cloud_cover(forecast: &Vec<(Number, Number)>, progress: Number) -> (c: CloudCover)
    ensures
        cover_at(forecast@, progress, c),
{
    if forecast.len() == 0 {
        return CloudCover::Clear;
    }
    let n: usize = forecast.len();
    if progress.le(forecast[0].0) {
        return CloudCover::Exactly(forecast[0].1);
    }
    if forecast[n - 1].0.le(progress) {
        return CloudCover::Exactly(forecast[n - 1].1);
    }
    let mut i: usize = 0;
    while i < n - 1
        invariant
            0 < n == forecast@.len(),
            i <= n - 1,
            forall|j: int| 0 <= j < i ==> !#[trigger] spans(forecast@, progress, j),
            !progress.at_most(forecast@[0].0),
            !forecast@.last().0.at_most(progress),
        decreases n - i,
    {
        if forecast[i].0.le(progress) && progress.le(forecast[i + 1].0) {
            assert(spans(forecast@, progress, i as int));
            return CloudCover::Between { from: forecast[i], to: forecast[i + 1] };
        }
        i = i + 1;
    }
    CloudCover::Clear
}

proof fn lemma_crossing(forecast: Seq<(Number, Number)>, progress: Number, n: int) -> (i: int)
    requires
        0 < n < forecast.len(),
        !progress.nan(),
        forall|i: int| 0 <= i < forecast.len() ==> !(#[trigger] forecast[i]).0.nan(),
        forecast[0].0.at_most(progress),
        progress.at_most(forecast[n].0),
    ensures
        0 <= i < n,
        spans(forecast, progress, i),
    decreases n,
{
    if forecast[n - 1].0.at_most(progress) {
        n - 1
    } else {
        assert(n - 1 > 0);
        assert(!forecast[n - 1].0.nan());
        lemma_crossing(forecast, progress, n - 1)
    }
}

/// A forecast of numbers says something of every moment of the day.
pub proof fn forecast_leaves_no_gap(
    forecast: Seq<(Number, Number)>,
    progress: Number,
    c: CloudCover,
)
    requires
        forecast.len() > 0,
        !progress.nan(),
        forall|i: int| 0 <= i < forecast.len() ==> !(#[trigger] forecast[i]).0.nan(),
        cover_at(forecast, progress, c),
    ensures
        c != CloudCover::Clear,
{
    if c == CloudCover::Clear {
        assert(!forecast[0].0.nan() && !forecast.last().0.nan());
        let i = lemma_crossing(forecast, progress, forecast.len() - 1);
        assert(!spans(forecast, progress, i));
    }
}

/// Whether a reading is timed and lies between sunrise and sunset, those included.
pub open spec fn in_daylight(time: Option<Moment>, sunrise: Moment, sunset: Moment) -> bool {
    match time {
        Some((secs, frac)) => {
            &&& sunrise.0 < secs || (sunrise.0 == secs && sunrise.1 <= frac)
            &&& secs < sunset.0 || (secs == sunset.0 && frac <= sunset.1)
        },
        None => false,
    }
}

/// How many of the first `n` readings lie in daylight.
pub open spec fn daylight_readings(
    times: Seq<Option<Moment>>,
    sunrise: Moment,
    sunset: Moment,
    n: int,
) -> int
    decreases n,
{
    if n <= 0 {
        0
    } else {
        daylight_readings(times, sunrise, sunset, n - 1) + if in_daylight(
            times[n - 1],
            sunrise,
            sunset,
        ) {
            1int
        } else {
            0
        }
    }
}

/// A moment that is no leap second.
pub open spec fn ordinary(m: Moment) -> bool {
    0 <= m.1 < 1_000_000_000
}

/// Nanoseconds from one ordinary moment to another.
pub open spec fn nanos_from(a: Moment, b: Moment) -> int {
    (b.0 - a.0) * 1_000_000_000 + b.1 - a.1
}

proof fn lemma_kept(
    times: Seq<Option<Moment>>,
    cover: Seq<Number>,
    sunrise: Moment,
    sunset: Moment,
    n: int,
)
    ensures
        daytime(times, cover, sunrise, sunset, n).len() == daylight_readings(
            times,
            sunrise,
            sunset,
            n,
        ),
        forall|i: int|
            0 <= i < n && in_daylight(#[trigger] times[i], sunrise, sunset) ==> {
                let k = daylight_readings(times, sunrise, sunset, i);
                &&& 0 <= k < daylight_readings(times, sunrise, sunset, n)
                &&& daytime(times, cover, sunrise, sunset, n)[k] == (
                    crate::solar::within(
                        whole_seconds(times[i]->0, sunrise),
                        whole_seconds(sunset, sunrise),
                    ),
                    cover[i],
                )
            },
    decreases n,
{
    if n > 0 {
        lemma_kept(times, cover, sunrise, sunset, n - 1);
    }
}

/// A forecast holds every reading in daylight, in the order in which they came, each at its own whole
/// seconds after sunrise and with its own cover; `lead` points come before them. There are no others
/// but at the ends: one at sunrise where the first reading is further than one percent of the day from
/// there, with the cover of that reading, or clear sky without any; and one at sunset in the same way.
pub proof fn forecast_holds_every_daylight_reading(
    f: Forecast,
    times: Seq<Option<Moment>>,
    cover: Seq<Number>,
    sunrise: Moment,
    sunset: Moment,
    n: int,
) -> (lead: int)
    requires
        is_forecast(Some(f), times, cover, sunrise, sunset),
        n <= times.len() && n <= cover.len(),
        n == times.len() || n == cover.len(),
    ensures
        lead == 0 || lead == 1,
        ({
            let points = f.points@;
            let kept = daylight_readings(times, sunrise, sunset, n);
            let before_end = lead + kept - 1;
            let last = points.len() - 1;
            &&& 0 <= before_end < points.len()
            &&& forall|i: int|
                0 <= i < n && in_daylight(#[trigger] times[i], sunrise, sunset) ==> {
                    let k = lead + daylight_readings(times, sunrise, sunset, i);
                    let e = points[k].elapsed;
                    &&& lead <= k < lead + kept
                    &&& points[k].cover == cover[i]
                    &&& ordinary(times[i]->0) && ordinary(sunrise) && ordinary(sunset) ==> e
                        * 1_000_000_000 <= nanos_from(sunrise, times[i]->0) < (e + 1)
                        * 1_000_000_000
                }
            &&& lead == 0 ==> kept > 0 && points[0].elapsed * 100 <= f.day
            &&& lead == 1 ==> points[0].elapsed == 0
            &&& lead == 1 && kept > 0 ==> {
                &&& points[1].elapsed * 100 > f.day
                &&& points[0].cover == points[1].cover
            }
            &&& kept == 0 ==> points[0].cover.bits == 0
            &&& before_end == last ==> points[last].elapsed * 100 >= f.day * 99
            &&& before_end < last ==> {
                &&& last == before_end + 1
                &&& points[before_end].elapsed * 100 < f.day * 99
                &&& points[last].elapsed == f.day
                &&& points[last].cover == points[before_end].cover
            }
        }),
{
    let day = whole_seconds(sunset, sunrise);
    let kept = daytime(times, cover, sunrise, sunset, n);
    lemma_kept(times, cover, sunrise, sunset, n);
    lemma_count(times, sunrise, sunset, n);
    let started = from_sunrise(kept, day);
    let lead: int = if kept.len() == 0 || kept[0].0 * 100 > day {
        1
    } else {
        0
    };
    let pairs = to_sunset(started, day);
    assert(as_pairs(f.points@) == pairs);
    assert forall|k: int| 0 <= k < f.points@.len() implies pairs[k] == (
        (#[trigger] f.points@[k]).elapsed as int,
        f.points@[k].cover,
    ) by {
        assert(as_pairs(f.points@)[k] == pairs[k]);
    }
    assert(pairs.len() == f.points@.len());
    assert forall|k: int| 0 <= k < kept.len() implies pairs[lead + k] == #[trigger] kept[k] by {}
    assert forall|i: int| 0 <= i < n && in_daylight(#[trigger] times[i], sunrise, sunset) implies {
        let k = lead + daylight_readings(times, sunrise, sunset, i);
        let e = f.points@[k].elapsed;
        &&& lead <= k < lead + kept.len()
        &&& f.points@[k].cover == cover[i]
        &&& ordinary(times[i]->0) && ordinary(sunrise) && ordinary(sunset) ==> e * 1_000_000_000
            <= nanos_from(sunrise, times[i]->0) < (e + 1) * 1_000_000_000
    } by {
        let k = daylight_readings(times, sunrise, sunset, i);
        assert(pairs[lead + k] == kept[k]);
        assert(f.points@[lead + k].cover == cover[i]);
    }
    assert(pairs[0] == (f.points@[0].elapsed as int, f.points@[0].cover));
    if kept.len() > 0 {
        assert(pairs[lead] == kept[0]);
        assert(pairs[lead] == (f.points@[lead].elapsed as int, f.points@[lead].cover));
    }
    let end = lead + kept.len() - 1;
    assert(pairs[end] == (f.points@[end].elapsed as int, f.points@[end].cover));
    let last = f.points@.len() - 1;
    assert(pairs[last] == (f.points@[last].elapsed as int, f.points@[last].cover));
    lead
}

proof fn lemma_count(times: Seq<Option<Moment>>, sunrise: Moment, sunset: Moment, n: int)
    ensures
        daylight_readings(times, sunrise, sunset, n) >= 0,
    decreases n,
{
    if n > 0 {
        lemma_count(times, sunrise, sunset, n - 1);
    }
}

/// There is a forecast wherever the day lasts a second, and its day is that long.
pub proof fn forecast_lasts_from_sunrise_to_sunset(
    f: Option<Forecast>,
    times: Seq<Option<Moment>>,
    cover: Seq<Number>,
    sunrise: TimeOfDay,
    sunset: TimeOfDay,
)
    requires
        sunrise.valid() && sunset.valid(),
        is_forecast(f, times, cover, moment(sunrise), moment(sunset)),
    ensures
        f is Some <==> sunset.seconds_after(sunrise) > 0,
        f is Some ==> f->0.day == sunset.seconds_after(sunrise),
        moment(sunrise) == (sunrise.secs(), sunrise.frac()),
{
}

/// Readings keep their places, whether they are timed or not.
pub proof fn readings_keep_their_places(times: Seq<Option<TimeOfDay>>, stamps: Seq<String>)
    ensures
        moments(times).len() == times.len(),
        forall|i: int|
            0 <= i < times.len() ==> match times[i] {
                Some(t) => #[trigger] moments(times)[i] == Some((t.secs(), t.frac())),
                None => moments(times)[i] is None,
            },
        reading_times(stamps).len() == stamps.len(),
        forall|i: int|
            0 <= i < stamps.len() ==> #[trigger] reading_times(stamps)[i] == reading_time(stamps[i]@),
{
}

/// A stamp gives its time behind the `T`, if that can be read: hour and minute, on the full minute.
/// One without a `T` gives none.
pub proof fn stamp_gives_its_time(date: Seq<char>, rest: Seq<char>, secs: int)
    requires
        !date.contains('T'),
        !rest.contains('T'),
        0 <= secs < 86_400,
    ensures
        ({
            let read = crate::clock::parsed_hour_minute(rest);
            let time = reading_time(date.push('T') + rest);
            &&& time is Some <==> read is Some
            &&& read is Some ==> time == Some((read->0 as int, 0int))
        }),
        reading_time(date.push('T') + crate::clock::hour_minute_text(secs)) == Some(
            (secs - secs % 60, 0int),
        ),
        reading_time(date) is None,
{
    let text = crate::clock::hour_minute_text(secs);
    crate::clock::hour_and_minute_have_two_digits(secs);
    assert(!text.contains('T')) by {
        assert forall|i: int| 0 <= i < text.len() implies text[i] != 'T' by {}
    }
    crate::clock::shown_time_reads_back(secs);
    crate::text::second_piece_lies_between_marks(date, text, Seq::empty(), 'T');
    crate::text::second_piece_lies_between_marks(date, rest, Seq::empty(), 'T');
}

/// In a forecast whose points follow each other, a moment lies between the two neighbours around it
/// and no others, one at an inner point at the end of the stretch before it; up to the first point it
/// has the cover of that, and from the last on that of the last. Without points the sky is clear.
pub proof fn moment_lies_between_its_neighbours(
    forecast: Seq<(Number, Number)>,
    progress: Number,
    c: CloudCover,
    i: int,
)
    requires
        cover_at(forecast, progress, c),
        forall|j: int, k: int|
            0 <= j <= k < forecast.len() ==> (#[trigger] forecast[j]).0.at_most(
                (#[trigger] forecast[k]).0,
            ),
    ensures
        forecast.len() == 0 ==> c == CloudCover::Clear,
        forecast.len() > 0 && progress.at_most(forecast[0].0) ==> c == CloudCover::Exactly(
            forecast[0].1,
        ),
        forecast.len() > 0 && forecast[0].0.below(progress) && forecast.last().0.at_most(progress)
            ==> c == CloudCover::Exactly(forecast.last().1),
        0 < i < forecast.len() && forecast[i - 1].0.below(progress) && progress.at_most(
            forecast[i].0,
        ) && progress.below(forecast.last().0) ==> c == (CloudCover::Between {
            from: forecast[i - 1],
            to: forecast[i],
        }),
{
    let n = forecast.len() as int;
    if 0 < i < n && forecast[i - 1].0.below(progress) && progress.at_most(forecast[i].0)
        && progress.below(forecast.last().0) {
        assert(forecast[0].0.at_most(forecast[i - 1].0));
        assert(spans(forecast, progress, i - 1));
        assert forall|j: int| 0 <= j < i - 1 implies !#[trigger] spans(forecast, progress, j) by {
            assert(forecast[j + 1].0.at_most(forecast[i - 1].0));
        }
    }
}

} // verus!
