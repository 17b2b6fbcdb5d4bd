//! Where the sun stands in the day.

use crate::clock::TimeOfDay;
use crate::number::Number;
use vstd::prelude::*;

verus! {

/// A place on earth, in degrees.
#[derive(Clone, Copy, Debug, PartialEq, Eq, Structural)]
pub struct Location {
    pub lat: Number,
    pub lon: Number,
}

/// When the sun rises, stands highest and sets, in local time.
#[derive(Clone, Copy, Debug, PartialEq, Eq, Structural)]
pub struct SunTimes {
    pub sunrise: TimeOfDay,
    pub transit: TimeOfDay,
    pub sunset: TimeOfDay,
}

/// What the sun does on a day, in local time.
#[derive(Clone, Copy, Debug, PartialEq, Eq, Structural)]
pub enum SolarDay {
    Regular { sunrise: TimeOfDay, transit: TimeOfDay, sunset: TimeOfDay },
    /// The sun does not set.
    AllDay { transit: TimeOfDay },
    /// The sun does not rise.
    AllNight,
}

/// How much of the day between sunrise and sunset has passed.
#[derive(Clone, Copy, Debug, PartialEq, Eq, Structural)]
pub enum DayProgress {
    /// None of it.
    Start,
    /// All of it.
    End,
    /// `elapsed` out of `day` seconds.
    During { elapsed: i64, day: i64 },
}

pub open spec fn at_hms(t: TimeOfDay, hour: int, min: int, sec: int) -> bool {
    t.secs() == hour * 3600 + min * 60 + sec && t.frac() == 0
}

impl SunTimes {
    /// Six, noon and six.
    pub open spec fn defaults() -> SunTimes {
        SunTimes {
            sunrise: TimeOfDay::at(6int * 3600, 0),
            transit: TimeOfDay::at(12int * 3600, 0),
            sunset: TimeOfDay::at(18int * 3600, 0),
        }
    }

    /// Sun times for an unknown place: six, noon and six.
    pub fn fallback() -> (s: SunTimes)
        ensures
            s == SunTimes::defaults(),
            at_hms(s.sunrise, 6, 0, 0),
            at_hms(s.transit, 12, 0, 0),
            at_hms(s.sunset, 18, 0, 0),
    {
        SunTimes {
            sunrise: TimeOfDay::from_hms(6, 0, 0).unwrap(),
            transit: TimeOfDay::from_hms(12, 0, 0).unwrap(),
            sunset: TimeOfDay::from_hms(18, 0, 0).unwrap(),
        }
    }
}

/// The sun times of a day; where the sun never sets they span the day, and there are none where it
/// never rises.
pub fn compute_sun_times(day: SolarDay) -> (s: Option<SunTimes>)
    ensures
        match day {
            SolarDay::Regular { sunrise, transit, sunset } => s == Some(
                SunTimes { sunrise, transit, sunset },
            ),
            SolarDay::AllDay { transit } => {
                &&& s is Some
                &&& at_hms(s->0.sunrise, 0, 0, 0)
                &&& s->0.transit == transit
                &&& at_hms(s->0.sunset, 23, 59, 59)
            },
            SolarDay::AllNight => s is None,
        },
{
    match day {
        SolarDay::Regular { sunrise, transit, sunset } => Some(
            SunTimes { sunrise, transit, sunset },
        ),
        SolarDay::AllDay { transit } => Some(
            SunTimes {
                sunrise: TimeOfDay::from_hms(0, 0, 0)?,
                transit,
                sunset: TimeOfDay::from_hms(23, 59, 59)?,
            },
        ),
        SolarDay::AllNight => None,
    }
}

/// `elapsed` held between zero and `day`.
pub open spec fn within(elapsed: int, day: int) -> int {
    if elapsed < 0 {
        0
    } else if elapsed > day {
        day
    } else {
        elapsed
    }
}

pub open spec fn progress_of(now: TimeOfDay, sunrise: TimeOfDay, sunset: TimeOfDay) -> DayProgress {
    if !sunrise.before(now) {
        DayProgress::Start
    } else if !now.before(sunset) {
        DayProgress::End
    } else if sunset.seconds_after(sunrise) <= 0 {
        DayProgress::Start
    } else {
        DayProgress::During {
            elapsed: within(now.seconds_after(sunrise), sunset.seconds_after(sunrise)) as i64,
            day: sunset.seconds_after(sunrise) as i64,
        }
    }
}

/// How far the day is at `now`.
pub fn day_progress(now: TimeOfDay, sunrise: TimeOfDay, sunset: TimeOfDay) -> (p: DayProgress)
    ensures
        p == progress_of(now, sunrise, sunset),
        p matches DayProgress::During { elapsed, day } ==> {
            &&& day == sunset.seconds_after(sunrise) > 0
            &&& 0 <= elapsed <= day
            &&& elapsed == within(now.seconds_after(sunrise), day as int)
        },
{
    if !sunrise.is_before(now) {
        return DayProgress::Start;
    }
    if !now.is_before(sunset) {
        return DayProgress::End;
    }
    let day: i64 = sunset.seconds_since(sunrise);
    if day <= 0 {
        return DayProgress::Start;
    }
    let elapsed: i64 = now.seconds_since(sunrise);
    let elapsed: i64 = if elapsed < 0 {
        0
    } else if elapsed > day {
        day
    } else {
        elapsed
    };
    DayProgress::During { elapsed, day }
}

/// The share of the day that has passed, in parts of `scale`.
pub open spec fn share(p: DayProgress, scale: int) -> int {
    match p {
        DayProgress::Start => 0,
        DayProgress::End => scale,
        DayProgress::During { elapsed, day } => elapsed * scale / day as int,
    }
}

/// The day never runs backwards: a later time has no smaller share of it, unless it ends a leap
/// second that the earlier one is further into.
pub proof fn progress_never_runs_backwards(
    earlier: TimeOfDay,
    later: TimeOfDay,
    sunrise: TimeOfDay,
    sunset: TimeOfDay,
    scale: int,
)
    requires
        earlier.valid() && later.valid() && sunrise.valid() && sunset.valid(),
        earlier.before(later),
        earlier.secs() * crate::clock::SECOND_NANOS + earlier.frac() <= later.secs()
            * crate::clock::SECOND_NANOS + later.frac(),
        scale >= 0,
    ensures
        share(progress_of(earlier, sunrise, sunset), scale) <= share(
            progress_of(later, sunrise, sunset),
            scale,
        ),
{
    match (progress_of(earlier, sunrise, sunset), progress_of(later, sunrise, sunset)) {
        (
            DayProgress::During { elapsed: e1, day: d1 },
            DayProgress::During { elapsed: e2, day: d2 },
        ) => {
            assert(d1 == d2 && d1 > 0);
            assert(0 <= e1 <= e2);
            assert(e1 * scale <= e2 * scale) by (nonlinear_arith)
                requires
                    0 <= e1 <= e2,
                    scale >= 0,
            ;
            vstd::arithmetic::div_mod::lemma_div_is_ordered(e1 * scale, e2 * scale, d1 as int);
        },
        (DayProgress::During { elapsed, day }, _) => {
            assert(elapsed * scale / day as int <= scale) by (nonlinear_arith)
                requires
                    0 <= elapsed <= day,
                    day > 0,
                    scale >= 0,
            ;
        },
        (_, DayProgress::During { elapsed, day }) => {
            assert(elapsed * scale / day as int >= 0) by (nonlinear_arith)
                requires
                    0 <= elapsed,
                    day > 0,
                    scale >= 0,
            ;
        },
        _ => {},
    }
}

/// The label of a detected place: the city and country, or the coordinates where the city is not
/// known.
pub open spec fn place_label(
    city: Seq<char>,
    country_code: Seq<char>,
    coordinates: Seq<char>,
) -> Seq<char> {
    if city.len() == 0 {
        coordinates
    } else {
        city + ", "@ + country_code
    }
}

/// The label of a place detected at `coordinates`.
pub fn location_label(city: &str, country_code: &str, coordinates: String) -> (label: String)
    ensures
        label@ == place_label(city@, country_code@, coordinates@),
{
    if city.is_empty() {
        coordinates
    } else {
        city.to_owned().concat(", ").concat(country_code)
    }
}

/// The place that the settings name; both coordinates are needed.
pub fn configured_location(lat: Option<Number>, lon: Option<Number>) -> (l: Option<Location>)
    ensures
        l == configured(lat, lon),
{
    match (lat, lon) {
        (Some(lat), Some(lon)) => Some(Location { lat, lon }),
        _ => None,
    }
}

pub open spec fn configured(lat: Option<Number>, lon: Option<Number>) -> Option<Location> {
    match (lat, lon) {
        (Some(lat), Some(lon)) => Some(Location { lat, lon }),
        _ => None,
    }
}

/// On the full second the day is as far as the clock says: nothing of it has passed up to sunrise,
/// all of it from sunset on, and in between the seconds since sunrise out of those until sunset.
pub proof fn day_passes_from_sunrise_to_sunset(
    now: TimeOfDay,
    sunrise: TimeOfDay,
    sunset: TimeOfDay,
)
    requires
        now.valid() && sunrise.valid() && sunset.valid(),
        now.frac() == 0 && sunrise.frac() == 0 && sunset.frac() == 0,
    ensures
        ({
            let p = progress_of(now, sunrise, sunset);
            let (n, rise, set) = (now.secs(), sunrise.secs(), sunset.secs());
            &&& n <= rise ==> p == DayProgress::Start
            &&& n > rise && n >= set ==> p == DayProgress::End
            &&& rise < n < set ==> p == (DayProgress::During {
                elapsed: (n - rise) as i64,
                day: (set - rise) as i64,
            })
        }),
{
}

/// Between full seconds too: before the sun is up the day has not begun, once it is down the day is
/// over, and in between the seconds counted are the whole ones since sunrise, none of them outside
/// the day.
pub proof fn daylight_lies_between_sunrise_and_sunset(
    now: TimeOfDay,
    sunrise: TimeOfDay,
    sunset: TimeOfDay,
)
    requires
        now.valid() && sunrise.valid() && sunset.valid(),
    ensures
        ({
            let p = progress_of(now, sunrise, sunset);
            let up = sunrise.before(now);
            let down = !now.before(sunset);
            let long = sunset.seconds_after(sunrise) > 0;
            &&& p is Start <==> !up || (!down && !long)
            &&& p is End <==> up && down
            &&& p matches DayProgress::During { elapsed, day } ==> {
                let since = now.seconds_after(sunrise);
                &&& day == sunset.seconds_after(sunrise) && day > 0
                &&& 0 <= since <= day ==> elapsed == since
                &&& since > day ==> elapsed == day
                &&& since < 0 ==> elapsed == 0
            }
        }),
{
}

/// A detected place is called after its city and country; without a city, after its coordinates,
/// whatever the country.
pub proof fn place_is_called_after_its_city(
    city: Seq<char>,
    country_code: Seq<char>,
    coordinates: Seq<char>,
)
    ensures
        ({
            let label = place_label(city, country_code, coordinates);
            let n = city.len() as int;
            &&& n == 0 ==> label == coordinates
            &&& n > 0 ==> {
                &&& label.len() == n + 2 + country_code.len()
                &&& label.take(n) == city
                &&& label[n] == ',' && label[n + 1] == ' '
                &&& label.skip(n + 2) == country_code
            }
        }),
{
    reveal_strlit(", ");
    let label = place_label(city, country_code, coordinates);
    if city.len() > 0 {
        assert(label.take(city.len() as int) =~= city);
        assert(label.skip(city.len() as int + 2) =~= country_code);
    }
}

/// The settings name a place by both coordinates, each where it belongs, and by no single one.
pub proof fn place_takes_both_coordinates(lat: Option<Number>, lon: Option<Number>)
    ensures
        configured(lat, lon) is Some <==> lat is Some && lon is Some,
        configured(lat, lon) is Some ==> {
            &&& configured(lat, lon)->0.lat == lat->0
            &&& configured(lat, lon)->0.lon == lon->0
        },
{
}

/// The default day lasts from six to six, with noon in the middle.
pub proof fn default_day_lasts_twelve_hours()
    ensures
        SunTimes::defaults().sunrise.secs() == 21_600,
        SunTimes::defaults().transit.secs() == 43_200,
        SunTimes::defaults().sunset.secs() == 64_800,
        SunTimes::defaults().sunrise.frac() == 0,
        SunTimes::defaults().transit.frac() == 0,
        SunTimes::defaults().sunset.frac() == 0,
        forall|t: TimeOfDay, h: int, m: int, s: int| #[trigger]
            at_hms(t, h, m, s) <==> t.secs() == 3600 * h + 60 * m + s && t.frac() == 0,
{
    crate::clock::lemma_at(6int * 3600, 0);
    crate::clock::lemma_at(12int * 3600, 0);
    crate::clock::lemma_at(18int * 3600, 0);
}

} // verus!
