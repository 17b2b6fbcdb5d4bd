use sunrise_brightness::clock::TimeOfDay;
use sunrise_brightness::config::{Config, SharedState};
use sunrise_brightness::number::Number;
use sunrise_brightness::solar::{Location, SunTimes};
use sunrise_brightness::sun_loop::{Action, Event, RoundSettings, SunLoop};

fn number(x: f64) -> Number {
    Number { bits: x.to_bits() }
}

fn place() -> Location {
    Location { lat: number(45.5), lon: number(-73.6) }
}

fn settings(configured: Option<Location>, weather_adaptive: bool) -> Event {
    Event::Wake(RoundSettings {
        configured,
        coordinates: "45.50°, -73.60°".to_string(),
        weather_adaptive,
        update_interval_secs: 180,
        reassert: false,
    })
}

fn sun() -> SunTimes {
    SunTimes {
        sunrise: TimeOfDay::from_hms(5, 7, 0).unwrap(),
        transit: TimeOfDay::from_hms(12, 30, 0).unwrap(),
        sunset: TimeOfDay::from_hms(20, 45, 0).unwrap(),
    }
}

fn state() -> SharedState<u8> {
    SharedState::new(Config::default())
}

const SLEEP: Action = Action::Sleep { secs: 180 };

#[test]
fn configured_place_needs_no_lookup() {
    let (mut l, mut s) = (SunLoop::new(), state());
    assert_eq!(l.step(&mut s, settings(Some(place()), false)), Action::ListDisplays);
    assert!(!s.needs_refetch);
    let names = vec!["a".to_string()];
    assert_eq!(
        l.step(&mut s, Event::Displays(names.clone())),
        Action::ComputeSunTimes { location: place() }
    );
    assert_eq!(s.detected_monitors, names);
    assert_eq!(s.location_str, "45.50°, -73.60°");
    assert_eq!(s.status, "Computing sun times...");
    assert_eq!(
        l.step(&mut s, Event::Computed(Some(sun()))),
        Action::Apply { sun_times: sun(), place: Some(place()), reassert: false }
    );
    assert_eq!(s.status, "Running");
    assert_eq!((s.sunrise_str.as_str(), s.noon_str.as_str()), ("05:07", "12:30"));
    assert_eq!(s.sunset_str, "20:45");
    assert_eq!(l.step(&mut s, Event::Applied), SLEEP);

    // Everything is known now: the next round only sets brightness.
    assert_eq!(
        l.step(&mut s, settings(Some(place()), false)),
        Action::Apply { sun_times: sun(), place: Some(place()), reassert: false }
    );
    assert_eq!(l.step(&mut s, Event::Applied), SLEEP);

    // Unless a refresh is asked for.
    s.needs_refetch = true;
    assert_eq!(l.step(&mut s, settings(None, false)), Action::ListDisplays);
    assert!(!s.needs_refetch);
}

#[test]
fn place_is_looked_up_and_weather_fetched() {
    let (mut l, mut s) = (SunLoop::new(), state());
    l.step(&mut s, settings(None, true));
    assert_eq!(l.step(&mut s, Event::Displays(vec![])), Action::DetectLocation);
    assert_eq!(s.status, "Detecting location...");
    assert_eq!(
        l.step(&mut s, Event::Detected(Some((place(), "Montreal, CA".to_string())))),
        Action::ComputeSunTimes { location: place() }
    );
    assert_eq!(s.location_str, "Montreal, CA");
    assert_eq!(
        l.step(&mut s, Event::Computed(Some(sun()))),
        Action::FetchForecast { location: place(), sun_times: sun() }
    );
    assert_eq!(s.status, "Computing sun times...");
    let points = vec![(number(0.0), number(0.5)), (number(1.0), number(0.25))];
    assert_eq!(
        l.step(&mut s, Event::Forecast(Some(points.clone()))),
        Action::Apply { sun_times: sun(), place: Some(place()), reassert: false }
    );
    assert_eq!(s.weather_forecast, points);
    assert_eq!(s.status, "Running");
    assert_eq!(l.step(&mut s, Event::Applied), SLEEP);

    // A forecast that does not come leaves the old one.
    s.needs_refetch = true;
    l.step(&mut s, settings(Some(place()), true));
    l.step(&mut s, Event::Displays(vec![]));
    l.step(&mut s, Event::Computed(Some(sun())));
    l.step(&mut s, Event::Forecast(None));
    assert_eq!(s.weather_forecast, points);
}

#[test]
fn unknown_place_goes_by_the_defaults() {
    let (mut l, mut s) = (SunLoop::new(), state());
    l.step(&mut s, settings(None, false));
    l.step(&mut s, Event::Displays(vec![]));
    assert_eq!(
        l.step(&mut s, Event::Detected(None)),
        Action::Apply { sun_times: SunTimes::fallback(), place: None, reassert: false }
    );
    assert_eq!(l.step(&mut s, Event::Applied), SLEEP);
    assert_eq!(s.location_str, "Unknown (using defaults)");
    assert_eq!(s.status, "Location detection failed, using 6:00-18:00 defaults");
    assert_eq!(
        (s.sunrise_str.as_str(), s.noon_str.as_str(), s.sunset_str.as_str()),
        ("06:00", "12:00", "18:00")
    );

    l.step(&mut s, settings(Some(place()), false));
    l.step(&mut s, Event::Displays(vec![]));
    l.step(&mut s, Event::Computed(Some(sun())));
    l.step(&mut s, Event::Applied);
    s.needs_refetch = true;
    l.step(&mut s, settings(None, false));
    l.step(&mut s, Event::Displays(vec![]));
    assert_eq!(
        l.step(&mut s, Event::Detected(None)),
        Action::Apply { sun_times: SunTimes::fallback(), place: None, reassert: false }
    );
    assert_eq!(l.step(&mut s, Event::Applied), SLEEP);
    // The place is still unknown, so the next round looks again.
    assert_eq!(l.step(&mut s, settings(None, false)), Action::ListDisplays);
}

#[test]
fn defaults_do_not_outlive_the_unknown_place() {
    let (mut l, mut s) = (SunLoop::new(), state());
    l.step(&mut s, settings(None, false));
    l.step(&mut s, Event::Displays(vec![]));
    l.step(&mut s, Event::Detected(None));
    l.step(&mut s, Event::Applied);
    // The place is found, but the sun does not rise there.
    l.step(&mut s, settings(Some(place()), false));
    l.step(&mut s, Event::Displays(vec![]));
    assert_eq!(l.step(&mut s, Event::Computed(None)), SLEEP);
    assert_eq!(l.step(&mut s, settings(Some(place()), false)), Action::ListDisplays);
}

#[test]
fn a_reassert_waits_until_brightness_is_set() {
    let wake = |reassert| match settings(Some(place()), false) {
        Event::Wake(round) => Event::Wake(RoundSettings { reassert, ..round }),
        other => other,
    };
    let (mut l, mut s) = (SunLoop::new(), state());
    l.step(&mut s, wake(true));
    l.step(&mut s, Event::Displays(vec![]));
    assert_eq!(l.step(&mut s, Event::Computed(None)), SLEEP);
    l.step(&mut s, wake(false));
    l.step(&mut s, Event::Displays(vec![]));
    let apply = |reassert| Action::Apply { sun_times: sun(), place: Some(place()), reassert };
    assert_eq!(l.step(&mut s, Event::Computed(Some(sun()))), apply(true));
    l.step(&mut s, Event::Applied);
    assert_eq!(l.step(&mut s, wake(false)), apply(false));
    l.step(&mut s, Event::Applied);
    assert_eq!(l.step(&mut s, wake(true)), apply(true));
}

#[test]
fn polar_night_sets_nothing() {
    let (mut l, mut s) = (SunLoop::new(), state());
    l.step(&mut s, settings(Some(place()), false));
    l.step(&mut s, Event::Displays(vec![]));
    assert_eq!(l.step(&mut s, Event::Computed(None)), SLEEP);
    assert_eq!(s.status, "Polar night — no sunrise today");
    assert_eq!(l.step(&mut s, settings(Some(place()), false)), Action::ListDisplays);
}

#[test]
fn an_event_out_of_turn_ends_the_round() {
    let (mut l, mut s) = (SunLoop::new(), state());
    l.step(&mut s, settings(None, false));
    assert_eq!(l.step(&mut s, Event::Applied), SLEEP);
    assert_eq!(l.step(&mut s, settings(None, false)), Action::ListDisplays);
}
