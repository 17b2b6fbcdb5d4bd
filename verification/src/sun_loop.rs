//! The sun loop: rounds of finding out where and when the sun shines and setting brightness by it.
//!
//! A [`SunLoop`] is told what happened and says what to do next. A round begins when it is woken
//! and ends when it asks to sleep.

use crate::config::SharedState;
use crate::number::Number;
use crate::solar::{Location, SunTimes};
use vstd::prelude::*;

verus! {

/// The settings that a round goes by.
#[derive(Debug)]
pub struct RoundSettings {
    /// The place that the settings name.
    pub configured: Option<Location>,
    /// The coordinates of that place, as shown to the user.
    pub coordinates: String,
    pub weather_adaptive: bool,
    pub update_interval_secs: u64,
    /// Whether the levels last written have gone stale, so that every display is due again.
    pub reassert: bool,
}

/// What happened.
#[derive(Debug)]
pub enum Event {
    /// A round begins.
    Wake(RoundSettings),
    /// The displays are listed.
    Displays(Vec<String>),
    /// The place was looked up: where it is and what it is called, if it was found.
    Detected(Option<(Location, String)>),
    /// The sun times are computed; there are none in a polar night.
    Computed(Option<SunTimes>),
    /// The weather service answered with (progress, cover) points, or did not.
    Forecast(Option<Vec<(Number, Number)>>),
    /// Brightness is set.
    Applied,
}

/// What to do.
#[derive(Clone, Copy, Debug, PartialEq, Eq, Structural)]
pub enum Action {
    ListDisplays,
    DetectLocation,
    ComputeSunTimes { location: Location },
    FetchForecast { location: Location, sun_times: SunTimes },
    /// Set brightness by the sun; its height is known only where the place is. With `reassert`
    /// every display is written again, whether or not its target has moved.
    Apply { sun_times: SunTimes, place: Option<Location>, reassert: bool },
    /// The round is over.
    Sleep { secs: u64 },
}

/// What a round is waiting for.
#[derive(Clone, Copy, Debug, PartialEq, Eq, Structural)]
pub enum Stage {
    Asleep,
    Listing,
    Detecting,
    Computing { location: Location },
    Fetching { location: Location, sun_times: SunTimes },
    Applying,
}

/// The contents of a [`SunLoop`].
#[verifier::ext_equal]
pub struct LoopState {
    pub stage: Stage,
    /// The settings of the current round.
    pub configured: Option<Location>,
    pub coordinates: Seq<char>,
    pub weather_adaptive: bool,
    pub interval: u64,
    /// Whether every display is to be written when brightness is set next.
    pub reassert: bool,
    /// What is known from earlier rounds.
    pub sun_times: Option<SunTimes>,
    pub location: Option<Location>,
}

/// What an event changes in the state that the program shares; `None` stays as it was.
#[verifier::ext_equal]
pub struct Effects {
    pub takes_refetch: bool,
    pub monitors: Option<Seq<String>>,
    pub status: Option<Seq<char>>,
    pub place: Option<Seq<char>>,
    /// Sunrise, noon and sunset as shown to the user.
    pub hours: Option<(Seq<char>, Seq<char>, Seq<char>)>,
    pub forecast: Option<Seq<(Number, Number)>>,
}

impl Effects {
    pub open spec fn none() -> Effects {
        Effects {
            takes_refetch: false,
            monitors: None,
            status: None,
            place: None,
            hours: None,
            forecast: None,
        }
    }

    /// Whether `after` is `before` with these changes, and no others.
    pub open spec fn turn<C>(self, before: SharedState<C>, after: SharedState<C>) -> bool {
        &&& after.needs_refetch == (before.needs_refetch && !self.takes_refetch)
        &&& match self.monitors {
            Some(m) => after.detected_monitors@ == m,
            None => after.detected_monitors == before.detected_monitors,
        }
        &&& match self.status {
            Some(s) => after.status@ == s,
            None => after.status == before.status,
        }
        &&& match self.place {
            Some(p) => after.location_str@ == p,
            None => after.location_str == before.location_str,
        }
        &&& match self.hours {
            Some(h) => (after.sunrise_str@, after.noon_str@, after.sunset_str@) == h,
            None => after.sunrise_str == before.sunrise_str && after.noon_str == before.noon_str
                && after.sunset_str == before.sunset_str,
        }
        &&& match self.forecast {
            Some(f) => after.weather_forecast@ == f,
            None => after.weather_forecast == before.weather_forecast,
        }
        &&& after == (SharedState {
            needs_refetch: after.needs_refetch,
            detected_monitors: after.detected_monitors,
            status: after.status,
            location_str: after.location_str,
            sunrise_str: after.sunrise_str,
            noon_str: after.noon_str,
            sunset_str: after.sunset_str,
            weather_forecast: after.weather_forecast,
            ..before
        })
    }
}

/// A state, what changed around it, and what to do next.
pub struct Step {
    pub next: LoopState,
    pub effects: Effects,
    pub action: Action,
}

pub open spec fn hours_of(st: SunTimes) -> (Seq<char>, Seq<char>, Seq<char>) {
    (
        crate::clock::hour_minute_text(st.sunrise.secs()),
        crate::clock::hour_minute_text(st.transit.secs()),
        crate::clock::hour_minute_text(st.sunset.secs()),
    )
}

impl LoopState {
    pub open spec fn start() -> LoopState {
        LoopState {
            stage: Stage::Asleep,
            configured: None,
            coordinates: Seq::empty(),
            weather_adaptive: false,
            interval: 0,
            reassert: false,
            sun_times: None,
            location: None,
        }
    }

    /// Sun times are computed, and a forecast fetched, for the place that is known.
    pub open spec fn wf(self) -> bool {
        match self.stage {
            Stage::Computing { location } => self.location == Some(location),
            Stage::Fetching { location, .. } => self.location == Some(location),
            _ => true,
        }
    }

    pub open spec fn at(self, stage: Stage) -> LoopState {
        LoopState { stage, ..self }
    }

    /// Whether a round has to find out about the sun anew.
    pub open spec fn stale(self, needs_refetch: bool) -> bool {
        needs_refetch || self.sun_times is None || self.location is None
    }

    pub open spec fn sleeping(self, effects: Effects) -> Step {
        Step {
            next: self.at(Stage::Asleep),
            effects,
            action: Action::Sleep { secs: self.interval },
        }
    }

    /// Sets brightness by `sun_times`.
    pub open spec fn applying(self, sun_times: SunTimes, effects: Effects) -> Step {
        Step {
            next: (LoopState { reassert: false, ..self }).at(Stage::Applying),
            effects,
            action: Action::Apply { sun_times, place: self.location, reassert: self.reassert },
        }
    }

    /// The place is known, called `place`: on to the sun times.
    pub open spec fn located(self, location: Location, place: Seq<char>, effects: Effects) -> Step {
        Step {
            next: (LoopState { location: Some(location), ..self }).at(
                Stage::Computing { location },
            ),
            effects: Effects {
                place: Some(place),
                status: Some("Computing sun times..."@),
                ..effects
            },
            action: Action::ComputeSunTimes { location },
        }
    }

    /// The sun times are known: on to setting brightness.
    pub open spec fn running(self, sun_times: SunTimes, effects: Effects) -> Step {
        (LoopState { sun_times: Some(sun_times), ..self }).applying(
            sun_times,
            Effects { status: Some("Running"@), ..effects },
        )
    }

    /// What an event leads to. One that is not waited for ends the round.
    pub open spec fn step(self, event: Event, needs_refetch: bool) -> Step {
        let none = Effects::none();
        match (self.stage, event) {
            (Stage::Asleep, Event::Wake(settings)) => {
                let s = LoopState {
                    configured: settings.configured,
                    coordinates: settings.coordinates@,
                    weather_adaptive: settings.weather_adaptive,
                    interval: settings.update_interval_secs,
                    reassert: self.reassert || settings.reassert,
                    ..self
                };
                let effects = Effects { takes_refetch: true, ..none };
                if s.stale(needs_refetch) {
                    Step { next: s.at(Stage::Listing), effects, action: Action::ListDisplays }
                } else {
                    s.applying(s.sun_times->0, effects)
                }
            },
            (Stage::Listing, Event::Displays(names)) => {
                let effects = Effects { monitors: Some(names@), ..none };
                match self.configured {
                    Some(location) => self.located(location, self.coordinates, effects),
                    None => Step {
                        next: self.at(Stage::Detecting),
                        effects: Effects { status: Some("Detecting location..."@), ..effects },
                        action: Action::DetectLocation,
                    },
                }
            },
            (Stage::Detecting, Event::Detected(found)) => match found {
                Some((location, label)) => self.located(location, label@, none),
                None => (LoopState { location: None, ..self }).applying(
                    SunTimes::defaults(),
                    Effects {
                        place: Some("Unknown (using defaults)"@),
                        status: Some("Location detection failed, using 6:00-18:00 defaults"@),
                        hours: Some(("06:00"@, "12:00"@, "18:00"@)),
                        ..none
                    },
                ),
            },
            (Stage::Computing { location }, Event::Computed(times)) => match times {
                Some(sun_times) => {
                    let effects = Effects { hours: Some(hours_of(sun_times)), ..none };
                    if self.weather_adaptive {
                        Step {
                            next: self.at(Stage::Fetching { location, sun_times }),
                            effects,
                            action: Action::FetchForecast { location, sun_times },
                        }
                    } else {
                        self.running(sun_times, effects)
                    }
                },
                None => self.sleeping(
                    Effects { status: Some("Polar night — no sunrise today"@), ..none },
                ),
            },
            (Stage::Fetching { sun_times, .. }, Event::Forecast(points)) => self.running(
                sun_times,
                Effects {
                    forecast: match points {
                        Some(p) => Some(p@),
                        None => None,
                    },
                    ..none
                },
            ),
            _ => self.sleeping(none),
        }
    }
}

/// Decides what the sun loop does next.
#[derive(Debug)]
pub struct SunLoop {
    stage: Stage,
    configured: Option<Location>,
    coordinates: String,
    weather_adaptive: bool,
    interval: u64,
    reassert: bool,
    sun_times: Option<SunTimes>,
    location: Option<Location>,
}

impl View for SunLoop {
    type V = LoopState;

    closed spec fn view(&self) -> LoopState {
        LoopState {
            stage: self.stage,
            configured: self.configured,
            coordinates: self.coordinates@,
            weather_adaptive: self.weather_adaptive,
            interval: self.interval,
            reassert: self.reassert,
            sun_times: self.sun_times,
            location: self.location,
        }
    }
}

impl SunLoop {
    /// A loop that knows nothing yet.
    pub fn new() -> (l: SunLoop)
        ensures
            l@ == LoopState::start(),
    {
        SunLoop {
            stage: Stage::Asleep,
            configured: None,
            coordinates: String::new(),
            weather_adaptive: false,
            interval: 0,
            reassert: false,
            sun_times: None,
            location: None,
        }
    }

    fn sleep(&mut self) -> (action: Action)
        ensures
            final(self)@ == old(self)@.sleeping(Effects::none()).next,
            action == old(self)@.sleeping(Effects::none()).action,
    {
        self.stage = Stage::Asleep;
        Action::Sleep { secs: self.interval }
    }

    fn apply(&mut self, sun_times: SunTimes) -> (action: Action)
        ensures
            final(self)@ == old(self)@.applying(sun_times, Effects::none()).next,
            action == old(self)@.applying(sun_times, Effects::none()).action,
    {
        let reassert: bool = self.reassert;
        self.reassert = false;
        self.stage = Stage::Applying;
        Action::Apply { sun_times, place: self.location, reassert }
    }

    fn compute(&mut self, location: Location) -> (action: Action)
        ensures
            final(self)@ == old(self)@.located(location, Seq::empty(), Effects::none()).next,
            action == old(self)@.located(location, Seq::empty(), Effects::none()).action,
    {
        self.location = Some(location);
        self.stage = Stage::Computing { location };
        Action::ComputeSunTimes { location }
    }

    fn run(&mut self, sun_times: SunTimes) -> (action: Action)
        ensures
            final(self)@ == old(self)@.running(sun_times, Effects::none()).next,
            action == old(self)@.running(sun_times, Effects::none()).action,
    {
        self.sun_times = Some(sun_times);
        self.apply(sun_times)
    }

    /// Takes in what happened and says what to do next.
    pub fn step<C>(&mut self, state: &mut SharedState<C>, event: Event) -> (action: Action)
        ensures
            ({
                let s = old(self)@.step(event, old(state).needs_refetch);
                &&& final(self)@ == s.next
                &&& s.effects.turn(*old(state), *final(state))
                &&& action == s.action
            }),
    {
        match (self.stage, event) {
            (Stage::Asleep, Event::Wake(settings)) => {
                self.configured = settings.configured;
                self.coordinates = settings.coordinates;
                self.weather_adaptive = settings.weather_adaptive;
                self.interval = settings.update_interval_secs;
                self.reassert = self.reassert || settings.reassert;
                let refetch: bool = state.needs_refetch;
                state.needs_refetch = false;
                match (self.sun_times, self.location) {
                    (Some(sun_times), Some(_)) if !refetch => self.apply(sun_times),
                    _ => {
                        self.stage = Stage::Listing;
                        Action::ListDisplays
                    },
                }
            },
            (Stage::Listing, Event::Displays(names)) => {
                state.detected_monitors = names;
                match self.configured {
                    Some(location) => {
                        state.location_str = self.coordinates.clone();
                        state.set_status("Computing sun times...");
                        self.compute(location)
                    },
                    None => {
                        state.set_status("Detecting location...");
                        self.stage = Stage::Detecting;
                        Action::DetectLocation
                    },
                }
            },
            (Stage::Detecting, Event::Detected(found)) => match found {
                Some((location, label)) => {
                    state.location_str = label;
                    state.set_status("Computing sun times...");
                    self.compute(location)
                },
                None => {
                    state.location_str = "Unknown (using defaults)".to_owned();
                    state.set_status("Location detection failed, using 6:00-18:00 defaults");
                    state.sunrise_str = "06:00".to_owned();
                    state.noon_str = "12:00".to_owned();
                    state.sunset_str = "18:00".to_owned();
                    self.location = None;
                    self.apply(SunTimes::fallback())
                },
            },
            (Stage::Computing { location }, Event::Computed(times)) => match times {
                Some(sun_times) => {
                    state.sunrise_str = sun_times.sunrise.hour_minute();
                    state.noon_str = sun_times.transit.hour_minute();
                    state.sunset_str = sun_times.sunset.hour_minute();
                    if self.weather_adaptive {
                        self.stage = Stage::Fetching { location, sun_times };
                        Action::FetchForecast { location, sun_times }
                    } else {
                        state.set_status("Running");
                        self.run(sun_times)
                    }
                },
                None => {
                    state.set_status("Polar night — no sunrise today");
                    self.sleep()
                },
            },
            (Stage::Fetching { sun_times, .. }, Event::Forecast(points)) => {
                if let Some(points) = points {
                    state.weather_forecast = points;
                }
                state.set_status("Running");
                self.run(sun_times)
            },
            _ => self.sleep(),
        }
    }
}

/// How many events a round can still take before it sleeps.
pub open spec fn events_left(stage: Stage) -> nat {
    match stage {
        Stage::Asleep => 0,
        Stage::Applying => 1,
        Stage::Fetching { .. } => 2,
        Stage::Computing { .. } => 3,
        Stage::Detecting => 4,
        Stage::Listing => 5,
    }
}

/// Every round ends, after at most five more events, and it ends by sleeping for the interval that
/// the settings named when it began.
pub proof fn round_ends_in_its_sleep(s: LoopState, event: Event, needs_refetch: bool)
    requires
        s.stage != Stage::Asleep,
    ensures
        events_left(s.step(event, needs_refetch).next.stage) < events_left(s.stage) <= 5,
        s.step(event, needs_refetch).next.interval == s.interval,
        s.step(event, needs_refetch).next.stage == Stage::Asleep <==> s.step(
            event,
            needs_refetch,
        ).action == (Action::Sleep { secs: s.interval }),
{
}

/// A loop is in order when it starts, and stays so.
pub proof fn loop_stays_in_order(s: LoopState, event: Event, needs_refetch: bool)
    ensures
        LoopState::start().wf(),
        s.wf() ==> s.step(event, needs_refetch).next.wf(),
{
}

/// Brightness is set by the sun times that are known of the place and, where the place is unknown, by
/// the defaults. Sun times once known are not forgotten.
pub proof fn brightness_follows_known_sun_times(s: LoopState, event: Event, needs_refetch: bool)
    requires
        s.wf(),
    ensures
        s.step(event, needs_refetch).action matches Action::Apply { sun_times, place, .. } ==> {
            &&& s.step(event, needs_refetch).next.location == place
            &&& place is Some ==> s.step(event, needs_refetch).next.sun_times == Some(sun_times)
            &&& place is None ==> sun_times == SunTimes::defaults()
        },
        s.sun_times is Some ==> s.step(event, needs_refetch).next.sun_times is Some,
{
}

/// While the sun times and the place are known and no refresh is asked for, a round asks nothing of
/// the outside: it sets brightness and sleeps.
pub proof fn settled_round_only_applies(s: LoopState, settings: RoundSettings)
    requires
        s.stage == Stage::Asleep,
        s.sun_times is Some,
        s.location is Some,
    ensures
        ({
            let first = s.step(Event::Wake(settings), false);
            let second = first.next.step(Event::Applied, false);
            &&& first.action == (Action::Apply {
                sun_times: s.sun_times->0,
                place: s.location,
                reassert: s.reassert || settings.reassert,
            })
            &&& second.action == (Action::Sleep { secs: settings.update_interval_secs })
            &&& second.next.sun_times == s.sun_times && second.next.location == s.location
        }),
{
}

/// A lookup that fails still sets brightness: by the defaults, as the status says, which are also the
/// hours shown.
pub proof fn failed_lookup_goes_by_the_defaults(s: LoopState, needs_refetch: bool)
    requires
        s.stage == Stage::Detecting,
    ensures
        ({
            let t = s.step(Event::Detected(None), needs_refetch);
            &&& t.action == (Action::Apply {
                sun_times: SunTimes::defaults(),
                place: None,
                reassert: s.reassert,
            })
            &&& t.effects.hours == Some(hours_of(SunTimes::defaults()))
            &&& t.effects.hours == Some(("06:00"@, "12:00"@, "18:00"@))
        }),
{
    reveal_strlit("06:00");
    reveal_strlit("12:00");
    reveal_strlit("18:00");
    crate::clock::lemma_at(6int * 3600, 0);
    crate::clock::lemma_at(12int * 3600, 0);
    crate::clock::lemma_at(18int * 3600, 0);
    let hours = hours_of(SunTimes::defaults());
    assert(hours.0 =~= "06:00"@);
    assert(hours.1 =~= "12:00"@);
    assert(hours.2 =~= "18:00"@);
}

/// The hours shown are those that brightness goes by: sun times that are just computed, or the
/// defaults after a failed lookup.
pub proof fn hours_shown_are_those_followed(s: LoopState, event: Event, needs_refetch: bool)
    ensures
        ({
            let t = s.step(event, needs_refetch);
            t.effects.hours is Some ==> match t.action {
                Action::Apply { sun_times, .. } => t.effects.hours == Some(hours_of(sun_times)),
                Action::FetchForecast { sun_times, .. } => t.effects.hours == Some(
                    hours_of(sun_times),
                ),
                _ => false,
            }
        }),
{
    if s.stage == Stage::Detecting {
        failed_lookup_goes_by_the_defaults(s, needs_refetch);
    }
}

/// That every display is due again is not forgotten until brightness is set, and handed on once.
pub proof fn reassert_waits_for_brightness(s: LoopState, event: Event, needs_refetch: bool)
    ensures
        ({
            let t = s.step(event, needs_refetch);
            let due = s.reassert || (s.stage == Stage::Asleep && event is Wake
                && event->Wake_0.reassert);
            match t.action {
                Action::Apply { reassert, .. } => reassert == due && !t.next.reassert,
                _ => t.next.reassert == due,
            }
        }),
{
}

/// A refresh that is asked for is taken up by the next round, once.
pub proof fn refresh_is_taken_once<C>(
    s: LoopState,
    settings: RoundSettings,
    before: SharedState<C>,
    after: SharedState<C>,
)
    requires
        s.stage == Stage::Asleep,
        before.needs_refetch,
        s.step(Event::Wake(settings), true).effects.turn(before, after),
    ensures
        s.step(Event::Wake(settings), true).action == Action::ListDisplays,
        !after.needs_refetch,
{
}

/// A loop starts asleep, knowing nothing.
pub proof fn loop_starts_knowing_nothing()
    ensures
        LoopState::start().stage == Stage::Asleep,
        LoopState::start().sun_times is None,
        LoopState::start().location is None,
        !LoopState::start().reassert,
{
}

/// Whatever happens, the loop leaves alone what is not its own: the settings, the levels, the lit
/// displays and what is known of the sky at the moment.
pub proof fn loop_leaves_the_rest_alone<C>(
    s: LoopState,
    event: Event,
    before: SharedState<C>,
    after: SharedState<C>,
)
    requires
        s.step(event, before.needs_refetch).effects.turn(before, after),
    ensures
        after.config == before.config,
        after.current_brightness == before.current_brightness,
        after.current_elevation == before.current_elevation,
        after.current_day_progress == before.current_day_progress,
        after.current_cloud_cover == before.current_cloud_cover,
        after.latest_version == before.latest_version,
        after.base_targets == before.base_targets,
        after.active_display == before.active_display,
        after.lit_displays == before.lit_displays,
        after.last_written == before.last_written,
        after.needs_refetch ==> before.needs_refetch,
        !(s.stage == Stage::Asleep && event is Wake) ==> after.needs_refetch
            == before.needs_refetch,
{
}

/// A round goes by the settings that it begins with, keeps what is known, and finds out anew about
/// the sun exactly where that was asked for or something is not known.
pub proof fn round_begins_with_its_settings<C>(
    s: LoopState,
    settings: RoundSettings,
    before: SharedState<C>,
    after: SharedState<C>,
)
    requires
        s.stage == Stage::Asleep,
        s.step(Event::Wake(settings), before.needs_refetch).effects.turn(before, after),
    ensures
        ({
            let t = s.step(Event::Wake(settings), before.needs_refetch);
            let known = s.sun_times is Some && s.location is Some;
            &&& t.next.configured == settings.configured
            &&& t.next.coordinates == settings.coordinates@
            &&& t.next.weather_adaptive == settings.weather_adaptive
            &&& t.next.interval == settings.update_interval_secs
            &&& t.next.sun_times == s.sun_times && t.next.location == s.location
            &&& before.needs_refetch || !known ==> {
                &&& t.action == Action::ListDisplays
                &&& t.next.stage == Stage::Listing
            }
            &&& !before.needs_refetch && known ==> {
                &&& t.next.stage == Stage::Applying
                &&& t.action is Apply
                &&& t.action->Apply_sun_times == s.sun_times->0
                &&& t.action->place == s.location
            }
            &&& !after.needs_refetch
            &&& after.detected_monitors == before.detected_monitors
            &&& after.status == before.status
            &&& after.location_str == before.location_str
            &&& after.sunrise_str == before.sunrise_str && after.noon_str == before.noon_str
            &&& after.sunset_str == before.sunset_str
            &&& after.weather_forecast == before.weather_forecast
        }),
{
}

/// The place that the settings name is the one whose sun is followed, whatever place was known
/// before; without one the place is looked up.
pub proof fn configured_place_is_followed<C>(
    s: LoopState,
    names: Vec<String>,
    before: SharedState<C>,
    after: SharedState<C>,
)
    requires
        s.stage == Stage::Listing,
        s.step(Event::Displays(names), before.needs_refetch).effects.turn(before, after),
    ensures
        ({
            let t = s.step(Event::Displays(names), before.needs_refetch);
            &&& after.detected_monitors@ == names@
            &&& after.sunrise_str == before.sunrise_str && after.noon_str == before.noon_str
            &&& after.sunset_str == before.sunset_str
            &&& after.weather_forecast == before.weather_forecast
            &&& t.next.sun_times == s.sun_times
            &&& t.next.weather_adaptive == s.weather_adaptive && t.next.interval == s.interval
            &&& s.configured matches Some(l) ==> {
                &&& t.action == (Action::ComputeSunTimes { location: l })
                &&& t.next.location == Some(l)
                &&& t.next.stage == (Stage::Computing { location: l })
                &&& after.location_str@ == s.coordinates
                &&& after.status@ == "Computing sun times..."@
            }
            &&& s.configured is None ==> {
                &&& t.action == Action::DetectLocation
                &&& t.next.stage == Stage::Detecting
                &&& t.next.location == s.location
                &&& after.location_str == before.location_str
                &&& after.status@ == "Detecting location..."@
            }
        }),
{
}

/// The place that a lookup finds is the one whose sun is followed, under the name that was found;
/// where it finds none the place counts as unknown.
pub proof fn detected_place_is_followed<C>(
    s: LoopState,
    found: Option<(Location, String)>,
    before: SharedState<C>,
    after: SharedState<C>,
)
    requires
        s.stage == Stage::Detecting,
        s.step(Event::Detected(found), before.needs_refetch).effects.turn(before, after),
    ensures
        ({
            let t = s.step(Event::Detected(found), before.needs_refetch);
            &&& after.detected_monitors == before.detected_monitors
            &&& after.weather_forecast == before.weather_forecast
            &&& t.next.sun_times == s.sun_times
            &&& t.next.weather_adaptive == s.weather_adaptive && t.next.interval == s.interval
            &&& found matches Some((l, label)) ==> {
                &&& t.action == (Action::ComputeSunTimes { location: l })
                &&& t.next.location == Some(l)
                &&& t.next.stage == (Stage::Computing { location: l })
                &&& after.location_str@ == label@
                &&& after.status@ == "Computing sun times..."@
                &&& after.sunrise_str == before.sunrise_str
                &&& after.noon_str == before.noon_str
                &&& after.sunset_str == before.sunset_str
            }
            &&& found is None ==> {
                &&& t.next.location is None
                &&& t.next.stage == Stage::Applying
                &&& after.location_str@ == "Unknown (using defaults)"@
                &&& after.status@ == "Location detection failed, using 6:00-18:00 defaults"@
                &&& after.sunrise_str@ == "06:00"@
                &&& after.noon_str@ == "12:00"@
                &&& after.sunset_str@ == "18:00"@
            }
        }),
{
}

/// Sun times that are computed are shown, each in its place, and followed at once, or once the
/// weather is known where that counts; a day without sunrise changes nothing but the status.
pub proof fn computed_sun_times_are_followed<C>(
    s: LoopState,
    times: Option<SunTimes>,
    location: Location,
    before: SharedState<C>,
    after: SharedState<C>,
)
    requires
        s.stage == (Stage::Computing { location }),
        s.step(Event::Computed(times), before.needs_refetch).effects.turn(before, after),
    ensures
        ({
            let t = s.step(Event::Computed(times), before.needs_refetch);
            &&& after.detected_monitors == before.detected_monitors
            &&& after.location_str == before.location_str
            &&& after.weather_forecast == before.weather_forecast
            &&& t.next.location == s.location && t.next.interval == s.interval
            &&& times matches Some(st) ==> {
                &&& after.sunrise_str@ == crate::clock::hour_minute_text(st.sunrise.secs())
                &&& after.noon_str@ == crate::clock::hour_minute_text(st.transit.secs())
                &&& after.sunset_str@ == crate::clock::hour_minute_text(st.sunset.secs())
                &&& s.weather_adaptive ==> {
                    &&& t.action == (Action::FetchForecast { location, sun_times: st })
                    &&& t.next.stage == (Stage::Fetching { location, sun_times: st })
                    &&& after.status == before.status
                }
                &&& !s.weather_adaptive ==> {
                    &&& t.action == (Action::Apply {
                        sun_times: st,
                        place: s.location,
                        reassert: s.reassert,
                    })
                    &&& t.next.stage == Stage::Applying
                    &&& t.next.sun_times == Some(st)
                    &&& after.status@ == "Running"@
                }
            }
            &&& times is None ==> {
                &&& t.action == (Action::Sleep { secs: s.interval })
                &&& t.next.stage == Stage::Asleep
                &&& t.next.sun_times == s.sun_times
                &&& after.status@ == "Polar night — no sunrise today"@
                &&& after.sunrise_str == before.sunrise_str
                &&& after.noon_str == before.noon_str
                &&& after.sunset_str == before.sunset_str
            }
        }),
{
}

/// A forecast that comes replaces the last, one that does not leaves it, and the sun times that were
/// waiting for it are followed either way.
pub proof fn forecast_is_taken_and_the_sun_followed<C>(
    s: LoopState,
    points: Option<Vec<(Number, Number)>>,
    location: Location,
    sun_times: SunTimes,
    before: SharedState<C>,
    after: SharedState<C>,
)
    requires
        s.stage == (Stage::Fetching { location, sun_times }),
        s.step(Event::Forecast(points), before.needs_refetch).effects.turn(before, after),
    ensures
        ({
            let t = s.step(Event::Forecast(points), before.needs_refetch);
            &&& points matches Some(p) ==> after.weather_forecast@ == p@
            &&& points is None ==> after.weather_forecast == before.weather_forecast
            &&& t.action == (Action::Apply {
                sun_times,
                place: s.location,
                reassert: s.reassert,
            })
            &&& t.next.stage == Stage::Applying
            &&& t.next.sun_times == Some(sun_times)
            &&& t.next.location == s.location && t.next.interval == s.interval
            &&& after.status@ == "Running"@
            &&& after.detected_monitors == before.detected_monitors
            &&& after.location_str == before.location_str
            &&& after.sunrise_str == before.sunrise_str && after.noon_str == before.noon_str
            &&& after.sunset_str == before.sunset_str
        }),
{
}

/// Once brightness is set the loop sleeps for the interval of the round, with nothing changed.
pub proof fn round_sleeps_once_brightness_is_set<C>(
    s: LoopState,
    before: SharedState<C>,
    after: SharedState<C>,
)
    requires
        s.stage == Stage::Applying,
        s.step(Event::Applied, before.needs_refetch).effects.turn(before, after),
    ensures
        ({
            let t = s.step(Event::Applied, before.needs_refetch);
            &&& t.action == (Action::Sleep { secs: s.interval })
            &&& t.next.stage == Stage::Asleep
            &&& t.next.sun_times == s.sun_times && t.next.location == s.location
            &&& after == before
        }),
{
}

/// An event that is not waited for ends the round, with nothing changed and nothing forgotten.
pub proof fn event_out_of_turn_ends_the_round<C>(
    s: LoopState,
    event: Event,
    before: SharedState<C>,
    after: SharedState<C>,
)
    requires
        !(s.stage == Stage::Asleep && event is Wake),
        !(s.stage == Stage::Listing && event is Displays),
        !(s.stage == Stage::Detecting && event is Detected),
        !(s.stage is Computing && event is Computed),
        !(s.stage is Fetching && event is Forecast),
        s.step(event, before.needs_refetch).effects.turn(before, after),
    ensures
        ({
            let t = s.step(event, before.needs_refetch);
            &&& t.action == (Action::Sleep { secs: s.interval })
            &&& t.next.stage == Stage::Asleep
            &&& t.next.sun_times == s.sun_times && t.next.location == s.location
            &&& after == before
        }),
{
}

/// From waking to brightness, a round that has to find out about a configured place asks for the
/// displays, then for the sun times of that place, and sets brightness by those.
pub proof fn round_follows_the_sun_of_its_place(
    s: LoopState,
    settings: RoundSettings,
    place: Location,
    names: Vec<String>,
    sun_times: SunTimes,
)
    requires
        s.stage == Stage::Asleep,
        settings.configured == Some(place),
        !settings.weather_adaptive,
    ensures
        ({
            let first = s.step(Event::Wake(settings), true);
            let second = first.next.step(Event::Displays(names), false);
            let third = second.next.step(Event::Computed(Some(sun_times)), false);
            let fourth = third.next.step(Event::Applied, false);
            &&& first.action == Action::ListDisplays
            &&& second.action == (Action::ComputeSunTimes { location: place })
            &&& third.action == (Action::Apply {
                sun_times,
                place: Some(place),
                reassert: s.reassert || settings.reassert,
            })
            &&& fourth.action == (Action::Sleep { secs: settings.update_interval_secs })
        }),
{
}

} // verus!
