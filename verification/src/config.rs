//! Settings, and the state that the parts of the program share.

use crate::displays::DisplaySet;
use crate::levels::LevelMap;
use crate::number::{Number, HALF_BITS, THREE_TENTHS_BITS, ZERO_BITS};
use vstd::prelude::*;

verus! {

pub const REPO_URL: &'static str = "https://github.com/Vianpyro/sunrise-brightness";

/// Where the settings stand when the system names no directory for them.
pub const FALLBACK_DIR: &'static str = ".";

/// The file that holds the settings.
pub const CONFIG_FILE: &'static str = "config.toml";

/// Which screens count as in use.
#[derive(Clone, Copy, Debug, PartialEq, Eq, Structural)]
pub enum DimMode {
    /// Only the screen that holds the focused window.
    Focused,
    /// Every screen that shows a window.
    Empty,
}

/// What a monitor does instead of following the global curve. `C` is a brightness curve.
#[derive(Debug)]
pub struct MonitorOverride<C> {
    pub name: String,
    /// `"custom"` for a monitor with a curve of its own, `"ignored"` for one whose brightness is not
    /// adjusted.
    pub mode: String,
    pub curve: Option<C>,
}

impl<C: Clone> MonitorOverride<C> {
    /// `other` is a copy: the same but for the curve, which is a clone.
    pub open spec fn copied(self, other: Self) -> bool {
        &&& other.name == self.name
        &&& other.mode == self.mode
        &&& match (self.curve, other.curve) {
            (Some(a), Some(b)) => cloned(a, b),
            (None, None) => true,
            _ => false,
        }
    }
}

impl<C: Clone> Clone for MonitorOverride<C> {
    fn clone(&self) -> (r: Self)
        ensures
            self.copied(r),
    {
        MonitorOverride {
            name: self.name.clone(),
            mode: self.mode.clone(),
            curve: match &self.curve {
                Some(c) => Some(c.clone()),
                None => None,
            },
        }
    }
}

/// The settings. `C` is a brightness curve.
#[derive(Debug)]
pub struct Config<C> {
    pub latitude: Option<Number>,
    pub longitude: Option<Number>,
    pub update_interval_secs: u64,
    pub start_on_startup: bool,
    pub global_curve: C,
    pub monitors: Vec<MonitorOverride<C>>,
    pub weather_adaptive: bool,
    pub cloud_attenuation: Number,
    pub dim_inactive: bool,
    pub dim_inactive_factor: Number,
    pub dim_mode: DimMode,
}

/// `b` is a copy of the overrides `a`.
pub open spec fn overrides_copied<C: Clone>(
    a: Seq<MonitorOverride<C>>,
    b: Seq<MonitorOverride<C>>,
) -> bool {
    a.len() == b.len() && forall|i: int| 0 <= i < a.len() ==> (#[trigger] a[i]).copied(b[i])
}

/// A copy of the overrides.
pub fn copy_overrides<C: Clone>(a: &Vec<MonitorOverride<C>>) -> (b: Vec<MonitorOverride<C>>)
    ensures
        overrides_copied(a@, b@),
{
    let mut b: Vec<MonitorOverride<C>> = Vec::new();
    let mut i: usize = 0;
    while i < a.len()
        invariant
            i <= a@.len(),
            b@.len() == i,
            forall|j: int| 0 <= j < i ==> (#[trigger] a@[j]).copied(b@[j]),
        decreases a@.len() - i,
    {
        b.push(a[i].clone());
        i = i + 1;
    }
    b
}

impl<C: Clone> Clone for Config<C> {
    fn clone(&self) -> (r: Self)
        ensures
            cloned(self.global_curve, r.global_curve),
            overrides_copied(self.monitors@, r.monitors@),
            r == (Config { global_curve: r.global_curve, monitors: r.monitors, ..*self }),
    {
        Config {
            latitude: self.latitude,
            longitude: self.longitude,
            update_interval_secs: self.update_interval_secs,
            start_on_startup: self.start_on_startup,
            global_curve: self.global_curve.clone(),
            monitors: copy_overrides(&self.monitors),
            weather_adaptive: self.weather_adaptive,
            cloud_attenuation: self.cloud_attenuation,
            dim_inactive: self.dim_inactive,
            dim_inactive_factor: self.dim_inactive_factor,
            dim_mode: self.dim_mode,
        }
    }
}

impl<C: Default> Default for Config<C> {
    fn default() -> (r: Self)
        ensures
            r.latitude is None,
            r.longitude is None,
            r.update_interval_secs == 180,
            r.start_on_startup,
            call_ensures(C::default, (), r.global_curve),
            r.monitors@.len() == 0,
            !r.weather_adaptive,
            r.cloud_attenuation == (Number { bits: HALF_BITS }),
            !r.dim_inactive,
            r.dim_inactive_factor == (Number { bits: THREE_TENTHS_BITS }),
            r.dim_mode == DimMode::Focused,
    {
        Config {
            latitude: None,
            longitude: None,
            update_interval_secs: 180,
            start_on_startup: true,
            global_curve: C::default(),
            monitors: Vec::new(),
            weather_adaptive: false,
            cloud_attenuation: Number { bits: HALF_BITS },
            dim_inactive: false,
            dim_inactive_factor: Number { bits: THREE_TENTHS_BITS },
            dim_mode: DimMode::Focused,
        }
    }
}

/// Display keys that should stay at full brightness.
///
/// `None` means "could not tell": nothing is dimmed, so that a machine misread stays bright
/// instead of going dark.
pub type LitDisplays = Option<DisplaySet>;

/// What the sun loop, the watch on idle screens and the settings window share.
pub struct SharedState<C> {
    pub config: Config<C>,
    pub needs_refetch: bool,
    pub status: String,
    pub current_brightness: u32,
    pub current_elevation: Number,
    pub current_day_progress: Number,
    pub sunrise_str: String,
    pub noon_str: String,
    pub sunset_str: String,
    pub detected_monitors: Vec<String>,
    pub latest_version: Option<String>,
    pub location_str: String,
    pub weather_forecast: Vec<(Number, Number)>,
    pub current_cloud_cover: Number,
    /// Brightness each physical monitor would get if it were active, before the
    /// inactive-dim factor. Written by the sun loop, read when re-pushing.
    pub base_targets: LevelMap,
    /// Display holding the foreground window, e.g. `\\.\DISPLAY1`.
    pub active_display: Option<String>,
    pub lit_displays: LitDisplays,
    /// The level last sent to each device.
    pub last_written: LevelMap,
}

impl<C> SharedState<C> {
    /// Brightness is a percentage.
    pub open spec fn wf(self) -> bool {
        self.current_brightness <= 100
    }

    pub fn new(config: Config<C>) -> (s: Self)
        ensures
            s.wf(),
            s.config == config,
            s.needs_refetch,
            s.status@ == "Starting..."@,
            s.current_brightness == 50,
            s.current_elevation == (Number { bits: ZERO_BITS }),
            s.current_day_progress == (Number { bits: ZERO_BITS }),
            s.sunrise_str@.len() == 0,
            s.noon_str@.len() == 0,
            s.sunset_str@.len() == 0,
            s.detected_monitors@.len() == 0,
            s.latest_version is None,
            s.location_str@.len() == 0,
            s.weather_forecast@.len() == 0,
            s.current_cloud_cover == (Number { bits: ZERO_BITS }),
            s.base_targets@ == Map::<Seq<char>, u32>::empty(),
            s.active_display is None,
            s.lit_displays is None,
            s.last_written@ == Map::<Seq<char>, u32>::empty(),
    {
        SharedState {
            config,
            needs_refetch: true,
            status: "Starting...".to_owned(),
            current_brightness: 50,
            current_elevation: Number { bits: ZERO_BITS },
            current_day_progress: Number { bits: ZERO_BITS },
            sunrise_str: String::new(),
            noon_str: String::new(),
            sunset_str: String::new(),
            detected_monitors: Vec::new(),
            latest_version: None,
            location_str: String::new(),
            weather_forecast: Vec::new(),
            current_cloud_cover: Number { bits: ZERO_BITS },
            base_targets: LevelMap::new(),
            active_display: None,
            lit_displays: None,
            last_written: LevelMap::new(),
        }
    }

    pub fn set_status(&mut self, s: &str)
        ensures
            final(self).status@ == s@,
            *final(self) == (SharedState { status: final(self).status, ..*old(self) }),
    {
        self.status = s.to_owned();
    }
}

/// A copy of overrides names the same monitors in the same order, each with its mode and a clone of
/// its curve.
pub proof fn copied_overrides_are_the_same<C: Clone>(
    a: Seq<MonitorOverride<C>>,
    b: Seq<MonitorOverride<C>>,
    i: int,
)
    requires
        overrides_copied(a, b),
        0 <= i < a.len(),
    ensures
        a.len() == b.len(),
        b[i].name == a[i].name,
        b[i].mode == a[i].mode,
        a[i].curve is Some <==> b[i].curve is Some,
        a[i].curve is Some ==> cloned(a[i].curve->0, b[i].curve->0),
{
    assert(a[i].copied(b[i]));
}

} // verus!
