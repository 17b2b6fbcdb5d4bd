//! The settings window: what it holds, what it shows and what its buttons do.

use crate::config::{copy_overrides, Config, DimMode, MonitorOverride, SharedState};
use crate::inactive::Platform;
use crate::number::Number;
use crate::text::{decimal_text, same_text};
use vstd::prelude::*;

verus! {

/// The settings window. `C` is a brightness curve.
pub struct SettingsApp<C> {
    pub settings_menu_id: String,
    pub quit_menu_id: String,
    pub visible: bool,
    pub first_frame: bool,
    pub lat_input: String,
    pub lon_input: String,
    pub update_interval_mins: u64,
    pub start_on_startup: bool,
    pub weather_adaptive: bool,
    pub cloud_attenuation: Number,
    pub dim_inactive: bool,
    pub dim_inactive_factor: Number,
    pub dim_mode: DimMode,
    pub global_curve: C,
    pub monitor_overrides: Vec<MonitorOverride<C>>,
    /// Zero for the global curve, one more than its place for a monitor override.
    pub active_tab: usize,
    pub dragging_point: Option<usize>,
}

/// What a menu entry or a button asks of the window.
#[derive(Clone, Copy, Debug, PartialEq, Eq, Structural)]
pub enum WindowCommand {
    /// Nothing.
    Stay,
    /// Show the window and focus it.
    Show,
    /// Hide the window.
    Hide,
    /// Keep the window from closing, and hide it.
    KeepHidden,
    /// End the program.
    Quit,
}

/// The parts of the window that depend on the tab shown.
#[derive(Clone, Copy, Debug, PartialEq, Eq, Structural)]
pub struct Sections {
    pub mode_selector: bool,
    pub presets: bool,
    /// The curve editor; else a note that the display is ignored.
    pub editor: bool,
    /// The weather forecast in the editor.
    pub forecast: bool,
}

/// What to say of where the coordinates come from.
#[derive(Debug)]
pub enum LocationHint {
    Nothing,
    Text(String),
}

/// A text that is there, or none of it.
pub open spec fn text_or_empty(text: Option<String>) -> Seq<char> {
    match text {
        Some(t) => t@,
        None => Seq::empty(),
    }
}

fn or_empty(text: Option<String>) -> (t: String)
    ensures
        t@ == text_or_empty(text),
{
    match text {
        Some(t) => t,
        None => String::new(),
    }
}

/// The largest number of minutes whose seconds can be counted.
pub const MAX_INTERVAL_MINS: u64 = 307_445_734_561_825_860;

impl<C> SettingsApp<C> {
    /// The interval can be given in seconds.
    pub open spec fn wf(self) -> bool {
        self.update_interval_mins <= MAX_INTERVAL_MINS
    }

    /// Whether the fields are those of `config`, its coordinates spelled `lat` and `lon`, with the
    /// global curve in front.
    pub open spec fn holds(self, config: Config<C>, lat: Option<String>, lon: Option<String>) -> bool {
        &&& self.lat_input@ == text_or_empty(lat)
        &&& self.lon_input@ == text_or_empty(lon)
        &&& self.update_interval_mins == config.update_interval_secs / 60
        &&& self.start_on_startup == config.start_on_startup
        &&& self.weather_adaptive == config.weather_adaptive
        &&& self.cloud_attenuation == config.cloud_attenuation
        &&& self.dim_inactive == config.dim_inactive
        &&& self.dim_inactive_factor == config.dim_inactive_factor
        &&& self.dim_mode == config.dim_mode
        &&& self.global_curve == config.global_curve
        &&& self.monitor_overrides == config.monitors
        &&& self.active_tab == 0
        &&& self.dragging_point is None
    }

    /// The window before its first frame; on Linux, where a tray icon may be missing, it is shown.
    pub fn new(
        config: Config<C>,
        lat: Option<String>,
        lon: Option<String>,
        settings_menu_id: String,
        quit_menu_id: String,
        platform: Platform,
    ) -> (app: Self)
        ensures
            app.wf(),
            app.holds(config, lat, lon),
            app.settings_menu_id == settings_menu_id,
            app.quit_menu_id == quit_menu_id,
            app.visible == (platform == Platform::Linux),
            app.first_frame,
    {
        SettingsApp {
            settings_menu_id,
            quit_menu_id,
            visible: matches!(platform, Platform::Linux),
            first_frame: true,
            lat_input: or_empty(lat),
            lon_input: or_empty(lon),
            update_interval_mins: config.update_interval_secs / 60,
            start_on_startup: config.start_on_startup,
            weather_adaptive: config.weather_adaptive,
            cloud_attenuation: config.cloud_attenuation,
            dim_inactive: config.dim_inactive,
            dim_inactive_factor: config.dim_inactive_factor,
            dim_mode: config.dim_mode,
            global_curve: config.global_curve,
            monitor_overrides: config.monitors,
            active_tab: 0,
            dragging_point: None,
        }
    }

    /// Fills the fields from `config` again.
    pub fn load_fields_from_config(
        &mut self,
        config: Config<C>,
        lat: Option<String>,
        lon: Option<String>,
    )
        ensures
            final(self).wf(),
            final(self).holds(config, lat, lon),
            final(self).settings_menu_id == old(self).settings_menu_id,
            final(self).quit_menu_id == old(self).quit_menu_id,
            final(self).visible == old(self).visible,
            final(self).first_frame == old(self).first_frame,
    {
        self.lat_input = or_empty(lat);
        self.lon_input = or_empty(lon);
        self.update_interval_mins = config.update_interval_secs / 60;
        self.start_on_startup = config.start_on_startup;
        self.weather_adaptive = config.weather_adaptive;
        self.cloud_attenuation = config.cloud_attenuation;
        self.dim_inactive = config.dim_inactive;
        self.dim_inactive_factor = config.dim_inactive_factor;
        self.dim_mode = config.dim_mode;
        self.global_curve = config.global_curve;
        self.monitor_overrides = config.monitors;
        self.active_tab = 0;
        self.dragging_point = None;
    }

    /// The override on the tab shown.
    pub open spec fn active_override(self) -> Option<MonitorOverride<C>> {
        if 0 < self.active_tab <= self.monitor_overrides@.len() {
            Some(self.monitor_overrides@[self.active_tab - 1])
        } else {
            None
        }
    }

    pub open spec fn active_mode_is(self, mode: Seq<char>) -> bool {
        self.active_override() is Some && self.active_override()->0.mode@ == mode
    }

    fn active_mode(&self, mode: &str) -> (b: bool)
        ensures
            b == self.active_mode_is(mode@),
    {
        if self.active_tab == 0 || self.active_tab - 1 >= self.monitor_overrides.len() {
            false
        } else {
            same_text(self.monitor_overrides[self.active_tab - 1].mode.as_str(), mode)
        }
    }

    /// The curve that the tab shown can edit: the global one, or the custom one of a monitor.
    pub open spec fn editable_curve(self) -> Option<C> {
        if self.active_tab == 0 {
            Some(self.global_curve)
        } else if self.active_mode_is("custom"@) {
            self.active_override()->0.curve
        } else {
            None
        }
    }

    /// The same window with `curve` as the one that the tab shown can edit.
    pub open spec fn edited(self, other: Self, curve: C) -> bool {
        if self.active_tab == 0 {
            other == (SettingsApp { global_curve: curve, ..self })
        } else {
            let at = self.active_tab - 1;
            &&& other == (SettingsApp { monitor_overrides: other.monitor_overrides, ..self })
            &&& other.monitor_overrides@ == self.monitor_overrides@.update(
                at,
                MonitorOverride { curve: Some(curve), ..self.monitor_overrides@[at] },
            )
        }
    }

    /// The curve that the tab shown can edit, to be changed.
    pub fn active_curve_mut(&mut self) -> (r: Option<&mut C>)
        ensures
            match r {
                Some(curve) => {
                    &&& old(self).editable_curve() == Some(*curve)
                    &&& old(self).edited(*final(self), *final(curve))
                },
                None => old(self).editable_curve() is None && *final(self) == *old(self),
            },
    {
        if self.active_tab == 0 {
            return Some(&mut self.global_curve);
        }
        if !self.active_mode("custom") {
            return None;
        }
        let at: usize = self.active_tab - 1;
        if self.monitor_overrides[at].curve.is_none() {
            return None;
        }
        self.monitor_overrides[at].curve.as_mut()
    }

    /// The curve that the tab shown displays, `default` standing for a custom one that is missing.
    pub open spec fn displayed_curve(self, default: C) -> C {
        if self.active_tab > 0 && self.active_mode_is("custom"@) {
            match self.active_override()->0.curve {
                Some(curve) => curve,
                None => default,
            }
        } else {
            self.global_curve
        }
    }

    /// The curve to display.
    pub fn active_curve_display<'a>(&'a self, default: &'a C) -> (c: &'a C)
        ensures
            *c == self.displayed_curve(*default),
    {
        if self.active_tab == 0 || !self.active_mode("custom") {
            return &self.global_curve;
        }
        match &self.monitor_overrides[self.active_tab - 1].curve {
            Some(curve) => curve,
            None => default,
        }
    }

    pub open spec fn editable(self) -> bool {
        self.active_tab == 0 || self.active_mode_is("custom"@)
    }

    /// Whether the tab shown offers a curve to edit.
    pub fn active_curve_is_editable(&self) -> (b: bool)
        ensures
            b == self.editable(),
    {
        self.active_tab == 0 || self.active_mode("custom")
    }

    /// What the tab shown consists of.
    pub fn sections(&self) -> (s: Sections)
        ensures
            s.mode_selector == (self.active_tab > 0),
            s.presets == self.editable(),
            s.editor == !self.active_mode_is("ignored"@),
            s.forecast == (s.editor && self.weather_adaptive),
    {
        let editor: bool = !self.active_mode("ignored");
        Sections {
            mode_selector: self.active_tab > 0,
            presets: self.active_curve_is_editable(),
            editor,
            forecast: editor && self.weather_adaptive,
        }
    }

    /// What a frame asks of the window as it begins.
    pub open spec fn frame_command(self, platform: Platform) -> WindowCommand {
        if self.first_frame && platform != Platform::Linux {
            WindowCommand::Hide
        } else {
            WindowCommand::Stay
        }
    }

    /// The window once a frame has begun.
    pub open spec fn begun(self) -> Self {
        SettingsApp { first_frame: false, ..self }
    }

    /// The window after `n` frames in which nothing was chosen or closed.
    pub open spec fn after_frames(self, n: nat) -> Self
        decreases n,
    {
        if n == 0 {
            self
        } else {
            self.after_frames((n - 1) as nat).begun()
        }
    }

    /// The first frame hides the window where it lives in the tray.
    pub fn begin_frame(&mut self, platform: Platform) -> (command: WindowCommand)
        ensures
            command == old(self).frame_command(platform),
            *final(self) == old(self).begun(),
    {
        let first: bool = self.first_frame;
        self.first_frame = false;
        if first && !matches!(platform, Platform::Linux) {
            WindowCommand::Hide
        } else {
            WindowCommand::Stay
        }
    }

    /// A menu entry was chosen: settings fills the fields from `config` and shows the window.
    pub fn menu_event(
        &mut self,
        id: &str,
        config: Config<C>,
        lat: Option<String>,
        lon: Option<String>,
    ) -> (command: WindowCommand)
        ensures
            if id@ == old(self).settings_menu_id@ {
                &&& command == WindowCommand::Show
                &&& final(self).visible
                &&& final(self).wf()
                &&& final(self).holds(config, lat, lon)
                &&& final(self).settings_menu_id == old(self).settings_menu_id
                &&& final(self).quit_menu_id == old(self).quit_menu_id
                &&& final(self).first_frame == old(self).first_frame
            } else {
                &&& *final(self) == *old(self)
                &&& command == if id@ == old(self).quit_menu_id@ {
                    WindowCommand::Quit
                } else {
                    WindowCommand::Stay
                }
            },
    {
        if same_text(id, self.settings_menu_id.as_str()) {
            self.load_fields_from_config(config, lat, lon);
            self.visible = true;
            WindowCommand::Show
        } else if same_text(id, self.quit_menu_id.as_str()) {
            WindowCommand::Quit
        } else {
            WindowCommand::Stay
        }
    }

    /// The window is asked to close, by the system or by its own button. On Linux that ends the
    /// program; elsewhere the window goes back to the tray.
    pub fn close(&mut self, platform: Platform, by_system: bool) -> (command: WindowCommand)
        ensures
            if platform == Platform::Linux {
                command == WindowCommand::Quit && *final(self) == *old(self)
            } else {
                &&& command == if by_system {
                    WindowCommand::KeepHidden
                } else {
                    WindowCommand::Hide
                }
                &&& *final(self) == (SettingsApp { visible: false, ..*old(self) })
            },
    {
        if matches!(platform, Platform::Linux) {
            return WindowCommand::Quit;
        }
        self.visible = false;
        if by_system {
            WindowCommand::KeepHidden
        } else {
            WindowCommand::Hide
        }
    }

    /// Sets the interval from its slider.
    pub fn set_interval_mins(&mut self, mins: u64)
        requires
            1 <= mins <= 30,
        ensures
            final(self).wf(),
            *final(self) == (SettingsApp { update_interval_mins: mins, ..*old(self) }),
    {
        self.update_interval_mins = mins;
    }

    /// What to say below the coordinates of a place that is called `place`.
    pub fn location_hint(&self, place: &str) -> (hint: LocationHint)
        ensures
            if place@.len() > 0 {
                hint is Text && hint->Text_0@ == "Detected: "@ + place@
            } else if self.lat_input@.len() == 0 && self.lon_input@.len() == 0 {
                hint is Text && hint->Text_0@ == "(auto-detected from IP)"@
            } else {
                hint is Nothing
            },
    {
        if !place.is_empty() {
            LocationHint::Text("Detected: ".to_owned().concat(place))
        } else if self.lat_input.as_str().is_empty() && self.lon_input.as_str().is_empty() {
            LocationHint::Text("(auto-detected from IP)".to_owned())
        } else {
            LocationHint::Nothing
        }
    }

    /// Whether each coordinate is acceptable: left out, or a number.
    pub fn coordinates_ok(&self, lat: Option<Number>, lon: Option<Number>) -> (ok: (bool, bool))
        ensures
            ok.0 == (self.lat_input@.len() == 0 || lat is Some),
            ok.1 == (self.lon_input@.len() == 0 || lon is Some),
    {
        (
            self.lat_input.as_str().is_empty() || lat.is_some(),
            self.lon_input.as_str().is_empty() || lon.is_some(),
        )
    }
}

impl<C: Clone> SettingsApp<C> {
    /// Whether `config` says what the fields do, the coordinates read as `lat` and `lon`.
    pub open spec fn says(self, config: Config<C>, lat: Option<Number>, lon: Option<Number>) -> bool {
        &&& config.latitude == lat
        &&& config.longitude == lon
        &&& config.update_interval_secs == self.update_interval_mins * 60
        &&& config.start_on_startup == self.start_on_startup
        &&& config.weather_adaptive == self.weather_adaptive
        &&& config.cloud_attenuation == self.cloud_attenuation
        &&& config.dim_inactive == self.dim_inactive
        &&& config.dim_inactive_factor == self.dim_inactive_factor
        &&& config.dim_mode == self.dim_mode
        &&& cloned(self.global_curve, config.global_curve)
        &&& crate::config::overrides_copied(self.monitor_overrides@, config.monitors@)
    }

    /// The settings in the fields.
    pub fn to_config(&self, lat: Option<Number>, lon: Option<Number>) -> (config: Config<C>)
        requires
            self.wf(),
        ensures
            self.says(config, lat, lon),
    {
        Config {
            latitude: lat,
            longitude: lon,
            update_interval_secs: self.update_interval_mins * 60,
            start_on_startup: self.start_on_startup,
            global_curve: self.global_curve.clone(),
            monitors: copy_overrides(&self.monitor_overrides),
            weather_adaptive: self.weather_adaptive,
            cloud_attenuation: self.cloud_attenuation,
            dim_inactive: self.dim_inactive,
            dim_inactive_factor: self.dim_inactive_factor,
            dim_mode: self.dim_mode,
        }
    }

    /// Puts the settings in the fields into effect: the sun loop is to start afresh with them.
    pub fn save_and_apply(
        &self,
        state: &mut SharedState<C>,
        lat: Option<Number>,
        lon: Option<Number>,
    )
        requires
            self.wf(),
        ensures
            self.says(final(state).config, lat, lon),
            final(state).needs_refetch,
            *final(state) == (SharedState {
                config: final(state).config,
                needs_refetch: true,
                ..*old(state)
            }),
    {
        state.config = self.to_config(lat, lon);
        state.needs_refetch = true;
    }
}

/// A window that is left to itself hides once, with its first frame, and stays hidden; on Linux it
/// never hides and stays shown.
pub proof fn window_hides_once_at_most<C>(app: SettingsApp<C>, platform: Platform, n: nat)
    requires
        app.first_frame,
        app.visible == (platform == Platform::Linux),
    ensures
        app.after_frames(n).frame_command(platform) == if n == 0 && platform != Platform::Linux {
            WindowCommand::Hide
        } else {
            WindowCommand::Stay
        },
        app.after_frames(n).visible == (platform == Platform::Linux),
        app.after_frames(n) == (SettingsApp { first_frame: n == 0, ..app }),
    decreases n,
{
    if n > 0 {
        window_hides_once_at_most(app, platform, (n - 1) as nat);
    }
}

/// Whether the settings can be saved: both coordinates have to be acceptable.
pub fn may_save(ok: (bool, bool)) -> (b: bool)
    ensures
        b == (ok.0 && ok.1),
{
    ok.0 && ok.1
}

/// Settings that are loaded and saved again keep what the fields hold, the interval in full
/// minutes.
pub proof fn saving_keeps_what_was_loaded<C: Clone>(
    app: SettingsApp<C>,
    loaded: Config<C>,
    lat_text: Option<String>,
    lon_text: Option<String>,
    saved: Config<C>,
)
    requires
        app.holds(loaded, lat_text, lon_text),
        app.says(saved, loaded.latitude, loaded.longitude),
    ensures
        saved.update_interval_secs == loaded.update_interval_secs / 60 * 60,
        cloned(loaded.global_curve, saved.global_curve),
        crate::config::overrides_copied(loaded.monitors@, saved.monitors@),
        saved == (Config {
            update_interval_secs: saved.update_interval_secs,
            global_curve: saved.global_curve,
            monitors: saved.monitors,
            ..loaded
        }),
{
}

/// A curve offered for editing is the curve displayed.
pub proof fn edited_curve_is_the_displayed_one<C>(app: SettingsApp<C>, default: C)
    requires
        app.editable_curve() is Some,
    ensures
        app.editable(),
        app.displayed_curve(default) == app.editable_curve()->0,
{
}

/// A line of the status table.
#[derive(Debug)]
pub struct StatusRow {
    pub label: String,
    pub value: String,
}

/// The status table as labels and values.
pub open spec fn as_texts(rows: Seq<StatusRow>) -> Seq<(Seq<char>, Seq<char>)> {
    rows.map_values(|r: StatusRow| (r.label@, r.value@))
}

/// The sun is shown once its times are known, the cloud cover where the weather counts.
pub open spec fn status_texts<C>(
    state: SharedState<C>,
    weather_adaptive: bool,
    elevation: Seq<char>,
    cloud: Seq<char>,
) -> Seq<(Seq<char>, Seq<char>)> {
    let head = seq![
        ("Status:"@, state.status@),
        ("Brightness:"@, crate::text::decimal(state.current_brightness as nat) + " %"@),
    ];
    let sun = if state.sunrise_str@.len() > 0 {
        seq![
            (
                "Sun:"@,
                state.sunrise_str@ + " / "@ + state.noon_str@ + " / "@ + state.sunset_str@,
            ),
            ("Elevation:"@, elevation),
        ]
    } else {
        Seq::empty()
    };
    let sky = if weather_adaptive {
        seq![("Cloud cover:"@, cloud)]
    } else {
        Seq::empty()
    };
    head + sun + sky
}

/// The rows of the status table; `elevation` and `cloud` are the sun's height and the cloud cover as
/// shown to the user.
pub fn draw_status<C>(
    state: &SharedState<C>,
    weather_adaptive: bool,
    elevation: String,
    cloud: String,
) -> (rows: Vec<StatusRow>)
    ensures
        as_texts(rows@) == status_texts(*state, weather_adaptive, elevation@, cloud@),
{
    let mut rows: Vec<StatusRow> = Vec::new();
    rows.push(StatusRow { label: "Status:".to_owned(), value: state.status.clone() });
    rows.push(
        StatusRow {
            label: "Brightness:".to_owned(),
            value: decimal_text(state.current_brightness).concat(" %"),
        },
    );
    if !state.sunrise_str.as_str().is_empty() {
        let hours: String = state.sunrise_str.clone().concat(" / ").concat(
            state.noon_str.as_str(),
        ).concat(" / ").concat(state.sunset_str.as_str());
        rows.push(StatusRow { label: "Sun:".to_owned(), value: hours });
        rows.push(StatusRow { label: "Elevation:".to_owned(), value: elevation });
    }
    if weather_adaptive {
        rows.push(StatusRow { label: "Cloud cover:".to_owned(), value: cloud });
    }
    assert(as_texts(rows@) =~= status_texts(*state, weather_adaptive, elevation@, cloud@));
    rows
}

/// Each field of the window holds its own setting: the interval in full minutes, the coordinates as
/// they are spelled, empty where there are none, and the global curve in front.
pub proof fn each_field_holds_its_setting<C>(
    app: SettingsApp<C>,
    config: Config<C>,
    lat: Option<String>,
    lon: Option<String>,
)
    requires
        app.holds(config, lat, lon),
    ensures
        lat matches Some(text) ==> app.lat_input@ == text@,
        lon matches Some(text) ==> app.lon_input@ == text@,
        lat is None ==> app.lat_input@.len() == 0,
        lon is None ==> app.lon_input@.len() == 0,
        60 * app.update_interval_mins <= config.update_interval_secs < 60 * (
        app.update_interval_mins + 1),
        app.start_on_startup == config.start_on_startup,
        app.weather_adaptive == config.weather_adaptive,
        app.cloud_attenuation == config.cloud_attenuation,
        app.dim_inactive == config.dim_inactive,
        app.dim_inactive_factor == config.dim_inactive_factor,
        app.dim_mode == config.dim_mode,
        app.global_curve == config.global_curve,
        app.monitor_overrides == config.monitors,
        app.active_tab == 0,
        app.dragging_point is None,
{
}

/// Each setting that is saved is what its own field says, the interval in seconds and the coordinates
/// as they were read.
pub proof fn each_setting_is_what_its_field_says<C: Clone>(
    app: SettingsApp<C>,
    config: Config<C>,
    lat: Option<Number>,
    lon: Option<Number>,
    i: int,
)
    requires
        app.says(config, lat, lon),
        0 <= i < app.monitor_overrides@.len(),
    ensures
        config.latitude == lat,
        config.longitude == lon,
        config.update_interval_secs == 60 * app.update_interval_mins,
        config.start_on_startup == app.start_on_startup,
        config.weather_adaptive == app.weather_adaptive,
        config.cloud_attenuation == app.cloud_attenuation,
        config.dim_inactive == app.dim_inactive,
        config.dim_inactive_factor == app.dim_inactive_factor,
        config.dim_mode == app.dim_mode,
        cloned(app.global_curve, config.global_curve),
        config.monitors@.len() == app.monitor_overrides@.len(),
        config.monitors@[i].name == app.monitor_overrides@[i].name,
        config.monitors@[i].mode == app.monitor_overrides@[i].mode,
        config.monitors@[i].curve is Some <==> app.monitor_overrides@[i].curve is Some,
        app.monitor_overrides@[i].curve is Some ==> cloned(
            app.monitor_overrides@[i].curve->0,
            config.monitors@[i].curve->0,
        ),
{
    assert(app.monitor_overrides@[i].copied(config.monitors@[i]));
}

/// The first tab is the global curve's, the others are those of the overrides in order. A tab of a
/// monitor with a curve of its own shows and edits that curve; every other shows the global one and
/// offers nothing to edit.
pub proof fn each_tab_has_its_own_curve<C>(app: SettingsApp<C>, default: C)
    ensures
        app.active_tab == 0 ==> {
            &&& app.editable_curve() == Some(app.global_curve)
            &&& app.displayed_curve(default) == app.global_curve
            &&& app.editable()
            &&& !app.active_mode_is("ignored"@)
        },
        0 < app.active_tab <= app.monitor_overrides@.len() ==> {
            let m = app.monitor_overrides@[app.active_tab - 1];
            let own = m.mode@ == "custom"@;
            &&& app.editable() <==> own
            &&& own ==> app.editable_curve() == m.curve
            &&& own && m.curve is Some ==> app.displayed_curve(default) == m.curve->0
            &&& own && m.curve is None ==> app.displayed_curve(default) == default
            &&& !own ==> app.editable_curve() is None && app.displayed_curve(default)
                == app.global_curve
            &&& app.active_mode_is("ignored"@) <==> m.mode@ == "ignored"@
        },
        app.active_tab > app.monitor_overrides@.len() ==> {
            &&& !app.editable()
            &&& app.editable_curve() is None
            &&& app.displayed_curve(default) == app.global_curve
            &&& !app.active_mode_is("ignored"@)
        },
{
}

/// Editing a curve changes that curve and nothing else: no other curve, no name and no mode.
pub proof fn editing_changes_one_curve<C>(
    app: SettingsApp<C>,
    other: SettingsApp<C>,
    curve: C,
    i: int,
)
    requires
        app.edited(other, curve),
        app.active_tab <= app.monitor_overrides@.len(),
        0 <= i < app.monitor_overrides@.len(),
    ensures
        other.monitor_overrides@.len() == app.monitor_overrides@.len(),
        other.monitor_overrides@[i].name == app.monitor_overrides@[i].name,
        other.monitor_overrides@[i].mode == app.monitor_overrides@[i].mode,
        other.monitor_overrides@[i].curve == if app.active_tab == i + 1 {
            Some(curve)
        } else {
            app.monitor_overrides@[i].curve
        },
        other.global_curve == if app.active_tab == 0 {
            curve
        } else {
            app.global_curve
        },
        other.active_tab == app.active_tab,
        other.visible == app.visible && other.first_frame == app.first_frame,
        other.lat_input == app.lat_input && other.lon_input == app.lon_input,
        other.update_interval_mins == app.update_interval_mins,
        other.weather_adaptive == app.weather_adaptive,
        other.cloud_attenuation == app.cloud_attenuation,
        other.dim_inactive == app.dim_inactive,
        other.dim_inactive_factor == app.dim_inactive_factor,
        other.dim_mode == app.dim_mode,
        other.start_on_startup == app.start_on_startup,
{
}

/// The status table says how the program does and how bright the screens are; then the sun's hours
/// in their order and its height, once the hours are known; and last the cloud cover, where the
/// weather counts.
pub proof fn status_table_has_its_rows<C>(
    state: SharedState<C>,
    weather_adaptive: bool,
    elevation: Seq<char>,
    cloud: Seq<char>,
    rows: Seq<StatusRow>,
)
    requires
        as_texts(rows) == status_texts(state, weather_adaptive, elevation, cloud),
    ensures
        ({
            let sun = state.sunrise_str@.len() > 0;
            let at = if sun {
                4int
            } else {
                2
            };
            &&& rows.len() == at + if weather_adaptive {
                1int
            } else {
                0
            }
            &&& rows[0].label@ == "Status:"@ && rows[0].value@ == state.status@
            &&& rows[1].label@ == "Brightness:"@
            &&& rows[1].value@ == crate::text::decimal(state.current_brightness as nat) + " %"@
            &&& sun ==> {
                &&& rows[2].label@ == "Sun:"@
                &&& rows[2].value@ == state.sunrise_str@ + " / "@ + state.noon_str@ + " / "@
                    + state.sunset_str@
                &&& rows[3].label@ == "Elevation:"@ && rows[3].value@ == elevation
            }
            &&& weather_adaptive ==> rows[at].label@ == "Cloud cover:"@ && rows[at].value@ == cloud
        }),
{
    let texts = status_texts(state, weather_adaptive, elevation, cloud);
    assert(texts.len() == rows.len());
    assert forall|i: int| 0 <= i < rows.len() implies texts[i] == (
        (#[trigger] rows[i]).label@,
        rows[i].value@,
    ) by {
        assert(as_texts(rows)[i] == texts[i]);
    }
    assert(texts[0] == (rows[0].label@, rows[0].value@));
    assert(texts[1] == (rows[1].label@, rows[1].value@));
    if state.sunrise_str@.len() > 0 {
        assert(texts[2] == (rows[2].label@, rows[2].value@));
        assert(texts[3] == (rows[3].label@, rows[3].value@));
    }
    if weather_adaptive {
        let last = texts.len() - 1;
        assert(texts[last] == (rows[last].label@, rows[last].value@));
    }
}

/// Only the first frame hides the window, and never on Linux; a frame that begins changes nothing
/// else.
pub proof fn only_the_first_frame_hides<C>(app: SettingsApp<C>, platform: Platform)
    ensures
        app.frame_command(platform) == WindowCommand::Hide || app.frame_command(platform)
            == WindowCommand::Stay,
        app.frame_command(platform) == WindowCommand::Hide <==> app.first_frame && platform
            != Platform::Linux,
        !app.begun().first_frame,
        app.begun().visible == app.visible,
        app == (SettingsApp { first_frame: app.first_frame, ..app.begun() }),
{
}

} // verus!
