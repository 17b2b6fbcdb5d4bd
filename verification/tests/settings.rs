use sunrise_brightness::config::{Config, DimMode, MonitorOverride, SharedState};
use sunrise_brightness::inactive::Platform;
use sunrise_brightness::number::Number;
use sunrise_brightness::text::decimal_text;
use sunrise_brightness::ui::{draw_status, may_save, LocationHint, Sections, SettingsApp, WindowCommand};

fn number(x: f64) -> Number {
    Number { bits: x.to_bits() }
}

fn monitor(mode: &str, curve: Option<u8>) -> MonitorOverride<u8> {
    MonitorOverride { name: "m".to_string(), mode: mode.to_string(), curve }
}

fn config() -> Config<u8> {
    Config {
        latitude: Some(number(45.5)),
        longitude: None,
        update_interval_secs: 630,
        start_on_startup: false,
        global_curve: 1,
        monitors: vec![
            monitor("custom", Some(2)),
            monitor("custom", None),
            monitor("ignored", Some(3)),
            monitor("global", Some(4)),
        ],
        weather_adaptive: true,
        cloud_attenuation: number(0.25),
        dim_inactive: true,
        dim_inactive_factor: number(0.75),
        dim_mode: DimMode::Empty,
    }
}

fn app(platform: Platform) -> SettingsApp<u8> {
    SettingsApp::new(
        config(),
        Some("45.5000".to_string()),
        None,
        "settings".to_string(),
        "quit".to_string(),
        platform,
    )
}

#[test]
fn fields_come_from_the_settings() {
    let a = app(Platform::Linux);
    assert!(a.visible && a.first_frame);
    assert!(!app(Platform::Windows).visible);
    assert_eq!((a.lat_input.as_str(), a.lon_input.as_str()), ("45.5000", ""));
    assert_eq!(a.update_interval_mins, 10);
    assert!(!a.start_on_startup && a.weather_adaptive && a.dim_inactive);
    assert_eq!(a.cloud_attenuation, number(0.25));
    assert_eq!(a.dim_inactive_factor, number(0.75));
    assert_eq!(a.dim_mode, DimMode::Empty);
    assert_eq!((a.global_curve, a.monitor_overrides.len(), a.active_tab), (1, 4, 0));
}

#[test]
fn saving_puts_the_fields_into_effect() {
    let mut state = SharedState::new(Config::<u8>::default());
    state.needs_refetch = false;
    let mut a = app(Platform::Linux);
    a.save_and_apply(&mut state, Some(number(45.5)), None);
    assert!(state.needs_refetch);
    // The interval is kept in full minutes.
    assert_eq!(state.config.update_interval_secs, 600);
    assert_eq!(state.config.latitude, Some(number(45.5)));
    assert_eq!(state.config.longitude, None);
    assert_eq!(state.config.global_curve, 1);
    assert_eq!(state.config.monitors.len(), 4);
    assert_eq!(state.config.monitors[0].curve, Some(2));
    assert_eq!(state.config.dim_mode, DimMode::Empty);
    a.set_interval_mins(3);
    assert_eq!(a.to_config(None, None).update_interval_secs, 180);
}

#[test]
fn tabs_show_and_edit_their_curves() {
    let mut a = app(Platform::Linux);
    let table = [
        // tab, displayed, curve to edit, sections
        (0, 1, Some(1), (false, true, true)),
        (1, 2, Some(2), (true, true, true)),
        (2, 9, None, (true, true, true)),
        (3, 1, None, (true, false, false)),
        (4, 1, None, (true, false, true)),
        (5, 1, None, (true, false, true)),
        (usize::MAX, 1, None, (true, false, true)),
    ];
    for (tab, displayed, editable, (mode_selector, presets, editor)) in table {
        a.active_tab = tab;
        assert_eq!(*a.active_curve_display(&9), displayed, "tab {tab}");
        assert_eq!(a.active_curve_mut().map(|c| *c), editable, "tab {tab}");
        assert_eq!(a.active_curve_is_editable(), presets, "tab {tab}");
        assert_eq!(
            a.sections(),
            Sections { mode_selector, presets, editor, forecast: editor },
            "tab {tab}"
        );
    }
    a.weather_adaptive = false;
    assert!(!a.sections().forecast);
    a.active_tab = 1;
    *a.active_curve_mut().unwrap() = 7;
    assert_eq!(a.monitor_overrides[0].curve, Some(7));
    assert_eq!(a.global_curve, 1);
    a.active_tab = 0;
    *a.active_curve_mut().unwrap() = 8;
    assert_eq!(a.global_curve, 8);
}

#[test]
fn menu_entries_show_and_quit() {
    let mut a = app(Platform::Windows);
    a.active_tab = 2;
    assert_eq!(a.menu_event("other", config(), None, None), WindowCommand::Stay);
    assert_eq!(a.active_tab, 2);
    assert_eq!(a.menu_event("quit", config(), None, None), WindowCommand::Quit);
    let lon = Some("1.0000".to_string());
    assert_eq!(a.menu_event("settings", config(), None, lon), WindowCommand::Show);
    assert!(a.visible);
    assert_eq!((a.active_tab, a.lat_input.as_str(), a.lon_input.as_str()), (0, "", "1.0000"));
}

#[test]
fn the_window_lives_in_the_tray_where_there_is_one() {
    let mut a = app(Platform::Windows);
    assert_eq!(a.begin_frame(Platform::Windows), WindowCommand::Hide);
    assert_eq!(a.begin_frame(Platform::Windows), WindowCommand::Stay);
    a.visible = true;
    assert_eq!(a.close(Platform::Windows, true), WindowCommand::KeepHidden);
    assert!(!a.visible);
    a.visible = true;
    assert_eq!(a.close(Platform::Other, false), WindowCommand::Hide);
    assert!(!a.visible);

    let mut a = app(Platform::Linux);
    assert_eq!(a.begin_frame(Platform::Linux), WindowCommand::Stay);
    assert!(!a.first_frame);
    assert_eq!(a.close(Platform::Linux, true), WindowCommand::Quit);
    assert_eq!(a.close(Platform::Linux, false), WindowCommand::Quit);
    assert!(a.visible);
}

#[test]
fn coordinates_are_left_out_or_numbers() {
    let a = app(Platform::Linux);
    assert_eq!(a.coordinates_ok(None, None), (false, true));
    assert_eq!(a.coordinates_ok(Some(number(45.5)), None), (true, true));
    assert!(matches!(a.location_hint(""), LocationHint::Nothing));
    match a.location_hint("Montreal, CA") {
        LocationHint::Text(t) => assert_eq!(t, "Detected: Montreal, CA"),
        LocationHint::Nothing => panic!(),
    }
    let blank = SettingsApp::new(config(), None, None, String::new(), String::new(), Platform::Linux);
    match blank.location_hint("") {
        LocationHint::Text(t) => assert_eq!(t, "(auto-detected from IP)"),
        LocationHint::Nothing => panic!(),
    }
}

fn rows(state: &SharedState<u8>, weather: bool) -> Vec<(String, String)> {
    draw_status(state, weather, "12.0°".to_string(), "40 %".to_string())
        .into_iter()
        .map(|r| (r.label, r.value))
        .collect()
}

#[test]
fn status_shows_what_is_known() {
    let mut state = SharedState::new(config());
    let row = |a: &str, b: &str| (a.to_string(), b.to_string());
    assert_eq!(rows(&state, false), vec![row("Status:", "Starting..."), row("Brightness:", "50 %")]);
    state.sunrise_str = "06:00".to_string();
    state.noon_str = "12:00".to_string();
    state.sunset_str = "18:00".to_string();
    assert_eq!(
        rows(&state, true),
        vec![
            row("Status:", "Starting..."),
            row("Brightness:", "50 %"),
            row("Sun:", "06:00 / 12:00 / 18:00"),
            row("Elevation:", "12.0°"),
            row("Cloud cover:", "40 %"),
        ]
    );
}

#[test]
fn numbers_are_written_in_decimal() {
    for n in [0, 7, 10, 99, 100, 4294967295] {
        assert_eq!(decimal_text(n), n.to_string());
    }
}

#[test]
fn settings_copy_in_full() {
    let (a, b) = (config(), config().clone());
    assert_eq!(a.latitude, b.latitude);
    assert_eq!(a.monitors.len(), b.monitors.len());
    assert_eq!(a.monitors[2].mode, b.monitors[2].mode);
    assert_eq!(a.monitors[2].curve, b.monitors[2].curve);
    assert_eq!(a.global_curve, b.global_curve);
}

#[test]
fn saving_needs_both_coordinates() {
    assert!(may_save((true, true)));
    assert!(!may_save((true, false)));
    assert!(!may_save((false, true)));
    assert!(!may_save((false, false)));
}

#[test]
fn a_window_left_to_itself_hides_once() {
    for platform in [Platform::Windows, Platform::Linux, Platform::Other] {
        let mut a = app(platform);
        let linux = platform == Platform::Linux;
        for frame in 0..5 {
            let hides = frame == 0 && !linux;
            let expected = if hides { WindowCommand::Hide } else { WindowCommand::Stay };
            assert_eq!(a.begin_frame(platform), expected);
            assert_eq!(a.visible, linux);
        }
    }
}
