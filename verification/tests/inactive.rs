use sunrise_brightness::config::{Config, DimMode, LitDisplays, SharedState};
use sunrise_brightness::displays::DisplaySet;
use sunrise_brightness::inactive::{dim_factor, display_key, wanted, win, x11, Platform, Watch};
use sunrise_brightness::number::Number;

const DEVICES: [(Platform, &str); 3] = [
    (Platform::Windows, r"\\.\DISPLAY2\Monitor0"),
    (Platform::Linux, "intel_backlight"),
    (Platform::Other, "intel_backlight"),
];

fn config(dim_inactive: bool) -> Config<u8> {
    Config {
        dim_inactive,
        dim_inactive_factor: number(0.3),
        ..Config::default()
    }
}

fn number(x: f64) -> Number {
    Number { bits: x.to_bits() }
}

fn factor(platform: Platform, device: &str, config: &Config<u8>, lit: &LitDisplays) -> f64 {
    f64::from_bits(dim_factor(platform, device, config, lit).bits)
}

fn lit(platform: Platform, devices: &[&str]) -> LitDisplays {
    let mut set = DisplaySet::new();
    for d in devices {
        set.insert(display_key(platform, d));
    }
    Some(set)
}

#[test]
fn keeps_a_device_whose_display_is_lit() {
    for (p, device) in DEVICES {
        assert_eq!(factor(p, device, &config(true), &lit(p, &[device])), 1.0);
    }
}

#[test]
fn dims_a_device_whose_display_is_not_lit() {
    for (p, device) in DEVICES {
        assert_eq!(factor(p, device, &config(true), &lit(p, &[])), 0.3);
    }
}

#[test]
fn never_dims_when_disabled_or_displays_are_unknown() {
    for (p, device) in DEVICES {
        assert_eq!(factor(p, device, &config(false), &lit(p, &[])), 1.0);
        assert_eq!(factor(p, device, &config(true), &None), 1.0);
    }
}

#[test]
fn groups_monitors_by_logical_display_without_prefix_confusion() {
    assert_eq!(win::display_key(r"\\.\DISPLAY1\Monitor0"), r"\\.\DISPLAY1");
    assert_ne!(
        win::display_key(r"\\.\DISPLAY10\Monitor0"),
        win::display_key(r"\\.\DISPLAY1\Monitor0")
    );
    assert_eq!(display_key(Platform::Windows, r"\\.\DISPLAY1\Monitor0"), r"\\.\DISPLAY1");
    assert_eq!(win::display_key("plain"), "plain");
}

#[test]
fn every_backlight_maps_to_the_builtin_panel() {
    assert_eq!(x11::display_key("intel_backlight"), x11::display_key("amdgpu_bl0"));
    assert_eq!(
        display_key(Platform::Linux, "intel_backlight"),
        display_key(Platform::Linux, "amdgpu_bl0")
    );
    assert_eq!(x11::display_key("intel_backlight"), "builtin");
}

#[test]
fn factor_is_held_between_zero_and_one() {
    let mut c = config(true);
    let none_lit = lit(Platform::Other, &[]);
    for (given, held) in [(1.5, 1.0), (-0.2, 0.0), (0.75, 0.75), (f64::INFINITY, 1.0)] {
        c.dim_inactive_factor = number(given);
        assert_eq!(factor(Platform::Other, "a", &c, &none_lit), held);
    }
    c.dim_inactive_factor = number(f64::NAN);
    assert!(factor(Platform::Other, "a", &c, &none_lit).is_nan());
}

#[test]
fn watch_pushes_changes_only() {
    let mut state = SharedState::new(config(true));
    let mut watch = Watch::new();
    assert!(!watch.poll(&mut state, None));
    assert!(!watch.poll(&mut state, Some(None)));
    assert!(watch.poll(&mut state, Some(lit(Platform::Other, &["a", "b"]))));
    assert!(state.lit_displays.as_ref().unwrap().contains("a"));
    // The same displays in another order are no change.
    assert!(!watch.poll(&mut state, Some(lit(Platform::Other, &["b", "a"]))));
    assert!(watch.poll(&mut state, Some(lit(Platform::Other, &["b"]))));
    assert!(!state.lit_displays.as_ref().unwrap().contains("a"));
    // Switching off releases once.
    assert!(watch.poll(&mut state, None));
    assert!(state.lit_displays.is_none());
    assert!(!watch.poll(&mut state, None));
}

#[test]
fn default_settings_dim_nothing() {
    let c: Config<u8> = Config::default();
    assert_eq!(c.latitude, None);
    assert_eq!(c.longitude, None);
    assert_eq!(c.update_interval_secs, 180);
    assert!(c.start_on_startup);
    assert_eq!(c.global_curve, 0);
    assert!(c.monitors.is_empty());
    assert!(!c.weather_adaptive);
    assert_eq!(f64::from_bits(c.cloud_attenuation.bits), 0.5);
    assert!(!c.dim_inactive);
    assert_eq!(f64::from_bits(c.dim_inactive_factor.bits), 0.3);
    assert_eq!(c.dim_mode, DimMode::Focused);
}

#[test]
fn state_starts_unrefreshed() {
    let mut s = SharedState::new(config(false));
    assert!(s.needs_refetch);
    assert_eq!(s.status, "Starting...");
    assert_eq!(s.current_brightness, 50);
    assert_eq!(s.sunrise_str, "");
    assert_eq!(s.last_written.get("x"), None);
    assert_eq!(s.base_targets.get("x"), None);
    s.set_status("Running");
    assert_eq!(s.status, "Running");
}

#[test]
fn sets_hold_a_key_once() {
    let mut a = DisplaySet::of("x".to_string());
    a.insert("x".to_string());
    assert!(a.same_keys(&DisplaySet::of("x".to_string())));
    a.insert("y".to_string());
    assert!(!a.same_keys(&DisplaySet::of("x".to_string())));
    assert!(a.clone().same_keys(&a));
    assert!(a.contains("y") && !a.contains("z"));
}

#[test]
fn displays_are_sampled_only_while_idle_ones_are_dimmed() {
    let mut state = SharedState::new(config(false));
    assert_eq!(wanted(&state), None);
    state.config = Config { dim_mode: DimMode::Empty, ..config(true) };
    assert_eq!(wanted(&state), Some(DimMode::Empty));
    state.config.dim_mode = DimMode::Focused;
    assert_eq!(wanted(&state), Some(DimMode::Focused));
}
