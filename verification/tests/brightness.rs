use sunrise_brightness::brightness::{
    apply_brightness, device_level, fade_brightness, fade_levels, needs_push, pushed, reapply,
    reassert, settle_brightness, to_percent, Light, Plan, Sample,
};
use sunrise_brightness::config::{Config, MonitorOverride, SharedState};
use sunrise_brightness::displays::DisplaySet;
use sunrise_brightness::inactive::Platform;
use sunrise_brightness::levels::LevelMap;
use sunrise_brightness::number::Number;

fn number(x: f64) -> Number {
    Number { bits: x.to_bits() }
}

fn names(list: &[&str]) -> Vec<String> {
    list.iter().map(|s| s.to_string()).collect()
}

/// A curve's percentage that is a tenth of that under a clear sky.
fn light(clouded: f64) -> Light {
    Light { clear: number(clouded * 10.0), clouded: number(clouded) }
}

fn sample(global: Light, overrides: Vec<Option<Light>>) -> Sample {
    Sample {
        progress: number(0.25),
        elevation: Some(number(1.25)),
        cloud: number(0.5),
        global,
        overrides,
    }
}

fn monitor(name: &str, mode: &str) -> MonitorOverride<u8> {
    MonitorOverride { name: name.to_string(), mode: mode.to_string(), curve: None }
}

#[test]
fn level_map_keeps_the_last_level() {
    let mut m = LevelMap::new();
    m.insert("a".to_string(), 1);
    m.insert("b".to_string(), 2);
    m.insert("a".to_string(), 3);
    assert_eq!(m.get("a"), Some(3));
    assert_eq!(m.get("b"), Some(2));
    assert_eq!(m.get("c"), None);
    m.clear();
    assert_eq!(m.get("a"), None);
}

#[test]
fn a_level_is_pushed_once() {
    let mut state = SharedState::new(Config::<u8>::default());
    assert!(needs_push(&state, "a", 40));
    pushed(&mut state, "a", 40, false);
    assert!(needs_push(&state, "a", 40));
    pushed(&mut state, "a", 40, true);
    assert!(!needs_push(&state, "a", 40));
    assert!(needs_push(&state, "a", 41));
    assert!(needs_push(&state, "b", 40));
    assert!(!reassert(&mut state, 3599));
    assert!(!needs_push(&state, "a", 40));
    assert!(reassert(&mut state, 3600));
    assert!(needs_push(&state, "a", 40));
}

#[test]
fn without_overrides_all_displays_fade_together() {
    let config = Config::<u8>::default();
    let mut state = SharedState::new(Config::<u8>::default());
    let s = sample(light(7.09), vec![]);
    let devices = names(&["a", "b"]);
    match apply_brightness(Platform::Other, &config, &mut state, &devices, &s, false) {
        Plan::Fade { from, to } => assert_eq!((from, to), (50, 70)),
        other => panic!("{other:?}"),
    }
    assert_eq!(state.current_elevation, number(1.0));
    assert_eq!(state.current_day_progress, number(0.25));
    assert_eq!(state.current_cloud_cover, number(0.0));
    assert_eq!(state.base_targets.get("a"), Some(70));
    assert_eq!(state.base_targets.get("b"), Some(70));
    assert_eq!(state.current_brightness, 50);
    settle_brightness(&config, &mut state, &s);
    assert_eq!(state.current_brightness, 70);
    let plan = apply_brightness(Platform::Other, &config, &mut state, &devices, &s, false);
    assert!(matches!(plan, Plan::Rest));
}

#[test]
fn overrides_set_their_own_levels() {
    let config = Config::<u8> {
        monitors: vec![
            monitor("a", "custom"),
            monitor("b", "ignored"),
            monitor("a", "custom"),
        ],
        weather_adaptive: true,
        dim_inactive: true,
        ..Config::default()
    };
    let mut state = SharedState::new(Config::<u8>::default());
    state.lit_displays = Some(DisplaySet::of("b".to_string()));
    let s = sample(light(150.0), vec![Some(light(40.7)), None, Some(light(1.0))]);
    let devices = names(&["a", "b", "c"]);
    match apply_brightness(Platform::Other, &config, &mut state, &devices, &s, false) {
        // "a" and "c" are idle and dimmed to three tenths.
        Plan::Levels(levels) => assert_eq!(levels, vec![Some(12), None, Some(30)]),
        other => panic!("{other:?}"),
    }
    assert_eq!(state.base_targets.get("a"), Some(40));
    assert_eq!(state.base_targets.get("b"), None);
    assert_eq!(state.base_targets.get("c"), Some(100));
    assert_eq!(state.current_cloud_cover, number(0.5));
    // Nor is the ignored display written when the lit displays change, or in a stale round.
    assert_eq!(reapply(&state, Platform::Other, &devices), vec![Some(40), None, Some(100)]);
    match apply_brightness(Platform::Other, &config, &mut state, &devices, &s, true) {
        Plan::Levels(levels) => assert_eq!(levels, vec![Some(12), None, Some(30)]),
        other => panic!("{other:?}"),
    }
}

#[test]
fn a_stale_round_writes_every_display_again() {
    let config = Config::<u8> { dim_inactive: true, ..Config::default() };
    let mut state = SharedState::new(Config::<u8>::default());
    state.lit_displays = Some(DisplaySet::of("a".to_string()));
    let devices = names(&["a", "b"]);
    let s = sample(light(5.0), vec![]);
    pushed(&mut state, "a", 50, true);
    pushed(&mut state, "b", 15, true);
    let plan = apply_brightness(Platform::Other, &config, &mut state, &devices, &s, false);
    assert!(matches!(plan, Plan::Rest));

    let stale = reassert(&mut state, 3600);
    assert!(stale);
    match apply_brightness(Platform::Other, &config, &mut state, &devices, &s, stale) {
        Plan::Levels(levels) => assert_eq!(levels, vec![Some(50), Some(15)]),
        other => panic!("{other:?}"),
    }
    assert!(needs_push(&state, "a", 50));
    assert!(needs_push(&state, "b", 15));

    // A target that has moved is still faded to.
    let moved = sample(light(6.0), vec![]);
    let plan = apply_brightness(Platform::Other, &config, &mut state, &devices, &moved, true);
    assert!(matches!(plan, Plan::Fade { from: 50, to: 60 }));
}

#[test]
fn more_cloud_never_brightens() {
    let mut last = 100;
    for cloud in 0..=1000 {
        let factor = 1.0 - cloud as f64 / 1000.0 * 0.7;
        let percent = to_percent(number(95.5 * factor));
        assert!(percent <= last);
        last = percent;
    }
    assert_eq!(last, 28);
    assert_eq!(to_percent(number(-0.0)), 0);
}

#[test]
fn clouds_count_only_where_brightness_adapts_to_them() {
    let s = sample(light(6.5), vec![]);
    let devices = names(&["a"]);
    for (weather_adaptive, level, cover) in [(true, 6, 0.5), (false, 65, 0.0)] {
        let config = Config::<u8> { weather_adaptive, ..Config::default() };
        let mut state = SharedState::new(Config::<u8>::default());
        match apply_brightness(Platform::Other, &config, &mut state, &devices, &s, false) {
            Plan::Fade { from, to } => assert_eq!((from, to), (50, level)),
            other => panic!("{other:?}"),
        }
        assert_eq!(state.base_targets.get("a"), Some(level));
        assert_eq!(state.current_cloud_cover, number(cover));
        settle_brightness(&config, &mut state, &s);
        assert_eq!(state.current_brightness, level);
    }
}

#[test]
fn an_unknown_place_puts_the_sun_on_the_horizon() {
    let config = Config::<u8>::default();
    let mut state = SharedState::new(Config::<u8>::default());
    for (elevation, shown) in [
        (Some(number(0.75)), 0.75),
        (None, 0.0),
        (Some(number(-0.5)), 0.0),
        (Some(number(2.0)), 1.0),
    ] {
        let s = Sample { elevation, ..sample(light(5.0), vec![]) };
        apply_brightness(Platform::Other, &config, &mut state, &names(&["a"]), &s, false);
        assert_eq!(state.current_elevation, number(shown));
    }
}

#[test]
fn reapply_goes_by_the_lit_displays() {
    let mut state = SharedState::new(Config::<u8> { dim_inactive: true, ..Config::default() });
    state.base_targets.insert("a".to_string(), 80);
    state.base_targets.insert("b".to_string(), 5);
    let devices = names(&["a", "b", "c"]);
    assert_eq!(reapply(&state, Platform::Other, &devices), vec![Some(80), Some(5), None]);
    state.lit_displays = Some(DisplaySet::of("a".to_string()));
    assert_eq!(reapply(&state, Platform::Other, &devices), vec![Some(80), Some(2), None]);
    state.lit_displays = Some(DisplaySet::new());
    assert_eq!(reapply(&state, Platform::Other, &devices), vec![Some(24), Some(2), None]);
    assert_eq!(device_level(Platform::Other, "a", 80, &state.config, &None), 80);
}

#[test]
fn a_fade_dims_idle_displays_on_every_step() {
    let config = Config::<u8> { dim_inactive: true, dim_inactive_factor: number(0.5), ..Config::default() };
    let lit = Some(DisplaySet::of("a".to_string()));
    let devices = names(&["a", "b"]);
    let fade = fade_brightness(Platform::Other, &devices, 0, 100, &config, &lit);
    assert_eq!(
        fade.steps,
        vec![
            vec![4, 2],
            vec![16, 8],
            vec![32, 16],
            vec![50, 25],
            vec![68, 34],
            vec![84, 42],
            vec![96, 48],
            vec![100, 50],
        ]
    );
    assert_eq!(fade.slot_nanos, 375_000_000);

    let none = fade_brightness(Platform::Other, &devices, 7, 7, &config, &None);
    assert_eq!(none.steps, vec![vec![7, 7]]);
    assert_eq!(none.slot_nanos, 3_000_000_000);
}

#[test]
fn a_fade_holds_each_step_for_its_share() {
    for to in 0..=100u32 {
        let fade = fade_brightness(Platform::Other, &vec![], 40, to, &Config::<u8>::default(), &None);
        let steps = to.abs_diff(40).clamp(1, 8);
        let slot = std::time::Duration::from_secs(3) / steps;
        assert_eq!(fade.slot_nanos as u128, slot.as_nanos());
        assert_eq!(fade.steps.len(), fade_levels(40, to).len());
    }
}
