use chrono::{NaiveTime, Timelike};
use sunrise_brightness::clock::TimeOfDay;
use sunrise_brightness::number::Number;
use sunrise_brightness::solar::{
    compute_sun_times, configured_location, day_progress, location_label, DayProgress, Location,
    SolarDay, SunTimes,
};
use sunrise_brightness::weather::{
    build_forecast, fetch_forecast, interpolate_cloud_cover, CloudCover, CloudPoint,
};

fn number(x: f64) -> Number {
    Number { bits: x.to_bits() }
}

fn hm(h: u32, m: u32) -> TimeOfDay {
    TimeOfDay::from_hms(h, m, 0).unwrap()
}

fn moments() -> Vec<(u32, u32)> {
    vec![
        (0, 0),
        (0, 1),
        (21600, 0),
        (21600, 999_999_999),
        (21600, 1_500_000_000),
        (21601, 0),
        (21601, 200_000_000),
        (43199, 1_999_999_999),
        (43200, 0),
        (64800, 123),
        (86399, 0),
        (86399, 1_999_999_999),
    ]
}

fn naive(m: (u32, u32)) -> NaiveTime {
    let t = NaiveTime::from_num_seconds_from_midnight_opt(m.0, 0).unwrap();
    t.with_nanosecond(m.1).unwrap()
}

fn ours(m: (u32, u32)) -> TimeOfDay {
    TimeOfDay::new(m.0, m.1).unwrap()
}

#[test]
fn times_of_day_agree_with_chrono() {
    for a in moments() {
        assert_eq!(ours(a).hour_minute(), naive(a).format("%H:%M").to_string());
        for b in moments() {
            assert_eq!(ours(a).is_before(ours(b)), naive(a) < naive(b));
            assert_eq!(
                ours(a).seconds_since(ours(b)),
                (naive(a) - naive(b)).num_seconds(),
                "{a:?} {b:?}"
            );
        }
    }
    assert_eq!(hm(9, 5).hour_minute(), "09:05");
    assert_eq!(hm(18, 0).seconds_since(hm(6, 0)), 43200);
    assert_eq!(hm(6, 0).seconds_since(hm(18, 0)), -43200);
}

#[test]
fn times_of_day_lie_in_the_day() {
    assert!(TimeOfDay::new(86400, 0).is_none());
    assert!(TimeOfDay::new(0, 2_000_000_000).is_none());
    assert!(TimeOfDay::from_hms(24, 0, 0).is_none());
    assert!(TimeOfDay::from_hms(0, 60, 0).is_none());
    assert!(TimeOfDay::from_hms(0, 0, 60).is_none());
    assert_eq!(TimeOfDay::from_hms(23, 59, 59), TimeOfDay::new(86399, 0));
}

#[test]
fn hour_and_minute_are_read() {
    assert_eq!(TimeOfDay::parse_hour_minute("13:45"), Some(hm(13, 45)));
    assert_eq!(TimeOfDay::parse_hour_minute("00:00"), Some(hm(0, 0)));
    for (text, time) in [
        ("7:5", hm(7, 5)),
        (" \t07: 05", hm(7, 5)),
        ("23:59", hm(23, 59)),
        ("0:0", hm(0, 0)),
    ] {
        assert_eq!(TimeOfDay::parse_hour_minute(text), Some(time));
    }
    for bad in [
        "", "24:00", "12:60", "13:45:10", "noon", "7", "7:", ":7", "007:05", "7:005", "7 :05", "7:05 ",
        "+7:05", "-1:00", "7.05", "\u{0667}:05", "7:",
    ] {
        assert_eq!(TimeOfDay::parse_hour_minute(bad), None, "{bad}");
    }
}

#[test]
fn white_space_is_passed_over_before_a_number() {
    let blank: Vec<u32> = (0x09..=0x0D)
        .chain([0x20, 0x85, 0xA0, 0x1680])
        .chain(0x2000..=0x200A)
        .chain([0x2028, 0x2029, 0x202F, 0x205F, 0x3000])
        .collect();
    for c in (0..=0x10FFFF).filter_map(char::from_u32).filter(|c| !c.is_ascii_digit()) {
        let expected = if blank.contains(&(c as u32)) { Some(hm(7, 15)) } else { None };
        assert_eq!(TimeOfDay::parse_hour_minute(&format!("{c}7:15")), expected, "{c:?}");
        assert_eq!(TimeOfDay::parse_hour_minute(&format!("7:{c}15")), expected, "{c:?}");
    }
}

fn progress(now: NaiveTime, sunrise: NaiveTime, sunset: NaiveTime) -> f64 {
    if now <= sunrise {
        return 0.0;
    }
    if now >= sunset {
        return 1.0;
    }
    let day_secs = (sunset - sunrise).num_seconds() as f64;
    if day_secs <= 0.0 {
        return 0.0;
    }
    ((now - sunrise).num_seconds() as f64 / day_secs).clamp(0.0, 1.0)
}

fn as_float(p: DayProgress) -> f64 {
    match p {
        DayProgress::Start => 0.0,
        DayProgress::End => 1.0,
        DayProgress::During { elapsed, day } => elapsed as f64 / day as f64,
    }
}

#[test]
fn day_progress_is_the_share_of_daylight_passed() {
    for now in moments() {
        for rise in moments() {
            for set in moments() {
                assert_eq!(
                    as_float(day_progress(ours(now), ours(rise), ours(set))),
                    progress(naive(now), naive(rise), naive(set)),
                    "{now:?} {rise:?} {set:?}"
                );
            }
        }
    }
    assert_eq!(
        day_progress(hm(9, 0), hm(6, 0), hm(18, 0)),
        DayProgress::During { elapsed: 10800, day: 43200 }
    );
    assert_eq!(day_progress(hm(5, 0), hm(6, 0), hm(18, 0)), DayProgress::Start);
    assert_eq!(day_progress(hm(18, 0), hm(6, 0), hm(18, 0)), DayProgress::End);
}

#[test]
fn sun_times_of_each_kind_of_day() {
    let regular = SunTimes { sunrise: hm(5, 30), transit: hm(12, 10), sunset: hm(19, 0) };
    assert_eq!(
        compute_sun_times(SolarDay::Regular {
            sunrise: hm(5, 30),
            transit: hm(12, 10),
            sunset: hm(19, 0)
        }),
        Some(regular)
    );
    assert_eq!(
        compute_sun_times(SolarDay::AllDay { transit: hm(12, 10) }),
        Some(SunTimes {
            sunrise: hm(0, 0),
            transit: hm(12, 10),
            sunset: TimeOfDay::from_hms(23, 59, 59).unwrap()
        })
    );
    assert_eq!(compute_sun_times(SolarDay::AllNight), None);
    assert_eq!(
        SunTimes::fallback(),
        SunTimes { sunrise: hm(6, 0), transit: hm(12, 0), sunset: hm(18, 0) }
    );
}

#[test]
fn places_are_labelled() {
    assert_eq!(location_label("Montreal", "CA", "45.50, -73.60".to_string()), "Montreal, CA");
    assert_eq!(location_label("", "CA", "45.50, -73.60".to_string()), "45.50, -73.60");
    let (lat, lon) = (number(45.5), number(-73.6));
    assert_eq!(configured_location(Some(lat), Some(lon)), Some(Location { lat, lon }));
    assert_eq!(configured_location(Some(lat), None), None);
    assert_eq!(configured_location(None, Some(lon)), None);
}

fn reference_forecast(
    stamps: &[&str],
    cover: &[f64],
    sunrise: NaiveTime,
    sunset: NaiveTime,
) -> Option<Vec<(f64, f64)>> {
    let day_secs = (sunset - sunrise).num_seconds() as f64;
    if day_secs <= 0.0 {
        return None;
    }
    let mut forecast = Vec::new();
    for (time_str, &cloud) in stamps.iter().zip(cover.iter()) {
        let Some(time) = time_str
            .split('T')
            .nth(1)
            .and_then(|t| NaiveTime::parse_from_str(t, "%H:%M").ok())
        else {
            continue;
        };
        if time < sunrise || time > sunset {
            continue;
        }
        let progress = (time - sunrise).num_seconds() as f64 / day_secs;
        forecast.push((progress.clamp(0.0, 1.0), cloud));
    }
    if forecast.is_empty() || forecast[0].0 > 0.01 {
        forecast.insert(0, (0.0, forecast.first().map(|f| f.1).unwrap_or(0.0)));
    }
    if forecast.last().map(|f| f.0).unwrap_or(0.0) < 0.99 {
        forecast.push((1.0, forecast.last().map(|f| f.1).unwrap_or(0.0)));
    }
    Some(forecast)
}

#[test]
fn forecasts_agree_with_floating_point() {
    let hourly: Vec<String> = (0..24).map(|h| format!("2024-06-01T{h:02}:00")).collect();
    let odd = ["2024-06-01", "T", "2024T06:30T12:00", "xT25:00", "aT06:07", "T17:53", "T18:00"];
    let mut stamps: Vec<&str> = hourly.iter().map(|s| s.as_str()).collect();
    stamps.extend(odd);
    let cover: Vec<f64> = (0..40).map(|i| i as f64 / 40.0).collect();
    for rise in (0..24 * 60).step_by(37) {
        for set in (0..24 * 60).step_by(41) {
            for range in [0..24, 24..31, 5..7, 29..31, 0..0] {
                let part: Vec<&str> = stamps[range].to_vec();
                let expected = reference_forecast(
                    &part,
                    &cover,
                    naive((rise * 60, 0)),
                    naive((set * 60, 0)),
                );
                let owned: Vec<String> = part.iter().map(|s| s.to_string()).collect();
                let given: Vec<Number> = cover.iter().map(|&c| number(c)).collect();
                let found = fetch_forecast(&owned, &given, hm(rise / 60, rise % 60), hm(set / 60, set % 60))
                    .map(|f| {
                        f.points
                            .iter()
                            .map(|p| {
                                let progress = (p.elapsed as f64 / f.day as f64).clamp(0.0, 1.0);
                                (progress, f64::from_bits(p.cover.bits))
                            })
                            .collect::<Vec<_>>()
                    });
                assert_eq!(found, expected, "{part:?} {rise} {set}");
            }
        }
    }
}

#[test]
fn forecasts_reach_both_ends_of_the_day() {
    let f = build_forecast(
        &vec![None, Some(hm(5, 0)), Some(hm(12, 0)), Some(hm(19, 0))],
        &vec![number(0.1), number(0.2), number(0.3)],
        hm(6, 0),
        hm(18, 0),
    )
    .unwrap();
    assert_eq!(f.day, 43200);
    assert_eq!(
        f.points,
        vec![
            CloudPoint { elapsed: 0, cover: number(0.3) },
            CloudPoint { elapsed: 21600, cover: number(0.3) },
            CloudPoint { elapsed: 43200, cover: number(0.3) },
        ]
    );
    let empty = build_forecast(&vec![], &vec![], hm(6, 0), hm(18, 0)).unwrap();
    assert_eq!(
        empty.points,
        vec![
            CloudPoint { elapsed: 0, cover: number(0.0) },
            CloudPoint { elapsed: 43200, cover: number(0.0) },
        ]
    );
    assert!(build_forecast(&vec![], &vec![], hm(18, 0), hm(6, 0)).is_none());
}

#[test]
fn one_percent_of_the_day_is_judged_as_floating_point_does() {
    for day in [100i64, 101, 300, 43200, 43201, 50000, 86399, 86400] {
        for elapsed in 0..=day {
            let share = elapsed as f64 / day as f64;
            assert_eq!(share > 0.01, elapsed * 100 > day);
            assert_eq!(share < 0.99, elapsed * 100 < day * 99);
        }
    }
}

#[test]
fn cloud_cover_is_found_between_points() {
    let p = |x: f64, c: f64| (number(x), number(c));
    assert_eq!(interpolate_cloud_cover(&vec![], number(0.5)), CloudCover::Clear);
    let f = vec![p(0.1, 0.2), p(0.5, 0.6), p(0.5, 0.7), p(0.9, 0.1)];
    let at = |x: f64| interpolate_cloud_cover(&f, number(x));
    assert_eq!(at(0.0), CloudCover::Exactly(number(0.2)));
    assert_eq!(at(0.1), CloudCover::Exactly(number(0.2)));
    assert_eq!(at(0.9), CloudCover::Exactly(number(0.1)));
    assert_eq!(at(1.0), CloudCover::Exactly(number(0.1)));
    assert_eq!(at(0.3), CloudCover::Between { from: f[0], to: f[1] });
    assert_eq!(at(0.5), CloudCover::Between { from: f[0], to: f[1] });
    assert_eq!(at(0.7), CloudCover::Between { from: f[2], to: f[3] });
    assert_eq!(at(f64::NAN), CloudCover::Clear);
}
