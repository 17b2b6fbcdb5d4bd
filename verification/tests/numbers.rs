use sunrise_brightness::brightness::{fade_levels, to_percent};
use sunrise_brightness::icon::sun_icon;
use sunrise_brightness::number::Number;

fn number(x: f64) -> Number {
    Number { bits: x.to_bits() }
}

fn samples() -> Vec<f64> {
    let mut v = vec![
        0.0, -0.0, 1.0, -1.0, 0.3, 0.5, 0.01, 0.99, 99.999, 100.0, 100.5, 1e-12, -1e-12, 1e300,
        -1e300, 4294967295.0, 4294967295.5, 4294967296.0, 2147483648.75, 0.999999999, 1.5, 2.5,
        f64::MIN_POSITIVE, 5e-324, f64::MAX, f64::MIN, f64::INFINITY, f64::NEG_INFINITY, f64::NAN,
        -f64::NAN,
    ];
    let mut seed: u64 = 12345;
    for _ in 0..200 {
        seed = seed.wrapping_mul(6364136223846793005).wrapping_add(1442695040888963407);
        v.push(f64::from_bits(seed));
        v.push((seed >> 11) as f64 / 1e13);
    }
    v
}

#[test]
fn order_and_clamp_agree_with_floating_point() {
    let v = samples();
    for &a in &v {
        assert_eq!(number(a).is_nan(), a.is_nan());
        for &b in &v {
            assert_eq!(number(a).lt(number(b)), a < b, "{a} < {b}");
            assert_eq!(number(a).le(number(b)), a <= b, "{a} <= {b}");
        }
        for (low, high) in [(0.0, 1.0), (0.0, 100.0), (-1.0, 0.3)] {
            let held = number(a).clamp(number(low), number(high));
            assert_eq!(held.bits, a.clamp(low, high).to_bits());
        }
    }
}

#[test]
fn whole_parts_agree_with_floating_point() {
    for a in samples() {
        assert_eq!(number(a).to_u32(), a as u32, "{a}");
        assert_eq!(to_percent(number(a)), a.clamp(0.0, 100.0) as u32, "{a}");
    }
    assert_eq!(to_percent(number(63.999)), 63);
    assert_eq!(to_percent(number(f64::NAN)), 0);
}

#[test]
fn scaling_agrees_with_floating_point() {
    let mut factors: Vec<f64> = (0..=1000).map(|k| k as f64 / 1000.0).collect();
    factors.extend((0..=100).map(|pct| 1.0 - pct as f64 / 100.0));
    let mut seed: u64 = 99;
    for _ in 0..300 {
        seed = seed.wrapping_mul(6364136223846793005).wrapping_add(1442695040888963407);
        factors.push((seed >> 11) as f64 / (1u64 << 53) as f64);
        factors.push(f64::from_bits(seed % 0x3FF0_0000_0000_0001));
    }
    factors.extend([-0.0, f64::NAN, 5e-324, f64::MIN_POSITIVE, 0.49999999999999994]);
    for &f in &factors {
        for level in (0..=100).chain([255, 1000, 65535, 1 << 24, (1 << 24) + 1, u32::MAX - 1, u32::MAX]) {
            assert_eq!(
                number(f).scale(level),
                (level as f64 * f).round() as u32,
                "{level} * {f}"
            );
        }
    }
    // 5 * 0.3 is rounded up to 1.5 before it is rounded to a level.
    assert_eq!(number(0.3).scale(5), 2);
    assert_eq!(number(1.0).scale(77), 77);
}

#[test]
fn fades_agree_with_floating_point() {
    for from in 0..=100u32 {
        for to in 0..=100u32 {
            let steps = to.abs_diff(from).clamp(1, 8);
            let levels = fade_levels(from, to);
            let expected: Vec<u32> = (1..=steps)
                .map(|i| {
                    let t = i as f32 / steps as f32;
                    let eased = t * t * (3.0 - 2.0 * t);
                    (from as f32 + (to as f32 - from as f32) * eased).round() as u32
                })
                .collect();
            assert_eq!(levels, expected);
            assert_eq!(*levels.last().unwrap(), to);
        }
    }
    assert_eq!(fade_levels(0, 100), vec![4, 16, 32, 50, 68, 84, 96, 100]);
}

#[test]
fn icon_agrees_with_floating_point() {
    let size: u32 = 32;
    let mut rgba = vec![0u8; (size * size * 4) as usize];
    let center = size as f32 / 2.0;
    let radius = center - 4.0;
    for y in 0..size {
        for x in 0..size {
            let dx = x as f32 - center + 0.5;
            let dy = y as f32 - center + 0.5;
            let dist = (dx * dx + dy * dy).sqrt();
            let i = ((y * size + x) * 4) as usize;
            if dist <= radius {
                let t = dist / radius;
                rgba[i] = 255;
                rgba[i + 1] = (210.0 + 45.0 * (1.0 - t)) as u8;
                rgba[i + 2] = (60.0 * (1.0 - t)) as u8;
                rgba[i + 3] = 255;
            }
        }
    }
    assert_eq!(sun_icon(), rgba);
}
