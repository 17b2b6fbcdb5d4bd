//! Brightness levels: what each monitor should show, and what still has to be sent to it.

use crate::config::{Config, LitDisplays, MonitorOverride, SharedState};
use crate::inactive::{dim_factor, Platform};
use crate::levels::LevelMap;
use crate::number::{Number, HUNDRED_BITS, ONE_BITS, ZERO_BITS};
use crate::text::same_text;
use vstd::prelude::*;

verus! {

/// How long a fade takes, in nanoseconds.
pub const FADE_NANOS: u64 = 3_000_000_000;

/// A write blocks for about 100 ms per monitor, so more steps than this cannot fit into a fade
/// anyway and would only add traffic.
pub const FADE_STEPS: u32 = 8;

/// How many seconds the levels last written are trusted before every display is written again
/// regardless. A monitor that was power-cycled or hot-plugged comes back at its own default
/// brightness without telling, so they have to go stale on their own.
pub const REASSERT_AFTER_SECS: u64 = 3600;

/// Whether `level` is the last thing sent to `name`.
pub open spec fn up_to_date(written: Map<Seq<char>, u32>, name: Seq<char>, level: u32) -> bool {
    written.dom().contains(name) && written[name] == level
}

/// Whether `value` has to be sent to `name`: not if that is already the last thing sent to it.
///
/// A write costs the same blocked driver I/O whether or not it changes anything, and the curve is
/// flat for most of the night. A brightness set by the monitor's own buttons survives until the
/// target actually moves.
pub fn needs_push<C>(state: &SharedState<C>, name: &str, value: u32) -> (b: bool)
    ensures
        b == !up_to_date(state.last_written@, name@, value),
{
    match state.last_written.get(name) {
        Some(level) => level != value,
        None => true,
    }
}

/// The levels last written after sending `value` to `name`, which the device took or not.
pub open spec fn after_push(
    written: Map<Seq<char>, u32>,
    name: Seq<char>,
    value: u32,
    taken: bool,
) -> Map<Seq<char>, u32> {
    if taken {
        written.insert(name, value)
    } else {
        written
    }
}

/// Notes that `value` was sent to `name`, and whether the device took it.
pub fn pushed<C>(state: &mut SharedState<C>, name: &str, value: u32, taken: bool)
    ensures
        final(state).last_written@ == after_push(old(state).last_written@, name@, value, taken),
        *final(state) == (SharedState { last_written: final(state).last_written, ..*old(state) }),
{
    if taken {
        state.last_written.insert(name.to_owned(), value);
    }
}

/// A level that a device took is not sent again until another one is, or the levels written go
/// stale; one that it did not take is still due, and other devices are not affected.
pub proof fn level_is_sent_until_taken(
    written: Map<Seq<char>, u32>,
    name: Seq<char>,
    value: u32,
    other: Seq<char>,
    level: u32,
)
    ensures
        up_to_date(after_push(written, name, value, true), name, value),
        value != level ==> !up_to_date(after_push(written, name, value, true), name, level),
        !up_to_date(written, name, value) ==> !up_to_date(
            after_push(written, name, value, false),
            name,
            value,
        ),
        other != name ==> up_to_date(after_push(written, name, value, true), other, level)
            == up_to_date(written, other, level),
        !up_to_date(Map::empty(), name, value),
{
}

/// Forgets the levels last written once they are `elapsed_secs` old and that is too old; returns
/// whether it did.
pub fn reassert<C>(state: &mut SharedState<C>, elapsed_secs: u64) -> (stale: bool)
    ensures
        stale == (elapsed_secs >= REASSERT_AFTER_SECS),
        final(state).last_written@ == if stale {
            Map::empty()
        } else {
            old(state).last_written@
        },
        *final(state) == (SharedState { last_written: final(state).last_written, ..*old(state) }),
{
    if elapsed_secs >= REASSERT_AFTER_SECS {
        state.last_written.clear();
        true
    } else {
        false
    }
}

/// What a device shows when its target is `base`: the target, or less of it where it is dimmed.
pub open spec fn shown<C>(
    platform: Platform,
    name: Seq<char>,
    base: u32,
    config: Config<C>,
    lit: LitDisplays,
) -> nat {
    crate::inactive::factor_of(
        platform,
        name,
        config.dim_inactive,
        config.dim_inactive_factor,
        crate::inactive::lit_keys(lit),
    ).scaled(base as nat)
}

/// The level for one device whose target is `base`.
pub fn device_level<C>(
    platform: Platform,
    name: &str,
    base: u32,
    config: &Config<C>,
    lit: &LitDisplays,
) -> (level: u32)
    ensures
        level == shown(platform, name@, base, *config, *lit),
        level <= base,
{
    dim_factor(platform, name, config, lit).scale(base)
}

/// A device is never shown brighter than its target, and exactly at it unless it is dimmed.
pub proof fn dimming_only_lowers<C>(
    platform: Platform,
    name: Seq<char>,
    base: u32,
    config: Config<C>,
    lit: LitDisplays,
)
    ensures
        shown(platform, name, base, config, lit) <= base,
        !crate::inactive::dims(
            platform,
            name,
            config.dim_inactive,
            crate::inactive::lit_keys(lit),
        ) ==> shown(platform, name, base, config, lit) == base,
{
    let factor = crate::inactive::factor_of(
        platform,
        name,
        config.dim_inactive,
        config.dim_inactive_factor,
        crate::inactive::lit_keys(lit),
    );
    crate::number::scaling_never_brightens(factor, base as nat);
    crate::number::scaling_by_one_is_identity(base as nat);
}

/// The levels of the last computed targets through the current dim factor, one for each of
/// `devices`; `None` for a device without a target. For when the lit displays change.
pub fn reapply<C>(state: &SharedState<C>, platform: Platform, devices: &Vec<String>) -> (levels: Vec<
    Option<u32>,
>)
    ensures
        levels@.len() == devices@.len(),
        forall|i: int|
            0 <= i < devices@.len() ==> match #[trigger] levels@[i] {
                Some(level) => {
                    &&& state.base_targets@.dom().contains(devices@[i]@)
                    &&& level == shown(
                        platform,
                        devices@[i]@,
                        state.base_targets@[devices@[i]@],
                        state.config,
                        state.lit_displays,
                    )
                },
                None => !state.base_targets@.dom().contains(devices@[i]@),
            },
{
    let mut levels: Vec<Option<u32>> = Vec::new();
    let mut i: usize = 0;
    while i < devices.len()
        invariant
            i <= devices@.len(),
            levels@.len() == i,
            forall|j: int|
                0 <= j < i ==> match #[trigger] levels@[j] {
                    Some(level) => {
                        &&& state.base_targets@.dom().contains(devices@[j]@)
                        &&& level == shown(
                            platform,
                            devices@[j]@,
                            state.base_targets@[devices@[j]@],
                            state.config,
                            state.lit_displays,
                        )
                    },
                    None => !state.base_targets@.dom().contains(devices@[j]@),
                },
        decreases devices@.len() - i,
    {
        let name: &str = devices[i].as_str();
        let level: Option<u32> = match state.base_targets.get(name) {
            Some(base) => Some(
                device_level(platform, name, base, &state.config, &state.lit_displays),
            ),
            None => None,
        };
        levels.push(level);
        i = i + 1;
    }
    levels
}

/// A passage from one level to another.
#[derive(Debug)]
pub struct Fade {
    /// The steps on the way; each holds a level for every device.
    pub steps: Vec<Vec<u32>>,
    /// How long a step is held.
    pub slot_nanos: u64,
}

pub open spec fn distance(from: int, to: int) -> int {
    if from < to {
        to - from
    } else {
        from - to
    }
}

pub open spec fn fade_steps(from: int, to: int) -> int {
    let d = distance(from, to);
    if d < 1 {
        1
    } else if d > FADE_STEPS {
        FADE_STEPS as int
    } else {
        d
    }
}

/// The eased share of a fade after `i` of `steps` steps, in parts of `steps` cubed: with
/// `t = i / steps` it is `t * t * (3 - 2 * t)`.
pub open spec fn eased(i: int, steps: int) -> int {
    i * i * (3 * steps - 2 * i)
}

/// The level after `i` of `steps` steps, rounded to the nearest whole number, a half going up.
pub open spec fn fade_level(from: int, to: int, i: int, steps: int) -> int {
    let whole = steps * steps * steps;
    (2 * (from * whole + (to - from) * eased(i, steps)) + whole) / (2 * whole)
}

/// How a fade eases: it moves on with every step and reaches its end with the last.
proof fn lemma_eased(i: int, steps: int)
    requires
        0 <= i < steps,
    ensures
        0 <= eased(i, steps) < eased(i + 1, steps) <= steps * steps * steps,
        eased(steps, steps) == steps * steps * steps,
    decreases steps - i,
{
    let s = steps;
    assert(s * s * (3 * s - 2 * s) == s * s * s) by (nonlinear_arith);
    assert(0 <= i * i * (3 * s - 2 * i)) by (nonlinear_arith)
        requires
            0 <= i < s,
    ;
    assert((i + 1) * (i + 1) * (3 * s - 2 * (i + 1)) - i * i * (3 * s - 2 * i) == 6 * (i * (s - i
        - 1)) + 3 * s - 2) by (nonlinear_arith);
    assert(i * (s - i - 1) >= 0) by (nonlinear_arith)
        requires
            0 <= i < s,
    ;
    if i + 1 < steps {
        lemma_eased(i + 1, steps);
    }
}

proof fn lemma_fade_level(from: int, to: int, i: int, steps: int)
    requires
        0 <= from <= 100,
        0 <= to <= 100,
        0 < steps <= 8,
        0 <= i <= steps,
    ensures
        0 <= eased(i, steps) <= steps * steps * steps <= 512,
        0 <= from * (steps * steps * steps) + (to - from) * eased(i, steps),
        from <= to ==> from <= fade_level(from, to, i, steps) <= to,
        to <= from ==> to <= fade_level(from, to, i, steps) <= from,
        i == steps ==> fade_level(from, to, i, steps) == to,
{
    let w = steps * steps * steps;
    let e = eased(i, steps);
    assert(1 <= w <= 512) by (nonlinear_arith)
        requires
            w == steps * steps * steps,
            0 < steps <= 8,
    ;
    if i < steps {
        lemma_eased(i, steps);
    } else {
        lemma_eased(i - 1, steps);
    }
    let n = from * w + (to - from) * e;
    assert(from <= to ==> from * w <= n <= to * w) by (nonlinear_arith)
        requires
            n == from * w + (to - from) * e,
            0 <= e <= w,
    ;
    assert(to <= from ==> to * w <= n <= from * w) by (nonlinear_arith)
        requires
            n == from * w + (to - from) * e,
            0 <= e <= w,
    ;
    assert(0 <= from * w && 0 <= to * w) by (nonlinear_arith)
        requires
            0 <= from,
            0 <= to,
            1 <= w,
    ;
    let (low, high) = if from <= to {
        (from, to)
    } else {
        (to, from)
    };
    assert(low <= (2 * n + w) / (2 * w) <= high) by (nonlinear_arith)
        requires
            low * w <= n <= high * w,
            1 <= w,
    ;
    if i == steps {
        assert(n == to * w) by (nonlinear_arith)
            requires
                n == from * w + (to - from) * e,
                e == w,
        ;
        assert((2 * n + w) / (2 * w) == to) by (nonlinear_arith)
            requires
                n == to * w,
                1 <= w,
        ;
    }
}

/// A fade never leaves the range between its ends, and it arrives.
pub proof fn fade_stays_between_and_arrives(from: int, to: int, i: int)
    requires
        0 <= from <= 100,
        0 <= to <= 100,
        0 <= i <= fade_steps(from, to),
    ensures
        from <= to ==> from <= fade_level(from, to, i, fade_steps(from, to)) <= to,
        to <= from ==> to <= fade_level(from, to, i, fade_steps(from, to)) <= from,
        fade_level(from, to, fade_steps(from, to), fade_steps(from, to)) == to,
{
    lemma_fade_level(from, to, i, fade_steps(from, to));
    lemma_fade_level(from, to, fade_steps(from, to), fade_steps(from, to));
}

/// A fade never turns back: each level is at least as far on the way as the one before.
pub proof fn fade_never_turns_back(from: int, to: int, i: int)
    requires
        0 <= from <= 100,
        0 <= to <= 100,
        0 <= i < fade_steps(from, to),
    ensures
        ({
            let s = fade_steps(from, to);
            &&& from <= to ==> fade_level(from, to, i, s) <= fade_level(from, to, i + 1, s)
            &&& to <= from ==> fade_level(from, to, i + 1, s) <= fade_level(from, to, i, s)
        }),
{
    let s = fade_steps(from, to);
    let w = s * s * s;
    lemma_fade_level(from, to, i, s);
    lemma_eased(i, s);
    let (e, f) = (eased(i, s), eased(i + 1, s));
    let n = from * w + (to - from) * e;
    let m = from * w + (to - from) * f;
    assert(w >= 1) by (nonlinear_arith)
        requires
            w == s * s * s,
            s >= 1,
    ;
    assert(from <= to ==> n <= m) by (nonlinear_arith)
        requires
            n == from * w + (to - from) * e,
            m == from * w + (to - from) * f,
            e <= f,
    ;
    assert(to <= from ==> m <= n) by (nonlinear_arith)
        requires
            n == from * w + (to - from) * e,
            m == from * w + (to - from) * f,
            e <= f,
    ;
    if n <= m {
        vstd::arithmetic::div_mod::lemma_div_is_ordered(2 * n + w, 2 * m + w, 2 * w);
    }
    if m <= n {
        vstd::arithmetic::div_mod::lemma_div_is_ordered(2 * m + w, 2 * n + w, 2 * w);
    }
}

/// The levels on the way from `from` to `to` percent.
pub fn fade_levels(from: u32, to: u32) -> (levels: Vec<u32>)
    requires
        from <= 100,
        to <= 100,
    ensures
        ({
            let steps = fade_steps(from as int, to as int);
            &&& levels@.len() == steps
            &&& forall|i: int|
                0 <= i < steps ==> #[trigger] levels@[i] == fade_level(
                    from as int,
                    to as int,
                    i + 1,
                    steps,
                )
        }),
{
    let d: u32 = if from < to {
        to - from
    } else {
        from - to
    };
    let steps: u32 = if d < 1 {
        1
    } else if d > FADE_STEPS {
        FADE_STEPS
    } else {
        d
    };
    let ghost s = steps as int;
    assert(s == fade_steps(from as int, to as int));
    let mut levels: Vec<u32> = Vec::new();
    let mut i: i64 = 1;
    let k: i64 = steps as i64;
    let (a, b): (i64, i64) = (from as i64, to as i64);
    while i <= k
        invariant
            1 <= i <= k + 1,
            1 <= k <= 8,
            s == k,
            0 <= a <= 100,
            0 <= b <= 100,
            a == from,
            b == to,
            levels@.len() == i - 1,
            forall|j: int|
                0 <= j < i - 1 ==> #[trigger] levels@[j] == fade_level(
                    from as int,
                    to as int,
                    j + 1,
                    s,
                ),
        decreases k + 1 - i,
    {
        proof {
            lemma_fade_level(a as int, b as int, i as int, k as int);
            lemma_cubes(i as int, k as int);
            lemma_moved(a as int, b as int, eased(i as int, k as int), k * k * k);
        }
        let whole: i64 = k * k * k;
        let e: i64 = i * i * (3 * k - 2 * i);
        let n: i64 = a * whole + (b - a) * e;
        let level: i64 = (2 * n + whole) / (2 * whole);
        levels.push(level as u32);
        i = i + 1;
    }
    levels
}

/// Whether `shown_levels` are what the devices called `names` show when their target is `base`.
pub open spec fn all_shown<C>(
    platform: Platform,
    names: Seq<String>,
    base: u32,
    config: Config<C>,
    lit: LitDisplays,
    shown_levels: Seq<u32>,
) -> bool {
    &&& shown_levels.len() == names.len()
    &&& forall|j: int|
        0 <= j < names.len() ==> #[trigger] shown_levels[j] == shown(
            platform,
            names[j]@,
            base,
            config,
            lit,
        )
}

fn device_levels<C>(
    platform: Platform,
    names: &Vec<String>,
    base: u32,
    config: &Config<C>,
    lit: &LitDisplays,
) -> (levels: Vec<u32>)
    ensures
        all_shown(platform, names@, base, *config, *lit, levels@),
{
    let mut levels: Vec<u32> = Vec::new();
    let mut j: usize = 0;
    while j < names.len()
        invariant
            j <= names@.len(),
            levels@.len() == j,
            forall|i: int|
                0 <= i < j ==> #[trigger] levels@[i] == shown(
                    platform,
                    names@[i]@,
                    base,
                    *config,
                    *lit,
                ),
        decreases names@.len() - j,
    {
        levels.push(device_level(platform, names[j].as_str(), base, config, lit));
        j = j + 1;
    }
    levels
}

/// Whether `fade` takes the devices called `names` from `from` to `to` percent. Each step goes
/// through the dim factor of each device, and the last one shows the target.
pub open spec fn is_fade<C>(
    platform: Platform,
    names: Seq<String>,
    from: u32,
    to: u32,
    config: Config<C>,
    lit: LitDisplays,
    fade: Fade,
) -> bool {
    let steps = fade_steps(from as int, to as int);
    &&& fade.steps@.len() == steps
    &&& forall|i: int|
        0 <= i < steps ==> all_shown(
            platform,
            names,
            fade_level(from as int, to as int, i + 1, steps) as u32,
            config,
            lit,
            (#[trigger] fade.steps@[i])@,
        )
    &&& all_shown(platform, names, to, config, lit, fade.steps@.last()@)
    &&& fade.slot_nanos == FADE_NANOS as int / steps
    &&& fade.slot_nanos * steps <= FADE_NANOS
}

/// The fade of the devices called `names` from `from` to `to` percent.
pub fn fade_brightness<C>(
    platform: Platform,
    names: &Vec<String>,
    from: u32,
    to: u32,
    config: &Config<C>,
    lit: &LitDisplays,
) -> (fade: Fade)
    requires
        from <= 100,
        to <= 100,
    ensures
        is_fade(platform, names@, from, to, *config, *lit, fade),
{
    let levels: Vec<u32> = fade_levels(from, to);
    let ghost s = fade_steps(from as int, to as int);
    let mut steps: Vec<Vec<u32>> = Vec::new();
    let mut i: usize = 0;
    while i < levels.len()
        invariant
            i <= levels@.len(),
            steps@.len() == i,
            forall|j: int|
                0 <= j < i ==> all_shown(
                    platform,
                    names@,
                    levels@[j],
                    *config,
                    *lit,
                    (#[trigger] steps@[j])@,
                ),
        decreases levels@.len() - i,
    {
        steps.push(device_levels(platform, names, levels[i], config, lit));
        i = i + 1;
    }
    let slot_nanos: u64 = FADE_NANOS / levels.len() as u64;
    proof {
        assert(slot_nanos * s <= FADE_NANOS) by (nonlinear_arith)
            requires
                slot_nanos == FADE_NANOS as int / s,
                s >= 1,
        ;
        lemma_fade_level(from as int, to as int, s, s);
        assert(levels@[s - 1] == to);
    }
    Fade { steps, slot_nanos }
}

proof fn lemma_cubes(i: int, k: int)
    requires
        1 <= i <= k <= 8,
    ensures
        1 <= k * k <= 64,
        1 <= k * k * k <= 512,
        1 <= i * i <= 64,
        0 <= i * i * (3 * k - 2 * i) <= 512,
{
    assert(1 <= k * k <= 64) by (nonlinear_arith)
        requires
            1 <= k <= 8,
    ;
    assert(1 <= k * k * k <= 512) by (nonlinear_arith)
        requires
            1 <= k <= 8,
            1 <= k * k <= 64,
    ;
    assert(1 <= i * i <= 64) by (nonlinear_arith)
        requires
            1 <= i <= 8,
    ;
    lemma_eased(i - 1, k);
}

proof fn lemma_moved(a: int, b: int, e: int, w: int)
    requires
        0 <= a <= 100,
        0 <= b <= 100,
        0 <= e <= w <= 512,
    ensures
        0 <= a * w <= 51200,
        -51200 <= (b - a) * e <= 51200,
{
    assert(0 <= a * w <= 51200) by (nonlinear_arith)
        requires
            0 <= a <= 100,
            0 <= w <= 512,
    ;
    assert(-51200 <= (b - a) * e <= 51200) by (nonlinear_arith)
        requires
            -100 <= b - a <= 100,
            0 <= e <= 512,
    ;
}

/// What a curve gives at a moment of the day: its percentage under a clear sky, and what the clouds
/// leave of it.
#[derive(Clone, Copy, Debug, PartialEq, Eq, Structural)]
pub struct Light {
    pub clear: Number,
    pub clouded: Number,
}

impl Light {
    pub open spec fn under(self, weather_adaptive: bool) -> Number {
        if weather_adaptive {
            self.clouded
        } else {
            self.clear
        }
    }

    /// The percentage to go by: clouds count only where brightness adapts to the weather.
    pub fn seen(self, weather_adaptive: bool) -> (n: Number)
        ensures
            n == self.under(weather_adaptive),
    {
        if weather_adaptive {
            self.clouded
        } else {
            self.clear
        }
    }
}

/// What the curves and the sky give at a moment of the day.
#[derive(Debug)]
pub struct Sample {
    /// How far the day is, from zero to one.
    pub progress: Number,
    /// The sun's height above the horizon, in parts of the zenith; `None` where the place is unknown.
    pub elevation: Option<Number>,
    /// The share of the sky that is covered.
    pub cloud: Number,
    /// What the global curve gives.
    pub global: Light,
    /// What each monitor override gives; `None` where it gives nothing.
    pub overrides: Vec<Option<Light>>,
}

/// What is to be done about the devices.
#[derive(Debug)]
pub enum Plan {
    /// Nothing: they already show the target, and what was written is not stale.
    Rest,
    /// All of them pass from one level to another.
    Fade { from: u32, to: u32 },
    /// Each gets the level at its place; one without a level is left alone.
    Levels(Vec<Option<u32>>),
}

/// The percentage that a number stands for: what is left of it between zero and a hundred, its
/// fraction dropped.
pub open spec fn percent(x: Number) -> int {
    x.clamped(Number { bits: ZERO_BITS }, Number { bits: HUNDRED_BITS }).saturated()
}

proof fn lemma_percent(x: Number)
    ensures
        0 <= percent(x) <= 100,
{
    let y = x.clamped(Number { bits: ZERO_BITS }, Number { bits: HUNDRED_BITS });
    if !y.nan() && y.bits < crate::number::SIGN_BIT {
        crate::number::lemma_up_to_hundred(y);
    }
}

/// The percentage that `x` stands for.
pub fn to_percent(x: Number) -> (p: u32)
    ensures
        p == percent(x),
        p <= 100,
{
    proof {
        lemma_percent(x);
    }
    x.clamp(Number { bits: ZERO_BITS }, Number { bits: HUNDRED_BITS }).to_u32()
}

/// The place of the first override for `name`, `None` without one.
pub open spec fn override_of<C>(monitors: Seq<MonitorOverride<C>>, name: Seq<char>) -> Option<int>
    decreases monitors.len(),
{
    if monitors.len() == 0 {
        None
    } else if monitors[0].name@ == name {
        Some(0)
    } else {
        match override_of(monitors.drop_first(), name) {
            Some(i) => Some(i + 1),
            None => None,
        }
    }
}

proof fn lemma_override_at<C>(monitors: Seq<MonitorOverride<C>>, name: Seq<char>, n: int)
    requires
        0 <= n <= monitors.len(),
        forall|i: int| 0 <= i < n ==> (#[trigger] monitors[i]).name@ != name,
        n < monitors.len() ==> monitors[n].name@ == name,
    ensures
        override_of(monitors, name) == if n < monitors.len() {
            Some(n)
        } else {
            None
        },
    decreases monitors.len(),
{
    if n > 0 {
        let rest = monitors.drop_first();
        assert forall|i: int| 0 <= i < n - 1 implies (#[trigger] rest[i]).name@ != name by {
            assert(rest[i] == monitors[i + 1]);
        }
        lemma_override_at(rest, name, n - 1);
    }
}

fn find_override<C>(monitors: &Vec<MonitorOverride<C>>, name: &str) -> (r: Option<usize>)
    ensures
        match r {
            Some(i) => i < monitors@.len() && override_of(monitors@, name@) == Some(i as int),
            None => override_of(monitors@, name@) is None,
        },
{
    let mut i: usize = 0;
    while i < monitors.len()
        invariant
            i <= monitors@.len(),
            forall|j: int| 0 <= j < i ==> (#[trigger] monitors@[j]).name@ != name@,
        decreases monitors@.len() - i,
    {
        if same_text(monitors[i].name.as_str(), name) {
            proof {
                lemma_override_at(monitors@, name@, i as int);
            }
            return Some(i);
        }
        i = i + 1;
    }
    proof {
        lemma_override_at(monitors@, name@, i as int);
    }
    None
}

/// Whether the brightness of a device is not adjusted: its first override has the mode `"ignored"`.
pub open spec fn ignored<C>(monitors: Seq<MonitorOverride<C>>, name: Seq<char>) -> bool {
    match override_of(monitors, name) {
        Some(i) => monitors[i].mode@ == "ignored"@,
        None => false,
    }
}

/// The target of the global curve.
pub open spec fn global_target<C>(config: Config<C>, sample: Sample) -> int {
    percent(sample.global.under(config.weather_adaptive))
}

/// The target of a device that is adjusted: what its override gives, or the global target.
pub open spec fn target_of<C>(
    config: Config<C>,
    sample: Sample,
    name: Seq<char>,
) -> int {
    match override_of(config.monitors@, name) {
        Some(i) => match sample.overrides@[i] {
            Some(light) => percent(light.under(config.weather_adaptive)),
            None => global_target(config, sample),
        },
        None => global_target(config, sample),
    }
}

/// The targets of the first `n` of `names`; those ignored have none.
pub open spec fn targets_of<C>(
    config: Config<C>,
    sample: Sample,
    names: Seq<String>,
    n: int,
) -> Map<Seq<char>, u32>
    decreases n,
{
    if n <= 0 {
        Map::empty()
    } else if ignored(config.monitors@, names[n - 1]@) {
        targets_of(config, sample, names, n - 1)
    } else {
        targets_of(config, sample, names, n - 1).insert(
            names[n - 1]@,
            target_of(config, sample, names[n - 1]@) as u32,
        )
    }
}

/// Every name that is not ignored has its own target, whatever else is listed.
pub proof fn every_name_has_its_target<C>(
    config: Config<C>,
    sample: Sample,
    names: Seq<String>,
    n: int,
    i: int,
)
    requires
        0 <= i < n <= names.len(),
        !ignored(config.monitors@, names[i]@),
    ensures
        targets_of(config, sample, names, n).dom().contains(names[i]@),
        targets_of(config, sample, names, n)[names[i]@] == target_of(
            config,
            sample,
            names[i]@,
        ) as u32,
    decreases n,
{
    if i < n - 1 {
        every_name_has_its_target(config, sample, names, n - 1, i);
    }
}

/// Every target is a percentage.
pub proof fn targets_are_percentages<C>(
    config: Config<C>,
    sample: Sample,
    names: Seq<String>,
    n: int,
    name: Seq<char>,
)
    requires
        targets_of(config, sample, names, n).dom().contains(name),
    ensures
        targets_of(config, sample, names, n)[name] <= 100,
    decreases n,
{
    if n > 0 {
        let last = names[n - 1]@;
        if name == last && !ignored(config.monitors@, last) {
            lemma_percent(sample.global.under(config.weather_adaptive));
            match override_of(config.monitors@, last) {
                Some(i) => {
                    if let Some(light) = sample.overrides@[i] {
                        lemma_percent(light.under(config.weather_adaptive));
                    }
                },
                None => {},
            }
        } else {
            targets_are_percentages(config, sample, names, n - 1, name);
        }
    }
}

/// Pushing the last targets again, under the same settings and lit displays, repeats the levels
/// that applying them gave.
pub proof fn reapplying_repeats_what_was_applied<C>(
    platform: Platform,
    config: Config<C>,
    lit: LitDisplays,
    sample: Sample,
    names: Seq<String>,
    i: int,
)
    requires
        0 <= i < names.len(),
        !ignored(config.monitors@, names[i]@),
    ensures
        ({
            let targets = targets_of(config, sample, names, names.len() as int);
            let target = target_of(config, sample, names[i]@) as u32;
            &&& targets.dom().contains(names[i]@)
            &&& shown(platform, names[i]@, targets[names[i]@], config, lit) == shown(
                platform,
                names[i]@,
                target,
                config,
                lit,
            )
        }),
{
    every_name_has_its_target(config, sample, names, names.len() as int, i);
}

/// An ignored display has no target, so that nothing pushes one to it.
pub proof fn ignored_display_has_no_target<C>(
    config: Config<C>,
    sample: Sample,
    names: Seq<String>,
    n: int,
    name: Seq<char>,
)
    requires
        ignored(config.monitors@, name),
    ensures
        !targets_of(config, sample, names, n).dom().contains(name),
    decreases n,
{
    if n > 0 {
        ignored_display_has_no_target(config, sample, names, n - 1, name);
    }
}

fn device_target<C>(config: &Config<C>, sample: &Sample, name: &str) -> (t: Option<u32>)
    requires
        sample.overrides@.len() == config.monitors@.len(),
    ensures
        match t {
            Some(t) => {
                &&& !ignored(config.monitors@, name@)
                &&& t == target_of(*config, *sample, name@)
                &&& t <= 100
            },
            None => ignored(config.monitors@, name@),
        },
{
    let light: Light = match find_override(&config.monitors, name) {
        Some(i) => {
            if same_text(config.monitors[i].mode.as_str(), "ignored") {
                return None;
            }
            match sample.overrides[i] {
                Some(light) => light,
                None => sample.global,
            }
        },
        None => sample.global,
    };
    Some(to_percent(light.seen(config.weather_adaptive)))
}

/// Whether `plan` is what the devices called `names` have to do about a sample, while all of them
/// show `current`. Without overrides they fade to the global target together; where they are there
/// already they rest, or are written again if what was written is `stale`. With overrides each is
/// set to its own target, and those ignored are left alone.
pub open spec fn is_plan<C>(
    platform: Platform,
    config: Config<C>,
    lit: LitDisplays,
    current: u32,
    names: Seq<String>,
    sample: Sample,
    stale: bool,
    plan: Plan,
) -> bool {
    let target = global_target(config, sample);
    if config.monitors@.len() == 0 && current != target {
        plan == (Plan::Fade { from: current, to: target as u32 })
    } else if config.monitors@.len() == 0 && !stale {
        plan is Rest
    } else {
        &&& plan is Levels
        &&& plan->Levels_0@.len() == names.len()
        &&& forall|i: int|
            0 <= i < names.len() ==> match #[trigger] plan->Levels_0@[i] {
                Some(level) => {
                    &&& !ignored(config.monitors@, names[i]@)
                    &&& level == shown(
                        platform,
                        names[i]@,
                        target_of(config, sample, names[i]@) as u32,
                        config,
                        lit,
                    )
                },
                None => ignored(config.monitors@, names[i]@),
            }
    }
}

/// Once what was written is stale, and so forgotten, every device that is not ignored is written
/// again, whether or not its target has moved: it has a level in the plan, or in every step of the
/// fade planned, and that level, or the first of them, is due.
pub proof fn stale_round_writes_every_device<C>(
    platform: Platform,
    config: Config<C>,
    lit: LitDisplays,
    current: u32,
    names: Seq<String>,
    sample: Sample,
    plan: Plan,
    i: int,
)
    requires
        is_plan(platform, config, lit, current, names, sample, true, plan),
        0 <= i < names.len(),
        !ignored(config.monitors@, names[i]@),
    ensures
        match plan {
            Plan::Rest => false,
            Plan::Fade { from, to } => forall|fade: Fade|
                #[trigger] is_fade(platform, names, from, to, config, lit, fade) ==> {
                    &&& fade.steps@.len() >= 1
                    &&& forall|k: int|
                        0 <= k < fade.steps@.len() ==> (#[trigger] fade.steps@[k])@.len()
                            == names.len()
                    &&& !up_to_date(Map::empty(), names[i]@, fade.steps@[0]@[i])
                    &&& fade.steps@.last()@[i] == shown(platform, names[i]@, to, config, lit)
                },
            Plan::Levels(levels) => {
                &&& levels@[i] is Some
                &&& levels@[i]->0 == shown(
                    platform,
                    names[i]@,
                    target_of(config, sample, names[i]@) as u32,
                    config,
                    lit,
                )
                &&& !up_to_date(Map::empty(), names[i]@, levels@[i]->0)
            },
        },
{
    if plan is Levels {
        assert(plan->Levels_0@[i] is Some);
    }
}

/// An ignored display is left alone: no plan has a level for it, stale round or not.
pub proof fn ignored_display_is_left_alone<C>(
    platform: Platform,
    config: Config<C>,
    lit: LitDisplays,
    current: u32,
    names: Seq<String>,
    sample: Sample,
    stale: bool,
    plan: Plan,
    i: int,
)
    requires
        is_plan(platform, config, lit, current, names, sample, stale, plan),
        0 <= i < names.len(),
        ignored(config.monitors@, names[i]@),
    ensures
        plan is Levels,
        plan->Levels_0@[i] is None,
{
    assert(config.monitors@.len() > 0);
    assert(plan->Levels_0@[i] is None);
}

/// More cloud never makes a screen brighter: where it leaves no more of the light, the percentage is
/// no larger, and where the weather does not count it is the same.
pub proof fn more_cloud_is_never_brighter(thin: Light, thick: Light, weather_adaptive: bool)
    requires
        thick.clear == thin.clear,
        thick.clouded.at_most(thin.clouded),
    ensures
        percent(thick.under(weather_adaptive)) <= percent(thin.under(weather_adaptive)),
        !weather_adaptive ==> percent(thick.under(weather_adaptive)) == percent(
            thin.under(weather_adaptive),
        ),
{
    more_light_is_never_darker(thick.clouded, thin.clouded);
}

/// A larger number never stands for a smaller percentage.
pub proof fn more_light_is_never_darker(a: Number, b: Number)
    requires
        a.at_most(b),
    ensures
        percent(a) <= percent(b),
{
    let (zero, hundred) = (Number { bits: ZERO_BITS }, Number { bits: HUNDRED_BITS });
    let (x, y) = (a.clamped(zero, hundred), b.clamped(zero, hundred));
    lemma_percent(a);
    lemma_percent(b);
    if x.bits < crate::number::SIGN_BIT {
        if y.bits < crate::number::SIGN_BIT {
            crate::number::lemma_whole_parts_ordered(x, y);
        } else {
            // `y` is the negative zero, so `x` is zero too.
            crate::number::lemma_zero_has_no_whole_part();
        }
    }
}

/// The sun's height as shown: held between the horizon and the zenith, on the horizon where it is not
/// known.
pub open spec fn shown_elevation(elevation: Option<Number>) -> Number {
    match elevation {
        Some(e) => e.clamped(Number { bits: ZERO_BITS }, Number { bits: ONE_BITS }),
        None => Number { bits: ZERO_BITS },
    }
}

/// Takes in a new sample: updates what the program shows of it and the targets of the devices
/// called `names`, and plans what the devices have to do. Without overrides all of them fade to the
/// global target together; with overrides each is set to its own, unless it is ignored. `stale` says
/// that the levels last written were forgotten, so that every device has to be written again.
pub fn apply_brightness<C>(
    platform: Platform,
    config: &Config<C>,
    state: &mut SharedState<C>,
    names: &Vec<String>,
    sample: &Sample,
    stale: bool,
) -> (plan: Plan)
    requires
        old(state).wf(),
        sample.overrides@.len() == config.monitors@.len(),
    ensures
        final(state).wf(),
        final(state).current_elevation == shown_elevation(sample.elevation),
        final(state).current_day_progress == sample.progress,
        final(state).current_cloud_cover == if config.weather_adaptive {
            sample.cloud
        } else {
            old(state).current_cloud_cover
        },
        final(state).base_targets@ == targets_of(*config, *sample, names@, names@.len() as int),
        *final(state) == (SharedState {
            current_elevation: final(state).current_elevation,
            current_day_progress: final(state).current_day_progress,
            current_cloud_cover: final(state).current_cloud_cover,
            base_targets: final(state).base_targets,
            ..*old(state)
        }),
        is_plan(
            platform,
            *config,
            old(state).lit_displays,
            old(state).current_brightness,
            names@,
            *sample,
            stale,
            plan,
        ),
        plan matches Plan::Fade { from, to } ==> from <= 100 && to <= 100,
{
    let zero = Number { bits: ZERO_BITS };
    state.current_elevation = match sample.elevation {
        Some(elevation) => elevation.clamp(zero, Number { bits: ONE_BITS }),
        None => zero,
    };
    state.current_day_progress = sample.progress;
    if config.weather_adaptive {
        state.current_cloud_cover = sample.cloud;
    }
    let ghost monitors = config.monitors@;
    let ghost lit = state.lit_displays;
    let mut targets = LevelMap::new();
    let mut levels: Vec<Option<u32>> = Vec::new();
    let mut i: usize = 0;
    while i < names.len()
        invariant
            i <= names@.len(),
            monitors == config.monitors@,
            sample.overrides@.len() == monitors.len(),
            lit == state.lit_displays,
            targets@ == targets_of(*config, *sample, names@, i as int),
            levels@.len() == i,
            forall|j: int|
                0 <= j < i ==> match #[trigger] levels@[j] {
                    Some(level) => {
                        &&& !ignored(monitors, names@[j]@)
                        &&& level == shown(
                            platform,
                            names@[j]@,
                            target_of(*config, *sample, names@[j]@) as u32,
                            *config,
                            lit,
                        )
                    },
                    None => ignored(monitors, names@[j]@),
                },
        decreases names@.len() - i,
    {
        let name: &str = names[i].as_str();
        match device_target(config, sample, name) {
            Some(target) => {
                levels.push(
                    Some(device_level(platform, name, target, config, &state.lit_displays)),
                );
                targets.insert(names[i].clone(), target);
            },
            None => levels.push(None),
        }
        i = i + 1;
    }
    state.base_targets = targets;
    let to: u32 = to_percent(sample.global.seen(config.weather_adaptive));
    let from: u32 = state.current_brightness;
    if config.monitors.len() == 0 && from != to {
        Plan::Fade { from, to }
    } else if config.monitors.len() == 0 && !stale {
        Plan::Rest
    } else {
        Plan::Levels(levels)
    }
}

/// The devices show the sample that was applied last.
pub fn settle_brightness<C>(config: &Config<C>, state: &mut SharedState<C>, sample: &Sample)
    ensures
        final(state).wf(),
        final(state).current_brightness == global_target(*config, *sample),
        *final(state) == (SharedState {
            current_brightness: final(state).current_brightness,
            ..*old(state)
        }),
{
    state.current_brightness = to_percent(sample.global.seen(config.weather_adaptive));
}

/// A number from zero to a hundred stands for its whole part as a percentage, a smaller one and what
/// is not a number for none, and a larger one for all.
pub proof fn percentage_is_the_whole_part(x: Number)
    ensures
        ({
            let (zero, hundred) = (Number { bits: 0 }, Number { bits: 0x4059_0000_0000_0000 });
            &&& x.nan() ==> percent(x) == 0
            &&& x.below(zero) ==> percent(x) == 0
            &&& hundred.at_most(x) ==> percent(x) == 100
            &&& zero.at_most(x) && x.at_most(hundred) ==> percent(x) == x.saturated()
        }),
{
    let hundred = Number { bits: 0x4059_0000_0000_0000 };
    crate::number::lemma_zero_has_no_whole_part();
    crate::number::whole_part_is_the_largest_up_to_the_number(hundred);
    vstd::arithmetic::power2::lemma2_to64();
    vstd::arithmetic::power2::lemma2_to64_rest();
    assert(hundred.bits as int / 0x10_0000_0000_0000 == 1029);
    assert(hundred.bits as int % 0x10_0000_0000_0000 == 0x9_0000_0000_0000);
    let n = hundred.saturated();
    assert(n * 0x4000_0000_0000 <= 0x19_0000_0000_0000 < (n + 1) * 0x4000_0000_0000);
}

/// A level is due unless it is exactly what was written last to that device.
pub proof fn level_is_due_unless_written_last(
    written: Map<Seq<char>, u32>,
    name: Seq<char>,
    level: u32,
)
    ensures
        up_to_date(written, name, level) <==> written.dom().contains(name) && written[name] == level,
        after_push(written, name, level, false) == written,
        after_push(written, name, level, true).dom() == written.dom().insert(name),
        after_push(written, name, level, true)[name] == level,
{
    assert(after_push(written, name, level, true).dom() =~= written.dom().insert(name));
}

/// What a device shows of its target: all of it, unless its display is known to be idle and idle
/// ones are to be dimmed; then what the configured factor leaves of it, a factor below zero leaving
/// nothing and one above one leaving all.
pub proof fn device_shows_its_target_or_the_factor_of_it<C>(
    platform: Platform,
    name: Seq<char>,
    base: u32,
    config: Config<C>,
    lit: LitDisplays,
)
    ensures
        ({
            let factor = config.dim_inactive_factor;
            let (zero, one) = (Number { bits: 0 }, Number { bits: 0x3FF0_0000_0000_0000 });
            let idle = config.dim_inactive && lit is Some && !lit->0@.contains(
                crate::inactive::key_on(platform, name),
            );
            let level = shown(platform, name, base, config, lit);
            &&& idle && zero.at_most(factor) && factor.at_most(one) ==> level == factor.scaled(
                base as nat,
            )
            &&& idle && (factor.below(zero) || factor.nan()) ==> level == 0
            &&& idle && one.below(factor) ==> level == base
            &&& !idle ==> shown(platform, name, base, config, lit) == base
        }),
{
    dimming_only_lowers(platform, name, base, config, lit);
    crate::number::no_number_scales_to_nothing(Number { bits: 0 }, base as nat);
    crate::number::scaling_by_one_is_identity(base as nat);
}

/// A fade has a step for each percent of the way, at least one and at most eight, and its levels are
/// the whole ones nearest to a smooth passage: after the share `t` of the steps, `3 t^2 - 2 t^3` of
/// the way is behind.
pub proof fn fade_follows_a_smooth_passage(from: int, to: int, i: int)
    requires
        0 <= from <= 100,
        0 <= to <= 100,
        0 <= i <= fade_steps(from, to),
    ensures
        ({
            let s = fade_steps(from, to);
            let level = fade_level(from, to, i, s);
            let whole = s * s * s;
            let way = from * whole + (to - from) * (3 * (i * i * s) - 2 * (i * i * i));
            &&& from == to ==> s == 1
            &&& 1 <= to - from <= 8 ==> s == to - from
            &&& 1 <= from - to <= 8 ==> s == from - to
            &&& to - from > 8 || from - to > 8 ==> s == 8
            &&& 2 * way - whole < 2 * level * whole <= 2 * way + whole
        }),
{
    let s = fade_steps(from, to);
    let whole = s * s * s;
    let e = eased(i, s);
    assert(e == 3 * (i * i * s) - 2 * (i * i * i)) by (nonlinear_arith)
        requires
            e == i * i * (3 * s - 2 * i),
    ;
    assert(whole >= 1) by (nonlinear_arith)
        requires
            whole == s * s * s,
            s >= 1,
    ;
    let way = from * whole + (to - from) * e;
    let level = (2 * way + whole) / (2 * whole);
    vstd::arithmetic::div_mod::lemma_fundamental_div_mod(2 * way + whole, 2 * whole);
    vstd::arithmetic::div_mod::lemma_mod_bound(2 * way + whole, 2 * whole);
    assert((2 * whole) * level == 2 * level * whole) by (nonlinear_arith);
}

/// A fade sends every step to every device, in order, and takes three seconds, up to what does not
/// divide.
pub proof fn fade_sends_every_step_to_every_device<C>(
    platform: Platform,
    names: Seq<String>,
    from: u32,
    to: u32,
    config: Config<C>,
    lit: LitDisplays,
    fade: Fade,
    i: int,
    j: int,
)
    requires
        is_fade(platform, names, from, to, config, lit, fade),
        0 <= i < fade_steps(from as int, to as int),
        0 <= j < names.len(),
    ensures
        ({
            let s = fade_steps(from as int, to as int);
            &&& fade.steps@.len() == s
            &&& fade.steps@[i]@.len() == names.len()
            &&& fade.steps@[i]@[j] == shown(
                platform,
                names[j]@,
                fade_level(from as int, to as int, i + 1, s) as u32,
                config,
                lit,
            )
            &&& fade.slot_nanos * s <= 3_000_000_000 < (fade.slot_nanos + 1) * s
        }),
{
    let s = fade_steps(from as int, to as int);
    assert(all_shown(
        platform,
        names,
        fade_level(from as int, to as int, i + 1, s) as u32,
        config,
        lit,
        fade.steps@[i]@,
    ));
    let slot = fade.slot_nanos as int;
    vstd::arithmetic::div_mod::lemma_fundamental_div_mod(3_000_000_000, s);
    vstd::arithmetic::div_mod::lemma_mod_bound(3_000_000_000, s);
    assert(slot * s == s * slot && (slot + 1) * s == s * slot + s) by (nonlinear_arith);
}

/// The first override of a name is the one that counts.
pub proof fn first_override_counts<C>(monitors: Seq<MonitorOverride<C>>, name: Seq<char>, i: int)
    requires
        0 <= i <= monitors.len(),
        forall|j: int| 0 <= j < i ==> (#[trigger] monitors[j]).name@ != name,
    ensures
        i == monitors.len() ==> override_of(monitors, name) is None && !ignored(monitors, name),
        i < monitors.len() && monitors[i].name@ == name ==> {
            &&& override_of(monitors, name) == Some(i)
            &&& ignored(monitors, name) <==> monitors[i].mode@ == "ignored"@
        },
{
    if i == monitors.len() || monitors[i].name@ == name {
        lemma_override_at(monitors, name, i);
    }
}

/// A monitor with an override that gives light goes by that light alone: its target, its level in
/// the plan and its base target do not depend on the global curve, nor on any other override.
pub proof fn own_curve_alone_sets_a_monitor<C>(
    platform: Platform,
    config: Config<C>,
    lit: LitDisplays,
    names: Seq<String>,
    a: Sample,
    b: Sample,
    currents: (u32, u32),
    plans: (Plan, Plan),
    i: int,
    m: int,
    light: Light,
)
    requires
        0 <= m < config.monitors@.len(),
        0 <= i < names.len(),
        config.monitors@[m].name@ == names[i]@,
        config.monitors@[m].mode@ != "ignored"@,
        forall|j: int| 0 <= j < m ==> (#[trigger] config.monitors@[j]).name@ != names[i]@,
        a.overrides@[m] == Some(light),
        b.overrides@[m] == Some(light),
        is_plan(platform, config, lit, currents.0, names, a, false, plans.0),
        is_plan(platform, config, lit, currents.1, names, b, true, plans.1),
    ensures
        ({
            let own = percent(
                if config.weather_adaptive {
                    light.clouded
                } else {
                    light.clear
                },
            );
            let n = names.len() as int;
            &&& target_of(config, a, names[i]@) == own
            &&& targets_of(config, a, names, n).dom().contains(names[i]@)
            &&& targets_of(config, a, names, n)[names[i]@] == own
            &&& targets_of(config, b, names, n)[names[i]@] == own
            &&& plans.0 is Levels && plans.1 is Levels
            &&& plans.0->Levels_0@[i] == plans.1->Levels_0@[i]
            &&& plans.0->Levels_0@[i] is Some
            &&& plans.0->Levels_0@[i]->0 == shown(platform, names[i]@, own as u32, config, lit)
        }),
{
    first_override_counts(config.monitors@, names[i]@, m);
    let n = names.len() as int;
    every_name_has_its_target(config, a, names, n, i);
    every_name_has_its_target(config, b, names, n, i);
    lemma_percent(light.clouded);
    lemma_percent(light.clear);
    assert(plans.0->Levels_0@[i] is Some);
    assert(plans.1->Levels_0@[i] is Some);
}

/// A monitor without an override, or with one that gives no light, goes by the global curve: by what
/// the clouds leave of it where the weather counts, and else by all of it.
pub proof fn global_curve_sets_the_rest<C>(config: Config<C>, sample: Sample, name: Seq<char>, m: int)
    requires
        0 <= m <= config.monitors@.len(),
        forall|j: int| 0 <= j < m ==> (#[trigger] config.monitors@[j]).name@ != name,
        m < config.monitors@.len() ==> config.monitors@[m].name@ == name && sample.overrides@[m] is None,
    ensures
        target_of(config, sample, name) == percent(
            if config.weather_adaptive {
                sample.global.clouded
            } else {
                sample.global.clear
            },
        ),
        global_target(config, sample) == target_of(config, sample, name),
{
    first_override_counts(config.monitors@, name, m);
}

/// Only devices that are listed have targets.
pub proof fn only_listed_devices_have_targets<C>(
    config: Config<C>,
    sample: Sample,
    names: Seq<String>,
    n: int,
    name: Seq<char>,
) -> (i: int)
    requires
        n <= names.len(),
        targets_of(config, sample, names, n).dom().contains(name),
    ensures
        0 <= i < n,
        names[i]@ == name,
    decreases n,
{
    if n > 0 && names[n - 1]@ == name {
        n - 1
    } else {
        only_listed_devices_have_targets(config, sample, names, n - 1, name)
    }
}

/// Without overrides all devices go from what they show to the global target: in a fade where the two
/// differ, and else not at all, unless what was written is stale; then each is set to it anew. With
/// overrides each device is set on its own.
pub proof fn devices_go_to_their_targets<C>(
    platform: Platform,
    config: Config<C>,
    lit: LitDisplays,
    current: u32,
    names: Seq<String>,
    sample: Sample,
    stale: bool,
    plan: Plan,
    i: int,
)
    requires
        is_plan(platform, config, lit, current, names, sample, stale, plan),
        0 <= i < names.len(),
    ensures
        ({
            let target = percent(
                if config.weather_adaptive {
                    sample.global.clouded
                } else {
                    sample.global.clear
                },
            );
            &&& config.monitors@.len() > 0 ==> plan is Levels
            &&& config.monitors@.len() == 0 ==> {
                &&& current != target ==> plan is Fade && plan->from == current && plan->to == target
                &&& current == target && !stale ==> plan is Rest
                &&& current == target && stale ==> {
                    &&& plan is Levels
                    &&& plan->Levels_0@[i] is Some
                    &&& plan->Levels_0@[i]->0 == shown(
                        platform,
                        names[i]@,
                        target as u32,
                        config,
                        lit,
                    )
                }
            }
            &&& plan is Levels ==> plan->Levels_0@.len() == names.len()
        }),
{
    lemma_percent(sample.global.clouded);
    lemma_percent(sample.global.clear);
    if plan is Levels {
        assert(plan->Levels_0@[i] is Some || plan->Levels_0@[i] is None);
    }
}

/// The sun's height is shown as it is between horizon and zenith, and as the nearer of the two
/// outside; without a place it is shown on the horizon.
pub proof fn sun_is_shown_between_horizon_and_zenith(e: Number)
    ensures
        ({
            let (zero, one) = (Number { bits: 0 }, Number { bits: 0x3FF0_0000_0000_0000 });
            &&& shown_elevation(None) == zero
            &&& zero.at_most(e) && e.at_most(one) ==> shown_elevation(Some(e)) == e
            &&& e.below(zero) ==> shown_elevation(Some(e)) == zero
            &&& one.below(e) ==> shown_elevation(Some(e)) == one
        }),
{
}

/// Clouds count exactly where brightness adapts to the weather.
pub proof fn clouds_count_where_brightness_adapts(light: Light)
    ensures
        light.under(true) == light.clouded,
        light.under(false) == light.clear,
{
}

} // verus!
