//! Dims monitors nothing is happening on, to cut backlight power.
//!
//! Two policies, see [`DimMode`](crate::config::DimMode): dim everything but the focused screen,
//! or dim only the screens with no window on them at all. Brightness is pushed again only when
//! the set of lit displays actually changes.
//!
//! The two platforms answer the same question by different means and at different granularity,
//! so both speak in *display keys*:
//!
//! - Windows drives every monitor over DDC/CI, so a key is one logical display (`\\.\DISPLAY1`)
//!   and each screen is judged separately.
//! - Linux only ever exposes the built-in laptop panel, so there is a single key,
//!   [`x11::BUILTIN`].

pub mod panel;
pub mod probe;
pub mod win;
pub mod x11;

use crate::config::{Config, DimMode, LitDisplays, SharedState};
use crate::number::{Number, ONE_BITS, ZERO_BITS};
use vstd::prelude::*;

verus! {

/// What the program runs on.
#[derive(Clone, Copy, Debug, PartialEq, Eq, Structural)]
pub enum Platform {
    Windows,
    Linux,
    Other,
}

/// The lit displays as a set of keys.
pub open spec fn lit_keys(lit: LitDisplays) -> Option<Set<Seq<char>>> {
    match lit {
        Some(set) => Some(set@),
        None => None,
    }
}

/// The display that a brightness device belongs to.
pub open spec fn key_on(platform: Platform, device_name: Seq<char>) -> Seq<char> {
    match platform {
        Platform::Windows => win::key_of(device_name),
        Platform::Linux => x11::BUILTIN@,
        Platform::Other => device_name,
    }
}

/// Groups brightness devices that share one screen, in the same vocabulary the platform uses to
/// report lit displays.
pub fn display_key(platform: Platform, device_name: &str) -> (key: String)
    ensures
        key@ == key_on(platform, device_name@),
{
    match platform {
        Platform::Windows => win::display_key(device_name),
        Platform::Linux => x11::display_key(device_name),
        Platform::Other => device_name.to_owned(),
    }
}

/// Whether a device is dimmed: idle screens are to be, the lit ones are known, and its display is
/// not among them.
pub open spec fn dims(
    platform: Platform,
    device_name: Seq<char>,
    dim_inactive: bool,
    lit: Option<Set<Seq<char>>>,
) -> bool {
    dim_inactive && lit is Some && !lit->0.contains(key_on(platform, device_name))
}

/// The multiplier of a device: one, or for a dimmed one the configured factor, held between zero
/// and one.
pub open spec fn factor_of(
    platform: Platform,
    device_name: Seq<char>,
    dim_inactive: bool,
    dim_inactive_factor: Number,
    lit: Option<Set<Seq<char>>>,
) -> Number {
    if dims(platform, device_name, dim_inactive, lit) {
        dim_inactive_factor.clamped(Number { bits: ZERO_BITS }, Number { bits: ONE_BITS })
    } else {
        Number { bits: ONE_BITS }
    }
}

/// Brightness multiplier for one brightness device.
pub fn dim_factor<C>(
    platform: Platform,
    device_name: &str,
    config: &Config<C>,
    lit: &LitDisplays,
) -> (factor: Number)
    ensures
        factor == factor_of(
            platform,
            device_name@,
            config.dim_inactive,
            config.dim_inactive_factor,
            lit_keys(*lit),
        ),
        factor.unit(),
{
    let one = Number { bits: ONE_BITS };
    match lit {
        None => one,
        Some(lit) => {
            if !config.dim_inactive {
                return one;
            }
            let key: String = display_key(platform, device_name);
            if lit.contains(key.as_str()) {
                one
            } else {
                config.dim_inactive_factor.clamp(Number { bits: ZERO_BITS }, one)
            }
        },
    }
}

/// Nothing is dimmed while dimming is off, while the lit displays are unknown, or where the
/// device's display is lit.
pub proof fn full_brightness_unless_known_idle(
    platform: Platform,
    device_name: Seq<char>,
    factor: Number,
    lit: Option<Set<Seq<char>>>,
)
    ensures
        factor_of(platform, device_name, false, factor, lit) == (Number { bits: ONE_BITS }),
        factor_of(platform, device_name, true, factor, None) == (Number { bits: ONE_BITS }),
        lit is Some && lit->0.contains(key_on(platform, device_name)) ==> factor_of(
            platform,
            device_name,
            true,
            factor,
            lit,
        ) == (Number { bits: ONE_BITS }),
{
}

/// Which screens the settings want sampled as in use, `None` where idle ones are not dimmed.
pub fn wanted<C>(state: &SharedState<C>) -> (mode: Option<DimMode>)
    ensures
        mode == if state.config.dim_inactive {
            Some(state.config.dim_mode)
        } else {
            None
        },
{
    if state.config.dim_inactive {
        Some(state.config.dim_mode)
    } else {
        None
    }
}

/// The watch on idle screens: what it last made known.
pub struct Watch {
    last: LitDisplays,
}

/// What the watch keeps of a sample of lit displays, `None` where dimming is switched off.
pub open spec fn kept(sample: Option<Option<Set<Seq<char>>>>) -> Option<Set<Seq<char>>> {
    match sample {
        Some(lit) => lit,
        None => None,
    }
}

/// Whether a sample is news to a watch that last made `known` known.
pub open spec fn is_news(
    known: Option<Set<Seq<char>>>,
    sample: Option<Option<Set<Seq<char>>>>,
) -> bool {
    kept(sample) != known
}

/// A sample is pushed once: the same one is no news while nothing else comes between.
pub proof fn sample_is_pushed_once(sample: Option<Option<Set<Seq<char>>>>)
    ensures
        !is_news(kept(sample), sample),
{
}

/// Switching dimming off releases the monitors once, and not at all if none was dimmed.
pub proof fn switching_off_releases_once(known: Option<Set<Seq<char>>>)
    ensures
        is_news(known, None) <==> known is Some,
        kept(None) is None,
        !is_news(kept(None), None),
{
}

/// A sample as sets of keys.
pub open spec fn sampled(sample: Option<LitDisplays>) -> Option<Option<Set<Seq<char>>>> {
    match sample {
        Some(lit) => Some(lit_keys(lit)),
        None => None,
    }
}

impl Watch {
    pub closed spec fn known(&self) -> Option<Set<Seq<char>>> {
        lit_keys(self.last)
    }

    pub fn new() -> (w: Watch)
        ensures
            w.known() is None,
    {
        Watch { last: None }
    }

    /// Takes a sample of the lit displays, `None` if dimming is switched off. Makes it known in
    /// `state` and returns true, for brightness to be pushed again, where it differs from the last.
    pub fn poll<C>(&mut self, state: &mut SharedState<C>, sample: Option<LitDisplays>) -> (changed:
        bool)
        ensures
            changed == is_news(old(self).known(), sampled(sample)),
            final(self).known() == kept(sampled(sample)),
            changed ==> lit_keys(final(state).lit_displays) == kept(sampled(sample)),
            !changed ==> final(state).lit_displays == old(state).lit_displays,
            *final(state) == (SharedState {
                lit_displays: final(state).lit_displays,
                ..*old(state)
            }),
    {
        let current: LitDisplays = match sample {
            Some(lit) => lit,
            // Release every monitor once, when dimming is switched off.
            None => None,
        };
        let same: bool = match (&current, &self.last) {
            (Some(a), Some(b)) => a.same_keys(b),
            (None, None) => true,
            _ => false,
        };
        if same {
            return false;
        }
        self.last = current.clone();
        state.lit_displays = current;
        true
    }
}

/// A device on a screen that is known to be idle is dimmed by the configured factor, as long as that
/// lies between zero and one, and else by the nearer of the two.
pub proof fn idle_screen_is_dimmed_by_the_configured_factor(
    platform: Platform,
    device_name: Seq<char>,
    factor: Number,
    lit: Set<Seq<char>>,
)
    requires
        !lit.contains(key_on(platform, device_name)),
    ensures
        ({
            let (zero, one) = (Number { bits: 0 }, Number { bits: 0x3FF0_0000_0000_0000 });
            let f = factor_of(platform, device_name, true, factor, Some(lit));
            &&& zero.at_most(factor) && factor.at_most(one) ==> f == factor
            &&& factor.below(zero) ==> f == zero
            &&& one.below(factor) ==> f == one
            &&& factor.nan() ==> f == factor
        }),
{
}

/// A device belongs to one display: on Linux always to the built-in panel, on Windows to what stands
/// before the monitor in its name, and elsewhere to itself.
pub proof fn device_belongs_to_its_display(display: Seq<char>, monitor: Seq<char>)
    requires
        !monitor.contains('\\'),
    ensures
        key_on(Platform::Linux, display) == "builtin"@,
        key_on(Platform::Other, display) == display,
        key_on(Platform::Windows, display.push('\\') + monitor) == display,
        key_on(Platform::Windows, monitor) == monitor,
{
    crate::text::text_is_split_at_the_last_mark(display, monitor, '\\');
}

/// Lit displays are news exactly where they differ from those last made known, and are then what is
/// known; while dimming is off nothing is known.
pub proof fn change_of_lit_displays_is_news(
    known: Option<Set<Seq<char>>>,
    lit: Option<Set<Seq<char>>>,
    sample: LitDisplays,
)
    ensures
        is_news(known, Some(lit)) <==> lit != known,
        kept(Some(lit)) == lit,
        kept(None) == None::<Set<Seq<char>>>,
        sampled(None::<LitDisplays>) is None,
        sampled(Some(sample)) is Some,
        sample is None ==> sampled(Some(sample))->0 is None,
        sample is Some ==> sampled(Some(sample))->0 == Some(sample->0@),
        lit_keys(sample) is Some <==> sample is Some,
        sample is Some ==> lit_keys(sample) == Some(sample->0@),
{
}

} // verus!
