//! The Windows side: which displays carry windows.

use crate::config::{DimMode, LitDisplays};
use crate::displays::DisplaySet;
use crate::text::{same_text, text_before_last, utf16_text};
use vstd::prelude::*;

verus! {

/// Marks a floating tool window among a window's extended styles.
pub const WS_EX_TOOLWINDOW: i64 = 0x80;

/// The logical display of a physical monitor: what stands before the last backslash.
pub open spec fn key_of(device_name: Seq<char>) -> Seq<char> {
    match crate::text::before_last(device_name, '\\') {
        Some(display) => display,
        None => device_name,
    }
}

/// `\\.\DISPLAY1\Monitor0` is one physical monitor on logical display `\\.\DISPLAY1`. Splitting
/// beats a prefix test, which would let `DISPLAY1` swallow `DISPLAY10`.
pub fn display_key(device_name: &str) -> (key: String)
    ensures
        key@ == key_of(device_name@),
{
    match text_before_last(device_name, '\\') {
        Some(display) => display,
        None => device_name.to_owned(),
    }
}

/// All monitors of a display have that display as their key, so monitors of different displays
/// never share one.
pub proof fn monitors_share_the_key_of_their_display(display: Seq<char>, monitor: Seq<char>)
    requires
        !monitor.contains('\\'),
    ensures
        key_of(display.push('\\') + monitor) == display,
{
    crate::text::text_is_split_at_the_last_mark(display, monitor, '\\');
}

/// A rectangle by its edges.
#[derive(Clone, Copy, Debug, PartialEq, Eq, Structural)]
pub struct Rect {
    pub left: i32,
    pub top: i32,
    pub right: i32,
    pub bottom: i32,
}

impl Rect {
    pub fn zeroed() -> (r: Rect)
        ensures
            r == (Rect { left: 0, top: 0, right: 0, bottom: 0 }),
    {
        Rect { left: 0, top: 0, right: 0, bottom: 0 }
    }

    pub open spec fn blank(self) -> bool {
        self.right <= self.left || self.bottom <= self.top
    }

    pub fn is_empty(&self) -> (b: bool)
        ensures
            b == self.blank(),
    {
        self.right <= self.left || self.bottom <= self.top
    }
}

/// What the system says of a window.
#[derive(Debug)]
pub struct WindowReading {
    pub visible: bool,
    /// Minimised.
    pub iconic: bool,
    pub ex_style: i64,
    /// Why the compositor hides the window, zero if it does not; `None` if it did not say.
    pub cloaked: Option<u32>,
    pub rect: Option<Rect>,
    /// The class name in UTF-16, empty if there is none.
    pub class: Vec<u16>,
    /// The device-name buffer of the monitor that the window mostly sits on.
    pub device: Option<Vec<u16>>,
}

/// Shell windows that exist on every monitor and would otherwise make each one look occupied.
/// `Shell_SecondaryTrayWnd` is the taskbar clone on non-primary screens.
pub open spec fn shell_class(class: Seq<char>) -> bool {
    ||| class == "Progman"@
    ||| class == "WorkerW"@
    ||| class == "Shell_TrayWnd"@
    ||| class == "Shell_SecondaryTrayWnd"@
}

fn is_shell_class(class: &str) -> (b: bool)
    ensures
        b == shell_class(class@),
{
    same_text(class, "Progman") || same_text(class, "WorkerW") || same_text(class, "Shell_TrayWnd")
        || same_text(class, "Shell_SecondaryTrayWnd")
}

impl WindowReading {
    /// Whether the window paints something a user would notice.
    pub open spec fn noticeable(&self) -> bool {
        &&& self.visible
        &&& !self.iconic
        &&& self.ex_style & WS_EX_TOOLWINDOW == 0
        // Suspended apps stay "visible" but are cloaked by the compositor.
        &&& self.cloaked is None || self.cloaked->0 == 0
        &&& self.rect is Some && !self.rect->0.blank()
        &&& !shell_class(crate::text::decoded(self.class@))
    }

    /// The display that the window sits on.
    pub open spec fn display(&self) -> Option<Seq<char>> {
        match self.device {
            Some(buffer) => Some(device_text(buffer@)),
            None => None,
        }
    }
}

/// Whether a window actually paints something a user would notice.
pub fn is_real_window(window: &WindowReading) -> (b: bool)
    ensures
        b == window.noticeable(),
{
    if !window.visible || window.iconic {
        return false;
    }
    if window.ex_style & WS_EX_TOOLWINDOW != 0 {
        return false;
    }
    if let Some(cloaked) = window.cloaked {
        if cloaked != 0 {
            return false;
        }
    }
    match window.rect {
        Some(rect) => {
            if rect.is_empty() {
                return false;
            }
        },
        None => {
            return false;
        },
    }
    let class: String = utf16_text(&window.class);
    !is_shell_class(class.as_str())
}

/// The units before the first zero; all of them without one.
pub open spec fn until_zero(units: Seq<u16>) -> Seq<u16>
    decreases units.len(),
{
    if units.len() == 0 || units[0] == 0 {
        Seq::empty()
    } else {
        seq![units[0]] + until_zero(units.drop_first())
    }
}

/// The text in a device-name buffer.
pub open spec fn device_text(buffer: Seq<u16>) -> Seq<char> {
    crate::text::decoded(until_zero(buffer))
}

proof fn lemma_until_zero(units: Seq<u16>, n: int)
    requires
        0 <= n <= units.len(),
        forall|i: int| 0 <= i < n ==> units[i] != 0,
        n == units.len() || units[n] == 0,
    ensures
        until_zero(units) == units.take(n),
    decreases n,
{
    if n == 0 {
        assert(until_zero(units) =~= units.take(0));
    } else {
        let rest = units.drop_first();
        assert forall|i: int| 0 <= i < n - 1 implies rest[i] != 0 by {
            assert(rest[i] == units[i + 1]);
        }
        lemma_until_zero(rest, n - 1);
        assert(until_zero(units) =~= units.take(n));
    }
}

/// Display name (`\\.\DISPLAY1`) in the device-name buffer of a monitor.
pub fn display_of(buffer: &Vec<u16>) -> (name: String)
    ensures
        name@ == device_text(buffer@),
{
    let mut units: Vec<u16> = Vec::new();
    let mut n: usize = 0;
    while n < buffer.len() && buffer[n] != 0
        invariant
            n <= buffer@.len(),
            units@ == buffer@.take(n as int),
            forall|i: int| 0 <= i < n ==> buffer@[i] != 0,
        decreases buffer@.len() - n,
    {
        units.push(buffer[n]);
        n = n + 1;
        assert(units@ =~= buffer@.take(n as int));
    }
    proof {
        lemma_until_zero(buffer@, n as int);
    }
    utf16_text(&units)
}

/// The displays that carry at least one of `windows` that a user would notice.
pub open spec fn occupied(windows: Seq<WindowReading>) -> Set<Seq<char>> {
    Set::new(
        |key: Seq<char>|
            exists|i: int|
                {
                    &&& 0 <= i < windows.len()
                    &&& (#[trigger] windows[i]).noticeable()
                    &&& windows[i].display() == Some(key)
                },
    )
}

/// Shell windows occupy no display, however many there are.
pub proof fn shell_windows_occupy_nothing(windows: Seq<WindowReading>)
    requires
        forall|i: int|
            0 <= i < windows.len() ==> shell_class(
                crate::text::decoded((#[trigger] windows[i]).class@),
            ),
    ensures
        occupied(windows) == Set::<Seq<char>>::empty(),
{
    assert(occupied(windows) =~= Set::<Seq<char>>::empty());
}

/// Displays carrying at least one real, user-visible window.
pub fn occupied_displays(windows: &Vec<WindowReading>) -> (found: DisplaySet)
    ensures
        found@ == occupied(windows@),
{
    let mut found = DisplaySet::new();
    let mut i: usize = 0;
    assert(found@ =~= occupied(windows@.take(0)));
    while i < windows.len()
        invariant
            i <= windows@.len(),
            found@ == occupied(windows@.take(i as int)),
        decreases windows@.len() - i,
    {
        let ghost before = found@;
        let ghost seen = windows@.take(i as int);
        let ghost now = windows@.take(i + 1);
        let ghost w = windows@[i as int];
        if is_real_window(&windows[i]) {
            if let Some(buffer) = &windows[i].device {
                found.insert(display_of(buffer));
            }
        }
        proof {
            assert(now =~= seen.push(w));
            assert forall|key: Seq<char>| found@.contains(key) <==> #[trigger] occupied(
                now,
            ).contains(key) by {
                if occupied(seen).contains(key) {
                    let j = choose|j: int|
                        {
                            &&& 0 <= j < seen.len()
                            &&& (#[trigger] seen[j]).noticeable()
                            &&& seen[j].display() == Some(key)
                        };
                    assert(now[j] == seen[j]);
                }
                if occupied(now).contains(key) {
                    let j = choose|j: int|
                        {
                            &&& 0 <= j < now.len()
                            &&& (#[trigger] now[j]).noticeable()
                            &&& now[j].display() == Some(key)
                        };
                    if j < i {
                        assert(seen[j] == now[j]);
                    }
                }
                assert(now[i as int] == w);
            }
            assert(found@ =~= occupied(now));
        }
        i = i + 1;
    }
    assert(windows@.take(i as int) =~= windows@);
    found
}

/// The lit displays, from the device-name buffer of the monitor that the focused window sits on
/// and from all windows, `None` where the system does not say.
pub fn lit_displays(
    mode: DimMode,
    focused: &Option<Vec<u16>>,
    windows: &Option<Vec<WindowReading>>,
) -> (lit: LitDisplays)
    ensures
        match mode {
            DimMode::Focused => match focused {
                Some(buffer) => lit is Some && lit->0@ == Set::<Seq<char>>::empty().insert(
                    device_text(buffer@),
                ),
                None => lit is None,
            },
            DimMode::Empty => match windows {
                Some(list) => lit is Some && lit->0@ == occupied(list@),
                None => lit is None,
            },
        },
{
    match mode {
        DimMode::Focused => match focused {
            Some(buffer) => Some(DisplaySet::of(display_of(buffer))),
            None => None,
        },
        DimMode::Empty => match windows {
            Some(list) => Some(occupied_displays(list)),
            None => None,
        },
    }
}

/// A window is noticed for what it is, wherever it lies: it is shown, not minimised, no tool window,
/// not cloaked, of no shell class, and has some width and some height.
pub proof fn window_is_noticed_wherever_it_lies(w: WindowReading, left: i32, top: i32)
    requires
        w.rect is Some,
    ensures
        ({
            let r = w.rect->0;
            let class = crate::text::decoded(w.class@);
            w.noticeable() <==> {
                &&& w.visible && !w.iconic
                &&& w.ex_style & 0x80 == 0
                &&& w.cloaked is None || w.cloaked == Some(0u32)
                &&& r.left < r.right && r.top < r.bottom
                &&& class != "Progman"@ && class != "WorkerW"@
                &&& class != "Shell_TrayWnd"@ && class != "Shell_SecondaryTrayWnd"@
            }
        }),
        ({
            let r = w.rect->0;
            let width = r.right - r.left;
            let height = r.bottom - r.top;
            let moved = Rect {
                left,
                top,
                right: (left + width) as i32,
                bottom: (top + height) as i32,
            };
            let fits = i32::MIN <= left + width <= i32::MAX && i32::MIN <= top + height <= i32::MAX;
            fits ==> (WindowReading { rect: Some(moved), ..w }).noticeable() == w.noticeable()
        }),
{
}

/// A window without a place is not noticed.
pub proof fn window_without_a_place_is_not_noticed(w: WindowReading)
    requires
        w.rect is None,
    ensures
        !w.noticeable(),
{
}

/// A display is occupied as soon as one window on it is noticed, whatever the others are, and not
/// otherwise: what two groups of windows occupy is what either does.
pub proof fn noticed_windows_occupy_their_displays(
    windows: Seq<WindowReading>,
    more: Seq<WindowReading>,
    i: int,
    key: Seq<char>,
)
    ensures
        0 <= i < windows.len() && windows[i].noticeable() && windows[i].device is Some ==> occupied(
            windows,
        ).contains(device_text(windows[i].device->0@)),
        occupied(windows).contains(key) ==> exists|j: int|
            #![trigger windows[j]]
            {
                &&& 0 <= j < windows.len()
                &&& windows[j].noticeable()
                &&& windows[j].device is Some
                &&& device_text(windows[j].device->0@) == key
            },
        occupied(windows + more) == occupied(windows).union(occupied(more)),
{
    let both = windows + more;
    assert forall|k: Seq<char>| occupied(both).contains(k) <==> #[trigger] occupied(windows).union(
        occupied(more),
    ).contains(k) by {
        if occupied(windows).contains(k) {
            let j = choose|j: int|
                {
                    &&& 0 <= j < windows.len()
                    &&& (#[trigger] windows[j]).noticeable()
                    &&& windows[j].display() == Some(k)
                };
            assert(both[j] == windows[j]);
        }
        if occupied(more).contains(k) {
            let j = choose|j: int|
                {
                    &&& 0 <= j < more.len()
                    &&& (#[trigger] more[j]).noticeable()
                    &&& more[j].display() == Some(k)
                };
            assert(both[windows.len() + j] == more[j]);
        }
        if occupied(both).contains(k) {
            let j = choose|j: int|
                {
                    &&& 0 <= j < both.len()
                    &&& (#[trigger] both[j]).noticeable()
                    &&& both[j].display() == Some(k)
                };
            if j < windows.len() {
                assert(windows[j] == both[j]);
            } else {
                assert(more[j - windows.len()] == both[j]);
            }
        }
    }
    assert(occupied(both) =~= occupied(windows).union(occupied(more)));
    if 0 <= i < windows.len() && windows[i].noticeable() && windows[i].device is Some {
        let k = device_text(windows[i].device->0@);
        assert(windows[i].display() == Some(k));
    }
    if occupied(windows).contains(key) {
        let j = choose|j: int|
            {
                &&& 0 <= j < windows.len()
                &&& (#[trigger] windows[j]).noticeable()
                &&& windows[j].display() == Some(key)
            };
        assert(windows[j].device is Some);
    }
}

/// A device name ends at the first zero, whatever the buffer holds behind it, or with the buffer.
pub proof fn device_name_ends_at_the_first_zero(name: Seq<u16>, rest: Seq<u16>)
    requires
        forall|i: int| 0 <= i < name.len() ==> name[i] != 0,
    ensures
        device_text(name + seq![0u16] + rest) == crate::text::decoded(name),
        device_text(name) == crate::text::decoded(name),
{
    let n = name.len() as int;
    let buffer = name + seq![0u16] + rest;
    lemma_until_zero(buffer, n);
    lemma_until_zero(name, n);
    assert(buffer.take(n) =~= name);
    assert(name.take(n) =~= name);
}

/// A name without a backslash is a display of its own.
pub proof fn plain_name_is_its_own_key(name: Seq<char>)
    requires
        !name.contains('\\'),
    ensures
        key_of(name) == name,
{
    crate::text::text_is_split_at_the_last_mark(Seq::empty(), name, '\\');
}

} // verus!
