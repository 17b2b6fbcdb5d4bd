//! The X11 side: whether anything is happening on the panel built into a laptop.

use crate::config::{DimMode, LitDisplays};
use crate::displays::DisplaySet;
use crate::inactive::probe::Probe;
use vstd::prelude::*;

verus! {

/// The single display key that this side reports on.
pub const BUILTIN: &'static str = "builtin";

/// Every backlight device is the built-in panel.
pub fn display_key(_device_name: &str) -> (key: String)
    ensures
        key@ == BUILTIN@,
{
    BUILTIN.to_owned()
}

/// A rectangle in root-window coordinates.
#[derive(Clone, Copy, Debug, PartialEq, Eq, Structural)]
pub struct Rect {
    pub x: i32,
    pub y: i32,
    pub w: i32,
    pub h: i32,
}

/// Half of `n`, rounded towards zero.
pub open spec fn half(n: int) -> int {
    if n >= 0 {
        n / 2
    } else {
        -((-n) / 2)
    }
}

impl Rect {
    pub open spec fn middle(self) -> (int, int) {
        (self.x + half(self.w as int), self.y + half(self.h as int))
    }

    pub open spec fn holds(self, point: (int, int)) -> bool {
        &&& self.x <= point.0 < self.x + self.w
        &&& self.y <= point.1 < self.y + self.h
    }

    pub open spec fn middle_fits(self) -> bool {
        &&& i32::MIN <= self.middle().0 <= i32::MAX
        &&& i32::MIN <= self.middle().1 <= i32::MAX
    }

    pub open spec fn corner_fits(self) -> bool {
        &&& i32::MIN <= self.x + self.w <= i32::MAX
        &&& i32::MIN <= self.y + self.h <= i32::MAX
    }

    pub fn center(&self) -> (c: (i32, i32))
        requires
            self.middle_fits(),
        ensures
            (c.0 as int, c.1 as int) == self.middle(),
    {
        (self.x + self.w / 2, self.y + self.h / 2)
    }

    pub fn contains(&self, point: (i32, i32)) -> (b: bool)
        requires
            self.corner_fits(),
        ensures
            b == self.holds((point.0 as int, point.1 as int)),
    {
        let (x, y) = point;
        x >= self.x && x < self.x + self.w && y >= self.y && y < self.y + self.h
    }
}

pub open spec fn upper(b: u8) -> u8 {
    if 97 <= b <= 122 {
        (b - 32) as u8
    } else {
        b
    }
}

/// Whether `name` begins with `prefix`, lower-case ASCII letters of `name` counting as upper-case.
pub open spec fn begins_with(name: Seq<u8>, prefix: Seq<char>) -> bool {
    &&& prefix.len() <= name.len()
    &&& forall|i: int| 0 <= i < prefix.len() ==> upper(#[trigger] name[i]) as u32 == prefix[i] as u32
}

/// Connector names that the kernel gives to panels wired into the chassis.
pub open spec fn builtin_name(name: Seq<u8>) -> bool {
    begins_with(name, "EDP"@) || begins_with(name, "LVDS"@) || begins_with(name, "DSI"@)
}

fn name_begins_with(name: &Vec<u8>, prefix: &str) -> (b: bool)
    ensures
        b == begins_with(name@, prefix@),
{
    let n: usize = prefix.unicode_len();
    if name.len() < n {
        return false;
    }
    let mut i: usize = 0;
    while i < n
        invariant
            n == prefix@.len() <= name@.len(),
            i <= n,
            forall|j: int| 0 <= j < i ==> upper(#[trigger] name[j]) as u32 == prefix@[j] as u32,
        decreases n - i,
    {
        let b: u8 = name[i];
        let up: u8 = if 97 <= b && b <= 122 {
            b - 32
        } else {
            b
        };
        if up as u32 != prefix.get_char(i) as u32 {
            assert(upper(name@[i as int]) as u32 != prefix@[i as int] as u32);
            return false;
        }
        i = i + 1;
    }
    true
}

/// Whether an output with this connector name is the panel built into the machine.
pub fn is_builtin_name(name: &Vec<u8>) -> (b: bool)
    ensures
        b == builtin_name(name@),
{
    name_begins_with(name, "EDP") || name_begins_with(name, "LVDS") || name_begins_with(name, "DSI")
}

/// Names that window managers publish their state under.
#[derive(Clone, Copy, Debug, PartialEq, Eq, Structural)]
pub enum AtomName {
    ActiveWindow,
    ClientList,
    WindowType,
    WindowTypeDock,
    WindowTypeDesktop,
    State,
    StateHidden,
}

impl AtomName {
    pub open spec fn spelling(self) -> Seq<char> {
        match self {
            AtomName::ActiveWindow => "_NET_ACTIVE_WINDOW"@,
            AtomName::ClientList => "_NET_CLIENT_LIST"@,
            AtomName::WindowType => "_NET_WM_WINDOW_TYPE"@,
            AtomName::WindowTypeDock => "_NET_WM_WINDOW_TYPE_DOCK"@,
            AtomName::WindowTypeDesktop => "_NET_WM_WINDOW_TYPE_DESKTOP"@,
            AtomName::State => "_NET_WM_STATE"@,
            AtomName::StateHidden => "_NET_WM_STATE_HIDDEN"@,
        }
    }

    pub fn as_str(self) -> (s: &'static str)
        ensures
            s@ == self.spelling(),
    {
        match self {
            AtomName::ActiveWindow => "_NET_ACTIVE_WINDOW",
            AtomName::ClientList => "_NET_CLIENT_LIST",
            AtomName::WindowType => "_NET_WM_WINDOW_TYPE",
            AtomName::WindowTypeDock => "_NET_WM_WINDOW_TYPE_DOCK",
            AtomName::WindowTypeDesktop => "_NET_WM_WINDOW_TYPE_DESKTOP",
            AtomName::State => "_NET_WM_STATE",
            AtomName::StateHidden => "_NET_WM_STATE_HIDDEN",
        }
    }
}

/// What a property is expected to list.
#[derive(Clone, Copy, Debug, PartialEq, Eq, Structural)]
pub enum PropertyKind {
    Window,
    Atom,
}

/// A question to the X server.
#[derive(Clone, Copy, Debug, PartialEq, Eq, Structural)]
pub enum Request {
    /// The current RandR screen resources of the root window.
    ScreenResources { root: u32 },
    OutputInfo { output: u32, timestamp: u32 },
    CrtcInfo { crtc: u32, timestamp: u32 },
    InternAtom(AtomName),
    /// The first `length` words of a property, which is not deleted.
    Property { window: u32, atom: u32, kind: PropertyKind, length: u32 },
    /// The children of the root window.
    Tree { root: u32 },
    Attributes { window: u32 },
    Geometry { window: u32 },
    /// Where the top left corner of `window` lies in `root`.
    Position { window: u32, root: u32 },
}

/// What the X server answered.
#[derive(Debug)]
pub enum Reply {
    /// The request could not be sent, or came back as an error.
    Failed,
    Resources { timestamp: u32, outputs: Vec<u32> },
    Output { connected: bool, crtc: u32, name: Vec<u8> },
    Crtc { x: i16, y: i16, width: u16, height: u16 },
    Atom(u32),
    /// The words of a property.
    Words(Vec<u32>),
    Tree(Vec<u32>),
    Attributes { viewable: bool, override_redirect: bool },
    Geometry { width: u16, height: u16 },
    Position { x: i16, y: i16 },
}

/// The `i`-th word of four bytes, its low byte first or last.
pub open spec fn word(bytes: Seq<u8>, i: int, low_first: bool) -> int {
    let (a, b, c, d) = (bytes[4 * i], bytes[4 * i + 1], bytes[4 * i + 2], bytes[4 * i + 3]);
    if low_first {
        a + 0x100 * b + 0x10000 * c + 0x1000000 * d
    } else {
        d + 0x100 * c + 0x10000 * b + 0x1000000 * a
    }
}

/// Whether `words` are the full words in `bytes`, all of one byte order.
pub open spec fn words_of(bytes: Seq<u8>, words: Seq<u32>, low_first: bool) -> bool {
    &&& words.len() == bytes.len() / 4
    &&& forall|i: int| 0 <= i < words.len() ==> #[trigger] words[i] == word(bytes, i, low_first)
}

/// `GetPropertyReply::value32` of `x11rb`: the 32-bit words of a property, `None` if it holds items
/// of another size. The words have the byte order of the machine.
#[verifier::external_body]
fn x11rb_value32(format: u8, value: Vec<u8>) -> (r: Option<Vec<u32>>)
    ensures
        match r {
            Some(words) => format == 32 && (words_of(value@, words@, true) || words_of(
                value@,
                words@,
                false,
            )),
            None => format != 32,
        },
{
    let reply = x11rb::protocol::xproto::GetPropertyReply {
        format,
        sequence: 0,
        length: 0,
        type_: 0,
        bytes_after: 0,
        value_len: 0,
        value,
    };
    let words = match reply.value32() {
        Some(words) => Some(words.collect()),
        None => None,
    };
    words
}

impl Reply {
    /// The answer that a property's format and bytes amount to: its words, or a failure where it
    /// does not hold words.
    pub fn property(format: u8, value: Vec<u8>) -> (r: Reply)
        ensures
            match r {
                Reply::Words(words) => format == 32 && (words_of(value@, words@, true) || words_of(
                    value@,
                    words@,
                    false,
                )),
                Reply::Failed => format != 32,
                _ => false,
            },
    {
        match x11rb_value32(format, value) {
            Some(words) => Reply::Words(words),
            None => Reply::Failed,
        }
    }
}

/// Remembers whether there is a connection to the X server, across polls.
#[derive(Debug)]
pub struct Detector {
    /// The root window of the connection.
    root: Option<u32>,
}

impl Detector {
    pub closed spec fn connection(&self) -> Option<u32> {
        self.root
    }

    pub fn new() -> (d: Detector)
        ensures
            d.connection() is None,
    {
        Detector { root: None }
    }

    /// A connection was made to the server with this root window.
    pub fn connected(&mut self, root: u32)
        ensures
            final(self).connection() == Some(root),
    {
        self.root = Some(root);
    }

    /// Whether there is a connection.
    pub fn is_connected(&self) -> (b: bool)
        ensures
            b == self.connection() is Some,
    {
        self.root.is_some()
    }

    /// The probe to run, `None` while there is no connection.
    pub fn probe(&self, mode: DimMode) -> (p: Option<Probe>)
        ensures
            match (p, self.connection()) {
                (Some(p), Some(root)) => p.inv() && p@
                    == crate::inactive::probe::ProbeState::start(mode, root),
                (None, None) => true,
                _ => false,
            },
    {
        match self.root {
            Some(root) => Some(Probe::new(mode, root)),
            None => None,
        }
    }

    /// The lit displays once a probe has settled on `lit`. Where it could not tell, the server most
    /// likely went away: the connection is dropped, so that the next poll makes a new one.
    pub fn lit_displays(&mut self, lit: Option<bool>) -> (r: LitDisplays)
        ensures
            match lit {
                Some(true) => r is Some && r->0@ == Set::<Seq<char>>::empty().insert(BUILTIN@),
                Some(false) => r is Some && r->0@ == Set::<Seq<char>>::empty(),
                None => r is None,
            },
            final(self).connection() == if lit is Some {
                old(self).connection()
            } else {
                None
            },
    {
        match lit {
            Some(lit) => if lit {
                Some(DisplaySet::of(BUILTIN.to_owned()))
            } else {
                Some(DisplaySet::new())
            },
            None => {
                self.root = None;
                None
            },
        }
    }
}

/// The centre of a rectangle lies half its width and height from its left and top edge, and points
/// from there up to, but not on, its right and bottom edge are in it.
pub proof fn rectangle_reaches_from_edge_to_edge(r: Rect, px: int, py: int)
    requires
        r.w >= 0,
        r.h >= 0,
    ensures
        2 * (r.middle().0 - r.x) <= r.w <= 2 * (r.middle().0 - r.x) + 1,
        2 * (r.middle().1 - r.y) <= r.h <= 2 * (r.middle().1 - r.y) + 1,
        r.holds((px, py)) <==> 0 <= px - r.x && px - r.x < r.w && 0 <= py - r.y && py - r.y < r.h,
{
}

/// Whether a letter is this one, be it large or small; `small` is the code of the small one.
pub open spec fn is_letter(b: u8, small: int) -> bool {
    b == small || b == small - 32
}

/// Connector names of panels in the chassis, letter by letter: eDP, LVDS and DSI.
pub open spec fn chassis_name(name: Seq<u8>) -> bool {
    ||| name.len() >= 3 && is_letter(name[0], 101) && is_letter(name[1], 100) && is_letter(
        name[2],
        112,
    )
    ||| name.len() >= 4 && is_letter(name[0], 108) && is_letter(name[1], 118) && is_letter(
        name[2],
        100,
    ) && is_letter(name[3], 115)
    ||| name.len() >= 3 && is_letter(name[0], 100) && is_letter(name[1], 115) && is_letter(
        name[2],
        105,
    )
}

/// A panel is known by how its connector's name begins, large or small letters alike, and by nothing
/// behind that.
pub proof fn panel_is_known_by_its_connector(name: Seq<u8>)
    ensures
        builtin_name(name) <==> chassis_name(name),
{
    reveal_strlit("EDP");
    reveal_strlit("LVDS");
    reveal_strlit("DSI");
    if chassis_name(name) {
        if is_letter(name[0], 101) {
            assert(begins_with(name, "EDP"@));
        } else if is_letter(name[0], 108) {
            assert(begins_with(name, "LVDS"@));
        } else {
            assert(begins_with(name, "DSI"@));
        }
    }
    if begins_with(name, "EDP"@) {
        assert(upper(name[0]) as u32 == 'E' as u32);
        assert(upper(name[1]) as u32 == 'D' as u32);
        assert(upper(name[2]) as u32 == 'P' as u32);
    }
    if begins_with(name, "LVDS"@) {
        assert(upper(name[0]) as u32 == 'L' as u32);
        assert(upper(name[1]) as u32 == 'V' as u32);
        assert(upper(name[2]) as u32 == 'D' as u32);
        assert(upper(name[3]) as u32 == 'S' as u32);
    }
    if begins_with(name, "DSI"@) {
        assert(upper(name[0]) as u32 == 'D' as u32);
        assert(upper(name[1]) as u32 == 'S' as u32);
        assert(upper(name[2]) as u32 == 'I' as u32);
    }
}

/// The words of a property are read in order, four bytes each; bytes that make no full word are left
/// out.
pub proof fn words_are_read_in_order(bytes: Seq<u8>, words: Seq<u32>, i: int)
    requires
        words_of(bytes, words, true) || words_of(bytes, words, false),
        0 <= i < words.len(),
    ensures
        bytes.len() - 4 < 4 * words.len() <= bytes.len(),
        ({
            let (a, b, c, d) = (bytes[4 * i], bytes[4 * i + 1], bytes[4 * i + 2], bytes[4 * i + 3]);
            ||| words[i] == a + 256 * (b + 256 * (c + 256 * d))
            ||| words[i] == d + 256 * (c + 256 * (b + 256 * a))
        }),
{
}

} // verus!
