//! What the built-in panel shows, said of the X server as a whole, and that a probe finds it out.
//!
//! A server is taken here as a function that gives each question one reply.

use super::probe::{ProbeState, Stage};
use super::x11::{AtomName, PropertyKind, Rect, Reply, Request};
use crate::config::DimMode;
use vstd::prelude::*;

verus! {

pub open spec fn intern(server: spec_fn(Request) -> Reply, name: AtomName) -> Option<u32> {
    match server(Request::InternAtom(name)) {
        Reply::Atom(atom) => Some(atom),
        _ => None,
    }
}

pub open spec fn property(
    server: spec_fn(Request) -> Reply,
    window: u32,
    atom: u32,
    kind: PropertyKind,
    length: u32,
) -> Option<Seq<u32>> {
    match server(Request::Property { window, atom, kind, length }) {
        Reply::Words(words) => Some(words@),
        _ => None,
    }
}

/// Whether one of `wanted` appears in the atom-list property `atom` of `window`.
pub open spec fn has_atom(
    server: spec_fn(Request) -> Reply,
    window: u32,
    atom: u32,
    wanted: Seq<u32>,
) -> bool {
    match property(server, window, atom, PropertyKind::Atom, u32::MAX) {
        Some(words) => super::probe::shares_atom(words, wanted),
        None => false,
    }
}

/// The place of a window that is shown, managed by the window manager and not empty.
pub open spec fn window_rect(
    server: spec_fn(Request) -> Reply,
    root: u32,
    window: u32,
) -> Option<Rect> {
    match server(Request::Attributes { window }) {
        Reply::Attributes { viewable: true, override_redirect: false } => match server(
            Request::Geometry { window },
        ) {
            Reply::Geometry { width, height } => if width != 0 && height != 0 {
                match server(Request::Position { window, root }) {
                    Reply::Position { x, y } => Some(super::probe::placed(x, y, width, height)),
                    _ => None,
                }
            } else {
                None
            },
            _ => None,
        },
        _ => None,
    }
}

/// The place of a CRTC.
pub open spec fn crtc_rect(
    server: spec_fn(Request) -> Reply,
    crtc: u32,
    timestamp: u32,
) -> Option<Rect> {
    match server(Request::CrtcInfo { crtc, timestamp }) {
        Reply::Crtc { x, y, width, height } => Some(super::probe::placed(x, y, width, height)),
        _ => None,
    }
}

/// The CRTC that drives `output`, if that is a built-in panel in use.
pub open spec fn panel_crtc(
    server: spec_fn(Request) -> Reply,
    output: u32,
    timestamp: u32,
) -> Option<u32> {
    match server(Request::OutputInfo { output, timestamp }) {
        Reply::Output { connected, crtc, name } => if connected && crtc != 0
            && super::x11::builtin_name(name@) {
            Some(crtc)
        } else {
            None
        },
        _ => None,
    }
}

/// The place of the first of `outputs` that is a built-in panel in use.
pub open spec fn first_panel(
    server: spec_fn(Request) -> Reply,
    outputs: Seq<u32>,
    timestamp: u32,
) -> Option<Rect>
    decreases outputs.len(),
{
    if outputs.len() == 0 {
        None
    } else {
        match panel_crtc(server, outputs[0], timestamp) {
            Some(crtc) => crtc_rect(server, crtc, timestamp),
            None => first_panel(server, outputs.drop_first(), timestamp),
        }
    }
}

/// The place of the built-in panel, `None` if the machine has none.
pub open spec fn builtin_rect(server: spec_fn(Request) -> Reply, root: u32) -> Option<Rect> {
    match server(Request::ScreenResources { root }) {
        Reply::Resources { timestamp, outputs } => first_panel(server, outputs@, timestamp),
        _ => None,
    }
}

/// The window that the window manager says is active.
pub open spec fn active_window(server: spec_fn(Request) -> Reply, root: u32) -> Option<u32> {
    match intern(server, AtomName::ActiveWindow) {
        Some(atom) => match property(server, root, atom, PropertyKind::Window, 1) {
            Some(words) => if words.len() > 0 {
                Some(words[0])
            } else {
                None
            },
            None => None,
        },
        None => None,
    }
}

/// The place of the active window.
pub open spec fn focused_rect(server: spec_fn(Request) -> Reply, root: u32) -> Option<Rect> {
    match active_window(server, root) {
        Some(window) => window_rect(server, root, window),
        None => None,
    }
}

/// The windows that the window manager manages, `None` if it lists none.
pub open spec fn client_list(server: spec_fn(Request) -> Reply, root: u32) -> Option<Seq<u32>> {
    match intern(server, AtomName::ClientList) {
        Some(atom) => match property(server, root, atom, PropertyKind::Window, u32::MAX) {
            Some(words) => if words.len() > 0 {
                Some(words)
            } else {
                None
            },
            None => None,
        },
        None => None,
    }
}

/// The managed windows or, without a list of them, the children of the root window.
pub open spec fn candidates(server: spec_fn(Request) -> Reply, root: u32) -> Option<Seq<u32>> {
    match client_list(server, root) {
        Some(list) => Some(list),
        None => match server(Request::Tree { root }) {
            Reply::Tree(children) => Some(children@),
            _ => None,
        },
    }
}

/// Which windows do not count as use: docks, the desktop and minimised windows.
pub struct Passive {
    /// The property that holds a window's types, and the types that do not count.
    pub type_atom: u32,
    pub skip: Seq<u32>,
    /// The property that holds a window's states, and the state of a minimised window.
    pub state_atom: u32,
    pub hidden_atom: u32,
}

pub open spec fn one_of(atom: Option<u32>) -> Seq<u32> {
    match atom {
        Some(a) => seq![a],
        None => Seq::empty(),
    }
}

pub open spec fn passive(server: spec_fn(Request) -> Reply) -> Option<Passive> {
    match (
        intern(server, AtomName::WindowType),
        intern(server, AtomName::State),
        intern(server, AtomName::StateHidden),
    ) {
        (Some(type_atom), Some(state_atom), Some(hidden_atom)) => Some(
            Passive {
                type_atom,
                skip: one_of(intern(server, AtomName::WindowTypeDock)) + one_of(
                    intern(server, AtomName::WindowTypeDesktop),
                ),
                state_atom,
                hidden_atom,
            },
        ),
        _ => None,
    }
}

/// The place of a window that a user would notice.
pub open spec fn visible_rect(
    server: spec_fn(Request) -> Reply,
    root: u32,
    passive: Passive,
    window: u32,
) -> Option<Rect> {
    if has_atom(server, window, passive.type_atom, passive.skip) || has_atom(
        server,
        window,
        passive.state_atom,
        seq![passive.hidden_atom],
    ) {
        None
    } else {
        window_rect(server, root, window)
    }
}

/// Whether one of `windows` would be noticed and has its centre on `panel`.
pub open spec fn some_on_panel(
    server: spec_fn(Request) -> Reply,
    root: u32,
    passive: Passive,
    windows: Seq<u32>,
    panel: Rect,
) -> bool {
    exists|i: int|
        0 <= i < windows.len() && {
            let rect = visible_rect(server, root, passive, #[trigger] windows[i]);
            rect is Some && panel.holds(rect->0.middle())
        }
}

/// Whether the panel is in use when only the focused window counts.
pub open spec fn focus_on_panel(
    server: spec_fn(Request) -> Reply,
    root: u32,
    panel: Rect,
) -> Option<bool> {
    match focused_rect(server, root) {
        Some(rect) => Some(panel.holds(rect.middle())),
        None => None,
    }
}

/// Whether the panel is in use when every window counts that a user would notice.
pub open spec fn windows_on_panel(
    server: spec_fn(Request) -> Reply,
    root: u32,
    panel: Rect,
) -> Option<bool> {
    match (passive(server), candidates(server, root)) {
        (Some(passive), Some(windows)) => Some(
            some_on_panel(server, root, passive, windows, panel),
        ),
        _ => None,
    }
}

pub open spec fn in_use(
    server: spec_fn(Request) -> Reply,
    root: u32,
    mode: DimMode,
    panel: Option<Rect>,
) -> Option<bool> {
    match panel {
        Some(panel) => match mode {
            DimMode::Focused => focus_on_panel(server, root, panel),
            DimMode::Empty => windows_on_panel(server, root, panel),
        },
        None => None,
    }
}

/// Whether something is happening on the built-in panel; `None` when the server does not say, or
/// there is no such panel.
pub open spec fn panel_is_lit(
    server: spec_fn(Request) -> Reply,
    root: u32,
    mode: DimMode,
) -> Option<bool> {
    in_use(server, root, mode, builtin_rect(server, root))
}

/// What is left to find out, as a count of stages, of outputs or windows, and of questions about
/// one window.
pub open spec fn stages_left(s: ProbeState) -> nat {
    match s.stage {
        Stage::Resources => 12,
        Stage::Output => 11,
        Stage::Crtc { .. } => 10,
        Stage::ActiveAtom | Stage::DockAtom => 9,
        Stage::ActiveWindow { .. } | Stage::DesktopAtom => 8,
        Stage::TypeAtom => 7,
        Stage::StateAtom => 6,
        Stage::HiddenAtom => 5,
        Stage::ClientAtom => 4,
        Stage::ClientList { .. } => 3,
        Stage::Tree => 2,
        Stage::Done { .. } => 0,
        _ => 1,
    }
}

pub open spec fn items_left(s: ProbeState) -> nat {
    if s.stage == Stage::Output {
        s.outputs.len()
    } else {
        s.windows.len()
    }
}

pub open spec fn questions_left(s: ProbeState) -> nat {
    match s.stage {
        Stage::WindowType => 5,
        Stage::WindowState => 4,
        Stage::Attributes { .. } => 3,
        Stage::Geometry { .. } => 2,
        Stage::Position { .. } => 1,
        _ => 0,
    }
}

/// The state after asking `server` the pending question.
pub open spec fn after_asking(server: spec_fn(Request) -> Reply, s: ProbeState) -> ProbeState {
    s.next(server(s.request()->0))
}

/// Where the probe settles when `server` answers all its questions.
pub open spec fn outcome(server: spec_fn(Request) -> Reply, s: ProbeState) -> Option<bool>
    decreases stages_left(s), items_left(s), questions_left(s),
    when s.wf()
    via outcome_is_reached
{
    match s.stage {
        Stage::Done { lit } => lit,
        _ => outcome(server, after_asking(server, s)),
    }
}

#[via_fn]
proof fn outcome_is_reached(server: spec_fn(Request) -> Reply, s: ProbeState) {
    if !(s.stage is Done) {
        every_reply_leaves_less_to_ask(s, server(s.request()->0));
    }
}

/// Each reply keeps the state in order and leaves less to find out.
pub proof fn every_reply_leaves_less_to_ask(s: ProbeState, reply: Reply)
    requires
        s.wf(),
        !(s.stage is Done),
    ensures
        s.next(reply).wf(),
        decreases_to!(
            stages_left(s), items_left(s), questions_left(s) => stages_left(s.next(reply)),
            items_left(s.next(reply)), questions_left(s.next(reply))
        ),
{
}

/// Nothing is set aside or found before its time.
spec fn tidy(s: ProbeState) -> bool {
    &&& stages_left(s) >= 9 ==> s.skip == Seq::<u32>::empty()
    &&& stages_left(s) >= 2 ==> !s.lit
}

spec fn position_rect(
    server: spec_fn(Request) -> Reply,
    root: u32,
    window: u32,
    width: u16,
    height: u16,
) -> Option<Rect> {
    match server(Request::Position { window, root }) {
        Reply::Position { x, y } => Some(super::probe::placed(x, y, width, height)),
        _ => None,
    }
}

spec fn geometry_rect(server: spec_fn(Request) -> Reply, root: u32, window: u32) -> Option<Rect> {
    match server(Request::Geometry { window }) {
        Reply::Geometry { width, height } => if width != 0 && height != 0 {
            position_rect(server, root, window, width, height)
        } else {
            None
        },
        _ => None,
    }
}

/// The passive windows, once the types to skip are known.
spec fn passive_skipping(server: spec_fn(Request) -> Reply, skip: Seq<u32>) -> Option<Passive> {
    match (
        intern(server, AtomName::WindowType),
        intern(server, AtomName::State),
        intern(server, AtomName::StateHidden),
    ) {
        (Some(type_atom), Some(state_atom), Some(hidden_atom)) => Some(
            Passive { type_atom, skip, state_atom, hidden_atom },
        ),
        _ => None,
    }
}

spec fn passive_of(s: ProbeState) -> Passive {
    Passive {
        type_atom: s.type_atom,
        skip: s.skip,
        state_atom: s.state_atom,
        hidden_atom: s.hidden_atom,
    }
}

spec fn verdict(
    server: spec_fn(Request) -> Reply,
    s: ProbeState,
    passive: Option<Passive>,
    windows: Option<Seq<u32>>,
) -> Option<bool> {
    match (passive, windows) {
        (Some(passive), Some(windows)) => Some(
            some_on_panel(server, s.root, passive, windows, s.panel),
        ),
        _ => None,
    }
}

/// The place of the window in question.
spec fn question_rect(server: spec_fn(Request) -> Reply, s: ProbeState) -> Option<Rect> {
    match s.stage {
        Stage::WindowType => visible_rect(server, s.root, passive_of(s), s.windows[0]),
        Stage::WindowState => if has_atom(
            server,
            s.windows[0],
            s.state_atom,
            seq![s.hidden_atom],
        ) {
            None
        } else {
            window_rect(server, s.root, s.windows[0])
        },
        Stage::Attributes { window } => window_rect(server, s.root, window),
        Stage::Geometry { window } => geometry_rect(server, s.root, window),
        Stage::Position { window, width, height } => position_rect(
            server,
            s.root,
            window,
            width,
            height,
        ),
        _ => None,
    }
}

/// The answer once the window in question has the place `rect`.
spec fn answer_given(
    server: spec_fn(Request) -> Reply,
    s: ProbeState,
    rect: Option<Rect>,
) -> Option<bool> {
    match s.mode {
        DimMode::Focused => match rect {
            Some(r) => Some(s.panel.holds(r.middle())),
            None => None,
        },
        DimMode::Empty => Some(
            s.lit || (rect is Some && s.panel.holds(rect->0.middle())) || some_on_panel(
                server,
                s.root,
                passive_of(s),
                s.windows.drop_first(),
                s.panel,
            ),
        ),
    }
}

/// What the probe will say, told from where it stands.
spec fn answer(server: spec_fn(Request) -> Reply, s: ProbeState) -> Option<bool> {
    match s.stage {
        Stage::Resources => panel_is_lit(server, s.root, s.mode),
        Stage::Output => in_use(
            server,
            s.root,
            s.mode,
            first_panel(server, s.outputs, s.timestamp),
        ),
        Stage::Crtc { crtc } => in_use(
            server,
            s.root,
            s.mode,
            crtc_rect(server, crtc, s.timestamp),
        ),
        Stage::ActiveAtom => focus_on_panel(server, s.root, s.panel),
        Stage::ActiveWindow { atom } => match property(
            server,
            s.root,
            atom,
            PropertyKind::Window,
            1,
        ) {
            Some(words) => if words.len() > 0 {
                answer_given(server, s, window_rect(server, s.root, words[0]))
            } else {
                None
            },
            None => None,
        },
        Stage::DockAtom => windows_on_panel(server, s.root, s.panel),
        Stage::DesktopAtom => verdict(
            server,
            s,
            passive_skipping(
                server,
                s.skip + one_of(intern(server, AtomName::WindowTypeDesktop)),
            ),
            candidates(server, s.root),
        ),
        Stage::TypeAtom => verdict(
            server,
            s,
            passive_skipping(server, s.skip),
            candidates(server, s.root),
        ),
        Stage::StateAtom => match (
            intern(server, AtomName::State),
            intern(server, AtomName::StateHidden),
        ) {
            (Some(state_atom), Some(hidden_atom)) => verdict(
                server,
                s,
                Some(Passive { type_atom: s.type_atom, skip: s.skip, state_atom, hidden_atom }),
                candidates(server, s.root),
            ),
            _ => None,
        },
        Stage::HiddenAtom => match intern(server, AtomName::StateHidden) {
            Some(hidden_atom) => verdict(
                server,
                s,
                Some(
                    Passive {
                        type_atom: s.type_atom,
                        skip: s.skip,
                        state_atom: s.state_atom,
                        hidden_atom,
                    },
                ),
                candidates(server, s.root),
            ),
            None => None,
        },
        Stage::ClientAtom => verdict(server, s, Some(passive_of(s)), candidates(server, s.root)),
        Stage::ClientList { atom } => verdict(
            server,
            s,
            Some(passive_of(s)),
            match property(server, s.root, atom, PropertyKind::Window, u32::MAX) {
                Some(words) => if words.len() > 0 {
                    Some(words)
                } else {
                    children(server, s.root)
                },
                None => children(server, s.root),
            },
        ),
        Stage::Tree => verdict(server, s, Some(passive_of(s)), children(server, s.root)),
        Stage::Done { lit } => lit,
        _ => answer_given(server, s, question_rect(server, s)),
    }
}

spec fn children(server: spec_fn(Request) -> Reply, root: u32) -> Option<Seq<u32>> {
    match server(Request::Tree { root }) {
        Reply::Tree(children) => Some(children@),
        _ => None,
    }
}

proof fn lemma_on_panel_first(
    server: spec_fn(Request) -> Reply,
    root: u32,
    passive: Passive,
    windows: Seq<u32>,
    panel: Rect,
)
    ensures
        windows.len() == 0 ==> !some_on_panel(server, root, passive, windows, panel),
        windows.len() > 0 ==> (some_on_panel(server, root, passive, windows, panel) <==> ({
            let rect = visible_rect(server, root, passive, windows[0]);
            ||| rect is Some && panel.holds(rect->0.middle())
            ||| some_on_panel(server, root, passive, windows.drop_first(), panel)
        })),
{
    if windows.len() > 0 {
        let rest = windows.drop_first();
        if some_on_panel(server, root, passive, windows, panel) {
            let i = choose|i: int|
                0 <= i < windows.len() && {
                    let rect = visible_rect(server, root, passive, #[trigger] windows[i]);
                    rect is Some && panel.holds(rect->0.middle())
                };
            if i > 0 {
                assert(rest[i - 1] == windows[i]);
            }
        }
        if some_on_panel(server, root, passive, rest, panel) {
            let i = choose|i: int|
                0 <= i < rest.len() && {
                    let rect = visible_rect(server, root, passive, #[trigger] rest[i]);
                    rect is Some && panel.holds(rect->0.middle())
                };
            assert(windows[i + 1] == rest[i]);
        }
    }
}

proof fn lemma_judged(server: spec_fn(Request) -> Reply, s: ProbeState, rect: Option<Rect>)
    requires
        s.wf(),
        s.judging(),
        tidy(s),
    ensures
        tidy(s.judged(rect)),
        answer(server, s.judged(rect)) == answer_given(server, s, rect),
{
    if s.mode == DimMode::Empty {
        let rest = s.windows.drop_first();
        lemma_on_panel_first(server, s.root, passive_of(s), rest, s.panel);
    }
}

proof fn lemma_listed(server: spec_fn(Request) -> Reply, s: ProbeState, windows: Seq<u32>)
    requires
        s.wf(),
        s.mode == DimMode::Empty,
        !s.lit,
    ensures
        tidy(s.with_windows(windows)),
        answer(server, s.with_windows(windows)) == verdict(
            server,
            s,
            Some(passive_of(s)),
            Some(windows),
        ),
{
    lemma_on_panel_first(server, s.root, passive_of(s), windows, s.panel);
}

/// Asking a question does not change what the probe will say.
proof fn lemma_answer_kept(server: spec_fn(Request) -> Reply, s: ProbeState)
    requires
        s.wf(),
        tidy(s),
        !(s.stage is Done),
    ensures
        tidy(after_asking(server, s)),
        answer(server, after_asking(server, s)) == answer(server, s),
{
    let reply = server(s.request()->0);
    let t = s.next(reply);
    match s.stage {
        Stage::Resources => {},
        Stage::Output => {},
        Stage::Crtc { .. } => {},
        Stage::ActiveAtom => {},
        Stage::ActiveWindow { .. } => {},
        Stage::DockAtom => {
            let dock = intern(server, AtomName::WindowTypeDock);
            assert(t.skip =~= one_of(dock));
        },
        Stage::DesktopAtom => {
            let desktop = intern(server, AtomName::WindowTypeDesktop);
            assert(t.skip =~= s.skip + one_of(desktop));
        },
        Stage::ClientList { .. } => {
            if reply is Words {
                lemma_listed(server, s, reply->Words_0@);
            }
        },
        Stage::Tree => {
            if reply is Tree {
                lemma_listed(server, s, reply->Tree_0@);
            }
        },
        Stage::WindowType | Stage::WindowState | Stage::Attributes { .. } | Stage::Geometry {
            ..
        } => {
            lemma_judged(server, s, None);
        },
        Stage::Position { width, height, .. } => {
            lemma_judged(server, s, None);
            match reply {
                Reply::Position { x, y } => {
                    lemma_judged(server, s, Some(super::probe::placed(x, y, width, height)));
                },
                _ => {},
            }
        },
        _ => {},
    }
}

proof fn lemma_outcome(server: spec_fn(Request) -> Reply, s: ProbeState)
    requires
        s.wf(),
        tidy(s),
    ensures
        outcome(server, s) == answer(server, s),
    decreases stages_left(s), items_left(s), questions_left(s),
{
    if !(s.stage is Done) {
        every_reply_leaves_less_to_ask(s, server(s.request()->0));
        lemma_answer_kept(server, s);
        lemma_outcome(server, after_asking(server, s));
    }
}

/// A probe that a server answers settles on whether something is happening on the built-in panel.
pub proof fn probe_tells_whether_panel_is_lit(
    server: spec_fn(Request) -> Reply,
    root: u32,
    mode: DimMode,
)
    ensures
        ProbeState::start(mode, root).wf(),
        outcome(server, ProbeState::start(mode, root)) == panel_is_lit(server, root, mode),
{
    lemma_outcome(server, ProbeState::start(mode, root));
}

/// A machine without a built-in panel is never said to have a dark one.
pub proof fn no_panel_no_verdict(server: spec_fn(Request) -> Reply, root: u32, mode: DimMode)
    requires
        builtin_rect(server, root) is None,
    ensures
        outcome(server, ProbeState::start(mode, root)) is None,
{
    probe_tells_whether_panel_is_lit(server, root, mode);
}

/// When every window counts, docks, the desktop and minimised windows do not: with nothing else
/// open the panel is idle.
pub proof fn passive_windows_leave_panel_idle(server: spec_fn(Request) -> Reply, root: u32)
    requires
        builtin_rect(server, root) is Some,
        passive(server) is Some,
        candidates(server, root) is Some,
        forall|i: int|
            0 <= i < candidates(server, root)->0.len() ==> {
                let w = #[trigger] candidates(server, root)->0[i];
                let p = passive(server)->0;
                has_atom(server, w, p.type_atom, p.skip) || has_atom(
                    server,
                    w,
                    p.state_atom,
                    seq![p.hidden_atom],
                )
            },
    ensures
        outcome(server, ProbeState::start(DimMode::Empty, root)) == Some(false),
{
    probe_tells_whether_panel_is_lit(server, root, DimMode::Empty);
}

/// Whether a reply describes an output that is a panel in the chassis and in use.
pub open spec fn describes_panel(reply: Reply) -> bool {
    match reply {
        Reply::Output { connected, crtc, name } => connected && crtc != 0
            && super::x11::chassis_name(name@),
        _ => false,
    }
}

/// Whether the server says that the built-in panel is output `k`, the first such, with its top left
/// corner at (`x`, `y`).
pub open spec fn panel_lies_at(
    server: spec_fn(Request) -> Reply,
    root: u32,
    k: int,
    x: i16,
    y: i16,
    width: u16,
    height: u16,
) -> bool {
    match server(Request::ScreenResources { root }) {
        Reply::Resources { timestamp, outputs } => {
            &&& 0 <= k < outputs@.len()
            &&& forall|j: int|
                0 <= j < k ==> !describes_panel(
                    server(Request::OutputInfo { output: #[trigger] outputs@[j], timestamp }),
                )
            &&& match server(Request::OutputInfo { output: outputs@[k], timestamp }) {
                Reply::Output { connected, crtc, name } => {
                    &&& connected && crtc != 0 && super::x11::chassis_name(name@)
                    &&& server(Request::CrtcInfo { crtc, timestamp }) == (Reply::Crtc {
                        x,
                        y,
                        width,
                        height,
                    })
                },
                _ => false,
            }
        },
        _ => false,
    }
}

/// Whether the server says that a window is shown, is managed, and has its top left corner at (`x`,
/// `y`).
pub open spec fn window_lies_at(
    server: spec_fn(Request) -> Reply,
    root: u32,
    window: u32,
    x: i16,
    y: i16,
    width: u16,
    height: u16,
) -> bool {
    &&& server(Request::Attributes { window }) == (Reply::Attributes {
        viewable: true,
        override_redirect: false,
    })
    &&& server(Request::Geometry { window }) == (Reply::Geometry { width, height })
    &&& width > 0 && height > 0
    &&& server(Request::Position { window, root }) == (Reply::Position { x, y })
}

/// Whether the point half of `width` and `height` from (`x`, `y`) lies on a panel that spans `pw` by
/// `ph` from (`px`, `py`).
pub open spec fn centre_is_on(
    x: int,
    y: int,
    width: int,
    height: int,
    px: int,
    py: int,
    pw: int,
    ph: int,
) -> bool {
    &&& px <= x + width / 2 && x + width / 2 < px + pw
    &&& py <= y + height / 2 && y + height / 2 < py + ph
}

proof fn lemma_first_panel(
    server: spec_fn(Request) -> Reply,
    outputs: Seq<u32>,
    timestamp: u32,
    k: int,
)
    requires
        0 <= k <= outputs.len(),
        forall|j: int|
            0 <= j < k ==> !describes_panel(
                server(Request::OutputInfo { output: #[trigger] outputs[j], timestamp }),
            ),
        k < outputs.len() ==> describes_panel(
            server(Request::OutputInfo { output: outputs[k], timestamp }),
        ),
    ensures
        k == outputs.len() ==> first_panel(server, outputs, timestamp) is None,
        k < outputs.len() ==> first_panel(server, outputs, timestamp) == crtc_rect(
            server,
            panel_crtc(server, outputs[k], timestamp)->0,
            timestamp,
        ),
    decreases outputs.len(),
{
    if outputs.len() > 0 {
        let reply = server(Request::OutputInfo { output: outputs[0], timestamp });
        if let Reply::Output { connected, crtc, name } = reply {
            super::x11::panel_is_known_by_its_connector(name@);
        }
        if k > 0 {
            assert(!describes_panel(reply));
            let rest = outputs.drop_first();
            assert forall|j: int| 0 <= j < k - 1 implies !describes_panel(
                server(Request::OutputInfo { output: #[trigger] rest[j], timestamp }),
            ) by {
                assert(rest[j] == outputs[j + 1]);
            }
            lemma_first_panel(server, rest, timestamp, k - 1);
        }
    }
}

/// The built-in panel lies where the server says that its CRTC does.
proof fn lemma_panel_lies(
    server: spec_fn(Request) -> Reply,
    root: u32,
    k: int,
    x: i16,
    y: i16,
    width: u16,
    height: u16,
)
    requires
        panel_lies_at(server, root, k, x, y, width, height),
    ensures
        builtin_rect(server, root) == Some(
            Rect { x: x as i32, y: y as i32, w: width as i32, h: height as i32 },
        ),
{
    if let Reply::Resources { timestamp, outputs } = server(Request::ScreenResources { root }) {
        let reply = server(Request::OutputInfo { output: outputs@[k], timestamp });
        if let Reply::Output { connected, crtc, name } = reply {
            super::x11::panel_is_known_by_its_connector(name@);
        }
        lemma_first_panel(server, outputs@, timestamp, k);
    }
}

/// When only the focused window counts, the panel is in use exactly where the centre of that window
/// lies on it, told by the places and sizes that the server gives.
pub proof fn panel_is_lit_by_the_focused_window_on_it(
    server: spec_fn(Request) -> Reply,
    root: u32,
    k: int,
    panel: (i16, i16, u16, u16),
    atom: u32,
    window: u32,
    place: (i16, i16, u16, u16),
)
    requires
        panel_lies_at(server, root, k, panel.0, panel.1, panel.2, panel.3),
        server(Request::InternAtom(AtomName::ActiveWindow)) == Reply::Atom(atom),
        server(
            Request::Property { window: root, atom, kind: PropertyKind::Window, length: 1 },
        ) matches Reply::Words(words) && words@.len() > 0 && words@[0] == window,
        window_lies_at(server, root, window, place.0, place.1, place.2, place.3),
    ensures
        outcome(server, ProbeState::start(DimMode::Focused, root)) == Some(
            centre_is_on(
                place.0 as int,
                place.1 as int,
                place.2 as int,
                place.3 as int,
                panel.0 as int,
                panel.1 as int,
                panel.2 as int,
                panel.3 as int,
            ),
        ),
{
    probe_tells_whether_panel_is_lit(server, root, DimMode::Focused);
    lemma_panel_lies(server, root, k, panel.0, panel.1, panel.2, panel.3);
}

/// A focused window that is not shown, is not managed or has no extent tells nothing of the panel,
/// and neither does a server that names no active window.
pub proof fn focus_that_cannot_be_placed_tells_nothing(
    server: spec_fn(Request) -> Reply,
    root: u32,
    atom: u32,
    window: u32,
)
    requires
        server(Request::InternAtom(AtomName::ActiveWindow)) is Atom ==> {
            &&& server(Request::InternAtom(AtomName::ActiveWindow)) == Reply::Atom(atom)
            &&& match server(
                Request::Property { window: root, atom, kind: PropertyKind::Window, length: 1 },
            ) {
                Reply::Words(words) => words@.len() > 0 ==> {
                    &&& words@[0] == window
                    &&& forall|x: i16, y: i16, w: u16, h: u16|
                        !#[trigger] window_lies_at(server, root, window, x, y, w, h)
                },
                _ => true,
            }
        },
    ensures
        outcome(server, ProbeState::start(DimMode::Focused, root)) is None,
{
    probe_tells_whether_panel_is_lit(server, root, DimMode::Focused);
    if let Reply::Geometry { width, height } = server(Request::Geometry { window }) {
        if let Reply::Position { x, y } = server(Request::Position { window, root }) {
            assert(server(Request::InternAtom(AtomName::ActiveWindow)) is Atom ==> match server(
                Request::Property { window: root, atom, kind: PropertyKind::Window, length: 1 },
            ) {
                Reply::Words(words) => words@.len() > 0 ==> !window_lies_at(
                    server,
                    root,
                    window,
                    x,
                    y,
                    width,
                    height,
                ),
                _ => true,
            });
        }
    }
}

/// Without an output that is a panel in the chassis and in use there is nothing to tell, however many
/// outputs there are.
pub proof fn outputs_elsewhere_tell_nothing(
    server: spec_fn(Request) -> Reply,
    root: u32,
    mode: DimMode,
)
    requires
        match server(Request::ScreenResources { root }) {
            Reply::Resources { timestamp, outputs } => forall|j: int|
                0 <= j < outputs@.len() ==> !describes_panel(
                    server(Request::OutputInfo { output: #[trigger] outputs@[j], timestamp }),
                ),
            _ => true,
        },
    ensures
        outcome(server, ProbeState::start(mode, root)) is None,
{
    probe_tells_whether_panel_is_lit(server, root, mode);
    if let Reply::Resources { timestamp, outputs } = server(Request::ScreenResources { root }) {
        lemma_first_panel(server, outputs@, timestamp, outputs@.len() as int);
    }
}

/// Whether the whole of a window's property lists `atom`.
pub open spec fn lists(
    server: spec_fn(Request) -> Reply,
    window: u32,
    property: u32,
    atom: u32,
) -> bool {
    match server(
        Request::Property {
            window,
            atom: property,
            kind: PropertyKind::Atom,
            length: 0xFFFF_FFFF,
        },
    ) {
        Reply::Words(words) => words@.contains(atom),
        _ => false,
    }
}

/// Whether a window's property lists `atom`, if there is such an atom.
pub open spec fn lists_some(
    server: spec_fn(Request) -> Reply,
    window: u32,
    property: u32,
    atom: Option<u32>,
) -> bool {
    atom is Some && lists(server, window, property, atom->0)
}

/// Whether a reply names this atom, or no atom.
pub open spec fn names(reply: Reply, atom: Option<u32>) -> bool {
    match atom {
        Some(a) => reply == Reply::Atom(a),
        None => !(reply is Atom),
    }
}

/// The atoms that tell passive windows: the types dock and desktop, which may be missing, and the
/// state hidden.
pub open spec fn atoms_are(
    server: spec_fn(Request) -> Reply,
    types: u32,
    dock: Option<u32>,
    desktop: Option<u32>,
    states: u32,
    hidden: u32,
) -> bool {
    &&& server(Request::InternAtom(AtomName::WindowType)) == Reply::Atom(types)
    &&& names(server(Request::InternAtom(AtomName::WindowTypeDock)), dock)
    &&& names(server(Request::InternAtom(AtomName::WindowTypeDesktop)), desktop)
    &&& server(Request::InternAtom(AtomName::State)) == Reply::Atom(states)
    &&& server(Request::InternAtom(AtomName::StateHidden)) == Reply::Atom(hidden)
}

/// The windows that a window manager lists, or without any the children of the root window.
pub open spec fn windows_are(
    server: spec_fn(Request) -> Reply,
    root: u32,
    windows: Seq<u32>,
) -> bool {
    let children = server(Request::Tree { root }) matches Reply::Tree(list) && list@ == windows;
    match server(Request::InternAtom(AtomName::ClientList)) {
        Reply::Atom(atom) => match server(
            Request::Property {
                window: root,
                atom,
                kind: PropertyKind::Window,
                length: 0xFFFF_FFFF,
            },
        ) {
            Reply::Words(words) => if words@.len() > 0 {
                words@ == windows
            } else {
                children
            },
            _ => children,
        },
        _ => children,
    }
}

proof fn lemma_lists(
    server: spec_fn(Request) -> Reply,
    window: u32,
    property: u32,
    a: Option<u32>,
    b: Option<u32>,
)
    ensures
        a is Some ==> (has_atom(server, window, property, seq![a->0]) <==> lists_some(
            server,
            window,
            property,
            a,
        )),
        has_atom(server, window, property, one_of(a) + one_of(b)) <==> lists_some(
            server,
            window,
            property,
            a,
        ) || lists_some(server, window, property, b),
{
    let reply = server(
        Request::Property { window, atom: property, kind: PropertyKind::Atom, length: u32::MAX },
    );
    let both = one_of(a) + one_of(b);
    if a is Some {
        assert(both[0] == a->0 && seq![a->0][0] == a->0);
    }
    if b is Some {
        assert(both.last() == b->0);
    }
    if let Reply::Words(words) = reply {
        let list = words@;
        if a is Some && list.contains(a->0) {
            let i = choose|i: int| 0 <= i < list.len() && list[i] == a->0;
            assert(seq![a->0].contains(list[i]) && both.contains(list[i]));
        }
        if b is Some && list.contains(b->0) {
            let i = choose|i: int| 0 <= i < list.len() && list[i] == b->0;
            assert(both.contains(list[i]));
        }
    }
}

/// When every window counts, one that is neither dock, desktop nor minimised and has its centre on
/// the panel keeps it in use, whatever the other windows are.
pub proof fn panel_is_lit_by_any_window_on_it(
    server: spec_fn(Request) -> Reply,
    root: u32,
    k: int,
    panel: (i16, i16, u16, u16),
    atoms: (u32, Option<u32>, Option<u32>, u32, u32),
    windows: Seq<u32>,
    i: int,
    place: (i16, i16, u16, u16),
)
    requires
        panel_lies_at(server, root, k, panel.0, panel.1, panel.2, panel.3),
        atoms_are(server, atoms.0, atoms.1, atoms.2, atoms.3, atoms.4),
        windows_are(server, root, windows),
        0 <= i < windows.len(),
        !lists_some(server, windows[i], atoms.0, atoms.1),
        !lists_some(server, windows[i], atoms.0, atoms.2),
        !lists(server, windows[i], atoms.3, atoms.4),
        window_lies_at(server, root, windows[i], place.0, place.1, place.2, place.3),
        centre_is_on(
            place.0 as int,
            place.1 as int,
            place.2 as int,
            place.3 as int,
            panel.0 as int,
            panel.1 as int,
            panel.2 as int,
            panel.3 as int,
        ),
    ensures
        outcome(server, ProbeState::start(DimMode::Empty, root)) == Some(true),
{
    probe_tells_whether_panel_is_lit(server, root, DimMode::Empty);
    lemma_panel_lies(server, root, k, panel.0, panel.1, panel.2, panel.3);
    lemma_lists(server, windows[i], atoms.0, atoms.1, atoms.2);
    lemma_lists(server, windows[i], atoms.3, Some(atoms.4), None);
    assert(candidates(server, root) == Some(windows));
    let rect = visible_rect(server, root, passive(server)->0, windows[i]);
    assert(rect is Some);
    let p = builtin_rect(server, root)->0;
    assert(p.holds(rect->0.middle()));
    assert(some_on_panel(server, root, passive(server)->0, windows, p));
}

/// When every window counts, the panel is idle where each window is a dock, the desktop, minimised,
/// not to be placed, or has its centre elsewhere.
pub proof fn panel_is_idle_without_a_window_on_it(
    server: spec_fn(Request) -> Reply,
    root: u32,
    k: int,
    panel: (i16, i16, u16, u16),
    atoms: (u32, Option<u32>, Option<u32>, u32, u32),
    windows: Seq<u32>,
)
    requires
        panel_lies_at(server, root, k, panel.0, panel.1, panel.2, panel.3),
        atoms_are(server, atoms.0, atoms.1, atoms.2, atoms.3, atoms.4),
        windows_are(server, root, windows),
        forall|i: int, x: i16, y: i16, w: u16, h: u16|
            0 <= i < windows.len() && #[trigger] window_lies_at(
                server,
                root,
                windows[i],
                x,
                y,
                w,
                h,
            ) ==> {
                ||| lists_some(server, windows[i], atoms.0, atoms.1)
                ||| lists_some(server, windows[i], atoms.0, atoms.2)
                ||| lists(server, windows[i], atoms.3, atoms.4)
                ||| !centre_is_on(
                    x as int,
                    y as int,
                    w as int,
                    h as int,
                    panel.0 as int,
                    panel.1 as int,
                    panel.2 as int,
                    panel.3 as int,
                )
            },
    ensures
        outcome(server, ProbeState::start(DimMode::Empty, root)) == Some(false),
{
    probe_tells_whether_panel_is_lit(server, root, DimMode::Empty);
    lemma_panel_lies(server, root, k, panel.0, panel.1, panel.2, panel.3);
    assert(candidates(server, root) == Some(windows));
    let p = builtin_rect(server, root)->0;
    let marks = passive(server)->0;
    assert forall|i: int| 0 <= i < windows.len() implies !({
        let rect = visible_rect(server, root, marks, #[trigger] windows[i]);
        rect is Some && p.holds(rect->0.middle())
    }) by {
        let window = windows[i];
        lemma_lists(server, window, atoms.0, atoms.1, atoms.2);
        lemma_lists(server, window, atoms.3, Some(atoms.4), None);
        if let Reply::Geometry { width, height } = server(Request::Geometry { window }) {
            if let Reply::Position { x, y } = server(Request::Position { window, root }) {
                if window_lies_at(server, root, window, x, y, width, height) {
                    assert(window_lies_at(server, root, windows[i], x, y, width, height));
                }
            }
        }
    }
    assert(!some_on_panel(server, root, marks, windows, p));
}

/// When every window counts but the server does not name the atoms of types and states, or lists no
/// windows, there is nothing to tell.
pub proof fn unnamed_atoms_tell_nothing(server: spec_fn(Request) -> Reply, root: u32)
    requires
        ({
            ||| !(server(Request::InternAtom(AtomName::WindowType)) is Atom)
            ||| !(server(Request::InternAtom(AtomName::State)) is Atom)
            ||| !(server(Request::InternAtom(AtomName::StateHidden)) is Atom)
            ||| forall|windows: Seq<u32>| !#[trigger] windows_are(server, root, windows)
        }),
    ensures
        outcome(server, ProbeState::start(DimMode::Empty, root)) is None,
{
    probe_tells_whether_panel_is_lit(server, root, DimMode::Empty);
    if candidates(server, root) is Some {
        assert(windows_are(server, root, candidates(server, root)->0));
    }
}

} // verus!
