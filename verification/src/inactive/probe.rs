//! Finding out, question by question, whether anything is happening on the built-in panel.
//!
//! A [`Probe`] says what to ask the X server next and takes the answer, until it has settled.

use super::x11::{is_builtin_name, AtomName, PropertyKind, Rect, Reply, Request};
use crate::config::DimMode;
use vstd::prelude::*;

verus! {

/// Where a probe stands: the question it waits for, or its answer.
#[derive(Clone, Copy, Debug, PartialEq, Eq, Structural)]
pub enum Stage {
    Resources,
    Output,
    Crtc { crtc: u32 },
    ActiveAtom,
    ActiveWindow { atom: u32 },
    DockAtom,
    DesktopAtom,
    TypeAtom,
    StateAtom,
    HiddenAtom,
    ClientAtom,
    ClientList { atom: u32 },
    Tree,
    WindowType,
    WindowState,
    Attributes { window: u32 },
    Geometry { window: u32 },
    Position { window: u32, width: u16, height: u16 },
    /// `None` when it could not tell.
    Done { lit: Option<bool> },
}

/// The contents of a [`Probe`].
#[verifier::ext_equal]
pub struct ProbeState {
    pub mode: DimMode,
    pub root: u32,
    pub stage: Stage,
    /// When the screen configuration last changed.
    pub timestamp: u32,
    /// The outputs not looked at yet; the first is the one asked about.
    pub outputs: Seq<u32>,
    pub panel: Rect,
    /// Window types that do not count as use.
    pub skip: Seq<u32>,
    pub type_atom: u32,
    pub state_atom: u32,
    pub hidden_atom: u32,
    /// The windows not judged yet; the first is the one asked about.
    pub windows: Seq<u32>,
    /// Whether a window judged so far has its centre on the panel.
    pub lit: bool,
}

/// A place and size as X11 gives them.
pub open spec fn placed(x: i16, y: i16, width: u16, height: u16) -> Rect {
    Rect { x: x as i32, y: y as i32, w: width as i32, h: height as i32 }
}

/// Whether one of the atoms in `list` is one of `wanted`.
pub open spec fn shares_atom(list: Seq<u32>, wanted: Seq<u32>) -> bool {
    exists|i: int| 0 <= i < list.len() && wanted.contains(#[trigger] list[i])
}

impl ProbeState {
    pub open spec fn start(mode: DimMode, root: u32) -> ProbeState {
        ProbeState {
            mode,
            root,
            stage: Stage::Resources,
            timestamp: 0,
            outputs: Seq::empty(),
            panel: Rect { x: 0, y: 0, w: 0, h: 0 },
            skip: Seq::empty(),
            type_atom: 0,
            state_atom: 0,
            hidden_atom: 0,
            windows: Seq::empty(),
            lit: false,
        }
    }

    /// The rectangles at hand are small enough to compute with, and there is something to ask
    /// about.
    pub open spec fn wf(self) -> bool {
        &&& self.panel.middle_fits()
        &&& self.panel.corner_fits()
        &&& self.stage == Stage::Output ==> self.outputs.len() > 0
        &&& self.judging() && self.mode == DimMode::Empty ==> self.windows.len() > 0
        &&& match self.stage {
            Stage::ActiveAtom | Stage::ActiveWindow { .. } => self.mode == DimMode::Focused,
            Stage::DockAtom
            | Stage::DesktopAtom
            | Stage::TypeAtom
            | Stage::StateAtom
            | Stage::HiddenAtom
            | Stage::ClientAtom
            | Stage::ClientList { .. }
            | Stage::Tree
            | Stage::WindowType
            | Stage::WindowState => self.mode == DimMode::Empty,
            _ => true,
        }
    }

    /// Whether it is judging a window.
    pub open spec fn judging(self) -> bool {
        self.stage is WindowType || self.stage is WindowState || self.stage is Attributes
            || self.stage is Geometry || self.stage is Position
    }

    pub open spec fn request(self) -> Option<Request> {
        match self.stage {
            Stage::Resources => Some(Request::ScreenResources { root: self.root }),
            Stage::Output => Some(
                Request::OutputInfo { output: self.outputs[0], timestamp: self.timestamp },
            ),
            Stage::Crtc { crtc } => Some(Request::CrtcInfo { crtc, timestamp: self.timestamp }),
            Stage::ActiveAtom => Some(Request::InternAtom(AtomName::ActiveWindow)),
            Stage::ActiveWindow { atom } => Some(
                Request::Property {
                    window: self.root,
                    atom,
                    kind: PropertyKind::Window,
                    length: 1,
                },
            ),
            Stage::DockAtom => Some(Request::InternAtom(AtomName::WindowTypeDock)),
            Stage::DesktopAtom => Some(Request::InternAtom(AtomName::WindowTypeDesktop)),
            Stage::TypeAtom => Some(Request::InternAtom(AtomName::WindowType)),
            Stage::StateAtom => Some(Request::InternAtom(AtomName::State)),
            Stage::HiddenAtom => Some(Request::InternAtom(AtomName::StateHidden)),
            Stage::ClientAtom => Some(Request::InternAtom(AtomName::ClientList)),
            Stage::ClientList { atom } => Some(
                Request::Property {
                    window: self.root,
                    atom,
                    kind: PropertyKind::Window,
                    length: u32::MAX,
                },
            ),
            Stage::Tree => Some(Request::Tree { root: self.root }),
            Stage::WindowType => Some(
                Request::Property {
                    window: self.windows[0],
                    atom: self.type_atom,
                    kind: PropertyKind::Atom,
                    length: u32::MAX,
                },
            ),
            Stage::WindowState => Some(
                Request::Property {
                    window: self.windows[0],
                    atom: self.state_atom,
                    kind: PropertyKind::Atom,
                    length: u32::MAX,
                },
            ),
            Stage::Attributes { window } => Some(Request::Attributes { window }),
            Stage::Geometry { window } => Some(Request::Geometry { window }),
            Stage::Position { window, .. } => Some(Request::Position { window, root: self.root }),
            Stage::Done { .. } => None,
        }
    }

    pub open spec fn at(self, stage: Stage) -> ProbeState {
        ProbeState { stage, ..self }
    }

    pub open spec fn done(self, lit: Option<bool>) -> ProbeState {
        self.at(Stage::Done { lit })
    }

    /// Goes on to the first of `outputs`; without one there is no panel to speak of.
    pub open spec fn with_outputs(self, outputs: Seq<u32>) -> ProbeState {
        let s = ProbeState { outputs, ..self };
        if outputs.len() == 0 {
            s.done(None)
        } else {
            s.at(Stage::Output)
        }
    }

    /// Goes on to the first of `windows`, or settles when all are judged.
    pub open spec fn with_windows(self, windows: Seq<u32>) -> ProbeState {
        let s = ProbeState { windows, ..self };
        if windows.len() == 0 {
            s.done(Some(s.lit))
        } else {
            s.at(Stage::WindowType)
        }
    }

    /// The window in question is judged: it has the place `rect`, or none that counts.
    pub open spec fn judged(self, rect: Option<Rect>) -> ProbeState {
        match self.mode {
            DimMode::Focused => match rect {
                Some(r) => self.done(Some(self.panel.holds(r.middle()))),
                None => self.done(None),
            },
            DimMode::Empty => {
                let hit = rect is Some && self.panel.holds(rect->0.middle());
                (ProbeState { lit: self.lit || hit, ..self }).with_windows(
                    self.windows.drop_first(),
                )
            },
        }
    }

    /// Takes the answer to the question asked; an answer of another kind counts as a failure.
    pub open spec fn next(self, reply: Reply) -> ProbeState {
        match self.stage {
            Stage::Resources => match reply {
                Reply::Resources { timestamp, outputs } => (ProbeState {
                    timestamp,
                    ..self
                }).with_outputs(outputs@),
                _ => self.done(None),
            },
            Stage::Output => match reply {
                Reply::Output { connected, crtc, name } => if connected && crtc != 0
                    && super::x11::builtin_name(name@) {
                    self.at(Stage::Crtc { crtc })
                } else {
                    self.with_outputs(self.outputs.drop_first())
                },
                _ => self.with_outputs(self.outputs.drop_first()),
            },
            Stage::Crtc { .. } => match reply {
                Reply::Crtc { x, y, width, height } => (ProbeState {
                    panel: placed(x, y, width, height),
                    ..self
                }).at(
                    match self.mode {
                        DimMode::Focused => Stage::ActiveAtom,
                        DimMode::Empty => Stage::DockAtom,
                    },
                ),
                _ => self.done(None),
            },
            Stage::ActiveAtom => match reply {
                Reply::Atom(atom) => self.at(Stage::ActiveWindow { atom }),
                _ => self.done(None),
            },
            Stage::ActiveWindow { .. } => match reply {
                Reply::Words(words) => if words@.len() > 0 {
                    self.at(Stage::Attributes { window: words@[0] })
                } else {
                    self.done(None)
                },
                _ => self.done(None),
            },
            Stage::DockAtom => match reply {
                Reply::Atom(atom) => (ProbeState { skip: self.skip.push(atom), ..self }).at(
                    Stage::DesktopAtom,
                ),
                _ => self.at(Stage::DesktopAtom),
            },
            Stage::DesktopAtom => match reply {
                Reply::Atom(atom) => (ProbeState { skip: self.skip.push(atom), ..self }).at(
                    Stage::TypeAtom,
                ),
                _ => self.at(Stage::TypeAtom),
            },
            Stage::TypeAtom => match reply {
                Reply::Atom(atom) => (ProbeState { type_atom: atom, ..self }).at(
                    Stage::StateAtom,
                ),
                _ => self.done(None),
            },
            Stage::StateAtom => match reply {
                Reply::Atom(atom) => (ProbeState { state_atom: atom, ..self }).at(
                    Stage::HiddenAtom,
                ),
                _ => self.done(None),
            },
            Stage::HiddenAtom => match reply {
                Reply::Atom(atom) => (ProbeState { hidden_atom: atom, ..self }).at(
                    Stage::ClientAtom,
                ),
                _ => self.done(None),
            },
            Stage::ClientAtom => match reply {
                Reply::Atom(atom) => self.at(Stage::ClientList { atom }),
                _ => self.at(Stage::Tree),
            },
            Stage::ClientList { .. } => match reply {
                Reply::Words(words) => if words@.len() > 0 {
                    self.with_windows(words@)
                } else {
                    self.at(Stage::Tree)
                },
                _ => self.at(Stage::Tree),
            },
            Stage::Tree => match reply {
                Reply::Tree(children) => self.with_windows(children@),
                _ => self.done(None),
            },
            Stage::WindowType => match reply {
                Reply::Words(words) => if shares_atom(words@, self.skip) {
                    self.judged(None)
                } else {
                    self.at(Stage::WindowState)
                },
                _ => self.at(Stage::WindowState),
            },
            Stage::WindowState => match reply {
                Reply::Words(words) => if shares_atom(words@, seq![self.hidden_atom]) {
                    self.judged(None)
                } else {
                    self.at(Stage::Attributes { window: self.windows[0] })
                },
                _ => self.at(Stage::Attributes { window: self.windows[0] }),
            },
            Stage::Attributes { window } => match reply {
                Reply::Attributes { viewable, override_redirect } => if viewable
                    && !override_redirect {
                    self.at(Stage::Geometry { window })
                } else {
                    self.judged(None)
                },
                _ => self.judged(None),
            },
            Stage::Geometry { window } => match reply {
                Reply::Geometry { width, height } => if width != 0 && height != 0 {
                    self.at(Stage::Position { window, width, height })
                } else {
                    self.judged(None)
                },
                _ => self.judged(None),
            },
            Stage::Position { width, height, .. } => match reply {
                Reply::Position { x, y } => self.judged(Some(placed(x, y, width, height))),
                _ => self.judged(None),
            },
            Stage::Done { .. } => self,
        }
    }
}

/// A conversation with the X server about the built-in panel.
#[derive(Debug)]
pub struct Probe {
    mode: DimMode,
    root: u32,
    stage: Stage,
    timestamp: u32,
    outputs: Vec<u32>,
    next_output: usize,
    panel: Rect,
    skip: Vec<u32>,
    type_atom: u32,
    state_atom: u32,
    hidden_atom: u32,
    windows: Vec<u32>,
    next_window: usize,
    lit: bool,
}

impl View for Probe {
    type V = ProbeState;

    closed spec fn view(&self) -> ProbeState {
        ProbeState {
            mode: self.mode,
            root: self.root,
            stage: self.stage,
            timestamp: self.timestamp,
            outputs: self.outputs@.skip(self.next_output as int),
            panel: self.panel,
            skip: self.skip@,
            type_atom: self.type_atom,
            state_atom: self.state_atom,
            hidden_atom: self.hidden_atom,
            windows: self.windows@.skip(self.next_window as int),
            lit: self.lit,
        }
    }
}

fn place(x: i16, y: i16, width: u16, height: u16) -> (r: Rect)
    ensures
        r == placed(x, y, width, height),
        r.middle_fits(),
        r.corner_fits(),
{
    Rect { x: x as i32, y: y as i32, w: width as i32, h: height as i32 }
}

fn list_shares_atom(list: &Vec<u32>, wanted: &Vec<u32>) -> (b: bool)
    ensures
        b == shares_atom(list@, wanted@),
{
    let mut i: usize = 0;
    while i < list.len()
        invariant
            i <= list@.len(),
            forall|j: int| 0 <= j < i ==> !wanted@.contains(#[trigger] list@[j]),
        decreases list@.len() - i,
    {
        let mut k: usize = 0;
        while k < wanted.len()
            invariant
                i < list@.len(),
                k <= wanted@.len(),
                forall|j: int| 0 <= j < k ==> wanted@[j] != list@[i as int],
            decreases wanted@.len() - k,
        {
            if wanted[k] == list[i] {
                assert(wanted@.contains(list@[i as int]));
                return true;
            }
            k = k + 1;
        }
        i = i + 1;
    }
    false
}

impl Probe {
    pub closed spec fn inv(&self) -> bool {
        &&& self.next_output <= self.outputs@.len()
        &&& self.next_window <= self.windows@.len()
        &&& self@.wf()
    }

    /// A probe that has asked nothing yet.
    pub fn new(mode: DimMode, root: u32) -> (p: Probe)
        ensures
            p.inv(),
            p@ == ProbeState::start(mode, root),
    {
        let p = Probe {
            mode,
            root,
            stage: Stage::Resources,
            timestamp: 0,
            outputs: Vec::new(),
            next_output: 0,
            panel: Rect { x: 0, y: 0, w: 0, h: 0 },
            skip: Vec::new(),
            type_atom: 0,
            state_atom: 0,
            hidden_atom: 0,
            windows: Vec::new(),
            next_window: 0,
            lit: false,
        };
        assert(p@ =~= ProbeState::start(mode, root));
        p
    }

    /// What to ask next, `None` once it has settled.
    pub fn request(&self) -> (r: Option<Request>)
        requires
            self.inv(),
        ensures
            r == self@.request(),
    {
        match self.stage {
            Stage::Resources => Some(Request::ScreenResources { root: self.root }),
            Stage::Output => Some(
                Request::OutputInfo {
                    output: self.outputs[self.next_output],
                    timestamp: self.timestamp,
                },
            ),
            Stage::Crtc { crtc } => Some(Request::CrtcInfo { crtc, timestamp: self.timestamp }),
            Stage::ActiveAtom => Some(Request::InternAtom(AtomName::ActiveWindow)),
            Stage::ActiveWindow { atom } => Some(
                Request::Property {
                    window: self.root,
                    atom,
                    kind: PropertyKind::Window,
                    length: 1,
                },
            ),
            Stage::DockAtom => Some(Request::InternAtom(AtomName::WindowTypeDock)),
            Stage::DesktopAtom => Some(Request::InternAtom(AtomName::WindowTypeDesktop)),
            Stage::TypeAtom => Some(Request::InternAtom(AtomName::WindowType)),
            Stage::StateAtom => Some(Request::InternAtom(AtomName::State)),
            Stage::HiddenAtom => Some(Request::InternAtom(AtomName::StateHidden)),
            Stage::ClientAtom => Some(Request::InternAtom(AtomName::ClientList)),
            Stage::ClientList { atom } => Some(
                Request::Property {
                    window: self.root,
                    atom,
                    kind: PropertyKind::Window,
                    length: u32::MAX,
                },
            ),
            Stage::Tree => Some(Request::Tree { root: self.root }),
            Stage::WindowType => Some(
                Request::Property {
                    window: self.windows[self.next_window],
                    atom: self.type_atom,
                    kind: PropertyKind::Atom,
                    length: u32::MAX,
                },
            ),
            Stage::WindowState => Some(
                Request::Property {
                    window: self.windows[self.next_window],
                    atom: self.state_atom,
                    kind: PropertyKind::Atom,
                    length: u32::MAX,
                },
            ),
            Stage::Attributes { window } => Some(Request::Attributes { window }),
            Stage::Geometry { window } => Some(Request::Geometry { window }),
            Stage::Position { window, .. } => Some(Request::Position { window, root: self.root }),
            Stage::Done { .. } => None,
        }
    }

    /// The answer, once it has settled.
    pub fn settled(&self) -> (r: Option<Option<bool>>)
        ensures
            match self@.stage {
                Stage::Done { lit } => r == Some(lit),
                _ => r is None,
            },
    {
        match self.stage {
            Stage::Done { lit } => Some(lit),
            _ => None,
        }
    }

    fn finish(&mut self, lit: Option<bool>)
        requires
            old(self).inv(),
        ensures
            final(self).inv(),
            final(self)@ == old(self)@.done(lit),
    {
        self.stage = Stage::Done { lit };
    }

    fn enter(&mut self, stage: Stage)
        requires
            old(self).inv(),
            old(self)@.at(stage).wf(),
        ensures
            final(self).inv(),
            final(self)@ == old(self)@.at(stage),
    {
        self.stage = stage;
    }

    fn set_outputs(&mut self, outputs: Vec<u32>)
        requires
            old(self).inv(),
        ensures
            final(self).inv(),
            final(self)@ == old(self)@.with_outputs(outputs@),
    {
        self.outputs = outputs;
        self.next_output = 0;
        assert(self.outputs@.skip(0) =~= self.outputs@);
        if self.outputs.len() == 0 {
            self.stage = Stage::Done { lit: None };
        } else {
            self.stage = Stage::Output;
        }
    }

    fn skip_output(&mut self)
        requires
            old(self).inv(),
            old(self)@.stage == Stage::Output,
        ensures
            final(self).inv(),
            final(self)@ == old(self)@.with_outputs(old(self)@.outputs.drop_first()),
    {
        let count: usize = self.outputs.len();
        assert(self@.outputs.len() == count - self.next_output);
        self.next_output = self.next_output + 1;
        assert(self.outputs@.skip(self.next_output as int) =~= old(self)@.outputs.drop_first());
        if self.next_output == count {
            self.stage = Stage::Done { lit: None };
        } else {
            self.stage = Stage::Output;
        }
    }

    fn set_windows(&mut self, windows: Vec<u32>)
        requires
            old(self).inv(),
            old(self)@.mode == DimMode::Empty,
        ensures
            final(self).inv(),
            final(self)@ == old(self)@.with_windows(windows@),
    {
        self.windows = windows;
        self.next_window = 0;
        assert(self.windows@.skip(0) =~= self.windows@);
        if self.windows.len() == 0 {
            self.stage = Stage::Done { lit: Some(self.lit) };
        } else {
            self.stage = Stage::WindowType;
        }
    }

    fn judge(&mut self, rect: Option<Rect>)
        requires
            old(self).inv(),
            old(self)@.judging(),
            rect is Some ==> rect->0.middle_fits(),
        ensures
            final(self).inv(),
            final(self)@ == old(self)@.judged(rect),
    {
        match self.mode {
            DimMode::Focused => match rect {
                Some(r) => {
                    let lit: bool = self.panel.contains(r.center());
                    self.finish(Some(lit));
                },
                None => self.finish(None),
            },
            DimMode::Empty => {
                if let Some(r) = rect {
                    let hit: bool = self.panel.contains(r.center());
                    self.lit = self.lit || hit;
                }
                let count: usize = self.windows.len();
                assert(self@.windows.len() == count - self.next_window);
                self.next_window = self.next_window + 1;
                assert(self.windows@.skip(self.next_window as int)
                    =~= old(self)@.windows.drop_first());
                if self.next_window == count {
                    self.stage = Stage::Done { lit: Some(self.lit) };
                } else {
                    self.stage = Stage::WindowType;
                }
            },
        }
    }

    /// Takes the X server's answer to [`Probe::request`].
    pub fn reply(&mut self, reply: Reply)
        requires
            old(self).inv(),
        ensures
            final(self).inv(),
            final(self)@ == old(self)@.next(reply),
    {
        match self.stage {
            Stage::Resources => match reply {
                Reply::Resources { timestamp, outputs } => {
                    self.timestamp = timestamp;
                    self.set_outputs(outputs);
                },
                _ => self.finish(None),
            },
            Stage::Output => match reply {
                Reply::Output { connected, crtc, name } => if connected && crtc != 0
                    && is_builtin_name(&name) {
                    self.enter(Stage::Crtc { crtc });
                } else {
                    self.skip_output();
                },
                _ => self.skip_output(),
            },
            Stage::Crtc { .. } => match reply {
                Reply::Crtc { x, y, width, height } => {
                    self.panel = place(x, y, width, height);
                    match self.mode {
                        DimMode::Focused => self.enter(Stage::ActiveAtom),
                        DimMode::Empty => self.enter(Stage::DockAtom),
                    }
                },
                _ => self.finish(None),
            },
            Stage::ActiveAtom => match reply {
                Reply::Atom(atom) => self.enter(Stage::ActiveWindow { atom }),
                _ => self.finish(None),
            },
            Stage::ActiveWindow { .. } => match reply {
                Reply::Words(words) => if words.len() > 0 {
                    self.enter(Stage::Attributes { window: words[0] });
                } else {
                    self.finish(None);
                },
                _ => self.finish(None),
            },
            Stage::DockAtom => {
                if let Reply::Atom(atom) = reply {
                    self.skip.push(atom);
                }
                self.enter(Stage::DesktopAtom);
            },
            Stage::DesktopAtom => {
                if let Reply::Atom(atom) = reply {
                    self.skip.push(atom);
                }
                self.enter(Stage::TypeAtom);
            },
            Stage::TypeAtom => match reply {
                Reply::Atom(atom) => {
                    self.type_atom = atom;
                    self.enter(Stage::StateAtom);
                },
                _ => self.finish(None),
            },
            Stage::StateAtom => match reply {
                Reply::Atom(atom) => {
                    self.state_atom = atom;
                    self.enter(Stage::HiddenAtom);
                },
                _ => self.finish(None),
            },
            Stage::HiddenAtom => match reply {
                Reply::Atom(atom) => {
                    self.hidden_atom = atom;
                    self.enter(Stage::ClientAtom);
                },
                _ => self.finish(None),
            },
            Stage::ClientAtom => match reply {
                Reply::Atom(atom) => self.enter(Stage::ClientList { atom }),
                _ => self.enter(Stage::Tree),
            },
            Stage::ClientList { .. } => match reply {
                Reply::Words(words) => if words.len() > 0 {
                    self.set_windows(words);
                } else {
                    self.enter(Stage::Tree);
                },
                _ => self.enter(Stage::Tree),
            },
            Stage::Tree => match reply {
                Reply::Tree(children) => self.set_windows(children),
                _ => self.finish(None),
            },
            Stage::WindowType => {
                let skipped: bool = match &reply {
                    Reply::Words(words) => list_shares_atom(words, &self.skip),
                    _ => false,
                };
                if skipped {
                    self.judge(None);
                } else {
                    self.enter(Stage::WindowState);
                }
            },
            Stage::WindowState => {
                let hidden: Vec<u32> = vec![self.hidden_atom];
                assert(hidden@ =~= seq![self.hidden_atom]);
                let minimised: bool = match &reply {
                    Reply::Words(words) => list_shares_atom(words, &hidden),
                    _ => false,
                };
                if minimised {
                    self.judge(None);
                } else {
                    assert(self@.windows.len() > 0);
                    let window: u32 = self.windows[self.next_window];
                    self.enter(Stage::Attributes { window });
                }
            },
            Stage::Attributes { window } => match reply {
                Reply::Attributes { viewable, override_redirect } => if viewable
                    && !override_redirect {
                    self.enter(Stage::Geometry { window });
                } else {
                    self.judge(None);
                },
                _ => self.judge(None),
            },
            Stage::Geometry { window } => match reply {
                Reply::Geometry { width, height } => if width != 0 && height != 0 {
                    self.enter(Stage::Position { window, width, height });
                } else {
                    self.judge(None);
                },
                _ => self.judge(None),
            },
            Stage::Position { width, height, .. } => match reply {
                Reply::Position { x, y } => {
                    let rect = place(x, y, width, height);
                    self.judge(Some(rect));
                },
                _ => self.judge(None),
            },
            Stage::Done { .. } => {},
        }
    }
}

} // verus!
