use sunrise_brightness::config::DimMode;
use sunrise_brightness::inactive::x11::{
    is_builtin_name, AtomName, Detector, PropertyKind, Rect, Reply, Request,
};

const ROOT: u32 = 1;

/// A laptop panel at the left, a monitor to the right of it, and three windows.
struct Desk {
    active: u32,
    outputs: Vec<(bool, u32, &'static str)>,
    clients: Option<Vec<u32>>,
    asked: Vec<Request>,
}

fn desk() -> Desk {
    Desk {
        active: 11,
        outputs: vec![(true, 5, "HDMI-1"), (false, 6, "eDP-2"), (true, 0, "eDP-3"), (true, 7, "eDP-1")],
        clients: Some(vec![10, 11, 12]),
        asked: vec![],
    }
}

impl Desk {
    fn answer(&mut self, request: Request) -> Reply {
        self.asked.push(request);
        match request {
            Request::ScreenResources { root } => {
                assert_eq!(root, ROOT);
                let outputs = (0..self.outputs.len() as u32).collect();
                Reply::Resources { timestamp: 99, outputs }
            }
            Request::OutputInfo { output, timestamp } => {
                assert_eq!(timestamp, 99);
                let (connected, crtc, name) = self.outputs[output as usize];
                Reply::Output { connected, crtc, name: name.as_bytes().to_vec() }
            }
            Request::CrtcInfo { crtc, timestamp } => {
                assert_eq!((crtc, timestamp), (7, 99));
                Reply::Crtc { x: 0, y: 0, width: 100, height: 50 }
            }
            Request::InternAtom(name) => Reply::Atom(match name {
                AtomName::ActiveWindow => 201,
                AtomName::ClientList => 202,
                AtomName::WindowType => 203,
                AtomName::WindowTypeDock => 204,
                AtomName::WindowTypeDesktop => 205,
                AtomName::State => 206,
                AtomName::StateHidden => 207,
            }),
            Request::Property { window, atom, kind, length } => match (window, atom) {
                (ROOT, 201) => {
                    assert_eq!((kind, length), (PropertyKind::Window, 1));
                    Reply::Words(vec![self.active])
                }
                (ROOT, 202) => {
                    assert_eq!((kind, length), (PropertyKind::Window, u32::MAX));
                    match &self.clients {
                        Some(list) => Reply::Words(list.clone()),
                        None => Reply::Failed,
                    }
                }
                // Window 10 is a dock, window 12 is minimised.
                // The telling atom stands far down the dock's list.
                (10, 203) => {
                    let mut list = vec![300; 40];
                    list.push(204);
                    list.truncate(length as usize);
                    Reply::Words(list)
                }
                (12, 206) => Reply::Words(vec![207]),
                (_, 203) | (_, 206) => {
                    assert_eq!((kind, length), (PropertyKind::Atom, u32::MAX));
                    Reply::Words(vec![300])
                }
                _ => Reply::Failed,
            },
            Request::Tree { root } => {
                assert_eq!(root, ROOT);
                Reply::Tree(vec![10, 12, 13])
            }
            Request::Attributes { window } => {
                Reply::Attributes { viewable: window != 14, override_redirect: window == 15 }
            }
            Request::Geometry { window } => {
                Reply::Geometry { width: if window == 16 { 0 } else { 20 }, height: 20 }
            }
            Request::Position { window, root } => {
                assert_eq!(root, ROOT);
                // Windows 10, 12 and 13 stand on the panel, the others next to it.
                let x = if [10, 12, 13].contains(&window) { 40 } else { 140 };
                Reply::Position { x, y: 0 }
            }
        }
    }

    fn run(&mut self, mode: DimMode) -> Option<bool> {
        let mut detector = Detector::new();
        assert!(detector.probe(mode).is_none());
        detector.connected(ROOT);
        let mut probe = detector.probe(mode).unwrap();
        while let Some(request) = probe.request() {
            assert!(probe.settled().is_none());
            let reply = self.answer(request);
            probe.reply(reply);
        }
        probe.settled().unwrap()
    }
}

#[test]
fn focused_window_lights_the_panel_it_is_on() {
    assert_eq!(desk().run(DimMode::Focused), Some(false));
    assert_eq!(Desk { active: 13, ..desk() }.run(DimMode::Focused), Some(true));
}

#[test]
fn focused_window_that_is_not_shown_tells_nothing() {
    for active in [14, 15, 16] {
        assert_eq!(Desk { active, ..desk() }.run(DimMode::Focused), None);
    }
}

#[test]
fn docks_and_minimised_windows_do_not_count() {
    assert_eq!(desk().run(DimMode::Empty), Some(false));
    let clients = Some(vec![10, 13, 12]);
    assert_eq!(Desk { clients, ..desk() }.run(DimMode::Empty), Some(true));
    // Not shown, shown by itself, or without extent.
    let clients = Some(vec![14, 15, 16]);
    assert_eq!(Desk { clients, ..desk() }.run(DimMode::Empty), Some(false));
}

#[test]
fn without_a_client_list_the_root_children_count() {
    let mut d = Desk { clients: None, ..desk() };
    assert_eq!(d.run(DimMode::Empty), Some(true));
    assert!(d.asked.contains(&Request::Tree { root: ROOT }));
    let mut d = Desk { clients: Some(vec![]), ..desk() };
    assert_eq!(d.run(DimMode::Empty), Some(true));
    let mut d = desk();
    assert_eq!(d.run(DimMode::Empty), Some(false));
    assert!(!d.asked.contains(&Request::Tree { root: ROOT }));
}

#[test]
fn a_desktop_has_no_panel_to_judge() {
    for mode in [DimMode::Focused, DimMode::Empty] {
        let outputs = vec![(true, 5, "HDMI-1"), (true, 6, "DP-1")];
        assert_eq!(Desk { outputs, ..desk() }.run(mode), None);
        assert_eq!(Desk { outputs: vec![], ..desk() }.run(mode), None);
    }
}

#[test]
fn outputs_after_the_panel_are_not_asked_about() {
    let outputs = vec![(true, 7, "edp-1"), (true, 5, "HDMI-1")];
    let mut d = Desk { outputs, ..desk() };
    assert_eq!(d.run(DimMode::Focused), Some(false));
    assert!(!d.asked.contains(&Request::OutputInfo { output: 1, timestamp: 99 }));
}

#[test]
fn a_dead_server_tells_nothing() {
    for mode in [DimMode::Focused, DimMode::Empty] {
        for alive in 0..4 {
            let mut d = desk();
            let mut detector = Detector::new();
            detector.connected(ROOT);
            let mut probe = detector.probe(mode).unwrap();
            let mut n = 0;
            while let Some(request) = probe.request() {
                let reply = if n < alive { d.answer(request) } else { Reply::Failed };
                probe.reply(reply);
                n += 1;
            }
            assert_eq!(probe.settled(), Some(None));
            assert!(detector.lit_displays(None).is_none());
            assert!(detector.probe(mode).is_none());
            assert!(!detector.is_connected());
        }
    }
}

#[test]
fn the_detector_speaks_of_the_builtin_panel() {
    let mut detector = Detector::new();
    assert!(!detector.is_connected());
    detector.connected(ROOT);
    assert!(detector.is_connected());
    let lit = detector.lit_displays(Some(true)).unwrap();
    assert!(lit.contains("builtin"));
    let dark = detector.lit_displays(Some(false)).unwrap();
    assert!(!dark.contains("builtin"));
    assert!(detector.probe(DimMode::Empty).is_some());
}

#[test]
fn builtin_connectors_are_known_by_prefix() {
    for name in ["eDP-1", "EDP", "lvds1", "LVDS-1", "DSI-1", "dsi"] {
        assert!(is_builtin_name(&name.as_bytes().to_vec()), "{name}");
    }
    for name in ["", "ED", "DP-1", "HDMI-1", "xEDP", "LVD"] {
        assert!(!is_builtin_name(&name.as_bytes().to_vec()), "{name}");
    }
    assert!(is_builtin_name(&vec![b'e', b'D', b'P', 0xFF]));
    assert!(!is_builtin_name(&vec![0xFF, b'E', b'D', b'P']));
}

#[test]
fn rectangles_hold_their_left_and_top_edges() {
    let r = Rect { x: -10, y: 5, w: 21, h: 10 };
    assert_eq!(r.center(), (0, 10));
    assert!(r.contains((-10, 5)));
    assert!(r.contains((10, 14)));
    assert!(!r.contains((11, 14)));
    assert!(!r.contains((10, 15)));
    assert!(!r.contains((-11, 5)));
}

#[test]
fn properties_are_read_as_words() {
    let mut bytes = Vec::new();
    for w in [1u32, 0xDEADBEEF, 7] {
        bytes.extend_from_slice(&w.to_ne_bytes());
    }
    bytes.push(9);
    match Reply::property(32, bytes.clone()) {
        Reply::Words(words) => assert_eq!(words, vec![1, 0xDEADBEEF, 7]),
        other => panic!("{other:?}"),
    }
    assert!(matches!(Reply::property(8, bytes), Reply::Failed));
}

#[test]
fn atoms_are_spelled_out() {
    assert_eq!(AtomName::ActiveWindow.as_str(), "_NET_ACTIVE_WINDOW");
    assert_eq!(AtomName::ClientList.as_str(), "_NET_CLIENT_LIST");
    assert_eq!(AtomName::WindowType.as_str(), "_NET_WM_WINDOW_TYPE");
    assert_eq!(AtomName::WindowTypeDock.as_str(), "_NET_WM_WINDOW_TYPE_DOCK");
    assert_eq!(AtomName::WindowTypeDesktop.as_str(), "_NET_WM_WINDOW_TYPE_DESKTOP");
    assert_eq!(AtomName::State.as_str(), "_NET_WM_STATE");
    assert_eq!(AtomName::StateHidden.as_str(), "_NET_WM_STATE_HIDDEN");
}
