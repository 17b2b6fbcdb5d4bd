use sunrise_brightness::config::DimMode;
use sunrise_brightness::inactive::win::{
    display_of, is_real_window, lit_displays, occupied_displays, Rect, WindowReading,
};
use sunrise_brightness::text::utf16_text;

fn units(s: &str) -> Vec<u16> {
    s.encode_utf16().collect()
}

fn buffer(s: &str) -> Vec<u16> {
    let mut b = units(s);
    b.resize(32, 0);
    b
}

fn window() -> WindowReading {
    WindowReading {
        visible: true,
        iconic: false,
        ex_style: 0x100,
        cloaked: Some(0),
        rect: Some(Rect { left: 0, top: 0, right: 10, bottom: 10 }),
        class: units("Notepad"),
        device: Some(buffer(r"\\.\DISPLAY1")),
    }
}

#[test]
fn real_windows_are_shown_and_painted() {
    assert!(is_real_window(&window()));
    assert!(is_real_window(&WindowReading { cloaked: None, ..window() }));
    assert!(is_real_window(&WindowReading { class: vec![], ..window() }));
    assert!(!is_real_window(&WindowReading { visible: false, ..window() }));
    assert!(!is_real_window(&WindowReading { iconic: true, ..window() }));
    assert!(!is_real_window(&WindowReading { ex_style: 0x180, ..window() }));
    assert!(!is_real_window(&WindowReading { cloaked: Some(2), ..window() }));
    assert!(!is_real_window(&WindowReading { rect: None, ..window() }));
    assert!(!is_real_window(&WindowReading { rect: Some(Rect::zeroed()), ..window() }));
    for class in ["Progman", "WorkerW", "Shell_TrayWnd", "Shell_SecondaryTrayWnd"] {
        assert!(!is_real_window(&WindowReading { class: units(class), ..window() }));
    }
    assert!(is_real_window(&WindowReading { class: units("progman"), ..window() }));
}

#[test]
fn empty_rectangles_have_no_inside() {
    assert!(Rect::zeroed().is_empty());
    assert!(Rect { left: 5, top: 0, right: 4, bottom: 9 }.is_empty());
    assert!(Rect { left: 0, top: 3, right: 4, bottom: 3 }.is_empty());
    assert!(!Rect { left: -5, top: -5, right: -4, bottom: -4 }.is_empty());
}

#[test]
fn device_names_end_at_the_first_zero() {
    assert_eq!(display_of(&buffer(r"\\.\DISPLAY1")), r"\\.\DISPLAY1");
    assert_eq!(display_of(&units("full")), "full");
    assert_eq!(display_of(&vec![]), "");
    assert_eq!(display_of(&vec![0, 65]), "");
}

#[test]
fn utf16_reads_as_the_standard_library_reads_it() {
    let cases: Vec<Vec<u16>> = vec![
        vec![],
        units("plain \u{1F600} text \u{10FFFF}\u{E000}\u{FFFD}"),
        vec![0xD800],
        vec![0xDC00, 0xD800],
        vec![0xD800, 0xD800, 0xDC00],
        vec![0xD83D, 65, 0xDE00],
        vec![0xDBFF, 0xDFFF, 0xDBFF],
    ];
    for c in cases {
        assert_eq!(utf16_text(&c), String::from_utf16_lossy(&c));
    }
}

#[test]
fn lit_displays_follow_the_mode() {
    let other = WindowReading { device: Some(buffer(r"\\.\DISPLAY2")), ..window() };
    let tray = WindowReading {
        class: units("Shell_SecondaryTrayWnd"),
        device: Some(buffer(r"\\.\DISPLAY3")),
        ..window()
    };
    let lost = WindowReading { device: None, ..window() };
    let windows = vec![window(), window(), other, tray, lost];
    let found = occupied_displays(&windows);
    assert!(found.contains(r"\\.\DISPLAY1"));
    assert!(found.contains(r"\\.\DISPLAY2"));
    assert!(!found.contains(r"\\.\DISPLAY3"));

    let windows = Some(windows);
    let focused = Some(buffer(r"\\.\DISPLAY2"));
    let lit = lit_displays(DimMode::Focused, &focused, &windows).unwrap();
    assert!(lit.contains(r"\\.\DISPLAY2") && !lit.contains(r"\\.\DISPLAY1"));
    let lit = lit_displays(DimMode::Empty, &focused, &windows).unwrap();
    assert!(lit.same_keys(&found));
    assert!(lit_displays(DimMode::Focused, &None, &windows).is_none());
    assert!(lit_displays(DimMode::Empty, &focused, &None).is_none());
}
