use alvr_capture::hotkey_monitor::{
    plan_bindings, to_win_hotkey, Binding, BindingPlan, HotkeyAction, HotkeyMessage, HotkeyMonitor,
    HotkeyStep,
};
use alvr_capture::hotkeys::{parse_hotkey, HotkeyError, HotkeySpec, Modifier};
use alvr_capture::hotkey_monitor::{MOD_ALT, MOD_CONTROL, MOD_NOREPEAT, MOD_SHIFT, MOD_WIN};
use alvr_capture::text::{decimal_text, is_white_space, padded_text, trimmed_text};
use windows::Win32::UI::Input::KeyboardAndMouse as win32;

#[test]
fn parse_f8() {
    let k = parse_hotkey("F8").unwrap();
    assert!(k.modifiers.is_empty());
    assert_eq!(k.vk_name, "F8");
}

#[test]
fn parse_ctrl_f8() {
    let k = parse_hotkey("Ctrl+F8").unwrap();
    assert!(k.modifiers.iter().any(|m| matches!(m, Modifier::Ctrl)));
    assert_eq!(k.vk_name, "F8");
}

#[test]
fn parse_invalid() {
    assert!(parse_hotkey("").is_err());
    assert!(parse_hotkey("Ctrl+").is_err());
}

#[test]
fn parse_printscreen() {
    let k = parse_hotkey("PrintScreen").unwrap();
    assert_eq!(k.vk_name, "PRINTSCREEN");
}

#[test]
fn every_modifier_word_is_known() {
    for (word, modifier) in [
        ("ctrl", Modifier::Ctrl),
        ("CONTROL", Modifier::Ctrl),
        ("Alt", Modifier::Alt),
        ("sHiFt", Modifier::Shift),
        ("win", Modifier::Win),
        ("Super", Modifier::Win),
        ("META", Modifier::Win),
    ] {
        let k = parse_hotkey(&format!(" {word} + a ")).unwrap();
        assert_eq!(k.modifiers, vec![modifier]);
        assert_eq!(k.vk_name, "A");
    }
}

#[test]
fn modifiers_keep_order_and_repeats() {
    let k = parse_hotkey("Shift+Ctrl+Shift+9").unwrap();
    assert_eq!(k.modifiers, vec![Modifier::Shift, Modifier::Ctrl, Modifier::Shift]);
    assert_eq!(k.vk_name, "9");
}

#[test]
fn empty_words_are_skipped() {
    let k = parse_hotkey("++ Ctrl +\t+ F8 +").unwrap();
    assert_eq!(k.modifiers, vec![Modifier::Ctrl]);
    assert_eq!(k.vk_name, "F8");
}

#[test]
fn refusals_say_why() {
    assert_eq!(parse_hotkey(" \u{a0}+ +\u{3000}"), Err(HotkeyError::Empty));
    assert_eq!(
        parse_hotkey("Hyper+Bad+F8"),
        Err(HotkeyError::UnknownModifier("hyper".to_string()))
    );
    assert_eq!(
        parse_hotkey("Ctrl+Enter"),
        Err(HotkeyError::UnsupportedKey("Enter".to_string()))
    );
    assert_eq!(
        parse_hotkey("Ctrl"),
        Err(HotkeyError::UnsupportedKey("Ctrl".to_string()))
    );
    assert_eq!(HotkeyError::Empty.message(), "empty hotkey");
    assert_eq!(
        HotkeyError::UnknownModifier("hyper".to_string()).message(),
        "unknown modifier: hyper"
    );
    assert_eq!(
        HotkeyError::UnsupportedKey("Enter".to_string()).message(),
        "unsupported key: Enter"
    );
}

#[test]
fn key_names_are_normalized() {
    for (word, name) in [
        ("prtsc", Some("PRINTSCREEN")),
        ("PrtScn", Some("PRINTSCREEN")),
        ("z", Some("Z")),
        ("0", Some("0")),
        ("F", Some("F")),
        ("f1", Some("F1")),
        ("f12", Some("F12")),
        ("F13", None),
        ("F0", None),
        ("F08", Some("F8")),
        ("f0000000000012", Some("F12")),
        ("F00", None),
        ("F258", None),
        ("F1x", None),
        ("F\u{661}", None),
        ("\u{e9}", None),
        ("-", None),
        ("scrolllock", Some("SCROLLLOCK")),
        ("space", Some("SPACE")),
        ("pause", Some("PAUSE")),
        ("insert", Some("INSERT")),
        ("delete", Some("DELETE")),
        ("home", Some("HOME")),
        ("end", Some("END")),
        ("prior", Some("PRIOR")),
        ("next", Some("NEXT")),
        ("left", Some("LEFT")),
        ("right", Some("RIGHT")),
        ("up", Some("UP")),
        ("down", Some("DOWN")),
        ("pageup", None),
    ] {
        let parsed = parse_hotkey(word).ok().map(|k| k.vk_name);
        assert_eq!(parsed.as_deref(), name, "{word}");
        if let Some(n) = name {
            assert_eq!(parse_hotkey(n).unwrap().vk_name, n);
        }
    }
}

#[test]
fn case_does_not_matter() {
    assert_eq!(parse_hotkey("CTRL+alt+PRINTSCREEN"), parse_hotkey("ctrl+ALT+printscreen"));
}

#[test]
fn white_space_is_what_the_standard_library_takes_it_for() {
    for c in '\0'..=char::MAX {
        assert_eq!(is_white_space(c), c.is_whitespace(), "{:x}", c as u32);
    }
    for s in ["", " ", "\u{2003}a b\r\n", "x", "\u{feff} y "] {
        assert_eq!(trimmed_text(s), s.trim());
    }
}

#[test]
fn decimals_agree_with_the_standard_library() {
    for n in [0, 7, 10, 99, 100, 48000, 4_294_967_295, u128::MAX] {
        assert_eq!(decimal_text(n), n.to_string());
        assert_eq!(padded_text(n, 4), format!("{n:04}"));
    }
}

fn win(s: &str) -> Option<(u32, u32)> {
    to_win_hotkey(&parse_hotkey(s).unwrap())
}

#[test]
fn windows_codes() {
    assert_eq!(win("F8"), Some((0, 0x77)));
    assert_eq!(win("Ctrl+F12"), Some((2, 0x7b)));
    assert_eq!(win("Ctrl+Alt+Shift+Win+Ctrl+PrintScreen"), Some((15, 0x2c)));
    assert_eq!(win("a"), Some((0, 0x41)));
    assert_eq!(win("Win+0"), Some((8, 0x30)));
    assert_eq!(win("Alt+Left"), Some((1, 0x25)));
    assert_eq!(win("Shift+Down"), Some((4, 0x28)));
    assert_eq!(win("ScrollLock"), None);
    assert_eq!(win("F08"), Some((0, 0x77)));
    for n in 1..=12u32 {
        assert_eq!(win(&format!("F{n}")), Some((0, 0x6f + n)));
    }
    for (word, code) in [
        ("Pause", 0x13),
        ("Space", 0x20),
        ("Prior", 0x21),
        ("Next", 0x22),
        ("End", 0x23),
        ("Home", 0x24),
        ("Up", 0x26),
        ("Right", 0x27),
        ("Insert", 0x2d),
        ("Delete", 0x2e),
    ] {
        assert_eq!(win(word), Some((0, code)));
    }
    let small = HotkeySpec { modifiers: vec![], vk_name: "q".to_string() };
    assert_eq!(to_win_hotkey(&small), Some((0, 0x51)));
}

#[test]
fn windows_codes_are_those_of_win32() {
    assert_eq!(MOD_ALT, win32::MOD_ALT.0);
    assert_eq!(MOD_CONTROL, win32::MOD_CONTROL.0);
    assert_eq!(MOD_SHIFT, win32::MOD_SHIFT.0);
    assert_eq!(MOD_WIN, win32::MOD_WIN.0);
    assert_eq!(MOD_NOREPEAT, win32::MOD_NOREPEAT.0);
    for (word, code) in [
        ("F1", win32::VK_F1),
        ("F2", win32::VK_F2),
        ("F3", win32::VK_F3),
        ("F4", win32::VK_F4),
        ("F5", win32::VK_F5),
        ("F6", win32::VK_F6),
        ("F7", win32::VK_F7),
        ("F8", win32::VK_F8),
        ("F9", win32::VK_F9),
        ("F10", win32::VK_F10),
        ("F11", win32::VK_F11),
        ("F12", win32::VK_F12),
        ("PrintScreen", win32::VK_SNAPSHOT),
        ("Pause", win32::VK_PAUSE),
        ("Space", win32::VK_SPACE),
        ("Insert", win32::VK_INSERT),
        ("Delete", win32::VK_DELETE),
        ("Home", win32::VK_HOME),
        ("End", win32::VK_END),
        ("Prior", win32::VK_PRIOR),
        ("Next", win32::VK_NEXT),
        ("Left", win32::VK_LEFT),
        ("Right", win32::VK_RIGHT),
        ("Up", win32::VK_UP),
        ("Down", win32::VK_DOWN),
    ] {
        assert_eq!(win(word), Some((0, u32::from(code.0))), "{word}");
    }
}

#[test]
fn hotkeys_that_are_off_register_nothing() {
    assert_eq!(plan_bindings(false, "F8", "F9"), BindingPlan::Disabled);
}

#[test]
fn the_same_hotkey_twice_is_refused() {
    for (shot, rec) in [
        ("ctrl+f8", "Control + F8"),
        ("F8", "f8"),
        ("Ctrl+Shift+F8", "Shift+Ctrl+F8"),
        ("Ctrl+Ctrl+F8", "Ctrl+F8"),
        ("Win+Alt+PrtSc", "Meta+Super+Alt+PrintScreen"),
        ("F08", "F8"),
        ("ScrollLock", "scrolllock"),
    ] {
        assert_eq!(plan_bindings(true, shot, rec), BindingPlan::Identical, "{shot} {rec}");
        let (a, b) = (parse_hotkey(shot).unwrap(), parse_hotkey(rec).unwrap());
        assert!(a.same_as(&b) && b.same_as(&a));
    }
    for (shot, rec) in [("Ctrl+F8", "F8"), ("Ctrl+F8", "Alt+F8"), ("F8", "F9")] {
        assert!(matches!(plan_bindings(true, shot, rec), BindingPlan::Each { .. }));
        assert!(!parse_hotkey(shot).unwrap().same_as(&parse_hotkey(rec).unwrap()));
    }
}

#[test]
fn each_binding_stands_by_itself() {
    let shot = Binding::Register { modifiers: 0x4000, key: 0x77 };
    let rec = Binding::Register { modifiers: 0x4002, key: 0x78 };
    assert_eq!(
        plan_bindings(true, "F8", "Ctrl+F9"),
        BindingPlan::Each { screenshot: shot.clone(), recording: rec.clone() }
    );
    assert_eq!(
        plan_bindings(true, "nonsense", "Ctrl+F9"),
        BindingPlan::Each {
            screenshot: Binding::Invalid(HotkeyError::UnsupportedKey("nonsense".to_string())),
            recording: rec,
        }
    );
    assert_eq!(
        plan_bindings(true, "F8", ""),
        BindingPlan::Each { screenshot: shot, recording: Binding::Invalid(HotkeyError::Empty) }
    );
    assert_eq!(
        plan_bindings(true, "", ""),
        BindingPlan::Each {
            screenshot: Binding::Invalid(HotkeyError::Empty),
            recording: Binding::Invalid(HotkeyError::Empty),
        }
    );
    assert_eq!(
        plan_bindings(true, "ScrollLock", "Pause"),
        BindingPlan::Each {
            screenshot: Binding::Unsupported("SCROLLLOCK".to_string()),
            recording: Binding::Register { modifiers: 0x4000, key: 0x13 },
        }
    );
}

#[test]
fn settings_are_acted_on_when_they_change() {
    let mut monitor = HotkeyMonitor::new();
    assert!(monitor.on_settings(true, "F8", "F9").is_some());
    assert!(monitor.on_settings(true, "F8", "F9").is_none());
    assert_eq!(monitor.on_settings(false, "F8", "F9"), Some(BindingPlan::Disabled));
    assert!(monitor.on_settings(false, "F8", "F9").is_none());
    assert!(monitor.on_settings(true, "F8", "F10").is_some());
    assert!(monitor.on_settings(true, "F8|F10", "").is_some());
    assert!(monitor.on_settings(true, "F8", "F10|").is_some());
    let last = monitor.last_settings.unwrap();
    assert_eq!((last.enabled, last.screenshot.as_str(), last.recording.as_str()), (true, "F8", "F10|"));
}

#[test]
fn presses_are_debounced() {
    let ms = 1_000_000u64;
    let mut monitor = HotkeyMonitor::new();
    let shot = HotkeyStep::Fire(HotkeyAction::Screenshot);
    let rec = HotkeyStep::Fire(HotkeyAction::ToggleRecording);
    assert_eq!(monitor.on_message(HotkeyMessage::Hotkey(1), 0), shot);
    assert_eq!(monitor.on_message(HotkeyMessage::Hotkey(2), 299 * ms), HotkeyStep::Ignore);
    assert_eq!(monitor.on_message(HotkeyMessage::Hotkey(2), 300 * ms), rec);
    assert_eq!(monitor.on_message(HotkeyMessage::Hotkey(2), 100 * ms), HotkeyStep::Ignore);
    assert_eq!(monitor.on_message(HotkeyMessage::Hotkey(9), 700 * ms), HotkeyStep::Ignore);
    assert_eq!(monitor.last_fire, Some(700 * ms));
    assert_eq!(monitor.on_message(HotkeyMessage::Other, 701 * ms), HotkeyStep::Dispatch);
    assert_eq!(monitor.on_message(HotkeyMessage::Quit, 702 * ms), HotkeyStep::Stop);
}
