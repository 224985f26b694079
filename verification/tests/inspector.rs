use termoxide::input::{InputEvent, Key, ModifierKeys, MouseAction, MouseButton};
use termoxide::inspector::{centred_label, keybox_width, KeyLog};

fn key(code: Key, bits: u8) -> InputEvent {
    InputEvent::Key { code, modifiers: ModifierKeys(bits) }
}

#[test]
fn a_new_log_is_empty() {
    let log = KeyLog::new();
    assert_eq!(log.last_key, "");
    assert!(log.history.is_empty());
    assert_eq!(log.display_label(), "(press any key)");
    assert_eq!(log.history_line(), " History: ");
}

#[test]
fn a_key_event_is_recorded() {
    let mut log = KeyLog::new();
    assert!(log.handle_event(None, &key(Key::Char('a'), 0)));
    assert_eq!(log.last_key, "a");
    assert_eq!(log.history, vec!["a".to_string()]);
    assert_eq!(log.display_label(), "a");
}

#[test]
fn the_component_prefixes_the_label() {
    let mut log = KeyLog::new();
    assert!(log.handle_event(Some(3), &key(Key::Enter, 0b010)));
    assert_eq!(log.last_key, "c3:Ctrl-Enter");
    assert!(log.handle_event(Some(0), &key(Key::F(5), 0)));
    assert_eq!(log.last_key, "c0:F5");
    assert!(log.handle_event(Some(1234567890123), &key(Key::Esc, 0)));
    assert_eq!(log.last_key, "c1234567890123:Esc");
}

#[test]
fn a_mouse_event_is_recorded_with_its_position() {
    let mut log = KeyLog::new();
    let event = InputEvent::Mouse {
        kind: MouseAction::Down(MouseButton::Left),
        modifiers: ModifierKeys(0b100),
        column: 12,
        row: 0,
    };
    assert!(log.handle_event(Some(2), &event));
    assert_eq!(log.last_key, "c2:Alt-Down(Left) @(12, 0)");
    let moved = InputEvent::Mouse {
        kind: MouseAction::Moved,
        modifiers: ModifierKeys(0),
        column: 65535,
        row: 7,
    };
    assert!(log.handle_event(None, &moved));
    assert_eq!(log.last_key, "Moved @(65535, 7)");
    assert_eq!(log.history.len(), 2);
}

#[test]
fn other_events_change_nothing() {
    let mut log = KeyLog::new();
    log.handle_event(None, &key(Key::Tab, 0));
    assert!(!log.handle_event(Some(1), &InputEvent::Other));
    assert_eq!(log.last_key, "Tab");
    assert_eq!(log.history, vec!["Tab".to_string()]);
}

#[test]
fn history_line_shows_newest_first() {
    let mut log = KeyLog::new();
    for c in ['a', 'b', 'c'] {
        log.handle_event(None, &key(Key::Char(c), 0));
    }
    assert_eq!(log.history_line(), " History: c  b  a");
}

#[test]
fn history_line_shows_the_latest_twenty() {
    let mut log = KeyLog::new();
    for n in 1..=25u8 {
        log.handle_event(None, &key(Key::F(n), 0));
    }
    assert_eq!(log.history.len(), 20);
    let expected: Vec<String> = (6..=25u8).rev().map(|n| format!("F{n}")).collect();
    assert_eq!(log.history_line(), format!(" History: {}", expected.join("  ")));
}

#[test]
fn keybox_width_is_kept_between_twenty_and_sixty_two() {
    assert_eq!(keybox_width(0), 20);
    assert_eq!(keybox_width(10), 20);
    assert_eq!(keybox_width(24), 20);
    assert_eq!(keybox_width(25), 21);
    assert_eq!(keybox_width(50), 46);
    assert_eq!(keybox_width(66), 62);
    assert_eq!(keybox_width(u16::MAX), 62);
}

#[test]
fn centred_label_pads_on_the_left() {
    assert_eq!(centred_label("abc", 9), "   abc");
    assert_eq!(centred_label("abc", 10), "   abc");
    assert_eq!(centred_label("abc", 3), "abc");
    assert_eq!(centred_label("abcdef", 2), "abcdef");
    assert_eq!(centred_label("", 4), "  ");
}

#[test]
fn centred_label_counts_bytes() {
    // "↑" is three bytes long in UTF-8.
    assert_eq!(centred_label("↑", 7), "  ↑");
}

#[test]
fn last_key_is_always_the_newest_history_entry() {
    let mut log = KeyLog::new();
    let events = [
        key(Key::Char('q'), 0b010),
        InputEvent::Other,
        InputEvent::Mouse { kind: MouseAction::ScrollUp, modifiers: ModifierKeys(0), column: 1, row: 2 },
        key(Key::Other(String::new()), 0),
        InputEvent::Other,
    ];
    for (n, event) in events.iter().enumerate() {
        log.handle_event(Some(n as u64), event);
        assert_eq!(Some(&log.last_key), log.history.last());
    }
    assert_eq!(log.history, vec!["c0:Ctrl-q".to_string(), "c2:ScrollUp @(1, 2)".to_string(), "c3:".to_string()]);
}

#[test]
fn history_keeps_only_the_newest_twenty() {
    let mut log = KeyLog::new();
    for n in 1..=45u8 {
        log.handle_event(None, &key(Key::F(n), 0));
        assert!(log.history.len() <= 20);
        assert_eq!(Some(&log.last_key), log.history.last());
    }
    let expected: Vec<String> = (26..=45u8).map(|n| format!("F{n}")).collect();
    assert_eq!(log.history, expected);
    assert_eq!(log.last_key, "F45");
}

#[test]
fn history_trims_an_overlong_history() {
    let mut log = KeyLog::new();
    log.history = (0..30).map(|n| n.to_string()).collect();
    assert!(log.handle_event(None, &key(Key::Tab, 0)));
    let mut expected: Vec<String> = (11..30).map(|n| n.to_string()).collect();
    expected.push("Tab".to_string());
    assert_eq!(log.history, expected);
}

#[test]
fn last_key_is_empty_only_before_the_first_key_or_mouse_event() {
    let mut log = KeyLog::new();
    assert!(log.last_key.is_empty());
    log.handle_event(None, &InputEvent::Other);
    assert!(log.last_key.is_empty() && log.history.is_empty());
    log.handle_event(None, &key(Key::Char('z'), 0));
    assert!(!log.last_key.is_empty());
}

#[test]
fn a_blank_key_gives_an_empty_label() {
    let mut log = KeyLog::new();
    assert!(log.handle_event(None, &key(Key::Other(String::new()), 0)));
    assert_eq!(log.last_key, "");
    assert_eq!(log.history, vec![String::new()]);
}
