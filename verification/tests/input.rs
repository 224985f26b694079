use termoxide::input::{key_label, mouse_label, Key, ModifierKeys, MouseAction, MouseButton};

const NONE: ModifierKeys = ModifierKeys(0);
const SHIFT: ModifierKeys = ModifierKeys(0b0000_0001);
const CONTROL: ModifierKeys = ModifierKeys(0b0000_0010);
const ALT: ModifierKeys = ModifierKeys(0b0000_0100);

#[test]
fn plain_keys_are_named() {
    assert_eq!(key_label(&Key::Char('a'), NONE), "a");
    assert_eq!(key_label(&Key::Char(' '), NONE), "Space");
    assert_eq!(key_label(&Key::Enter, NONE), "Enter");
    assert_eq!(key_label(&Key::Backspace, NONE), "Backspace");
    assert_eq!(key_label(&Key::Delete, NONE), "Delete");
    assert_eq!(key_label(&Key::Tab, NONE), "Tab");
    assert_eq!(key_label(&Key::BackTab, NONE), "BackTab");
    assert_eq!(key_label(&Key::Esc, NONE), "Esc");
    assert_eq!(key_label(&Key::Up, NONE), "↑");
    assert_eq!(key_label(&Key::Down, NONE), "↓");
    assert_eq!(key_label(&Key::Left, NONE), "←");
    assert_eq!(key_label(&Key::Right, NONE), "→");
    assert_eq!(key_label(&Key::Home, NONE), "Home");
    assert_eq!(key_label(&Key::End, NONE), "End");
    assert_eq!(key_label(&Key::PageUp, NONE), "PageUp");
    assert_eq!(key_label(&Key::PageDown, NONE), "PageDown");
    assert_eq!(key_label(&Key::Insert, NONE), "Insert");
    assert_eq!(key_label(&Key::Char('é'), NONE), "é");
}

#[test]
fn function_keys_carry_their_number() {
    assert_eq!(key_label(&Key::F(1), NONE), "F1");
    assert_eq!(key_label(&Key::F(12), NONE), "F12");
    assert_eq!(key_label(&Key::F(0), NONE), "F0");
    assert_eq!(key_label(&Key::F(255), NONE), "F255");
}

#[test]
fn other_keys_keep_their_text() {
    assert_eq!(key_label(&Key::Other("CapsLock".to_string()), NONE), "CapsLock");
    assert_eq!(key_label(&Key::Other("Media(Play)".to_string()), CONTROL), "Ctrl-Media(Play)");
}

#[test]
fn modifiers_come_first_in_a_fixed_order() {
    assert_eq!(key_label(&Key::Char('c'), CONTROL), "Ctrl-c");
    assert_eq!(key_label(&Key::Char('c'), ALT), "Alt-c");
    assert_eq!(key_label(&Key::Char('C'), SHIFT), "Shift-C");
    assert_eq!(key_label(&Key::Char('x'), ModifierKeys(0b111)), "Ctrl-Alt-Shift-x");
    assert_eq!(key_label(&Key::Enter, ModifierKeys(0b101)), "Alt-Shift-Enter");
    assert_eq!(key_label(&Key::Char(' '), ModifierKeys(0b011)), "Ctrl-Shift-Space");
}

#[test]
fn other_modifier_bits_are_not_shown() {
    assert_eq!(key_label(&Key::Tab, ModifierKeys(0b0011_1000)), "Tab");
    assert_eq!(key_label(&Key::Tab, ModifierKeys(0b0011_1010)), "Ctrl-Tab");
}

#[test]
fn mouse_actions_are_named() {
    assert_eq!(mouse_label(MouseAction::Down(MouseButton::Left), NONE), "Down(Left)");
    assert_eq!(mouse_label(MouseAction::Up(MouseButton::Right), NONE), "Up(Right)");
    assert_eq!(mouse_label(MouseAction::Drag(MouseButton::Middle), NONE), "Drag(Middle)");
    assert_eq!(mouse_label(MouseAction::Moved, NONE), "Moved");
    assert_eq!(mouse_label(MouseAction::ScrollUp, NONE), "ScrollUp");
    assert_eq!(mouse_label(MouseAction::ScrollDown, NONE), "ScrollDown");
    assert_eq!(mouse_label(MouseAction::ScrollLeft, NONE), "ScrollLeft");
    assert_eq!(mouse_label(MouseAction::ScrollRight, NONE), "ScrollRight");
}

#[test]
fn mouse_actions_with_modifiers() {
    assert_eq!(mouse_label(MouseAction::Down(MouseButton::Left), CONTROL), "Ctrl-Down(Left)");
    assert_eq!(mouse_label(MouseAction::ScrollUp, ModifierKeys(0b110)), "Ctrl-Alt-ScrollUp");
}

#[test]
fn contains_needs_every_bit() {
    assert!(ModifierKeys(0b110).contains(0b010));
    assert!(ModifierKeys(0b110).contains(0b110));
    assert!(!ModifierKeys(0b110).contains(0b011));
    assert!(ModifierKeys(0).contains(0));
}
