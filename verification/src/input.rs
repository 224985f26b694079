//! Terminal input events as plain values, and the labels shown for them.
use crate::text::{
    char_text, decimal, decimal_text, join_strings, joined, lemma_joined_len, lemma_joined_part_at,
    lemma_decimal_injective, texts, total_len,
};
use vstd::prelude::*;
use vstd::string::*;

verus! {

/// The modifier keys held during an event, as the bits of crossterm's `KeyModifiers`.
#[derive(Debug, Clone, Copy, PartialEq, Eq, Structural)]
pub struct ModifierKeys(pub u8);

/// The bit of the Control key: crossterm's `KeyModifiers::CONTROL`, `0b0000_0010` in its source.
#[verifier::external_body]
fn control_bit() -> (r: u8)
    ensures
        r == 2u8,
{
    crossterm::event::KeyModifiers::CONTROL.bits()
}

/// The bit of the Alt key: crossterm's `KeyModifiers::ALT`, `0b0000_0100` in its source.
#[verifier::external_body]
fn alt_bit() -> (r: u8)
    ensures
        r == 4u8,
{
    crossterm::event::KeyModifiers::ALT.bits()
}

/// The bit of the Shift key: crossterm's `KeyModifiers::SHIFT`, `0b0000_0001` in its source.
#[verifier::external_body]
fn shift_bit() -> (r: u8)
    ensures
        r == 1u8,
{
    crossterm::event::KeyModifiers::SHIFT.bits()
}

impl ModifierKeys {
    /// Whether every bit of `flag` is held.
    pub open spec fn holds(self, flag: u8) -> bool {
        self.0 & flag == flag
    }

    /// Whether every bit of `flag` is held.
    pub fn contains(self, flag: u8) -> (r: bool)
        ensures
            r == self.holds(flag),
    {
        self.0 & flag == flag
    }
}

/// A key, as the key inspector tells keys apart.
#[derive(Debug, Clone, PartialEq, Eq)]
pub enum Key {
    Char(char),
    Enter,
    Backspace,
    Delete,
    Tab,
    BackTab,
    Esc,
    Up,
    Down,
    Left,
    Right,
    Home,
    End,
    PageUp,
    PageDown,
    Insert,
    /// A function key, by its number.
    F(u8),
    /// Any other key, with the text that crossterm's `Debug` gives its `KeyCode`.
    Other(String),
}

/// A mouse button.
#[derive(Debug, Clone, Copy, PartialEq, Eq, Structural)]
pub enum MouseButton {
    Left,
    Right,
    Middle,
}

/// What the mouse did.
#[derive(Debug, Clone, Copy, PartialEq, Eq, Structural)]
pub enum MouseAction {
    Down(MouseButton),
    Up(MouseButton),
    Drag(MouseButton),
    Moved,
    ScrollDown,
    ScrollUp,
    ScrollLeft,
    ScrollRight,
}

/// An input event, as the key inspector reads it.
#[derive(Debug, Clone, PartialEq, Eq)]
pub enum InputEvent {
    Key { code: Key, modifiers: ModifierKeys },
    Mouse { kind: MouseAction, modifiers: ModifierKeys, column: u16, row: u16 },
    /// An event that is neither a key nor a mouse event (focus, paste, resize).
    Other,
}

/// Whether `code` is a key of crossterm's whose text is empty.
pub open spec fn is_blank_key(code: Key) -> bool {
    code matches Key::Other(text) && text@.len() == 0
}

/// The name of a key.
pub open spec fn key_name(code: Key) -> Seq<char> {
    match code {
        Key::Char(c) => if c == ' ' {
            "Space"@
        } else {
            seq![c]
        },
        Key::Enter => "Enter"@,
        Key::Backspace => "Backspace"@,
        Key::Delete => "Delete"@,
        Key::Tab => "Tab"@,
        Key::BackTab => "BackTab"@,
        Key::Esc => "Esc"@,
        Key::Up => "↑"@,
        Key::Down => "↓"@,
        Key::Left => "←"@,
        Key::Right => "→"@,
        Key::Home => "Home"@,
        Key::End => "End"@,
        Key::PageUp => "PageUp"@,
        Key::PageDown => "PageDown"@,
        Key::Insert => "Insert"@,
        Key::F(n) => "F"@ + decimal(n as nat),
        Key::Other(text) => text@,
    }
}

/// The name of a mouse button.
pub open spec fn button_name(button: MouseButton) -> Seq<char> {
    match button {
        MouseButton::Left => "Left"@,
        MouseButton::Right => "Right"@,
        MouseButton::Middle => "Middle"@,
    }
}

/// The name of a mouse action.
pub open spec fn mouse_name(kind: MouseAction) -> Seq<char> {
    match kind {
        MouseAction::Down(b) => "Down("@ + button_name(b) + ")"@,
        MouseAction::Up(b) => "Up("@ + button_name(b) + ")"@,
        MouseAction::Drag(b) => "Drag("@ + button_name(b) + ")"@,
        MouseAction::Moved => "Moved"@,
        MouseAction::ScrollDown => "ScrollDown"@,
        MouseAction::ScrollUp => "ScrollUp"@,
        MouseAction::ScrollLeft => "ScrollLeft"@,
        MouseAction::ScrollRight => "ScrollRight"@,
    }
}

/// The names of the held modifiers, Control first, then Alt, then Shift.
pub open spec fn modifier_names(modifiers: ModifierKeys) -> Seq<Seq<char>> {
    (if modifiers.holds(2u8) {
        seq!["Ctrl"@]
    } else {
        Seq::empty()
    }) + (if modifiers.holds(4u8) {
        seq!["Alt"@]
    } else {
        Seq::empty()
    }) + (if modifiers.holds(1u8) {
        seq!["Shift"@]
    } else {
        Seq::empty()
    })
}

/// The held modifiers and then `name`, joined by `-`.
pub open spec fn chord_label(modifiers: ModifierKeys, name: Seq<char>) -> Seq<char> {
    joined(modifier_names(modifiers).push(name), "-"@)
}

/// A chord label is empty only when no modifier is held and the name is empty.
pub proof fn lemma_chord_label_nonempty(modifiers: ModifierKeys, name: Seq<char>)
    ensures
        chord_label(modifiers, name).len() > 0 || (modifier_names(modifiers).len() == 0
            && name.len() == 0),
{
    let parts = modifier_names(modifiers).push(name);
    reveal_strlit("-");
    lemma_joined_len(parts, "-"@);
    assert(parts.last() == name);
}

/// With no modifier held, a label is the name alone; otherwise it is the
/// modifiers, then `-`, then the name, and it starts with the first held
/// modifier in the order Ctrl, Alt, Shift, followed by `-`.
pub proof fn lemma_chord_label_shape(modifiers: ModifierKeys, name: Seq<char>)
    ensures
        modifier_names(modifiers).len() == 0 ==> chord_label(modifiers, name) == name,
        modifier_names(modifiers).len() > 0 ==> chord_label(modifiers, name) == joined(
            modifier_names(modifiers),
            "-"@,
        ) + "-"@ + name,
        modifiers.holds(2u8) ==> chord_label(modifiers, name).subrange(0, 5) == "Ctrl-"@,
        !modifiers.holds(2u8) && modifiers.holds(4u8) ==> chord_label(modifiers, name).subrange(0, 4)
            == "Alt-"@,
        !modifiers.holds(2u8) && !modifiers.holds(4u8) && modifiers.holds(1u8) ==> chord_label(
            modifiers,
            name,
        ).subrange(0, 6) == "Shift-"@,
{
    let names = modifier_names(modifiers);
    let parts = names.push(name);
    let label = chord_label(modifiers, name);
    reveal_strlit("-");
    reveal_strlit("Ctrl");
    reveal_strlit("Alt");
    reveal_strlit("Shift");
    reveal_strlit("Ctrl-");
    reveal_strlit("Alt-");
    reveal_strlit("Shift-");
    assert(parts.drop_last() =~= names);
    assert(parts.last() == name);
    if names.len() == 0 {
        assert(parts =~= seq![name]);
    }
    if names.len() > 0 {
        let first = names[0];
        lemma_joined_part_at(parts, "-"@, 0);
        assert(parts.take(0) =~= Seq::<Seq<char>>::empty());
        assert(total_len(parts.take(0)) == 0);
        assert(parts[0] == first);
        assert(label.subrange(0, first.len() as int + 1) =~= first + "-"@);
    }
}

/// A character key other than space is named by that character alone, and
/// its label ends with that character; with no modifier held the label is
/// that character.
pub proof fn lemma_char_key_label(c: char, modifiers: ModifierKeys)
    requires
        c != ' ',
    ensures
        key_name(Key::Char(c)) == seq![c],
        chord_label(modifiers, key_name(Key::Char(c))).last() == c,
        modifier_names(modifiers).len() == 0 ==> chord_label(modifiers, key_name(Key::Char(c)))
            == seq![c],
{
    lemma_chord_label_shape(modifiers, key_name(Key::Char(c)));
}

/// A function key is named `F` and then the decimal digits of its number, so
/// different function keys have different names.
pub proof fn lemma_function_key_name(n: u8)
    ensures
        key_name(Key::F(n))[0] == 'F',
        key_name(Key::F(n)).drop_first() == decimal(n as nat),
        forall|m: u8| m != n ==> key_name(Key::F(m)) != key_name(Key::F(n)),
{
    reveal_strlit("F");
    assert(key_name(Key::F(n)).drop_first() =~= decimal(n as nat));
    assert forall|m: u8| m != n implies key_name(Key::F(m)) != key_name(Key::F(n)) by {
        assert(key_name(Key::F(m)).drop_first() =~= decimal(m as nat));
        if key_name(Key::F(m)) == key_name(Key::F(n)) {
            lemma_decimal_injective(m as nat, n as nat);
        }
    }
}

/// Every key has a name but a key of crossterm's whose text is empty.
pub proof fn lemma_key_name_nonempty(code: Key)
    ensures
        key_name(code).len() > 0 || is_blank_key(code),
{
    reveal_strlit("Space");
    reveal_strlit("Enter");
    reveal_strlit("Backspace");
    reveal_strlit("Delete");
    reveal_strlit("Tab");
    reveal_strlit("BackTab");
    reveal_strlit("Esc");
    reveal_strlit("↑");
    reveal_strlit("↓");
    reveal_strlit("←");
    reveal_strlit("→");
    reveal_strlit("Home");
    reveal_strlit("End");
    reveal_strlit("PageUp");
    reveal_strlit("PageDown");
    reveal_strlit("Insert");
    reveal_strlit("F");
}

/// Every mouse action has a name.
pub proof fn lemma_mouse_name_nonempty(kind: MouseAction)
    ensures
        mouse_name(kind).len() > 0,
{
    reveal_strlit("Down(");
    reveal_strlit("Up(");
    reveal_strlit("Drag(");
    reveal_strlit(")");
    reveal_strlit("Moved");
    reveal_strlit("ScrollDown");
    reveal_strlit("ScrollUp");
    reveal_strlit("ScrollLeft");
    reveal_strlit("ScrollRight");
}

/// The names of the held modifiers, Control first, then Alt, then Shift.
fn modifier_parts(modifiers: ModifierKeys) -> (r: Vec<String>)
    ensures
        texts(r@) == modifier_names(modifiers),
{
    let mut parts: Vec<String> = Vec::new();
    if modifiers.contains(control_bit()) {
        parts.push(String::from_str("Ctrl"));
    }
    let ghost after_ctrl = texts(parts@);
    if modifiers.contains(alt_bit()) {
        parts.push(String::from_str("Alt"));
    }
    let ghost after_alt = texts(parts@);
    if modifiers.contains(shift_bit()) {
        parts.push(String::from_str("Shift"));
    }
    proof {
        let c: Seq<Seq<char>> = if modifiers.holds(2u8) {
            seq!["Ctrl"@]
        } else {
            Seq::empty()
        };
        let a: Seq<Seq<char>> = if modifiers.holds(4u8) {
            seq!["Alt"@]
        } else {
            Seq::empty()
        };
        let s: Seq<Seq<char>> = if modifiers.holds(1u8) {
            seq!["Shift"@]
        } else {
            Seq::empty()
        };
        assert(after_ctrl =~= c);
        assert(after_alt =~= c + a);
        assert(texts(parts@) =~= c + a + s);
    }
    parts
}

/// The name of a key.
pub fn key_name_text(code: &Key) -> (r: String)
    ensures
        r@ == key_name(*code),
{
    match code {
        Key::Char(c) => if *c == ' ' {
            String::from_str("Space")
        } else {
            char_text(*c)
        },
        Key::Enter => String::from_str("Enter"),
        Key::Backspace => String::from_str("Backspace"),
        Key::Delete => String::from_str("Delete"),
        Key::Tab => String::from_str("Tab"),
        Key::BackTab => String::from_str("BackTab"),
        Key::Esc => String::from_str("Esc"),
        Key::Up => String::from_str("↑"),
        Key::Down => String::from_str("↓"),
        Key::Left => String::from_str("←"),
        Key::Right => String::from_str("→"),
        Key::Home => String::from_str("Home"),
        Key::End => String::from_str("End"),
        Key::PageUp => String::from_str("PageUp"),
        Key::PageDown => String::from_str("PageDown"),
        Key::Insert => String::from_str("Insert"),
        Key::F(n) => {
            let mut text = String::from_str("F");
            let number = decimal_text(*n as u64);
            text.append(number.as_str());
            text
        },
        Key::Other(text) => text.clone(),
    }
}

/// The label of a key press: the held modifiers (Control, Alt, Shift) and then
/// the key's name, joined by `-`.
pub fn key_label(code: &Key, modifiers: ModifierKeys) -> (r: String)
    ensures
        r@ == chord_label(modifiers, key_name(*code)),
        r@.len() > 0 || (modifier_names(modifiers).len() == 0 && is_blank_key(*code)),
{
    proof {
        lemma_chord_label_nonempty(modifiers, key_name(*code));
        lemma_key_name_nonempty(*code);
    }
    let mut parts = modifier_parts(modifiers);
    parts.push(key_name_text(code));
    proof {
        assert(texts(parts@) =~= modifier_names(modifiers).push(key_name(*code)));
    }
    join_strings(&parts, "-")
}

/// The name of a mouse button.
fn button_text(button: MouseButton) -> (r: String)
    ensures
        r@ == button_name(button),
{
    match button {
        MouseButton::Left => String::from_str("Left"),
        MouseButton::Right => String::from_str("Right"),
        MouseButton::Middle => String::from_str("Middle"),
    }
}

/// `before`, the button's name, and `)`.
fn button_call(before: &str, button: MouseButton) -> (r: String)
    ensures
        r@ == before@ + button_name(button) + ")"@,
{
    let mut text = String::from_str(before);
    let name = button_text(button);
    text.append(name.as_str());
    text.append(")");
    text
}

/// The name of a mouse action.
pub fn mouse_name_text(kind: MouseAction) -> (r: String)
    ensures
        r@ == mouse_name(kind),
{
    match kind {
        MouseAction::Down(b) => button_call("Down(", b),
        MouseAction::Up(b) => button_call("Up(", b),
        MouseAction::Drag(b) => button_call("Drag(", b),
        MouseAction::Moved => String::from_str("Moved"),
        MouseAction::ScrollDown => String::from_str("ScrollDown"),
        MouseAction::ScrollUp => String::from_str("ScrollUp"),
        MouseAction::ScrollLeft => String::from_str("ScrollLeft"),
        MouseAction::ScrollRight => String::from_str("ScrollRight"),
    }
}

/// The label of a mouse action: the held modifiers (Control, Alt, Shift) and
/// then the action's name, joined by `-`.
pub fn mouse_label(kind: MouseAction, modifiers: ModifierKeys) -> (r: String)
    ensures
        r@ == chord_label(modifiers, mouse_name(kind)),
        r@.len() > 0,
{
    proof {
        lemma_chord_label_nonempty(modifiers, mouse_name(kind));
        lemma_mouse_name_nonempty(kind);
    }
    let mut parts = modifier_parts(modifiers);
    parts.push(mouse_name_text(kind));
    proof {
        assert(texts(parts@) =~= modifier_names(modifiers).push(mouse_name(kind)));
    }
    join_strings(&parts, "-")
}

} // verus!
