use ratatui::style::Modifier;
use termoxide::font_style::FontStyle;
use termoxide::modifier::{font_to_modifier, modifier_bits};

#[test]
fn normal_style_has_no_modifier() {
    assert_eq!(font_to_modifier(FontStyle::normal()), Modifier::empty());
    assert_eq!(modifier_bits(FontStyle::normal()), 0);
}

#[test]
fn each_flag_has_its_modifier() {
    assert_eq!(font_to_modifier(FontStyle::bold()), Modifier::BOLD);
    assert_eq!(font_to_modifier(FontStyle::italic()), Modifier::ITALIC);
    assert_eq!(font_to_modifier(FontStyle::underline()), Modifier::UNDERLINED);
    assert_eq!(font_to_modifier(FontStyle::strikethrough()), Modifier::CROSSED_OUT);
    assert_eq!(font_to_modifier(FontStyle::dim()), Modifier::DIM);
}

#[test]
fn blink_has_no_modifier() {
    assert_eq!(font_to_modifier(FontStyle::blink()), Modifier::empty());
    assert_eq!(
        font_to_modifier(FontStyle::blink().with(FontStyle::bold())),
        Modifier::BOLD
    );
}

#[test]
fn flags_combine() {
    let style = FontStyle::bold().with(FontStyle::italic()).with(FontStyle::dim());
    assert_eq!(font_to_modifier(style), Modifier::BOLD | Modifier::ITALIC | Modifier::DIM);
    assert_eq!(modifier_bits(style), 0b0000_0111);
    assert_eq!(modifier_bits(FontStyle(0xff)), 0b0001_0000_1111);
}
