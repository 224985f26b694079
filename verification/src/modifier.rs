//! From a font style to ratatui's text modifiers.
use crate::font_style::FontStyle;
use ratatui::style::Modifier;
use vstd::prelude::*;

verus! {

/// ratatui's set of text modifiers, carried as an opaque value.
#[verifier::external_type_specification]
#[verifier::external_body]
pub struct ExModifier(ratatui::style::Modifier);

/// The modifier that ratatui's `Modifier::from_bits_truncate` makes of `bits`.
pub uninterp spec fn modifier_of_bits(bits: u16) -> Modifier;

/// ratatui's `Modifier::BOLD`, `0b0000_0000_0001` in its source.
#[verifier::external_body]
fn bold_bit() -> (r: u16)
    ensures
        r == 0x001u16,
{
    Modifier::BOLD.bits()
}

/// ratatui's `Modifier::DIM`, `0b0000_0000_0010` in its source.
#[verifier::external_body]
fn dim_bit() -> (r: u16)
    ensures
        r == 0x002u16,
{
    Modifier::DIM.bits()
}

/// ratatui's `Modifier::ITALIC`, `0b0000_0000_0100` in its source.
#[verifier::external_body]
fn italic_bit() -> (r: u16)
    ensures
        r == 0x004u16,
{
    Modifier::ITALIC.bits()
}

/// ratatui's `Modifier::UNDERLINED`, `0b0000_0000_1000` in its source.
#[verifier::external_body]
fn underlined_bit() -> (r: u16)
    ensures
        r == 0x008u16,
{
    Modifier::UNDERLINED.bits()
}

/// ratatui's `Modifier::CROSSED_OUT`, `0b0001_0000_0000` in its source.
#[verifier::external_body]
fn crossed_out_bit() -> (r: u16)
    ensures
        r == 0x100u16,
{
    Modifier::CROSSED_OUT.bits()
}

/// ratatui's `Modifier::from_bits_truncate`: the modifier with the known flags among `bits`.
/// The contract only names the result; the flags it holds are not stated.
#[verifier::external_body]
fn modifier_from_bits(bits: u16) -> (r: Modifier)
    ensures
        r == modifier_of_bits(bits),
{
    Modifier::from_bits_truncate(bits)
}

/// The bits of ratatui's modifier flags that render the font style `f`:
/// bold, italic, underlined, crossed out and dim. Blinking has no counterpart.
pub open spec fn spec_modifier_bits(f: FontStyle) -> u16 {
    0u16 | (if f.spec_has(FontStyle(1u8)) {
        0x001u16
    } else {
        0u16
    }) | (if f.spec_has(FontStyle(2u8)) {
        0x004u16
    } else {
        0u16
    }) | (if f.spec_has(FontStyle(4u8)) {
        0x008u16
    } else {
        0u16
    }) | (if f.spec_has(FontStyle(16u8)) {
        0x100u16
    } else {
        0u16
    }) | (if f.spec_has(FontStyle(32u8)) {
        0x002u16
    } else {
        0u16
    })
}

/// The bits of ratatui's modifier flags that render the font style `f`.
pub fn modifier_bits(f: FontStyle) -> (r: u16)
    ensures
        r == spec_modifier_bits(f),
{
    let mut m: u16 = 0;
    let b = if f.has(FontStyle::bold()) {
        bold_bit()
    } else {
        0
    };
    m = m | b;
    let i = if f.has(FontStyle::italic()) {
        italic_bit()
    } else {
        0
    };
    m = m | i;
    let u = if f.has(FontStyle::underline()) {
        underlined_bit()
    } else {
        0
    };
    m = m | u;
    let s = if f.has(FontStyle::strikethrough()) {
        crossed_out_bit()
    } else {
        0
    };
    m = m | s;
    let d = if f.has(FontStyle::dim()) {
        dim_bit()
    } else {
        0
    };
    m = m | d;
    m
}

/// Each of the five font flags that have a counterpart turns on exactly its
/// own modifier flag, and no other modifier flag is ever set.
pub proof fn lemma_modifier_bits_follow_flags(f: FontStyle)
    ensures
        (spec_modifier_bits(f) & 0x001u16 != 0) == f.spec_has(FontStyle(1u8)),
        (spec_modifier_bits(f) & 0x004u16 != 0) == f.spec_has(FontStyle(2u8)),
        (spec_modifier_bits(f) & 0x008u16 != 0) == f.spec_has(FontStyle(4u8)),
        (spec_modifier_bits(f) & 0x100u16 != 0) == f.spec_has(FontStyle(16u8)),
        (spec_modifier_bits(f) & 0x002u16 != 0) == f.spec_has(FontStyle(32u8)),
        spec_modifier_bits(f) & !0x10fu16 == 0,
{
    let m = spec_modifier_bits(f);
    let bold = f.spec_has(FontStyle(1u8));
    let italic = f.spec_has(FontStyle(2u8));
    let underline = f.spec_has(FontStyle(4u8));
    let struck = f.spec_has(FontStyle(16u8));
    let dim = f.spec_has(FontStyle(32u8));
    assert({
        &&& (m & 0x001u16 != 0) == bold
        &&& (m & 0x004u16 != 0) == italic
        &&& (m & 0x008u16 != 0) == underline
        &&& (m & 0x100u16 != 0) == struck
        &&& (m & 0x002u16 != 0) == dim
        &&& m & !0x10fu16 == 0
    }) by (bit_vector)
        requires
            m == 0u16 | (if bold {
                0x001u16
            } else {
                0u16
            }) | (if italic {
                0x004u16
            } else {
                0u16
            }) | (if underline {
                0x008u16
            } else {
                0u16
            }) | (if struck {
                0x100u16
            } else {
                0u16
            }) | (if dim {
                0x002u16
            } else {
                0u16
            }),
    ;
}

/// Blinking is not rendered: adding it does not change the modifier.
pub proof fn lemma_blink_is_not_rendered(f: FontStyle)
    ensures
        spec_modifier_bits(f.spec_with(FontStyle(8u8))) == spec_modifier_bits(f),
{
    let a = f.0;
    assert({
        &&& ((a | 8u8) & 1u8 == 1u8) == (a & 1u8 == 1u8)
        &&& ((a | 8u8) & 2u8 == 2u8) == (a & 2u8 == 2u8)
        &&& ((a | 8u8) & 4u8 == 4u8) == (a & 4u8 == 4u8)
        &&& ((a | 8u8) & 16u8 == 16u8) == (a & 16u8 == 16u8)
        &&& ((a | 8u8) & 32u8 == 32u8) == (a & 32u8 == 32u8)
    }) by (bit_vector);
}

/// The ratatui modifier that renders the font style `f`.
pub fn font_to_modifier(f: FontStyle) -> (r: Modifier)
    ensures
        r == modifier_of_bits(spec_modifier_bits(f)),
{
    modifier_from_bits(modifier_bits(f))
}

} // verus!
