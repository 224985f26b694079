use termoxide::font_style::FontStyle;

#[test]
fn named_styles_have_one_bit_each() {
    assert_eq!(FontStyle::bold(), FontStyle(0b0000_0001));
    assert_eq!(FontStyle::italic(), FontStyle(0b0000_0010));
    assert_eq!(FontStyle::underline(), FontStyle(0b0000_0100));
    assert_eq!(FontStyle::blink(), FontStyle(0b0000_1000));
    assert_eq!(FontStyle::strikethrough(), FontStyle(0b0001_0000));
    assert_eq!(FontStyle::dim(), FontStyle(0b0010_0000));
    assert_eq!(FontStyle::normal(), FontStyle(0));
}

#[test]
fn with_adds_the_flags() {
    let s = FontStyle::bold().with(FontStyle::italic());
    assert_eq!(s, FontStyle(0b11));
    assert!(s.has(FontStyle::bold()));
    assert!(s.has(FontStyle::italic()));
    assert!(!s.has(FontStyle::dim()));
}

#[test]
fn without_removes_the_flags() {
    let s = FontStyle(0b0011_0111).without(FontStyle(0b0001_0010));
    assert_eq!(s, FontStyle(0b0010_0101));
    assert!(!s.has_any(FontStyle(0b0001_0010)));
    assert_eq!(FontStyle::bold().without(FontStyle::italic()), FontStyle::bold());
}

#[test]
fn has_needs_every_flag() {
    let s = FontStyle(0b0000_0101);
    assert!(s.has(FontStyle(0b0000_0101)));
    assert!(s.has(FontStyle(0b0000_0001)));
    assert!(!s.has(FontStyle(0b0000_0111)));
    assert!(s.has(FontStyle::normal()));
}

#[test]
fn has_any_needs_one_flag() {
    let s = FontStyle(0b0000_0101);
    assert!(s.has_any(FontStyle(0b0000_0111)));
    assert!(!s.has_any(FontStyle(0b0000_0010)));
    assert!(!s.has_any(FontStyle::normal()));
    assert!(!FontStyle::normal().has_any(FontStyle(0xff)));
}

#[test]
fn is_normal_only_without_flags() {
    assert!(FontStyle::normal().is_normal());
    assert!(FontStyle::default().is_normal());
    assert!(!FontStyle::dim().is_normal());
    assert!(FontStyle::dim().without(FontStyle::dim()).is_normal());
}

#[test]
fn operators_match_the_methods() {
    let a = FontStyle(0b1010_0110);
    let b = FontStyle(0b0011_0011);
    assert_eq!(a | b, a.with(b));
    assert_eq!(a & b, FontStyle(0b0010_0010));
    let mut c = a;
    c |= b;
    assert_eq!(c, FontStyle(0b1011_0111));
}

#[test]
fn with_is_commutative_associative_and_idempotent() {
    let a = FontStyle(0b0100_1001);
    let b = FontStyle(0b0000_0110);
    let c = FontStyle(0b1000_0011);
    assert_eq!(a.with(b), b.with(a));
    assert_eq!(a.with(b).with(c), a.with(b.with(c)));
    assert_eq!(a.with(a), a);
    assert_eq!(a.with(FontStyle::normal()), a);
}

#[test]
fn removing_and_adding_back() {
    let a = FontStyle(0b0110_1001);
    let b = FontStyle(0b0000_1111);
    assert_eq!(a.without(b).with(b), a.with(b));
    assert_eq!(a.with(b).without(b), a.without(b));
    assert!(a.with(b).has(a) && a.with(b).has(b));
}

#[test]
fn has_orders_styles() {
    let a = FontStyle(0b0000_0111);
    let b = FontStyle(0b0000_0011);
    let c = FontStyle(0b0000_0001);
    assert!(a.has(a));
    assert!(a.has(b) && b.has(c) && a.has(c));
    assert!(a.has(b) && !b.has(a));
    assert!(a.has(b) == (a.with(b) == a));
    assert!(!b.has(a) && b.with(a) != b);
}

#[test]
fn has_any_is_symmetric_and_follows_has() {
    let a = FontStyle(0b0001_1000);
    let b = FontStyle(0b0000_1100);
    assert_eq!(a.has_any(b), b.has_any(a));
    assert!(a.has(FontStyle::blink()) && a.has_any(FontStyle::blink()));
}
