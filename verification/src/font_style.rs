//! Font styles as a set of attribute flags packed in one byte.
use vstd::prelude::*;

verus! {

/// A set of font attributes (bold, italic, ...), one bit per attribute.
///
/// Its model is the set of bit positions (below 8) that are set.
#[derive(Debug, Clone, Copy, PartialEq, Eq, Structural, Hash)]
pub struct FontStyle(pub u8);

/// Whether bit `i` of `bits` is set.
pub open spec fn bit_set(bits: u8, i: nat) -> bool {
    i < 8 && (bits >> (i as u8)) & 1u8 == 1u8
}

/// The set of bit positions set in `bits`.
pub open spec fn bit_positions(bits: u8) -> Set<nat> {
    Set::new(|i: nat| bit_set(bits, i))
}

impl View for FontStyle {
    type V = Set<nat>;

    open spec fn view(&self) -> Set<nat> {
        bit_positions(self.0)
    }
}

// Bit-level facts, one bit position at a time.

proof fn lemma_or_bit(a: u8, b: u8, i: u8)
    requires
        i < 8,
    ensures
        ((a | b) >> i) & 1u8 == 1u8 <==> ((a >> i) & 1u8 == 1u8 || (b >> i) & 1u8 == 1u8),
{
    assert(((a | b) >> i) & 1u8 == 1u8 <==> ((a >> i) & 1u8 == 1u8 || (b >> i) & 1u8 == 1u8))
        by (bit_vector)
        requires
            i < 8,
    ;
}

proof fn lemma_and_bit(a: u8, b: u8, i: u8)
    requires
        i < 8,
    ensures
        ((a & b) >> i) & 1u8 == 1u8 <==> ((a >> i) & 1u8 == 1u8 && (b >> i) & 1u8 == 1u8),
{
    assert(((a & b) >> i) & 1u8 == 1u8 <==> ((a >> i) & 1u8 == 1u8 && (b >> i) & 1u8 == 1u8))
        by (bit_vector)
        requires
            i < 8,
    ;
}

proof fn lemma_and_not_bit(a: u8, b: u8, i: u8)
    requires
        i < 8,
    ensures
        ((a & !b) >> i) & 1u8 == 1u8 <==> ((a >> i) & 1u8 == 1u8 && (b >> i) & 1u8 != 1u8),
{
    assert(((a & !b) >> i) & 1u8 == 1u8 <==> ((a >> i) & 1u8 == 1u8 && (b >> i) & 1u8 != 1u8))
        by (bit_vector)
        requires
            i < 8,
    ;
}

/// Two bytes with the same bits set are equal.
proof fn lemma_bits_extensional(a: u8, b: u8)
    requires
        forall|i: nat| i < 8 ==> bit_set(a, i) == bit_set(b, i),
    ensures
        a == b,
{
    assert(bit_set(a, 0) == bit_set(b, 0));
    assert(bit_set(a, 1) == bit_set(b, 1));
    assert(bit_set(a, 2) == bit_set(b, 2));
    assert(bit_set(a, 3) == bit_set(b, 3));
    assert(bit_set(a, 4) == bit_set(b, 4));
    assert(bit_set(a, 5) == bit_set(b, 5));
    assert(bit_set(a, 6) == bit_set(b, 6));
    assert(bit_set(a, 7) == bit_set(b, 7));
    assert(a == b) by (bit_vector)
        requires
            ((a >> 0u8) & 1u8 == 1u8) == ((b >> 0u8) & 1u8 == 1u8),
            ((a >> 1u8) & 1u8 == 1u8) == ((b >> 1u8) & 1u8 == 1u8),
            ((a >> 2u8) & 1u8 == 1u8) == ((b >> 2u8) & 1u8 == 1u8),
            ((a >> 3u8) & 1u8 == 1u8) == ((b >> 3u8) & 1u8 == 1u8),
            ((a >> 4u8) & 1u8 == 1u8) == ((b >> 4u8) & 1u8 == 1u8),
            ((a >> 5u8) & 1u8 == 1u8) == ((b >> 5u8) & 1u8 == 1u8),
            ((a >> 6u8) & 1u8 == 1u8) == ((b >> 6u8) & 1u8 == 1u8),
            ((a >> 7u8) & 1u8 == 1u8) == ((b >> 7u8) & 1u8 == 1u8),
    ;
}

/// The set of bits of `a | b` is the union of their sets.
proof fn lemma_or_positions(a: u8, b: u8)
    ensures
        bit_positions(a | b) == bit_positions(a).union(bit_positions(b)),
{
    assert forall|i: nat| bit_set(a | b, i) <==> bit_set(a, i) || bit_set(b, i) by {
        if i < 8 {
            lemma_or_bit(a, b, i as u8);
        }
    }
    assert(bit_positions(a | b) =~= bit_positions(a).union(bit_positions(b)));
}

/// The set of bits of `a & b` is the intersection of their sets.
proof fn lemma_and_positions(a: u8, b: u8)
    ensures
        bit_positions(a & b) == bit_positions(a).intersect(bit_positions(b)),
{
    assert forall|i: nat| bit_set(a & b, i) <==> bit_set(a, i) && bit_set(b, i) by {
        if i < 8 {
            lemma_and_bit(a, b, i as u8);
        }
    }
    assert(bit_positions(a & b) =~= bit_positions(a).intersect(bit_positions(b)));
}

/// The set of bits of `a & !b` is the difference of their sets.
proof fn lemma_and_not_positions(a: u8, b: u8)
    ensures
        bit_positions(a & !b) == bit_positions(a).difference(bit_positions(b)),
{
    assert forall|i: nat| bit_set(a & !b, i) <==> bit_set(a, i) && !bit_set(b, i) by {
        if i < 8 {
            lemma_and_not_bit(a, b, i as u8);
        }
    }
    assert(bit_positions(a & !b) =~= bit_positions(a).difference(bit_positions(b)));
}

/// A byte is determined by its set of bits.
proof fn lemma_positions_injective(a: u8, b: u8)
    requires
        bit_positions(a) == bit_positions(b),
    ensures
        a == b,
{
    assert forall|i: nat| i < 8 implies bit_set(a, i) == bit_set(b, i) by {
        assert(bit_positions(a).contains(i) == bit_set(a, i));
        assert(bit_positions(b).contains(i) == bit_set(b, i));
    }
    lemma_bits_extensional(a, b);
}

/// A byte is zero exactly when no bit is set.
proof fn lemma_zero_positions(a: u8)
    ensures
        (a == 0) <==> bit_positions(a) == Set::<nat>::empty(),
{
    if a == 0 {
        assert forall|i: nat| !bit_set(a, i) by {
            if i < 8 {
                let k = i as u8;
                assert((0u8 >> k) & 1u8 != 1u8) by (bit_vector);
            }
        }
        assert(bit_positions(a) =~= Set::<nat>::empty());
    } else {
        if bit_positions(a) == Set::<nat>::empty() {
            assert(bit_positions(0u8) =~= Set::<nat>::empty()) by {
                assert forall|i: nat| !bit_set(0u8, i) by {
                    if i < 8 {
                        let k = i as u8;
                        assert((0u8 >> k) & 1u8 != 1u8) by (bit_vector);
                    }
                }
            }
            lemma_positions_injective(a, 0u8);
        }
    }
}

/// The only bit of `1 << k`, for `k` below 8, is bit `k`.
proof fn lemma_single_bit(v: u8, k: u8)
    requires
        k < 8,
        v == 1u8 << k,
    ensures
        bit_positions(v) == set![k as nat],
{
    assert forall|i: nat| bit_set(v, i) <==> i == k as nat by {
        if i < 8 {
            let j = i as u8;
            assert(((v >> j) & 1u8 == 1u8) <==> j == k) by (bit_vector)
                requires
                    j < 8,
                    k < 8,
                    v == 1u8 << k,
            ;
        }
    }
    assert(bit_positions(v) =~= set![k as nat]);
}

impl FontStyle {
    /// Blinking text.
    pub fn blink() -> (r: Self)
        ensures
            r == FontStyle(8u8),
            r@ == set![3nat],
    {
        proof {
            assert(8u8 == 1u8 << 3u8) by (bit_vector);
            lemma_single_bit(8u8, 3u8);
        }
        Self(8)
    }

    /// Bold text.
    pub fn bold() -> (r: Self)
        ensures
            r == FontStyle(1u8),
            r@ == set![0nat],
    {
        proof {
            assert(1u8 == 1u8 << 0u8) by (bit_vector);
            lemma_single_bit(1u8, 0u8);
        }
        Self(1)
    }

    /// Dimmed text.
    pub fn dim() -> (r: Self)
        ensures
            r == FontStyle(32u8),
            r@ == set![5nat],
    {
        proof {
            assert(32u8 == 1u8 << 5u8) by (bit_vector);
            lemma_single_bit(32u8, 5u8);
        }
        Self(32)
    }

    /// Italic text.
    pub fn italic() -> (r: Self)
        ensures
            r == FontStyle(2u8),
            r@ == set![1nat],
    {
        proof {
            assert(2u8 == 1u8 << 1u8) by (bit_vector);
            lemma_single_bit(2u8, 1u8);
        }
        Self(2)
    }

    /// Struck-through text.
    pub fn strikethrough() -> (r: Self)
        ensures
            r == FontStyle(16u8),
            r@ == set![4nat],
    {
        proof {
            assert(16u8 == 1u8 << 4u8) by (bit_vector);
            lemma_single_bit(16u8, 4u8);
        }
        Self(16)
    }

    /// Underlined text.
    pub fn underline() -> (r: Self)
        ensures
            r == FontStyle(4u8),
            r@ == set![2nat],
    {
        proof {
            assert(4u8 == 1u8 << 2u8) by (bit_vector);
            lemma_single_bit(4u8, 2u8);
        }
        Self(4)
    }

    /// No attribute at all.
    pub fn normal() -> (r: Self)
        ensures
            r == FontStyle(0u8),
            r@ == Set::<nat>::empty(),
    {
        proof {
            lemma_zero_positions(0u8);
        }
        Self(0)
    }

    /// The style with the flags of both.
    pub open spec fn spec_with(self, other: Self) -> Self {
        FontStyle(self.0 | other.0)
    }

    /// The style with the flags of `self` that `other` does not hold.
    pub open spec fn spec_without(self, other: Self) -> Self {
        FontStyle(self.0 & !other.0)
    }

    /// Whether every flag of `other` is in `self`.
    pub open spec fn spec_has(self, other: Self) -> bool {
        self.0 & other.0 == other.0
    }

    /// Whether some flag of `other` is in `self`.
    pub open spec fn spec_has_any(self, other: Self) -> bool {
        self.0 & other.0 != 0
    }

    /// Whether no flag is set.
    pub open spec fn spec_is_normal(self) -> bool {
        self.0 == 0
    }

    /// Adds the flags of `other`.
    #[verifier::when_used_as_spec(spec_with)]
    pub fn with(self, other: Self) -> (r: Self)
        ensures
            r == self.spec_with(other),
            r@ == self@.union(other@),
    {
        proof {
            lemma_or_positions(self.0, other.0);
        }
        Self(self.0 | other.0)
    }

    /// Removes the flags of `other`.
    #[verifier::when_used_as_spec(spec_without)]
    pub fn without(self, other: Self) -> (r: Self)
        ensures
            r == self.spec_without(other),
            r@ == self@.difference(other@),
    {
        proof {
            lemma_and_not_positions(self.0, other.0);
        }
        Self(self.0 & !other.0)
    }

    /// Whether every flag of `other` is set in `self`.
    #[verifier::when_used_as_spec(spec_has)]
    pub fn has(self, other: Self) -> (r: bool)
        ensures
            r == self.spec_has(other),
            r == other@.subset_of(self@),
    {
        proof {
            lemma_and_positions(self.0, other.0);
            if other@.subset_of(self@) {
                assert(bit_positions(self.0 & other.0) =~= bit_positions(other.0));
                lemma_positions_injective(self.0 & other.0, other.0);
            }
        }
        self.0 & other.0 == other.0
    }

    /// Whether at least one flag of `other` is set in `self`.
    #[verifier::when_used_as_spec(spec_has_any)]
    pub fn has_any(self, other: Self) -> (r: bool)
        ensures
            r == self.spec_has_any(other),
            r == !self@.disjoint(other@),
    {
        proof {
            lemma_and_positions(self.0, other.0);
            lemma_zero_positions(self.0 & other.0);
            if self@.disjoint(other@) {
                assert(bit_positions(self.0 & other.0) =~= Set::<nat>::empty());
            } else {
                let i = choose|i: nat| self@.contains(i) && other@.contains(i);
                assert(bit_positions(self.0 & other.0).contains(i));
            }
        }
        self.0 & other.0 != 0
    }

    /// Whether no flag is set.
    #[verifier::when_used_as_spec(spec_is_normal)]
    pub fn is_normal(self) -> (r: bool)
        ensures
            r == self.spec_is_normal(),
            r == (self@ == Set::<nat>::empty()),
    {
        proof {
            lemma_zero_positions(self.0);
        }
        self.0 == 0
    }
}

/// The default style is the normal style.
impl Default for FontStyle {
    fn default() -> (r: Self)
        ensures
            r == FontStyle(0u8),
    {
        FontStyle(0)
    }
}

/// `a | b` is `a.with(b)`.
impl core::ops::BitOr for FontStyle {
    type Output = Self;

    fn bitor(self, rhs: Self) -> (r: Self)
        ensures
            r == self.spec_with(rhs),
    {
        self.with(rhs)
    }
}

impl vstd::std_specs::ops::BitOrSpecImpl for FontStyle {
    open spec fn obeys_bitor_spec() -> bool {
        true
    }

    open spec fn bitor_req(self, rhs: Self) -> bool {
        true
    }

    open spec fn bitor_spec(self, rhs: Self) -> Self {
        self.spec_with(rhs)
    }
}

/// `a & b` keeps the flags that both hold.
impl core::ops::BitAnd for FontStyle {
    type Output = Self;

    fn bitand(self, rhs: Self) -> (r: Self)
        ensures
            r == FontStyle(self.0 & rhs.0),
            r@ == self@.intersect(rhs@),
    {
        proof {
            lemma_and_positions(self.0, rhs.0);
        }
        Self(self.0 & rhs.0)
    }
}

impl vstd::std_specs::ops::BitAndSpecImpl for FontStyle {
    open spec fn obeys_bitand_spec() -> bool {
        true
    }

    open spec fn bitand_req(self, rhs: Self) -> bool {
        true
    }

    open spec fn bitand_spec(self, rhs: Self) -> Self {
        FontStyle(self.0 & rhs.0)
    }
}

/// `a |= b` adds the flags of `b` to `a`.
impl core::ops::BitOrAssign for FontStyle {
    fn bitor_assign(&mut self, rhs: Self)
        ensures
            *final(self) == old(self).spec_with(rhs),
    {
        self.0 = self.0 | rhs.0;
    }
}

/// Two styles with the same flags are the same style.
pub proof fn lemma_view_determines_style(a: FontStyle, b: FontStyle)
    requires
        a@ == b@,
    ensures
        a == b,
{
    lemma_positions_injective(a.0, b.0);
}

/// Every flag of a style is one of the eight bit positions.
pub proof fn lemma_flags_below_eight(a: FontStyle, i: nat)
    requires
        a@.contains(i),
    ensures
        i < 8,
{
}

/// Adding flags does not depend on the order of the operands.
pub proof fn lemma_with_commutes(a: FontStyle, b: FontStyle)
    ensures
        a.spec_with(b) == b.spec_with(a),
{
    lemma_or_positions(a.0, b.0);
    lemma_or_positions(b.0, a.0);
    assert(a.spec_with(b)@ =~= b.spec_with(a)@);
    lemma_view_determines_style(a.spec_with(b), b.spec_with(a));
}

/// Adding flags in two steps does not depend on the grouping.
pub proof fn lemma_with_associates(a: FontStyle, b: FontStyle, c: FontStyle)
    ensures
        a.spec_with(b).spec_with(c) == a.spec_with(b.spec_with(c)),
{
    lemma_or_positions(a.0, b.0);
    lemma_or_positions(b.0, c.0);
    lemma_or_positions(a.0 | b.0, c.0);
    lemma_or_positions(a.0, b.0 | c.0);
    assert(a.spec_with(b).spec_with(c)@ =~= a.spec_with(b.spec_with(c))@);
    lemma_view_determines_style(a.spec_with(b).spec_with(c), a.spec_with(b.spec_with(c)));
}

/// Adding a style to itself, or adding the normal style, changes nothing.
pub proof fn lemma_with_idempotent_and_normal_identity(a: FontStyle)
    ensures
        a.spec_with(a) == a,
        a.spec_with(FontStyle(0u8)) == a,
{
    lemma_or_positions(a.0, a.0);
    lemma_or_positions(a.0, 0u8);
    lemma_zero_positions(0u8);
    assert(a.spec_with(a)@ =~= a@);
    assert(a.spec_with(FontStyle(0u8))@ =~= a@);
    lemma_view_determines_style(a.spec_with(a), a);
    lemma_view_determines_style(a.spec_with(FontStyle(0u8)), a);
}

/// After adding `b` to `a`, the result has every flag of `a` and of `b`.
pub proof fn lemma_with_has_both(a: FontStyle, b: FontStyle)
    ensures
        a.spec_with(b).spec_has(a),
        a.spec_with(b).spec_has(b),
{
    lemma_or_positions(a.0, b.0);
    lemma_has_is_subset(a.spec_with(b), a);
    lemma_has_is_subset(a.spec_with(b), b);
}

/// After removing `b` from `a`, no flag of `b` is left.
pub proof fn lemma_without_has_none(a: FontStyle, b: FontStyle)
    ensures
        !a.spec_without(b).spec_has_any(b),
{
    lemma_and_not_positions(a.0, b.0);
    lemma_has_any_is_overlap(a.spec_without(b), b);
    assert(a.spec_without(b)@.disjoint(b@));
}

/// Removing flags and adding them back is adding them.
pub proof fn lemma_without_then_with(a: FontStyle, b: FontStyle)
    ensures
        a.spec_without(b).spec_with(b) == a.spec_with(b),
{
    lemma_and_not_positions(a.0, b.0);
    lemma_or_positions(a.0 & !b.0, b.0);
    lemma_or_positions(a.0, b.0);
    assert(a.spec_without(b).spec_with(b)@ =~= a.spec_with(b)@);
    lemma_view_determines_style(a.spec_without(b).spec_with(b), a.spec_with(b));
}

/// Adding flags and removing them again is removing them.
pub proof fn lemma_with_then_without(a: FontStyle, b: FontStyle)
    ensures
        a.spec_with(b).spec_without(b) == a.spec_without(b),
{
    lemma_or_positions(a.0, b.0);
    lemma_and_not_positions(a.0 | b.0, b.0);
    lemma_and_not_positions(a.0, b.0);
    assert(a.spec_with(b).spec_without(b)@ =~= a.spec_without(b)@);
    lemma_view_determines_style(a.spec_with(b).spec_without(b), a.spec_without(b));
}

/// `has` is flag inclusion.
pub proof fn lemma_has_is_subset(a: FontStyle, b: FontStyle)
    ensures
        a.spec_has(b) <==> b@.subset_of(a@),
{
    lemma_and_positions(a.0, b.0);
    if b@.subset_of(a@) {
        assert(bit_positions(a.0 & b.0) =~= bit_positions(b.0));
        lemma_positions_injective(a.0 & b.0, b.0);
    }
}

/// `has_any` is flag overlap.
pub proof fn lemma_has_any_is_overlap(a: FontStyle, b: FontStyle)
    ensures
        a.spec_has_any(b) <==> !a@.disjoint(b@),
{
    lemma_and_positions(a.0, b.0);
    lemma_zero_positions(a.0 & b.0);
    if a@.disjoint(b@) {
        assert(bit_positions(a.0 & b.0) =~= Set::<nat>::empty());
    } else {
        let i = choose|i: nat| a@.contains(i) && b@.contains(i);
        assert(bit_positions(a.0 & b.0).contains(i));
    }
}

/// `has` orders styles: it is reflexive, antisymmetric and transitive.
pub proof fn lemma_has_is_partial_order(a: FontStyle, b: FontStyle, c: FontStyle)
    ensures
        a.spec_has(a),
        a.spec_has(b) && b.spec_has(a) ==> a == b,
        a.spec_has(b) && b.spec_has(c) ==> a.spec_has(c),
{
    lemma_has_is_subset(a, a);
    lemma_has_is_subset(a, b);
    lemma_has_is_subset(b, a);
    lemma_has_is_subset(b, c);
    lemma_has_is_subset(a, c);
    if a.spec_has(b) && b.spec_has(a) {
        assert(a@ =~= b@);
        lemma_view_determines_style(a, b);
    }
}

/// A style has `b` exactly when adding `b` leaves it unchanged.
pub proof fn lemma_has_iff_with_unchanged(a: FontStyle, b: FontStyle)
    ensures
        a.spec_has(b) <==> a.spec_with(b) == a,
{
    lemma_has_is_subset(a, b);
    lemma_or_positions(a.0, b.0);
    if a.spec_has(b) {
        assert(a.spec_with(b)@ =~= a@);
        lemma_view_determines_style(a.spec_with(b), a);
    }
    if a.spec_with(b) == a {
        assert(b@.subset_of(a@));
    }
}

/// `has_any` does not depend on the order of the operands.
pub proof fn lemma_has_any_commutes(a: FontStyle, b: FontStyle)
    ensures
        a.spec_has_any(b) == b.spec_has_any(a),
{
    lemma_has_any_is_overlap(a, b);
    lemma_has_any_is_overlap(b, a);
}

/// Having every flag of a style that is not normal means having one of them.
pub proof fn lemma_has_implies_has_any(a: FontStyle, b: FontStyle)
    requires
        a.spec_has(b),
        !b.spec_is_normal(),
    ensures
        a.spec_has_any(b),
{
    lemma_has_is_subset(a, b);
    lemma_has_any_is_overlap(a, b);
    lemma_zero_positions(b.0);
    let i = choose|i: nat| b@.contains(i);
    assert(a@.contains(i));
}

/// Every style has the normal style's flags, and shares none with it;
/// the normal style is the only one with no flag.
pub proof fn lemma_normal_style(a: FontStyle)
    ensures
        a.spec_has(FontStyle(0u8)),
        !a.spec_has_any(FontStyle(0u8)),
        a.spec_is_normal() <==> a == FontStyle(0u8),
{
    lemma_zero_positions(0u8);
    lemma_has_is_subset(a, FontStyle(0u8));
    lemma_has_any_is_overlap(a, FontStyle(0u8));
    assert(a@.disjoint(FontStyle(0u8)@));
}

} // verus!
