//! The set of active text-rendering attributes, kept as a fixed-width bitset.
//!
//! Each attribute kind owns one bit of a `u32` mask; the kinds and their bit
//! positions form a single coupled table, shared by the set operations and by
//! the iteration order. The mask is the sole source of truth for membership;
//! the iteration cursor is transient per-iteration state. Iteration yields
//! the kinds whose bits are set, in ascending bit position.

use vstd::prelude::*;

verus! {

/// One text-rendering attribute kind.
#[derive(Clone, Copy, Debug, PartialEq, Eq, Structural)]
pub enum Attribute {
    Reset,
    Bold,
    Dim,
    Italic,
    Underlined,
    SlowBlink,
    RapidBlink,
    Reverse,
    Hidden,
    CrossedOut,
}

/// The bit position a kind owns in the mask; positions start at 1 and go up
/// in the kinds' declaration order, so ascending bit position is declaration
/// order.
pub open spec fn attr_bit(a: Attribute) -> u32 {
    match a {
        Attribute::Reset => 1,
        Attribute::Bold => 2,
        Attribute::Dim => 3,
        Attribute::Italic => 4,
        Attribute::Underlined => 5,
        Attribute::SlowBlink => 6,
        Attribute::RapidBlink => 7,
        Attribute::Reverse => 8,
        Attribute::Hidden => 9,
        Attribute::CrossedOut => 10,
    }
}

/// The kind that owns bit position `b` (meaningful for positions 1 to 10).
pub open spec fn attr_of_bit(b: u32) -> Attribute {
    if b == 1 {
        Attribute::Reset
    } else if b == 2 {
        Attribute::Bold
    } else if b == 3 {
        Attribute::Dim
    } else if b == 4 {
        Attribute::Italic
    } else if b == 5 {
        Attribute::Underlined
    } else if b == 6 {
        Attribute::SlowBlink
    } else if b == 7 {
        Attribute::RapidBlink
    } else if b == 8 {
        Attribute::Reverse
    } else if b == 9 {
        Attribute::Hidden
    } else {
        Attribute::CrossedOut
    }
}

/// Whether bit position `b` is set in `x`.
pub open spec fn has_bit(x: u32, b: u32) -> bool {
    x & (1u32 << b) != 0
}

/// Every kind's bit position lies between 1 and 10.
proof fn lemma_attr_bit_range(a: Attribute)
    ensures
        1 <= attr_bit(a) <= 10,
{
}

/// The bit table round-trips: a kind is recovered from its bit position.
proof fn lemma_attr_of_bit_roundtrip(a: Attribute)
    ensures
        attr_of_bit(attr_bit(a)) == a,
{
}

impl Attribute {
    /// The single-bit mask this kind owns.
    pub fn bytes(self) -> (r: u32)
        ensures
            r == 1u32 << attr_bit(self),
    {
        match self {
            Attribute::Reset => 1u32 << 1u32,
            Attribute::Bold => 1u32 << 2u32,
            Attribute::Dim => 1u32 << 3u32,
            Attribute::Italic => 1u32 << 4u32,
            Attribute::Underlined => 1u32 << 5u32,
            Attribute::SlowBlink => 1u32 << 6u32,
            Attribute::RapidBlink => 1u32 << 7u32,
            Attribute::Reverse => 1u32 << 8u32,
            Attribute::Hidden => 1u32 << 9u32,
            Attribute::CrossedOut => 1u32 << 10u32,
        }
    }
}

proof fn bv_zero(j: u32)
    by (bit_vector)
    requires
        j < 32,
    ensures
        0u32 & (1u32 << j) == 0,
{
}

proof fn bv_or_single(x: u32, i: u32, j: u32)
    by (bit_vector)
    requires
        i < 32,
        j < 32,
    ensures
        ((x | (1u32 << i)) & (1u32 << j) != 0) == ((x & (1u32 << j) != 0) || i == j),
{
}

proof fn bv_clear_single(x: u32, i: u32, j: u32)
    by (bit_vector)
    requires
        i < 32,
        j < 32,
    ensures
        ((x & !(1u32 << i)) & (1u32 << j) != 0) == ((x & (1u32 << j) != 0) && i != j),
{
}

proof fn bv_flip_single(x: u32, i: u32, j: u32)
    by (bit_vector)
    requires
        i < 32,
        j < 32,
    ensures
        i == j ==> ((x ^ (1u32 << i)) & (1u32 << j) != 0) == !(x & (1u32 << j) != 0),
        i != j ==> ((x ^ (1u32 << i)) & (1u32 << j) != 0) == (x & (1u32 << j) != 0),
{
}

proof fn bv_combine_bits(x: u32, y: u32, j: u32)
    by (bit_vector)
    requires
        j < 32,
    ensures
        ((x | y) & (1u32 << j) != 0) == ((x & (1u32 << j) != 0) || (y & (1u32 << j) != 0)),
        ((x & y) & (1u32 << j) != 0) == ((x & (1u32 << j) != 0) && (y & (1u32 << j) != 0)),
        ((x ^ y) & (1u32 << j) != 0) == ((x & (1u32 << j) != 0) != (y & (1u32 << j) != 0)),
{
}

proof fn bv_single_single(i: u32, j: u32)
    by (bit_vector)
    requires
        i < 32,
        j < 32,
    ensures
        ((1u32 << i) & (1u32 << j) != 0) == (i == j),
{
}

proof fn bv_single_wf(i: u32)
    by (bit_vector)
    requires
        1 <= i <= 10,
    ensures
        (1u32 << i) & 0x7FEu32 == (1u32 << i),
{
}

proof fn bv_wf_single(x: u32, i: u32)
    by (bit_vector)
    requires
        x & 0x7FEu32 == x,
        1 <= i <= 10,
    ensures
        (x | (1u32 << i)) & 0x7FEu32 == (x | (1u32 << i)),
        (x & !(1u32 << i)) & 0x7FEu32 == (x & !(1u32 << i)),
        (x ^ (1u32 << i)) & 0x7FEu32 == (x ^ (1u32 << i)),
{
}

proof fn bv_wf_pair(x: u32, y: u32)
    by (bit_vector)
    requires
        x & 0x7FEu32 == x,
        y & 0x7FEu32 == y,
    ensures
        (x | y) & 0x7FEu32 == (x | y),
        (x & y) & 0x7FEu32 == (x & y),
        (x ^ y) & 0x7FEu32 == (x ^ y),
{
}

proof fn bv_xor_nonzero(x: u32, y: u32)
    by (bit_vector)
    requires
        x != y,
    ensures
        x ^ y != 0,
{
}

proof fn bv_nonzero(x: u32)
    by (bit_vector)
    requires
        x & 0x7FEu32 == x,
        x != 0,
    ensures
        (x & (1u32 << 1u32) != 0) || (x & (1u32 << 2u32) != 0) || (x & (1u32 << 3u32) != 0) || (x
            & (1u32 << 4u32) != 0) || (x & (1u32 << 5u32) != 0) || (x & (1u32 << 6u32) != 0) || (x
            & (1u32 << 7u32) != 0) || (x & (1u32 << 8u32) != 0) || (x & (1u32 << 9u32) != 0) || (x
            & (1u32 << 10u32) != 0),
{
}

/// A bitset over the attribute kinds, with an iteration cursor.
///
/// Equality compares membership only: the iteration cursor is transient
/// per-iteration state and does not affect equality or set algebra.
#[derive(Clone, Copy, Debug)]
pub struct Attributes {
    bytes: u32,
    idx: u32,
}

impl View for Attributes {
    type V = Set<Attribute>;

    /// The set of kinds whose bits are set in the mask.
    closed spec fn view(&self) -> Set<Attribute> {
        Set::new(|a: Attribute| has_bit(self.bytes, attr_bit(a)))
    }
}

/// Toggling one kind: removed when present, inserted when absent.
pub open spec fn toggled(s: Set<Attribute>, a: Attribute) -> Set<Attribute> {
    if s.contains(a) {
        s.remove(a)
    } else {
        s.insert(a)
    }
}

/// The set of kinds a sequence of kinds mentions, in any order and however
/// often.
pub open spec fn set_of_kinds(kinds: Seq<Attribute>) -> Set<Attribute> {
    Set::new(|a: Attribute| kinds.contains(a))
}

impl Attributes {
    /// Only attribute bits (positions 1 to 10) may be set in the mask.
    #[verifier::type_invariant]
    spec fn inv(self) -> bool {
        self.bytes & 0x7FEu32 == self.bytes
    }

    /// The bit position where the next iteration step begins.
    pub closed spec fn cursor(self) -> u32 {
        self.idx
    }

    /// The members the current iteration has not yielded yet: those whose
    /// bit position lies at or beyond the cursor.
    pub open spec fn remaining(self) -> Set<Attribute> {
        Set::new(|a: Attribute| self@.contains(a) && attr_bit(a) >= self.cursor())
    }

    /// Sets the attribute. If it is already set, this changes nothing.
    pub fn set(&mut self, attribute: Attribute)
        ensures
            final(self)@ == old(self)@.insert(attribute),
            final(self).cursor() == old(self).cursor(),
    {
        proof {
            use_type_invariant(&*self);
        }
        let ghost x: u32 = self.bytes;
        let ghost ib: u32 = attr_bit(attribute);
        let m = attribute.bytes();
        proof {
            lemma_attr_bit_range(attribute);
            bv_wf_single(x, ib);
        }
        self.bytes = self.bytes | m;
        proof {
            assert forall|b: Attribute| self@.contains(b) == old(self)@.insert(attribute).contains(
                b,
            ) by {
                lemma_attr_bit_range(b);
                bv_or_single(x, ib, attr_bit(b));
                if attr_bit(b) == ib {
                    lemma_attr_of_bit_roundtrip(b);
                    lemma_attr_of_bit_roundtrip(attribute);
                }
            }
            assert(self@ =~= old(self)@.insert(attribute));
        }
    }

    /// Unsets the attribute. If it is not set, this changes nothing.
    pub fn unset(&mut self, attribute: Attribute)
        ensures
            final(self)@ == old(self)@.remove(attribute),
            final(self).cursor() == old(self).cursor(),
    {
        proof {
            use_type_invariant(&*self);
        }
        let ghost x: u32 = self.bytes;
        let ghost ib: u32 = attr_bit(attribute);
        let m = attribute.bytes();
        proof {
            lemma_attr_bit_range(attribute);
            bv_wf_single(x, ib);
        }
        self.bytes = self.bytes & !m;
        proof {
            assert forall|b: Attribute| self@.contains(b) == old(self)@.remove(attribute).contains(
                b,
            ) by {
                lemma_attr_bit_range(b);
                bv_clear_single(x, ib, attr_bit(b));
                if attr_bit(b) == ib {
                    lemma_attr_of_bit_roundtrip(b);
                    lemma_attr_of_bit_roundtrip(attribute);
                }
            }
            assert(self@ =~= old(self)@.remove(attribute));
        }
    }

    /// Sets the attribute if it is unset, unsets it if it is set.
    pub fn toggle(&mut self, attribute: Attribute)
        ensures
            final(self)@ == toggled(old(self)@, attribute),
            final(self).cursor() == old(self).cursor(),
    {
        proof {
            use_type_invariant(&*self);
        }
        let ghost x: u32 = self.bytes;
        let ghost ib: u32 = attr_bit(attribute);
        let m = attribute.bytes();
        proof {
            lemma_attr_bit_range(attribute);
            bv_wf_single(x, ib);
        }
        self.bytes = self.bytes ^ m;
        proof {
            assert forall|b: Attribute| self@.contains(b) == toggled(
                old(self)@,
                attribute,
            ).contains(b) by {
                lemma_attr_bit_range(b);
                bv_flip_single(x, ib, attr_bit(b));
                if attr_bit(b) == ib {
                    lemma_attr_of_bit_roundtrip(b);
                    lemma_attr_of_bit_roundtrip(attribute);
                }
            }
            assert(self@ =~= toggled(old(self)@, attribute));
        }
    }

    /// Returns whether the attribute is set.
    pub fn has(self, attribute: Attribute) -> (r: bool)
        ensures
            r == self@.contains(attribute),
    {
        self.bytes & attribute.bytes() != 0
    }

    /// Sets all attributes of `attributes`. Removes none.
    pub fn extend(&mut self, attributes: Attributes)
        ensures
            final(self)@ == old(self)@.union(attributes@),
            final(self).cursor() == old(self).cursor(),
    {
        proof {
            use_type_invariant(&*self);
            use_type_invariant(&attributes);
        }
        let ghost x: u32 = self.bytes;
        proof {
            bv_wf_pair(x, attributes.bytes);
        }
        self.bytes = self.bytes | attributes.bytes;
        proof {
            assert forall|b: Attribute| self@.contains(b) == old(self)@.union(
                attributes@,
            ).contains(b) by {
                lemma_attr_bit_range(b);
                bv_combine_bits(x, attributes.bytes, attr_bit(b));
            }
            assert(self@ =~= old(self)@.union(attributes@));
        }
    }

    /// Returns whether no attribute is set.
    pub fn is_empty(self) -> (r: bool)
        ensures
            r == (self@ == Set::<Attribute>::empty()),
    {
        proof {
            use_type_invariant(&self);
            if self.bytes == 0 {
                assert forall|a: Attribute| !self@.contains(a) by {
                    lemma_attr_bit_range(a);
                    bv_zero(attr_bit(a));
                }
                assert(self@ =~= Set::<Attribute>::empty());
            } else {
                bv_nonzero(self.bytes);
                if self.bytes & (1u32 << 1u32) != 0 {
                    assert(self@.contains(Attribute::Reset));
                } else if self.bytes & (1u32 << 2u32) != 0 {
                    assert(self@.contains(Attribute::Bold));
                } else if self.bytes & (1u32 << 3u32) != 0 {
                    assert(self@.contains(Attribute::Dim));
                } else if self.bytes & (1u32 << 4u32) != 0 {
                    assert(self@.contains(Attribute::Italic));
                } else if self.bytes & (1u32 << 5u32) != 0 {
                    assert(self@.contains(Attribute::Underlined));
                } else if self.bytes & (1u32 << 6u32) != 0 {
                    assert(self@.contains(Attribute::SlowBlink));
                } else if self.bytes & (1u32 << 7u32) != 0 {
                    assert(self@.contains(Attribute::RapidBlink));
                } else if self.bytes & (1u32 << 8u32) != 0 {
                    assert(self@.contains(Attribute::Reverse));
                } else if self.bytes & (1u32 << 9u32) != 0 {
                    assert(self@.contains(Attribute::Hidden));
                } else {
                    assert(self@.contains(Attribute::CrossedOut));
                }
            }
        }
        self.bytes == 0
    }
    /// The set of attributes present in both `self` and `other`. The result
    /// starts a fresh iteration.
    pub fn intersection(self, other: Attributes) -> (r: Attributes)
        ensures
            forall|a: Attribute| #[trigger]
                r@.contains(a) == (self@.contains(a) && other@.contains(a)),
            r@ == self@.intersect(other@),
            r.remaining() == r@,
    {
        proof {
            use_type_invariant(&self);
            use_type_invariant(&other);
            bv_wf_pair(self.bytes, other.bytes);
        }
        let r = Attributes { bytes: self.bytes & other.bytes, idx: 0 };
        proof {
            assert forall|a: Attribute| r@.contains(a) == (self@.contains(a) && other@.contains(
                a,
            )) by {
                lemma_attr_bit_range(a);
                bv_combine_bits(self.bytes, other.bytes, attr_bit(a));
            }
            assert(r@ =~= self@.intersect(other@));
            assert(r.remaining() =~= r@);
        }
        r
    }

    /// The set of attributes present in `self`, in `other`, or in both. The
    /// result starts a fresh iteration.
    pub fn union(self, other: Attributes) -> (r: Attributes)
        ensures
            forall|a: Attribute| #[trigger]
                r@.contains(a) == (self@.contains(a) || other@.contains(a)),
            r@ == self@.union(other@),
            r.remaining() == r@,
    {
        proof {
            use_type_invariant(&self);
            use_type_invariant(&other);
            bv_wf_pair(self.bytes, other.bytes);
        }
        let r = Attributes { bytes: self.bytes | other.bytes, idx: 0 };
        proof {
            assert forall|a: Attribute| r@.contains(a) == (self@.contains(a) || other@.contains(
                a,
            )) by {
                lemma_attr_bit_range(a);
                bv_combine_bits(self.bytes, other.bytes, attr_bit(a));
            }
            assert(r@ =~= self@.union(other@));
            assert(r.remaining() =~= r@);
        }
        r
    }

    /// The set of attributes present in exactly one of `self` and `other`.
    /// The result starts a fresh iteration.
    pub fn symmetric_difference(self, other: Attributes) -> (r: Attributes)
        ensures
            forall|a: Attribute| #[trigger]
                r@.contains(a) == (self@.contains(a) != other@.contains(a)),
            r.remaining() == r@,
    {
        proof {
            use_type_invariant(&self);
            use_type_invariant(&other);
            bv_wf_pair(self.bytes, other.bytes);
        }
        let r = Attributes { bytes: self.bytes ^ other.bytes, idx: 0 };
        proof {
            assert forall|a: Attribute| r@.contains(a) == (self@.contains(a) != other@.contains(
                a,
            )) by {
                lemma_attr_bit_range(a);
                bv_combine_bits(self.bytes, other.bytes, attr_bit(a));
            }
            assert(r.remaining() =~= r@);
        }
        r
    }

    /// The set containing exactly the kinds the sequence mentions: the order
    /// does not matter and duplicates collapse. The result starts a fresh
    /// iteration.
    pub fn from_slice(kinds: &[Attribute]) -> (r: Attributes)
        ensures
            r@ == set_of_kinds(kinds@),
            r.remaining() == r@,
    {
        let mut r = Attributes::default();
        let n = kinds.len();
        let mut k: usize = 0;
        while k < n
            invariant
                k <= n,
                n == kinds@.len(),
                r@ == set_of_kinds(kinds@.take(k as int)),
                r.cursor() == 0,
            decreases n - k,
        {
            let ghost before: Seq<Attribute> = kinds@.take(k as int);
            let ghost after: Seq<Attribute> = kinds@.take(k + 1);
            r.set(kinds[k]);
            proof {
                assert forall|a: Attribute| r@.contains(a) == set_of_kinds(after).contains(a) by {
                    assert(after.contains(a) == (before.contains(a) || a == kinds@[k as int])) by {
                        if after.contains(a) {
                            let w = choose|w: int| 0 <= w < after.len() && after[w] == a;
                            if w < k {
                                assert(before[w] == a);
                            }
                        }
                        if before.contains(a) {
                            let w = choose|w: int| 0 <= w < before.len() && before[w] == a;
                            assert(after[w] == a);
                        }
                        if a == kinds@[k as int] {
                            assert(after[k as int] == a);
                        }
                    }
                }
                assert(r@ =~= set_of_kinds(after));
            }
            k = k + 1;
        }
        proof {
            assert(kinds@.take(n as int) =~= kinds@);
        }
        r
    }

    /// Yields the set member with the lowest bit position the current
    /// iteration has not yielded yet, or nothing once the iteration is
    /// exhausted. The membership itself never changes; an exhausted
    /// iteration stays exhausted.
    pub fn next(&mut self) -> (r: Option<Attribute>)
        ensures
            final(self)@ == old(self)@,
            match r {
                Option::Some(a) => old(self).remaining().contains(a) && (forall|b: Attribute|
                    old(self).remaining().contains(b) ==> attr_bit(a) <= attr_bit(b))
                    && final(self).remaining() == old(self).remaining().remove(a),
                Option::None => old(self).remaining() == Set::<Attribute>::empty()
                    && final(self).remaining() == Set::<Attribute>::empty(),
            },
    {
        proof {
            use_type_invariant(&*self);
        }
        let mut b: u32 = self.idx;
        while b <= 10
            invariant
                *self == *old(self),
                self.idx <= b,
                self.inv(),
                forall|a: Attribute| old(self).remaining().contains(a) ==> attr_bit(a) >= b,
            decreases 11 - b,
        {
            if self.bytes & (1u32 << b) != 0 {
                proof {
                    bv_bit_in_range(self.bytes, b);
                }
                let a = attr_from_bit(b);
                self.idx = b + 1;
                proof {
                    assert(old(self)@.contains(a));
                    assert forall|c: Attribute| self.remaining().contains(c)
                        == old(self).remaining().remove(a).contains(c) by {
                        lemma_attr_bit_range(c);
                        if old(self)@.contains(c) && attr_bit(c) == b {
                            lemma_attr_of_bit_roundtrip(c);
                        }
                    }
                    assert(self.remaining() =~= old(self).remaining().remove(a));
                }
                return Some(a);
            }
            b = b + 1;
        }
        self.idx = b;
        proof {
            assert forall|a: Attribute| !old(self).remaining().contains(a) by {
                lemma_attr_bit_range(a);
            }
            assert(old(self).remaining() =~= Set::<Attribute>::empty());
            assert forall|a: Attribute| !self.remaining().contains(a) by {
                lemma_attr_bit_range(a);
            }
            assert(self.remaining() =~= Set::<Attribute>::empty());
        }
        None
    }
}

/// A kind that reports a set bit (at positions 1 to 10) names an attribute.
proof fn bv_bit_in_range(x: u32, b: u32)
    by (bit_vector)
    requires
        x & 0x7FEu32 == x,
        b <= 10,
        x & (1u32 << b) != 0,
    ensures
        1 <= b,
{
}

/// The executable side of the bit table: the kind that owns position `b`.
fn attr_from_bit(b: u32) -> (a: Attribute)
    requires
        1 <= b <= 10,
    ensures
        a == attr_of_bit(b),
        attr_bit(a) == b,
{
    if b == 1 {
        Attribute::Reset
    } else if b == 2 {
        Attribute::Bold
    } else if b == 3 {
        Attribute::Dim
    } else if b == 4 {
        Attribute::Italic
    } else if b == 5 {
        Attribute::Underlined
    } else if b == 6 {
        Attribute::SlowBlink
    } else if b == 7 {
        Attribute::RapidBlink
    } else if b == 8 {
        Attribute::Reverse
    } else if b == 9 {
        Attribute::Hidden
    } else {
        Attribute::CrossedOut
    }
}

impl Default for Attributes {
    /// The empty set, with a fresh iteration.
    fn default() -> (r: Attributes)
        ensures
            r@ == Set::<Attribute>::empty(),
            r.remaining() == r@,
            r.cursor() == 0,
    {
        proof {
            assert(0u32 & 0x7FEu32 == 0u32) by (bit_vector);
        }
        let r = Attributes { bytes: 0, idx: 0 };
        proof {
            assert forall|a: Attribute| !r@.contains(a) by {
                lemma_attr_bit_range(a);
                bv_zero(attr_bit(a));
            }
            assert(r@ =~= Set::<Attribute>::empty());
            assert(r.remaining() =~= r@);
        }
        r
    }
}

impl PartialEq for Attributes {
    /// Membership equality: two sets are equal when their masks agree; the
    /// iteration cursor is ignored.
    fn eq(&self, other: &Attributes) -> (r: bool) {
        proof {
            use_type_invariant(self);
            use_type_invariant(other);
        }
        let r = self.bytes == other.bytes;
        proof {
            if self.bytes == other.bytes {
                assert(self@ =~= other@);
            } else {
                let x = self.bytes;
                let y = other.bytes;
                bv_xor_nonzero(x, y);
                bv_wf_pair(x, y);
                let d = x ^ y;
                bv_nonzero(d);
                if d & (1u32 << 1u32) != 0 {
                    bv_combine_bits(x, y, 1);
                    assert(self@.contains(Attribute::Reset) != other@.contains(Attribute::Reset));
                } else if d & (1u32 << 2u32) != 0 {
                    bv_combine_bits(x, y, 2);
                    assert(self@.contains(Attribute::Bold) != other@.contains(Attribute::Bold));
                } else if d & (1u32 << 3u32) != 0 {
                    bv_combine_bits(x, y, 3);
                    assert(self@.contains(Attribute::Dim) != other@.contains(Attribute::Dim));
                } else if d & (1u32 << 4u32) != 0 {
                    bv_combine_bits(x, y, 4);
                    assert(self@.contains(Attribute::Italic) != other@.contains(Attribute::Italic));
                } else if d & (1u32 << 5u32) != 0 {
                    bv_combine_bits(x, y, 5);
                    assert(self@.contains(Attribute::Underlined) != other@.contains(
                        Attribute::Underlined,
                    ));
                } else if d & (1u32 << 6u32) != 0 {
                    bv_combine_bits(x, y, 6);
                    assert(self@.contains(Attribute::SlowBlink) != other@.contains(
                        Attribute::SlowBlink,
                    ));
                } else if d & (1u32 << 7u32) != 0 {
                    bv_combine_bits(x, y, 7);
                    assert(self@.contains(Attribute::RapidBlink) != other@.contains(
                        Attribute::RapidBlink,
                    ));
                } else if d & (1u32 << 8u32) != 0 {
                    bv_combine_bits(x, y, 8);
                    assert(self@.contains(Attribute::Reverse) != other@.contains(
                        Attribute::Reverse,
                    ));
                } else if d & (1u32 << 9u32) != 0 {
                    bv_combine_bits(x, y, 9);
                    assert(self@.contains(Attribute::Hidden) != other@.contains(Attribute::Hidden));
                } else {
                    bv_combine_bits(x, y, 10);
                    assert(self@.contains(Attribute::CrossedOut) != other@.contains(
                        Attribute::CrossedOut,
                    ));
                }
                assert(self@ != other@);
            }
        }
        r
    }
}

impl vstd::std_specs::cmp::PartialEqSpecImpl for Attributes {
    open spec fn obeys_eq_spec() -> bool {
        true
    }

    open spec fn eq_spec(&self, other: &Attributes) -> bool {
        self@ == other@
    }
}

impl From<Attribute> for Attributes {
    /// The singleton set holding one kind, with a fresh iteration.
    fn from(attribute: Attribute) -> (r: Attributes) {
        proof {
            lemma_attr_bit_range(attribute);
            bv_single_wf(attr_bit(attribute));
        }
        Attributes { bytes: attribute.bytes(), idx: 0 }
    }
}

impl vstd::std_specs::convert::FromSpecImpl<Attribute> for Attributes {
    open spec fn obeys_from_spec() -> bool {
        true
    }

    closed spec fn from_spec(attribute: Attribute) -> Attributes {
        Attributes { bytes: 1u32 << attr_bit(attribute), idx: 0 }
    }
}

/// Converting one kind gives the singleton set of that kind, with a fresh
/// iteration.
pub proof fn lemma_from_attribute(attribute: Attribute)
    ensures
        (<Attributes as vstd::std_specs::convert::FromSpec<Attribute>>::from_spec(attribute))@
            == Set::<Attribute>::empty().insert(attribute),
        (<Attributes as vstd::std_specs::convert::FromSpec<Attribute>>::from_spec(
            attribute,
        )).remaining() == (<Attributes as vstd::std_specs::convert::FromSpec<Attribute>>::from_spec(
            attribute,
        ))@,
{
    let s = <Attributes as vstd::std_specs::convert::FromSpec<Attribute>>::from_spec(attribute);
    assert forall|b: Attribute| s@.contains(b) == Set::<Attribute>::empty().insert(
        attribute,
    ).contains(b) by {
        lemma_attr_bit_range(attribute);
        lemma_attr_bit_range(b);
        bv_single_single(attr_bit(attribute), attr_bit(b));
        if attr_bit(b) == attr_bit(attribute) {
            lemma_attr_of_bit_roundtrip(b);
            lemma_attr_of_bit_roundtrip(attribute);
        }
    }
    assert(s@ =~= Set::<Attribute>::empty().insert(attribute));
    assert(s.remaining() =~= s@);
}

/// Setting a kind makes membership hold; unsetting it right after setting
/// it makes membership fail; toggling the same kind twice restores the
/// original set.
pub proof fn lemma_set_unset_toggle(s: Set<Attribute>, a: Attribute)
    ensures
        s.insert(a).contains(a),
        !s.insert(a).remove(a).contains(a),
        toggled(toggled(s, a), a) == s,
{
    if s.contains(a) {
        assert(s.remove(a).insert(a) =~= s);
    } else {
        assert(s.insert(a).remove(a) =~= s);
    }
}

/// Two sequences that mention the same kinds convert to the same set:
/// the order of a sequence and its duplicates do not matter.
pub proof fn lemma_kinds_order_and_duplicates_irrelevant(s: Seq<Attribute>, t: Seq<Attribute>)
    requires
        forall|a: Attribute| s.contains(a) <==> t.contains(a),
    ensures
        set_of_kinds(s) == set_of_kinds(t),
{
    assert(set_of_kinds(s) =~= set_of_kinds(t));
}

} // verus!
