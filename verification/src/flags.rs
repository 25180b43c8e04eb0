//! Typed flag sets: bitsets over the flags byte of a frame header.

use core::marker::PhantomData;
use vstd::prelude::*;

verus! {

/// A named single-bit flag of one frame type.
pub trait Flag: Sized {
    /// The bit this flag occupies in the flags byte.
    spec fn bit_spec(self) -> u8;

    /// The union of the bits of every flag of this frame type.
    spec fn all_spec() -> u8;

    fn bit(self) -> (b: u8)
        ensures
            b == self.bit_spec(),
    ;

    fn all() -> (m: u8)
        ensures
            m == Self::all_spec(),
    ;

    /// Every flag is a single bit, and one of the known bits.
    proof fn lemma_bit_known(self)
        ensures
            is_single_bit(self.bit_spec()),
            self.bit_spec() != 0,
            self.bit_spec() & Self::all_spec() == self.bit_spec(),
    ;
}

/// Whether exactly one bit of `b` is set.
pub open spec fn is_single_bit(b: u8) -> bool {
    b == 0x01 || b == 0x02 || b == 0x04 || b == 0x08 || b == 0x10 || b == 0x20 || b == 0x40 || b
        == 0x80
}

/// Flags of a SETTINGS frame.
#[derive(Copy, Clone, Debug, PartialEq, Eq)]
pub enum SettingsFlags {
    Ack,
}

/// Flags of a HEADERS frame.
#[derive(Copy, Clone, Debug, PartialEq, Eq)]
pub enum HeadersFlags {
    Priority,
    Padded,
    EndHeaders,
    EndStream,
}

/// Flags of a DATA frame.
#[derive(Copy, Clone, Debug, PartialEq, Eq)]
pub enum DataFlags {
    Padded,
    EndStream,
}

impl Flag for SettingsFlags {
    open spec fn bit_spec(self) -> u8 {
        0x01
    }

    open spec fn all_spec() -> u8 {
        0x01
    }

    fn bit(self) -> (b: u8) {
        0x01
    }

    fn all() -> (m: u8) {
        0x01
    }

    proof fn lemma_bit_known(self) {
        assert(0x01u8 & 0x01u8 == 0x01u8) by (bit_vector);
    }
}

impl Flag for HeadersFlags {
    open spec fn bit_spec(self) -> u8 {
        match self {
            HeadersFlags::Priority => 0x20,
            HeadersFlags::Padded => 0x08,
            HeadersFlags::EndHeaders => 0x04,
            HeadersFlags::EndStream => 0x01,
        }
    }

    open spec fn all_spec() -> u8 {
        0x2D
    }

    fn bit(self) -> (b: u8) {
        match self {
            HeadersFlags::Priority => 0x20,
            HeadersFlags::Padded => 0x08,
            HeadersFlags::EndHeaders => 0x04,
            HeadersFlags::EndStream => 0x01,
        }
    }

    fn all() -> (m: u8) {
        0x2D
    }

    proof fn lemma_bit_known(self) {
        assert(0x20u8 & 0x2Du8 == 0x20u8) by (bit_vector);
        assert(0x08u8 & 0x2Du8 == 0x08u8) by (bit_vector);
        assert(0x04u8 & 0x2Du8 == 0x04u8) by (bit_vector);
        assert(0x01u8 & 0x2Du8 == 0x01u8) by (bit_vector);
    }
}

impl Flag for DataFlags {
    open spec fn bit_spec(self) -> u8 {
        match self {
            DataFlags::Padded => 0x08,
            DataFlags::EndStream => 0x01,
        }
    }

    open spec fn all_spec() -> u8 {
        0x09
    }

    fn bit(self) -> (b: u8) {
        match self {
            DataFlags::Padded => 0x08,
            DataFlags::EndStream => 0x01,
        }
    }

    fn all() -> (m: u8) {
        0x09
    }

    proof fn lemma_bit_known(self) {
        assert(0x08u8 & 0x09u8 == 0x08u8) by (bit_vector);
        assert(0x01u8 & 0x09u8 == 0x01u8) by (bit_vector);
    }
}

/// A set of flags of one frame type, held as the bits of one byte.
///
/// Only bits that name a flag of `F` are ever set: bits outside
/// `F::all_spec()` are dropped when a set is made from a raw byte.
#[derive(Debug, PartialEq, Eq)]
pub struct BitFlags<F: Flag> {
    pub(crate) bits: u8,
    pub(crate) kind: PhantomData<F>,
}

impl<F: Flag> Clone for BitFlags<F> {
    fn clone(&self) -> (s: Self)
        ensures
            s == *self,
    {
        proof {
            use_type_invariant(self);
        }
        BitFlags { bits: self.bits, kind: PhantomData }
    }
}

impl<F: Flag> Copy for BitFlags<F> {

}

impl<F: Flag> Default for BitFlags<F> {
    fn default() -> (s: Self)
        ensures
            s@ == 0,
            s.wf(),
    {
        Self::empty()
    }
}

impl<F: Flag> View for BitFlags<F> {
    type V = u8;

    open(crate) spec fn view(&self) -> u8 {
        self.bits
    }
}

impl<F: Flag> BitFlags<F> {
    /// The set holds known bits only.
    #[verifier::type_invariant]
    pub open(crate) spec fn wf(self) -> bool {
        self.bits & F::all_spec() == self.bits
    }

    /// The set named by the known bits of `raw`.
    pub open(crate) spec fn truncated(raw: u8) -> Self {
        BitFlags { bits: raw & F::all_spec(), kind: PhantomData }
    }

    /// Whether `flag` is a member.
    pub open spec fn contains_spec(self, flag: F) -> bool {
        self@ & flag.bit_spec() == flag.bit_spec()
    }

    /// The set with no flag.
    pub fn empty() -> (s: Self)
        ensures
            s@ == 0,
            s.wf(),
    {
        let ghost m = F::all_spec();
        assert(0u8 & m == 0u8) by (bit_vector);
        BitFlags { bits: 0, kind: PhantomData }
    }

    /// The flags named by the known bits of `raw`; its other bits are dropped.
    pub fn from_bits_truncate(raw: u8) -> (s: Self)
        ensures
            s == Self::truncated(raw),
            s@ == raw & F::all_spec(),
            s.wf(),
    {
        let m = F::all();
        assert((raw & m) & m == raw & m) by (bit_vector);
        BitFlags { bits: raw & m, kind: PhantomData }
    }

    /// The set that holds `flag` alone.
    pub fn from_flag(flag: F) -> (s: Self)
        ensures
            s@ == flag.bit_spec(),
            s.wf(),
    {
        proof {
            flag.lemma_bit_known();
        }
        BitFlags { bits: flag.bit(), kind: PhantomData }
    }

    /// The flags byte.
    pub fn bits(&self) -> (b: u8)
        ensures
            b == self@,
            self.wf(),
    {
        proof {
            use_type_invariant(self);
        }
        self.bits
    }

    /// Whether `flag` is a member.
    pub fn contains(&self, flag: F) -> (r: bool)
        ensures
            r == self.contains_spec(flag),
    {
        let b = flag.bit();
        self.bits & b == b
    }

    /// The set with `flag` added.
    pub fn with(self, flag: F) -> (s: Self)
        ensures
            s@ == self@ | flag.bit_spec(),
            s.wf(),
    {
        let b = flag.bit();
        let ghost m = F::all_spec();
        let x = self.bits;
        proof {
            use_type_invariant(self);
            flag.lemma_bit_known();
            assert(x & m == x && b & m == b ==> (x | b) & m == (x | b)) by (bit_vector);
        }
        BitFlags { bits: x | b, kind: PhantomData }
    }

    /// The union of two sets.
    pub fn union(self, other: Self) -> (s: Self)
        ensures
            s@ == self@ | other@,
            s.wf(),
    {
        let ghost m = F::all_spec();
        let x = self.bits;
        let y = other.bits;
        proof {
            use_type_invariant(self);
            use_type_invariant(other);
            assert(x & m == x && y & m == y ==> (x | y) & m == (x | y)) by (bit_vector);
        }
        BitFlags { bits: x | y, kind: PhantomData }
    }

    /// Making a set from a byte keeps exactly the known bits of it, and so
    /// all of a byte that has no other bits.
    pub proof fn lemma_truncated(raw: u8)
        ensures
            Self::truncated(raw)@ == raw & F::all_spec(),
            Self::truncated(raw).wf(),
            raw & F::all_spec() == raw ==> Self::truncated(raw)@ == raw,
    {
        let m = F::all_spec();
        assert((raw & m) & m == raw & m) by (bit_vector);
    }

    /// A set is well formed exactly when all its bits name flags.
    pub proof fn lemma_wf(self)
        ensures
            self.wf() <==> self@ & F::all_spec() == self@,
    {
    }

    /// Two sets with the same bits are the same set.
    pub proof fn lemma_same_bits(self, other: Self)
        requires
            self@ == other@,
        ensures
            self == other,
    {
    }

    /// A set made from a byte holds a flag exactly when the byte has its bit.
    pub proof fn lemma_truncated_contains(raw: u8, flag: F)
        ensures
            Self::truncated(raw).contains_spec(flag) <==> raw & flag.bit_spec() == flag.bit_spec(),
    {
        flag.lemma_bit_known();
        let m = F::all_spec();
        let b = flag.bit_spec();
        assert(b & m == b ==> ((raw & m) & b == b <==> raw & b == b)) by (bit_vector);
    }

    /// The empty set holds no flag.
    pub proof fn lemma_empty_contains(self, flag: F)
        requires
            self@ == 0,
        ensures
            !self.contains_spec(flag),
    {
        flag.lemma_bit_known();
        let b = flag.bit_spec();
        assert(b != 0 ==> 0u8 & b != b) by (bit_vector);
    }

    /// A set with the bits of this one and one more flag holds that flag, the
    /// flags that this one holds, and no other.
    pub proof fn lemma_with_contains(self, flag: F, other: Self, asked: F)
        requires
            other@ == self@ | flag.bit_spec(),
        ensures
            other.contains_spec(asked) <==> self.contains_spec(asked) || asked.bit_spec()
                == flag.bit_spec(),
    {
        flag.lemma_bit_known();
        asked.lemma_bit_known();
        let x = self@;
        let b = flag.bit_spec();
        let a = asked.bit_spec();
        assert(is_single_bit(a) && is_single_bit(b) ==> ((x | b) & a == a <==> x & a == a || a == b))
            by (bit_vector);
    }
}

} // verus!
