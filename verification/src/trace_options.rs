//! Trace options: a set of flags in one byte.

use vstd::prelude::*;

verus! {

/// The bit of the flag "this trace is sampled".
pub const IS_SAMPLED_BIT: u8 = 0b0000_0001;

/// All the bits that stand for a flag.
pub const KNOWN_BITS: u8 = 0b0000_0001;

/// Global options of a trace, handed on to every child span. The view is the
/// byte of flag bits; only bits that stand for a flag are ever set.
#[derive(Copy, Clone, PartialEq, Eq, Structural, PartialOrd, Ord, Hash, Debug)]
pub struct TraceOptions {
    bits: u8,
}

impl View for TraceOptions {
    type V = u8;

    closed spec fn view(&self) -> u8 {
        self.bits
    }
}

impl Default for TraceOptions {
    fn default() -> (r: Self)
        ensures
            r@ == 0,
    {
        assert(0u8 & !KNOWN_BITS == 0) by (bit_vector);
        TraceOptions { bits: 0 }
    }
}

impl TraceOptions {
    #[verifier::type_invariant]
    spec fn inv(&self) -> bool {
        self.bits & !KNOWN_BITS == 0
    }

    /// The size of the options in bytes.
    pub fn get_size() -> (r: usize)
        ensures
            r == 1,
    {
        1
    }

    /// The options with no flag set.
    pub fn default_options() -> (r: Self)
        ensures
            r@ == 0,
    {
        assert(0u8 & !KNOWN_BITS == 0) by (bit_vector);
        TraceOptions { bits: 0 }
    }

    /// The options with only the sampled flag set.
    pub fn sampled() -> (r: Self)
        ensures
            r@ == IS_SAMPLED_BIT,
    {
        assert(IS_SAMPLED_BIT & !KNOWN_BITS == 0) by (bit_vector);
        TraceOptions { bits: IS_SAMPLED_BIT }
    }

    /// The options with every flag set.
    pub fn all() -> (r: Self)
        ensures
            r@ == KNOWN_BITS,
    {
        assert(KNOWN_BITS & !KNOWN_BITS == 0) by (bit_vector);
        TraceOptions { bits: KNOWN_BITS }
    }

    /// The byte of flag bits.
    pub fn bits(&self) -> (r: u8)
        ensures
            r == self@,
            r & !KNOWN_BITS == 0,
    {
        proof {
            use_type_invariant(self);
        }
        self.bits
    }

    /// The options that a byte stands for, unless a bit of it stands for no
    /// flag.
    pub fn from_bits(bits: u8) -> (r: Option<Self>)
        ensures
            match r {
                Some(options) => bits & !KNOWN_BITS == 0 && options@ == bits,
                None => bits & !KNOWN_BITS != 0,
            },
    {
        if bits & !KNOWN_BITS == 0 {
            Some(TraceOptions { bits })
        } else {
            None
        }
    }

    /// The options that a byte stands for, without the bits that stand for
    /// no flag.
    pub fn from_bits_truncate(bits: u8) -> (r: Self)
        ensures
            r@ == bits & KNOWN_BITS,
    {
        assert((bits & KNOWN_BITS) & !KNOWN_BITS == 0) by (bit_vector);
        TraceOptions { bits: bits & KNOWN_BITS }
    }

    /// Whether no flag is set.
    pub fn is_empty(&self) -> (r: bool)
        ensures
            r == (self@ == 0),
    {
        self.bits == 0
    }

    /// Whether the trace is sampled.
    pub fn is_sampled(&self) -> (r: bool)
        ensures
            r == (self@ & IS_SAMPLED_BIT == IS_SAMPLED_BIT),
    {
        self.bits & IS_SAMPLED_BIT == IS_SAMPLED_BIT
    }

    /// Whether every flag of `other` is set here.
    pub fn contains(&self, other: Self) -> (r: bool)
        ensures
            r == (self@ & other@ == other@),
    {
        self.bits & other.bits == other.bits
    }

    /// Whether some flag of `other` is set here.
    pub fn intersects(&self, other: Self) -> (r: bool)
        ensures
            r == (self@ & other@ != 0),
    {
        self.bits & other.bits != 0
    }

    /// The flags set in either.
    pub fn union(self, other: Self) -> (r: Self)
        ensures
            r@ == self@ | other@,
    {
        let a = self.bits;
        let b = other.bits;
        proof {
            use_type_invariant(self);
            use_type_invariant(other);
            assert((a | b) & !KNOWN_BITS == 0) by (bit_vector)
                requires
                    a & !KNOWN_BITS == 0,
                    b & !KNOWN_BITS == 0,
            ;
        }
        TraceOptions { bits: a | b }
    }

    /// The flags set in both.
    pub fn intersection(self, other: Self) -> (r: Self)
        ensures
            r@ == self@ & other@,
    {
        let a = self.bits;
        let b = other.bits;
        proof {
            use_type_invariant(self);
            assert((a & b) & !KNOWN_BITS == 0) by (bit_vector)
                requires
                    a & !KNOWN_BITS == 0,
            ;
        }
        TraceOptions { bits: a & b }
    }

    /// The flags set here and not in `other`.
    pub fn difference(self, other: Self) -> (r: Self)
        ensures
            r@ == self@ & !other@,
    {
        let a = self.bits;
        let b = other.bits;
        proof {
            use_type_invariant(self);
            assert((a & !b) & !KNOWN_BITS == 0) by (bit_vector)
                requires
                    a & !KNOWN_BITS == 0,
            ;
        }
        TraceOptions { bits: a & !b }
    }
}

} // verus!
