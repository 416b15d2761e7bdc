//! Span identifiers.

use crate::big_endian::{
    be_bytes, be_value, hex_encode, hex_of_bytes, lemma_be_bytes_len, lemma_be_value_bound,
    lemma_byte_span_values, lemma_bytes_round_trip, lemma_hex_len, lemma_value_round_trip,
};
use crate::random::sample_u64;
use rand::rngs::StdRng;
use vstd::prelude::*;

verus! {

/// A span identifier: 64 bits, of which the all-zero value means "no span".
#[derive(Copy, Clone, PartialEq, Eq, Structural, PartialOrd, Ord, Hash, Debug)]
pub struct SpanId(pub u64);

impl View for SpanId {
    type V = u64;

    open spec fn view(&self) -> u64 {
        self.0
    }
}

impl SpanId {
    /// Whether the identifier differs from the all-zero value.
    pub open spec fn spec_is_valid(&self) -> bool {
        self.0 != 0
    }

    /// Constructs a `SpanId` from its numeric value; zero gives the invalid
    /// identifier.
    pub fn new(id: u64) -> (r: Self)
        ensures
            r@ == id,
    {
        SpanId(id)
    }

    /// The size of a `SpanId` in bytes.
    pub fn get_size() -> (r: usize)
        ensures
            r == 8,
    {
        8
    }

    /// The invalid `SpanId`: all bytes are zero.
    pub fn invalid() -> (r: SpanId)
        ensures
            r@ == 0,
            !r.spec_is_valid(),
    {
        SpanId(0)
    }

    /// The identifier for a number drawn from the numbers below the largest:
    /// the number plus one. Every valid identifier is the identifier of
    /// exactly one such number, and the all-zero value is that of none.
    pub fn from_sample(sample: u64) -> (r: SpanId)
        requires
            sample < u64::MAX,
        ensures
            r@ == sample + 1,
            r.spec_is_valid(),
    {
        SpanId(sample + 1)
    }

    /// Draws a `SpanId` from `rng`, out of all the valid identifiers. The
    /// identifier is valid whatever the generator yields.
    pub fn generate_random_id(rng: &mut StdRng) -> (r: SpanId)
        ensures
            r.spec_is_valid(),
    {
        SpanId::from_sample(sample_u64(rng, 0u64, u64::MAX))
    }

    /// Reads a `SpanId` from eight bytes, most significant first.
    pub fn from_bytes(src: [u8; 8]) -> (r: SpanId)
        ensures
            r == SpanId::spec_from_bytes(src@),
            r@ as nat == be_value(src@),
            r.spec_to_bytes() == src@,
    {
        let mut value: u64 = 0;
        let mut i: usize = 0;
        while i < 8
            invariant
                i <= 8,
                value as nat == be_value(src@.subrange(0, i as int)),
            decreases 8 - i,
        {
            proof {
                lemma_be_value_bound(src@.subrange(0, i as int));
                lemma_byte_span_values();
                assert(src@.subrange(0, i + 1).drop_last() =~= src@.subrange(0, i as int));
            }
            value = value * 256 + src[i] as u64;
            i = i + 1;
        }
        proof {
            assert(src@.subrange(0, 8) =~= src@);
            lemma_bytes_round_trip(src@);
        }
        SpanId(value)
    }

    /// The identifier that eight bytes stand for, most significant first.
    pub open spec fn spec_from_bytes(src: Seq<u8>) -> SpanId {
        SpanId(be_value(src) as u64)
    }

    /// The eight bytes of the identifier, most significant first.
    pub open spec fn spec_to_bytes(&self) -> Seq<u8> {
        be_bytes(self.0 as nat, 8)
    }

    /// Writes the identifier as eight bytes, most significant first.
    pub fn to_bytes(&self) -> (r: [u8; 8])
        ensures
            r@ == self.spec_to_bytes(),
            SpanId::spec_from_bytes(r@) == *self,
    {
        let v = self.0;
        let v7: u64 = v;
        let v6: u64 = v7 / 256;
        let v5: u64 = v6 / 256;
        let v4: u64 = v5 / 256;
        let v3: u64 = v4 / 256;
        let v2: u64 = v3 / 256;
        let v1: u64 = v2 / 256;
        let v0: u64 = v1 / 256;
        let r: [u8; 8] = [
            (v0 % 256) as u8,
            (v1 % 256) as u8,
            (v2 % 256) as u8,
            (v3 % 256) as u8,
            (v4 % 256) as u8,
            (v5 % 256) as u8,
            (v6 % 256) as u8,
            (v7 % 256) as u8,
        ];
        proof {
            reveal_with_fuel(be_bytes, 9);
            assert(r@ =~= be_bytes(v as nat, 8));
            lemma_byte_span_values();
            lemma_value_round_trip(v as nat, 8);
        }
        r
    }

    /// Whether the identifier is valid, that is, has a non-zero bit.
    pub fn is_valid(&self) -> (r: bool)
        ensures
            r == self.spec_is_valid(),
    {
        self.0 != 0
    }

    /// The sixteen lowercase hexadecimal digits of the identifier, zero
    /// padded, most significant first.
    pub fn as_hex(&self) -> (r: String)
        ensures
            r@ == hex_of_bytes(self.spec_to_bytes()),
            r@.len() == 16,
    {
        let bytes = self.to_bytes();
        proof {
            lemma_hex_len(bytes@);
            lemma_be_bytes_len(self.0 as nat, 8);
        }
        hex_encode(bytes.as_slice())
    }
}

/// Reading an identifier from eight bytes and writing it gives the bytes
/// back.
pub proof fn lemma_span_id_bytes_round_trip(src: Seq<u8>)
    requires
        src.len() == 8,
    ensures
        SpanId::spec_from_bytes(src).spec_to_bytes() == src,
{
    lemma_be_value_bound(src);
    lemma_byte_span_values();
    lemma_bytes_round_trip(src);
}

/// Writing an identifier and reading the bytes gives the identifier back.
pub proof fn lemma_span_id_value_round_trip(id: SpanId)
    ensures
        id.spec_to_bytes().len() == 8,
        SpanId::spec_from_bytes(id.spec_to_bytes()) == id,
{
    lemma_be_bytes_len(id.0 as nat, 8);
    lemma_byte_span_values();
    lemma_value_round_trip(id.0 as nat, 8);
}

/// The identifier of a number is valid exactly when the number is not zero.
pub proof fn lemma_span_id_of_number(number: u64)
    ensures
        SpanId(number).spec_is_valid() <==> number != 0,
{
}

} // verus!
