//! Trace identifiers.

use crate::big_endian::{
    be_bytes, be_value, byte_span, hex_encode, hex_of_bytes, lemma_be_bytes_len,
    lemma_be_value_bound, lemma_byte_span_monotone, lemma_byte_span_values,
    lemma_bytes_round_trip, lemma_hex_len, lemma_value_round_trip,
};
use crate::random::sample_u128;
use rand::rngs::StdRng;
use vstd::prelude::*;
use vstd::std_specs::convert::{FromSpec, FromSpecImpl};

verus! {

/// A trace identifier: 128 bits, of which the all-zero value means "no trace".
#[derive(Copy, Clone, PartialEq, Eq, Structural, PartialOrd, Ord, Hash, Debug)]
pub struct TraceId(pub u128);

impl View for TraceId {
    type V = u128;

    open spec fn view(&self) -> u128 {
        self.0
    }
}

impl From<u128> for TraceId {
    fn from(v: u128) -> (r: Self) {
        TraceId(v)
    }
}

impl FromSpecImpl<u128> for TraceId {
    open spec fn obeys_from_spec() -> bool {
        true
    }

    open spec fn from_spec(v: u128) -> Self {
        TraceId(v)
    }
}

impl From<[u8; 16]> for TraceId {
    fn from(v: [u8; 16]) -> (r: Self) {
        proof {
            lemma_be_value_bound(v@);
            lemma_byte_span_values();
        }
        TraceId::from_bytes(v)
    }
}

impl FromSpecImpl<[u8; 16]> for TraceId {
    open spec fn obeys_from_spec() -> bool {
        true
    }

    open spec fn from_spec(v: [u8; 16]) -> Self {
        TraceId::spec_from_bytes(v@)
    }
}

impl TraceId {
    /// Whether the identifier differs from the all-zero value.
    pub open spec fn spec_is_valid(&self) -> bool {
        self.0 != 0
    }

    /// The identifier that sixteen bytes stand for, most significant first.
    pub open spec fn spec_from_bytes(src: Seq<u8>) -> TraceId {
        TraceId(be_value(src) as u128)
    }

    /// The sixteen bytes of the identifier, most significant first.
    pub open spec fn spec_to_bytes(&self) -> Seq<u8> {
        be_bytes(self.0 as nat, 16)
    }

    /// The size of a `TraceId` in bytes.
    pub fn get_size() -> (r: usize)
        ensures
            r == 16,
    {
        16
    }

    /// The invalid `TraceId`: all bytes are zero.
    pub fn get_invalid() -> (r: TraceId)
        ensures
            r@ == 0,
            !r.spec_is_valid(),
    {
        TraceId(0)
    }

    /// The identifier for a number drawn from the numbers below the largest:
    /// the number plus one. Every valid identifier is the identifier of
    /// exactly one such number, and the all-zero value is that of none.
    pub fn from_sample(sample: u128) -> (r: TraceId)
        requires
            sample < u128::MAX,
        ensures
            r@ == sample + 1,
            r.spec_is_valid(),
    {
        TraceId(sample + 1)
    }

    /// Draws a `TraceId` from `rng`, out of all the valid identifiers. The
    /// identifier is valid whatever the generator yields.
    pub fn generate_random_id(rng: &mut StdRng) -> (r: TraceId)
        ensures
            r.spec_is_valid(),
    {
        TraceId::from_sample(sample_u128(rng, 0u128, u128::MAX))
    }

    /// Reads a `TraceId` from sixteen bytes, most significant first.
    pub fn from_bytes(src: [u8; 16]) -> (r: TraceId)
        ensures
            r == TraceId::spec_from_bytes(src@),
            r@ as nat == be_value(src@),
            r.spec_to_bytes() == src@,
    {
        let mut value: u128 = 0;
        let mut i: usize = 0;
        while i < 16
            invariant
                i <= 16,
                value as nat == be_value(src@.subrange(0, i as int)),
            decreases 16 - i,
        {
            proof {
                lemma_be_value_bound(src@.subrange(0, i as int));
                lemma_byte_span_monotone(i as nat, 15);
                lemma_byte_span_values();
                assert(byte_span(16) == 256 * byte_span(15));
                assert(src@.subrange(0, i + 1).drop_last() =~= src@.subrange(0, i as int));
            }
            value = value * 256 + src[i] as u128;
            i = i + 1;
        }
        proof {
            assert(src@.subrange(0, 16) =~= src@);
            lemma_bytes_round_trip(src@);
        }
        TraceId(value)
    }

    /// Writes the identifier as sixteen bytes, most significant first.
    pub fn to_bytes(&self) -> (r: [u8; 16])
        ensures
            r@ == self.spec_to_bytes(),
            TraceId::spec_from_bytes(r@) == *self,
    {
        let v15: u128 = self.0;
        let v14: u128 = v15 / 256;
        let v13: u128 = v14 / 256;
        let v12: u128 = v13 / 256;
        let v11: u128 = v12 / 256;
        let v10: u128 = v11 / 256;
        let v9: u128 = v10 / 256;
        let v8: u128 = v9 / 256;
        let v7: u128 = v8 / 256;
        let v6: u128 = v7 / 256;
        let v5: u128 = v6 / 256;
        let v4: u128 = v5 / 256;
        let v3: u128 = v4 / 256;
        let v2: u128 = v3 / 256;
        let v1: u128 = v2 / 256;
        let v0: u128 = v1 / 256;
        let r: [u8; 16] = [
            (v0 % 256) as u8,
            (v1 % 256) as u8,
            (v2 % 256) as u8,
            (v3 % 256) as u8,
            (v4 % 256) as u8,
            (v5 % 256) as u8,
            (v6 % 256) as u8,
            (v7 % 256) as u8,
            (v8 % 256) as u8,
            (v9 % 256) as u8,
            (v10 % 256) as u8,
            (v11 % 256) as u8,
            (v12 % 256) as u8,
            (v13 % 256) as u8,
            (v14 % 256) as u8,
            (v15 % 256) as u8,
        ];
        proof {
            reveal_with_fuel(be_bytes, 17);
            assert(r@ =~= be_bytes(self.0 as nat, 16));
            lemma_byte_span_values();
            lemma_value_round_trip(self.0 as nat, 16);
        }
        r
    }

    /// Whether the identifier is valid, that is, has a non-zero bit.
    pub fn is_valid(&self) -> (r: bool)
        ensures
            r == self.spec_is_valid(),
    {
        self.0 != 0
    }

    /// The thirty-two lowercase hexadecimal digits of the identifier, zero
    /// padded, most significant first.
    pub fn as_hex(&self) -> (r: String)
        ensures
            r@ == hex_of_bytes(self.spec_to_bytes()),
            r@.len() == 32,
    {
        let bytes = self.to_bytes();
        proof {
            lemma_hex_len(bytes@);
            lemma_be_bytes_len(self.0 as nat, 16);
        }
        hex_encode(bytes.as_slice())
    }
}

/// Reading an identifier from sixteen bytes and writing it gives the bytes
/// back.
pub proof fn lemma_trace_id_bytes_round_trip(src: Seq<u8>)
    requires
        src.len() == 16,
    ensures
        TraceId::spec_from_bytes(src).spec_to_bytes() == src,
{
    lemma_be_value_bound(src);
    lemma_byte_span_values();
    lemma_bytes_round_trip(src);
}

/// Writing an identifier and reading the bytes gives the identifier back.
pub proof fn lemma_trace_id_value_round_trip(id: TraceId)
    ensures
        id.spec_to_bytes().len() == 16,
        TraceId::spec_from_bytes(id.spec_to_bytes()) == id,
{
    lemma_be_bytes_len(id.0 as nat, 16);
    lemma_byte_span_values();
    lemma_value_round_trip(id.0 as nat, 16);
}

/// The identifier of a number is valid exactly when the number is not zero.
pub proof fn lemma_trace_id_of_number(number: u128)
    ensures
        <TraceId as FromSpec<u128>>::from_spec(number).spec_is_valid() <==> number != 0,
        TraceId(number).spec_is_valid() <==> number != 0,
{
}

} // verus!
