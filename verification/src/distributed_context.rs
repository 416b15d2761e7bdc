//! Distributed-context entries: labels that travel with an operation, each
//! with the number of hops it may still make.

use crate::error::ValidationError;
use crate::internal::{text_fault, validate_and_convert_str, MAX_LEN};
use vstd::prelude::*;

verus! {

/// The number of hops that an entry may make. One hop is one transfer in
/// which the sender serializes the entry and the receiver deserializes it;
/// proxies in between do not count.
#[derive(Copy, Clone, PartialEq, Eq, Structural, Hash, Debug)]
pub enum EntryTtl {
    /// The entry stays in the process that made it.
    NoPropagation,
    /// The entry may make the given number of hops.
    Propagation(usize),
    /// The entry may make any number of hops.
    UnlimitedPropagation,
}

impl EntryTtl {
    /// What the receiver holds after one hop, or `None` where the entry is
    /// not sent.
    pub open spec fn spec_after_hop(self) -> Option<EntryTtl> {
        match self {
            EntryTtl::NoPropagation => None,
            EntryTtl::Propagation(hops) => if hops > 0 {
                Some(EntryTtl::Propagation((hops - 1) as usize))
            } else {
                None
            },
            EntryTtl::UnlimitedPropagation => Some(EntryTtl::UnlimitedPropagation),
        }
    }

    /// What is held after the given number of hops, or `None` where the
    /// entry was dropped on the way.
    pub open spec fn spec_after_hops(self, hops: nat) -> Option<EntryTtl>
        decreases hops,
    {
        if hops == 0 {
            Some(self)
        } else {
            match self.spec_after_hop() {
                Some(next) => next.spec_after_hops((hops - 1) as nat),
                None => None,
            }
        }
    }

    /// Whether the entry is sent on the next hop.
    pub fn propagates(&self) -> (r: bool)
        ensures
            r == self.spec_after_hop().is_some(),
    {
        match self {
            EntryTtl::NoPropagation => false,
            EntryTtl::Propagation(hops) => *hops > 0,
            EntryTtl::UnlimitedPropagation => true,
        }
    }

    /// What the receiver holds after one hop: a counted lifetime is one
    /// shorter, an unlimited one is unchanged, and an entry that may make no
    /// further hop is not sent.
    pub fn after_hop(&self) -> (r: Option<EntryTtl>)
        ensures
            r == self.spec_after_hop(),
    {
        match self {
            EntryTtl::NoPropagation => None,
            EntryTtl::Propagation(hops) => if *hops > 0 {
                Some(EntryTtl::Propagation(*hops - 1))
            } else {
                None
            },
            EntryTtl::UnlimitedPropagation => Some(EntryTtl::UnlimitedPropagation),
        }
    }
}

/// An entry that may make `limit` hops is there after each of them, with
/// what is left of its lifetime, and gone after one hop more.
pub proof fn lemma_counted_lifetime(limit: usize, hops: nat)
    ensures
        EntryTtl::Propagation(limit).spec_after_hops(hops) == if hops <= limit {
            Some(EntryTtl::Propagation((limit - hops) as usize))
        } else {
            None
        },
    decreases hops,
{
    if hops > 0 && limit > 0 {
        lemma_counted_lifetime((limit - 1) as usize, (hops - 1) as nat);
    }
}

/// An entry of unlimited lifetime is unchanged after any number of hops.
pub proof fn lemma_unlimited_lifetime(hops: nat)
    ensures
        EntryTtl::UnlimitedPropagation.spec_after_hops(hops) == Some(
            EntryTtl::UnlimitedPropagation,
        ),
    decreases hops,
{
    if hops > 0 {
        lemma_unlimited_lifetime((hops - 1) as nat);
    }
}

/// An entry that is not to be propagated is there at its origin and in no
/// payload that leaves it.
pub proof fn lemma_no_propagation(hops: nat)
    ensures
        EntryTtl::NoPropagation.spec_after_hops(hops) == if hops == 0 {
            Some(EntryTtl::NoPropagation)
        } else {
            None
        },
{
}

/// The key of an entry: printable ASCII of at most 254 bytes.
#[derive(PartialEq, Eq, Hash, Debug)]
pub struct EntryKey(String);

impl Clone for EntryKey {
    fn clone(&self) -> (r: Self)
        ensures
            r@ == self@,
    {
        proof {
            use_type_invariant(self);
        }
        EntryKey(self.0.clone())
    }
}

impl View for EntryKey {
    type V = Seq<char>;

    closed spec fn view(&self) -> Seq<char> {
        self.0@
    }
}

impl EntryKey {
    #[verifier::type_invariant]
    spec fn inv(&self) -> bool {
        text_fault(self.0@, MAX_LEN as nat) is None
    }

    /// Makes a key of `name`, or says what is wrong with it.
    pub fn new(name: &str) -> (r: Result<Self, ValidationError>)
        ensures
            match text_fault(name@, MAX_LEN as nat) {
                Some(fault) => r is Err && r->Err_0 == fault,
                None => r is Ok && r->Ok_0@ == name@,
            },
    {
        match validate_and_convert_str(name.to_owned()) {
            Ok(text) => Ok(EntryKey(text)),
            Err(fault) => Err(fault),
        }
    }

    /// The text of the key.
    pub fn as_str(&self) -> (r: &str)
        ensures
            r@ == self@,
            text_fault(self@, MAX_LEN as nat) is None,
    {
        proof {
            use_type_invariant(self);
        }
        self.0.as_str()
    }
}

/// The value of an entry: printable ASCII of at most 254 bytes.
#[derive(PartialEq, Eq, Hash, Debug)]
pub struct EntryValue(String);

impl Clone for EntryValue {
    fn clone(&self) -> (r: Self)
        ensures
            r@ == self@,
    {
        proof {
            use_type_invariant(self);
        }
        EntryValue(self.0.clone())
    }
}

impl View for EntryValue {
    type V = Seq<char>;

    closed spec fn view(&self) -> Seq<char> {
        self.0@
    }
}

impl EntryValue {
    #[verifier::type_invariant]
    spec fn inv(&self) -> bool {
        text_fault(self.0@, MAX_LEN as nat) is None
    }

    /// Makes a value of `name`, or says what is wrong with it.
    pub fn new(name: &str) -> (r: Result<Self, ValidationError>)
        ensures
            match text_fault(name@, MAX_LEN as nat) {
                Some(fault) => r is Err && r->Err_0 == fault,
                None => r is Ok && r->Ok_0@ == name@,
            },
    {
        match validate_and_convert_str(name.to_owned()) {
            Ok(text) => Ok(EntryValue(text)),
            Err(fault) => Err(fault),
        }
    }

    /// The text of the value.
    pub fn as_str(&self) -> (r: &str)
        ensures
            r@ == self@,
            text_fault(self@, MAX_LEN as nat) is None,
    {
        proof {
            use_type_invariant(self);
        }
        self.0.as_str()
    }
}

/// What an entry carries besides its key and value: its lifetime.
#[derive(Copy, Clone, PartialEq, Eq, Structural, Hash, Debug)]
pub struct EntryMetadata(pub EntryTtl);

impl EntryMetadata {
    /// The metadata of an entry with the given lifetime. Every lifetime is
    /// accepted.
    pub fn new(ttl: EntryTtl) -> (r: Self)
        ensures
            r.0 == ttl,
    {
        EntryMetadata(ttl)
    }

    /// The lifetime of the entry.
    pub fn ttl(&self) -> (r: EntryTtl)
        ensures
            r == self.0,
    {
        self.0
    }
}

/// A key with its value and metadata.
#[derive(PartialEq, Eq, Hash, Debug)]
pub struct Entry {
    pub key: EntryKey,
    pub value: EntryValue,
    pub metadata: EntryMetadata,
}

impl Clone for Entry {
    fn clone(&self) -> (r: Self)
        ensures
            r.key@ == self.key@,
            r.value@ == self.value@,
            r.metadata == self.metadata,
    {
        Entry { key: self.key.clone(), value: self.value.clone(), metadata: self.metadata }
    }
}

impl Entry {
    /// An entry of the given parts.
    pub fn new(key: EntryKey, value: EntryValue, metadata: EntryMetadata) -> (r: Self)
        ensures
            r.key == key,
            r.value == value,
            r.metadata == metadata,
    {
        Entry { key, value, metadata }
    }

    /// The entry as the receiver holds it after one hop, with one hop less
    /// to make, or `None` where the entry is not sent.
    pub fn after_hop(self) -> (r: Option<Entry>)
        ensures
            match self.metadata.0.spec_after_hop() {
                Some(ttl) => r is Some && r->Some_0.key == self.key && r->Some_0.value
                    == self.value && r->Some_0.metadata.0 == ttl,
                None => r is None,
            },
    {
        match self.metadata.0.after_hop() {
            Some(ttl) => Some(
                Entry { key: self.key, value: self.value, metadata: EntryMetadata(ttl) },
            ),
            None => None,
        }
    }
}

} // verus!
