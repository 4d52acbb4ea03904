//! Identities: the thirty-two byte keys that name the admin, the buyers and
//! the accounts of a sale.

use vstd::prelude::*;
use crate::wire::{
    le_bytes, le_value, lemma_le_bytes_len, lemma_le_bytes_of_value, lemma_le_value_bound,
    lemma_le_value_of_bytes, lemma_pow256_values, read_le, write_le,
};

verus! {

/// Number of bytes in an identity.
pub const IDENTITY_LEN: usize = 32;

/// An already authenticated identity.  The ledger only ever compares
/// identities for equality; it holds the thirty-two bytes as two integers,
/// the first sixteen bytes in `lo` and the last sixteen in `hi`, each least
/// significant byte first.
#[derive(Clone, Copy, Debug, PartialEq, Eq, Structural, PartialOrd, Ord, Hash)]
pub struct Identity {
    pub lo: u128,
    pub hi: u128,
}

impl View for Identity {
    type V = Seq<u8>;

    /// The thirty-two bytes of the identity.
    open spec fn view(&self) -> Seq<u8> {
        le_bytes(self.lo as nat, 16) + le_bytes(self.hi as nat, 16)
    }
}

impl Identity {
    /// The identity that thirty-two bytes spell.
    pub open spec fn spec_from_bytes(bytes: Seq<u8>) -> Identity {
        Identity {
            lo: le_value(bytes.subrange(0, 16)) as u128,
            hi: le_value(bytes.subrange(16, 32)) as u128,
        }
    }

    /// The pair of integers under which the ledger indexes the identity.
    pub open spec fn key(self) -> (u128, u128) {
        (self.hi, self.lo)
    }

    /// An identity has thirty-two bytes.
    pub proof fn lemma_view_len(self)
        ensures
            self@.len() == 32,
    {
        lemma_le_bytes_len(self.lo as nat, 16);
        lemma_le_bytes_len(self.hi as nat, 16);
    }

    /// Reading the bytes of an identity gives the identity back.
    pub proof fn lemma_from_view(self)
        ensures
            Identity::spec_from_bytes(self@) == self,
    {
        lemma_le_bytes_len(self.lo as nat, 16);
        lemma_le_bytes_len(self.hi as nat, 16);
        lemma_pow256_values();
        lemma_le_value_of_bytes(self.lo as nat, 16);
        lemma_le_value_of_bytes(self.hi as nat, 16);
        assert(self@.subrange(0, 16) =~= le_bytes(self.lo as nat, 16));
        assert(self@.subrange(16, 32) =~= le_bytes(self.hi as nat, 16));
    }

    /// The identity read from thirty-two bytes has exactly those bytes.
    pub proof fn lemma_view_of_bytes(bytes: Seq<u8>)
        requires
            bytes.len() == 32,
        ensures
            Identity::spec_from_bytes(bytes)@ == bytes,
    {
        let first = bytes.subrange(0, 16);
        let second = bytes.subrange(16, 32);
        lemma_pow256_values();
        lemma_le_value_bound(first);
        lemma_le_value_bound(second);
        lemma_le_bytes_of_value(first);
        lemma_le_bytes_of_value(second);
    }

    /// Two identities with the same bytes are the same identity.
    pub proof fn lemma_view_injective(self, other: Identity)
        requires
            self@ == other@,
        ensures
            self == other,
    {
        self.lemma_from_view();
        other.lemma_from_view();
    }

    /// The identity with the given thirty-two bytes.
    pub fn from_bytes(bytes: [u8; 32]) -> (id: Identity)
        ensures
            id == Identity::spec_from_bytes(bytes@),
            id@ == bytes@,
    {
        let id = Identity::read(bytes.as_slice(), 0);
        assert(bytes@.subrange(0, 32) =~= bytes@);
        id
    }

    /// The thirty-two bytes of the identity.
    pub fn to_bytes(&self) -> (bytes: [u8; 32])
        ensures
            bytes@ == self@,
    {
        let mut list: Vec<u8> = Vec::new();
        self.write(&mut list);
        proof {
            self.lemma_view_len();
        }
        let mut bytes = [0u8; 32];
        let mut i: usize = 0;
        while i < 32
            invariant
                i <= 32,
                list@.len() == 32,
                forall|j: int| 0 <= j < i ==> bytes@[j] == list@[j],
            decreases 32 - i,
        {
            bytes[i] = list[i];
            i = i + 1;
        }
        bytes
    }

    /// Reads the identity that the thirty-two bytes of `bytes` from `start`
    /// spell.
    pub fn read(bytes: &[u8], start: usize) -> (id: Identity)
        requires
            start + 32 <= bytes@.len(),
        ensures
            id == Identity::spec_from_bytes(bytes@.subrange(start as int, start + 32)),
            id@ == bytes@.subrange(start as int, start + 32),
    {
        let ghost field = bytes@.subrange(start as int, start + 32);
        let total: usize = bytes.len();
        let lo = read_le(bytes, start, 16);
        let hi = read_le(bytes, start + 16, 16);
        proof {
            assert(field.subrange(0, 16) =~= bytes@.subrange(start as int, start + 16));
            assert(field.subrange(16, 32) =~= bytes@.subrange(start + 16, start + 16 + 16));
            Identity::lemma_view_of_bytes(field);
        }
        Identity { lo, hi }
    }

    /// Appends the thirty-two bytes of the identity to `out`.
    pub fn write(&self, out: &mut Vec<u8>)
        ensures
            final(out)@ == old(out)@ + self@,
    {
        write_le(out, self.lo, 16);
        write_le(out, self.hi, 16);
    }
}

} // verus!
