//! Identifiers, versions and digests.

use vstd::prelude::*;

verus! {

/// The largest version an object can reach.
pub const MAX_VERSION: u64 = 0x7fff_ffff_ffff_ffff;

/// Identifier of an object: a 128-bit number, ordered numerically.
#[derive(Clone, Copy, Debug, PartialEq, Eq, Structural, PartialOrd, Ord, Hash)]
pub struct ObjectID(pub u128);

impl ObjectID {
    /// The identifier that stands for "no object".
    pub fn zero() -> (id: Self)
        ensures
            id == ObjectID(0),
    {
        ObjectID(0)
    }

    pub fn new(value: u128) -> (id: Self)
        ensures
            id.0 == value,
    {
        ObjectID(value)
    }

    pub fn is_zero(&self) -> (r: bool)
        ensures
            r == (self.0 == 0),
    {
        self.0 == 0
    }
}

/// Address of an account.
#[derive(Clone, Copy, Debug, PartialEq, Eq, Structural, PartialOrd, Ord, Hash)]
pub struct SuiAddress(pub u128);

impl SuiAddress {
    /// The address of the system itself.
    pub fn zero() -> (a: Self)
        ensures
            a == SuiAddress(0),
    {
        SuiAddress(0)
    }

    pub fn new(value: u128) -> (a: Self)
        ensures
            a.0 == value,
    {
        SuiAddress(value)
    }
}

impl Default for SuiAddress {
    fn default() -> (a: Self)
        ensures
            a == SuiAddress(0),
    {
        SuiAddress(0)
    }
}

/// Version of an object: a counter that only moves forward.
#[derive(Clone, Copy, Debug, PartialEq, Eq, Structural, PartialOrd, Ord, Hash)]
pub struct SequenceNumber(pub u64);

impl SequenceNumber {
    /// The version that a freshly created object carries until it is committed.
    pub fn new() -> (v: Self)
        ensures
            v == SequenceNumber(0),
    {
        SequenceNumber(0)
    }

    /// Moves the version forward to `next`.
    pub fn increment_to(&mut self, next: SequenceNumber)
        requires
            old(self).0 < next.0,
        ensures
            *final(self) == next,
    {
        *self = next;
    }
}

/// Digest of an object's contents: 32 bytes, held as two 128-bit halves.
#[derive(Clone, Copy, Debug, PartialEq, Eq, Structural, Hash)]
pub struct ObjectDigest {
    pub high: u128,
    pub low: u128,
}

impl ObjectDigest {
    pub fn new(high: u128, low: u128) -> (d: Self)
        ensures
            d == (ObjectDigest { high, low }),
    {
        ObjectDigest { high, low }
    }

    /// Digest recorded for an object that was deleted: every byte is 99.
    pub open spec fn spec_deleted() -> ObjectDigest {
        ObjectDigest {
            high: 0x6363_6363_6363_6363_6363_6363_6363_6363,
            low: 0x6363_6363_6363_6363_6363_6363_6363_6363,
        }
    }

    /// Digest recorded for an object that was wrapped into another: every byte is 88.
    pub open spec fn spec_wrapped() -> ObjectDigest {
        ObjectDigest {
            high: 0x5858_5858_5858_5858_5858_5858_5858_5858,
            low: 0x5858_5858_5858_5858_5858_5858_5858_5858,
        }
    }

    pub fn object_digest_deleted() -> (d: Self)
        ensures
            d == Self::spec_deleted(),
    {
        ObjectDigest {
            high: 0x6363_6363_6363_6363_6363_6363_6363_6363,
            low: 0x6363_6363_6363_6363_6363_6363_6363_6363,
        }
    }

    pub fn object_digest_wrapped() -> (d: Self)
        ensures
            d == Self::spec_wrapped(),
    {
        ObjectDigest {
            high: 0x5858_5858_5858_5858_5858_5858_5858_5858,
            low: 0x5858_5858_5858_5858_5858_5858_5858_5858,
        }
    }
}

/// Digest of a transaction: 32 bytes, held as two 128-bit halves.
#[derive(Clone, Copy, Debug, PartialEq, Eq, Structural, Hash)]
pub struct TransactionDigest {
    pub high: u128,
    pub low: u128,
}

impl TransactionDigest {
    pub fn new(high: u128, low: u128) -> (d: Self)
        ensures
            d == (TransactionDigest { high, low }),
    {
        TransactionDigest { high, low }
    }

    /// Digest of the genesis transaction.
    pub fn genesis() -> (d: Self)
        ensures
            d == (TransactionDigest { high: 0, low: 0 }),
    {
        TransactionDigest { high: 0, low: 0 }
    }
}

/// Digest of the events a transaction emitted.
#[derive(Clone, Copy, Debug, PartialEq, Eq, Structural, Hash)]
pub struct TransactionEventsDigest {
    pub high: u128,
    pub low: u128,
}

/// Reference to one version of an object.
pub type ObjectRef = (ObjectID, SequenceNumber, ObjectDigest);

/// Number of an epoch.
pub type EpochId = u64;

/// Version of the protocol rules.
#[derive(Clone, Copy, Debug, PartialEq, Eq, Structural, PartialOrd, Ord, Hash)]
pub struct ProtocolVersion(pub u64);

} // verus!
