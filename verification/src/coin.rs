//! Coins: Move objects that hold a balance.
//!
//! The bytes of a coin are its identifier followed by its balance, both
//! little-endian, as the canonical serialization writes a pair of integers.

use crate::base_types::ObjectID;
use crate::error::{ExecutionError, ExecutionErrorKind};
use crate::object::{Data, DataView, Object, ObjectView};
use vstd::bytes::{
    spec_u128_from_le_bytes, spec_u128_to_le_bytes, spec_u64_from_le_bytes, spec_u64_to_le_bytes,
};
use vstd::prelude::*;

verus! {

/// `bcs::Error`, the error of the canonical serialization. It is carried
/// through and never looked into.
#[verifier::external_type_specification]
#[verifier::external_body]
pub struct ExBcsError(bcs::Error);

/// Number of bytes in the serialized form of a coin.
pub const COIN_LENGTH: usize = 24;

/// The serialized form of a coin with identifier `id` and balance `balance`.
pub open spec fn coin_bytes(id: ObjectID, balance: u64) -> Seq<u8> {
    spec_u128_to_le_bytes(id.0) + spec_u64_to_le_bytes(balance)
}

/// Whether `bytes` is the serialized form of some coin.
pub open spec fn is_coin_bytes(bytes: Seq<u8>) -> bool {
    bytes.len() == COIN_LENGTH
}

/// The identifier that the serialized coin `bytes` holds.
pub open spec fn coin_id_of(bytes: Seq<u8>) -> ObjectID {
    ObjectID(spec_u128_from_le_bytes(bytes.subrange(0, 16)))
}

/// The balance that the serialized coin `bytes` holds.
pub open spec fn coin_balance_of(bytes: Seq<u8>) -> u64 {
    spec_u64_from_le_bytes(bytes.subrange(16, 24))
}

/// Serializing a coin and reading it back gives the coin.
pub proof fn lemma_coin_bytes_round_trip(id: ObjectID, balance: u64)
    ensures
        is_coin_bytes(coin_bytes(id, balance)),
        coin_id_of(coin_bytes(id, balance)) == id,
        coin_balance_of(coin_bytes(id, balance)) == balance,
{
    vstd::bytes::lemma_auto_spec_u128_to_from_le_bytes();
    vstd::bytes::lemma_auto_spec_u64_to_from_le_bytes();
    let a = spec_u128_to_le_bytes(id.0);
    let b = spec_u64_to_le_bytes(balance);
    assert(a.len() == 16);
    assert(b.len() == 8);
    assert((a + b).subrange(0, 16) =~= a);
    assert((a + b).subrange(16, 24) =~= b);
}

/// Calls `bcs::to_bytes` on a pair of a 128-bit and a 64-bit integer. The
/// serialization writes the two integers one after the other, each
/// little-endian, and does not fail on integers.
#[verifier::external_body]
pub(crate) fn bcs_to_bytes(first: u128, second: u64) -> (r: Result<Vec<u8>, bcs::Error>)
    ensures
        r is Ok,
        r->Ok_0@ == spec_u128_to_le_bytes(first) + spec_u64_to_le_bytes(second),
{
    bcs::to_bytes(&(first, second))
}

/// Calls `bcs::from_bytes` for a pair of a 128-bit and a 64-bit integer. It
/// succeeds on exactly 24 bytes: too few end the input early and any left
/// over are refused. The two integers are read little-endian.
#[verifier::external_body]
pub(crate) fn bcs_from_bytes(bytes: &[u8]) -> (r: Result<(u128, u64), bcs::Error>)
    ensures
        r is Ok <==> bytes@.len() == 24,
        r is Ok ==> r->Ok_0.0 == spec_u128_from_le_bytes(bytes@.subrange(0, 16)) && r->Ok_0.1
            == spec_u64_from_le_bytes(bytes@.subrange(16, 24)),
{
    bcs::from_bytes::<(u128, u64)>(bytes)
}

/// A coin read out of a Move object.
#[derive(Clone, Copy, Debug, PartialEq, Eq, Structural)]
pub struct Coin {
    pub id: ObjectID,
    pub balance: u64,
}

impl Coin {
    pub fn new(id: ObjectID, balance: u64) -> (c: Self)
        ensures
            c == (Coin { id, balance }),
    {
        Coin { id, balance }
    }

    pub fn value(&self) -> (v: u64)
        ensures
            v == self.balance,
    {
        self.balance
    }

    /// Reads a coin from its serialized form.
    pub fn from_bcs_bytes(bytes: &[u8]) -> (r: Result<Coin, ExecutionError>)
        ensures
            r is Ok <==> is_coin_bytes(bytes@),
            r is Ok ==> r->Ok_0 == (Coin { id: coin_id_of(bytes@), balance: coin_balance_of(bytes@) }),
            r is Err ==> r->Err_0.kind == ExecutionErrorKind::InvariantViolation,
    {
        match bcs_from_bytes(bytes) {
            Ok(pair) => Ok(Coin { id: ObjectID(pair.0), balance: pair.1 }),
            Err(_) => Err(ExecutionError::invariant_violation()),
        }
    }

    /// The serialized form of the coin.
    pub fn to_bcs_bytes(&self) -> (r: Result<Vec<u8>, ExecutionError>)
        ensures
            r is Ok,
            r->Ok_0@ == coin_bytes(self.id, self.balance),
    {
        match bcs_to_bytes(self.id.0, self.balance) {
            Ok(bytes) => Ok(bytes),
            Err(_) => Err(ExecutionError::invariant_violation()),
        }
    }

    /// Adds `balance` to the coin, unless the sum leaves the range of a balance.
    pub fn add(&mut self, balance: u64) -> (r: Result<(), ExecutionError>)
        ensures
            r is Ok <==> old(self).balance + balance <= u64::MAX,
            r is Ok ==> *final(self) == (Coin { id: old(self).id, balance: (old(self).balance + balance) as u64 }),
            r is Err ==> *final(self) == *old(self) && r->Err_0.kind
                == ExecutionErrorKind::CoinBalanceOverflow,
    {
        if balance > u64::MAX - self.balance {
            Err(ExecutionError::from_kind(ExecutionErrorKind::CoinBalanceOverflow))
        } else {
            self.balance = self.balance + balance;
            Ok(())
        }
    }

    /// What `extract_balance_if_coin` returns for an object.
    pub open spec fn spec_extract_balance(object: ObjectView) -> Result<Option<u64>, ExecutionError> {
        match object.data {
            DataView::Move(m) => if !m.type_.is_coin() {
                Ok(None)
            } else if is_coin_bytes(m.contents) {
                Ok(Some(coin_balance_of(m.contents)))
            } else {
                Err(ExecutionError { kind: ExecutionErrorKind::InvariantViolation })
            },
            DataView::Package(_) => Ok(None),
        }
    }

    /// The balance of `object` if it is a coin of any currency: nothing for
    /// another object, an error for a coin whose bytes cannot be read.
    pub fn extract_balance_if_coin(object: &Object) -> (r: Result<Option<u64>, ExecutionError>)
        ensures
            r == Self::spec_extract_balance(object@),
    {
        match &object.data {
            Data::Move(m) => {
                if !m.type_.is_coin() {
                    return Ok(None);
                }
                match Coin::from_bcs_bytes(m.contents.as_slice()) {
                    Ok(coin) => Ok(Some(coin.balance)),
                    Err(e) => Err(e),
                }
            },
            Data::Package(_) => Ok(None),
        }
    }
}

/// Whether `object` is a coin of the native currency whose bytes can be read.
pub open spec fn is_gas_coin_object(object: ObjectView) -> bool {
    &&& object.data matches DataView::Move(m)
    &&& m.type_ is GasCoin
    &&& is_coin_bytes(m.contents)
}

/// The balance of a coin object.
pub open spec fn balance_of(object: ObjectView) -> u64 {
    match object.data {
        DataView::Move(m) => coin_balance_of(m.contents),
        DataView::Package(_) => 0,
    }
}

/// `object` with the balance of the coin it holds replaced by `balance`.
pub open spec fn with_balance(object: ObjectView, balance: u64) -> ObjectView {
    match object.data {
        DataView::Move(m) => ObjectView {
            data: DataView::Move(
                crate::object::MoveObjectView {
                    contents: coin_bytes(coin_id_of(m.contents), balance),
                    ..m
                },
            ),
            ..object
        },
        DataView::Package(_) => object,
    }
}

/// Replacing the balance of a gas coin gives a gas coin with that balance.
pub proof fn lemma_with_balance(object: ObjectView, balance: u64)
    requires
        is_gas_coin_object(object),
    ensures
        is_gas_coin_object(with_balance(object, balance)),
        balance_of(with_balance(object, balance)) == balance,
        with_balance(object, balance).id() == object.id(),
        with_balance(object, balance).owner == object.owner,
        with_balance(object, balance).version == object.version,
{
    let m = object.data->Move_0;
    lemma_coin_bytes_round_trip(coin_id_of(m.contents), balance);
}

} // verus!
