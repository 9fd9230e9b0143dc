//! Conservation of the native currency: a transaction neither makes nor
//! destroys any of it.
//!
//! The currency of an object is its storage rebate and what it holds: the
//! balance of a coin of the native currency, nothing for a coin of another
//! currency or a package, and for any other Move object what its fields
//! hold, which only the caller can tell.

use crate::base_types::ObjectRef;
use crate::coin::{coin_balance_of, is_coin_bytes, Coin};
use crate::error::SuiError;
use crate::model::StoreView;
use crate::object::{Data, DataView, Object, ObjectView};
use vstd::prelude::*;

verus! {

/// Whether `h` can tell the native currency held in the fields of a Move
/// object: it accepts every object, and what it returns depends on the value
/// of the object alone.
pub open spec fn is_sui_fn<H: Fn(&Object) -> u64>(h: &H) -> bool {
    &&& forall|o: &Object| #[trigger] call_requires(h, (o,))
    &&& forall|a: &Object, b: &Object, x: u64, y: u64|
        a@ == b@ && #[trigger] call_ensures(h, (a,), x) && #[trigger] call_ensures(h, (b,), y) ==> x
            == y
}

/// Whether `h` may return `amount` for an object of value `o`.
pub open spec fn may_hold<H: Fn(&Object) -> u64>(h: &H, o: ObjectView, amount: u64) -> bool {
    exists|x: Object| x@ == o && #[trigger] call_ensures(h, (&x,), amount)
}

/// The native currency that `h` finds in the fields of an object of value `o`.
pub open spec fn held_in_fields<H: Fn(&Object) -> u64>(h: &H, o: ObjectView) -> u64 {
    choose|amount: u64| may_hold(h, o, amount)
}

/// What `h` returned for an object is what the fields of its value hold.
pub proof fn lemma_held_in_fields<H: Fn(&Object) -> u64>(h: &H, o: Object, amount: u64)
    requires
        is_sui_fn(h),
        call_ensures(h, (&o,), amount),
    ensures
        amount == held_in_fields(h, o@),
{
    let other = held_in_fields(h, o@);
    assert(may_hold(h, o@, amount));
    assert(may_hold(h, o@, other));
    let x = choose|x: Object| x@ == o@ && #[trigger] call_ensures(h, (&x,), other);
    assert(x@ == o@ && call_ensures(h, (&x,), other));
}

/// The native currency of an object: its storage rebate and what it holds.
/// There is none to tell for a coin of the native currency whose bytes
/// cannot be read.
pub open spec fn total_sui<H: Fn(&Object) -> u64>(h: &H, o: ObjectView) -> Option<int> {
    match o.data {
        DataView::Move(m) => if m.type_ is GasCoin {
            if is_coin_bytes(m.contents) {
                Some(o.storage_rebate + coin_balance_of(m.contents))
            } else {
                None
            }
        } else if m.type_.is_coin() {
            Some(o.storage_rebate as int)
        } else {
            Some(o.storage_rebate + held_in_fields(h, o))
        },
        DataView::Package(_) => Some(o.storage_rebate as int),
    }
}

/// The sum of two amounts, where both can be told.
pub open spec fn add_amounts(a: Option<int>, b: Option<int>) -> Option<int> {
    match (a, b) {
        (Some(x), Some(y)) => Some(x + y),
        _ => None,
    }
}

impl Object {
    /// The native currency of the object: its storage rebate and what it holds.
    pub fn get_total_sui<H: Fn(&Object) -> u64>(&self, held: &H) -> (r: Result<u128, SuiError>)
        requires
            is_sui_fn(held),
        ensures
            match total_sui(held, self@) {
                Some(amount) => r == Ok::<u128, SuiError>(amount as u128) && 0 <= amount
                    <= 0x1_ffff_ffff_ffff_fffe,
                None => r == Err::<u128, SuiError>(SuiError::BadObjectType),
            },
    {
        match &self.data {
            Data::Move(m) => {
                if m.type_.is_gas_coin() {
                    match Coin::from_bcs_bytes(m.contents.as_slice()) {
                        Ok(coin) => Ok(self.storage_rebate as u128 + coin.balance as u128),
                        Err(_) => Err(SuiError::BadObjectType),
                    }
                } else if m.type_.is_coin() {
                    Ok(self.storage_rebate as u128)
                } else {
                    let amount = held(self);
                    proof {
                        lemma_held_in_fields(held, *self, amount);
                    }
                    Ok(self.storage_rebate as u128 + amount as u128)
                }
            },
            Data::Package(_) => Ok(self.storage_rebate as u128),
        }
    }
}

impl StoreView {
    /// The native currency of the inputs named by `refs`, together.
    pub open spec fn input_sui<H: Fn(&Object) -> u64>(self, h: &H, refs: Seq<ObjectRef>) -> Option<int>
        decreases refs.len(),
    {
        if refs.len() == 0 {
            Some(0)
        } else {
            add_amounts(
                self.input_sui(h, refs.drop_last()),
                total_sui(h, self.input_objects[refs.last().0]),
            )
        }
    }

    /// The native currency of the written objects `ids`, together.
    pub open spec fn output_sui<H: Fn(&Object) -> u64>(
        self,
        h: &H,
        ids: Seq<crate::base_types::ObjectID>,
    ) -> Option<int>
        decreases ids.len(),
    {
        if ids.len() == 0 {
            Some(0)
        } else {
            add_amounts(self.output_sui(h, ids.drop_last()), total_sui(h, self.written[ids.last()].1))
        }
    }

    /// Whether the native currency is conserved: what the mutable inputs
    /// held is what the written objects hold, the charge for computation
    /// and the share of the rebate that stays with the storage fund.
    pub open spec fn sui_conserved<H: Fn(&Object) -> u64>(self, h: &H) -> bool {
        let charged = self.gas_charged->0;
        let summary = charged.2;
        let input = self.input_sui(h, self.mutable_input_refs);
        let output = self.output_sui(h, crate::id_map::sorted_ids(self.written.dom()));
        input is Some && output is Some && input->0 == output->0 + summary.computation_cost
            + summary.spec_storage_fund_rebate_inflow(self.storage_rebate_rate)
    }

    /// Whether every amount that the conservation check adds up can be told.
    pub open spec fn sui_readable<H: Fn(&Object) -> u64>(self, h: &H) -> bool {
        self.input_sui(h, self.mutable_input_refs) is Some && self.output_sui(
            h,
            crate::id_map::sorted_ids(self.written.dom()),
        ) is Some
    }

    /// What the conservation check returns. A transaction that touched a
    /// dynamic field is not checked. An amount beyond the range of the sums
    /// counts as not conserved.
    pub open spec fn check_sui_conserved<H: Fn(&Object) -> u64>(self, h: &H) -> Result<(), SuiError> {
        if self.dynamic_fields_touched().len() > 0 {
            Ok(())
        } else if !self.sui_readable(h) {
            Err(SuiError::BadObjectType)
        } else if self.sui_conserved(h) && self.input_sui(h, self.mutable_input_refs)->0 <= u128::MAX {
            Ok(())
        } else {
            Err(SuiError::ConservationViolation)
        }
    }
}

} // verus!
