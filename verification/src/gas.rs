//! Gas: the meter that charges a transaction, and the summary of what it charged.
//!
//! The meter counts in the smallest unit of the native currency. A budget is
//! fixed when the meter is made; every charge takes from what is left of it.

use crate::coin::{balance_of, is_gas_coin_object, with_balance, Coin};
use crate::error::{ExecutionError, ExecutionErrorKind};
use crate::object::{Data, Object};
use vstd::prelude::*;

verus! {

/// The whole, of which a rebate rate is a number of parts.
pub const BASIS_POINTS: u64 = 10000;

/// What a transaction was charged.
#[derive(Clone, Copy, Debug, PartialEq, Eq, Structural)]
pub struct GasCostSummary {
    /// Charged for the computation.
    pub computation_cost: u64,
    /// Charged for the storage of what the transaction wrote.
    pub storage_cost: u64,
    /// Paid back for the storage that the transaction overwrote or freed.
    pub storage_rebate: u64,
    /// The part of the storage charge that is never paid back.
    pub non_refundable_storage_fee: u64,
}

impl GasCostSummary {
    pub fn new(
        computation_cost: u64,
        storage_cost: u64,
        storage_rebate: u64,
        non_refundable_storage_fee: u64,
    ) -> (s: Self)
        ensures
            s == (GasCostSummary {
                computation_cost,
                storage_cost,
                storage_rebate,
                non_refundable_storage_fee,
            }),
    {
        GasCostSummary { computation_cost, storage_cost, storage_rebate, non_refundable_storage_fee }
    }

    /// Computation and storage together.
    pub open spec fn spec_gas_used(self) -> int {
        self.computation_cost + self.storage_cost
    }

    /// What the sender pays in the end: the charges less the rebate.
    pub open spec fn spec_net_gas_usage(self) -> int {
        self.computation_cost + self.storage_cost - self.storage_rebate
    }

    /// The share of the rebate that goes back to the sender, rounded to the nearest unit.
    pub open spec fn spec_sender_rebate(self, storage_rebate_rate: u64) -> int {
        (self.storage_rebate * storage_rebate_rate + BASIS_POINTS / 2) / (BASIS_POINTS as int)
    }

    /// The share of the rebate that stays with the storage fund.
    pub open spec fn spec_storage_fund_rebate_inflow(self, storage_rebate_rate: u64) -> int {
        self.storage_rebate - self.spec_sender_rebate(storage_rebate_rate)
    }

    /// The sender's share of a rebate is never more than the rebate.
    pub proof fn lemma_sender_rebate_bounds(self, storage_rebate_rate: u64)
        requires
            storage_rebate_rate <= BASIS_POINTS,
        ensures
            0 <= self.spec_sender_rebate(storage_rebate_rate) <= self.storage_rebate,
    {
        let r = self.storage_rebate as int;
        let rate = storage_rebate_rate as int;
        assert(r * rate <= r * 10000) by (nonlinear_arith)
            requires
                0 <= r,
                0 <= rate <= 10000,
        ;
        assert(0 <= r * rate) by (nonlinear_arith)
            requires
                0 <= r,
                0 <= rate,
        ;
        assert((r * rate + 5000) / 10000 <= r) by (nonlinear_arith)
            requires
                0 <= r * rate <= r * 10000,
                0 <= r,
        ;
        assert(0 <= (r * rate + 5000) / 10000) by (nonlinear_arith)
            requires
                0 <= r * rate,
        ;
    }

    pub fn gas_used(&self) -> (r: u64)
        requires
            self.spec_gas_used() <= u64::MAX,
        ensures
            r == self.spec_gas_used(),
    {
        self.computation_cost + self.storage_cost
    }

    pub fn net_gas_usage(&self) -> (r: i128)
        ensures
            r == self.spec_net_gas_usage(),
    {
        self.computation_cost as i128 + self.storage_cost as i128 - self.storage_rebate as i128
    }

    pub fn sender_rebate(&self, storage_rebate_rate: u64) -> (r: u64)
        requires
            storage_rebate_rate <= BASIS_POINTS,
        ensures
            r == self.spec_sender_rebate(storage_rebate_rate),
    {
        proof {
            self.lemma_sender_rebate_bounds(storage_rebate_rate);
            let r = self.storage_rebate as int;
            let rate = storage_rebate_rate as int;
            assert(r * rate <= 0xffff_ffff_ffff_ffff * 10000) by (nonlinear_arith)
                requires
                    0 <= r <= 0xffff_ffff_ffff_ffff,
                    0 <= rate <= 10000,
            ;
            assert(0 <= r * rate) by (nonlinear_arith)
                requires
                    0 <= r,
                    0 <= rate,
            ;
        }
        let wide: u128 = (self.storage_rebate as u128 * storage_rebate_rate as u128 + 5000) / 10000;
        wide as u64
    }

    pub fn storage_fund_rebate_inflow(&self, storage_rebate_rate: u64) -> (r: u64)
        requires
            storage_rebate_rate <= BASIS_POINTS,
        ensures
            r == self.spec_storage_fund_rebate_inflow(storage_rebate_rate),
    {
        proof {
            self.lemma_sender_rebate_bounds(storage_rebate_rate);
        }
        self.storage_rebate - self.sender_rebate(storage_rebate_rate)
    }
}

/// The product of two amounts.
pub open spec fn cost_of(size: u64, price: u64) -> int {
    size * price
}

/// The product of two amounts, in a range that always holds it.
fn mul_wide(size: u64, price: u64) -> (r: u128)
    ensures
        r == cost_of(size, price),
{
    proof {
        assert(0 <= size as int * price as int <= 0xffff_ffff_ffff_ffff * 0xffff_ffff_ffff_ffff)
            by (nonlinear_arith)
            requires
                0 <= size as int <= 0xffff_ffff_ffff_ffff,
                0 <= price as int <= 0xffff_ffff_ffff_ffff,
        ;
    }
    size as u128 * price as u128
}

/// The meter of one transaction.
#[derive(Clone, Copy, Debug, PartialEq, Eq, Structural)]
pub struct SuiGasStatus {
    /// Whether the transaction is charged at all.
    pub charge: bool,
    /// The budget the transaction started with.
    pub init_budget: u64,
    /// What is left of the budget.
    pub gas_left: u64,
    /// The price of storing one byte.
    pub storage_per_byte_cost: u64,
    /// The price of the computation that mutating one byte takes.
    pub mutation_per_byte_cost: u64,
    /// What was charged for storage so far.
    pub storage_gas_units: u64,
    /// The rebates collected so far.
    pub storage_rebate: u64,
}

impl SuiGasStatus {
    /// The invariant of a meter: what was charged never exceeds the budget.
    pub open spec fn wf(self) -> bool {
        self.gas_left + self.storage_gas_units <= self.init_budget
    }

    /// Whether the meter is sound.
    pub fn is_well_formed(&self) -> (r: bool)
        ensures
            r == self.wf(),
    {
        self.storage_gas_units <= self.init_budget && self.gas_left <= self.init_budget
            - self.storage_gas_units
    }

    /// A meter with budget `budget`, of which nothing is spent.
    pub fn new_with_budget(budget: u64, storage_per_byte_cost: u64, mutation_per_byte_cost: u64) -> (g:
        Self)
        ensures
            g.wf(),
            g == (SuiGasStatus {
                charge: true,
                init_budget: budget,
                gas_left: budget,
                storage_per_byte_cost,
                mutation_per_byte_cost,
                storage_gas_units: 0,
                storage_rebate: 0,
            }),
    {
        SuiGasStatus {
            charge: true,
            init_budget: budget,
            gas_left: budget,
            storage_per_byte_cost,
            mutation_per_byte_cost,
            storage_gas_units: 0,
            storage_rebate: 0,
        }
    }

    /// A meter that charges nothing, as system transactions use.
    pub fn new_unmetered() -> (g: Self)
        ensures
            g.wf(),
            g == (SuiGasStatus {
                charge: false,
                init_budget: 0,
                gas_left: 0,
                storage_per_byte_cost: 0,
                mutation_per_byte_cost: 0,
                storage_gas_units: 0,
                storage_rebate: 0,
            }),
    {
        SuiGasStatus {
            charge: false,
            init_budget: 0,
            gas_left: 0,
            storage_per_byte_cost: 0,
            mutation_per_byte_cost: 0,
            storage_gas_units: 0,
            storage_rebate: 0,
        }
    }

    pub fn is_unmetered(&self) -> (r: bool)
        ensures
            r == !self.charge,
    {
        !self.charge
    }

    pub fn storage_rebate(&self) -> (r: u64)
        ensures
            r == self.storage_rebate,
    {
        self.storage_rebate
    }

    pub fn storage_gas_units(&self) -> (r: u64)
        ensures
            r == self.storage_gas_units,
    {
        self.storage_gas_units
    }

    /// Whether the meter can pay for the storage of `new_size` bytes.
    pub open spec fn can_store(self, new_size: u64) -> bool {
        !self.charge || cost_of(new_size, self.storage_per_byte_cost) <= self.gas_left
    }

    /// The meter after it paid for the storage of `new_size` bytes and
    /// collected the rebate `storage_rebate`.
    pub open spec fn after_storage_mutation(self, new_size: u64, storage_rebate: u64) -> SuiGasStatus {
        if !self.charge || !self.can_store(new_size) {
            self
        } else {
            let cost = cost_of(new_size, self.storage_per_byte_cost);
            SuiGasStatus {
                gas_left: (self.gas_left - cost) as u64,
                storage_gas_units: (self.storage_gas_units + cost) as u64,
                storage_rebate: if self.storage_rebate + storage_rebate > u64::MAX {
                    u64::MAX
                } else {
                    (self.storage_rebate + storage_rebate) as u64
                },
                ..self
            }
        }
    }

    /// What storing `new_size` bytes costs: the rebate that the object carries from then on.
    pub open spec fn storage_cost_of(self, new_size: u64) -> u64 {
        if !self.charge {
            0
        } else {
            cost_of(new_size, self.storage_per_byte_cost) as u64
        }
    }

    /// Charges the storage of an object of `new_size` bytes that replaces one
    /// which carried the rebate `storage_rebate`. Returns the rebate the new
    /// object carries. Where the budget does not cover the charge, nothing is
    /// charged.
    pub fn charge_storage_mutation(&mut self, new_size: u64, storage_rebate: u64) -> (r: Result<
        u64,
        ExecutionError,
    >)
        requires
            old(self).wf(),
        ensures
            final(self).wf(),
            *final(self) == old(self).after_storage_mutation(new_size, storage_rebate),
            r is Ok <==> old(self).can_store(new_size),
            r is Ok ==> r->Ok_0 == old(self).storage_cost_of(new_size),
            r is Err ==> r->Err_0.kind == ExecutionErrorKind::InsufficientGas,
    {
        if !self.charge {
            return Ok(0);
        }
        let cost: u128 = mul_wide(new_size, self.storage_per_byte_cost);
        if cost > self.gas_left as u128 {
            return Err(ExecutionError::from_kind(ExecutionErrorKind::InsufficientGas));
        }
        let cost: u64 = cost as u64;
        self.gas_left = self.gas_left - cost;
        self.storage_gas_units = self.storage_gas_units + cost;
        self.storage_rebate = if storage_rebate > u64::MAX - self.storage_rebate {
            u64::MAX
        } else {
            self.storage_rebate + storage_rebate
        };
        Ok(cost)
    }

    /// Whether the meter can pay for the computation of mutating `size` bytes.
    pub open spec fn can_mutate(self, size: u64) -> bool {
        !self.charge || cost_of(size, self.mutation_per_byte_cost) <= self.gas_left
    }

    /// The meter after it paid for the computation of mutating `size` bytes.
    pub open spec fn after_computation(self, size: u64) -> SuiGasStatus {
        if !self.charge || !self.can_mutate(size) {
            self
        } else {
            SuiGasStatus {
                gas_left: (self.gas_left - cost_of(size, self.mutation_per_byte_cost)) as u64,
                ..self
            }
        }
    }

    /// Charges the computation that mutating `size` bytes of storage takes.
    /// Where the budget does not cover the charge, nothing is charged.
    pub fn charge_computation_gas_for_storage_mutation(&mut self, size: u64) -> (r: Result<
        (),
        ExecutionError,
    >)
        requires
            old(self).wf(),
        ensures
            final(self).wf(),
            *final(self) == old(self).after_computation(size),
            r is Ok <==> old(self).can_mutate(size),
            r is Err ==> r->Err_0.kind == ExecutionErrorKind::InsufficientGas,
    {
        if !self.charge {
            return Ok(());
        }
        let cost: u128 = mul_wide(size, self.mutation_per_byte_cost);
        if cost > self.gas_left as u128 {
            return Err(ExecutionError::from_kind(ExecutionErrorKind::InsufficientGas));
        }
        self.gas_left = self.gas_left - cost as u64;
        Ok(())
    }

    /// The meter with what it charged for storage given back and the rebates forgotten.
    pub open spec fn after_reset(self) -> SuiGasStatus {
        SuiGasStatus {
            gas_left: (self.gas_left + self.storage_gas_units) as u64,
            storage_gas_units: 0,
            storage_rebate: 0,
            ..self
        }
    }

    /// Gives back what was charged for storage and forgets the rebates collected.
    pub fn reset_storage_cost_and_rebate(&mut self)
        requires
            old(self).wf(),
        ensures
            final(self).wf(),
            *final(self) == old(self).after_reset(),
    {
        self.gas_left = self.gas_left + self.storage_gas_units;
        self.storage_gas_units = 0;
        self.storage_rebate = 0;
    }

    /// What the meter charged so far.
    pub open spec fn spec_summary(self) -> GasCostSummary {
        GasCostSummary {
            computation_cost: (self.init_budget - self.gas_left - self.storage_gas_units) as u64,
            storage_cost: self.storage_gas_units,
            storage_rebate: self.storage_rebate,
            non_refundable_storage_fee: 0,
        }
    }

    pub fn summary(&self) -> (s: GasCostSummary)
        requires
            self.wf(),
        ensures
            s == self.spec_summary(),
    {
        GasCostSummary {
            computation_cost: self.init_budget - self.gas_left - self.storage_gas_units,
            storage_cost: self.storage_gas_units,
            storage_rebate: self.storage_rebate,
            non_refundable_storage_fee: 0,
        }
    }
}

/// Whether `deduct_amount` can be taken from the gas coin `object` and
/// `rebate_amount` be added to it.
pub open spec fn can_deduct_gas(object: crate::object::ObjectView, deduct_amount: u64, rebate_amount: u64) -> bool {
    &&& is_gas_coin_object(object)
    &&& balance_of(object) >= deduct_amount
    &&& balance_of(object) - deduct_amount + rebate_amount <= u64::MAX
}

/// Takes `deduct_amount` from the gas coin `gas_object` and adds `rebate_amount` to it.
pub fn deduct_gas(gas_object: &mut Object, deduct_amount: u64, rebate_amount: u64)
    requires
        can_deduct_gas(old(gas_object)@, deduct_amount, rebate_amount),
    ensures
        final(gas_object)@ == with_balance(
            old(gas_object)@,
            (balance_of(old(gas_object)@) - deduct_amount + rebate_amount) as u64,
        ),
{
    match &mut gas_object.data {
        Data::Move(m) => {
            match Coin::from_bcs_bytes(m.contents.as_slice()) {
                Ok(coin) => {
                    let new_coin = Coin::new(coin.id, coin.balance - deduct_amount + rebate_amount);
                    match new_coin.to_bcs_bytes() {
                        Ok(bytes) => {
                            m.update_coin_contents(bytes);
                        },
                        Err(_) => {},
                    }
                },
                Err(_) => {},
            }
        },
        Data::Package(_) => {},
    }
}

} // verus!
