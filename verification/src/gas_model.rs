//! What charging gas does to the store, as mathematics.

use crate::base_types::{ObjectID, ObjectRef, SuiAddress};
use crate::coin::{balance_of, is_gas_coin_object, with_balance};
use crate::error::{ExecutionError, ExecutionErrorKind};
use crate::gas::{can_deduct_gas, SuiGasStatus};
use crate::id_map::sorted_ids;
use crate::model::{stamped_by, DeletedView, StoreView, WrittenView};
use crate::object::{capped_sum, ObjectView};
use crate::storage::{DeleteKind, SingleTxContextView, WriteKind};
use vstd::prelude::*;

verus! {

/// Whether `id` is one of the coins `gas[from..to]`.
pub open spec fn is_gas_id(gas: Seq<ObjectRef>, from: int, to: int, id: ObjectID) -> bool {
    exists|i: int| from <= i < to && 0 <= i < gas.len() && (#[trigger] gas[i]).0 == id
}

/// Looking at one more coin finds that coin or what was found before.
pub proof fn lemma_is_gas_id_step(gas: Seq<ObjectRef>, from: int, n: int, id: ObjectID)
    requires
        0 <= from <= n < gas.len(),
    ensures
        is_gas_id(gas, from, n + 1, id) <==> is_gas_id(gas, from, n, id) || gas[n].0 == id,
{
    if is_gas_id(gas, from, n + 1, id) {
        let i = choose|i: int| from <= i < n + 1 && 0 <= i < gas.len() && (#[trigger] gas[i]).0 == id;
        if i < n {
            assert(is_gas_id(gas, from, n, id));
        }
    }
    if is_gas_id(gas, from, n, id) {
        let i = choose|i: int| from <= i < n && 0 <= i < gas.len() && (#[trigger] gas[i]).0 == id;
        assert(from <= i < n + 1 && gas[i].0 == id);
    }
    if gas[n].0 == id {
        assert(from <= n < n + 1 && gas[n].0 == id);
    }
}

/// Whether `id` is one of the coins merged into the first: `gas[1..]`.
pub open spec fn is_merged(gas: Seq<ObjectRef>, id: ObjectID) -> bool {
    is_gas_id(gas, 1, gas.len() as int, id)
}

/// What charging for storage came to.
pub struct StorageCharges {
    /// The meter after the charges made.
    pub meter: SuiGasStatus,
    /// Whether every charge was covered.
    pub ok: bool,
    /// The rebate that each written object carries from now on.
    pub rebates: Map<ObjectID, u64>,
    /// The bytes written and deleted, old and new sizes together.
    pub bytes: int,
}

impl StoreView {
    /// The entry that an input gets when the engine bumps it untouched.
    pub open spec fn bumped_input(self, sender: SuiAddress, id: ObjectID) -> WrittenView {
        (
            SingleTxContextView::unused_input(sender),
            stamped_by(self.input_objects[id], self.tx_digest),
            WriteKind::Mutate,
        )
    }

    /// The writes after the first `n` mutable inputs were looked at: each
    /// that was neither written nor deleted is written as it came in.
    pub open spec fn written_with_inputs(self, sender: SuiAddress, n: int) -> Map<ObjectID, WrittenView> {
        Map::new(
            |id: ObjectID|
                self.written.contains_key(id) || (is_gas_id(self.mutable_input_refs, 0, n, id)
                    && !self.deleted.contains_key(id)),
            |id: ObjectID|
                if self.written.contains_key(id) {
                    self.written[id]
                } else {
                    self.bumped_input(sender, id)
                },
        )
    }

    /// The store after every mutable input that the transaction left
    /// untouched was written as it came in.
    pub open spec fn ensure_active_inputs_mutated(self, sender: SuiAddress) -> StoreView {
        StoreView {
            written: self.written_with_inputs(sender, self.mutable_input_refs.len() as int),
            ..self
        }
    }

    /// Whether every one of `gas` is an input and a readable coin of the native currency.
    pub open spec fn all_gas_coins(self, gas: Seq<ObjectRef>) -> bool {
        forall|i: int|
            0 <= i < gas.len() ==> is_gas_coin_object(self.input_objects[(#[trigger] gas[i]).0])
    }

    /// The balances of `gas` together.
    pub open spec fn gas_total(self, gas: Seq<ObjectRef>) -> int
        decreases gas.len(),
    {
        if gas.len() == 0 {
            0
        } else {
            self.gas_total(gas.drop_last()) + balance_of(self.input_objects[gas.last().0])
        }
    }

    /// Whether smashing the coins `gas`, were it to succeed, would keep the
    /// store sound: none of them is frozen, none occurs twice, none but the
    /// first was written, and the first was not deleted nor frozen by a write.
    pub open spec fn smash_is_sound(self, gas: Seq<ObjectRef>) -> bool {
        &&& forall|i: int|
            0 <= i < gas.len() ==> !self.input_objects[(#[trigger] gas[i]).0].is_immutable()
        &&& forall|i: int, j: int|
            0 <= i < j < gas.len() ==> (#[trigger] gas[i]).0 != (#[trigger] gas[j]).0
        &&& forall|i: int| 1 <= i < gas.len() ==> !self.written.contains_key((#[trigger] gas[i]).0)
        &&& !self.deleted.contains_key(gas[0].0)
        &&& (self.written.contains_key(gas[0].0) ==> !self.written[gas[0].0].1.is_immutable())
    }

    /// Whether the coins `gas` can be smashed in this store: there is one at
    /// least; where there are several, each is an input; and where all of
    /// them are readable coins of the native currency whose balances
    /// together are a balance, so that smashing succeeds, it keeps the store
    /// sound. Coins that are not what they should be are for smashing to refuse.
    #[verifier::opaque]
    pub open spec fn can_smash(self, gas: Seq<ObjectRef>) -> bool {
        &&& gas.len() >= 1
        &&& gas.len() > 1 ==> {
            &&& forall|i: int|
                0 <= i < gas.len() ==> self.input_objects.contains_key((#[trigger] gas[i]).0)
            &&& (self.all_gas_coins(gas) && self.gas_total(gas) <= u64::MAX ==> self.smash_is_sound(
                gas,
            ))
        }
    }

    /// The deletions after the coins `gas[1..n]` were merged into the first.
    pub open spec fn deleted_with_merged(self, sender: SuiAddress, gas: Seq<ObjectRef>, n: int) -> Map<
        ObjectID,
        DeletedView,
    > {
        Map::new(
            |id: ObjectID| self.deleted.contains_key(id) || is_gas_id(gas, 1, n, id),
            |id: ObjectID|
                if is_gas_id(gas, 1, n, id) {
                    (
                        SingleTxContextView::gas(sender),
                        self.input_objects[id].version,
                        DeleteKind::Normal,
                    )
                } else {
                    self.deleted[id]
                },
        )
    }

    /// The store after several coins were smashed into the first: the first
    /// holds the balances of all, the others are deleted.
    pub open spec fn smashed(self, sender: SuiAddress, gas: Seq<ObjectRef>) -> StoreView {
        StoreView {
            written: self.written.insert(
                gas[0].0,
                (
                    SingleTxContextView::gas(sender),
                    stamped_by(
                        with_balance(self.input_objects[gas[0].0], self.gas_total(gas) as u64),
                        self.tx_digest,
                    ),
                    WriteKind::Mutate,
                ),
            ),
            deleted: self.deleted_with_merged(sender, gas, gas.len() as int),
            ..self
        }
    }

    /// What smashing the coins `gas` gives: the store unchanged for a single
    /// coin; an error, and nothing changed, where one is no readable coin of
    /// the native currency or the balances together leave the range of a
    /// balance; else the store with the coins smashed.
    #[verifier::opaque]
    pub open spec fn smash_gas(self, sender: SuiAddress, gas: Seq<ObjectRef>) -> Result<
        StoreView,
        ExecutionError,
    > {
        if gas.len() <= 1 {
            Ok(self)
        } else if !self.all_gas_coins(gas) {
            Err(ExecutionError { kind: ExecutionErrorKind::InvariantViolation })
        } else if self.gas_total(gas) > u64::MAX {
            Err(ExecutionError { kind: ExecutionErrorKind::CoinBalanceOverflow })
        } else {
            Ok(self.smashed(sender, gas))
        }
    }

    /// Whether the store can be reset: with everything staged dropped, the
    /// coins `gas` can be smashed, and smashing them succeeds.
    pub open spec fn can_reset(self, sender: SuiAddress, gas: Seq<ObjectRef>) -> bool {
        self.drop_writes().can_smash(gas) && self.drop_writes().smash_gas(sender, gas) is Ok
    }

    /// The store after a reset: everything staged dropped, the coins smashed again.
    pub open spec fn reset(self, sender: SuiAddress, gas: Seq<ObjectRef>) -> StoreView {
        self.drop_writes().smash_gas(sender, gas)->Ok_0
    }

    /// The size and the rebate that object `id` came in with; nothing for
    /// an object that is no input.
    pub open spec fn prior_size(self, id: ObjectID) -> int {
        if self.input_objects.contains_key(id) {
            self.input_objects[id].size_for_gas()
        } else {
            0
        }
    }

    pub open spec fn prior_rebate(self, id: ObjectID) -> u64 {
        if self.input_objects.contains_key(id) {
            self.input_objects[id].storage_rebate
        } else {
            0
        }
    }

    /// Charging the storage of the written objects `ids`, one after the
    /// other, from `meter`; the first charge that is not covered ends it.
    pub open spec fn charge_written(self, meter: SuiGasStatus, ids: Seq<ObjectID>) -> StorageCharges
        decreases ids.len(),
    {
        if ids.len() == 0 {
            StorageCharges { meter, ok: true, rebates: Map::empty(), bytes: 0 }
        } else {
            let before = self.charge_written(meter, ids.drop_last());
            let id = ids.last();
            let new_size = self.written[id].1.size_for_gas() as u64;
            if !before.ok || !before.meter.can_store(new_size) {
                StorageCharges { ok: false, ..before }
            } else {
                StorageCharges {
                    meter: before.meter.after_storage_mutation(new_size, self.prior_rebate(id)),
                    ok: true,
                    rebates: before.rebates.insert(id, before.meter.storage_cost_of(new_size)),
                    bytes: capped_sum(before.bytes, capped_sum(self.prior_size(id), new_size as int)),
                }
            }
        }
    }

    /// Charging the freed storage of the deleted objects `ids` that came in
    /// as inputs, one after the other, on top of the charges `start`.
    pub open spec fn charge_deleted(self, start: StorageCharges, ids: Seq<ObjectID>) -> StorageCharges
        decreases ids.len(),
    {
        if ids.len() == 0 {
            start
        } else {
            let before = self.charge_deleted(start, ids.drop_last());
            let id = ids.last();
            if !before.ok || !self.input_objects.contains_key(id) {
                before
            } else if !before.meter.can_store(0) {
                StorageCharges { ok: false, ..before }
            } else {
                StorageCharges {
                    meter: before.meter.after_storage_mutation(0, self.prior_rebate(id)),
                    bytes: capped_sum(before.bytes, self.prior_size(id)),
                    ..before
                }
            }
        }
    }

    /// Once a charge was not covered, nothing more is charged for written objects.
    pub proof fn lemma_charge_written_sticky(self, meter: SuiGasStatus, ids: Seq<ObjectID>, n: int)
        requires
            0 <= n <= ids.len(),
            !self.charge_written(meter, ids.take(n)).ok,
        ensures
            self.charge_written(meter, ids) == self.charge_written(meter, ids.take(n)),
        decreases ids.len(),
    {
        if n == ids.len() {
            assert(ids.take(n) =~= ids);
        } else {
            assert(ids.drop_last().take(n) =~= ids.take(n));
            self.lemma_charge_written_sticky(meter, ids.drop_last(), n);
        }
    }

    /// Once a charge was not covered, nothing more is charged for deleted objects.
    pub proof fn lemma_charge_deleted_sticky(self, start: StorageCharges, ids: Seq<ObjectID>, n: int)
        requires
            0 <= n <= ids.len(),
            !self.charge_deleted(start, ids.take(n)).ok,
        ensures
            self.charge_deleted(start, ids) == self.charge_deleted(start, ids.take(n)),
        decreases ids.len(),
    {
        if n == ids.len() {
            assert(ids.take(n) =~= ids);
        } else {
            assert(ids.drop_last().take(n) =~= ids.take(n));
            self.lemma_charge_deleted_sticky(start, ids.drop_last(), n);
        }
    }

    /// What the charges for written objects look like while all are covered.
    pub proof fn lemma_charge_written_shape(self, meter: SuiGasStatus, ids: Seq<ObjectID>)
        requires
            meter.wf(),
        ensures
            self.charge_written(meter, ids).meter.wf(),
            0 <= self.charge_written(meter, ids).bytes <= u64::MAX,
            self.charge_written(meter, ids).ok ==> forall|id: ObjectID|
                self.charge_written(meter, ids).rebates.contains_key(id) <==> ids.contains(id),
        decreases ids.len(),
    {
        if ids.len() > 0 {
            self.lemma_charge_written_shape(meter, ids.drop_last());
            let before = self.charge_written(meter, ids.drop_last());
            let after = self.charge_written(meter, ids);
            crate::object::lemma_size_for_gas_bounds(self.written[ids.last()].1);
            if self.input_objects.contains_key(ids.last()) {
                crate::object::lemma_size_for_gas_bounds(self.input_objects[ids.last()]);
            }
            if after.ok {
                assert forall|id: ObjectID| after.rebates.contains_key(id) <==> ids.contains(id) by {
                    if ids.contains(id) {
                        let k = choose|k: int| 0 <= k < ids.len() && ids[k] == id;
                        if k < ids.len() - 1 {
                            assert(ids.drop_last()[k] == id);
                        }
                    }
                    if ids.drop_last().contains(id) {
                        let k = choose|k: int| 0 <= k < ids.drop_last().len() && ids.drop_last()[k] == id;
                        assert(ids[k] == id);
                    }
                    assert(ids[ids.len() - 1] == ids.last());
                }
            }
        }
    }

    /// What the charges for deleted objects keep of the charges they start from.
    pub proof fn lemma_charge_deleted_shape(self, start: StorageCharges, ids: Seq<ObjectID>)
        requires
            start.meter.wf(),
            0 <= start.bytes <= u64::MAX,
        ensures
            self.charge_deleted(start, ids).meter.wf(),
            0 <= self.charge_deleted(start, ids).bytes <= u64::MAX,
            self.charge_deleted(start, ids).rebates == start.rebates,
            self.charge_deleted(start, ids).ok ==> start.ok,
        decreases ids.len(),
    {
        if ids.len() > 0 {
            self.lemma_charge_deleted_shape(start, ids.drop_last());
            if self.input_objects.contains_key(ids.last()) {
                crate::object::lemma_size_for_gas_bounds(self.input_objects[ids.last()]);
            }
        }
    }

    /// The store with the rebate of every written object replaced by the one in `rebates`.
    pub open spec fn with_rebates(self, rebates: Map<ObjectID, u64>) -> StoreView {
        StoreView {
            written: Map::new(
                |id: ObjectID| self.written.contains_key(id),
                |id: ObjectID|
                    (
                        self.written[id].0,
                        ObjectView { storage_rebate: rebates[id], ..self.written[id].1 },
                        self.written[id].2,
                    ),
            ),
            ..self
        }
    }

    /// Whether storage can be charged with `gas_object_id` as the gas coin:
    /// the coin can be read, and can be written where it was not written yet.
    #[verifier::opaque]
    pub open spec fn can_charge_storage(self, sender: SuiAddress, gas_object_id: ObjectID) -> bool {
        &&& !self.deleted.contains_key(gas_object_id)
        &&& self.read(gas_object_id) is Some
        &&& (!self.written.contains_key(gas_object_id) ==> self.can_write(
            SingleTxContextView::gas(sender),
            self.read(gas_object_id)->0,
            WriteKind::Mutate,
        ))
    }

    /// The store made ready for the storage charge: the gas coin is written
    /// if it was not, and so is every mutable input left untouched.
    pub open spec fn prepared_for_charge(self, sender: SuiAddress, gas_object_id: ObjectID) -> StoreView {
        let with_gas = if self.written.contains_key(gas_object_id) {
            self
        } else {
            self.write(
                SingleTxContextView::gas(sender),
                self.read(gas_object_id)->0,
                WriteKind::Mutate,
            )
        };
        with_gas.ensure_active_inputs_mutated(sender)
    }

    /// All storage charges of the prepared store: the written objects, then the deleted ones.
    pub open spec fn storage_charges(self, meter: SuiGasStatus) -> StorageCharges {
        self.charge_deleted(
            self.charge_written(meter, sorted_ids(self.written.dom())),
            sorted_ids(self.deleted.dom()),
        )
    }

    /// What charging for storage gives: the store, the meter and the result.
    /// Where a charge is not covered, the store is left as it was made ready
    /// and no rebate is touched.
    #[verifier::opaque]
    pub open spec fn charge_gas_for_storage_changes(
        self,
        meter: SuiGasStatus,
        sender: SuiAddress,
        gas_object_id: ObjectID,
    ) -> (StoreView, SuiGasStatus, Result<u64, ExecutionError>) {
        let ready = self.prepared_for_charge(sender, gas_object_id);
        let charges = ready.storage_charges(meter);
        if charges.ok {
            (ready.with_rebates(charges.rebates), charges.meter, Ok(charges.bytes as u64))
        } else {
            (
                ready,
                charges.meter,
                Err(ExecutionError { kind: ExecutionErrorKind::InsufficientGas }),
            )
        }
    }

    /// Charging for storage and then for the computation of the mutation.
    pub open spec fn charge_storage_and_computation(
        self,
        meter: SuiGasStatus,
        sender: SuiAddress,
        gas_object_id: ObjectID,
    ) -> (StoreView, SuiGasStatus, Result<(), ExecutionError>) {
        let (store, meter1, result) = self.charge_gas_for_storage_changes(meter, sender, gas_object_id);
        match result {
            Ok(bytes) => if meter1.can_mutate(bytes) {
                (store, meter1.after_computation(bytes), Ok(()))
            } else {
                (store, meter1, Err(ExecutionError { kind: ExecutionErrorKind::InsufficientGas }))
            },
            Err(e) => (store, meter1, Err(e)),
        }
    }

    /// The store and the meter after the charging phases, before the gas coin
    /// pays: a reset first where execution failed; then the charge, and where
    /// that is not covered a reset and the charge once more. The third part
    /// is the error of the first charge, if it failed.
    pub open spec fn charged(
        self,
        meter: SuiGasStatus,
        execution_failed: bool,
        sender: SuiAddress,
        gas_object_id: ObjectID,
        gas: Seq<ObjectRef>,
    ) -> (StoreView, SuiGasStatus, Option<ExecutionError>) {
        let (store0, meter0) = if execution_failed {
            (self.reset(sender, gas), meter.after_reset())
        } else {
            (self, meter)
        };
        let (store1, meter1, result1) = store0.charge_storage_and_computation(
            meter0,
            sender,
            gas_object_id,
        );
        match result1 {
            Ok(_) => (store1, meter1, None),
            Err(e) => {
                let (store2, meter2, _result2) = store1.reset(sender, gas).charge_storage_and_computation(
                    meter1.after_reset(),
                    sender,
                    gas_object_id,
                );
                (store2, meter2, Some(e))
            },
        }
    }

    /// The store after the gas coin paid what `meter` charged and got the
    /// sender's share of the rebate.
    pub open spec fn paid(self, meter: SuiGasStatus, sender: SuiAddress, gas_object_id: ObjectID) -> StoreView {
        let summary = meter.spec_summary();
        let coin = self.read(gas_object_id)->0;
        let balance = balance_of(coin) - summary.spec_gas_used() + summary.spec_sender_rebate(
            self.storage_rebate_rate,
        );
        let ctx = if self.written.contains_key(gas_object_id) {
            self.written[gas_object_id].0
        } else {
            SingleTxContextView::gas(sender)
        };
        StoreView {
            gas_charged: Some((sender, gas_object_id, summary)),
            ..self.write(ctx, with_balance(coin, balance as u64), WriteKind::Mutate)
        }
    }

    /// Whether the gas coin can pay in this store: it is an input, it can be
    /// read as a coin of the native currency, it covers what was charged, and
    /// the rebate does not push it out of the range of a balance.
    pub open spec fn can_pay(self, meter: SuiGasStatus, sender: SuiAddress, gas_object_id: ObjectID) -> bool {
        let summary = meter.spec_summary();
        &&& self.input_objects.contains_key(gas_object_id)
        &&& self.input_objects[gas_object_id].data is Move
        &&& !self.deleted.contains_key(gas_object_id)
        &&& self.read(gas_object_id) is Some
        &&& !self.read(gas_object_id)->0.is_immutable()
        &&& self.read(gas_object_id)->0.id() == gas_object_id
        &&& summary.spec_gas_used() <= u64::MAX
        &&& summary.spec_sender_rebate(self.storage_rebate_rate) <= u64::MAX
        &&& can_deduct_gas(
            self.read(gas_object_id)->0,
            summary.spec_gas_used() as u64,
            summary.spec_sender_rebate(self.storage_rebate_rate) as u64,
        )
    }

    /// Whether gas can be charged: the meter is sound, and each step on the
    /// way finds what it needs.
    pub open spec fn can_charge_gas(
        self,
        meter: SuiGasStatus,
        execution_failed: bool,
        sender: SuiAddress,
        gas_object_id: ObjectID,
        gas: Seq<ObjectRef>,
    ) -> bool {
        let (store0, meter0) = if execution_failed {
            (self.reset(sender, gas), meter.after_reset())
        } else {
            (self, meter)
        };
        let (store1, meter1, result1) = store0.charge_storage_and_computation(
            meter0,
            sender,
            gas_object_id,
        );
        let (store2, meter2, error) = self.charged(meter, execution_failed, sender, gas_object_id, gas);
        &&& meter.wf()
        &&& execution_failed ==> self.can_reset(sender, gas)
        &&& store0.can_charge_storage(sender, gas_object_id)
        &&& result1 is Err ==> store1.can_reset(sender, gas) && store1.reset(
            sender,
            gas,
        ).can_charge_storage(sender, gas_object_id)
        &&& store2.can_pay(meter2, sender, gas_object_id)
    }

    /// What charging gas gives: the store and the meter.
    pub open spec fn charge_gas(
        self,
        meter: SuiGasStatus,
        execution_failed: bool,
        sender: SuiAddress,
        gas_object_id: ObjectID,
        gas: Seq<ObjectRef>,
    ) -> (StoreView, SuiGasStatus) {
        let (store, meter1, _error) = self.charged(meter, execution_failed, sender, gas_object_id, gas);
        (store.paid(meter1, sender, gas_object_id), meter1)
    }

    /// The error that charging gas leaves in place of a successful result, if any.
    pub open spec fn charge_gas_error(
        self,
        meter: SuiGasStatus,
        execution_failed: bool,
        sender: SuiAddress,
        gas_object_id: ObjectID,
        gas: Seq<ObjectRef>,
    ) -> Option<ExecutionError> {
        self.charged(meter, execution_failed, sender, gas_object_id, gas).2
    }
}

} // verus!
