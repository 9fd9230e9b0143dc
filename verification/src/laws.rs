//! Laws of the store: what holds whatever the transaction does.

use crate::base_types::{
    EpochId, ObjectDigest, ObjectID, ObjectRef, SuiAddress, TransactionDigest,
    TransactionEventsDigest,
};
use crate::coin::{balance_of, is_gas_coin_object, lemma_with_balance};
use crate::effects::ExecutionStatus;
use crate::event::TransactionEvents;
use crate::gas::GasCostSummary;
use crate::gas_model::{is_gas_id, is_merged};
use crate::id_map::sorted_ids;
use crate::messages::{InputView, ProtocolConfig};
use crate::model::StoreView;
use crate::object::Object;
use crate::storage::{DeleteKind, ObjectChangeView, WriteKind};
use crate::store::initial_store;
use vstd::prelude::*;

verus! {

impl StoreView {
    /// Whether no change of `changes` writes what was deleted or deletes
    /// what was written, when its turn comes.
    pub open spec fn respects_order(self, changes: Seq<(ObjectID, ObjectChangeView)>) -> bool
        decreases changes.len(),
    {
        if changes.len() == 0 {
            true
        } else {
            let before = self.apply_changes(changes.drop_last());
            &&& self.respects_order(changes.drop_last())
            &&& match changes.last().1 {
                ObjectChangeView::Write(_, object, _) => !before.deleted.contains_key(object.id()),
                ObjectChangeView::Delete(_, _, _) => !before.written.contains_key(changes.last().0),
            }
        }
    }
}

/// Disjointness: after any sequence of writes and deletions of which none
/// writes what was deleted nor deletes what was written, no object is both
/// written and deleted.
pub proof fn law_disjointness(store: StoreView, changes: Seq<(ObjectID, ObjectChangeView)>)
    requires
        store.disjoint(),
        store.respects_order(changes),
    ensures
        store.apply_changes(changes).disjoint(),
    decreases changes.len(),
{
    if changes.len() > 0 {
        law_disjointness(store, changes.drop_last());
        let before = store.apply_changes(changes.drop_last());
        let after = store.apply_changes(changes);
        assert forall|id: ObjectID| !(after.written.contains_key(id) && after.deleted.contains_key(
            id,
        )) by {
            assert(!(before.written.contains_key(id) && before.deleted.contains_key(id)));
        }
    }
}

/// Input coverage, first half: once the untouched mutable inputs were
/// written, every mutable input is written or deleted.
pub proof fn law_inputs_mutated(store: StoreView, sender: SuiAddress)
    ensures
        store.ensure_active_inputs_mutated(sender).inputs_accounted_for(),
{
    let after = store.ensure_active_inputs_mutated(sender);
    assert forall|i: int| 0 <= i < after.mutable_input_refs.len() implies after.written.contains_key(
        (#[trigger] after.mutable_input_refs[i]).0,
    ) || after.deleted.contains_key(after.mutable_input_refs[i].0) by {
        let id = store.mutable_input_refs[i].0;
        assert(is_gas_id(store.mutable_input_refs, 0, store.mutable_input_refs.len() as int, id));
    }
}

/// Input coverage, second half: when gas was charged, every mutable input
/// is written or deleted.
pub proof fn law_charged_inputs_accounted_for(
    store: StoreView,
    meter: crate::gas::SuiGasStatus,
    execution_failed: bool,
    sender: SuiAddress,
    gas_object_id: ObjectID,
    gas: Seq<ObjectRef>,
)
    requires
        store.can_charge_gas(meter, execution_failed, sender, gas_object_id, gas),
    ensures
        store.charge_gas(meter, execution_failed, sender, gas_object_id, gas).0.inputs_accounted_for(),
{
    reveal(StoreView::charge_gas_for_storage_changes);
    let (store0, meter0) = if execution_failed {
        (store.reset(sender, gas), meter.after_reset())
    } else {
        (store, meter)
    };
    lemma_storage_charge_accounts(store0, meter0, sender, gas_object_id);
    let (store1, meter1, result1) = store0.charge_storage_and_computation(
        meter0,
        sender,
        gas_object_id,
    );
    assert(store1.inputs_accounted_for() && store1.mutable_input_refs == store.mutable_input_refs) by {
        lemma_reset_keeps_inputs(store, sender, gas);
    }
    let charged = store.charged(meter, execution_failed, sender, gas_object_id, gas);
    if result1 is Err {
        let again = store1.reset(sender, gas);
        lemma_reset_keeps_inputs(store1, sender, gas);
        lemma_storage_charge_accounts(again, meter1.after_reset(), sender, gas_object_id);
    }
    assert(charged.0.inputs_accounted_for());
    let after = charged.0.paid(charged.1, sender, gas_object_id);
    assert forall|i: int| 0 <= i < after.mutable_input_refs.len() implies after.written.contains_key(
        (#[trigger] after.mutable_input_refs[i]).0,
    ) || after.deleted.contains_key(after.mutable_input_refs[i].0) by {
        assert(charged.0.written.contains_key(charged.0.mutable_input_refs[i].0)
            || charged.0.deleted.contains_key(charged.0.mutable_input_refs[i].0));
    }
}

/// A reset leaves the inputs and the references to them as they are.
proof fn lemma_reset_keeps_inputs(store: StoreView, sender: SuiAddress, gas: Seq<ObjectRef>)
    ensures
        store.smash_gas(sender, gas) is Ok ==> store.smash_gas(sender, gas)->Ok_0.mutable_input_refs
            == store.mutable_input_refs,
        store.drop_writes().smash_gas(sender, gas) is Ok ==> store.reset(sender, gas).mutable_input_refs
            == store.mutable_input_refs,
{
    reveal(StoreView::smash_gas);
}

/// The store that a storage charge leaves has every mutable input written or deleted.
proof fn lemma_storage_charge_accounts(
    store: StoreView,
    meter: crate::gas::SuiGasStatus,
    sender: SuiAddress,
    gas_object_id: ObjectID,
)
    ensures
        store.charge_storage_and_computation(meter, sender, gas_object_id).0.inputs_accounted_for(),
        store.charge_storage_and_computation(meter, sender, gas_object_id).0.mutable_input_refs
            == store.mutable_input_refs,
{
    reveal(StoreView::charge_gas_for_storage_changes);
    let with_gas = if store.written.contains_key(gas_object_id) {
        store
    } else {
        store.write(
            crate::storage::SingleTxContextView::gas(sender),
            store.read(gas_object_id)->0,
            WriteKind::Mutate,
        )
    };
    law_inputs_mutated(with_gas, sender);
    let ready = store.prepared_for_charge(sender, gas_object_id);
    let after = store.charge_storage_and_computation(meter, sender, gas_object_id).0;
    assert forall|i: int| 0 <= i < after.mutable_input_refs.len() implies after.written.contains_key(
        (#[trigger] after.mutable_input_refs[i]).0,
    ) || after.deleted.contains_key(after.mutable_input_refs[i].0) by {
        assert(ready.written.contains_key(ready.mutable_input_refs[i].0)
            || ready.deleted.contains_key(ready.mutable_input_refs[i].0));
    }
}

/// Input coverage: where every mutable input was written or deleted, the
/// post-image holds every one of them among what was written or deleted.
pub proof fn law_input_coverage<F: Fn(&Object) -> ObjectDigest>(store: StoreView, f: &F)
    requires
        store.inputs_accounted_for(),
    ensures
        forall|i: int|
            0 <= i < store.into_inner(f).mutable_inputs.len() ==> store.into_inner(
                f,
            ).written.contains_key((#[trigger] store.into_inner(f).mutable_inputs[i]).0)
                || store.into_inner(f).deleted.contains_key(store.into_inner(f).mutable_inputs[i].0),
{
    let inner = store.into_inner(f);
    assert forall|i: int| 0 <= i < inner.mutable_inputs.len() implies inner.written.contains_key(
        (#[trigger] inner.mutable_inputs[i]).0,
    ) || inner.deleted.contains_key(inner.mutable_inputs[i].0) by {
        assert(store.written.contains_key(store.mutable_input_refs[i].0)
            || store.deleted.contains_key(store.mutable_input_refs[i].0));
    }
}

/// Version stamping: in the post-image every written object that is no
/// package, and every deleted object, is at the version of the transaction;
/// and the reference of a written object names the version of the object.
pub proof fn law_lamport_stamping<F: Fn(&Object) -> ObjectDigest>(store: StoreView, f: &F)
    ensures
        forall|id: ObjectID| #[trigger]
            store.into_inner(f).written.contains_key(id) ==> {
                let (object_ref, object, _kind) = store.into_inner(f).written[id];
                &&& (!object.is_package() ==> object.version == store.lamport_timestamp)
                &&& object_ref.1 == object.version
            },
        forall|id: ObjectID| #[trigger]
            store.into_inner(f).deleted.contains_key(id) ==> store.into_inner(f).deleted[id].0
                == store.lamport_timestamp,
{
}

/// Transaction stamping: in the post-image every written object names the
/// transaction of the store as the last that changed it.
pub proof fn law_tx_stamping<F: Fn(&Object) -> ObjectDigest>(store: StoreView, f: &F)
    requires
        store.inv(),
    ensures
        forall|id: ObjectID| #[trigger]
            store.into_inner(f).written.contains_key(id) ==> store.into_inner(
                f,
            ).written[id].1.previous_transaction == store.tx_digest,
{
    assert forall|id: ObjectID| #[trigger] store.into_inner(f).written.contains_key(id) implies store.into_inner(
        f,
    ).written[id].1.previous_transaction == store.tx_digest by {
        assert(store.written.contains_key(id));
        assert(store.written_ok(id));
    }
}

/// Dropping twice is dropping once.
pub proof fn law_drop_writes_idempotent(store: StoreView)
    ensures
        store.drop_writes().drop_writes() == store.drop_writes(),
{
}

/// A reset forgets what was staged: two stores that differ only in what is
/// staged are the same store after a reset, and so after the same changes
/// applied to both.
pub proof fn law_reset_forgets(
    a: StoreView,
    b: StoreView,
    sender: SuiAddress,
    gas: Seq<ObjectRef>,
    changes: Seq<(ObjectID, ObjectChangeView)>,
)
    requires
        a.drop_writes() == b.drop_writes(),
    ensures
        a.reset(sender, gas) == b.reset(sender, gas),
        a.reset(sender, gas).apply_changes(changes) == b.reset(sender, gas).apply_changes(changes),
{
}

/// A reset after a reset changes nothing.
pub proof fn law_reset_idempotent(store: StoreView, sender: SuiAddress, gas: Seq<ObjectRef>)
    requires
        store.can_reset(sender, gas),
    ensures
        store.reset(sender, gas).reset(sender, gas) == store.reset(sender, gas),
{
    reveal(StoreView::smash_gas);
    let once = store.reset(sender, gas);
    assert(once.drop_writes() == store.drop_writes());
}

/// Conservation: where the check passes on a transaction that touched no
/// dynamic field, what the mutable inputs held is what the written objects
/// hold, the charge for computation and the share of the rebates that stays
/// with the storage fund.
pub proof fn law_conservation<H: Fn(&Object) -> u64>(store: StoreView, h: &H)
    requires
        store.dynamic_fields_touched().len() == 0,
        store.check_sui_conserved(h) is Ok,
    ensures
        store.input_sui(h, store.mutable_input_refs) is Some,
        store.output_sui(h, sorted_ids(store.written.dom())) is Some,
        store.input_sui(h, store.mutable_input_refs)->0 == store.output_sui(
            h,
            sorted_ids(store.written.dom()),
        )->0 + (store.gas_charged->0).2.computation_cost + (
        store.gas_charged->0).2.spec_storage_fund_rebate_inflow(store.storage_rebate_rate),
{
}

/// Determinism: the same inputs under the same rules, the same changes and
/// the same arguments give the same post-image and the same effects.
pub proof fn law_determinism<
    F: Fn(&Object) -> ObjectDigest,
    G: Fn(&TransactionEvents) -> TransactionEventsDigest,
>(
    inputs: Seq<InputView>,
    tx_digest: TransactionDigest,
    protocol_config: ProtocolConfig,
    changes: Seq<(ObjectID, ObjectChangeView)>,
    other_inputs: Seq<InputView>,
    other_tx_digest: TransactionDigest,
    other_protocol_config: ProtocolConfig,
    other_changes: Seq<(ObjectID, ObjectChangeView)>,
    shared_object_refs: Seq<ObjectRef>,
    transaction_dependencies: Seq<TransactionDigest>,
    gas_cost_summary: GasCostSummary,
    status: ExecutionStatus,
    gas: Seq<ObjectRef>,
    epoch: EpochId,
    f: &F,
    g: &G,
)
    requires
        inputs == other_inputs,
        tx_digest == other_tx_digest,
        protocol_config == other_protocol_config,
        changes == other_changes,
    ensures
        ({
            let a = initial_store(inputs, tx_digest, protocol_config, f).apply_changes(changes);
            let b = initial_store(other_inputs, other_tx_digest, other_protocol_config, f).apply_changes(
                other_changes,
            );
            &&& a.into_inner(f) == b.into_inner(f)
            &&& a.to_effects(
                shared_object_refs,
                tx_digest,
                transaction_dependencies,
                gas_cost_summary,
                status,
                gas,
                epoch,
                f,
                g,
            ) == b.to_effects(
                shared_object_refs,
                other_tx_digest,
                transaction_dependencies,
                gas_cost_summary,
                status,
                gas,
                epoch,
                f,
                g,
            )
        }),
{
}

/// Atomicity of the storage charge: where a charge is not covered, the store
/// is left as it was made ready for the charge, and no rebate is touched.
pub proof fn law_storage_charge_atomic(
    store: StoreView,
    meter: crate::gas::SuiGasStatus,
    sender: SuiAddress,
    gas_object_id: ObjectID,
)
    requires
        store.inv(),
        store.can_charge_storage(sender, gas_object_id),
        store.charge_gas_for_storage_changes(meter, sender, gas_object_id).2 is Err,
    ensures
        store.charge_gas_for_storage_changes(meter, sender, gas_object_id).0
            == store.prepared_for_charge(sender, gas_object_id),
        forall|id: ObjectID| #[trigger]
            store.written.contains_key(id) ==> store.charge_gas_for_storage_changes(
                meter,
                sender,
                gas_object_id,
            ).0.written.contains_key(id) && store.charge_gas_for_storage_changes(
                meter,
                sender,
                gas_object_id,
            ).0.written[id] == store.written[id],
{
    reveal(StoreView::charge_gas_for_storage_changes);
    reveal(StoreView::can_charge_storage);
    if store.written.contains_key(gas_object_id) {
        assert(store.written_ok(gas_object_id));
    }
    assert(store.read(gas_object_id)->0.id() == gas_object_id);
}

/// The rebates in `rebates` of the objects `ids`, together.
pub open spec fn rebates_total(rebates: Map<ObjectID, u64>, ids: Seq<ObjectID>) -> int
    decreases ids.len(),
{
    if ids.len() == 0 {
        0
    } else {
        rebates_total(rebates, ids.drop_last()) + rebates[ids.last()]
    }
}

/// A rebate that is put on an object beyond `ids` leaves the rebates of `ids` as they are.
proof fn lemma_rebates_total_insert(rebates: Map<ObjectID, u64>, ids: Seq<ObjectID>, id: ObjectID, rebate: u64)
    requires
        !ids.contains(id),
    ensures
        rebates_total(rebates.insert(id, rebate), ids) == rebates_total(rebates, ids),
    decreases ids.len(),
{
    if ids.len() > 0 {
        assert(ids[ids.len() - 1] == ids.last());
        assert forall|k: int| 0 <= k < ids.drop_last().len() implies ids.drop_last()[k] != id by {
            assert(ids[k] == ids.drop_last()[k]);
        }
        lemma_rebates_total_insert(rebates, ids.drop_last(), id, rebate);
    }
}

/// The storage charge becomes rebate: what a metered transaction is charged
/// for the storage of the objects it wrote is what these objects carry as
/// rebates afterwards, and leaves the budget by the same amount.
pub proof fn law_storage_cost_is_rebates(
    store: StoreView,
    meter: crate::gas::SuiGasStatus,
    ids: Seq<ObjectID>,
)
    requires
        meter.wf(),
        meter.charge,
        crate::id_map::strictly_increasing(ids),
        store.charge_written(meter, ids).ok,
    ensures
        ({
            let charges = store.charge_written(meter, ids);
            &&& charges.meter.storage_gas_units == meter.storage_gas_units + rebates_total(
                charges.rebates,
                ids,
            )
            &&& charges.meter.gas_left == meter.gas_left - rebates_total(charges.rebates, ids)
        }),
    decreases ids.len(),
{
    if ids.len() > 0 {
        let init = ids.drop_last();
        let id = ids.last();
        let before = store.charge_written(meter, init);
        assert forall|i: int, j: int| 0 <= i < j < init.len() implies init[i].0 < init[j].0 by {
            assert(init[i] == ids[i] && init[j] == ids[j]);
        }
        law_storage_cost_is_rebates(store, meter, init);
        store.lemma_charge_written_shape(meter, init);
        if init.contains(id) {
            let k = choose|k: int| 0 <= k < init.len() && init[k] == id;
            assert(ids[k].0 < ids[ids.len() - 1].0);
        }
        let new_size = store.written[id].1.size_for_gas() as u64;
        lemma_rebates_total_insert(before.rebates, init, id, before.meter.storage_cost_of(new_size));
    }
}

/// The gas coin pays: after the charge its balance is what it was, less what
/// was charged, and the sender's share of the rebates more.
pub proof fn law_gas_coin_pays(
    store: StoreView,
    meter: crate::gas::SuiGasStatus,
    sender: SuiAddress,
    gas_object_id: ObjectID,
)
    requires
        store.inv(),
        store.can_pay(meter, sender, gas_object_id),
    ensures
        ({
            let summary = meter.spec_summary();
            let after = store.paid(meter, sender, gas_object_id);
            &&& after.written.contains_key(gas_object_id)
            &&& is_gas_coin_object(after.written[gas_object_id].1)
            &&& balance_of(after.written[gas_object_id].1) == balance_of(store.read(gas_object_id)->0)
                - summary.spec_gas_used() + summary.spec_sender_rebate(store.storage_rebate_rate)
            &&& after.gas_charged == Some((sender, gas_object_id, summary))
        }),
{
    let summary = meter.spec_summary();
    let coin = store.read(gas_object_id)->0;
    let balance = balance_of(coin) - summary.spec_gas_used() + summary.spec_sender_rebate(
        store.storage_rebate_rate,
    );
    summary.lemma_sender_rebate_bounds(store.storage_rebate_rate);
    lemma_with_balance(coin, balance as u64);
}

/// Monotonicity of versions: every object that leaves the store written or
/// deleted, packages aside, is at a version above that of every input.
pub proof fn law_versions_move_forward<F: Fn(&Object) -> ObjectDigest>(
    store: StoreView,
    f: &F,
    input: ObjectID,
    id: ObjectID,
)
    requires
        store.inv(),
        store.input_objects.contains_key(input),
    ensures
        store.into_inner(f).written.contains_key(id) && !store.into_inner(f).written[id].1.is_package()
            ==> store.input_objects[input].version.0 < store.into_inner(f).written[id].1.version.0,
        store.into_inner(f).deleted.contains_key(id) ==> store.input_objects[input].version.0
            < store.into_inner(f).deleted[id].0.0,
{
}

/// The balances of coins together are not negative.
proof fn lemma_gas_total_nonnegative(store: StoreView, gas: Seq<ObjectRef>)
    ensures
        0 <= store.gas_total(gas),
    decreases gas.len(),
{
    if gas.len() > 0 {
        lemma_gas_total_nonnegative(store, gas.drop_last());
    }
}

/// The identifiers of the coins merged into the first.
pub open spec fn merged_ids(gas: Seq<ObjectRef>) -> Set<ObjectID> {
    Set::new(|id: ObjectID| is_merged(gas, id))
}

/// The identifiers of `gas[1..n]` are `n - 1` where no coin occurs twice.
proof fn lemma_merged_count(gas: Seq<ObjectRef>, n: int)
    requires
        1 <= n <= gas.len(),
        forall|i: int, j: int| 0 <= i < j < gas.len() ==> (#[trigger] gas[i]).0 != (#[trigger] gas[j]).0,
    ensures
        Set::new(|id: ObjectID| is_gas_id(gas, 1, n, id)).finite(),
        Set::new(|id: ObjectID| is_gas_id(gas, 1, n, id)).len() == n - 1,
    decreases n,
{
    let now = Set::new(|id: ObjectID| is_gas_id(gas, 1, n, id));
    if n == 1 {
        assert(now =~= Set::<ObjectID>::empty());
    } else {
        lemma_merged_count(gas, n - 1);
        let before = Set::new(|id: ObjectID| is_gas_id(gas, 1, n - 1, id));
        let added = gas[n - 1].0;
        assert forall|id: ObjectID| now.contains(id) <==> before.insert(added).contains(id) by {
            crate::gas_model::lemma_is_gas_id_step(gas, 1, n - 1, id);
        }
        assert(now =~= before.insert(added));
        if before.contains(added) {
            let i = choose|i: int| 1 <= i < n - 1 && 0 <= i < gas.len() && (#[trigger] gas[i]).0 == added;
            assert(gas[i].0 != gas[n - 1].0);
        }
    }
}

/// Gas smashing conserves the balances: where several coins, none named
/// twice, are smashed, the first ends with the balances of all, and exactly
/// the others are deleted, one fewer than there are coins, each as it came in.
pub proof fn law_smash_gas(store: StoreView, sender: SuiAddress, gas: Seq<ObjectRef>)
    requires
        gas.len() > 1,
        forall|i: int, j: int| 0 <= i < j < gas.len() ==> (#[trigger] gas[i]).0 != (#[trigger] gas[j]).0,
        store.smash_gas(sender, gas) is Ok,
    ensures
        ({
            let after = store.smash_gas(sender, gas)->Ok_0;
            &&& after.written.contains_key(gas[0].0)
            &&& is_gas_coin_object(after.written[gas[0].0].1)
            &&& balance_of(after.written[gas[0].0].1) == store.gas_total(gas)
            &&& forall|id: ObjectID|
                id != gas[0].0 ==> after.written.contains_key(id) == store.written.contains_key(id) && (
                store.written.contains_key(id) ==> after.written[id] == store.written[id])
            &&& after.deleted.dom() == store.deleted.dom().union(merged_ids(gas))
            &&& merged_ids(gas).finite()
            &&& merged_ids(gas).len() == gas.len() - 1
            &&& !merged_ids(gas).contains(gas[0].0)
            &&& forall|id: ObjectID| #[trigger]
                merged_ids(gas).contains(id) ==> after.deleted[id] == (
                    crate::storage::SingleTxContextView::gas(sender),
                    store.input_objects[id].version,
                    DeleteKind::Normal,
                )
            &&& forall|id: ObjectID|
                store.deleted.contains_key(id) && !merged_ids(gas).contains(id) ==> after.deleted[id]
                    == store.deleted[id]
        }),
{
    reveal(StoreView::smash_gas);
    let after = store.smash_gas(sender, gas)->Ok_0;
    lemma_gas_total_nonnegative(store, gas);
    assert(store.all_gas_coins(gas));
    assert(is_gas_coin_object(store.input_objects[gas[0].0]));
    lemma_with_balance(store.input_objects[gas[0].0], store.gas_total(gas) as u64);
    lemma_merged_count(gas, gas.len() as int);
    assert(merged_ids(gas) =~= Set::new(|id: ObjectID| is_gas_id(gas, 1, gas.len() as int, id)));
    assert(after.deleted.dom() =~= store.deleted.dom().union(merged_ids(gas)));
    assert(is_gas_coin_object(after.written[gas[0].0].1));
    assert(balance_of(after.written[gas[0].0].1) == store.gas_total(gas));
    if merged_ids(gas).contains(gas[0].0) {
        let i = choose|i: int|
            1 <= i < gas.len() && 0 <= i < gas.len() && (#[trigger] gas[i]).0 == gas[0].0;
        assert(gas[0].0 != gas[i].0);
    }
}

/// A write that does not follow a deletion of the same object keeps the
/// written and the deleted objects apart, and leaves the deleted as they are.
pub proof fn law_write_keeps_disjoint(
    store: StoreView,
    ctx: crate::storage::SingleTxContextView,
    object: crate::object::ObjectView,
    kind: WriteKind,
)
    requires
        store.disjoint(),
        !store.deleted.contains_key(object.id()),
    ensures
        store.write(ctx, object, kind).disjoint(),
        store.write(ctx, object, kind).deleted == store.deleted,
        store.write(ctx, object, kind).events == store.events,
        store.write(ctx, object, kind).written.contains_key(object.id()),
        store.write(ctx, object, kind).written[object.id()].1.previous_transaction == store.tx_digest,
{
    let after = store.write(ctx, object, kind);
    assert forall|id: ObjectID| !(after.written.contains_key(id) && after.deleted.contains_key(
        id,
    )) by {
        assert(!(store.written.contains_key(id) && store.deleted.contains_key(id)));
    }
}

/// A deletion that does not follow a write of the same object keeps the
/// written and the deleted objects apart, leaves the written as they are,
/// and records the version that the object was deleted at.
pub proof fn law_delete_keeps_disjoint(
    store: StoreView,
    ctx: crate::storage::SingleTxContextView,
    id: ObjectID,
    version: crate::base_types::SequenceNumber,
    kind: DeleteKind,
)
    requires
        store.disjoint(),
        !store.written.contains_key(id),
    ensures
        store.delete(ctx, id, version, kind).disjoint(),
        store.delete(ctx, id, version, kind).written == store.written,
        store.delete(ctx, id, version, kind).events == store.events,
        store.delete(ctx, id, version, kind).deleted[id] == (ctx, version, kind),
        forall|other: ObjectID|
            other != id ==> store.delete(ctx, id, version, kind).deleted.contains_key(other)
                == store.deleted.contains_key(other) && (store.deleted.contains_key(other)
                ==> store.delete(ctx, id, version, kind).deleted[other] == store.deleted[other]),
{
    let after = store.delete(ctx, id, version, kind);
    assert forall|x: ObjectID| !(after.written.contains_key(x) && after.deleted.contains_key(x)) by {
        assert(!(store.written.contains_key(x) && store.deleted.contains_key(x)));
    }
}

/// The versions before: over identifiers that strictly increase, the list
/// of the versions at which objects were mutated or deleted is in
/// increasing order of identifier, and names no object beyond them.
pub proof fn law_modified_ascending(store: StoreView, ids: Seq<ObjectID>)
    requires
        crate::id_map::strictly_increasing(ids),
    ensures
        crate::effects::ascending_by_id(store.modified_among(ids)),
        forall|k: int|
            0 <= k < store.modified_among(ids).len() ==> ids.len() > 0 && (
            #[trigger] store.modified_among(ids)[k]).0.0 <= ids.last().0,
        forall|k: int|
            0 <= k < store.modified_among(ids).len() ==> store.modified_entry(
                (#[trigger] store.modified_among(ids)[k]).0,
            ) == Some(store.modified_among(ids)[k]),
    decreases ids.len(),
{
    if ids.len() > 0 {
        let init = ids.drop_last();
        assert forall|i: int, j: int| 0 <= i < j < init.len() implies init[i].0 < init[j].0 by {
            assert(init[i] == ids[i] && init[j] == ids[j]);
        }
        law_modified_ascending(store, init);
        if init.len() > 0 {
            assert(init.last() == ids[ids.len() - 2]);
            assert(ids[ids.len() - 2].0 < ids[ids.len() - 1].0);
        }
    }
}

/// Running out of gas while storage is charged: the error of the first
/// charge that was not covered is what a successful result becomes, and no
/// other charge leaves an error; what was logged before is dropped; and in
/// any case the gas coin is written as mutated and what was charged is the
/// summary of the meter as charging leaves it.
pub proof fn law_out_of_gas(
    store: StoreView,
    meter: crate::gas::SuiGasStatus,
    execution_failed: bool,
    sender: SuiAddress,
    gas_object_id: ObjectID,
    gas: Seq<ObjectRef>,
)
    requires
        store.can_charge_gas(meter, execution_failed, sender, gas_object_id, gas),
    ensures
        ({
            let (store0, meter0) = if execution_failed {
                (store.reset(sender, gas), meter.after_reset())
            } else {
                (store, meter)
            };
            let first = store0.charge_storage_and_computation(meter0, sender, gas_object_id).2;
            let (after, meter_after) = store.charge_gas(
                meter,
                execution_failed,
                sender,
                gas_object_id,
                gas,
            );
            let error = store.charge_gas_error(meter, execution_failed, sender, gas_object_id, gas);
            &&& first is Err ==> error == Some(first->Err_0)
            &&& first is Ok ==> error is None
            &&& first is Err ==> after.events == Seq::<crate::event::EventView>::empty()
            &&& after.gas_charged == Some((sender, gas_object_id, meter_after.spec_summary()))
            &&& after.written.contains_key(gas_object_id)
            &&& after.written[gas_object_id].2 is Mutate
        }),
{
    reveal(StoreView::charge_gas_for_storage_changes);
    reveal(StoreView::smash_gas);
    let charged = store.charged(meter, execution_failed, sender, gas_object_id, gas);
    let coin = charged.0.read(gas_object_id)->0;
    let summary = charged.1.spec_summary();
    let balance = balance_of(coin) - summary.spec_gas_used() + summary.spec_sender_rebate(
        charged.0.storage_rebate_rate,
    );
    lemma_with_balance(coin, balance as u64);
}

} // verus!
