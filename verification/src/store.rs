//! The store of one transaction: a snapshot of the inputs and, staged on top
//! of it, what the transaction wrote, deleted and logged.

use crate::base_types::{
    EpochId, ObjectDigest, ObjectID, ObjectRef, ProtocolVersion, SequenceNumber, SuiAddress,
    TransactionDigest, TransactionEventsDigest,
};
use crate::coin::{balance_of, is_gas_coin_object, with_balance, Coin};
use crate::conservation::is_sui_fn;
use crate::effects::{
    ascending_by_id, effects_size_upperbound, is_events_digest_fn, lemma_events_digest_of_view,
    ExecutionStatus, TransactionEffects,
};
use crate::error::{ExecutionError, ExecutionErrorKind, SuiError};
use crate::event::{events_view, BalanceChangeType, Event, EventView, TransactionEvents};
use crate::finalize::optional_view;
use crate::gas::{deduct_gas, GasCostSummary, SuiGasStatus, BASIS_POINTS};
use crate::gas_model::{is_gas_id, lemma_is_gas_id_step};
use crate::id_map::{sorted_ids, strictly_increasing, IdMap};
use crate::inner_store::{final_written_view, InnerTemporaryStore};
use crate::messages::{
    inputs_lamport_timestamp, inputs_mutable_refs, inputs_object_map, inputs_wf, objects_view,
    InputObjects, InputView, ProtocolConfig,
};
use crate::model::{DeletedView, GasCharged, StoreView, WrittenView, stamped_by};
use crate::object::{
    add_capped, copy_bytes, is_digest_fn, Data, MoveObjectType, Object, ObjectView, Owner,
};
use crate::resolver_model::{module_of, ModuleSource};
use crate::storage::{
    is_bytes_result, is_object_result, is_system_package, BackingPackageStore,
    ChildObjectResolver, DeleteKind, ObjectChange, ObjectChangeView, ParentSync, SingleTxContext,
    SingleTxContextView, WriteKind,
};
use vstd::prelude::*;

verus! {

/// The values of staged writes.
pub open spec fn written_view(written: Map<ObjectID, (SingleTxContext, Object, WriteKind)>) -> Map<
    ObjectID,
    WrittenView,
> {
    written.map_values(|e: (SingleTxContext, Object, WriteKind)| (e.0@, e.1@, e.2))
}

/// The values of staged deletions.
pub open spec fn deleted_view(
    deleted: Map<ObjectID, (SingleTxContext, SequenceNumber, DeleteKind)>,
) -> Map<ObjectID, DeletedView> {
    deleted.map_values(|e: (SingleTxContext, SequenceNumber, DeleteKind)| (e.0@, e.1, e.2))
}

/// The values of the changes of a list, each with the identifier it is filed under.
pub open spec fn changes_view(ids: Seq<ObjectID>, changes: Seq<ObjectChange>) -> Seq<
    (ObjectID, ObjectChangeView),
> {
    Seq::new(ids.len(), |i: int| (ids[i], changes[i]@))
}

/// The store as it is when a transaction starts.
pub open spec fn initial_store<F: Fn(&Object) -> ObjectDigest>(
    inputs: Seq<InputView>,
    tx_digest: TransactionDigest,
    protocol_config: ProtocolConfig,
    f: &F,
) -> StoreView {
    StoreView {
        tx_digest,
        input_objects: inputs_object_map(inputs),
        lamport_timestamp: inputs_lamport_timestamp(inputs),
        mutable_input_refs: inputs_mutable_refs(inputs, f),
        written: Map::empty(),
        deleted: Map::empty(),
        events: Seq::empty(),
        gas_charged: None,
        storage_rebate_rate: protocol_config.storage_rebate_rate,
        protocol_version: protocol_config.version,
    }
}

/// The store of one transaction, in front of the storage `S` that backs it.
pub struct TemporaryStore<S> {
    store: S,
    tx_digest: TransactionDigest,
    input_objects: IdMap<Object>,
    lamport_timestamp: SequenceNumber,
    mutable_input_refs: Vec<ObjectRef>,
    written: IdMap<(SingleTxContext, Object, WriteKind)>,
    deleted: IdMap<(SingleTxContext, SequenceNumber, DeleteKind)>,
    events: Vec<Event>,
    gas_charged: Option<GasCharged>,
    storage_rebate_rate: u64,
    protocol_version: ProtocolVersion,
}

impl<S> TemporaryStore<S> {
    /// The store as a mathematical value.
    pub closed spec fn view(&self) -> StoreView {
        StoreView {
            tx_digest: self.tx_digest,
            input_objects: objects_view(self.input_objects@),
            lamport_timestamp: self.lamport_timestamp,
            mutable_input_refs: self.mutable_input_refs@,
            written: written_view(self.written@),
            deleted: deleted_view(self.deleted@),
            events: events_view(self.events@),
            gas_charged: self.gas_charged,
            storage_rebate_rate: self.storage_rebate_rate,
            protocol_version: self.protocol_version,
        }
    }

    /// The storage behind the store.
    pub closed spec fn backing(&self) -> S {
        self.store
    }

    /// The invariant of the representation.
    pub closed spec fn wf(&self) -> bool {
        self.input_objects.wf() && self.written.wf() && self.deleted.wf()
    }

    /// The invariant of the store.
    pub open spec fn inv(&self) -> bool {
        self.wf() && self@.inv()
    }

    /// Creates the store of transaction `tx_digest` over its inputs.
    pub fn new<F: Fn(&Object) -> ObjectDigest>(
        store: S,
        input_objects: InputObjects,
        tx_digest: TransactionDigest,
        protocol_config: &ProtocolConfig,
        digest_of: &F,
    ) -> (s: Self)
        requires
            inputs_wf(input_objects@),
            protocol_config.storage_rebate_rate <= BASIS_POINTS,
            is_digest_fn(digest_of),
        ensures
            s.inv(),
            s@ == initial_store(input_objects@, tx_digest, *protocol_config, digest_of),
            s.backing() == store,
    {
        let mutable_inputs = input_objects.mutable_inputs(digest_of);
        let lamport_timestamp = input_objects.lamport_timestamp();
        let ghost inputs = input_objects@;
        let objects = input_objects.into_object_map();
        let s = TemporaryStore {
            store,
            tx_digest,
            input_objects: objects,
            lamport_timestamp,
            mutable_input_refs: mutable_inputs,
            written: IdMap::new(),
            deleted: IdMap::new(),
            events: Vec::new(),
            gas_charged: None,
            storage_rebate_rate: protocol_config.storage_rebate_rate,
            protocol_version: protocol_config.version,
        };
        proof {
            let v = s@;
            assert(v.written =~= Map::empty());
            assert(v.deleted =~= Map::empty());
            assert(v.events =~= Seq::empty());
            crate::messages::lemma_inputs_object_map(inputs);
            crate::messages::lemma_max_version(inputs);
            crate::messages::lemma_mutable_refs_in_inputs(inputs, digest_of);
            assert forall|id: ObjectID| #[trigger]
                v.input_objects.contains_key(id) implies v.input_objects[id].id() == id
                && v.input_objects[id].version.0 < v.lamport_timestamp.0 && (
            v.input_objects[id].is_package() ==> v.input_objects[id].is_immutable()) by {
                let k = choose|k: int|
                    0 <= k < inputs.len() && (#[trigger] inputs[k]).1 == inputs_object_map(inputs)[id];
                assert(inputs[k].1 == v.input_objects[id]);
                assert(crate::messages::input_ok(inputs[k]));
            }
            assert forall|i: int| 0 <= i < v.mutable_input_refs.len() implies v.input_objects.contains_key(
                (#[trigger] v.mutable_input_refs[i]).0,
            ) && !v.input_objects[v.mutable_input_refs[i].0].is_immutable() by {
                let r = inputs_mutable_refs(inputs, digest_of)[i];
                assert(v.mutable_input_refs[i] == r);
                let k = choose|k: int|
                    0 <= k < inputs.len() && (#[trigger] inputs[k]).1.id() == r.0
                        && !inputs[k].1.is_immutable();
                assert(v.input_objects.contains_key(inputs[k].1.id()));
                let j = choose|j: int|
                    0 <= j < inputs.len() && (#[trigger] inputs[j]).1 == inputs_object_map(inputs)[r.0];
                assert(inputs[j].1.id() == r.0);
                if j < k {
                    assert(inputs[j].1.id() != inputs[k].1.id());
                }
                if k < j {
                    assert(inputs[k].1.id() != inputs[j].1.id());
                }
            }
        }
        s
    }

    /// The storage behind the store.
    pub fn store(&self) -> (r: &S)
        ensures
            *r == self.backing(),
    {
        &self.store
    }

    /// The inputs of the transaction.
    pub fn objects(&self) -> (r: &IdMap<Object>)
        requires
            self.inv(),
        ensures
            r.wf(),
            objects_view(r@) == self@.input_objects,
    {
        &self.input_objects
    }

    /// Whether object `id` was written.
    pub fn is_written(&self, id: &ObjectID) -> (r: bool)
        requires
            self.inv(),
        ensures
            r == self@.written.contains_key(*id),
    {
        self.written.contains_key(id)
    }

    /// Whether object `id` was deleted.
    pub fn is_deleted(&self, id: &ObjectID) -> (r: bool)
        requires
            self.inv(),
        ensures
            r == self@.deleted.contains_key(*id),
    {
        self.deleted.contains_key(id)
    }

    /// Reads object `id`: what was written under it, else the input.
    pub fn read_object(&self, id: &ObjectID) -> (r: Option<&Object>)
        requires
            self.inv(),
            !self@.deleted.contains_key(*id),
        ensures
            r is Some == self@.read(*id) is Some,
            r is Some ==> r->0@ == self@.read(*id)->0,
    {
        match self.written.get(id) {
            Some(entry) => Some(&entry.1),
            None => self.input_objects.get(id),
        }
    }

    /// Whether `object` may be written under `ctx` as `kind`.
    pub fn can_write_object(&self, ctx: &SingleTxContext, object: &Object, kind: WriteKind) -> (r: bool)
        requires
            self.inv(),
        ensures
            r == self@.can_write(ctx@, object@, kind),
    {
        let id = object.id();
        if self.deleted.contains_key(&id) {
            return false;
        }
        let by_the_system = ctx.sender.0 == 0 && is_system_package(id);
        match self.read_object(&id) {
            Some(existing) => {
                if existing.is_immutable() && !by_the_system {
                    return false;
                }
            },
            None => {},
        }
        let created = match kind {
            WriteKind::Create => true,
            _ => false,
        };
        if created && !object.is_immutable() && object.version.0 != 0 {
            return false;
        }
        match object.owner {
            Owner::Shared { initial_shared_version } => {
                if created && initial_shared_version.0 != 0 {
                    return false;
                }
            },
            _ => {},
        }
        if object.is_package() && !created && !by_the_system {
            return false;
        }
        true
    }

    /// Whether object `id` may be deleted at `version`.
    pub fn can_delete_object(&self, id: &ObjectID, version: SequenceNumber) -> (r: bool)
        requires
            self.inv(),
        ensures
            r == self@.can_delete(*id, version),
    {
        if self.written.contains_key(id) {
            return false;
        }
        match self.input_objects.get(id) {
            Some(existing) => {
                if existing.is_immutable() {
                    return false;
                }
            },
            None => {},
        }
        version.0 < self.lamport_timestamp.0
    }

    /// Stages the write of `object`, which replaces what was written under its
    /// identifier before.
    pub fn write_object(&mut self, ctx: &SingleTxContext, object: Object, kind: WriteKind)
        requires
            old(self).inv(),
            old(self)@.can_write(ctx@, object@, kind),
        ensures
            final(self).inv(),
            final(self)@ == old(self)@.write(ctx@, object@, kind),
            final(self).backing() == old(self).backing(),
    {
        let mut object = object;
        let ghost written_before = self.written@;
        let ghost given = object@;
        object.previous_transaction = self.tx_digest;
        let ghost stored = object@;
        let kept = ctx.duplicate();
        self.written.insert(object.id(), (kept, object, kind));
        proof {
            assert(stored == stamped_by(given, self.tx_digest));
            assert(written_view(self.written@) =~= written_view(written_before).insert(
                given.id(),
                (ctx@, stored, kind),
            ));
            old(self)@.lemma_write_inv(ctx@, given, kind);
        }
    }

    /// Stages the deletion of object `id`, which was at `version`.
    pub fn delete_object(
        &mut self,
        ctx: &SingleTxContext,
        id: &ObjectID,
        version: SequenceNumber,
        kind: DeleteKind,
    )
        requires
            old(self).inv(),
            old(self)@.can_delete(*id, version),
        ensures
            final(self).inv(),
            final(self)@ == old(self)@.delete(ctx@, *id, version, kind),
            final(self).backing() == old(self).backing(),
    {
        let ghost deleted_before = self.deleted@;
        let kept = ctx.duplicate();
        self.deleted.insert(*id, (kept, version, kind));
        proof {
            assert(deleted_view(self.deleted@) =~= deleted_view(deleted_before).insert(
                *id,
                (ctx@, version, kind),
            ));
            old(self)@.lemma_delete_inv(ctx@, *id, version, kind);
        }
    }

    /// Drops everything staged: writes, deletions and events. The inputs and
    /// what was charged stay.
    pub fn drop_writes(&mut self)
        requires
            old(self).inv(),
        ensures
            final(self).inv(),
            final(self)@ == old(self)@.drop_writes(),
            final(self).backing() == old(self).backing(),
    {
        self.written.clear();
        self.deleted.clear();
        self.events.clear();
        proof {
            assert(written_view(self.written@) =~= Map::empty());
            assert(deleted_view(self.deleted@) =~= Map::empty());
            assert(events_view(self.events@) =~= Seq::empty());
            old(self)@.lemma_drop_writes_inv();
        }
    }

    /// Appends `event` to the events of the transaction.
    pub fn log_event(&mut self, event: Event)
        requires
            old(self).inv(),
        ensures
            final(self).inv(),
            final(self)@ == old(self)@.log_event(event@),
            final(self).backing() == old(self).backing(),
    {
        let ghost before = self.events@;
        self.events.push(event);
        proof {
            assert(events_view(self.events@) =~= events_view(before).push(event@));
        }
    }

    /// Applies the changes in increasing order of the identifier they are
    /// filed under. A write goes under the identifier of the object written.
    pub fn apply_object_changes(&mut self, changes: &IdMap<ObjectChange>)
        requires
            old(self).inv(),
            changes.wf(),
            old(self)@.can_apply(changes_view(changes.keys(), changes.values())),
        ensures
            final(self).inv(),
            final(self)@ == old(self)@.apply_changes(changes_view(changes.keys(), changes.values())),
            final(self).backing() == old(self).backing(),
    {
        let ghost all = changes_view(changes.keys(), changes.values());
        let ghost start = self@;
        let mut i: usize = 0;
        proof {
            assert(all.take(0) =~= Seq::empty());
            changes.lemma_walk();
        }
        while i < changes.len()
            invariant
                i <= changes.keys().len(),
                changes.wf(),
                all == changes_view(changes.keys(), changes.values()),
                all.len() == changes.keys().len(),
                changes.keys().len() == changes.values().len(),
                start.inv(),
                start.can_apply(all),
                self.inv(),
                self@ == start.apply_changes(all.take(i as int)),
                self.backing() == old(self).backing(),
            decreases changes.keys().len() - i,
        {
            proof {
                assert(all.take(i + 1).drop_last() =~= all.take(i as int));
                assert(all.take(i + 1).last() == all[i as int]);
                lemma_can_apply_prefix(start, all, i + 1);
            }
            let id = changes.key_at(i);
            match changes.value_at(i) {
                ObjectChange::Write(ctx, object, kind) => {
                    self.write_object(ctx, object.duplicate(), *kind);
                },
                ObjectChange::Delete(ctx, version, kind) => {
                    self.delete_object(ctx, &id, *version, *kind);
                },
            }
            i = i + 1;
        }
        proof {
            assert(all.take(i as int) =~= all);
        }
    }

    /// The dynamic fields that the transaction wrote or deleted: objects that
    /// it mutated or deleted without having them among its inputs.
    pub fn dynamic_fields_touched(&self) -> (r: Vec<ObjectID>)
        requires
            self.inv(),
        ensures
            r@ == self@.dynamic_fields_touched(),
    {
        let mut dynamic_fields: Vec<ObjectID> = Vec::new();
        let ghost v = self@;
        proof {
            self.written.lemma_keys_sorted();
            self.deleted.lemma_keys_sorted();
            self.written.lemma_walk();
            self.deleted.lemma_walk();
            assert(v.written.dom() =~= self.written@.dom());
            assert(v.deleted.dom() =~= self.deleted@.dom());
        }
        let mut i: usize = 0;
        while i < self.written.len()
            invariant
                i <= self.written.keys().len(),
                self.inv(),
                v == self@,
                self.written.keys().len() == self.written.values().len(),
                forall|k: int|
                    0 <= k < self.written.keys().len() ==> self.written@.contains_key(
                        #[trigger] self.written.keys()[k],
                    ) && self.written@[self.written.keys()[k]] == self.written.values()[k],
                dynamic_fields@ == v.written_fields(self.written.keys().take(i as int)),
            decreases self.written.keys().len() - i,
        {
            let id = self.written.key_at(i);
            proof {
                let keys = self.written.keys();
                assert(keys.take(i + 1).drop_last() =~= keys.take(i as int));
                assert(keys.take(i + 1).last() == keys[i as int]);
                assert(self.written@.contains_key(keys[i as int]));
            }
            match self.written.value_at(i).2 {
                WriteKind::Mutate => {
                    if !self.input_objects.contains_key(&id) {
                        dynamic_fields.push(id);
                    }
                },
                WriteKind::Create | WriteKind::Unwrap => {},
            }
            i = i + 1;
        }
        proof {
            assert(self.written.keys().take(i as int) =~= self.written.keys());
        }
        let ghost from_written = dynamic_fields@;
        let mut j: usize = 0;
        while j < self.deleted.len()
            invariant
                j <= self.deleted.keys().len(),
                self.inv(),
                v == self@,
                self.deleted.keys().len() == self.deleted.values().len(),
                forall|k: int|
                    0 <= k < self.deleted.keys().len() ==> self.deleted@.contains_key(
                        #[trigger] self.deleted.keys()[k],
                    ) && self.deleted@[self.deleted.keys()[k]] == self.deleted.values()[k],
                dynamic_fields@ == from_written + v.deleted_fields(self.deleted.keys().take(j as int)),
            decreases self.deleted.keys().len() - j,
        {
            let id = self.deleted.key_at(j);
            proof {
                let keys = self.deleted.keys();
                assert(keys.take(j + 1).drop_last() =~= keys.take(j as int));
                assert(keys.take(j + 1).last() == keys[j as int]);
                assert(self.deleted@.contains_key(keys[j as int]));
            }
            match self.deleted.value_at(j).2 {
                DeleteKind::Normal => {
                    if !self.input_objects.contains_key(&id) {
                        dynamic_fields.push(id);
                    }
                },
                DeleteKind::UnwrapThenDelete | DeleteKind::Wrap => {},
            }
            j = j + 1;
        }
        proof {
            assert(self.deleted.keys().take(j as int) =~= self.deleted.keys());
        }
        dynamic_fields
    }
}

impl<S> TemporaryStore<S> {
    /// Writes every mutable input that the transaction neither wrote nor
    /// deleted as it came in, so that its version moves forward all the same.
    fn ensure_active_inputs_mutated(&mut self, sender: SuiAddress)
        requires
            old(self).inv(),
        ensures
            final(self).inv(),
            final(self)@ == old(self)@.ensure_active_inputs_mutated(sender),
            final(self).backing() == old(self).backing(),
    {
        let ghost start = self@;
        let mut i: usize = 0;
        proof {
            assert(start.written_with_inputs(sender, 0) =~= start.written);
        }
        while i < self.mutable_input_refs.len()
            invariant
                i <= self.mutable_input_refs.len(),
                start.inv(),
                self.inv(),
                self@ == (StoreView { written: start.written_with_inputs(sender, i as int), ..start }),
                self.backing() == old(self).backing(),
            decreases self.mutable_input_refs.len() - i,
        {
            let id = self.mutable_input_refs[i].0;
            let ghost before = self@;
            proof {
                assert forall|k: ObjectID|
                    is_gas_id(start.mutable_input_refs, 0, i + 1, k) <==> is_gas_id(
                        start.mutable_input_refs,
                        0,
                        i as int,
                        k,
                    ) || start.mutable_input_refs[i as int].0 == k by {
                    lemma_is_gas_id_step(start.mutable_input_refs, 0, i as int, k);
                }
                assert(start.input_objects.contains_key(start.mutable_input_refs[i as int].0));
            }
            let touched = self.written.contains_key(&id) || self.deleted.contains_key(&id);
            if !touched {
                match self.input_objects.get(&id) {
                    Some(object) => {
                        let object = object.duplicate();
                        let ctx = SingleTxContext::unused_input(sender);
                        self.write_object(&ctx, object, WriteKind::Mutate);
                    },
                    None => {},
                }
            }
            proof {
                assert(self@.written =~= start.written_with_inputs(sender, i + 1));
            }
            i = i + 1;
        }
    }

    /// Whether the coins `gas` can be smashed in the store as it is.
    pub fn can_smash_gas(&self, gas: &[ObjectRef]) -> (r: bool)
        requires
            self.inv(),
        ensures
            r == self@.can_smash(gas@),
    {
        proof {
            reveal(StoreView::can_smash);
        }
        if gas.len() == 0 {
            return false;
        }
        if gas.len() == 1 {
            return true;
        }
        let ghost v = self@;
        let mut valid = true;
        let mut total: u128 = 0;
        let mut n: usize = 0;
        while n < gas.len()
            invariant
                n <= gas.len(),
                gas@.len() > 1,
                self.inv(),
                self@ == v,
                forall|k: int| 0 <= k < n ==> v.input_objects.contains_key((#[trigger] gas@[k]).0),
                valid == v.all_gas_coins(gas@.take(n as int)),
                valid ==> total == v.gas_total(gas@.take(n as int)),
                total <= n * 0xffff_ffff_ffff_ffff,
            decreases gas.len() - n,
        {
            proof {
                reveal(StoreView::can_smash);
                assert(gas@.take(n + 1).drop_last() =~= gas@.take(n as int));
                assert(gas@.take(n + 1).last() == gas@[n as int]);
            }
            let balance: Option<u64> = match self.input_objects.get(&gas[n].0) {
                Some(object) => {
                    match &object.data {
                        Data::Move(m) => {
                            if m.type_.is_gas_coin() {
                                match Coin::from_bcs_bytes(m.contents.as_slice()) {
                                    Ok(coin) => Some(coin.balance),
                                    Err(_) => None,
                                }
                            } else {
                                None
                            }
                        },
                        Data::Package(_) => None,
                    }
                },
                None => {
                    proof {
                        assert(!v.input_objects.contains_key(gas@[n as int].0));
                    }
                    return false;
                },
            };
            proof {
                let more = gas@.take(n + 1);
                let less = gas@.take(n as int);
                assert(balance is Some == is_gas_coin_object(v.input_objects[gas@[n as int].0]));
                if v.all_gas_coins(more) {
                    assert forall|k: int| 0 <= k < less.len() implies is_gas_coin_object(
                        v.input_objects[(#[trigger] less[k]).0],
                    ) by {
                        assert(more[k] == less[k]);
                    }
                    assert(is_gas_coin_object(v.input_objects[more[n as int].0]));
                }
                if v.all_gas_coins(less) && balance is Some {
                    assert forall|k: int| 0 <= k < more.len() implies is_gas_coin_object(
                        v.input_objects[(#[trigger] more[k]).0],
                    ) by {
                        if k < n {
                            assert(more[k] == less[k]);
                        }
                    }
                }
            }
            match balance {
                Some(b) => {
                    if valid {
                        total = total + b as u128;
                    }
                },
                None => {
                    valid = false;
                },
            }
            n = n + 1;
        }
        proof {
            assert(gas@.take(n as int) =~= gas@);
        }
        if !valid || total > u64::MAX as u128 {
            return true;
        }
        if self.deleted.contains_key(&gas[0].0) {
            return false;
        }
        match self.written.get(&gas[0].0) {
            Some(entry) => {
                proof {
                    assert(v.written[gas@[0].0] == (entry.0@, entry.1@, entry.2));
                }
                if entry.1.is_immutable() {
                    return false;
                }
            },
            None => {},
        }
        let mut seen: IdMap<bool> = IdMap::new();
        let mut i: usize = 0;
        while i < gas.len()
            invariant
                i <= gas.len(),
                gas@.len() > 1,
                self.inv(),
                self@ == v,
                seen.wf(),
                v.all_gas_coins(gas@),
                v.gas_total(gas@) <= u64::MAX,
                forall|k: int| 0 <= k < gas@.len() ==> v.input_objects.contains_key((#[trigger] gas@[k]).0),
                !v.deleted.contains_key(gas@[0].0),
                v.written.contains_key(gas@[0].0) ==> !v.written[gas@[0].0].1.is_immutable(),
                forall|k: int| 0 <= k < i ==> !v.input_objects[(#[trigger] gas@[k]).0].is_immutable(),
                forall|k: int| 1 <= k < i ==> !v.written.contains_key((#[trigger] gas@[k]).0),
                forall|k: int, j: int|
                    0 <= k < j < i ==> (#[trigger] gas@[k]).0 != (#[trigger] gas@[j]).0,
                forall|id: ObjectID|
                    seen@.contains_key(id) <==> exists|k: int| 0 <= k < i && (#[trigger] gas@[k]).0 == id,
            decreases gas.len() - i,
        {
            proof {
                reveal(StoreView::can_smash);
                assert(v.input_objects.contains_key(gas@[i as int].0));
            }
            let id = gas[i].0;
            match self.input_objects.get(&id) {
                Some(object) => {
                    if object.is_immutable() {
                        proof {
                            assert(v.input_objects[gas@[i as int].0].is_immutable());
                        }
                        return false;
                    }
                },
                None => {},
            }
            if i >= 1 && self.written.contains_key(&id) {
                proof {
                    assert(v.written.contains_key(gas@[i as int].0));
                }
                return false;
            }
            if seen.contains_key(&id) {
                proof {
                    let k = choose|k: int| 0 <= k < i && (#[trigger] gas@[k]).0 == id;
                    assert(gas@[k].0 == gas@[i as int].0);
                }
                return false;
            }
            let ghost before = seen@;
            seen.insert(id, true);
            proof {
                assert forall|x: ObjectID| seen@.contains_key(x) <==> exists|k: int|
                    0 <= k < i + 1 && (#[trigger] gas@[k]).0 == x by {
                    if before.contains_key(x) {
                        let k = choose|k: int| 0 <= k < i && (#[trigger] gas@[k]).0 == x;
                        assert(0 <= k < i + 1 && gas@[k].0 == x);
                    }
                    if x == id {
                        assert(gas@[i as int].0 == x);
                    }
                    if exists|k: int| 0 <= k < i + 1 && (#[trigger] gas@[k]).0 == x {
                        let k = choose|k: int| 0 <= k < i + 1 && (#[trigger] gas@[k]).0 == x;
                        if k < i {
                            assert(before.contains_key(x));
                        }
                    }
                }
                assert forall|k: int, j: int| 0 <= k < j < i + 1 implies (#[trigger] gas@[k]).0 != (
                #[trigger] gas@[j]).0 by {
                    if j == i {
                        if gas@[k].0 == gas@[j].0 {
                            assert(before.contains_key(gas@[j].0));
                        }
                    }
                }
            }
            i = i + 1;
        }
        true
    }

    /// Merges the coins `gas` into the first of them: it gets the balances of
    /// all, and the others are deleted. A single coin is left as it is.
    /// Where one of several is no readable coin of the native currency, or
    /// the balances together leave the range of a balance, nothing changes.
    pub fn smash_gas(&mut self, sender: SuiAddress, gas: &[ObjectRef]) -> (r: Result<
        ObjectRef,
        ExecutionError,
    >)
        requires
            old(self).inv(),
            old(self)@.can_smash(gas@),
        ensures
            final(self).inv(),
            final(self).backing() == old(self).backing(),
            match old(self)@.smash_gas(sender, gas@) {
                Ok(store) => r == Ok::<ObjectRef, ExecutionError>(gas@[0]) && final(self)@ == store,
                Err(e) => r == Err::<ObjectRef, ExecutionError>(e) && final(self)@ == old(self)@,
            },
    {
        let ghost start = self@;
        proof {
            reveal(StoreView::smash_gas);
            reveal(StoreView::can_smash);
        }
        if gas.len() > 1 {
            let mut total: u128 = 0;
            let mut i: usize = 0;
            while i < gas.len()
                invariant
                    i <= gas.len(),
                    self.inv(),
                    self@ == start,
                    start.can_smash(gas@),
                    gas@.len() > 1,
                    start.all_gas_coins(gas@.take(i as int)),
                    total == start.gas_total(gas@.take(i as int)),
                    total <= i * 0xffff_ffff_ffff_ffff,
                decreases gas.len() - i,
            {
                proof {
                    reveal(StoreView::smash_gas);
                    reveal(StoreView::can_smash);
                    assert(gas@.take(i + 1).drop_last() =~= gas@.take(i as int));
                    assert(gas@.take(i + 1).last() == gas@[i as int]);
                    assert(start.input_objects.contains_key(gas@[i as int].0));
                }
                let balance: u64 = match self.input_objects.get(&gas[i].0) {
                    Some(object) => {
                        match &object.data {
                            Data::Move(m) => {
                                if !m.type_.is_gas_coin() {
                                    proof {
                                        assert(!is_gas_coin_object(start.input_objects[gas@[i as int].0]));
                                    }
                                    return Err(ExecutionError::invariant_violation());
                                }
                                match Coin::from_bcs_bytes(m.contents.as_slice()) {
                                    Ok(coin) => coin.balance,
                                    Err(e) => {
                                        proof {
                                            assert(!is_gas_coin_object(
                                                start.input_objects[gas@[i as int].0],
                                            ));
                                        }
                                        return Err(e);
                                    },
                                }
                            },
                            Data::Package(_) => {
                                proof {
                                    assert(!is_gas_coin_object(start.input_objects[gas@[i as int].0]));
                                }
                                return Err(ExecutionError::invariant_violation());
                            },
                        }
                    },
                    None => {
                        return Err(ExecutionError::invariant_violation());
                    },
                };
                proof {
                    assert forall|k: int| 0 <= k < gas@.take(i + 1).len() implies is_gas_coin_object(
                        start.input_objects[(#[trigger] gas@.take(i + 1)[k]).0],
                    ) by {
                        if k < i {
                            assert(gas@.take(i as int)[k] == gas@.take(i + 1)[k]);
                        }
                    }
                }
                total = total + balance as u128;
                i = i + 1;
            }
            proof {
                assert(gas@.take(i as int) =~= gas@);
            }
            if total > u64::MAX as u128 {
                return Err(ExecutionError::from_kind(ExecutionErrorKind::CoinBalanceOverflow));
            }
            let ctx = SingleTxContext::gas(sender);
            let mut j: usize = 1;
            proof {
                assert(start.deleted_with_merged(sender, gas@, 1) =~= start.deleted);
            }
            while j < gas.len()
                invariant
                    1 <= j <= gas.len(),
                    self.inv(),
                    start.inv(),
                    start.can_smash(gas@),
                    start.all_gas_coins(gas@),
                    total == start.gas_total(gas@),
                    total <= u64::MAX,
                    gas@.len() > 1,
                    ctx@ == SingleTxContextView::gas(sender),
                    self@ == (StoreView {
                        deleted: start.deleted_with_merged(sender, gas@, j as int),
                        ..start
                    }),
                    self.backing() == old(self).backing(),
                decreases gas.len() - j,
            {
                let id = gas[j].0;
                proof {
                    reveal(StoreView::smash_gas);
                    reveal(StoreView::can_smash);
                    assert(start.input_objects.contains_key(gas@[j as int].0));
                    assert forall|k: ObjectID|
                        is_gas_id(gas@, 1, j + 1, k) <==> is_gas_id(gas@, 1, j as int, k) || gas@[j as int].0
                            == k by {
                        lemma_is_gas_id_step(gas@, 1, j as int, k);
                    }
                }
                match self.input_objects.get(&id) {
                    Some(object) => {
                        let version = object.version();
                        proof {
                            assert(start.all_gas_coins(gas@));
                            assert(is_gas_coin_object(start.input_objects[gas@[j as int].0]));
                        }
                        self.delete_object(&ctx, &id, version, DeleteKind::Normal);
                    },
                    None => {},
                }
                proof {
                    assert(self@.deleted =~= start.deleted_with_merged(sender, gas@, j + 1));
                }
                j = j + 1;
            }
            match self.input_objects.get(&gas[0].0) {
                Some(object) => {
                    let mut gas_object = object.duplicate();
                    proof {
                        assert(start.all_gas_coins(gas@));
                        assert(is_gas_coin_object(start.input_objects[gas@[0].0]));
                        assert(gas_object@ == start.input_objects[gas@[0].0]);
                        if self@.deleted.contains_key(gas@[0].0) {
                            let k = choose|k: int|
                                1 <= k < gas@.len() && 0 <= k < gas@.len() && (#[trigger] gas@[k]).0
                                    == gas@[0].0;
                            assert(gas@[0].0 != gas@[k].0);
                        }
                    }
                    match &mut gas_object.data {
                        Data::Move(m) => {
                            match Coin::from_bcs_bytes(m.contents.as_slice()) {
                                Ok(coin) => {
                                    let merged = Coin::new(coin.id, total as u64);
                                    match merged.to_bcs_bytes() {
                                        Ok(bytes) => {
                                            m.update_coin_contents(bytes);
                                        },
                                        Err(e) => {
                                            return Err(e);
                                        },
                                    }
                                },
                                Err(e) => {
                                    return Err(e);
                                },
                            }
                        },
                        Data::Package(_) => {},
                    }
                    proof {
                        assert(gas_object@ == with_balance(
                            start.input_objects[gas@[0].0],
                            start.gas_total(gas@) as u64,
                        ));
                        crate::coin::lemma_with_balance(
                            start.input_objects[gas@[0].0],
                            start.gas_total(gas@) as u64,
                        );
                    }
                    self.write_object(&ctx, gas_object, WriteKind::Mutate);
                },
                None => {},
            }
        }
        Ok(gas[0])
    }

    /// Charges `gas_status` for the storage of every object written, and
    /// collects the rebate of every input that was overwritten or deleted.
    /// Returns the bytes written and deleted, for which computation is
    /// charged afterwards. The gas coin and the untouched mutable inputs are
    /// written first. The new rebates are put on the written objects only
    /// when every charge was covered.
    fn charge_gas_for_storage_changes(
        &mut self,
        sender: SuiAddress,
        gas_status: &mut SuiGasStatus,
        gas_object_id: ObjectID,
    ) -> (r: Result<u64, ExecutionError>)
        requires
            old(self).inv(),
            old(gas_status).wf(),
            old(self)@.can_charge_storage(sender, gas_object_id),
        ensures
            final(self).inv(),
            final(gas_status).wf(),
            final(self).backing() == old(self).backing(),
            (final(self)@, *final(gas_status), r) == old(self)@.charge_gas_for_storage_changes(
                *old(gas_status),
                sender,
                gas_object_id,
            ),
    {
        let ghost start = self@;
        let ghost meter0 = *gas_status;
        proof {
            reveal(StoreView::charge_gas_for_storage_changes);
            reveal(StoreView::can_charge_storage);
        }
        if !self.written.contains_key(&gas_object_id) {
            match self.read_object(&gas_object_id) {
                Some(object) => {
                    let gas_object = object.duplicate();
                    let ctx = SingleTxContext::gas(sender);
                    self.write_object(&ctx, gas_object, WriteKind::Mutate);
                },
                None => {},
            }
        }
        self.ensure_active_inputs_mutated(sender);
        let ghost ready = self@;
        let ghost keys = self.written.keys();
        let ghost dkeys = self.deleted.keys();
        proof {
            assert(ready == start.prepared_for_charge(sender, gas_object_id));
            self.written.lemma_keys_sorted();
            self.deleted.lemma_keys_sorted();
            self.written.lemma_walk();
            self.deleted.lemma_walk();
            self.input_objects.lemma_walk();
            assert(ready.written.dom() =~= self.written@.dom());
            assert(ready.deleted.dom() =~= self.deleted@.dom());
            assert(keys.take(0) =~= Seq::<ObjectID>::empty());
        }
        let mut total: u64 = 0;
        let mut staged: Vec<u64> = Vec::new();
        let mut i: usize = 0;
        while i < self.written.len()
            invariant
                i <= keys.len(),
                self.inv(),
                self@ == ready,
                ready == start.prepared_for_charge(sender, gas_object_id),
                start == old(self)@,
                meter0 == *old(gas_status),
                keys == sorted_ids(ready.written.dom()),
                dkeys == sorted_ids(ready.deleted.dom()),
                keys == self.written.keys(),
                keys.len() == self.written.values().len(),
                forall|k: int|
                    0 <= k < keys.len() ==> self.written@.contains_key(#[trigger] keys[k])
                        && self.written@[keys[k]] == self.written.values()[k],
                crate::id_map::strictly_increasing(keys),
                gas_status.wf(),
                meter0.wf(),
                ready.charge_written(meter0, keys.take(i as int)).ok,
                ready.charge_written(meter0, keys.take(i as int)).meter == *gas_status,
                ready.charge_written(meter0, keys.take(i as int)).bytes == total,
                staged@.len() == i,
                forall|k: int|
                    0 <= k < i ==> ready.charge_written(meter0, keys.take(i as int)).rebates[
                    #[trigger] keys[k]] == staged@[k],
                self.backing() == old(self).backing(),
            decreases keys.len() - i,
        {
            let id = self.written.key_at(i);
            let entry = self.written.value_at(i);
            let ghost before = ready.charge_written(meter0, keys.take(i as int));
            proof {
                reveal(StoreView::charge_gas_for_storage_changes);
                assert(keys.take(i + 1).drop_last() =~= keys.take(i as int));
                assert(keys.take(i + 1).last() == keys[i as int]);
                assert(self.written@.contains_key(keys[i as int]));
                assert(ready.written[id].1 == entry.1@);
            }
            let (old_size, old_rebate): (u64, u64) = match self.input_objects.get(&id) {
                Some(old) => (old.object_size_for_gas_metering(), old.storage_rebate),
                None => (0, 0),
            };
            let new_size = entry.1.object_size_for_gas_metering();
            match gas_status.charge_storage_mutation(new_size, old_rebate) {
                Ok(new_rebate) => {
                    staged.push(new_rebate);
                    total = add_capped(total, add_capped(old_size, new_size));
                    proof {
                        let after = ready.charge_written(meter0, keys.take(i + 1));
                        assert forall|k: int| 0 <= k < i + 1 implies after.rebates[#[trigger] keys[k]]
                            == staged@[k] by {
                            if k < i {
                                assert(keys[k].0 < keys[i as int].0);
                            }
                        }
                    }
                },
                Err(e) => {
                    proof {
                        let failed = ready.charge_written(meter0, keys.take(i + 1));
                        assert(!failed.ok);
                        assert(failed.meter == *gas_status);
                        ready.lemma_charge_written_sticky(meter0, keys, i + 1);
                        let charges = ready.charge_written(meter0, keys);
                        assert(charges == failed);
                        assert(dkeys.take(0) =~= Seq::<ObjectID>::empty());
                        assert(ready.charge_deleted(charges, dkeys.take(0)) == charges);
                        ready.lemma_charge_deleted_sticky(charges, dkeys, 0);
                        assert(ready.storage_charges(meter0) == charges);
                        assert(e == (ExecutionError { kind: ExecutionErrorKind::InsufficientGas }));
                        assert(start.charge_gas_for_storage_changes(meter0, sender, gas_object_id).0
                            == ready);
                        assert(start.charge_gas_for_storage_changes(meter0, sender, gas_object_id).1
                            == *gas_status);
                    }
                    return Err(e);
                },
            }
            i = i + 1;
        }
        let ghost charged_written = ready.charge_written(meter0, keys);
        proof {
            assert(keys.take(i as int) =~= keys);
            assert(dkeys.take(0) =~= Seq::<ObjectID>::empty());
            ready.lemma_charge_written_shape(meter0, keys);
        }
        let mut j: usize = 0;
        while j < self.deleted.len()
            invariant
                j <= dkeys.len(),
                self.inv(),
                self@ == ready,
                ready == start.prepared_for_charge(sender, gas_object_id),
                start == old(self)@,
                meter0 == *old(gas_status),
                keys == sorted_ids(ready.written.dom()),
                dkeys == sorted_ids(ready.deleted.dom()),
                charged_written == ready.charge_written(meter0, keys),
                dkeys == self.deleted.keys(),
                gas_status.wf(),
                charged_written.meter.wf(),
                0 <= charged_written.bytes <= u64::MAX,
                ready.charge_deleted(charged_written, dkeys.take(j as int)).ok,
                ready.charge_deleted(charged_written, dkeys.take(j as int)).meter == *gas_status,
                ready.charge_deleted(charged_written, dkeys.take(j as int)).bytes == total,
                self.backing() == old(self).backing(),
            decreases dkeys.len() - j,
        {
            let id = self.deleted.key_at(j);
            proof {
                reveal(StoreView::charge_gas_for_storage_changes);
                assert(dkeys.take(j + 1).drop_last() =~= dkeys.take(j as int));
                assert(dkeys.take(j + 1).last() == dkeys[j as int]);
            }
            match self.input_objects.get(&id) {
                Some(old) => {
                    match gas_status.charge_storage_mutation(0, old.storage_rebate) {
                        Ok(_) => {
                            total = add_capped(total, old.object_size_for_gas_metering());
                        },
                        Err(e) => {
                            proof {
                                ready.lemma_charge_deleted_sticky(charged_written, dkeys, j + 1);
                            }
                            return Err(e);
                        },
                    }
                },
                None => {},
            }
            j = j + 1;
        }
        let ghost charges = ready.charge_deleted(charged_written, dkeys);
        proof {
            assert(dkeys.take(j as int) =~= dkeys);
            ready.lemma_charge_deleted_shape(charged_written, dkeys);
            assert(charges == ready.storage_charges(meter0));
        }
        let mut updated: IdMap<(SingleTxContext, Object, WriteKind)> = IdMap::new();
        let mut k: usize = 0;
        while k < self.written.len()
            invariant
                k <= keys.len(),
                self.inv(),
                self@ == ready,
                keys == self.written.keys(),
                keys.len() == self.written.values().len(),
                forall|n: int|
                    0 <= n < keys.len() ==> self.written@.contains_key(#[trigger] keys[n])
                        && self.written@[keys[n]] == self.written.values()[n],
                crate::id_map::strictly_increasing(keys),
                staged@.len() == keys.len(),
                forall|n: int| 0 <= n < keys.len() ==> charges.rebates[#[trigger] keys[n]] == staged@[n],
                updated.wf(),
                forall|id: ObjectID|
                    updated@.contains_key(id) <==> keys.take(k as int).contains(id),
                forall|id: ObjectID| #[trigger]
                    updated@.contains_key(id) ==> written_view(updated@)[id] == ready.with_rebates(
                        charges.rebates,
                    ).written[id],
                self.backing() == old(self).backing(),
            decreases keys.len() - k,
        {
            let id = self.written.key_at(k);
            let entry = self.written.value_at(k);
            let mut object = entry.1.duplicate();
            object.storage_rebate = staged[k];
            let ghost before = updated@;
            proof {
                assert(self.written@.contains_key(keys[k as int]));
                assert(ready.written[id] == (entry.0@, entry.1@, entry.2));
            }
            updated.insert(id, (entry.0.duplicate(), object, entry.2));
            proof {
                assert forall|x: ObjectID| updated@.contains_key(x) <==> keys.take(k + 1).contains(
                    x,
                ) by {
                    let more = keys.take(k + 1);
                    let less = keys.take(k as int);
                    if more.contains(x) {
                        let n = choose|n: int| 0 <= n < more.len() && more[n] == x;
                        if n < k {
                            assert(less[n] == x);
                        }
                    }
                    if less.contains(x) {
                        let n = choose|n: int| 0 <= n < less.len() && less[n] == x;
                        assert(more[n] == x);
                    }
                    assert(more[k as int] == keys[k as int]);
                }
            }
            k = k + 1;
        }
        proof {
            assert(keys.take(k as int) =~= keys);
            assert forall|id: ObjectID| updated@.contains_key(id) <==> ready.written.contains_key(
                id,
            ) by {
                assert(ready.written.contains_key(id) <==> self.written@.contains_key(id));
            }
            assert(written_view(updated@) =~= ready.with_rebates(charges.rebates).written);
        }
        self.written = updated;
        proof {
            let after = self@;
            assert(after == ready.with_rebates(charges.rebates));
            assert forall|id: ObjectID| #[trigger] after.written.contains_key(id) implies after.written_ok(
                id,
            ) by {
                assert(ready.written.contains_key(id));
                assert(ready.written_ok(id));
            }
        }
        Ok(total)
    }

    /// Charges for storage, and then for the computation that mutating the
    /// bytes written and deleted takes.
    fn charge_storage_and_computation(
        &mut self,
        sender: SuiAddress,
        gas_status: &mut SuiGasStatus,
        gas_object_id: ObjectID,
    ) -> (r: Result<(), ExecutionError>)
        requires
            old(self).inv(),
            old(gas_status).wf(),
            old(self)@.can_charge_storage(sender, gas_object_id),
        ensures
            final(self).inv(),
            final(gas_status).wf(),
            final(self).backing() == old(self).backing(),
            (final(self)@, *final(gas_status), r) == old(self)@.charge_storage_and_computation(
                *old(gas_status),
                sender,
                gas_object_id,
            ),
    {
        match self.charge_gas_for_storage_changes(sender, gas_status, gas_object_id) {
            Ok(total_bytes_written_deleted) => {
                match gas_status.charge_computation_gas_for_storage_mutation(
                    total_bytes_written_deleted,
                ) {
                    Ok(()) => Ok(()),
                    Err(e) => {
                        proof {
                            assert(e == (ExecutionError { kind: ExecutionErrorKind::InsufficientGas }));
                        }
                        Err(e)
                    },
                }
            },
            Err(e) => Err(e),
        }
    }

    /// The charging phases: a reset first where execution failed; then the
    /// charge, and where that is not covered a reset and the charge once more.
    fn charge_phases<T>(
        &mut self,
        sender: SuiAddress,
        gas_object_id: ObjectID,
        gas_status: &mut SuiGasStatus,
        execution_result: &mut Result<T, ExecutionError>,
        gas: &[ObjectRef],
    )
        requires
            old(self).inv(),
            old(gas_status).wf(),
            old(self)@.can_charge_gas(
                *old(gas_status),
                *old(execution_result) is Err,
                sender,
                gas_object_id,
                gas@,
            ),
        ensures
            final(self).inv(),
            final(gas_status).wf(),
            final(self).backing() == old(self).backing(),
            final(self)@ == old(self)@.charged(
                *old(gas_status),
                *old(execution_result) is Err,
                sender,
                gas_object_id,
                gas@,
            ).0,
            *final(gas_status) == old(self)@.charged(
                *old(gas_status),
                *old(execution_result) is Err,
                sender,
                gas_object_id,
                gas@,
            ).1,
            match old(self)@.charged(
                *old(gas_status),
                *old(execution_result) is Err,
                sender,
                gas_object_id,
                gas@,
            ).2 {
                Some(e) => if *old(execution_result) is Ok {
                    *final(execution_result) == Err::<T, ExecutionError>(e)
                } else {
                    *final(execution_result) == *old(execution_result)
                },
                None => *final(execution_result) == *old(execution_result),
            },
    {
        let failed = execution_result.is_err();
        if failed {
            self.reset(sender, gas, gas_status);
        }
        match self.charge_storage_and_computation(sender, gas_status, gas_object_id) {
            Ok(_) => {},
            Err(err) => {
                self.reset(sender, gas, gas_status);
                let _ = self.charge_storage_and_computation(sender, gas_status, gas_object_id);
                if execution_result.is_ok() {
                    *execution_result = Err(err);
                }
            },
        }
    }

    /// Charges the transaction: for the storage of what it wrote, for the
    /// computation of writing it, and takes the charge from the gas coin,
    /// which gets the sender's share of the rebates in return.
    ///
    /// Where execution failed, everything staged is dropped first. Where the
    /// budget does not cover the storage, everything staged is dropped, the
    /// storage of the gas coins alone is charged, and a result that was a
    /// success becomes the error of the charge that was not covered.
    pub fn charge_gas<T>(
        &mut self,
        sender: SuiAddress,
        gas_object_id: ObjectID,
        gas_status: &mut SuiGasStatus,
        execution_result: &mut Result<T, ExecutionError>,
        gas: &[ObjectRef],
    )
        requires
            old(self).inv(),
            old(gas_status).wf(),
            old(gas_status).storage_rebate == 0,
            old(gas_status).storage_gas_units == 0,
            old(self)@.can_charge_gas(
                *old(gas_status),
                *old(execution_result) is Err,
                sender,
                gas_object_id,
                gas@,
            ),
        ensures
            final(self).inv(),
            final(gas_status).wf(),
            final(self).backing() == old(self).backing(),
            (final(self)@, *final(gas_status)) == old(self)@.charge_gas(
                *old(gas_status),
                *old(execution_result) is Err,
                sender,
                gas_object_id,
                gas@,
            ),
            final(self)@.inputs_accounted_for(),
            match old(self)@.charge_gas_error(
                *old(gas_status),
                *old(execution_result) is Err,
                sender,
                gas_object_id,
                gas@,
            ) {
                Some(e) => if *old(execution_result) is Ok {
                    *final(execution_result) == Err::<T, ExecutionError>(e)
                } else {
                    *final(execution_result) == *old(execution_result)
                },
                None => *final(execution_result) == *old(execution_result),
            },
    {
        proof {
            crate::laws::law_charged_inputs_accounted_for(
                self@,
                *gas_status,
                *execution_result is Err,
                sender,
                gas_object_id,
                gas@,
            );
        }
        self.charge_phases(sender, gas_object_id, gas_status, execution_result, gas);
        let cost_summary = gas_status.summary();
        let gas_used = cost_summary.gas_used();
        let rebate = cost_summary.sender_rebate(self.storage_rebate_rate);
        let ghost charged = self@;
        match self.read_object(&gas_object_id) {
            Some(object) => {
                let mut gas_object = object.duplicate();
                deduct_gas(&mut gas_object, gas_used, rebate);
                let ctx = match self.written.get(&gas_object_id) {
                    Some(entry) => entry.0.duplicate(),
                    None => SingleTxContext::gas(sender),
                };
                proof {
                    crate::coin::lemma_with_balance(
                        charged.read(gas_object_id)->0,
                        (balance_of(charged.read(gas_object_id)->0) - gas_used + rebate) as u64,
                    );
                    assert(charged.written.contains_key(gas_object_id)
                        <==> self.written@.contains_key(gas_object_id));
                }
                self.write_object(&ctx, gas_object, WriteKind::Mutate);
            },
            None => {},
        }
        self.gas_charged = Some((sender, gas_object_id, cost_summary));
    }

    /// Drops everything staged, gives back what the meter charged for
    /// storage, and smashes the gas coins again: the store is as it was when
    /// execution began.
    fn reset(&mut self, sender: SuiAddress, gas: &[ObjectRef], gas_status: &mut SuiGasStatus)
        requires
            old(self).inv(),
            old(gas_status).wf(),
            old(self)@.can_reset(sender, gas@),
        ensures
            final(self).inv(),
            final(gas_status).wf(),
            final(self)@ == old(self)@.reset(sender, gas@),
            *final(gas_status) == old(gas_status).after_reset(),
            final(self).backing() == old(self).backing(),
    {
        self.drop_writes();
        gas_status.reset_storage_cost_and_rebate();
        let _ = self.smash_gas(sender, gas);
    }
}

impl<S> TemporaryStore<S> {
    /// Ends the transaction and hands out what is left of the store: the
    /// inputs, the objects written and deleted at the version of the
    /// transaction, and the events, those that tell of the objects first.
    pub fn into_inner<F: Fn(&Object) -> ObjectDigest>(self, digest_of: &F) -> (r: InnerTemporaryStore)
        requires
            self.inv(),
            self@.inputs_accounted_for(),
            is_digest_fn(digest_of),
        ensures
            r.wf(),
            r@ == self@.into_inner(digest_of),
    {
        let mut store = self;
        let ghost v = store@;
        let ghost keys = store.written.keys();
        let ghost dkeys = store.deleted.keys();
        proof {
            store.written.lemma_keys_sorted();
            store.deleted.lemma_keys_sorted();
            store.written.lemma_walk();
            store.deleted.lemma_walk();
            assert(v.written.dom() =~= store.written@.dom());
            assert(v.deleted.dom() =~= store.deleted@.dom());
        }
        let mut written: IdMap<(ObjectRef, Object, WriteKind)> = IdMap::new();
        let mut deleted: IdMap<(SequenceNumber, DeleteKind)> = IdMap::new();
        let mut events: Vec<Event> = Vec::new();
        proof {
            assert(events_view(events@) =~= Seq::<EventView>::empty());
        }
        let (gas_id, gas_charged): (Option<ObjectID>, i128) = match &store.gas_charged {
            Some(charged) => {
                match store.input_objects.get(&charged.1) {
                    Some(gas) => {
                        match gas.struct_tag() {
                            Some(t) => {
                                let ctx = SingleTxContext::gas(charged.0);
                                let e = Event::balance_change(
                                    &ctx,
                                    BalanceChangeType::Gas,
                                    gas.owner,
                                    charged.1,
                                    gas.version(),
                                    &t,
                                    -charged.2.net_gas_usage(),
                                );
                                events.push(e);
                                proof {
                                    assert(events_view(events@) =~= seq![e@]);
                                }
                            },
                            None => {},
                        }
                    },
                    None => {},
                }
                (Some(charged.1), charged.2.net_gas_usage())
            },
            None => (None, 0),
        };
        proof {
            assert(events_view(events@) == v.gas_events());
            assert(keys.take(0) =~= Seq::<ObjectID>::empty());
            assert(events_view(events@) =~= v.gas_events() + v.written_events_all(
                digest_of,
                keys.take(0),
            ));
        }
        let mut i: usize = 0;
        while i < store.written.len()
            invariant
                i <= keys.len(),
                store.inv(),
                store@ == v,
                is_digest_fn(digest_of),
                keys == store.written.keys(),
                keys.len() == store.written.values().len(),
                forall|k: int|
                    0 <= k < keys.len() ==> store.written@.contains_key(#[trigger] keys[k])
                        && store.written@[keys[k]] == store.written.values()[k],
                gas_id == v.gas_id(),
                gas_charged == v.gas_amount(),
                written.wf(),
                forall|id: ObjectID| written@.contains_key(id) <==> keys.take(i as int).contains(id),
                forall|id: ObjectID| #[trigger]
                    written@.contains_key(id) ==> final_written_view(written@)[id] == v.final_written(
                        digest_of,
                    )[id],
                events_view(events@) == v.gas_events() + v.written_events_all(
                    digest_of,
                    keys.take(i as int),
                ),
            decreases keys.len() - i,
        {
            let id = store.written.key_at(i);
            let entry = store.written.value_at(i);
            proof {
                assert(keys.take(i + 1).drop_last() =~= keys.take(i as int));
                assert(keys.take(i + 1).last() == keys[i as int]);
                assert(store.written@.contains_key(keys[i as int]));
                assert(v.written[id] == (entry.0@, entry.1@, entry.2));
                assert(v.written.contains_key(id));
                assert(v.written_ok(id));
            }
            let kind = entry.2;
            let mut obj = entry.1.duplicate();
            if !obj.is_package() {
                obj.version = store.lamport_timestamp;
            }
            match obj.owner {
                Owner::Shared { initial_shared_version: _ } => {
                    match kind {
                        WriteKind::Create => {
                            obj.owner = Owner::Shared {
                                initial_shared_version: store.lamport_timestamp,
                            };
                        },
                        _ => {},
                    }
                },
                _ => {},
            }
            proof {
                assert(obj@ == v.final_object(id));
            }
            let old_obj = store.input_objects.get(&id);
            proof {
                assert(optional_view(old_obj) == v.old_object(id));
            }
            let mut written_events = Self::create_written_events(
                &entry.0,
                kind,
                id,
                &obj,
                old_obj,
                gas_id,
                gas_charged,
                digest_of,
            );
            let ghost events_before = events@;
            let ghost new_events = written_events@;
            events.append(&mut written_events);
            proof {
                assert(events_view(events@) =~= events_view(events_before) + events_view(new_events));
                assert(events_view(events@) =~= v.gas_events() + v.written_events_all(
                    digest_of,
                    keys.take(i + 1),
                ));
            }
            let object_ref = obj.compute_object_reference(digest_of);
            written.insert(id, (object_ref, obj, kind));
            proof {
                assert forall|x: ObjectID| written@.contains_key(x) <==> keys.take(i + 1).contains(
                    x,
                ) by {
                    let more = keys.take(i + 1);
                    let less = keys.take(i as int);
                    if more.contains(x) {
                        let n = choose|n: int| 0 <= n < more.len() && more[n] == x;
                        if n < i {
                            assert(less[n] == x);
                        }
                    }
                    if less.contains(x) {
                        let n = choose|n: int| 0 <= n < less.len() && less[n] == x;
                        assert(more[n] == x);
                    }
                    assert(more[i as int] == keys[i as int]);
                }
            }
            i = i + 1;
        }
        proof {
            assert(keys.take(i as int) =~= keys);
            assert(dkeys.take(0) =~= Seq::<ObjectID>::empty());
            assert(events_view(events@) =~= v.gas_events() + v.written_events_all(digest_of, keys)
                + v.deleted_events_all(dkeys.take(0)));
        }
        let mut j: usize = 0;
        while j < store.deleted.len()
            invariant
                j <= dkeys.len(),
                store.inv(),
                store@ == v,
                dkeys == store.deleted.keys(),
                dkeys.len() == store.deleted.values().len(),
                forall|k: int|
                    0 <= k < dkeys.len() ==> store.deleted@.contains_key(#[trigger] dkeys[k])
                        && store.deleted@[dkeys[k]] == store.deleted.values()[k],
                deleted.wf(),
                forall|id: ObjectID| deleted@.contains_key(id) <==> dkeys.take(j as int).contains(id),
                forall|id: ObjectID| #[trigger]
                    deleted@.contains_key(id) ==> deleted@[id] == v.final_deleted()[id],
                events_view(events@) == v.gas_events() + v.written_events_all(digest_of, keys)
                    + v.deleted_events_all(dkeys.take(j as int)),
            decreases dkeys.len() - j,
        {
            let id = store.deleted.key_at(j);
            let entry = store.deleted.value_at(j);
            proof {
                assert(dkeys.take(j + 1).drop_last() =~= dkeys.take(j as int));
                assert(dkeys.take(j + 1).last() == dkeys[j as int]);
                assert(store.deleted@.contains_key(dkeys[j as int]));
                assert(v.deleted[id] == (entry.0@, entry.1, entry.2));
                assert(v.deleted.contains_key(id));
            }
            let mut version = entry.1;
            version.increment_to(store.lamport_timestamp);
            let deleted_obj = store.input_objects.get(&id);
            proof {
                assert(optional_view(deleted_obj) == v.old_object(id));
            }
            let event = Self::create_deleted_event(&entry.0, id, version, deleted_obj);
            let ghost events_before = events@;
            events.push(event);
            proof {
                assert(events_view(events@) =~= events_view(events_before).push(event@));
                assert(events_view(events@) =~= v.gas_events() + v.written_events_all(digest_of, keys)
                    + v.deleted_events_all(dkeys.take(j + 1)));
            }
            deleted.insert(id, (version, entry.2));
            proof {
                assert forall|x: ObjectID| deleted@.contains_key(x) <==> dkeys.take(j + 1).contains(
                    x,
                ) by {
                    let more = dkeys.take(j + 1);
                    let less = dkeys.take(j as int);
                    if more.contains(x) {
                        let n = choose|n: int| 0 <= n < more.len() && more[n] == x;
                        if n < j {
                            assert(less[n] == x);
                        }
                    }
                    if less.contains(x) {
                        let n = choose|n: int| 0 <= n < less.len() && less[n] == x;
                        assert(more[n] == x);
                    }
                    assert(more[j as int] == dkeys[j as int]);
                }
            }
            j = j + 1;
        }
        let ghost events_before = events@;
        let ghost logged = store.events@;
        events.append(&mut store.events);
        proof {
            assert(dkeys.take(j as int) =~= dkeys);
            assert(events_view(events@) =~= events_view(events_before) + events_view(logged));
            assert forall|id: ObjectID| written@.contains_key(id) <==> v.written.contains_key(id) by {
                assert(v.written.contains_key(id) <==> store.written@.contains_key(id));
            }
            assert forall|id: ObjectID| deleted@.contains_key(id) <==> v.deleted.contains_key(id) by {
                assert(v.deleted.contains_key(id) <==> store.deleted@.contains_key(id));
            }
            assert(final_written_view(written@) =~= v.final_written(digest_of));
            assert(deleted@ =~= v.final_deleted());
        }
        InnerTemporaryStore {
            objects: store.input_objects,
            mutable_inputs: store.mutable_input_refs,
            written,
            deleted,
            events: TransactionEvents { data: events },
        }
    }
}

impl<S> TemporaryStore<S> {
    /// An upper bound on the bytes that the effects of the transaction take.
    pub fn estimate_effects_size_upperbound(&self) -> (r: usize)
        requires
            self.inv(),
        ensures
            r == if effects_size_upperbound(
                self@.written.dom().len() as int,
                self@.mutable_input_refs.len() as int,
                self@.deleted.dom().len() as int,
                self@.input_objects.dom().len() as int,
            ) > usize::MAX {
                usize::MAX as int
            } else {
                effects_size_upperbound(
                    self@.written.dom().len() as int,
                    self@.mutable_input_refs.len() as int,
                    self@.deleted.dom().len() as int,
                    self@.input_objects.dom().len() as int,
                )
            },
    {
        proof {
            self.written.lemma_walk();
            self.deleted.lemma_walk();
            self.input_objects.lemma_walk();
            assert(self@.written.dom() =~= self.written@.dom());
            assert(self@.deleted.dom() =~= self.deleted@.dom());
            assert(self@.input_objects.dom() =~= self.input_objects@.dom());
        }
        TransactionEffects::estimate_effects_size_upperbound(
            self.written.len(),
            self.mutable_input_refs.len(),
            self.deleted.len(),
            self.input_objects.len(),
        )
    }

    /// The versions at which the objects that the transaction mutated or
    /// deleted were before, in increasing order of identifier: the written
    /// and the deleted objects are walked together.
    fn modified_at_versions(&self) -> (r: Vec<(ObjectID, SequenceNumber)>)
        requires
            self.inv(),
        ensures
            r@ == self@.modified_at_versions(),
            ascending_by_id(r@),
    {
        let ghost v = self@;
        let ghost keys = self.written.keys();
        let ghost dkeys = self.deleted.keys();
        let ghost merged = Seq::<ObjectID>::empty();
        let mut modified: Vec<(ObjectID, SequenceNumber)> = Vec::new();
        proof {
            self.written.lemma_walk();
            self.deleted.lemma_walk();
            assert(v.written.dom() =~= self.written@.dom());
            assert(v.deleted.dom() =~= self.deleted@.dom());
        }
        let mut i: usize = 0;
        let mut j: usize = 0;
        while i < self.written.len() || j < self.deleted.len()
            invariant
                i <= keys.len(),
                j <= dkeys.len(),
                self.inv(),
                self@ == v,
                keys == self.written.keys(),
                dkeys == self.deleted.keys(),
                keys.len() == self.written.values().len(),
                dkeys.len() == self.deleted.values().len(),
                strictly_increasing(keys),
                strictly_increasing(dkeys),
                forall|k: int|
                    0 <= k < keys.len() ==> self.written@.contains_key(#[trigger] keys[k])
                        && self.written@[keys[k]] == self.written.values()[k],
                forall|k: int|
                    0 <= k < dkeys.len() ==> self.deleted@.contains_key(#[trigger] dkeys[k])
                        && self.deleted@[dkeys[k]] == self.deleted.values()[k],
                strictly_increasing(merged),
                forall|k: int|
                    0 <= k < merged.len() ==> (i < keys.len() ==> (#[trigger] merged[k]).0 < keys[i as int].0)
                        && (j < dkeys.len() ==> merged[k].0 < dkeys[j as int].0),
                forall|id: ObjectID|
                    merged.contains(id) <==> keys.take(i as int).contains(id) || dkeys.take(
                        j as int,
                    ).contains(id),
                modified@ == v.modified_among(merged),
                ascending_by_id(modified@),
                forall|k: int|
                    0 <= k < modified@.len() ==> merged.len() > 0 && (#[trigger] modified@[k]).0.0
                        <= merged.last().0,
            decreases (keys.len() - i) + (dkeys.len() - j),
        {
            let from_written = if i < self.written.len() {
                if j < self.deleted.len() {
                    self.written.key_at(i).0 < self.deleted.key_at(j).0
                } else {
                    true
                }
            } else {
                false
            };
            let ghost before = merged;
            let ghost taken_w = keys.take(i as int);
            let ghost taken_d = dkeys.take(j as int);
            if from_written {
                let id = self.written.key_at(i);
                let entry = self.written.value_at(i);
                proof {
                    assert(self.written@.contains_key(keys[i as int]));
                    assert(v.written.contains_key(id));
                    assert(v.written[id] == (entry.0@, entry.1@, entry.2));
                    merged = merged.push(id);
                    assert(merged.drop_last() =~= before);
                }
                match entry.2 {
                    WriteKind::Mutate => {
                        modified.push((id, entry.1.version()));
                    },
                    _ => {},
                }
                i = i + 1;
                proof {
                    let more = keys.take(i as int);
                    assert forall|x: ObjectID|
                        merged.contains(x) <==> more.contains(x) || taken_d.contains(x) by {
                        if merged.contains(x) {
                            let n = choose|n: int| 0 <= n < merged.len() && merged[n] == x;
                            if n < before.len() {
                                assert(before[n] == x);
                                assert(before.contains(x));
                                if taken_w.contains(x) {
                                    let t = choose|t: int| 0 <= t < taken_w.len() && taken_w[t] == x;
                                    assert(more[t] == x);
                                }
                            } else {
                                assert(more[i - 1] == x);
                            }
                        }
                        if more.contains(x) {
                            let t = choose|t: int| 0 <= t < more.len() && more[t] == x;
                            if t < i - 1 {
                                assert(taken_w[t] == x);
                                assert(before.contains(x));
                                let n = choose|n: int| 0 <= n < before.len() && before[n] == x;
                                assert(merged[n] == x);
                            } else {
                                assert(merged[merged.len() - 1] == x);
                            }
                        }
                        if taken_d.contains(x) {
                            assert(before.contains(x));
                            let n = choose|n: int| 0 <= n < before.len() && before[n] == x;
                            assert(merged[n] == x);
                        }
                    }
                }
            } else {
                let id = self.deleted.key_at(j);
                let entry = self.deleted.value_at(j);
                proof {
                    assert(self.deleted@.contains_key(dkeys[j as int]));
                    assert(v.deleted.contains_key(id));
                    assert(v.deleted[id] == (entry.0@, entry.1, entry.2));
                    assert(!v.written.contains_key(id));
                    if i < keys.len() {
                        assert(self.written@.contains_key(keys[i as int]));
                        assert(v.written.contains_key(keys[i as int]));
                    }
                    merged = merged.push(id);
                    assert(merged.drop_last() =~= before);
                }
                modified.push((id, entry.1));
                j = j + 1;
                proof {
                    let more = dkeys.take(j as int);
                    assert forall|x: ObjectID|
                        merged.contains(x) <==> taken_w.contains(x) || more.contains(x) by {
                        if merged.contains(x) {
                            let n = choose|n: int| 0 <= n < merged.len() && merged[n] == x;
                            if n < before.len() {
                                assert(before[n] == x);
                                assert(before.contains(x));
                                if taken_d.contains(x) {
                                    let t = choose|t: int| 0 <= t < taken_d.len() && taken_d[t] == x;
                                    assert(more[t] == x);
                                }
                            } else {
                                assert(more[j - 1] == x);
                            }
                        }
                        if more.contains(x) {
                            let t = choose|t: int| 0 <= t < more.len() && more[t] == x;
                            if t < j - 1 {
                                assert(taken_d[t] == x);
                                assert(before.contains(x));
                                let n = choose|n: int| 0 <= n < before.len() && before[n] == x;
                                assert(merged[n] == x);
                            } else {
                                assert(merged[merged.len() - 1] == x);
                            }
                        }
                        if taken_w.contains(x) {
                            assert(before.contains(x));
                            let n = choose|n: int| 0 <= n < before.len() && before[n] == x;
                            assert(merged[n] == x);
                        }
                    }
                }
            }
        }
        proof {
            assert(keys.take(i as int) =~= keys);
            assert(dkeys.take(j as int) =~= dkeys);
            let all = v.written.dom().union(v.deleted.dom());
            assert forall|id: ObjectID| merged.contains(id) <==> all.contains(id) by {
                assert(v.written.contains_key(id) <==> keys.contains(id));
                assert(v.deleted.contains_key(id) <==> dkeys.contains(id));
            }
            crate::id_map::lemma_sorted_ids_of(merged, all);
        }
        modified
    }

    /// Ends the transaction and hands out what is left of the store,
    /// together with the effects of the transaction.
    pub fn to_effects<
        F: Fn(&Object) -> ObjectDigest,
        G: Fn(&TransactionEvents) -> TransactionEventsDigest,
    >(
        self,
        shared_object_refs: Vec<ObjectRef>,
        transaction_digest: &TransactionDigest,
        transaction_dependencies: Vec<TransactionDigest>,
        gas_cost_summary: GasCostSummary,
        status: ExecutionStatus,
        gas: &[ObjectRef],
        epoch: EpochId,
        digest_of: &F,
        events_digest_of: &G,
    ) -> (r: (InnerTemporaryStore, TransactionEffects))
        requires
            self.inv(),
            self@.inputs_accounted_for(),
            self@.can_make_effects(gas@),
            is_digest_fn(digest_of),
            is_events_digest_fn(events_digest_of),
        ensures
            r.0.wf(),
            r.0@ == self@.into_inner(digest_of),
            r.1@ == self@.to_effects(
                shared_object_refs@,
                *transaction_digest,
                transaction_dependencies@,
                gas_cost_summary,
                status,
                gas@,
                epoch,
                digest_of,
                events_digest_of,
            ),
            ascending_by_id(r.1@.modified_at_versions),
    {
        let ghost v = self@;
        let modified_at_versions = self.modified_at_versions();
        let protocol_version = self.protocol_version;
        let inner = self.into_inner(digest_of);
        let ghost out = inner@;
        let ghost wkeys = inner.written.keys();
        let ghost xkeys = inner.deleted.keys();
        proof {
            inner.written.lemma_keys_sorted();
            inner.deleted.lemma_keys_sorted();
            inner.written.lemma_walk();
            inner.deleted.lemma_walk();
            assert(out.written.dom() =~= inner.written@.dom());
            assert(wkeys.take(0) =~= Seq::<ObjectID>::empty());
            assert(xkeys.take(0) =~= Seq::<ObjectID>::empty());
        }
        let gas_object_ref = gas[0];
        let updated_gas_object_info: (ObjectRef, Owner) = if gas_object_ref.0.is_zero() {
            (gas_object_ref, Owner::AddressOwner(SuiAddress::default()))
        } else {
            match inner.written.get(&gas_object_ref.0) {
                Some(entry) => (entry.0, entry.1.owner),
                None => (gas_object_ref, Owner::AddressOwner(SuiAddress::default())),
            }
        };
        let mut mutated: Vec<(ObjectRef, Owner)> = Vec::new();
        let mut created: Vec<(ObjectRef, Owner)> = Vec::new();
        let mut unwrapped: Vec<(ObjectRef, Owner)> = Vec::new();
        let mut n: usize = 0;
        while n < inner.written.len()
            invariant
                n <= wkeys.len(),
                inner@ == out,
                wkeys == inner.written.keys(),
                wkeys.len() == inner.written.values().len(),
                forall|k: int|
                    0 <= k < wkeys.len() ==> inner.written@.contains_key(#[trigger] wkeys[k])
                        && inner.written@[wkeys[k]] == inner.written.values()[k],
                created@ == out.written_of_kind(WriteKind::Create, wkeys.take(n as int)),
                mutated@ == out.written_of_kind(WriteKind::Mutate, wkeys.take(n as int)),
                unwrapped@ == out.written_of_kind(WriteKind::Unwrap, wkeys.take(n as int)),
            decreases wkeys.len() - n,
        {
            let entry = inner.written.value_at(n);
            proof {
                assert(wkeys.take(n + 1).drop_last() =~= wkeys.take(n as int));
                assert(wkeys.take(n + 1).last() == wkeys[n as int]);
                assert(inner.written@.contains_key(wkeys[n as int]));
                assert(out.written[wkeys[n as int]] == (entry.0, entry.1@, entry.2));
            }
            match entry.2 {
                WriteKind::Mutate => {
                    mutated.push((entry.0, entry.1.owner));
                },
                WriteKind::Create => {
                    created.push((entry.0, entry.1.owner));
                },
                WriteKind::Unwrap => {
                    unwrapped.push((entry.0, entry.1.owner));
                },
            }
            n = n + 1;
        }
        let mut deleted: Vec<ObjectRef> = Vec::new();
        let mut wrapped: Vec<ObjectRef> = Vec::new();
        let mut unwrapped_then_deleted: Vec<ObjectRef> = Vec::new();
        let mut m: usize = 0;
        while m < inner.deleted.len()
            invariant
                m <= xkeys.len(),
                inner@ == out,
                xkeys == inner.deleted.keys(),
                xkeys.len() == inner.deleted.values().len(),
                forall|k: int|
                    0 <= k < xkeys.len() ==> inner.deleted@.contains_key(#[trigger] xkeys[k])
                        && inner.deleted@[xkeys[k]] == inner.deleted.values()[k],
                deleted@ == out.deleted_of_kind(
                    DeleteKind::Normal,
                    ObjectDigest::spec_deleted(),
                    xkeys.take(m as int),
                ),
                unwrapped_then_deleted@ == out.deleted_of_kind(
                    DeleteKind::UnwrapThenDelete,
                    ObjectDigest::spec_deleted(),
                    xkeys.take(m as int),
                ),
                wrapped@ == out.deleted_of_kind(
                    DeleteKind::Wrap,
                    ObjectDigest::spec_wrapped(),
                    xkeys.take(m as int),
                ),
            decreases xkeys.len() - m,
        {
            let id = inner.deleted.key_at(m);
            let entry = inner.deleted.value_at(m);
            proof {
                assert(xkeys.take(m + 1).drop_last() =~= xkeys.take(m as int));
                assert(xkeys.take(m + 1).last() == xkeys[m as int]);
                assert(inner.deleted@.contains_key(xkeys[m as int]));
            }
            match entry.1 {
                DeleteKind::Normal => {
                    deleted.push((id, entry.0, ObjectDigest::object_digest_deleted()));
                },
                DeleteKind::UnwrapThenDelete => {
                    unwrapped_then_deleted.push((id, entry.0, ObjectDigest::object_digest_deleted()));
                },
                DeleteKind::Wrap => {
                    wrapped.push((id, entry.0, ObjectDigest::object_digest_wrapped()));
                },
            }
            m = m + 1;
        }
        proof {
            assert(wkeys.take(n as int) =~= wkeys);
            assert(xkeys.take(m as int) =~= xkeys);
        }
        let events_digest = if inner.events.data.len() == 0 {
            None
        } else {
            let d = events_digest_of(&inner.events);
            proof {
                lemma_events_digest_of_view(events_digest_of, inner.events, d);
            }
            Some(d)
        };
        let effects = TransactionEffects::new_from_execution(
            protocol_version,
            status,
            epoch,
            gas_cost_summary,
            modified_at_versions,
            shared_object_refs,
            *transaction_digest,
            created,
            mutated,
            unwrapped,
            deleted,
            unwrapped_then_deleted,
            wrapped,
            updated_gas_object_info,
            events_digest,
            transaction_dependencies,
        );
        (inner, effects)
    }
}

impl<S> TemporaryStore<S> {
    /// Checks at run time what the store takes for granted: no object is
    /// both written and deleted, every mutable input was written or deleted,
    /// and every written object names the transaction of the store as the
    /// last that changed it.
    pub fn check_invariants(&self) -> (r: bool)
        requires
            self.wf(),
        ensures
            r == (self@.disjoint() && self@.inputs_accounted_for() && self@.written_stamped()),
    {
        let ghost v = self@;
        let ghost keys = self.written.keys();
        proof {
            self.written.lemma_walk();
            self.deleted.lemma_walk();
            assert(v.written.dom() =~= self.written@.dom());
            assert forall|id: ObjectID| v.written.contains_key(id) <==> keys.contains(id) by {
                assert(v.written.contains_key(id) <==> v.written.dom().contains(id));
                assert(self.written@.contains_key(id) <==> self.written@.dom().contains(id));
            }
        }
        let mut i: usize = 0;
        while i < self.written.len()
            invariant
                i <= keys.len(),
                self.wf(),
                self@ == v,
                keys == self.written.keys(),
                keys.len() == self.written.values().len(),
                forall|k: int|
                    0 <= k < keys.len() ==> self.written@.contains_key(#[trigger] keys[k])
                        && self.written@[keys[k]] == self.written.values()[k],
                forall|id: ObjectID| v.written.contains_key(id) <==> keys.contains(id),
                forall|k: int|
                    0 <= k < i ==> !v.deleted.contains_key(#[trigger] keys[k])
                        && v.written[keys[k]].1.previous_transaction == v.tx_digest,
            decreases keys.len() - i,
        {
            let id = self.written.key_at(i);
            let entry = self.written.value_at(i);
            proof {
                assert(self.written@.contains_key(keys[i as int]));
                assert(v.written[id] == (entry.0@, entry.1@, entry.2));
                assert(v.written.contains_key(id));
                assert(v.deleted.contains_key(id) <==> self.deleted@.contains_key(id));
            }
            if self.deleted.contains_key(&id) || entry.1.previous_transaction != self.tx_digest {
                return false;
            }
            i = i + 1;
        }
        proof {
            assert forall|id: ObjectID| !(v.written.contains_key(id) && v.deleted.contains_key(id)) by {
                if v.written.contains_key(id) {
                    assert(keys.contains(id));
                    let k = choose|k: int| 0 <= k < keys.len() && keys[k] == id;
                    assert(!v.deleted.contains_key(keys[k]));
                }
            }
            assert forall|id: ObjectID| #[trigger] v.written.contains_key(id) implies v.written[id].1.previous_transaction
                == v.tx_digest by {
                assert(keys.contains(id));
                let k = choose|k: int| 0 <= k < keys.len() && keys[k] == id;
                assert(v.written[keys[k]].1.previous_transaction == v.tx_digest);
            }
        }
        let mut j: usize = 0;
        while j < self.mutable_input_refs.len()
            invariant
                j <= self.mutable_input_refs.len(),
                self.wf(),
                self@ == v,
                v.disjoint(),
                v.written_stamped(),
                forall|k: int|
                    0 <= k < j ==> v.written.contains_key((#[trigger] v.mutable_input_refs[k]).0)
                        || v.deleted.contains_key(v.mutable_input_refs[k].0),
            decreases self.mutable_input_refs.len() - j,
        {
            let id = self.mutable_input_refs[j].0;
            proof {
                assert(v.written.contains_key(id) <==> self.written@.contains_key(id));
                assert(v.deleted.contains_key(id) <==> self.deleted@.contains_key(id));
            }
            if !self.written.contains_key(&id) && !self.deleted.contains_key(&id) {
                proof {
                    assert(!(v.written.contains_key(v.mutable_input_refs[j as int].0)
                        || v.deleted.contains_key(v.mutable_input_refs[j as int].0)));
                }
                return false;
            }
            j = j + 1;
        }
        true
    }

    /// Checks that the transaction neither made nor destroyed native
    /// currency: what its mutable inputs held is what the objects it wrote
    /// hold, the charge for computation and the share of the rebates that
    /// stays with the storage fund. It is to be called when gas has been
    /// charged. A transaction that touched a dynamic field is not checked.
    pub fn check_sui_conserved<H: Fn(&Object) -> u64>(&self, held: &H) -> (r: Result<(), SuiError>)
        requires
            self.inv(),
            is_sui_fn(held),
            self@.dynamic_fields_touched().len() == 0 ==> self@.gas_charged is Some,
        ensures
            r == self@.check_sui_conserved(held),
    {
        let ghost v = self@;
        if self.dynamic_fields_touched().len() > 0 {
            return Ok(());
        }
        let ghost refs = self.mutable_input_refs@;
        let ghost keys = self.written.keys();
        proof {
            self.written.lemma_keys_sorted();
            self.written.lemma_walk();
            assert(v.written.dom() =~= self.written@.dom());
            assert(refs.take(0) =~= Seq::<ObjectRef>::empty());
            assert(keys.take(0) =~= Seq::<ObjectID>::empty());
        }
        let mut readable = true;
        let mut input_sui: u128 = 0;
        let mut input_fits = true;
        let mut i: usize = 0;
        while i < self.mutable_input_refs.len()
            invariant
                i <= refs.len(),
                self.inv(),
                self@ == v,
                is_sui_fn(held),
                refs == self.mutable_input_refs@,
                readable == (v.input_sui(held, refs.take(i as int)) is Some),
                readable ==> 0 <= v.input_sui(held, refs.take(i as int))->0,
                readable ==> input_fits == (v.input_sui(held, refs.take(i as int))->0 <= u128::MAX),
                readable && input_fits ==> input_sui == v.input_sui(held, refs.take(i as int))->0,
            decreases refs.len() - i,
        {
            proof {
                assert(refs.take(i + 1).drop_last() =~= refs.take(i as int));
                assert(refs.take(i + 1).last() == refs[i as int]);
                assert(v.input_objects.contains_key(v.mutable_input_refs[i as int].0));
            }
            match self.input_objects.get(&self.mutable_input_refs[i].0) {
                Some(object) => {
                    match object.get_total_sui(held) {
                        Ok(amount) => {
                            if input_fits && amount <= u128::MAX - input_sui {
                                input_sui = input_sui + amount;
                            } else {
                                input_fits = false;
                            }
                        },
                        Err(_) => {
                            readable = false;
                        },
                    }
                },
                None => {},
            }
            i = i + 1;
        }
        let ghost input_total = v.input_sui(held, refs);
        proof {
            assert(refs.take(i as int) =~= refs);
        }
        let mut output_sui: u128 = 0;
        let mut output_fits = true;
        let mut outputs_readable = true;
        let mut j: usize = 0;
        while j < self.written.len()
            invariant
                j <= keys.len(),
                self.inv(),
                self@ == v,
                is_sui_fn(held),
                keys == self.written.keys(),
                keys.len() == self.written.values().len(),
                forall|k: int|
                    0 <= k < keys.len() ==> self.written@.contains_key(#[trigger] keys[k])
                        && self.written@[keys[k]] == self.written.values()[k],
                outputs_readable == (v.output_sui(held, keys.take(j as int)) is Some),
                outputs_readable ==> 0 <= v.output_sui(held, keys.take(j as int))->0,
                outputs_readable ==> output_fits == (v.output_sui(held, keys.take(j as int))->0
                    <= u128::MAX),
                outputs_readable && output_fits ==> output_sui == v.output_sui(
                    held,
                    keys.take(j as int),
                )->0,
            decreases keys.len() - j,
        {
            let entry = self.written.value_at(j);
            proof {
                assert(keys.take(j + 1).drop_last() =~= keys.take(j as int));
                assert(keys.take(j + 1).last() == keys[j as int]);
                assert(self.written@.contains_key(keys[j as int]));
                assert(v.written[keys[j as int]] == (entry.0@, entry.1@, entry.2));
            }
            match entry.1.get_total_sui(held) {
                Ok(amount) => {
                    if output_fits && amount <= u128::MAX - output_sui {
                        output_sui = output_sui + amount;
                    } else {
                        output_fits = false;
                    }
                },
                Err(_) => {
                    outputs_readable = false;
                },
            }
            j = j + 1;
        }
        proof {
            assert(keys.take(j as int) =~= keys);
        }
        if !readable || !outputs_readable {
            return Err(SuiError::BadObjectType);
        }
        proof {
            match v.gas_charged {
                Some(charged) => {
                    charged.2.lemma_sender_rebate_bounds(v.storage_rebate_rate);
                },
                None => {},
            }
        }
        if !input_fits || !output_fits {
            return Err(SuiError::ConservationViolation);
        }
        match &self.gas_charged {
            Some(charged) => {
                let computation_cost = charged.2.computation_cost as u128;
                let inflow = charged.2.storage_fund_rebate_inflow(self.storage_rebate_rate) as u128;
                let burned = computation_cost + inflow;
                if burned <= u128::MAX - output_sui && input_sui == output_sui + burned {
                    Ok(())
                } else {
                    Err(SuiError::ConservationViolation)
                }
            },
            None => Err(SuiError::ConservationViolation),
        }
    }

    /// The bytes of the Move object `address`, which should be of type
    /// `struct_tag`: nothing where the store cannot read the object; where
    /// it is a package or of another type, the error that tells of an
    /// inconsistency of the engine.
    pub fn get_resource(&self, address: &ObjectID, struct_tag: &MoveObjectType) -> (r: Result<
        Option<Vec<u8>>,
        SuiError,
    >)
        requires
            self.inv(),
            !self@.deleted.contains_key(*address),
        ensures
            is_bytes_result(r, self@.get_resource(*address, struct_tag@)),
    {
        match self.read_object(address) {
            None => Ok(None),
            Some(object) => {
                match &object.data {
                    Data::Move(m) => {
                        if m.is_type(struct_tag) {
                            Ok(Some(copy_bytes(m.contents())))
                        } else {
                            Err(SuiError::ExecutionInvariantViolation)
                        }
                    },
                    Data::Package(_) => Err(SuiError::ExecutionInvariantViolation),
                }
            },
        }
    }

    /// Where module `module_name` of package `package_id` is to be had: with
    /// the store where the transaction wrote the package, else with the
    /// storage behind the store.
    pub fn get_module_by_id(&self, package_id: &ObjectID, module_name: &String) -> (r: Result<
        ModuleSource,
        SuiError,
    >)
        requires
            self.inv(),
        ensures
            match self@.get_module_by_id(*package_id, module_name@) {
                Ok(source) => r is Ok && r->Ok_0@ == source,
                Err(e) => r == Err::<ModuleSource, SuiError>(e),
            },
    {
        match self.written.get(package_id) {
            Some(entry) => {
                proof {
                    assert(self@.written[*package_id] == (entry.0@, entry.1@, entry.2));
                }
                match &entry.1.data {
                    Data::Package(p) => {
                        match p.get_module(module_name) {
                            Some(bytes) => Ok(ModuleSource::Written(bytes)),
                            None => Err(SuiError::ModuleNotFound),
                        }
                    },
                    Data::Move(_) => Err(SuiError::BadObjectType),
                }
            },
            None => Ok(ModuleSource::Backing),
        }
    }
}

/// The module `name` of what should be package `package`.
fn module_of_package(package: &Object, name: &String) -> (r: Result<Option<Vec<u8>>, SuiError>)
    ensures
        is_bytes_result(r, module_of(package@, name@)),
{
    match &package.data {
        Data::Package(p) => Ok(p.get_module(name)),
        Data::Move(_) => Err(SuiError::BadObjectType),
    }
}

impl<S: ChildObjectResolver> TemporaryStore<S> {
    /// Reads the child `child` of `parent`: what the transaction wrote under
    /// it, else what the storage behind the store holds.
    pub fn read_child_object(&self, parent: &ObjectID, child: &ObjectID) -> (r: Result<
        Option<Object>,
        SuiError,
    >)
        requires
            self.inv(),
            !self@.deleted.contains_key(*child),
        ensures
            is_object_result(
                r,
                self@.read_child_object(*child, self.backing().spec_read_child_object(*parent, *child)),
            ),
    {
        match self.written.get(child) {
            Some(entry) => {
                proof {
                    assert(self@.written[*child] == (entry.0@, entry.1@, entry.2));
                }
                Ok(Some(entry.1.duplicate()))
            },
            None => self.store.read_child_object(parent, child),
        }
    }
}

impl<S: ParentSync> TemporaryStore<S> {
    /// The latest reference under which the storage behind the store saw object `object_id`.
    pub fn get_latest_parent_entry_ref(&self, object_id: ObjectID) -> (r: Result<
        Option<ObjectRef>,
        SuiError,
    >)
        ensures
            r == self.backing().spec_get_latest_parent_entry_ref(object_id),
    {
        self.store.get_latest_parent_entry_ref(object_id)
    }
}

impl<S: BackingPackageStore> TemporaryStore<S> {
    /// The bytes of module `module_name` of package `package_id`: from the
    /// package as the store reads it, else from the storage behind the
    /// store. Nothing where neither has the package or the package has no
    /// such module; an error where what is found is no package.
    pub fn get_module(&self, package_id: &ObjectID, module_name: &String) -> (r: Result<
        Option<Vec<u8>>,
        SuiError,
    >)
        requires
            self.inv(),
            !self@.deleted.contains_key(*package_id),
        ensures
            is_bytes_result(
                r,
                self@.get_module(*package_id, module_name@, self.backing().spec_get_package(*package_id)),
            ),
    {
        match self.read_object(package_id) {
            Some(object) => module_of_package(object, module_name),
            None => {
                match self.store.get_package(package_id) {
                    Ok(Some(object)) => module_of_package(&object, module_name),
                    Ok(None) => Ok(None),
                    Err(e) => Err(e),
                }
            },
        }
    }
}

/// A store without inputs and without storage behind it.
pub fn empty_for_testing() -> (s: TemporaryStore<()>)
    ensures
        s.inv(),
        s@.input_objects == Map::<ObjectID, ObjectView>::empty(),
        s@.mutable_input_refs == Seq::<ObjectRef>::empty(),
        s@.written == Map::<ObjectID, WrittenView>::empty(),
        s@.deleted == Map::<ObjectID, DeletedView>::empty(),
        s@.events == Seq::<EventView>::empty(),
        s@.gas_charged is None,
        s@.tx_digest == (TransactionDigest { high: 0, low: 0 }),
        s@.lamport_timestamp == SequenceNumber(1),
        s@.storage_rebate_rate == 9900,
        s@.protocol_version == ProtocolVersion(1),
{
    let inputs = InputObjects::new(Vec::new());
    proof {
        assert(inputs@ =~= Seq::<InputView>::empty());
    }
    let no_digest = |object: &Object| -> (d: ObjectDigest)
        ensures
            d == (ObjectDigest { high: 0, low: 0 }),
        { ObjectDigest { high: 0, low: 0 } };
    let s = TemporaryStore::new(
        (),
        inputs,
        TransactionDigest::genesis(),
        &ProtocolConfig::get_for_min_version(),
        &no_digest,
    );
    proof {
        crate::messages::lemma_no_inputs(&no_digest);
    }
    s
}

/// A store over the given inputs, without storage behind it.
pub fn with_input_objects_for_testing<F: Fn(&Object) -> ObjectDigest>(
    input_objects: InputObjects,
    digest_of: &F,
) -> (s: TemporaryStore<()>)
    requires
        inputs_wf(input_objects@),
        is_digest_fn(digest_of),
    ensures
        s.inv(),
        s@ == initial_store(
            input_objects@,
            TransactionDigest { high: 0, low: 0 },
            ProtocolConfig { version: ProtocolVersion(1), storage_rebate_rate: 9900 },
            digest_of,
        ),
{
    TemporaryStore::new(
        (),
        input_objects,
        TransactionDigest::genesis(),
        &ProtocolConfig::get_for_min_version(),
        digest_of,
    )
}

impl<S> TemporaryStore<S> {
    /// A copy of the store without the storage behind it, on which a step
    /// can be tried without touching the store.
    fn shadow(&self) -> (r: TemporaryStore<()>)
        requires
            self.inv(),
        ensures
            r.inv(),
            r@ == self@,
    {
        let ghost v = self@;
        proof {
            self.input_objects.lemma_walk();
            self.written.lemma_walk();
            self.deleted.lemma_walk();
        }
        let mut input_objects: IdMap<Object> = IdMap::new();
        let ghost ikeys = self.input_objects.keys();
        let mut i: usize = 0;
        while i < self.input_objects.len()
            invariant
                i <= ikeys.len(),
                ikeys == self.input_objects.keys(),
                ikeys.len() == self.input_objects.values().len(),
                forall|k: int|
                    0 <= k < ikeys.len() ==> self.input_objects@.contains_key(#[trigger] ikeys[k])
                        && self.input_objects@[ikeys[k]] == self.input_objects.values()[k],
                input_objects.wf(),
                forall|id: ObjectID| input_objects@.contains_key(id) <==> ikeys.take(i as int).contains(id),
                forall|id: ObjectID| #[trigger]
                    input_objects@.contains_key(id) ==> input_objects@[id]@ == self.input_objects@[id]@,
            decreases ikeys.len() - i,
        {
            let id = self.input_objects.key_at(i);
            let object = self.input_objects.value_at(i).duplicate();
            proof {
                assert(self.input_objects@.contains_key(ikeys[i as int]));
            }
            input_objects.insert(id, object);
            proof {
                assert forall|x: ObjectID| input_objects@.contains_key(x) <==> ikeys.take(i + 1).contains(x) by {
                    crate::id_map::lemma_take_contains(ikeys, i as int, x);
                }
            }
            i = i + 1;
        }
        let mut written: IdMap<(SingleTxContext, Object, WriteKind)> = IdMap::new();
        let ghost wkeys = self.written.keys();
        let mut j: usize = 0;
        while j < self.written.len()
            invariant
                j <= wkeys.len(),
                wkeys == self.written.keys(),
                wkeys.len() == self.written.values().len(),
                forall|k: int|
                    0 <= k < wkeys.len() ==> self.written@.contains_key(#[trigger] wkeys[k])
                        && self.written@[wkeys[k]] == self.written.values()[k],
                written.wf(),
                forall|id: ObjectID| written@.contains_key(id) <==> wkeys.take(j as int).contains(id),
                forall|id: ObjectID| #[trigger]
                    written@.contains_key(id) ==> written_view(written@)[id] == written_view(
                        self.written@,
                    )[id],
            decreases wkeys.len() - j,
        {
            let id = self.written.key_at(j);
            let entry = self.written.value_at(j);
            proof {
                assert(self.written@.contains_key(wkeys[j as int]));
            }
            written.insert(id, (entry.0.duplicate(), entry.1.duplicate(), entry.2));
            proof {
                assert forall|x: ObjectID| written@.contains_key(x) <==> wkeys.take(j + 1).contains(x) by {
                    crate::id_map::lemma_take_contains(wkeys, j as int, x);
                }
            }
            j = j + 1;
        }
        let mut deleted: IdMap<(SingleTxContext, SequenceNumber, DeleteKind)> = IdMap::new();
        let ghost dkeys = self.deleted.keys();
        let mut k: usize = 0;
        while k < self.deleted.len()
            invariant
                k <= dkeys.len(),
                dkeys == self.deleted.keys(),
                dkeys.len() == self.deleted.values().len(),
                forall|n: int|
                    0 <= n < dkeys.len() ==> self.deleted@.contains_key(#[trigger] dkeys[n])
                        && self.deleted@[dkeys[n]] == self.deleted.values()[n],
                deleted.wf(),
                forall|id: ObjectID| deleted@.contains_key(id) <==> dkeys.take(k as int).contains(id),
                forall|id: ObjectID| #[trigger]
                    deleted@.contains_key(id) ==> deleted_view(deleted@)[id] == deleted_view(
                        self.deleted@,
                    )[id],
            decreases dkeys.len() - k,
        {
            let id = self.deleted.key_at(k);
            let entry = self.deleted.value_at(k);
            proof {
                assert(self.deleted@.contains_key(dkeys[k as int]));
            }
            deleted.insert(id, (entry.0.duplicate(), entry.1, entry.2));
            proof {
                assert forall|x: ObjectID| deleted@.contains_key(x) <==> dkeys.take(k + 1).contains(x) by {
                    crate::id_map::lemma_take_contains(dkeys, k as int, x);
                }
            }
            k = k + 1;
        }
        let mut events: Vec<Event> = Vec::new();
        let mut e: usize = 0;
        while e < self.events.len()
            invariant
                e <= self.events.len(),
                events_view(events@) == events_view(self.events@).take(e as int),
            decreases self.events.len() - e,
        {
            let ghost before = events@;
            let event = self.events[e].duplicate();
            events.push(event);
            e = e + 1;
            proof {
                assert(events_view(events@) =~= events_view(before).push(event@));
                assert(events_view(events@) =~= events_view(self.events@).take(e as int));
            }
        }
        let mut mutable_input_refs: Vec<ObjectRef> = Vec::new();
        let mut m: usize = 0;
        while m < self.mutable_input_refs.len()
            invariant
                m <= self.mutable_input_refs.len(),
                mutable_input_refs@ == self.mutable_input_refs@.take(m as int),
            decreases self.mutable_input_refs.len() - m,
        {
            mutable_input_refs.push(self.mutable_input_refs[m]);
            m = m + 1;
            proof {
                assert(mutable_input_refs@ =~= self.mutable_input_refs@.take(m as int));
            }
        }
        proof {
            assert(ikeys.take(i as int) =~= ikeys);
            assert(wkeys.take(j as int) =~= wkeys);
            assert(dkeys.take(k as int) =~= dkeys);
            assert(events_view(self.events@).take(e as int) =~= events_view(self.events@));
            assert(self.mutable_input_refs@.take(m as int) =~= self.mutable_input_refs@);
            assert(objects_view(input_objects@) =~= objects_view(self.input_objects@));
            assert(written_view(written@) =~= written_view(self.written@));
            assert(deleted_view(deleted@) =~= deleted_view(self.deleted@));
        }
        TemporaryStore {
            store: (),
            tx_digest: self.tx_digest,
            input_objects,
            lamport_timestamp: self.lamport_timestamp,
            mutable_input_refs,
            written,
            deleted,
            events,
            gas_charged: self.gas_charged,
            storage_rebate_rate: self.storage_rebate_rate,
            protocol_version: self.protocol_version,
        }
    }

    /// Resets the store where it can be reset, and tells whether it could.
    fn try_reset(&mut self, sender: SuiAddress, gas: &[ObjectRef], gas_status: &mut SuiGasStatus) -> (r:
        bool)
        requires
            old(self).inv(),
            old(gas_status).wf(),
        ensures
            final(self).inv(),
            final(gas_status).wf(),
            r == old(self)@.can_reset(sender, gas@),
            r ==> final(self)@ == old(self)@.reset(sender, gas@) && *final(gas_status) == old(
                gas_status,
            ).after_reset(),
    {
        self.drop_writes();
        gas_status.reset_storage_cost_and_rebate();
        if !self.can_smash_gas(gas) {
            return false;
        }
        match self.smash_gas(sender, gas) {
            Ok(_) => true,
            Err(_) => false,
        }
    }

    /// Whether storage can be charged with `gas_object_id` as the gas coin.
    fn can_charge_storage(&self, sender: SuiAddress, gas_object_id: ObjectID) -> (r: bool)
        requires
            self.inv(),
        ensures
            r == self@.can_charge_storage(sender, gas_object_id),
    {
        proof {
            reveal(StoreView::can_charge_storage);
        }
        if self.deleted.contains_key(&gas_object_id) {
            return false;
        }
        let written = self.written.contains_key(&gas_object_id);
        match self.read_object(&gas_object_id) {
            Some(object) => {
                if written {
                    true
                } else {
                    let ctx = SingleTxContext::gas(sender);
                    self.can_write_object(&ctx, object, WriteKind::Mutate)
                }
            },
            None => false,
        }
    }

    /// Whether the gas coin can pay what `gas_status` charged.
    fn can_pay(&self, gas_status: &SuiGasStatus, sender: SuiAddress, gas_object_id: ObjectID) -> (r:
        bool)
        requires
            self.inv(),
            gas_status.wf(),
        ensures
            r == self@.can_pay(*gas_status, sender, gas_object_id),
    {
        let ghost v = self@;
        let summary = gas_status.summary();
        proof {
            summary.lemma_sender_rebate_bounds(v.storage_rebate_rate);
        }
        match self.input_objects.get(&gas_object_id) {
            Some(input) => {
                if input.is_package() {
                    return false;
                }
            },
            None => {
                return false;
            },
        }
        if self.deleted.contains_key(&gas_object_id) {
            return false;
        }
        let gas_used = summary.gas_used();
        let rebate = summary.sender_rebate(self.storage_rebate_rate);
        match self.read_object(&gas_object_id) {
            Some(coin) => {
                proof {
                    if v.written.contains_key(gas_object_id) {
                        assert(v.written_ok(gas_object_id));
                    }
                }
                if coin.is_immutable() {
                    return false;
                }
                match &coin.data {
                    Data::Move(m) => {
                        if !m.type_.is_gas_coin() {
                            return false;
                        }
                        match Coin::from_bcs_bytes(m.contents.as_slice()) {
                            Ok(parsed) => {
                                parsed.balance >= gas_used && rebate <= u64::MAX - (parsed.balance
                                    - gas_used)
                            },
                            Err(_) => false,
                        }
                    },
                    Data::Package(_) => false,
                }
            },
            None => false,
        }
    }

    /// Whether gas can be charged to the store as it is. The charge is tried
    /// on a copy; the store itself is left alone.
    pub fn can_charge_gas(
        &self,
        gas_status: &SuiGasStatus,
        execution_failed: bool,
        sender: SuiAddress,
        gas_object_id: ObjectID,
        gas: &[ObjectRef],
    ) -> (r: bool)
        requires
            self.inv(),
        ensures
            r == self@.can_charge_gas(*gas_status, execution_failed, sender, gas_object_id, gas@),
    {
        if !gas_status.is_well_formed() {
            return false;
        }
        let mut shadow = self.shadow();
        let mut meter = *gas_status;
        if execution_failed {
            if !shadow.try_reset(sender, gas, &mut meter) {
                return false;
            }
        }
        if !shadow.can_charge_storage(sender, gas_object_id) {
            return false;
        }
        match shadow.charge_storage_and_computation(sender, &mut meter, gas_object_id) {
            Ok(_) => {},
            Err(_) => {
                if !shadow.try_reset(sender, gas, &mut meter) {
                    return false;
                }
                if !shadow.can_charge_storage(sender, gas_object_id) {
                    return false;
                }
                let _ = shadow.charge_storage_and_computation(sender, &mut meter, gas_object_id);
            },
        }
        shadow.can_pay(&meter, sender, gas_object_id)
    }

    /// Whether the changes can be applied to the store as it is, each when
    /// its turn comes. They are tried on a copy; the store itself is left alone.
    pub fn can_apply_object_changes(&self, changes: &IdMap<ObjectChange>) -> (r: bool)
        requires
            self.inv(),
            changes.wf(),
        ensures
            r == self@.can_apply(changes_view(changes.keys(), changes.values())),
    {
        let ghost all = changes_view(changes.keys(), changes.values());
        let ghost start = self@;
        let mut shadow = self.shadow();
        let mut i: usize = 0;
        proof {
            assert(all.take(0) =~= Seq::empty());
            changes.lemma_walk();
        }
        while i < changes.len()
            invariant
                i <= changes.keys().len(),
                changes.wf(),
                all == changes_view(changes.keys(), changes.values()),
                all.len() == changes.keys().len(),
                changes.keys().len() == changes.values().len(),
                start.inv(),
                start == self@,
                start.can_apply(all.take(i as int)),
                shadow.inv(),
                shadow@ == start.apply_changes(all.take(i as int)),
            decreases changes.keys().len() - i,
        {
            proof {
                assert(all.take(i + 1).drop_last() =~= all.take(i as int));
                assert(all.take(i + 1).last() == all[i as int]);
            }
            let id = changes.key_at(i);
            let ok = match changes.value_at(i) {
                ObjectChange::Write(ctx, object, kind) => {
                    if shadow.can_write_object(ctx, object, *kind) {
                        shadow.write_object(ctx, object.duplicate(), *kind);
                        true
                    } else {
                        false
                    }
                },
                ObjectChange::Delete(ctx, version, kind) => {
                    if shadow.can_delete_object(&id, *version) {
                        shadow.delete_object(ctx, &id, *version, *kind);
                        true
                    } else {
                        false
                    }
                },
            };
            if !ok {
                proof {
                    assert(!start.can_apply(all.take(i + 1)));
                    if start.can_apply(all) {
                        lemma_can_apply_prefix(start, all, i + 1);
                    }
                }
                return false;
            }
            i = i + 1;
        }
        proof {
            assert(all.take(i as int) =~= all);
        }
        true
    }
}

/// Changes that may all be applied may be applied up to any point.
pub proof fn lemma_can_apply_prefix(s: StoreView, changes: Seq<(ObjectID, ObjectChangeView)>, n: int)
    requires
        s.can_apply(changes),
        0 <= n <= changes.len(),
    ensures
        s.can_apply(changes.take(n)),
    decreases changes.len(),
{
    if n == changes.len() {
        assert(changes.take(n) =~= changes);
    } else {
        lemma_can_apply_prefix(s, changes.drop_last(), n);
        assert(changes.drop_last().take(n) =~= changes.take(n));
    }
}

} // verus!
