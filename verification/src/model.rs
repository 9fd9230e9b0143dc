//! The store as a mathematical value, and what its operations do to it.

use crate::base_types::{
    ObjectID, ObjectRef, ProtocolVersion, SequenceNumber, SuiAddress, TransactionDigest,
};
use crate::event::EventView;
use crate::gas::{GasCostSummary, BASIS_POINTS};
use crate::id_map::sorted_ids;
use crate::object::{ObjectView, Owner};
use crate::storage::{
    spec_is_system_package, DeleteKind, ObjectChangeView, SingleTxContextView, WriteKind,
};
use vstd::prelude::*;

verus! {

/// A staged write: under which context, what, and how.
pub type WrittenView = (SingleTxContextView, ObjectView, WriteKind);

/// A staged deletion: under which context, at which version, and how.
pub type DeletedView = (SingleTxContextView, SequenceNumber, DeleteKind);

/// What was charged in the end: to whom, on which coin, and how much.
pub type GasCharged = (SuiAddress, ObjectID, GasCostSummary);

/// The store of one transaction as a mathematical value.
pub struct StoreView {
    /// The transaction that the store belongs to.
    pub tx_digest: TransactionDigest,
    /// The inputs, frozen when the store was made.
    pub input_objects: Map<ObjectID, ObjectView>,
    /// The version that every object mutated or deleted by the transaction gets.
    pub lamport_timestamp: SequenceNumber,
    /// The references of the inputs that the transaction may mutate.
    pub mutable_input_refs: Seq<ObjectRef>,
    /// The objects written so far.
    pub written: Map<ObjectID, WrittenView>,
    /// The objects deleted so far.
    pub deleted: Map<ObjectID, DeletedView>,
    /// The events logged so far, in order.
    pub events: Seq<EventView>,
    /// What was charged, once gas has been charged.
    pub gas_charged: Option<GasCharged>,
    /// The share of a storage rebate that goes back to the sender, in parts of ten thousand.
    pub storage_rebate_rate: u64,
    /// The version of the protocol rules.
    pub protocol_version: ProtocolVersion,
}

/// `object` as written by transaction `tx_digest`.
pub open spec fn stamped_by(object: ObjectView, tx_digest: TransactionDigest) -> ObjectView {
    ObjectView { previous_transaction: tx_digest, ..object }
}

impl StoreView {
    /// No object is both written and deleted.
    pub open spec fn disjoint(self) -> bool {
        forall|id: ObjectID| !(self.written.contains_key(id) && self.deleted.contains_key(id))
    }

    /// What holds of one staged write.
    pub open spec fn written_ok(self, id: ObjectID) -> bool {
        let (ctx, object, kind) = self.written[id];
        &&& object.id() == id
        &&& object.previous_transaction == self.tx_digest
        &&& (kind is Create && object.owner is Shared ==> object.owner
            == Owner::Shared { initial_shared_version: SequenceNumber(0) })
        &&& (object.is_package() && !(kind is Create) ==> ctx.sender == SuiAddress(0)
            && spec_is_system_package(id))
    }

    /// The invariant of a store.
    pub open spec fn inv(self) -> bool {
        &&& self.input_objects.dom().finite()
        &&& self.written.dom().finite()
        &&& self.deleted.dom().finite()
        &&& self.disjoint()
        &&& forall|id: ObjectID| #[trigger] self.written.contains_key(id) ==> self.written_ok(id)
        &&& forall|id: ObjectID| #[trigger]
            self.deleted.contains_key(id) ==> self.deleted[id].1.0 < self.lamport_timestamp.0
        &&& forall|id: ObjectID| #[trigger]
            self.input_objects.contains_key(id) ==> self.input_objects[id].id() == id
                && self.input_objects[id].version.0 < self.lamport_timestamp.0 && (
            self.input_objects[id].is_package() ==> self.input_objects[id].is_immutable())
        &&& forall|i: int|
            0 <= i < self.mutable_input_refs.len() ==> self.input_objects.contains_key(
                (#[trigger] self.mutable_input_refs[i]).0,
            ) && !self.input_objects[self.mutable_input_refs[i].0].is_immutable()
        &&& self.storage_rebate_rate <= BASIS_POINTS
        &&& (self.gas_charged matches Some(charged) ==> self.input_objects.contains_key(charged.1)
            && self.input_objects[charged.1].data is Move)
    }

    /// What a read of `id` returns: the written object, else the input.
    pub open spec fn read(self, id: ObjectID) -> Option<ObjectView> {
        if self.written.contains_key(id) {
            Some(self.written[id].1)
        } else if self.input_objects.contains_key(id) {
            Some(self.input_objects[id])
        } else {
            None
        }
    }

    /// Whether `object` may be written: it was not deleted, what it replaces
    /// is not frozen unless the system writes one of its own packages, a
    /// created object carries the first version unless it is frozen, a
    /// created shared object does not yet say when it became shared, and only
    /// the system changes a package in place, and only its own.
    pub open spec fn can_write(self, ctx: SingleTxContextView, object: ObjectView, kind: WriteKind) -> bool {
        &&& !self.deleted.contains_key(object.id())
        &&& (self.read(object.id()) matches Some(existing) ==> !existing.is_immutable() || (
        ctx.sender == SuiAddress(0) && spec_is_system_package(object.id())))
        &&& (kind is Create ==> object.is_immutable() || object.version == SequenceNumber(0))
        &&& (kind is Create && object.owner is Shared ==> object.owner
            == Owner::Shared { initial_shared_version: SequenceNumber(0) })
        &&& (object.is_package() && !(kind is Create) ==> ctx.sender == SuiAddress(0)
            && spec_is_system_package(object.id()))
    }

    /// The store after `object` was written.
    pub open spec fn write(self, ctx: SingleTxContextView, object: ObjectView, kind: WriteKind) -> StoreView {
        StoreView {
            written: self.written.insert(object.id(), (ctx, stamped_by(object, self.tx_digest), kind)),
            ..self
        }
    }

    /// Whether `id` may be deleted at `version`: it was not written, it is not
    /// frozen, and the version lies before the one that the transaction gives.
    pub open spec fn can_delete(self, id: ObjectID, version: SequenceNumber) -> bool {
        &&& !self.written.contains_key(id)
        &&& (self.read(id) matches Some(existing) ==> !existing.is_immutable())
        &&& version.0 < self.lamport_timestamp.0
    }

    /// The store after `id` was deleted.
    pub open spec fn delete(
        self,
        ctx: SingleTxContextView,
        id: ObjectID,
        version: SequenceNumber,
        kind: DeleteKind,
    ) -> StoreView {
        StoreView { deleted: self.deleted.insert(id, (ctx, version, kind)), ..self }
    }

    /// The store after `event` was logged.
    pub open spec fn log_event(self, event: EventView) -> StoreView {
        StoreView { events: self.events.push(event), ..self }
    }

    /// The store with everything staged dropped.
    pub open spec fn drop_writes(self) -> StoreView {
        StoreView { written: Map::empty(), deleted: Map::empty(), events: Seq::empty(), ..self }
    }

    /// Whether one change may be applied.
    pub open spec fn can_apply_one(self, id: ObjectID, change: ObjectChangeView) -> bool {
        match change {
            ObjectChangeView::Write(ctx, object, kind) => self.can_write(ctx, object, kind),
            ObjectChangeView::Delete(ctx, version, kind) => self.can_delete(id, version),
        }
    }

    /// The store after one change.
    pub open spec fn apply_one(self, id: ObjectID, change: ObjectChangeView) -> StoreView {
        match change {
            ObjectChangeView::Write(ctx, object, kind) => self.write(ctx, object, kind),
            ObjectChangeView::Delete(ctx, version, kind) => self.delete(ctx, id, version, kind),
        }
    }

    /// The store after the changes, applied in order.
    pub open spec fn apply_changes(self, changes: Seq<(ObjectID, ObjectChangeView)>) -> StoreView
        decreases changes.len(),
    {
        if changes.len() == 0 {
            self
        } else {
            self.apply_changes(changes.drop_last()).apply_one(changes.last().0, changes.last().1)
        }
    }

    /// Whether each of the changes may be applied when its turn comes.
    pub open spec fn can_apply(self, changes: Seq<(ObjectID, ObjectChangeView)>) -> bool
        decreases changes.len(),
    {
        if changes.len() == 0 {
            true
        } else {
            self.can_apply(changes.drop_last()) && self.apply_changes(
                changes.drop_last(),
            ).can_apply_one(changes.last().0, changes.last().1)
        }
    }

    /// Whether a written object is a dynamic field: mutated without being an input.
    pub open spec fn is_written_field(self, id: ObjectID) -> bool {
        self.written[id].2 is Mutate && !self.input_objects.contains_key(id)
    }

    /// Whether a deleted object is a dynamic field: deleted without being an input.
    pub open spec fn is_deleted_field(self, id: ObjectID) -> bool {
        self.deleted[id].2 is Normal && !self.input_objects.contains_key(id)
    }

    /// The dynamic fields among the written objects `ids`, in order.
    pub open spec fn written_fields(self, ids: Seq<ObjectID>) -> Seq<ObjectID>
        decreases ids.len(),
    {
        if ids.len() == 0 {
            Seq::empty()
        } else if self.is_written_field(ids.last()) {
            self.written_fields(ids.drop_last()).push(ids.last())
        } else {
            self.written_fields(ids.drop_last())
        }
    }

    /// The dynamic fields among the deleted objects `ids`, in order.
    pub open spec fn deleted_fields(self, ids: Seq<ObjectID>) -> Seq<ObjectID>
        decreases ids.len(),
    {
        if ids.len() == 0 {
            Seq::empty()
        } else if self.is_deleted_field(ids.last()) {
            self.deleted_fields(ids.drop_last()).push(ids.last())
        } else {
            self.deleted_fields(ids.drop_last())
        }
    }

    /// The dynamic fields that the transaction touched: those written, then
    /// those deleted, each in increasing order of identifier.
    pub open spec fn dynamic_fields_touched(self) -> Seq<ObjectID> {
        self.written_fields(sorted_ids(self.written.dom())) + self.deleted_fields(
            sorted_ids(self.deleted.dom()),
        )
    }

    /// Writing keeps the invariant.
    pub proof fn lemma_write_inv(self, ctx: SingleTxContextView, object: ObjectView, kind: WriteKind)
        requires
            self.inv(),
            self.can_write(ctx, object, kind),
        ensures
            self.write(ctx, object, kind).inv(),
    {
        let after = self.write(ctx, object, kind);
        assert forall|id: ObjectID| #[trigger] after.written.contains_key(id) implies after.written_ok(
            id,
        ) by {
            if id != object.id() {
                assert(self.written.contains_key(id));
                assert(self.written_ok(id));
            }
        }
    }

    /// Deleting keeps the invariant.
    pub proof fn lemma_delete_inv(
        self,
        ctx: SingleTxContextView,
        id: ObjectID,
        version: SequenceNumber,
        kind: DeleteKind,
    )
        requires
            self.inv(),
            self.can_delete(id, version),
        ensures
            self.delete(ctx, id, version, kind).inv(),
    {
        let after = self.delete(ctx, id, version, kind);
        assert forall|k: ObjectID| #[trigger] after.written.contains_key(k) implies after.written_ok(
            k,
        ) by {
            assert(self.written_ok(k));
        }
        assert forall|k: ObjectID| #[trigger] after.deleted.contains_key(k) implies after.deleted[k].1.0
            < after.lamport_timestamp.0 by {
            if k != id {
                assert(self.deleted.contains_key(k));
            }
        }
    }

    /// Dropping what was staged keeps the invariant.
    pub proof fn lemma_drop_writes_inv(self)
        requires
            self.inv(),
        ensures
            self.drop_writes().inv(),
    {
    }

    /// Applying changes keeps the invariant.
    pub proof fn lemma_apply_changes_inv(self, changes: Seq<(ObjectID, ObjectChangeView)>)
        requires
            self.inv(),
            self.can_apply(changes),
        ensures
            self.apply_changes(changes).inv(),
        decreases changes.len(),
    {
        if changes.len() > 0 {
            self.lemma_apply_changes_inv(changes.drop_last());
            let before = self.apply_changes(changes.drop_last());
            match changes.last().1 {
                ObjectChangeView::Write(ctx, object, kind) => {
                    before.lemma_write_inv(ctx, object, kind);
                },
                ObjectChangeView::Delete(ctx, version, kind) => {
                    before.lemma_delete_inv(ctx, changes.last().0, version, kind);
                },
            }
        }
    }
}

} // verus!
