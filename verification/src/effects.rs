//! The effects of a transaction: the summary of what it did, in a fixed order.

use crate::base_types::{
    EpochId, ObjectDigest, ObjectID, ObjectRef, ProtocolVersion, SequenceNumber, SuiAddress,
    TransactionDigest, TransactionEventsDigest,
};
use crate::error::ExecutionErrorKind;
use crate::event::{EventView, TransactionEvents};
use crate::finalize_model::InnerView;
use crate::gas::GasCostSummary;
use crate::id_map::sorted_ids;
use crate::model::StoreView;
use crate::object::{Object, Owner};
use crate::storage::{DeleteKind, WriteKind};
use vstd::prelude::*;

verus! {

/// How the execution of a transaction ended.
#[derive(Clone, Copy, Debug, PartialEq, Eq, Structural)]
pub enum ExecutionStatus {
    Success,
    Failure { error: ExecutionErrorKind },
}

/// Whether `g` can stand for the digest of events: it accepts every list of
/// events, and what it returns depends on the values of the events alone.
pub open spec fn is_events_digest_fn<G: Fn(&TransactionEvents) -> TransactionEventsDigest>(g: &G) -> bool {
    &&& forall|e: &TransactionEvents| #[trigger] call_requires(g, (e,))
    &&& forall|
        a: &TransactionEvents,
        b: &TransactionEvents,
        da: TransactionEventsDigest,
        db: TransactionEventsDigest,
    |
        a@ == b@ && #[trigger] call_ensures(g, (a,), da) && #[trigger] call_ensures(g, (b,), db)
            ==> da == db
}

/// Whether `g` may return `d` for events of value `events`.
pub open spec fn may_digest_events<G: Fn(&TransactionEvents) -> TransactionEventsDigest>(
    g: &G,
    events: Seq<EventView>,
    d: TransactionEventsDigest,
) -> bool {
    exists|x: TransactionEvents| x@ == events && #[trigger] call_ensures(g, (&x,), d)
}

/// The digest that `g` gives to events of value `events`.
pub open spec fn events_digest_of_view<G: Fn(&TransactionEvents) -> TransactionEventsDigest>(
    g: &G,
    events: Seq<EventView>,
) -> TransactionEventsDigest {
    choose|d: TransactionEventsDigest| may_digest_events(g, events, d)
}

/// What a digest function returned for events is the digest of their value.
pub proof fn lemma_events_digest_of_view<G: Fn(&TransactionEvents) -> TransactionEventsDigest>(
    g: &G,
    events: TransactionEvents,
    d: TransactionEventsDigest,
)
    requires
        is_events_digest_fn(g),
        call_ensures(g, (&events,), d),
    ensures
        d == events_digest_of_view(g, events@),
{
    let e = events_digest_of_view(g, events@);
    assert(may_digest_events(g, events@, d));
    assert(may_digest_events(g, events@, e));
    let x = choose|x: TransactionEvents| x@ == events@ && #[trigger] call_ensures(g, (&x,), e);
    assert(x@ == events@ && call_ensures(g, (&x,), e));
}

/// Whether the identifiers of `entries` strictly increase.
pub open spec fn ascending_by_id(entries: Seq<(ObjectID, SequenceNumber)>) -> bool {
    forall|a: int, b: int|
        0 <= a < b < entries.len() ==> (#[trigger] entries[a]).0.0 < (#[trigger] entries[b]).0.0
}

/// The effects of a transaction.
#[derive(Debug, PartialEq, Eq)]
pub struct TransactionEffects {
    /// The version of the protocol rules under which the transaction ran.
    pub protocol_version: ProtocolVersion,
    /// How execution ended.
    pub status: ExecutionStatus,
    /// The epoch in which the transaction ran.
    pub executed_epoch: EpochId,
    /// What the transaction was charged.
    pub gas_used: GasCostSummary,
    /// The versions at which the objects mutated or deleted were before.
    pub modified_at_versions: Vec<(ObjectID, SequenceNumber)>,
    /// The shared objects that the transaction used.
    pub shared_objects: Vec<ObjectRef>,
    /// The digest of the transaction.
    pub transaction_digest: TransactionDigest,
    /// The objects created, with their owners.
    pub created: Vec<(ObjectRef, Owner)>,
    /// The objects mutated, with their owners.
    pub mutated: Vec<(ObjectRef, Owner)>,
    /// The objects unwrapped, with their owners.
    pub unwrapped: Vec<(ObjectRef, Owner)>,
    /// The objects deleted.
    pub deleted: Vec<ObjectRef>,
    /// The objects unwrapped and deleted at once.
    pub unwrapped_then_deleted: Vec<ObjectRef>,
    /// The objects wrapped into others.
    pub wrapped: Vec<ObjectRef>,
    /// The gas coin after the transaction, with its owner.
    pub gas_object: (ObjectRef, Owner),
    /// The digest of the events, if there are events.
    pub events_digest: Option<TransactionEventsDigest>,
    /// The transactions that this one depends on.
    pub dependencies: Vec<TransactionDigest>,
}

/// The effects of a transaction as a mathematical value.
pub struct EffectsView {
    pub protocol_version: ProtocolVersion,
    pub status: ExecutionStatus,
    pub executed_epoch: EpochId,
    pub gas_used: GasCostSummary,
    pub modified_at_versions: Seq<(ObjectID, SequenceNumber)>,
    pub shared_objects: Seq<ObjectRef>,
    pub transaction_digest: TransactionDigest,
    pub created: Seq<(ObjectRef, Owner)>,
    pub mutated: Seq<(ObjectRef, Owner)>,
    pub unwrapped: Seq<(ObjectRef, Owner)>,
    pub deleted: Seq<ObjectRef>,
    pub unwrapped_then_deleted: Seq<ObjectRef>,
    pub wrapped: Seq<ObjectRef>,
    pub gas_object: (ObjectRef, Owner),
    pub events_digest: Option<TransactionEventsDigest>,
    pub dependencies: Seq<TransactionDigest>,
}

impl View for TransactionEffects {
    type V = EffectsView;

    open spec fn view(&self) -> EffectsView {
        EffectsView {
            protocol_version: self.protocol_version,
            status: self.status,
            executed_epoch: self.executed_epoch,
            gas_used: self.gas_used,
            modified_at_versions: self.modified_at_versions@,
            shared_objects: self.shared_objects@,
            transaction_digest: self.transaction_digest,
            created: self.created@,
            mutated: self.mutated@,
            unwrapped: self.unwrapped@,
            deleted: self.deleted@,
            unwrapped_then_deleted: self.unwrapped_then_deleted@,
            wrapped: self.wrapped@,
            gas_object: self.gas_object,
            events_digest: self.events_digest,
            dependencies: self.dependencies@,
        }
    }
}

/// Bytes that the effects take whatever the transaction did.
pub const EFFECTS_FIXED_SIZE: u64 = 2200;

/// Bytes that an object reference takes in the effects.
pub const APPROX_SIZE_OF_OBJECT_REF: u64 = 80;

/// Bytes that an owner takes in the effects.
pub const APPROX_SIZE_OF_OWNER: u64 = 48;

/// Bytes that a transaction digest takes in the effects.
pub const APPROX_SIZE_OF_TX_DIGEST: u64 = 40;

/// An upper bound on the bytes that effects take.
pub open spec fn effects_size_upperbound(
    num_writes: int,
    num_mutables: int,
    num_deletes: int,
    num_deps: int,
) -> int {
    EFFECTS_FIXED_SIZE + (APPROX_SIZE_OF_OWNER + APPROX_SIZE_OF_OBJECT_REF) * num_writes
        + APPROX_SIZE_OF_OBJECT_REF * num_mutables + APPROX_SIZE_OF_OBJECT_REF * num_deletes
        + APPROX_SIZE_OF_TX_DIGEST * num_deps
}

impl TransactionEffects {
    /// The effects of an execution, from their parts.
    pub fn new_from_execution(
        protocol_version: ProtocolVersion,
        status: ExecutionStatus,
        executed_epoch: EpochId,
        gas_used: GasCostSummary,
        modified_at_versions: Vec<(ObjectID, SequenceNumber)>,
        shared_objects: Vec<ObjectRef>,
        transaction_digest: TransactionDigest,
        created: Vec<(ObjectRef, Owner)>,
        mutated: Vec<(ObjectRef, Owner)>,
        unwrapped: Vec<(ObjectRef, Owner)>,
        deleted: Vec<ObjectRef>,
        unwrapped_then_deleted: Vec<ObjectRef>,
        wrapped: Vec<ObjectRef>,
        gas_object: (ObjectRef, Owner),
        events_digest: Option<TransactionEventsDigest>,
        dependencies: Vec<TransactionDigest>,
    ) -> (e: Self)
        ensures
            e@ == (EffectsView {
                protocol_version,
                status,
                executed_epoch,
                gas_used,
                modified_at_versions: modified_at_versions@,
                shared_objects: shared_objects@,
                transaction_digest,
                created: created@,
                mutated: mutated@,
                unwrapped: unwrapped@,
                deleted: deleted@,
                unwrapped_then_deleted: unwrapped_then_deleted@,
                wrapped: wrapped@,
                gas_object,
                events_digest,
                dependencies: dependencies@,
            }),
    {
        TransactionEffects {
            protocol_version,
            status,
            executed_epoch,
            gas_used,
            modified_at_versions,
            shared_objects,
            transaction_digest,
            created,
            mutated,
            unwrapped,
            deleted,
            unwrapped_then_deleted,
            wrapped,
            gas_object,
            events_digest,
            dependencies,
        }
    }

    /// An upper bound on the bytes that the effects of a transaction take,
    /// from the number of objects it writes, may mutate and deletes and the
    /// number of transactions it depends on. The bound is capped at the
    /// largest size.
    pub fn estimate_effects_size_upperbound(
        num_writes: usize,
        num_mutables: usize,
        num_deletes: usize,
        num_deps: usize,
    ) -> (r: usize)
        ensures
            r == if effects_size_upperbound(
                num_writes as int,
                num_mutables as int,
                num_deletes as int,
                num_deps as int,
            ) > usize::MAX {
                usize::MAX as int
            } else {
                effects_size_upperbound(
                    num_writes as int,
                    num_mutables as int,
                    num_deletes as int,
                    num_deps as int,
                )
            },
    {
        let total: u128 = 2200 + 128 * (num_writes as u128) + 80 * (num_mutables as u128) + 80 * (
        num_deletes as u128) + 40 * (num_deps as u128);
        if total > usize::MAX as u128 {
            usize::MAX
        } else {
            total as usize
        }
    }
}

impl InnerView {
    /// The written objects of kind `kind` among `ids`, each with its owner, in order.
    pub open spec fn written_of_kind(self, kind: WriteKind, ids: Seq<ObjectID>) -> Seq<
        (ObjectRef, Owner),
    >
        decreases ids.len(),
    {
        if ids.len() == 0 {
            Seq::empty()
        } else if self.written[ids.last()].2 == kind {
            self.written_of_kind(kind, ids.drop_last()).push(
                (self.written[ids.last()].0, self.written[ids.last()].1.owner),
            )
        } else {
            self.written_of_kind(kind, ids.drop_last())
        }
    }

    /// The deleted objects of kind `kind` among `ids`, each under `digest`, in order.
    pub open spec fn deleted_of_kind(self, kind: DeleteKind, digest: ObjectDigest, ids: Seq<ObjectID>) -> Seq<
        ObjectRef,
    >
        decreases ids.len(),
    {
        if ids.len() == 0 {
            Seq::empty()
        } else if self.deleted[ids.last()].1 == kind {
            self.deleted_of_kind(kind, digest, ids.drop_last()).push(
                (ids.last(), self.deleted[ids.last()].0, digest),
            )
        } else {
            self.deleted_of_kind(kind, digest, ids.drop_last())
        }
    }

    /// The gas coin after the transaction, with its owner. A transaction
    /// that pays no gas names the coin with identifier zero, which is handed
    /// back as it was named.
    pub open spec fn updated_gas_object(self, gas: Seq<ObjectRef>) -> (ObjectRef, Owner) {
        if gas[0].0 == ObjectID(0) {
            (gas[0], Owner::AddressOwner(SuiAddress(0)))
        } else {
            (self.written[gas[0].0].0, self.written[gas[0].0].1.owner)
        }
    }
}

impl StoreView {
    /// The version at which object `id` was before the transaction mutated
    /// or deleted it; nothing for an object that was created, unwrapped or
    /// left alone.
    pub open spec fn modified_entry(self, id: ObjectID) -> Option<(ObjectID, SequenceNumber)> {
        if self.written.contains_key(id) {
            if self.written[id].2 is Mutate {
                Some((id, self.written[id].1.version))
            } else {
                None
            }
        } else if self.deleted.contains_key(id) {
            Some((id, self.deleted[id].1))
        } else {
            None
        }
    }

    /// The versions at which those of the objects `ids` that were mutated or
    /// deleted were before, in the order of `ids`.
    pub open spec fn modified_among(self, ids: Seq<ObjectID>) -> Seq<(ObjectID, SequenceNumber)>
        decreases ids.len(),
    {
        if ids.len() == 0 {
            Seq::empty()
        } else {
            match self.modified_entry(ids.last()) {
                Some(entry) => self.modified_among(ids.drop_last()).push(entry),
                None => self.modified_among(ids.drop_last()),
            }
        }
    }

    /// The versions at which the objects mutated or deleted were before, in
    /// increasing order of identifier.
    pub open spec fn modified_at_versions(self) -> Seq<(ObjectID, SequenceNumber)> {
        self.modified_among(sorted_ids(self.written.dom().union(self.deleted.dom())))
    }

    /// Whether effects can be made for the gas coins `gas`: there is one, and
    /// the first was written unless it is the coin with identifier zero.
    pub open spec fn can_make_effects(self, gas: Seq<ObjectRef>) -> bool {
        gas.len() >= 1 && (gas[0].0 != ObjectID(0) ==> self.written.contains_key(gas[0].0))
    }

    /// The effects of the transaction.
    pub open spec fn to_effects<
        F: Fn(&Object) -> ObjectDigest,
        G: Fn(&TransactionEvents) -> TransactionEventsDigest,
    >(
        self,
        shared_object_refs: Seq<ObjectRef>,
        transaction_digest: TransactionDigest,
        transaction_dependencies: Seq<TransactionDigest>,
        gas_cost_summary: GasCostSummary,
        status: ExecutionStatus,
        gas: Seq<ObjectRef>,
        epoch: EpochId,
        f: &F,
        g: &G,
    ) -> EffectsView {
        let inner = self.into_inner(f);
        let written_ids = sorted_ids(inner.written.dom());
        let deleted_ids = sorted_ids(inner.deleted.dom());
        EffectsView {
            protocol_version: self.protocol_version,
            status,
            executed_epoch: epoch,
            gas_used: gas_cost_summary,
            modified_at_versions: self.modified_at_versions(),
            shared_objects: shared_object_refs,
            transaction_digest,
            created: inner.written_of_kind(WriteKind::Create, written_ids),
            mutated: inner.written_of_kind(WriteKind::Mutate, written_ids),
            unwrapped: inner.written_of_kind(WriteKind::Unwrap, written_ids),
            deleted: inner.deleted_of_kind(
                DeleteKind::Normal,
                ObjectDigest::spec_deleted(),
                deleted_ids,
            ),
            unwrapped_then_deleted: inner.deleted_of_kind(
                DeleteKind::UnwrapThenDelete,
                ObjectDigest::spec_deleted(),
                deleted_ids,
            ),
            wrapped: inner.deleted_of_kind(DeleteKind::Wrap, ObjectDigest::spec_wrapped(), deleted_ids),
            gas_object: inner.updated_gas_object(gas),
            events_digest: if inner.events.len() == 0 {
                None
            } else {
                Some(events_digest_of_view(g, inner.events))
            },
            dependencies: transaction_dependencies,
        }
    }
}

} // verus!
