//! What finalising the store gives, as mathematics: the post-image of the
//! objects and the events that tell what happened to them.

use crate::base_types::{ObjectDigest, ObjectID, ObjectRef, SequenceNumber};
use crate::coin::Coin;
use crate::event::{BalanceChangeType, EventView};
use crate::id_map::sorted_ids;
use crate::model::StoreView;
use crate::object::{Object, ObjectView, Owner};
use crate::storage::{DeleteKind, SingleTxContextView, WriteKind};
use vstd::prelude::*;

verus! {

/// A written object as it leaves the store: with its reference.
pub type FinalWritten = (ObjectRef, ObjectView, WriteKind);

/// A deleted object as it leaves the store: with the version it ends at.
pub type FinalDeleted = (SequenceNumber, DeleteKind);

/// What is left of a store once its transaction is over.
pub struct InnerView {
    /// The inputs of the transaction.
    pub objects: Map<ObjectID, ObjectView>,
    /// The references of the inputs that the transaction could mutate.
    pub mutable_inputs: Seq<ObjectRef>,
    /// The objects written, with their references.
    pub written: Map<ObjectID, FinalWritten>,
    /// The objects deleted.
    pub deleted: Map<ObjectID, FinalDeleted>,
    /// The events, those that tell of the objects first.
    pub events: Seq<EventView>,
}

/// A written object as it leaves the store: a Move object gets the version
/// of the transaction, a package keeps its own; an object created shared
/// records that version as the one it became shared at.
pub open spec fn finalized(object: ObjectView, kind: WriteKind, lamport: SequenceNumber) -> ObjectView {
    ObjectView {
        version: if object.data is Move {
            lamport
        } else {
            object.version
        },
        owner: if object.owner is Shared && kind is Create {
            Owner::Shared { initial_shared_version: lamport }
        } else {
            object.owner
        },
        ..object
    }
}

/// The events of a coin that was mutated, from what it was and what it is.
/// Where the coin paid the gas, the gas does not count as paid or received.
pub open spec fn coin_mutate_events(
    ctx: SingleTxContextView,
    gas_id: Option<ObjectID>,
    coin: ObjectView,
    old_coin: ObjectView,
    gas_charged: int,
) -> Seq<EventView> {
    match (Coin::spec_extract_balance(old_coin), Coin::spec_extract_balance(coin)) {
        (Ok(Some(old_value)), Ok(Some(balance))) => {
            let coin_type = coin.struct_tag()->0;
            let old_balance = if Some(coin.id()) == gas_id {
                old_value - gas_charged
            } else {
                old_value as int
            };
            if old_coin.owner == coin.owner {
                if old_balance > balance {
                    seq![
                        EventView::BalanceChange {
                            ctx,
                            change_type: BalanceChangeType::Pay,
                            owner: old_coin.owner,
                            coin_type,
                            coin_object_id: old_coin.id(),
                            version: old_coin.version,
                            amount: balance - old_balance,
                        },
                    ]
                } else if old_balance < balance {
                    seq![
                        EventView::BalanceChange {
                            ctx,
                            change_type: BalanceChangeType::Receive,
                            owner: coin.owner,
                            coin_type,
                            coin_object_id: coin.id(),
                            version: coin.version,
                            amount: balance - old_balance,
                        },
                    ]
                } else {
                    Seq::empty()
                }
            } else {
                seq![
                    EventView::BalanceChange {
                        ctx,
                        change_type: BalanceChangeType::Pay,
                        owner: old_coin.owner,
                        coin_type,
                        coin_object_id: coin.id(),
                        version: old_coin.version,
                        amount: -old_balance,
                    },
                    EventView::BalanceChange {
                        ctx,
                        change_type: BalanceChangeType::Receive,
                        owner: coin.owner,
                        coin_type,
                        coin_object_id: coin.id(),
                        version: coin.version,
                        amount: balance as int,
                    },
                ]
            }
        },
        _ => Seq::empty(),
    }
}

/// The events of an object that is no coin and no package and was mutated or
/// unwrapped: a transfer where the owner is not who it was, then a mutation
/// where there is an old object and the data is not what it was.
pub open spec fn object_change_events(
    ctx: SingleTxContextView,
    object: ObjectView,
    old_object: Option<ObjectView>,
) -> Seq<EventView> {
    let object_type = object.struct_tag()->0;
    let transfer = if old_object is Some && old_object->0.owner == object.owner {
        Seq::<EventView>::empty()
    } else {
        seq![
            EventView::TransferObject {
                ctx,
                recipient: object.owner,
                object_type,
                object_id: object.id(),
                version: object.version,
            },
        ]
    };
    let mutate = if old_object is Some && old_object->0.data != object.data {
        seq![
            EventView::MutateObject {
                ctx,
                object_type,
                object_id: object.id(),
                version: object.version,
            },
        ]
    } else {
        Seq::<EventView>::empty()
    };
    transfer + mutate
}

/// The events of one written object.
pub open spec fn written_events(
    ctx: SingleTxContextView,
    kind: WriteKind,
    id: ObjectID,
    object: ObjectView,
    digest: ObjectDigest,
    old_object: Option<ObjectView>,
    gas_id: Option<ObjectID>,
    gas_charged: int,
) -> Seq<EventView> {
    match Coin::spec_extract_balance(object) {
        Ok(Some(balance)) => if kind is Mutate && old_object is Some {
            coin_mutate_events(ctx, gas_id, object, old_object->0, gas_charged)
        } else if object.owner is AddressOwner {
            seq![
                EventView::BalanceChange {
                    ctx,
                    change_type: BalanceChangeType::Receive,
                    owner: object.owner,
                    coin_type: object.struct_tag()->0,
                    coin_object_id: object.id(),
                    version: object.version,
                    amount: balance as int,
                },
            ]
        } else {
            Seq::empty()
        },
        Ok(None) => if object.is_package() {
            seq![
                EventView::Publish {
                    sender: ctx.sender,
                    package_id: id,
                    version: object.version,
                    digest,
                },
            ]
        } else if kind is Create {
            seq![
                EventView::NewObject {
                    ctx,
                    recipient: object.owner,
                    object_type: object.struct_tag()->0,
                    object_id: id,
                    version: object.version,
                },
            ]
        } else {
            object_change_events(ctx, object, old_object)
        },
        Err(_) => Seq::empty(),
    }
}

/// The event of one deleted object: what its owner paid where it was a coin
/// among the inputs, else the deletion.
pub open spec fn deleted_event(
    ctx: SingleTxContextView,
    id: ObjectID,
    version: SequenceNumber,
    old_object: Option<ObjectView>,
) -> EventView {
    match old_object {
        Some(old) => match Coin::spec_extract_balance(old) {
            Ok(Some(balance)) => EventView::BalanceChange {
                ctx,
                change_type: BalanceChangeType::Pay,
                owner: old.owner,
                coin_type: old.struct_tag()->0,
                coin_object_id: id,
                version: old.version,
                amount: -(balance as int),
            },
            _ => EventView::DeleteObject { ctx, object_id: id, version },
        },
        None => EventView::DeleteObject { ctx, object_id: id, version },
    }
}

impl StoreView {
    /// Whether every mutable input was written or deleted.
    pub open spec fn inputs_accounted_for(self) -> bool {
        forall|i: int|
            0 <= i < self.mutable_input_refs.len() ==> self.written.contains_key(
                (#[trigger] self.mutable_input_refs[i]).0,
            ) || self.deleted.contains_key(self.mutable_input_refs[i].0)
    }

    /// The coin that paid the gas, if gas was charged.
    pub open spec fn gas_id(self) -> Option<ObjectID> {
        match self.gas_charged {
            Some(charged) => Some(charged.1),
            None => None,
        }
    }

    /// What the sender paid for gas in the end; nothing where no gas was charged.
    pub open spec fn gas_amount(self) -> int {
        match self.gas_charged {
            Some(charged) => charged.2.spec_net_gas_usage(),
            None => 0,
        }
    }

    /// The event of the gas charge, on the gas coin as it came in.
    pub open spec fn gas_events(self) -> Seq<EventView> {
        match self.gas_charged {
            Some(charged) => {
                let gas = self.input_objects[charged.1];
                seq![
                    EventView::BalanceChange {
                        ctx: SingleTxContextView::gas(charged.0),
                        change_type: BalanceChangeType::Gas,
                        owner: gas.owner,
                        coin_type: gas.struct_tag()->0,
                        coin_object_id: charged.1,
                        version: gas.version,
                        amount: -charged.2.spec_net_gas_usage(),
                    },
                ]
            },
            None => Seq::empty(),
        }
    }

    /// The object written under `id` as it leaves the store.
    pub open spec fn final_object(self, id: ObjectID) -> ObjectView {
        finalized(self.written[id].1, self.written[id].2, self.lamport_timestamp)
    }

    /// The input that object `id` was, if it was one.
    pub open spec fn old_object(self, id: ObjectID) -> Option<ObjectView> {
        if self.input_objects.contains_key(id) {
            Some(self.input_objects[id])
        } else {
            None
        }
    }

    /// The events of the object written under `id`.
    pub open spec fn written_events_of<F: Fn(&Object) -> ObjectDigest>(self, f: &F, id: ObjectID) -> Seq<
        EventView,
    > {
        written_events(
            self.written[id].0,
            self.written[id].2,
            id,
            self.final_object(id),
            crate::object::digest_of_view(f, self.final_object(id)),
            self.old_object(id),
            self.gas_id(),
            self.gas_amount(),
        )
    }

    /// The events of the written objects `ids`, in order.
    pub open spec fn written_events_all<F: Fn(&Object) -> ObjectDigest>(
        self,
        f: &F,
        ids: Seq<ObjectID>,
    ) -> Seq<EventView>
        decreases ids.len(),
    {
        if ids.len() == 0 {
            Seq::empty()
        } else {
            self.written_events_all(f, ids.drop_last()) + self.written_events_of(f, ids.last())
        }
    }

    /// The events of the deleted objects `ids`, in order.
    pub open spec fn deleted_events_all(self, ids: Seq<ObjectID>) -> Seq<EventView>
        decreases ids.len(),
    {
        if ids.len() == 0 {
            Seq::empty()
        } else {
            self.deleted_events_all(ids.drop_last()).push(
                deleted_event(
                    self.deleted[ids.last()].0,
                    ids.last(),
                    self.lamport_timestamp,
                    self.old_object(ids.last()),
                ),
            )
        }
    }

    /// The written objects as they leave the store.
    pub open spec fn final_written<F: Fn(&Object) -> ObjectDigest>(self, f: &F) -> Map<
        ObjectID,
        FinalWritten,
    > {
        Map::new(
            |id: ObjectID| self.written.contains_key(id),
            |id: ObjectID|
                (self.final_object(id).object_reference(f), self.final_object(id), self.written[id].2),
        )
    }

    /// The deleted objects as they leave the store: each at the version of the transaction.
    pub open spec fn final_deleted(self) -> Map<ObjectID, FinalDeleted> {
        Map::new(
            |id: ObjectID| self.deleted.contains_key(id),
            |id: ObjectID| (self.lamport_timestamp, self.deleted[id].2),
        )
    }

    /// The events as they leave the store: the gas charge; then the written
    /// objects and then the deleted ones, each in increasing order of
    /// identifier; then what the transaction logged.
    pub open spec fn final_events<F: Fn(&Object) -> ObjectDigest>(self, f: &F) -> Seq<EventView> {
        self.gas_events() + self.written_events_all(f, sorted_ids(self.written.dom()))
            + self.deleted_events_all(sorted_ids(self.deleted.dom())) + self.events
    }

    /// What is left of the store once its transaction is over.
    pub open spec fn into_inner<F: Fn(&Object) -> ObjectDigest>(self, f: &F) -> InnerView {
        InnerView {
            objects: self.input_objects,
            mutable_inputs: self.mutable_input_refs,
            written: self.final_written(f),
            deleted: self.final_deleted(),
            events: self.final_events(f),
        }
    }
}

} // verus!
