//! Events: what a transaction tells the outside world.

use crate::base_types::{ObjectDigest, ObjectID, SequenceNumber, SuiAddress};
use crate::object::{MoveObjectType, MoveObjectTypeView, Owner};
use crate::storage::{SingleTxContext, SingleTxContextView};
use vstd::prelude::*;

verus! {

/// Why the balance of a coin changed.
#[derive(Clone, Copy, Debug, PartialEq, Eq, Structural)]
pub enum BalanceChangeType {
    /// Gas was charged.
    Gas,
    /// The owner paid.
    Pay,
    /// The owner received.
    Receive,
}

/// An event of a transaction.
#[derive(Clone, Debug, PartialEq, Eq)]
pub enum Event {
    /// A package was published.
    Publish { sender: SuiAddress, package_id: ObjectID, version: SequenceNumber, digest: ObjectDigest },
    /// The balance of a coin changed by `amount`.
    BalanceChange {
        package_id: ObjectID,
        transaction_module: String,
        sender: SuiAddress,
        change_type: BalanceChangeType,
        owner: Owner,
        coin_type: MoveObjectType,
        coin_object_id: ObjectID,
        version: SequenceNumber,
        amount: i128,
    },
    /// An object changed hands.
    TransferObject {
        package_id: ObjectID,
        transaction_module: String,
        sender: SuiAddress,
        recipient: Owner,
        object_type: MoveObjectType,
        object_id: ObjectID,
        version: SequenceNumber,
    },
    /// The data of an object changed.
    MutateObject {
        package_id: ObjectID,
        transaction_module: String,
        sender: SuiAddress,
        object_type: MoveObjectType,
        object_id: ObjectID,
        version: SequenceNumber,
    },
    /// An object was deleted.
    DeleteObject {
        package_id: ObjectID,
        transaction_module: String,
        sender: SuiAddress,
        object_id: ObjectID,
        version: SequenceNumber,
    },
    /// An object was created.
    NewObject {
        package_id: ObjectID,
        transaction_module: String,
        sender: SuiAddress,
        recipient: Owner,
        object_type: MoveObjectType,
        object_id: ObjectID,
        version: SequenceNumber,
    },
}

/// An event as a mathematical value.
pub enum EventView {
    Publish { sender: SuiAddress, package_id: ObjectID, version: SequenceNumber, digest: ObjectDigest },
    BalanceChange {
        ctx: SingleTxContextView,
        change_type: BalanceChangeType,
        owner: Owner,
        coin_type: MoveObjectTypeView,
        coin_object_id: ObjectID,
        version: SequenceNumber,
        amount: int,
    },
    TransferObject {
        ctx: SingleTxContextView,
        recipient: Owner,
        object_type: MoveObjectTypeView,
        object_id: ObjectID,
        version: SequenceNumber,
    },
    MutateObject {
        ctx: SingleTxContextView,
        object_type: MoveObjectTypeView,
        object_id: ObjectID,
        version: SequenceNumber,
    },
    DeleteObject { ctx: SingleTxContextView, object_id: ObjectID, version: SequenceNumber },
    NewObject {
        ctx: SingleTxContextView,
        recipient: Owner,
        object_type: MoveObjectTypeView,
        object_id: ObjectID,
        version: SequenceNumber,
    },
}

impl View for Event {
    type V = EventView;

    open spec fn view(&self) -> EventView {
        match self {
            Event::Publish { sender, package_id, version, digest } => EventView::Publish {
                sender: *sender,
                package_id: *package_id,
                version: *version,
                digest: *digest,
            },
            Event::BalanceChange {
                package_id,
                transaction_module,
                sender,
                change_type,
                owner,
                coin_type,
                coin_object_id,
                version,
                amount,
            } => EventView::BalanceChange {
                ctx: SingleTxContextView {
                    package_id: *package_id,
                    transaction_module: transaction_module@,
                    sender: *sender,
                },
                change_type: *change_type,
                owner: *owner,
                coin_type: coin_type@,
                coin_object_id: *coin_object_id,
                version: *version,
                amount: *amount as int,
            },
            Event::TransferObject {
                package_id,
                transaction_module,
                sender,
                recipient,
                object_type,
                object_id,
                version,
            } => EventView::TransferObject {
                ctx: SingleTxContextView {
                    package_id: *package_id,
                    transaction_module: transaction_module@,
                    sender: *sender,
                },
                recipient: *recipient,
                object_type: object_type@,
                object_id: *object_id,
                version: *version,
            },
            Event::MutateObject {
                package_id,
                transaction_module,
                sender,
                object_type,
                object_id,
                version,
            } => EventView::MutateObject {
                ctx: SingleTxContextView {
                    package_id: *package_id,
                    transaction_module: transaction_module@,
                    sender: *sender,
                },
                object_type: object_type@,
                object_id: *object_id,
                version: *version,
            },
            Event::DeleteObject { package_id, transaction_module, sender, object_id, version } => {
                EventView::DeleteObject {
                    ctx: SingleTxContextView {
                        package_id: *package_id,
                        transaction_module: transaction_module@,
                        sender: *sender,
                    },
                    object_id: *object_id,
                    version: *version,
                }
            },
            Event::NewObject {
                package_id,
                transaction_module,
                sender,
                recipient,
                object_type,
                object_id,
                version,
            } => EventView::NewObject {
                ctx: SingleTxContextView {
                    package_id: *package_id,
                    transaction_module: transaction_module@,
                    sender: *sender,
                },
                recipient: *recipient,
                object_type: object_type@,
                object_id: *object_id,
                version: *version,
            },
        }
    }
}

/// The views of a list of events, in order.
pub open spec fn events_view(events: Seq<Event>) -> Seq<EventView> {
    events.map_values(|e: Event| e@)
}

impl Event {
    pub fn duplicate(&self) -> (r: Self)
        ensures
            r@ == self@,
    {
        match self {
            Event::Publish { sender, package_id, version, digest } => Event::Publish {
                sender: *sender,
                package_id: *package_id,
                version: *version,
                digest: *digest,
            },
            Event::BalanceChange {
                package_id,
                transaction_module,
                sender,
                change_type,
                owner,
                coin_type,
                coin_object_id,
                version,
                amount,
            } => Event::BalanceChange {
                package_id: *package_id,
                transaction_module: transaction_module.clone(),
                sender: *sender,
                change_type: *change_type,
                owner: *owner,
                coin_type: coin_type.duplicate(),
                coin_object_id: *coin_object_id,
                version: *version,
                amount: *amount,
            },
            Event::TransferObject {
                package_id,
                transaction_module,
                sender,
                recipient,
                object_type,
                object_id,
                version,
            } => Event::TransferObject {
                package_id: *package_id,
                transaction_module: transaction_module.clone(),
                sender: *sender,
                recipient: *recipient,
                object_type: object_type.duplicate(),
                object_id: *object_id,
                version: *version,
            },
            Event::MutateObject {
                package_id,
                transaction_module,
                sender,
                object_type,
                object_id,
                version,
            } => Event::MutateObject {
                package_id: *package_id,
                transaction_module: transaction_module.clone(),
                sender: *sender,
                object_type: object_type.duplicate(),
                object_id: *object_id,
                version: *version,
            },
            Event::DeleteObject { package_id, transaction_module, sender, object_id, version } => {
                Event::DeleteObject {
                    package_id: *package_id,
                    transaction_module: transaction_module.clone(),
                    sender: *sender,
                    object_id: *object_id,
                    version: *version,
                }
            },
            Event::NewObject {
                package_id,
                transaction_module,
                sender,
                recipient,
                object_type,
                object_id,
                version,
            } => Event::NewObject {
                package_id: *package_id,
                transaction_module: transaction_module.clone(),
                sender: *sender,
                recipient: *recipient,
                object_type: object_type.duplicate(),
                object_id: *object_id,
                version: *version,
            },
        }
    }

    /// The event that a package was published.
    pub fn publish(sender: SuiAddress, package_id: ObjectID, version: SequenceNumber, digest: ObjectDigest) -> (e:
        Event)
        ensures
            e@ == (EventView::Publish { sender, package_id, version, digest }),
    {
        Event::Publish { sender, package_id, version, digest }
    }

    /// The event that the balance of coin `coin_object_id` changed by `amount`.
    pub fn balance_change(
        ctx: &SingleTxContext,
        change_type: BalanceChangeType,
        owner: Owner,
        coin_object_id: ObjectID,
        version: SequenceNumber,
        coin_type: &MoveObjectType,
        amount: i128,
    ) -> (e: Event)
        ensures
            e@ == (EventView::BalanceChange {
                ctx: ctx@,
                change_type,
                owner,
                coin_type: coin_type@,
                coin_object_id,
                version,
                amount: amount as int,
            }),
    {
        Event::BalanceChange {
            package_id: ctx.package_id,
            transaction_module: ctx.transaction_module.clone(),
            sender: ctx.sender,
            change_type,
            owner,
            coin_type: coin_type.duplicate(),
            coin_object_id,
            version,
            amount,
        }
    }

    /// The event that object `object_id` went to `recipient`.
    pub fn transfer_object(
        ctx: &SingleTxContext,
        recipient: Owner,
        object_type: MoveObjectType,
        object_id: ObjectID,
        version: SequenceNumber,
    ) -> (e: Event)
        ensures
            e@ == (EventView::TransferObject {
                ctx: ctx@,
                recipient,
                object_type: object_type@,
                object_id,
                version,
            }),
    {
        Event::TransferObject {
            package_id: ctx.package_id,
            transaction_module: ctx.transaction_module.clone(),
            sender: ctx.sender,
            recipient,
            object_type,
            object_id,
            version,
        }
    }

    /// The event that the data of object `object_id` changed.
    pub fn mutate_object(
        ctx: &SingleTxContext,
        object_type: MoveObjectType,
        object_id: ObjectID,
        version: SequenceNumber,
    ) -> (e: Event)
        ensures
            e@ == (EventView::MutateObject { ctx: ctx@, object_type: object_type@, object_id, version }),
    {
        Event::MutateObject {
            package_id: ctx.package_id,
            transaction_module: ctx.transaction_module.clone(),
            sender: ctx.sender,
            object_type,
            object_id,
            version,
        }
    }

    /// The event that object `object_id` was deleted.
    pub fn delete_object(ctx: &SingleTxContext, object_id: ObjectID, version: SequenceNumber) -> (e:
        Event)
        ensures
            e@ == (EventView::DeleteObject { ctx: ctx@, object_id, version }),
    {
        Event::DeleteObject {
            package_id: ctx.package_id,
            transaction_module: ctx.transaction_module.clone(),
            sender: ctx.sender,
            object_id,
            version,
        }
    }

    /// The event that object `object_id` was created for `recipient`.
    pub fn new_object(
        ctx: &SingleTxContext,
        recipient: Owner,
        object_type: MoveObjectType,
        object_id: ObjectID,
        version: SequenceNumber,
    ) -> (e: Event)
        ensures
            e@ == (EventView::NewObject {
                ctx: ctx@,
                recipient,
                object_type: object_type@,
                object_id,
                version,
            }),
    {
        Event::NewObject {
            package_id: ctx.package_id,
            transaction_module: ctx.transaction_module.clone(),
            sender: ctx.sender,
            recipient,
            object_type,
            object_id,
            version,
        }
    }
}

/// The events of a transaction, in the order in which they count.
#[derive(Clone, Debug, PartialEq, Eq)]
pub struct TransactionEvents {
    pub data: Vec<Event>,
}

impl View for TransactionEvents {
    type V = Seq<EventView>;

    open spec fn view(&self) -> Seq<EventView> {
        events_view(self.data@)
    }
}

} // verus!
