//! The events that tell what happened to the objects of a transaction.

use crate::base_types::{ObjectDigest, ObjectID, SequenceNumber, SuiAddress};
use crate::coin::Coin;
use crate::event::{events_view, BalanceChangeType, Event, EventView};
use crate::finalize_model::{
    coin_mutate_events, deleted_event, written_events,
};
use crate::object::{digest_of_view, is_digest_fn, lemma_digest_of_view, Object, ObjectView, Owner};
use crate::storage::{spec_is_system_package, SingleTxContext, WriteKind};
use crate::store::TemporaryStore;
use vstd::prelude::*;

verus! {

/// The least amount of gas, paid in the end, that can be taken off the
/// balance of the coin that paid it.
pub const MIN_GAS_AMOUNT: i128 = -0x1_0000_0000_0000_0000;

/// The largest amount of gas, paid in the end, that can be taken off the
/// balance of the coin that paid it.
pub const MAX_GAS_AMOUNT: i128 = 0x2_0000_0000_0000_0000;

/// The value of an object that may be missing.
pub open spec fn optional_view(object: Option<&Object>) -> Option<ObjectView> {
    match object {
        Some(o) => Some(o@),
        None => None,
    }
}

impl<S> TemporaryStore<S> {
    /// The events of a coin that was mutated, from what it was and what it is.
    pub fn create_coin_mutate_events(
        ctx: &SingleTxContext,
        gas_id: Option<ObjectID>,
        coin: &Object,
        old_coin: &Object,
        gas_charged: i128,
    ) -> (events: Vec<Event>)
        requires
            gas_id == Some(coin@.id()) ==> MIN_GAS_AMOUNT <= gas_charged <= MAX_GAS_AMOUNT,
        ensures
            events_view(events@) == coin_mutate_events(
                ctx@,
                gas_id,
                coin@,
                old_coin@,
                gas_charged as int,
            ),
    {
        let mut events: Vec<Event> = Vec::new();
        proof {
            assert(events_view(events@) =~= Seq::<EventView>::empty());
        }
        let coin_object_type = match coin.struct_tag() {
            Some(t) => t,
            None => {
                return events;
            },
        };
        let old_balance = Coin::extract_balance_if_coin(old_coin);
        let balance = Coin::extract_balance_if_coin(coin);
        match (old_balance, balance) {
            (Ok(Some(old_value)), Ok(Some(value))) => {
                let balance: i128 = value as i128;
                let is_gas = match gas_id {
                    Some(id) => id == coin.id(),
                    None => false,
                };
                let old_balance: i128 = if is_gas {
                    old_value as i128 - gas_charged
                } else {
                    old_value as i128
                };
                if old_coin.owner == coin.owner {
                    if old_balance > balance {
                        let e = Event::balance_change(
                            ctx,
                            BalanceChangeType::Pay,
                            old_coin.owner,
                            old_coin.id(),
                            old_coin.version(),
                            &coin_object_type,
                            balance - old_balance,
                        );
                        events.push(e);
                        proof {
                            assert(events_view(events@) =~= seq![e@]);
                        }
                    } else if old_balance < balance {
                        let e = Event::balance_change(
                            ctx,
                            BalanceChangeType::Receive,
                            coin.owner,
                            coin.id(),
                            coin.version(),
                            &coin_object_type,
                            balance - old_balance,
                        );
                        events.push(e);
                        proof {
                            assert(events_view(events@) =~= seq![e@]);
                        }
                    }
                } else {
                    let pay = Event::balance_change(
                        ctx,
                        BalanceChangeType::Pay,
                        old_coin.owner,
                        coin.id(),
                        old_coin.version(),
                        &coin_object_type,
                        -old_balance,
                    );
                    let receive = Event::balance_change(
                        ctx,
                        BalanceChangeType::Receive,
                        coin.owner,
                        coin.id(),
                        coin.version(),
                        &coin_object_type,
                        balance,
                    );
                    events.push(pay);
                    events.push(receive);
                    proof {
                        assert(events_view(events@) =~= seq![pay@, receive@]);
                    }
                }
            },
            _ => {},
        }
        events
    }

    /// The events of one written object `obj`, which replaces `old_obj` where
    /// that is given.
    pub fn create_written_events<F: Fn(&Object) -> ObjectDigest>(
        ctx: &SingleTxContext,
        kind: WriteKind,
        id: ObjectID,
        obj: &Object,
        old_obj: Option<&Object>,
        gas_id: Option<ObjectID>,
        gas_charged: i128,
        digest_of: &F,
    ) -> (events: Vec<Event>)
        requires
            is_digest_fn(digest_of),
            gas_id == Some(obj@.id()) ==> MIN_GAS_AMOUNT <= gas_charged <= MAX_GAS_AMOUNT,
            obj@.is_package() && !(kind is Create) ==> ctx@.sender == SuiAddress(0)
                && spec_is_system_package(id),
        ensures
            events_view(events@) == written_events(
                ctx@,
                kind,
                id,
                obj@,
                digest_of_view(digest_of, obj@),
                optional_view(old_obj),
                gas_id,
                gas_charged as int,
            ),
    {
        let mut events: Vec<Event> = Vec::new();
        proof {
            assert(events_view(events@) =~= Seq::<EventView>::empty());
        }
        match Coin::extract_balance_if_coin(obj) {
            Ok(Some(balance)) => {
                match (kind, old_obj) {
                    (WriteKind::Mutate, Some(old)) => {
                        return Self::create_coin_mutate_events(ctx, gas_id, obj, old, gas_charged);
                    },
                    _ => {},
                }
                match obj.owner {
                    Owner::AddressOwner(_) => {
                        match obj.struct_tag() {
                            Some(t) => {
                                let e = Event::balance_change(
                                    ctx,
                                    BalanceChangeType::Receive,
                                    obj.owner,
                                    obj.id(),
                                    obj.version(),
                                    &t,
                                    balance as i128,
                                );
                                events.push(e);
                                proof {
                                    assert(events_view(events@) =~= seq![e@]);
                                }
                            },
                            None => {},
                        }
                    },
                    _ => {},
                }
            },
            Ok(None) => {
                if obj.is_package() {
                    let digest = digest_of(obj);
                    proof {
                        lemma_digest_of_view(digest_of, *obj, digest);
                    }
                    let e = Event::publish(ctx.sender, id, obj.version(), digest);
                    events.push(e);
                    proof {
                        assert(events_view(events@) =~= seq![e@]);
                    }
                } else {
                    match obj.struct_tag() {
                        Some(t) => {
                            match kind {
                                WriteKind::Create => {
                                    let e = Event::new_object(ctx, obj.owner, t, id, obj.version());
                                    events.push(e);
                                    proof {
                                        assert(events_view(events@) =~= seq![e@]);
                                    }
                                },
                                _ => {
                                    let same_owner = match old_obj {
                                        Some(old) => old.owner == obj.owner,
                                        None => false,
                                    };
                                    let ghost transfer = Seq::<EventView>::empty();
                                    if !same_owner {
                                        let e = Event::transfer_object(
                                            ctx,
                                            obj.owner,
                                            t.duplicate(),
                                            obj.id(),
                                            obj.version(),
                                        );
                                        events.push(e);
                                        proof {
                                            transfer = seq![e@];
                                        }
                                    }
                                    proof {
                                        assert(events_view(events@) =~= transfer);
                                    }
                                    let changed = match old_obj {
                                        Some(old) => !old.data.is_same_data(&obj.data),
                                        None => false,
                                    };
                                    if changed {
                                        let e = Event::mutate_object(ctx, t, obj.id(), obj.version());
                                        events.push(e);
                                        proof {
                                            assert(events_view(events@) =~= transfer + seq![e@]);
                                        }
                                    } else {
                                        proof {
                                            assert(events_view(events@) =~= transfer
                                                + Seq::<EventView>::empty());
                                        }
                                    }
                                },
                            }
                        },
                        None => {},
                    }
                }
            },
            Err(_) => {},
        }
        events
    }

    /// The event of one deleted object, which was `old_obj` where that is given.
    pub fn create_deleted_event(
        ctx: &SingleTxContext,
        id: ObjectID,
        version: SequenceNumber,
        old_obj: Option<&Object>,
    ) -> (event: Event)
        ensures
            event@ == deleted_event(ctx@, id, version, optional_view(old_obj)),
    {
        match old_obj {
            Some(old) => {
                match (Coin::extract_balance_if_coin(old), old.struct_tag()) {
                    (Ok(Some(balance)), Some(t)) => {
                        return Event::balance_change(
                            ctx,
                            BalanceChangeType::Pay,
                            old.owner,
                            id,
                            old.version(),
                            &t,
                            -(balance as i128),
                        );
                    },
                    _ => {},
                }
            },
            None => {},
        }
        Event::delete_object(ctx, id, version)
    }
}

} // verus!
