use temp_store::base_types::{
    ObjectDigest, ObjectID, ObjectRef, ProtocolVersion, SequenceNumber, SuiAddress,
    TransactionDigest, TransactionEventsDigest,
};
use temp_store::coin::Coin;
use temp_store::effects::{ExecutionStatus, TransactionEffects};
use temp_store::error::{ExecutionError, ExecutionErrorKind, SuiError};
use temp_store::event::{BalanceChangeType, Event, TransactionEvents};
use temp_store::gas::{GasCostSummary, SuiGasStatus};
use temp_store::id_map::IdMap;
use temp_store::messages::{InputObjectKind, InputObjects, ProtocolConfig};
use temp_store::object::{
    MoveModule, MoveObject, MoveObjectType, MovePackage, Object, Owner,
};
use temp_store::storage::{DeleteKind, ObjectChange, SingleTxContext, WriteKind};
use temp_store::store::{empty_for_testing, with_input_objects_for_testing, TemporaryStore};

const A: SuiAddress = SuiAddress(0xA);
const B: SuiAddress = SuiAddress(0xB);

fn digest(object: &Object) -> ObjectDigest {
    let bytes: u128 = match object.data.try_as_move() {
        Some(m) => m.contents().iter().map(|b| *b as u128).sum(),
        None => 0,
    };
    ObjectDigest::new(object.version.0 as u128 * 1_000_000 + bytes, object.id().0)
}

fn events_digest(events: &TransactionEvents) -> TransactionEventsDigest {
    TransactionEventsDigest { high: events.data.len() as u128, low: 7 }
}

fn no_sui_in_fields(_object: &Object) -> u64 {
    0
}

fn tx() -> TransactionDigest {
    TransactionDigest::new(0, 77)
}

fn coin_bytes(id: u128, balance: u64) -> Vec<u8> {
    let mut bytes = id.to_le_bytes().to_vec();
    bytes.extend_from_slice(&balance.to_le_bytes());
    bytes
}

fn gas_coin(id: u128, balance: u64, owner: SuiAddress, version: u64) -> Object {
    Object::new_move(
        MoveObject::new(ObjectID(id), MoveObjectType::GasCoin, true, coin_bytes(id, balance)),
        Owner::AddressOwner(owner),
        SequenceNumber(version),
        TransactionDigest::new(1, 1),
    )
}

fn plain(id: u128, size: usize, owner: Owner, version: u64) -> Object {
    Object::new_move(
        MoveObject::new(
            ObjectID(id),
            MoveObjectType::Other("0x7::thing::Thing".to_string()),
            true,
            vec![3u8; size],
        ),
        owner,
        SequenceNumber(version),
        TransactionDigest::new(1, 1),
    )
}

fn owned_input(object: &Object) -> (InputObjectKind, Object) {
    (
        InputObjectKind::ImmOrOwnedMoveObject((object.id(), object.version(), digest(object))),
        object.duplicate(),
    )
}

fn reference(object: &Object) -> ObjectRef {
    (object.id(), object.version(), digest(object))
}

fn store_over(objects: &[&Object], rate: u64) -> TemporaryStore<()> {
    let inputs = InputObjects::new(objects.iter().map(|o| owned_input(o)).collect());
    TemporaryStore::new(
        (),
        inputs,
        tx(),
        &ProtocolConfig::new(ProtocolVersion(1), rate),
        &digest,
    )
}

fn user_ctx(sender: SuiAddress) -> SingleTxContext {
    SingleTxContext::new(ObjectID(0x77), "pay".to_string(), sender)
}

fn balance_event(
    ctx: &SingleTxContext,
    change_type: BalanceChangeType,
    owner: SuiAddress,
    coin: u128,
    version: u64,
    amount: i128,
) -> Event {
    Event::balance_change(
        ctx,
        change_type,
        Owner::AddressOwner(owner),
        ObjectID(coin),
        SequenceNumber(version),
        &MoveObjectType::GasCoin,
        amount,
    )
}

#[test]
fn new_store_snapshots_the_inputs() {
    let c1 = gas_coin(100, 500, A, 3);
    let c2 = gas_coin(200, 10000, A, 4);
    let store = store_over(&[&c1, &c2], 9900);
    assert_eq!(store.objects().len(), 2);
    assert_eq!(store.objects().get(&ObjectID(100)), Some(&c1));
    assert_eq!(store.read_object(&ObjectID(200)), Some(&c2));
    assert_eq!(store.read_object(&ObjectID(300)), None);
    assert!(store.dynamic_fields_touched().is_empty());
    assert!(!store.check_invariants());
}

#[test]
fn lamport_timestamp_follows_the_largest_input_version() {
    let c1 = gas_coin(100, 500, A, 3);
    let c2 = gas_coin(200, 10000, A, 9);
    let package = Object::new_package(
        MovePackage::new(ObjectID(300), vec![]),
        SequenceNumber(50),
        TransactionDigest::genesis(),
    );
    let inputs = InputObjects::new(vec![
        owned_input(&c1),
        owned_input(&c2),
        (InputObjectKind::MovePackage(ObjectID(300)), package.duplicate()),
    ]);
    assert_eq!(inputs.len(), 3);
    assert!(inputs.is_consistent());
    assert_eq!(inputs.lamport_timestamp(), SequenceNumber(51));
    assert_eq!(
        InputObjects::new(vec![owned_input(&c1), owned_input(&c2)]).lamport_timestamp(),
        SequenceNumber(10)
    );
    assert_eq!(inputs.mutable_inputs(&digest), vec![reference(&c1), reference(&c2)]);
    assert_eq!(InputObjects::new(vec![]).lamport_timestamp(), SequenceNumber(1));
}

#[test]
fn shared_inputs_are_mutable_only_where_declared() {
    let shared = plain(5, 10, Owner::Shared { initial_shared_version: SequenceNumber(2) }, 7);
    let read_only = plain(6, 10, Owner::Shared { initial_shared_version: SequenceNumber(2) }, 8);
    let frozen = plain(7, 10, Owner::Immutable, 1);
    let inputs = InputObjects::new(vec![
        (
            InputObjectKind::SharedMoveObject {
                id: ObjectID(5),
                initial_shared_version: SequenceNumber(2),
                mutable: true,
            },
            shared.duplicate(),
        ),
        (
            InputObjectKind::SharedMoveObject {
                id: ObjectID(6),
                initial_shared_version: SequenceNumber(2),
                mutable: false,
            },
            read_only.duplicate(),
        ),
        owned_input(&frozen),
    ]);
    assert_eq!(inputs.mutable_inputs(&digest), vec![reference(&shared)]);
}

#[test]
fn write_then_read_returns_the_written_object() {
    let c1 = gas_coin(100, 500, A, 3);
    let mut store = store_over(&[&c1], 9900);
    let richer = gas_coin(100, 700, A, 3);
    store.write_object(&user_ctx(A), richer.duplicate(), WriteKind::Mutate);
    let read = store.read_object(&ObjectID(100)).unwrap();
    assert_eq!(Coin::extract_balance_if_coin(read), Ok(Some(700)));
    assert_eq!(read.previous_transaction, tx());
    let richest = gas_coin(100, 900, A, 3);
    store.write_object(&user_ctx(A), richest, WriteKind::Mutate);
    let read = store.read_object(&ObjectID(100)).unwrap();
    assert_eq!(Coin::extract_balance_if_coin(read), Ok(Some(900)));
    assert!(store.check_invariants());
}

#[test]
fn writes_and_deletes_stay_disjoint() {
    let c1 = gas_coin(100, 500, A, 3);
    let c2 = gas_coin(200, 10000, A, 4);
    let mut store = store_over(&[&c1, &c2], 9900);
    store.write_object(&user_ctx(A), c1.duplicate(), WriteKind::Mutate);
    store.delete_object(&user_ctx(A), &ObjectID(200), SequenceNumber(4), DeleteKind::Normal);
    store.write_object(&user_ctx(A), plain(300, 5, Owner::AddressOwner(A), 0), WriteKind::Create);
    store.delete_object(&user_ctx(A), &ObjectID(400), SequenceNumber(1), DeleteKind::Wrap);
    assert!(store.check_invariants());
    let inner = store.into_inner(&digest);
    for i in 0..inner.written.len() {
        assert!(!inner.deleted.contains_key(&inner.written.key_at(i)));
    }
    assert_eq!(inner.written.len(), 2);
    assert_eq!(inner.deleted.len(), 2);
}

#[test]
fn writes_and_deletes_can_be_tested_beforehand() {
    let c1 = gas_coin(100, 500, A, 3);
    let frozen = plain(200, 5, Owner::Immutable, 1);
    let mut store = store_over(&[&c1, &frozen], 9900);
    let ctx = user_ctx(A);
    assert!(store.can_write_object(&ctx, &c1, WriteKind::Mutate));
    assert!(!store.can_write_object(&ctx, &frozen, WriteKind::Mutate));
    assert!(!store.can_delete_object(&ObjectID(200), SequenceNumber(1)));
    assert!(store.can_delete_object(&ObjectID(100), SequenceNumber(3)));
    assert!(!store.can_delete_object(&ObjectID(100), SequenceNumber(4)));
    assert!(store.can_write_object(&ctx, &plain(300, 5, Owner::AddressOwner(A), 0), WriteKind::Create));
    assert!(!store.can_write_object(&ctx, &plain(300, 5, Owner::AddressOwner(A), 1), WriteKind::Create));
    assert!(store.can_write_object(&ctx, &plain(300, 5, Owner::Immutable, 1), WriteKind::Create));
    let shared_late = plain(300, 5, Owner::Shared { initial_shared_version: SequenceNumber(2) }, 0);
    assert!(!store.can_write_object(&ctx, &shared_late, WriteKind::Create));
    assert!(store.can_write_object(&ctx, &shared_late, WriteKind::Unwrap));
    let mut mutable_package = Object::new_package(
        MovePackage::new(ObjectID(2), vec![]),
        SequenceNumber(1),
        TransactionDigest::genesis(),
    );
    mutable_package.owner = Owner::AddressOwner(A);
    assert!(!store.can_write_object(&ctx, &mutable_package, WriteKind::Mutate));
    let system = SingleTxContext::new(ObjectID(2), "upgrade".to_string(), SuiAddress(0));
    assert!(store.can_write_object(&system, &mutable_package, WriteKind::Mutate));
    assert!(!store.can_write_object(&ctx, &mutable_package, WriteKind::Create));
    mutable_package.version = SequenceNumber(0);
    assert!(store.can_write_object(&ctx, &mutable_package, WriteKind::Create));
    store.delete_object(&ctx, &ObjectID(100), SequenceNumber(3), DeleteKind::Normal);
    assert!(!store.can_write_object(&ctx, &c1, WriteKind::Mutate));
    assert!(store.is_deleted(&ObjectID(100)));
    assert!(!store.is_written(&ObjectID(100)));
    store.write_object(&ctx, plain(300, 5, Owner::AddressOwner(A), 0), WriteKind::Create);
    assert!(store.is_written(&ObjectID(300)));
    assert!(!store.can_delete_object(&ObjectID(300), SequenceNumber(0)));
}

#[test]
fn gas_smashing_can_be_tested_beforehand() {
    let g0 = gas_coin(10, 100, A, 3);
    let g1 = gas_coin(11, 50, A, 4);
    let frozen = plain(12, 5, Owner::Immutable, 1);
    let mut frozen_coin = gas_coin(14, 5, A, 1);
    frozen_coin.owner = Owner::Immutable;
    let mut store = store_over(&[&g0, &g1, &frozen, &frozen_coin], 9900);
    let stranger = gas_coin(13, 5, A, 1);
    assert!(!store.can_smash_gas(&[]));
    assert!(store.can_smash_gas(&[reference(&stranger)]));
    assert!(store.can_smash_gas(&[reference(&g0), reference(&g1)]));
    assert!(!store.can_smash_gas(&[reference(&g0), reference(&g0)]));
    assert!(!store.can_smash_gas(&[reference(&g0), reference(&stranger)]));
    assert!(store.can_smash_gas(&[reference(&g0), reference(&frozen)]));
    assert!(!store.can_smash_gas(&[reference(&g0), reference(&frozen_coin)]));
    store.write_object(&user_ctx(A), g1.duplicate(), WriteKind::Mutate);
    assert!(!store.can_smash_gas(&[reference(&g0), reference(&g1)]));
    assert!(store.can_smash_gas(&[reference(&g1), reference(&g0)]));
    assert!(store.can_smash_gas(&[reference(&g0), reference(&g1), reference(&frozen)]));
    store.drop_writes();
    store.delete_object(&user_ctx(A), &ObjectID(10), SequenceNumber(3), DeleteKind::Normal);
    assert!(!store.can_smash_gas(&[reference(&g0), reference(&g1)]));
    assert!(store.can_smash_gas(&[reference(&g1), reference(&g0)]));
}

#[test]
fn gas_smashing_refuses_a_package_and_changes_nothing() {
    let g0 = gas_coin(10, 100, A, 3);
    let g1 = gas_coin(11, 50, A, 4);
    let package = Object::new_package(
        MovePackage::new(ObjectID(12), vec![]),
        SequenceNumber(1),
        TransactionDigest::genesis(),
    );
    let inputs = InputObjects::new(vec![
        owned_input(&g0),
        owned_input(&g1),
        (InputObjectKind::MovePackage(ObjectID(12)), package.duplicate()),
    ]);
    let config = ProtocolConfig::new(ProtocolVersion(1), 9900);
    for gas in [
        vec![reference(&g0), reference(&g1), reference(&package)],
        vec![reference(&package), reference(&g0)],
        vec![reference(&g0), reference(&package), reference(&g1)],
    ] {
        let inputs = InputObjects::new(vec![
            owned_input(&g0),
            owned_input(&g1),
            (InputObjectKind::MovePackage(ObjectID(12)), package.duplicate()),
        ]);
        let mut store = TemporaryStore::new((), inputs, tx(), &config, &digest);
        store.log_event(Event::publish(A, ObjectID(1), SequenceNumber(1), ObjectDigest::new(0, 0)));
        assert!(store.can_smash_gas(&gas));
        let err = store.smash_gas(A, &gas).unwrap_err();
        assert_eq!(err.kind(), ExecutionErrorKind::InvariantViolation);
        assert!(!store.is_written(&ObjectID(10)) && !store.is_written(&ObjectID(11)));
        assert!(!store.is_deleted(&ObjectID(10)) && !store.is_deleted(&ObjectID(11)));
        assert_eq!(store.read_object(&ObjectID(10)), Some(&g0));
        store.write_object(&user_ctx(A), g0.duplicate(), WriteKind::Mutate);
        store.write_object(&user_ctx(A), g1.duplicate(), WriteKind::Mutate);
        assert_eq!(store.into_inner(&digest).events.data.len(), 1);
    }
    assert!(inputs.is_consistent());
}

#[test]
fn the_system_changes_its_packages_in_place() {
    let old = Object::new_package(
        MovePackage::new(ObjectID(2), vec![MoveModule::new("m".to_string(), vec![1])]),
        SequenceNumber(1),
        TransactionDigest::genesis(),
    );
    let inputs = InputObjects::new(vec![(InputObjectKind::MovePackage(ObjectID(2)), old.duplicate())]);
    let mut store =
        TemporaryStore::new((), inputs, tx(), &ProtocolConfig::new(ProtocolVersion(1), 9900), &digest);
    let new = Object::new_package(
        MovePackage::new(ObjectID(2), vec![MoveModule::new("m".to_string(), vec![1, 2])]),
        SequenceNumber(2),
        TransactionDigest::genesis(),
    );
    let system = SingleTxContext::new(ObjectID(2), "upgrade".to_string(), SuiAddress(0));
    assert!(!store.can_write_object(&user_ctx(A), &new, WriteKind::Mutate));
    assert!(store.can_write_object(&system, &new, WriteKind::Mutate));
    store.write_object(&system, new.duplicate(), WriteKind::Mutate);
    assert!(store.can_write_object(&system, &new, WriteKind::Mutate));
    store.write_object(&system, new, WriteKind::Mutate);
    let inner = store.into_inner(&digest);
    let written = inner.get_written_object(&ObjectID(2)).unwrap();
    assert_eq!(written.version(), SequenceNumber(2));
    assert_eq!(
        inner.events.data,
        vec![Event::publish(SuiAddress(0), ObjectID(2), SequenceNumber(2), digest(written))]
    );
    assert_eq!(inner.clone(), inner);
}

#[test]
fn versions_before_are_listed_in_order_of_identifier() {
    let low = plain(3, 5, Owner::AddressOwner(A), 2);
    let high = plain(5, 5, Owner::AddressOwner(A), 4);
    let top = plain(9, 5, Owner::AddressOwner(A), 1);
    let mut store = store_over(&[&low, &high, &top], 9900);
    store.write_object(&user_ctx(A), high.duplicate(), WriteKind::Mutate);
    store.delete_object(&user_ctx(A), &ObjectID(3), SequenceNumber(2), DeleteKind::Normal);
    store.delete_object(&user_ctx(A), &ObjectID(9), SequenceNumber(1), DeleteKind::Wrap);
    store.write_object(&user_ctx(A), plain(4, 5, Owner::AddressOwner(A), 0), WriteKind::Create);
    store.write_object(&user_ctx(A), plain(7, 5, Owner::AddressOwner(A), 3), WriteKind::Unwrap);
    store.write_object(&user_ctx(A), plain(8, 5, Owner::ObjectOwner(ObjectID(5)), 6), WriteKind::Mutate);
    let zero = (ObjectID::zero(), SequenceNumber(0), ObjectDigest::new(0, 0));
    let (_, effects) = store.to_effects(
        vec![],
        &tx(),
        vec![],
        GasCostSummary::new(0, 0, 0, 0),
        ExecutionStatus::Success,
        &[zero],
        0,
        &digest,
        &events_digest,
    );
    assert_eq!(
        effects.modified_at_versions,
        vec![
            (ObjectID(3), SequenceNumber(2)),
            (ObjectID(5), SequenceNumber(4)),
            (ObjectID(8), SequenceNumber(6)),
            (ObjectID(9), SequenceNumber(1)),
        ]
    );
}

#[test]
fn charging_can_be_tested_beforehand() {
    let g = gas_coin(1, 1000, A, 1);
    let g2 = gas_coin(9, 500, A, 2);
    let other = plain(5, 30, Owner::AddressOwner(A), 1);
    let mut store = store_over(&[&g, &g2, &other], 9900);
    let one = [reference(&g)];
    let meter = SuiGasStatus::new_with_budget(300, 1, 0);
    assert!(store.can_charge_gas(&meter, false, A, ObjectID(1), &one));
    assert!(store.can_charge_gas(&meter, true, A, ObjectID(1), &one));
    assert!(!store.can_charge_gas(&meter, false, A, ObjectID(77), &one));
    assert!(!store.can_charge_gas(&meter, false, A, ObjectID(5), &one));
    let mut broken = meter;
    broken.gas_left = 301;
    assert!(!broken.is_well_formed() && meter.is_well_formed());
    assert!(!store.can_charge_gas(&broken, false, A, ObjectID(1), &one));
    store.write_object(&user_ctx(A), gas_coin(1, 200, A, 1), WriteKind::Mutate);
    let ample = SuiGasStatus::new_with_budget(400, 1, 0);
    assert!(!store.can_charge_gas(&ample, false, A, ObjectID(1), &one));
    assert!(store.can_charge_gas(&ample, true, A, ObjectID(1), &one));
    assert!(store.can_charge_gas(&meter, false, A, ObjectID(1), &one));
    let tight = SuiGasStatus::new_with_budget(250, 1, 0);
    assert!(store.can_charge_gas(&tight, false, A, ObjectID(1), &[reference(&g), reference(&g2)]));
    assert!(!store.can_charge_gas(&tight, true, A, ObjectID(1), &[reference(&g), reference(&g)]));
    let before = store.read_object(&ObjectID(1)).map(|o| o.duplicate());
    assert_eq!(Coin::extract_balance_if_coin(before.as_ref().unwrap()), Ok(Some(200)));
    store.drop_writes();
    store.delete_object(&user_ctx(A), &ObjectID(1), SequenceNumber(1), DeleteKind::Normal);
    assert!(!store.can_charge_gas(&meter, false, A, ObjectID(1), &one));
    assert!(store.can_charge_gas(&meter, true, A, ObjectID(1), &one));
}

#[test]
fn changes_can_be_tested_beforehand() {
    let c1 = gas_coin(100, 500, A, 3);
    let store = store_over(&[&c1], 9900);
    let mut changes: IdMap<ObjectChange> = IdMap::new();
    changes.insert(
        ObjectID(300),
        ObjectChange::Write(user_ctx(A), plain(300, 5, Owner::AddressOwner(A), 0), WriteKind::Create),
    );
    changes.insert(
        ObjectID(100),
        ObjectChange::Delete(user_ctx(B), SequenceNumber(3), DeleteKind::Wrap),
    );
    assert!(store.can_apply_object_changes(&changes));
    assert!(!store.is_deleted(&ObjectID(100)) && !store.is_written(&ObjectID(300)));
    changes.insert(
        ObjectID(400),
        ObjectChange::Write(user_ctx(A), c1.duplicate(), WriteKind::Mutate),
    );
    assert!(!store.can_apply_object_changes(&changes));
    let mut late: IdMap<ObjectChange> = IdMap::new();
    late.insert(
        ObjectID(100),
        ObjectChange::Delete(user_ctx(B), SequenceNumber(4), DeleteKind::Normal),
    );
    assert!(!store.can_apply_object_changes(&late));
    assert!(store.can_apply_object_changes(&IdMap::new()));
}

#[test]
fn drop_writes_twice_is_drop_writes_once() {
    let c1 = gas_coin(100, 500, A, 3);
    let mut once = store_over(&[&c1], 9900);
    let mut twice = store_over(&[&c1], 9900);
    for store in [&mut once, &mut twice] {
        store.write_object(&user_ctx(A), plain(300, 5, Owner::AddressOwner(A), 0), WriteKind::Create);
        store.delete_object(&user_ctx(A), &ObjectID(100), SequenceNumber(3), DeleteKind::Normal);
        store.log_event(Event::publish(A, ObjectID(1), SequenceNumber(1), ObjectDigest::new(0, 0)));
    }
    once.drop_writes();
    twice.drop_writes();
    twice.drop_writes();
    assert_eq!(once.read_object(&ObjectID(300)), None);
    assert_eq!(once.read_object(&ObjectID(100)), Some(&c1));
    for store in [&mut once, &mut twice] {
        store.write_object(&user_ctx(A), c1.duplicate(), WriteKind::Mutate);
        store.log_event(Event::publish(B, ObjectID(2), SequenceNumber(2), ObjectDigest::new(0, 0)));
    }
    let first = once.into_inner(&digest);
    let second = twice.into_inner(&digest);
    assert_eq!(first, second);
    assert_eq!(first.written.len(), 1);
    assert_eq!(first.deleted.len(), 0);
    assert_eq!(
        first.events.data,
        vec![Event::publish(B, ObjectID(2), SequenceNumber(2), ObjectDigest::new(0, 0))]
    );
}

#[test]
fn logged_events_come_after_the_events_of_objects() {
    let mut store = empty_for_testing();
    let logged = Event::publish(B, ObjectID(9), SequenceNumber(9), ObjectDigest::new(9, 9));
    store.log_event(logged.clone());
    let created = plain(300, 5, Owner::AddressOwner(A), 0);
    store.write_object(&user_ctx(A), created, WriteKind::Create);
    let inner = store.into_inner(&digest);
    assert_eq!(inner.events.data.len(), 2);
    assert_eq!(
        inner.events.data[0],
        Event::new_object(
            &user_ctx(A),
            Owner::AddressOwner(A),
            MoveObjectType::Other("0x7::thing::Thing".to_string()),
            ObjectID(300),
            SequenceNumber(1),
        )
    );
    assert_eq!(inner.events.data[1], logged);
}

#[test]
fn apply_object_changes_writes_and_deletes() {
    let c1 = gas_coin(100, 500, A, 3);
    let mut store = store_over(&[&c1], 9900);
    let mut changes: IdMap<ObjectChange> = IdMap::new();
    changes.insert(
        ObjectID(300),
        ObjectChange::Write(user_ctx(A), plain(300, 5, Owner::AddressOwner(A), 0), WriteKind::Create),
    );
    changes.insert(
        ObjectID(100),
        ObjectChange::Delete(user_ctx(B), SequenceNumber(3), DeleteKind::Wrap),
    );
    store.apply_object_changes(&changes);
    assert!(store.check_invariants());
    let inner = store.into_inner(&digest);
    assert_eq!(inner.deleted.get(&ObjectID(100)), Some(&(SequenceNumber(4), DeleteKind::Wrap)));
    assert_eq!(inner.created(), vec![ObjectID(300)]);
    assert_eq!(
        inner.events.data[1],
        balance_event(&user_ctx(B), BalanceChangeType::Pay, A, 100, 3, -500)
    );
}

#[test]
fn dynamic_fields_are_what_was_touched_without_being_an_input() {
    let c1 = gas_coin(100, 500, A, 3);
    let mut store = store_over(&[&c1], 9900);
    store.write_object(&user_ctx(A), c1.duplicate(), WriteKind::Mutate);
    store.write_object(&user_ctx(A), plain(50, 5, Owner::ObjectOwner(ObjectID(100)), 2), WriteKind::Mutate);
    store.write_object(&user_ctx(A), plain(60, 5, Owner::AddressOwner(A), 0), WriteKind::Create);
    store.write_object(&user_ctx(A), plain(70, 5, Owner::AddressOwner(A), 2), WriteKind::Unwrap);
    store.delete_object(&user_ctx(A), &ObjectID(40), SequenceNumber(1), DeleteKind::Normal);
    store.delete_object(&user_ctx(A), &ObjectID(30), SequenceNumber(1), DeleteKind::Wrap);
    store.delete_object(&user_ctx(A), &ObjectID(20), SequenceNumber(1), DeleteKind::UnwrapThenDelete);
    assert_eq!(store.dynamic_fields_touched(), vec![ObjectID(50), ObjectID(40)]);
}

#[test]
fn gas_smashing_merges_three_coins() {
    let g0 = gas_coin(10, 100, A, 3);
    let g1 = gas_coin(11, 50, A, 4);
    let g2 = gas_coin(12, 25, A, 5);
    let mut store = store_over(&[&g0, &g1, &g2], 9900);
    let gas = [reference(&g0), reference(&g1), reference(&g2)];
    assert_eq!(store.smash_gas(A, &gas), Ok(reference(&g0)));
    let primary = store.read_object(&ObjectID(10)).unwrap();
    assert_eq!(Coin::extract_balance_if_coin(primary), Ok(Some(175)));
    assert!(store.check_invariants());
    let inner = store.into_inner(&digest);
    assert_eq!(inner.written.len(), 1);
    assert_eq!(inner.deleted.len(), 2);
    assert_eq!(inner.deleted.get(&ObjectID(11)), Some(&(SequenceNumber(6), DeleteKind::Normal)));
    assert_eq!(inner.deleted.get(&ObjectID(12)), Some(&(SequenceNumber(6), DeleteKind::Normal)));
    let written = inner.get_written_object(&ObjectID(10)).unwrap();
    assert_eq!(Coin::extract_balance_if_coin(written), Ok(Some(175)));
    assert_eq!(written.data.try_as_move().unwrap().contents(), &coin_bytes(10, 175));
    assert_eq!(inner.written.get(&ObjectID(10)).unwrap().2, WriteKind::Mutate);
}

#[test]
fn gas_smashing_keeps_the_sum_of_the_balances() {
    let balances = [7u64, 1_000_000, 3, 0, 99];
    let coins: Vec<Object> =
        balances.iter().enumerate().map(|(i, b)| gas_coin(10 + i as u128, *b, A, 1)).collect();
    let refs: Vec<&Object> = coins.iter().collect();
    let mut store = store_over(&refs, 9900);
    let gas: Vec<ObjectRef> = coins.iter().map(reference).collect();
    assert_eq!(store.smash_gas(A, &gas), Ok(gas[0]));
    let inner = store.into_inner(&digest);
    let total: u64 = balances.iter().sum();
    assert_eq!(
        Coin::extract_balance_if_coin(inner.get_written_object(&ObjectID(10)).unwrap()),
        Ok(Some(total))
    );
    assert_eq!(inner.deleted.len(), balances.len() - 1);
    assert_eq!(inner.written.len(), 1);
}

#[test]
fn gas_smashing_leaves_a_single_coin_alone() {
    let g0 = gas_coin(10, 100, A, 3);
    let mut store = store_over(&[&g0], 9900);
    assert_eq!(store.smash_gas(A, &[reference(&g0)]), Ok(reference(&g0)));
    assert_eq!(store.read_object(&ObjectID(10)), Some(&g0));
    assert!(!store.check_invariants());
}

#[test]
fn gas_smashing_refuses_what_is_no_gas_coin() {
    let g0 = gas_coin(10, 100, A, 3);
    let other = plain(11, 24, Owner::AddressOwner(A), 4);
    let mut store = store_over(&[&g0, &other], 9900);
    let err = store.smash_gas(A, &[reference(&g0), reference(&other)]).unwrap_err();
    assert_eq!(err.kind(), ExecutionErrorKind::InvariantViolation);
    assert_eq!(store.read_object(&ObjectID(10)), Some(&g0));
    assert_eq!(store.read_object(&ObjectID(11)), Some(&other));
    let broken = Object::new_move(
        MoveObject::new(ObjectID(12), MoveObjectType::GasCoin, true, vec![1, 2, 3]),
        Owner::AddressOwner(A),
        SequenceNumber(1),
        TransactionDigest::genesis(),
    );
    let mut store = store_over(&[&g0, &broken], 9900);
    let err = store.smash_gas(A, &[reference(&g0), reference(&broken)]).unwrap_err();
    assert_eq!(err.kind(), ExecutionErrorKind::InvariantViolation);
}

#[test]
fn gas_smashing_refuses_a_sum_out_of_range() {
    let g0 = gas_coin(10, u64::MAX, A, 3);
    let g1 = gas_coin(11, 1, A, 4);
    let mut store = store_over(&[&g0, &g1], 9900);
    let err = store.smash_gas(A, &[reference(&g0), reference(&g1)]).unwrap_err();
    assert_eq!(err.kind(), ExecutionErrorKind::CoinBalanceOverflow);
    assert_eq!(store.read_object(&ObjectID(10)), Some(&g0));
    assert_eq!(store.read_object(&ObjectID(11)), Some(&g1));
}

#[test]
fn single_owned_coin_partial_spend() {
    let coin = gas_coin(100, 1000, A, 5);
    let mut store = store_over(&[&coin], 9900);
    store.write_object(&user_ctx(A), gas_coin(100, 804, A, 5), WriteKind::Mutate);
    let mut meter = SuiGasStatus::new_with_budget(500, 1, 0);
    let mut result: Result<(), ExecutionError> = Ok(());
    store.charge_gas(A, ObjectID(100), &mut meter, &mut result, &[reference(&coin)]);
    assert_eq!(result, Ok(()));
    let summary = meter.summary();
    assert_eq!(summary, GasCostSummary::new(0, 104, 0, 0));
    assert_eq!(store.check_sui_conserved(&no_sui_in_fields), Err(SuiError::ConservationViolation));
    let inner = store.into_inner(&digest);
    assert_eq!(inner.events.data.len(), 2);
    assert_eq!(
        inner.events.data[0],
        balance_event(&SingleTxContext::gas(A), BalanceChangeType::Gas, A, 100, 5, -104)
    );
    assert_eq!(
        inner.events.data[1],
        balance_event(&user_ctx(A), BalanceChangeType::Pay, A, 100, 5, 700 - 1000 + 104)
    );
    let written = inner.get_written_object(&ObjectID(100)).unwrap();
    assert_eq!(written.version(), SequenceNumber(6));
    assert_eq!(written.storage_rebate, 104);
    assert_eq!(written.previous_transaction, tx());
    assert_eq!(Coin::extract_balance_if_coin(written), Ok(Some(700)));
}

#[test]
fn cross_owner_coin_send() {
    let c1 = gas_coin(100, 500, A, 3);
    let c2 = gas_coin(200, 10000, A, 4);
    let mut store = store_over(&[&c1, &c2], 9900);
    store.write_object(&user_ctx(A), gas_coin(100, 500, B, 3), WriteKind::Mutate);
    store.write_object(&user_ctx(A), gas_coin(200, 9000, A, 4), WriteKind::Mutate);
    let mut meter = SuiGasStatus::new_with_budget(1000, 1, 0);
    let mut result: Result<u8, ExecutionError> = Ok(7);
    store.charge_gas(A, ObjectID(200), &mut meter, &mut result, &[reference(&c2)]);
    assert_eq!(result, Ok(7));
    assert_eq!(meter.summary(), GasCostSummary::new(0, 208, 0, 0));
    let inner = store.into_inner(&digest);
    assert_eq!(
        inner.events.data,
        vec![
            balance_event(&SingleTxContext::gas(A), BalanceChangeType::Gas, A, 200, 4, -208),
            balance_event(&user_ctx(A), BalanceChangeType::Pay, A, 100, 3, -500),
            balance_event(&user_ctx(A), BalanceChangeType::Receive, B, 100, 5, 500),
            balance_event(&user_ctx(A), BalanceChangeType::Pay, A, 200, 4, -1000),
        ]
    );
    let gas = inner.get_written_object(&ObjectID(200)).unwrap();
    assert_eq!(Coin::extract_balance_if_coin(gas), Ok(Some(8792)));
    assert_eq!(gas.storage_rebate, 104);
    assert_eq!(inner.get_written_objects_owned_by(&B), vec![ObjectID(100)]);
    assert_eq!(inner.get_written_objects_owned_by(&A), vec![ObjectID(200)]);
    assert!(inner.created().is_empty());
}

#[test]
fn package_publish_emits_publish_only() {
    let mut store = empty_for_testing();
    let package = Object::new_package(
        MovePackage::new(ObjectID(0x500), vec![MoveModule::new("m".to_string(), vec![1, 2, 3])]),
        SequenceNumber(1),
        TransactionDigest::genesis(),
    );
    store.write_object(&user_ctx(A), package.duplicate(), WriteKind::Create);
    let inner = store.into_inner(&digest);
    let written = inner.get_written_object(&ObjectID(0x500)).unwrap();
    assert_eq!(written.version(), SequenceNumber(1));
    assert_eq!(
        inner.events.data,
        vec![Event::publish(A, ObjectID(0x500), SequenceNumber(1), digest(written))]
    );
    assert_eq!(inner.written.get(&ObjectID(0x500)).unwrap().0, reference(written));
}

#[test]
fn system_package_upgrade_emits_publish() {
    let old = Object::new_package(
        MovePackage::new(ObjectID(2), vec![MoveModule::new("m".to_string(), vec![1])]),
        SequenceNumber(1),
        TransactionDigest::genesis(),
    );
    let mut store = empty_for_testing();
    let new = Object::new_package(
        MovePackage::new(ObjectID(2), vec![MoveModule::new("m".to_string(), vec![1, 2])]),
        SequenceNumber(2),
        TransactionDigest::genesis(),
    );
    let system = SingleTxContext::new(ObjectID(2), "upgrade".to_string(), SuiAddress(0));
    store.write_object(&system, new, WriteKind::Mutate);
    let inner = store.into_inner(&digest);
    let written = inner.get_written_object(&ObjectID(2)).unwrap();
    assert_eq!(written.version(), SequenceNumber(2));
    assert_ne!(written.data, old.data);
    assert_eq!(
        inner.events.data,
        vec![Event::publish(SuiAddress(0), ObjectID(2), SequenceNumber(2), digest(written))]
    );
}

#[test]
fn shared_object_creation_records_the_version() {
    let mut store = empty_for_testing();
    let shared = plain(0x600, 8, Owner::Shared { initial_shared_version: SequenceNumber(0) }, 0);
    store.write_object(&user_ctx(A), shared, WriteKind::Create);
    let inner = store.into_inner(&digest);
    let written = inner.get_written_object(&ObjectID(0x600)).unwrap();
    assert_eq!(written.owner, Owner::Shared { initial_shared_version: SequenceNumber(1) });
    assert_eq!(written.version(), SequenceNumber(1));
    assert_eq!(
        inner.events.data,
        vec![Event::new_object(
            &user_ctx(A),
            Owner::Shared { initial_shared_version: SequenceNumber(1) },
            MoveObjectType::Other("0x7::thing::Thing".to_string()),
            ObjectID(0x600),
            SequenceNumber(1),
        )]
    );
}

#[test]
fn out_of_gas_while_charging_storage() {
    let g = gas_coin(1, 10000, A, 1);
    let g2 = gas_coin(9, 500, A, 2);
    let gas = [reference(&g), reference(&g2)];
    let mut store = store_over(&[&g, &g2], 9900);
    assert_eq!(store.smash_gas(A, &gas), Ok(reference(&g)));
    store.write_object(&user_ctx(A), plain(2, 20, Owner::AddressOwner(A), 0), WriteKind::Create);
    store.write_object(&user_ctx(A), plain(3, 1000, Owner::AddressOwner(A), 0), WriteKind::Create);
    store.write_object(&user_ctx(A), plain(4, 20, Owner::AddressOwner(A), 0), WriteKind::Create);
    store.log_event(Event::publish(A, ObjectID(1), SequenceNumber(1), ObjectDigest::new(0, 0)));
    let mut meter = SuiGasStatus::new_with_budget(500, 1, 0);
    let mut result: Result<(), ExecutionError> = Ok(());
    store.charge_gas(A, ObjectID(1), &mut meter, &mut result, &gas);
    assert_eq!(result.unwrap_err().kind(), ExecutionErrorKind::InsufficientGas);
    assert_eq!(meter.summary(), GasCostSummary::new(0, 104, 0, 0));
    assert!(store.check_invariants());
    assert_eq!(store.check_sui_conserved(&no_sui_in_fields), Ok(()));
    let inner = store.into_inner(&digest);
    assert_eq!(inner.written.len(), 1);
    assert_eq!(inner.deleted.len(), 1);
    let coin = inner.get_written_object(&ObjectID(1)).unwrap();
    assert_eq!(Coin::extract_balance_if_coin(coin), Ok(Some(10500 - 104)));
    assert_eq!(coin.storage_rebate, 104);
    assert_eq!(inner.deleted.get(&ObjectID(9)), Some(&(SequenceNumber(3), DeleteKind::Normal)));
    assert_eq!(
        inner.events.data,
        vec![
            balance_event(&SingleTxContext::gas(A), BalanceChangeType::Gas, A, 1, 1, -104),
            balance_event(&SingleTxContext::gas(A), BalanceChangeType::Receive, A, 1, 3, 500),
            balance_event(&SingleTxContext::gas(A), BalanceChangeType::Pay, A, 9, 2, -500),
        ]
    );
}

#[test]
fn failed_execution_is_reset_before_charging() {
    let g = gas_coin(1, 10000, A, 1);
    let other = plain(5, 30, Owner::AddressOwner(A), 1);
    let mut store = store_over(&[&g, &other], 9900);
    store.write_object(&user_ctx(A), plain(5, 2000, Owner::AddressOwner(B), 1), WriteKind::Mutate);
    store.write_object(&user_ctx(A), plain(6, 20, Owner::AddressOwner(A), 0), WriteKind::Create);
    let mut meter = SuiGasStatus::new_with_budget(1000, 1, 1);
    let failure = ExecutionError::from_kind(ExecutionErrorKind::InvariantViolation);
    let mut result: Result<(), ExecutionError> = Err(failure);
    store.charge_gas(A, ObjectID(1), &mut meter, &mut result, &[reference(&g)]);
    assert_eq!(result, Err(failure));
    assert_eq!(meter.summary(), GasCostSummary::new(428, 214, 0, 0));
    let inner = store.into_inner(&digest);
    assert_eq!(inner.written.len(), 2);
    let bumped = inner.get_written_object(&ObjectID(5)).unwrap();
    assert_eq!(bumped.owner, Owner::AddressOwner(A));
    assert_eq!(bumped.version(), SequenceNumber(2));
    assert_eq!(bumped.storage_rebate, 110);
    assert_eq!(bumped.previous_transaction, tx());
    assert_eq!(inner.written.get(&ObjectID(5)).unwrap().2, WriteKind::Mutate);
    let coin = inner.get_written_object(&ObjectID(1)).unwrap();
    assert_eq!(Coin::extract_balance_if_coin(coin), Ok(Some(10000 - 642)));
    assert!(inner.get_written_object(&ObjectID(6)).is_none());
}

#[test]
fn untouched_mutable_inputs_are_written_when_gas_is_charged() {
    let g = gas_coin(1, 10000, A, 1);
    let idle = plain(5, 30, Owner::AddressOwner(A), 7);
    let gone = plain(6, 30, Owner::AddressOwner(A), 2);
    let mut store = store_over(&[&g, &idle, &gone], 9900);
    store.delete_object(&user_ctx(A), &ObjectID(6), SequenceNumber(2), DeleteKind::Normal);
    assert!(!store.check_invariants());
    let mut meter = SuiGasStatus::new_with_budget(1000, 1, 0);
    let mut result: Result<(), ExecutionError> = Ok(());
    store.charge_gas(A, ObjectID(1), &mut meter, &mut result, &[reference(&g)]);
    assert!(store.check_invariants());
    let inner = store.into_inner(&digest);
    for r in inner.mutable_inputs.iter() {
        assert!(inner.written.contains_key(&r.0) || inner.deleted.contains_key(&r.0));
    }
    let bumped = inner.written.get(&ObjectID(5)).unwrap();
    assert_eq!(bumped.2, WriteKind::Mutate);
    assert_eq!(bumped.1.version(), SequenceNumber(8));
    assert_eq!(bumped.0, (ObjectID(5), SequenceNumber(8), digest(&bumped.1)));
    assert_eq!(inner.deleted.get(&ObjectID(6)), Some(&(SequenceNumber(8), DeleteKind::Normal)));
    for i in 0..inner.written.len() {
        let (object_ref, object, _) = inner.written.value_at(i);
        assert_eq!(object.version(), SequenceNumber(8));
        assert_eq!(object_ref.1, SequenceNumber(8));
        assert_eq!(object.previous_transaction, tx());
    }
}

#[test]
fn rebates_go_to_the_gas_coin_and_sui_is_conserved() {
    let mut g = gas_coin(1, 10000, A, 1);
    g.storage_rebate = 200;
    let mut gone = plain(6, 30, Owner::AddressOwner(A), 2);
    gone.storage_rebate = 1000;
    let mut store = store_over(&[&g, &gone], 9900);
    store.delete_object(&user_ctx(A), &ObjectID(6), SequenceNumber(2), DeleteKind::Normal);
    let mut meter = SuiGasStatus::new_with_budget(1000, 1, 1);
    let mut result: Result<(), ExecutionError> = Ok(());
    store.charge_gas(A, ObjectID(1), &mut meter, &mut result, &[reference(&g)]);
    let summary = meter.summary();
    assert_eq!(summary, GasCostSummary::new(318, 104, 1200, 0));
    assert_eq!(summary.sender_rebate(9900), 1188);
    assert_eq!(summary.storage_fund_rebate_inflow(9900), 12);
    assert_eq!(store.check_sui_conserved(&no_sui_in_fields), Ok(()));
    let coin = store.read_object(&ObjectID(1)).unwrap();
    assert_eq!(Coin::extract_balance_if_coin(coin), Ok(Some(10000 - 422 + 1188)));
    assert_eq!(coin.storage_rebate, 104);
    let inner = store.into_inner(&digest);
    assert_eq!(
        inner.events.data[0],
        balance_event(&SingleTxContext::gas(A), BalanceChangeType::Gas, A, 1, 1, 1200 - 422)
    );
}

#[test]
fn conservation_check_skips_dynamic_fields() {
    let g = gas_coin(1, 10000, A, 1);
    let mut store = store_over(&[&g], 9900);
    store.write_object(&user_ctx(A), gas_coin(50, 1_000_000, A, 3), WriteKind::Mutate);
    assert_eq!(store.dynamic_fields_touched(), vec![ObjectID(50)]);
    assert_eq!(store.check_sui_conserved(&no_sui_in_fields), Ok(()));
}

#[test]
fn conservation_check_counts_what_fields_hold() {
    let g = gas_coin(1, 10000, A, 1);
    let vault = plain(5, 30, Owner::AddressOwner(A), 1);
    let mut store = store_over(&[&g, &vault], 10000);
    store.write_object(&user_ctx(A), gas_coin(1, 9000, A, 1), WriteKind::Mutate);
    store.write_object(&user_ctx(A), plain(5, 31, Owner::AddressOwner(A), 1), WriteKind::Mutate);
    let mut meter = SuiGasStatus::new_with_budget(0, 0, 0);
    let mut result: Result<(), ExecutionError> = Ok(());
    store.charge_gas(A, ObjectID(1), &mut meter, &mut result, &[reference(&g)]);
    let moved_into_vault = |object: &Object| -> u64 {
        if object.data.try_as_move().unwrap().contents().len() == 31 {
            1000
        } else {
            0
        }
    };
    assert_eq!(store.check_sui_conserved(&moved_into_vault), Ok(()));
    assert_eq!(store.check_sui_conserved(&no_sui_in_fields), Err(SuiError::ConservationViolation));
}

#[test]
fn conservation_check_reports_unreadable_coins() {
    let g = gas_coin(1, 10000, A, 1);
    let broken = Object::new_move(
        MoveObject::new(ObjectID(12), MoveObjectType::GasCoin, true, vec![1, 2, 3]),
        Owner::AddressOwner(A),
        SequenceNumber(1),
        TransactionDigest::genesis(),
    );
    let mut store = store_over(&[&g, &broken], 9900);
    let mut meter = SuiGasStatus::new_with_budget(1000, 1, 0);
    let mut result: Result<(), ExecutionError> = Ok(());
    store.charge_gas(A, ObjectID(1), &mut meter, &mut result, &[reference(&g)]);
    assert_eq!(store.check_sui_conserved(&no_sui_in_fields), Err(SuiError::BadObjectType));
}

#[test]
fn coin_events_by_ownership_and_balance() {
    let ctx = user_ctx(A);
    let old = gas_coin(100, 1000, A, 5);
    let less = gas_coin(100, 700, A, 6);
    let more = gas_coin(100, 1300, A, 6);
    let same = gas_coin(100, 1000, A, 6);
    let moved = gas_coin(100, 400, B, 6);
    assert_eq!(
        TemporaryStore::<()>::create_coin_mutate_events(&ctx, None, &less, &old, 0),
        vec![balance_event(&ctx, BalanceChangeType::Pay, A, 100, 5, -300)]
    );
    assert_eq!(
        TemporaryStore::<()>::create_coin_mutate_events(&ctx, None, &more, &old, 0),
        vec![balance_event(&ctx, BalanceChangeType::Receive, A, 100, 6, 300)]
    );
    assert!(TemporaryStore::<()>::create_coin_mutate_events(&ctx, None, &same, &old, 0).is_empty());
    assert_eq!(
        TemporaryStore::<()>::create_coin_mutate_events(&ctx, None, &moved, &old, 0),
        vec![
            balance_event(&ctx, BalanceChangeType::Pay, A, 100, 5, -1000),
            balance_event(&ctx, BalanceChangeType::Receive, B, 100, 6, 400),
        ]
    );
    assert!(TemporaryStore::<()>::create_coin_mutate_events(
        &ctx,
        Some(ObjectID(100)),
        &less,
        &old,
        300
    )
    .is_empty());
    assert_eq!(
        TemporaryStore::<()>::create_coin_mutate_events(&ctx, Some(ObjectID(101)), &less, &old, 300),
        vec![balance_event(&ctx, BalanceChangeType::Pay, A, 100, 5, -300)]
    );
    assert_eq!(
        TemporaryStore::<()>::create_coin_mutate_events(&ctx, Some(ObjectID(100)), &moved, &old, 100),
        vec![
            balance_event(&ctx, BalanceChangeType::Pay, A, 100, 5, -900),
            balance_event(&ctx, BalanceChangeType::Receive, B, 100, 6, 400),
        ]
    );
    let not_a_coin = plain(100, 24, Owner::AddressOwner(A), 5);
    assert!(
        TemporaryStore::<()>::create_coin_mutate_events(&ctx, None, &less, &not_a_coin, 0).is_empty()
    );
}

#[test]
fn written_events_by_kind() {
    let ctx = user_ctx(A);
    let thing = "0x7::thing::Thing".to_string();
    let old = plain(7, 10, Owner::AddressOwner(A), 3);
    let changed = plain(7, 11, Owner::AddressOwner(A), 4);
    let handed = plain(7, 10, Owner::AddressOwner(B), 4);
    let both = plain(7, 11, Owner::AddressOwner(B), 4);
    let events = |kind: WriteKind, new: &Object, old: Option<&Object>| {
        TemporaryStore::<()>::create_written_events(&ctx, kind, ObjectID(7), new, old, None, 0, &digest)
    };
    let mutate = Event::mutate_object(&ctx, MoveObjectType::Other(thing.clone()), ObjectID(7), SequenceNumber(4));
    let transfer = Event::transfer_object(
        &ctx,
        Owner::AddressOwner(B),
        MoveObjectType::Other(thing.clone()),
        ObjectID(7),
        SequenceNumber(4),
    );
    assert_eq!(events(WriteKind::Mutate, &changed, Some(&old)), vec![mutate.clone()]);
    assert_eq!(events(WriteKind::Mutate, &handed, Some(&old)), vec![transfer.clone()]);
    assert_eq!(events(WriteKind::Mutate, &both, Some(&old)), vec![transfer.clone(), mutate]);
    assert!(events(WriteKind::Mutate, &plain(7, 10, Owner::AddressOwner(A), 4), Some(&old)).is_empty());
    assert_eq!(events(WriteKind::Unwrap, &handed, None), vec![transfer]);
    assert_eq!(
        events(WriteKind::Create, &changed, None),
        vec![Event::new_object(
            &ctx,
            Owner::AddressOwner(A),
            MoveObjectType::Other(thing),
            ObjectID(7),
            SequenceNumber(4),
        )]
    );
    let coin = gas_coin(7, 55, A, 4);
    assert_eq!(
        events(WriteKind::Create, &coin, None),
        vec![balance_event(&ctx, BalanceChangeType::Receive, A, 7, 4, 55)]
    );
    assert_eq!(
        events(WriteKind::Unwrap, &coin, Some(&old)),
        vec![balance_event(&ctx, BalanceChangeType::Receive, A, 7, 4, 55)]
    );
    let mut owned_by_object = gas_coin(7, 55, A, 4);
    owned_by_object.owner = Owner::ObjectOwner(ObjectID(1));
    assert!(events(WriteKind::Create, &owned_by_object, None).is_empty());
    let broken = Object::new_move(
        MoveObject::new(ObjectID(7), MoveObjectType::GasCoin, true, vec![1]),
        Owner::AddressOwner(A),
        SequenceNumber(4),
        TransactionDigest::genesis(),
    );
    assert!(events(WriteKind::Create, &broken, None).is_empty());
}

#[test]
fn deleted_events_by_what_was_deleted() {
    let ctx = user_ctx(B);
    let coin = gas_coin(7, 55, A, 4);
    assert_eq!(
        TemporaryStore::<()>::create_deleted_event(&ctx, ObjectID(7), SequenceNumber(9), Some(&coin)),
        balance_event(&ctx, BalanceChangeType::Pay, A, 7, 4, -55)
    );
    let thing = plain(7, 10, Owner::AddressOwner(A), 3);
    assert_eq!(
        TemporaryStore::<()>::create_deleted_event(&ctx, ObjectID(7), SequenceNumber(9), Some(&thing)),
        Event::delete_object(&ctx, ObjectID(7), SequenceNumber(9))
    );
    assert_eq!(
        TemporaryStore::<()>::create_deleted_event(&ctx, ObjectID(8), SequenceNumber(9), None),
        Event::delete_object(&ctx, ObjectID(8), SequenceNumber(9))
    );
}

fn run_to_effects(balance: u64) -> (temp_store::inner_store::InnerTemporaryStore, TransactionEffects) {
    let g = gas_coin(1, 10000, A, 1);
    let wrapped = plain(5, 30, Owner::AddressOwner(A), 2);
    let gone = plain(6, 30, Owner::AddressOwner(A), 3);
    let mut store = store_over(&[&g, &wrapped, &gone], 9900);
    store.write_object(&user_ctx(A), gas_coin(1, balance, A, 1), WriteKind::Mutate);
    store.write_object(&user_ctx(A), plain(7, 3, Owner::AddressOwner(B), 0), WriteKind::Create);
    store.write_object(&user_ctx(A), plain(8, 3, Owner::AddressOwner(B), 1), WriteKind::Unwrap);
    store.delete_object(&user_ctx(A), &ObjectID(5), SequenceNumber(2), DeleteKind::Wrap);
    store.delete_object(&user_ctx(A), &ObjectID(6), SequenceNumber(3), DeleteKind::Normal);
    store.delete_object(&user_ctx(A), &ObjectID(4), SequenceNumber(1), DeleteKind::UnwrapThenDelete);
    let mut meter = SuiGasStatus::new_with_budget(1000, 1, 0);
    let mut result: Result<(), ExecutionError> = Ok(());
    store.charge_gas(A, ObjectID(1), &mut meter, &mut result, &[reference(&g)]);
    store.to_effects(
        vec![(ObjectID(90), SequenceNumber(1), ObjectDigest::new(0, 0))],
        &tx(),
        vec![TransactionDigest::new(3, 3)],
        meter.summary(),
        ExecutionStatus::Success,
        &[reference(&g)],
        12,
        &digest,
        &events_digest,
    )
}

#[test]
fn effects_sort_the_changes_by_kind() {
    let (inner, effects) = run_to_effects(9000);
    let lamport = SequenceNumber(4);
    let written_ref = |id: u128| inner.written.get(&ObjectID(id)).unwrap().0;
    assert_eq!(effects.protocol_version, ProtocolVersion(1));
    assert_eq!(effects.status, ExecutionStatus::Success);
    assert_eq!(effects.executed_epoch, 12);
    assert_eq!(effects.gas_used, GasCostSummary::new(0, 104 + 83 + 83, 0, 0));
    assert_eq!(effects.transaction_digest, tx());
    assert_eq!(effects.dependencies, vec![TransactionDigest::new(3, 3)]);
    assert_eq!(effects.shared_objects, vec![(ObjectID(90), SequenceNumber(1), ObjectDigest::new(0, 0))]);
    assert_eq!(
        effects.modified_at_versions,
        vec![
            (ObjectID(1), SequenceNumber(1)),
            (ObjectID(4), SequenceNumber(1)),
            (ObjectID(5), SequenceNumber(2)),
            (ObjectID(6), SequenceNumber(3)),
        ]
    );
    assert_eq!(effects.created, vec![(written_ref(7), Owner::AddressOwner(B))]);
    assert_eq!(effects.mutated, vec![(written_ref(1), Owner::AddressOwner(A))]);
    assert_eq!(effects.unwrapped, vec![(written_ref(8), Owner::AddressOwner(B))]);
    assert_eq!(written_ref(7).1, lamport);
    assert_eq!(effects.deleted, vec![(ObjectID(6), lamport, ObjectDigest::object_digest_deleted())]);
    assert_eq!(
        effects.unwrapped_then_deleted,
        vec![(ObjectID(4), lamport, ObjectDigest::object_digest_deleted())]
    );
    assert_eq!(effects.wrapped, vec![(ObjectID(5), lamport, ObjectDigest::object_digest_wrapped())]);
    assert_eq!(effects.gas_object, (written_ref(1), Owner::AddressOwner(A)));
    assert_eq!(effects.events_digest, Some(events_digest(&inner.events)));
    assert_ne!(ObjectDigest::object_digest_deleted(), ObjectDigest::object_digest_wrapped());
}

#[test]
fn same_inputs_and_calls_give_the_same_effects() {
    let (inner_a, effects_a) = run_to_effects(9000);
    let (inner_b, effects_b) = run_to_effects(9000);
    assert_eq!(inner_a, inner_b);
    assert_eq!(effects_a, effects_b);
    let (_, effects_c) = run_to_effects(9001);
    assert_ne!(effects_a, effects_c);
}

#[test]
fn effects_without_gas_and_without_events() {
    let store = empty_for_testing();
    let zero = (ObjectID::zero(), SequenceNumber(0), ObjectDigest::new(0, 0));
    let (inner, effects) = store.to_effects(
        vec![],
        &tx(),
        vec![],
        GasCostSummary::new(0, 0, 0, 0),
        ExecutionStatus::Failure { error: ExecutionErrorKind::InvariantViolation },
        &[zero],
        0,
        &digest,
        &events_digest,
    );
    assert_eq!(effects.gas_object, (zero, Owner::AddressOwner(SuiAddress::default())));
    assert_eq!(effects.events_digest, None);
    assert!(effects.created.is_empty() && effects.mutated.is_empty() && effects.deleted.is_empty());
    assert!(inner.events.data.is_empty());
    assert_eq!(
        effects.status,
        ExecutionStatus::Failure { error: ExecutionErrorKind::InvariantViolation }
    );
}

#[test]
fn effects_size_estimate() {
    assert_eq!(TransactionEffects::estimate_effects_size_upperbound(0, 0, 0, 0), 2200);
    assert_eq!(
        TransactionEffects::estimate_effects_size_upperbound(3, 2, 1, 4),
        2200 + 3 * 128 + 2 * 80 + 80 + 4 * 40
    );
    assert_eq!(
        TransactionEffects::estimate_effects_size_upperbound(usize::MAX, usize::MAX, 0, 0),
        usize::MAX
    );
    let g = gas_coin(1, 10000, A, 1);
    let other = plain(5, 30, Owner::AddressOwner(A), 1);
    let mut store = store_over(&[&g, &other], 9900);
    store.write_object(&user_ctx(A), plain(7, 3, Owner::AddressOwner(B), 0), WriteKind::Create);
    store.delete_object(&user_ctx(A), &ObjectID(5), SequenceNumber(1), DeleteKind::Normal);
    assert_eq!(store.estimate_effects_size_upperbound(), 2200 + 128 + 2 * 80 + 80 + 2 * 40);
}

#[test]
fn testing_stores_start_empty() {
    let store = empty_for_testing();
    assert!(store.objects().is_empty());
    assert!(store.check_invariants());
    let g = gas_coin(1, 10000, A, 1);
    let store = with_input_objects_for_testing(InputObjects::new(vec![owned_input(&g)]), &digest);
    assert_eq!(store.objects().len(), 1);
    assert_eq!(store.read_object(&ObjectID(1)), Some(&g));
    let inner = store_over(&[], 9900).into_inner(&digest);
    assert!(inner.written.is_empty() && inner.deleted.is_empty() && inner.events.data.is_empty());
}
