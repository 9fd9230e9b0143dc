use temp_store::base_types::{ObjectID, SequenceNumber, SuiAddress, TransactionDigest};
use temp_store::coin::Coin;
use temp_store::error::ExecutionErrorKind;
use temp_store::gas::{deduct_gas, GasCostSummary, SuiGasStatus};
use temp_store::id_map::IdMap;
use temp_store::object::{
    MoveModule, MoveObject, MoveObjectType, MovePackage, Object, Owner, OBJECT_METADATA_SIZE,
};

fn coin_bytes(id: u128, balance: u64) -> Vec<u8> {
    let mut bytes = id.to_le_bytes().to_vec();
    bytes.extend_from_slice(&balance.to_le_bytes());
    bytes
}

fn gas_coin(id: u128, balance: u64, owner: u128, version: u64) -> Object {
    Object::new_move(
        MoveObject::new(ObjectID(id), MoveObjectType::GasCoin, true, coin_bytes(id, balance)),
        Owner::AddressOwner(SuiAddress(owner)),
        SequenceNumber(version),
        TransactionDigest::genesis(),
    )
}

#[test]
fn id_map_keeps_identifiers_in_order() {
    let mut map: IdMap<u64> = IdMap::new();
    assert!(map.is_empty());
    map.insert(ObjectID(30), 3);
    map.insert(ObjectID(10), 1);
    map.insert(ObjectID(20), 2);
    assert_eq!(map.len(), 3);
    assert_eq!(map.key_at(0), ObjectID(10));
    assert_eq!(map.key_at(1), ObjectID(20));
    assert_eq!(map.key_at(2), ObjectID(30));
    assert_eq!(*map.value_at(1), 2);
    assert_eq!(map.get(&ObjectID(20)), Some(&2));
    assert_eq!(map.get(&ObjectID(25)), None);
    assert!(map.contains_key(&ObjectID(30)));
    assert!(!map.contains_key(&ObjectID(31)));
}

#[test]
fn id_map_insert_replaces_the_old_value() {
    let mut map: IdMap<u64> = IdMap::new();
    map.insert(ObjectID(7), 1);
    map.insert(ObjectID(7), 2);
    assert_eq!(map.len(), 1);
    assert_eq!(map.get(&ObjectID(7)), Some(&2));
    map.clear();
    assert_eq!(map.len(), 0);
    assert_eq!(map.get(&ObjectID(7)), None);
}

#[test]
fn coin_serializes_to_identifier_then_balance() {
    let coin = Coin::new(ObjectID(0x0102), 0x0a0b);
    let bytes = coin.to_bcs_bytes().unwrap();
    let mut expected = vec![0u8; 24];
    expected[0] = 0x02;
    expected[1] = 0x01;
    expected[16] = 0x0b;
    expected[17] = 0x0a;
    assert_eq!(bytes, expected);
}

#[test]
fn coin_reads_back_what_was_serialized() {
    let coin = Coin::new(ObjectID(u128::MAX - 5), u64::MAX - 7);
    let bytes = coin.to_bcs_bytes().unwrap();
    assert_eq!(bytes.len(), 24);
    let back = Coin::from_bcs_bytes(&bytes).unwrap();
    assert_eq!(back, coin);
    assert_eq!(back.value(), u64::MAX - 7);
}

#[test]
fn coin_reads_little_endian_integers() {
    let mut bytes = vec![0u8; 24];
    bytes[15] = 0x80;
    bytes[23] = 0x01;
    let coin = Coin::from_bcs_bytes(&bytes).unwrap();
    assert_eq!(coin.id, ObjectID(0x80u128 << 120));
    assert_eq!(coin.balance, 1u64 << 56);
}

#[test]
fn coin_refuses_bytes_of_another_length() {
    let short = Coin::from_bcs_bytes(&[0u8; 23]).unwrap_err();
    assert_eq!(short.kind(), ExecutionErrorKind::InvariantViolation);
    let long = Coin::from_bcs_bytes(&[0u8; 25]).unwrap_err();
    assert_eq!(long.kind(), ExecutionErrorKind::InvariantViolation);
    assert!(Coin::from_bcs_bytes(&[]).is_err());
}

#[test]
fn coin_add_checks_the_range() {
    let mut coin = Coin::new(ObjectID(1), u64::MAX - 1);
    assert!(coin.add(1).is_ok());
    assert_eq!(coin.balance, u64::MAX);
    let err = coin.add(1).unwrap_err();
    assert_eq!(err.kind(), ExecutionErrorKind::CoinBalanceOverflow);
    assert_eq!(coin.balance, u64::MAX);
}

#[test]
fn balance_is_extracted_from_coins_only() {
    let gas = gas_coin(1, 42, 9, 0);
    assert_eq!(Coin::extract_balance_if_coin(&gas), Ok(Some(42)));
    let other_coin = Object::new_move(
        MoveObject::new(
            ObjectID(2),
            MoveObjectType::Coin("0x7::usd::USD".to_string()),
            true,
            coin_bytes(2, 17),
        ),
        Owner::AddressOwner(SuiAddress(9)),
        SequenceNumber(0),
        TransactionDigest::genesis(),
    );
    assert_eq!(Coin::extract_balance_if_coin(&other_coin), Ok(Some(17)));
    let plain = Object::new_move(
        MoveObject::new(ObjectID(3), MoveObjectType::Other("0x7::m::T".to_string()), true, vec![1, 2]),
        Owner::AddressOwner(SuiAddress(9)),
        SequenceNumber(0),
        TransactionDigest::genesis(),
    );
    assert_eq!(Coin::extract_balance_if_coin(&plain), Ok(None));
    let package = Object::new_package(
        MovePackage::new(ObjectID(4), vec![]),
        SequenceNumber(1),
        TransactionDigest::genesis(),
    );
    assert_eq!(Coin::extract_balance_if_coin(&package), Ok(None));
    let broken = Object::new_move(
        MoveObject::new(ObjectID(5), MoveObjectType::GasCoin, true, vec![1, 2, 3]),
        Owner::AddressOwner(SuiAddress(9)),
        SequenceNumber(0),
        TransactionDigest::genesis(),
    );
    let err = Coin::extract_balance_if_coin(&broken).unwrap_err();
    assert_eq!(err.kind(), ExecutionErrorKind::InvariantViolation);
}

#[test]
fn object_size_counts_metadata_and_bytes() {
    let coin = gas_coin(1, 42, 9, 0);
    assert_eq!(coin.object_size_for_gas_metering(), OBJECT_METADATA_SIZE + 24);
    let package = Object::new_package(
        MovePackage::new(
            ObjectID(4),
            vec![
                MoveModule::new("a".to_string(), vec![0; 10]),
                MoveModule::new("bcd".to_string(), vec![0; 20]),
            ],
        ),
        SequenceNumber(1),
        TransactionDigest::genesis(),
    );
    assert_eq!(package.object_size_for_gas_metering(), OBJECT_METADATA_SIZE + 1 + 10 + 3 + 20);
    assert!(package.is_package());
    assert!(package.is_immutable());
    assert_eq!(package.id(), ObjectID(4));
    assert!(!coin.is_package());
    assert!(!coin.is_immutable());
    assert_eq!(coin.get_single_owner(), Some(SuiAddress(9)));
    assert_eq!(package.get_single_owner(), None);
}

#[test]
fn package_finds_modules_by_name() {
    let package = MovePackage::new(
        ObjectID(4),
        vec![
            MoveModule::new("first".to_string(), vec![1, 2, 3]),
            MoveModule::new("second".to_string(), vec![4, 5]),
        ],
    );
    assert_eq!(package.get_module(&"second".to_string()), Some(vec![4, 5]));
    assert_eq!(package.get_module(&"first".to_string()), Some(vec![1, 2, 3]));
    assert_eq!(package.get_module(&"third".to_string()), None);
}

#[test]
fn duplicates_equal_what_they_copy() {
    let coin = gas_coin(1, 42, 9, 3);
    assert_eq!(coin.duplicate(), coin);
    let package = Object::new_package(
        MovePackage::new(ObjectID(4), vec![MoveModule::new("m".to_string(), vec![7])]),
        SequenceNumber(1),
        TransactionDigest::genesis(),
    );
    assert_eq!(package.duplicate(), package);
    assert!(coin.data.is_same_data(&coin.duplicate().data));
    assert!(!coin.data.is_same_data(&package.data));
    let richer = gas_coin(1, 43, 9, 3);
    assert!(!coin.data.is_same_data(&richer.data));
}

#[test]
fn summary_formulas() {
    let summary = GasCostSummary::new(300, 200, 1000, 0);
    assert_eq!(summary.gas_used(), 500);
    assert_eq!(summary.net_gas_usage(), -500);
    assert_eq!(summary.sender_rebate(9900), 990);
    assert_eq!(summary.storage_fund_rebate_inflow(9900), 10);
    assert_eq!(summary.sender_rebate(10000), 1000);
    assert_eq!(summary.storage_fund_rebate_inflow(10000), 0);
    assert_eq!(summary.sender_rebate(0), 0);
    assert_eq!(summary.storage_fund_rebate_inflow(0), 1000);
}

#[test]
fn sender_rebate_rounds_to_the_nearest_unit() {
    assert_eq!(GasCostSummary::new(0, 0, 50, 0).sender_rebate(9900), 50);
    assert_eq!(GasCostSummary::new(0, 0, 51, 0).sender_rebate(9900), 50);
    assert_eq!(GasCostSummary::new(0, 0, 149, 0).sender_rebate(9900), 148);
    assert_eq!(GasCostSummary::new(0, 0, 150, 0).sender_rebate(9900), 149);
    assert_eq!(GasCostSummary::new(0, 0, u64::MAX, 0).sender_rebate(10000), u64::MAX);
    assert_eq!(GasCostSummary::new(7, 5, 20, 0).net_gas_usage(), -8);
    assert_eq!(GasCostSummary::new(u64::MAX, u64::MAX, 0, 0).net_gas_usage(), 2 * (u64::MAX as i128));
}

#[test]
fn meter_charges_storage_and_collects_rebates() {
    let mut meter = SuiGasStatus::new_with_budget(1000, 2, 3);
    assert!(!meter.is_unmetered());
    assert_eq!(meter.charge_storage_mutation(100, 40), Ok(200));
    assert_eq!(meter.storage_gas_units(), 200);
    assert_eq!(meter.storage_rebate(), 40);
    assert_eq!(meter.charge_storage_mutation(0, 2), Ok(0));
    assert_eq!(meter.storage_rebate(), 42);
    assert_eq!(meter.charge_computation_gas_for_storage_mutation(50), Ok(()));
    let summary = meter.summary();
    assert_eq!(summary, GasCostSummary::new(150, 200, 42, 0));
}

#[test]
fn meter_refuses_what_the_budget_does_not_cover() {
    let mut meter = SuiGasStatus::new_with_budget(100, 2, 3);
    let before = meter;
    let err = meter.charge_storage_mutation(51, 7).unwrap_err();
    assert_eq!(err.kind(), ExecutionErrorKind::InsufficientGas);
    assert_eq!(meter, before);
    assert_eq!(meter.charge_storage_mutation(50, 7), Ok(100));
    let err = meter.charge_computation_gas_for_storage_mutation(1).unwrap_err();
    assert_eq!(err.kind(), ExecutionErrorKind::InsufficientGas);
    assert_eq!(meter.summary(), GasCostSummary::new(0, 100, 7, 0));
}

#[test]
fn meter_reset_gives_back_the_storage_charge() {
    let mut meter = SuiGasStatus::new_with_budget(1000, 1, 1);
    assert_eq!(meter.charge_computation_gas_for_storage_mutation(100), Ok(()));
    assert_eq!(meter.charge_storage_mutation(300, 9), Ok(300));
    meter.reset_storage_cost_and_rebate();
    assert_eq!(meter.storage_gas_units(), 0);
    assert_eq!(meter.storage_rebate(), 0);
    assert_eq!(meter.summary(), GasCostSummary::new(100, 0, 0, 0));
    assert_eq!(meter.charge_storage_mutation(900, 0), Ok(900));
}

#[test]
fn unmetered_meter_charges_nothing() {
    let mut meter = SuiGasStatus::new_unmetered();
    assert!(meter.is_unmetered());
    assert_eq!(meter.charge_storage_mutation(1_000_000, 5), Ok(0));
    assert_eq!(meter.charge_computation_gas_for_storage_mutation(1_000_000), Ok(()));
    assert_eq!(meter.summary(), GasCostSummary::new(0, 0, 0, 0));
}

#[test]
fn deduct_gas_takes_the_charge_and_adds_the_rebate() {
    let mut coin = gas_coin(1, 1000, 9, 3);
    deduct_gas(&mut coin, 300, 25);
    assert_eq!(Coin::extract_balance_if_coin(&coin), Ok(Some(725)));
    assert_eq!(coin.id(), ObjectID(1));
    assert_eq!(coin.version(), SequenceNumber(3));
    assert_eq!(coin.data.try_as_move().unwrap().contents(), &coin_bytes(1, 725));
}
