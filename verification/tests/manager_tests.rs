use receipt_manager::actions::{Action, GasWeight};
use receipt_manager::crypto::PublicKey;
use receipt_manager::errors::HostError;
use receipt_manager::ids::{CountingDataIdSource, DataId};
use receipt_manager::manager::{GasDistribution, ReceiptManager};

fn ed25519_key_bytes() -> Vec<u8> {
    let mut bytes = vec![0u8; 33];
    bytes[0] = 0;
    bytes[1] = 7;
    bytes
}

#[test]
fn create_receipt_with_empty_dependency_list() {
    let mut manager = ReceiptManager::new();
    let mut ids = CountingDataIdSource::new(1);
    let first = manager
        .create_receipt(&mut ids, Vec::new(), String::from("b.test"))
        .unwrap();
    assert_eq!(first, 0);
    manager.append_action_transfer(first, 500).unwrap();

    let second = manager
        .create_receipt(&mut ids, Vec::new(), String::from("c.test"))
        .unwrap();
    assert_eq!(second, 1);

    // The new receipt waits on nothing.
    let new_entry = &manager.action_receipts.0[1];
    assert_eq!(new_entry.0, "c.test");
    assert!(new_entry.1.input_data_ids.is_empty());
    assert!(new_entry.1.output_data_receivers.is_empty());
    assert!(new_entry.1.actions.is_empty());

    // No other receipt was mutated.
    let old_entry = &manager.action_receipts.0[0];
    assert_eq!(old_entry.0, "b.test");
    assert!(old_entry.1.input_data_ids.is_empty());
    assert!(old_entry.1.output_data_receivers.is_empty());
    assert_eq!(old_entry.1.actions, vec![Action::Transfer { deposit: 500 }]);
}

#[test]
fn create_receipt_out_of_range_index_changes_nothing() {
    let mut manager = ReceiptManager::new();
    let mut ids = CountingDataIdSource::new(1);
    manager
        .create_receipt(&mut ids, Vec::new(), String::from("b.test"))
        .unwrap();
    manager.append_action_transfer(0, 7).unwrap();

    // The first index is valid, the second is not: the call must fail with
    // the offending index and leave everything as it was, including the
    // valid dependency named before the bad one.
    let result = manager.create_receipt(&mut ids, vec![0, 5], String::from("c.test"));
    assert_eq!(
        result,
        Err(HostError::InvalidReceiptIndex { receipt_index: 5 })
    );
    assert_eq!(manager.action_receipts.0.len(), 1);
    let entry = &manager.action_receipts.0[0];
    assert_eq!(entry.0, "b.test");
    assert!(entry.1.output_data_receivers.is_empty());
    assert!(entry.1.input_data_ids.is_empty());
    assert_eq!(entry.1.actions, vec![Action::Transfer { deposit: 7 }]);
    // The identifier source was never consulted.
    assert_eq!(ids.next_value, 1);
}

#[test]
fn take_receipts_returns_all_records_in_creation_order() {
    let mut manager = ReceiptManager::new();
    let mut ids = CountingDataIdSource::new(1);
    for receiver in ["first.test", "second.test", "third.test"] {
        let index = manager
            .create_receipt(&mut ids, Vec::new(), String::from(receiver))
            .unwrap();
        manager
            .append_action_transfer(index, 100 + index as u128)
            .unwrap();
    }

    let signer_key = PublicKey::from_bytes(ed25519_key_bytes()).unwrap();
    let records = manager.action_receipts.take_receipts(
        &String::from("pred.test"),
        &String::from("signer.test"),
        &signer_key,
        42,
    );

    assert_eq!(records.len(), 3);
    assert!(manager.action_receipts.0.is_empty());
    let receivers = ["first.test", "second.test", "third.test"];
    for (i, record) in records.iter().enumerate() {
        assert_eq!(record.predecessor_id, "pred.test");
        assert_eq!(record.signer_id, "signer.test");
        assert_eq!(record.signer_public_key, signer_key);
        assert_eq!(record.gas_price, 42);
        assert_eq!(record.receipt_id, DataId::unassigned());
        assert_eq!(record.receiver_id, receivers[i]);
        assert!(record.input_data_ids.is_empty());
        assert!(record.output_data_receivers.is_empty());
        assert_eq!(
            record.actions,
            vec![Action::Transfer { deposit: 100 + i as u128 }]
        );
    }
}

#[test]
fn dependent_receipts_share_one_minted_identifier() {
    let mut manager = ReceiptManager::new();
    let mut ids = CountingDataIdSource::new(1);

    let first = manager
        .create_receipt(&mut ids, Vec::new(), String::from("b.test"))
        .unwrap();
    assert_eq!(first, 0);
    let position = manager.append_action(first, Action::Transfer { deposit: 500 });
    assert_eq!(position, 0);

    let second = manager
        .create_receipt(&mut ids, vec![first], String::from("c.test"))
        .unwrap();
    assert_eq!(second, 1);

    // One identifier was minted and links the two receipts.
    let d1 = DataId { value: 1 };
    assert_eq!(manager.action_receipts.0[1].1.input_data_ids, vec![d1]);
    let receivers = &manager.action_receipts.0[0].1.output_data_receivers;
    assert_eq!(receivers.len(), 1);
    assert_eq!(receivers[0].data_id, d1);
    assert_eq!(receivers[0].receiver_id, "c.test");

    let signer_key = PublicKey::from_bytes(ed25519_key_bytes()).unwrap();
    let records = manager.action_receipts.take_receipts(
        &String::from("a.test"),
        &String::from("a.test"),
        &signer_key,
        3,
    );

    assert_eq!(records.len(), 2);
    assert_eq!(records[0].receiver_id, "b.test");
    assert_eq!(records[0].actions, vec![Action::Transfer { deposit: 500 }]);
    assert_eq!(records[0].output_data_receivers.len(), 1);
    assert_eq!(records[0].output_data_receivers[0].data_id, d1);
    assert_eq!(records[0].output_data_receivers[0].receiver_id, "c.test");
    assert!(records[0].input_data_ids.is_empty());
    assert_eq!(records[1].receiver_id, "c.test");
    assert!(records[1].actions.is_empty());
    assert!(records[1].output_data_receivers.is_empty());
    assert_eq!(records[1].input_data_ids, vec![d1]);
}

fn function_call_gas(manager: &ReceiptManager, receipt_index: usize, action_index: usize) -> u64 {
    match &manager.action_receipts.0[receipt_index].1.actions[action_index] {
        Action::FunctionCall { gas, .. } => *gas,
        other => panic!("expected a function call, found {:?}", other),
    }
}

#[test]
fn distribute_unused_gas_splits_by_weight_and_gives_remainder_to_last() {
    let mut manager = ReceiptManager::new();
    let mut ids = CountingDataIdSource::new(1);
    let index = manager
        .create_receipt(&mut ids, Vec::new(), String::from("b.test"))
        .unwrap();
    manager
        .append_action_function_call_weight(index, b"one".to_vec(), Vec::new(), 0, 10, GasWeight(1))
        .unwrap();
    manager
        .append_action_function_call_weight(index, b"two".to_vec(), Vec::new(), 0, 20, GasWeight(2))
        .unwrap();

    let outcome = manager.distribute_unused_gas(100);
    assert_eq!(outcome, GasDistribution::All);

    // Weight sum 3, floor share 33: the first action gains 33; the last
    // recorded action gains its weighted share 66 plus the remainder 1, so
    // the whole 100 is disbursed with no leakage.
    let first_gas = function_call_gas(&manager, 0, 0);
    let second_gas = function_call_gas(&manager, 0, 1);
    assert_eq!(first_gas, 10 + 33);
    assert_eq!(second_gas, 20 + 67);
    assert_eq!((first_gas - 10) + (second_gas - 20), 100);

    // The registry was cleared: a second pass finds no ratios.
    assert_eq!(manager.distribute_unused_gas(50), GasDistribution::NoRatios);
    assert_eq!(function_call_gas(&manager, 0, 0), 43);
    assert_eq!(function_call_gas(&manager, 0, 1), 87);
}

#[test]
fn distribute_unused_gas_without_registry_changes_nothing() {
    let mut manager = ReceiptManager::new();
    let mut ids = CountingDataIdSource::new(1);
    let index = manager
        .create_receipt(&mut ids, Vec::new(), String::from("b.test"))
        .unwrap();
    manager
        .append_action_function_call(index, b"run".to_vec(), vec![1, 2], 5, 77)
        .unwrap();

    let outcome = manager.distribute_unused_gas(1000);
    assert_eq!(outcome, GasDistribution::NoRatios);
    assert_eq!(function_call_gas(&manager, 0, 0), 77);
}

#[test]
fn zero_weight_records_no_gas_request() {
    let mut manager = ReceiptManager::new();
    let mut ids = CountingDataIdSource::new(1);
    let index = manager
        .create_receipt(&mut ids, Vec::new(), String::from("b.test"))
        .unwrap();
    manager
        .append_action_function_call_weight(index, b"run".to_vec(), Vec::new(), 0, 9, GasWeight(0))
        .unwrap();
    assert!(manager.gas_weights.is_empty());
    assert_eq!(manager.distribute_unused_gas(100), GasDistribution::NoRatios);
    assert_eq!(function_call_gas(&manager, 0, 0), 9);
}

#[test]
fn invalid_method_name_leaves_action_list_unchanged() {
    let mut manager = ReceiptManager::new();
    let mut ids = CountingDataIdSource::new(1);
    let index = manager
        .create_receipt(&mut ids, Vec::new(), String::from("b.test"))
        .unwrap();
    manager.append_action_transfer(index, 1).unwrap();
    assert_eq!(manager.action_receipts.0[0].1.actions.len(), 1);

    let bad_name = vec![0xffu8, 0xfe];
    let result =
        manager.append_action_function_call(index, bad_name.clone(), Vec::new(), 0, 10);
    assert_eq!(result, Err(HostError::InvalidMethodName));
    assert_eq!(manager.action_receipts.0[0].1.actions.len(), 1);

    let result = manager.append_action_function_call_weight(
        index,
        bad_name.clone(),
        Vec::new(),
        0,
        10,
        GasWeight(4),
    );
    assert_eq!(result, Err(HostError::InvalidMethodName));
    assert_eq!(manager.action_receipts.0[0].1.actions.len(), 1);
    assert!(manager.gas_weights.is_empty());

    let result = manager.append_action_add_key_with_function_call(
        index,
        ed25519_key_bytes(),
        1,
        None,
        String::from("c.test"),
        vec![b"ok".to_vec(), bad_name],
    );
    assert_eq!(result, Err(HostError::InvalidMethodName));
    assert_eq!(manager.action_receipts.0[0].1.actions.len(), 1);
}

#[test]
fn method_names_are_decoded_text_not_raw_bytes() {
    let mut manager = ReceiptManager::new();
    let mut ids = CountingDataIdSource::new(1);
    let index = manager
        .create_receipt(&mut ids, Vec::new(), String::from("b.test"))
        .unwrap();
    let name = "héllo_wörld";
    manager
        .append_action_function_call(index, name.as_bytes().to_vec(), vec![9], 3, 4)
        .unwrap();
    match &manager.action_receipts.0[0].1.actions[0] {
        Action::FunctionCall { method_name, args, gas, deposit } => {
            assert_eq!(method_name, name);
            assert_eq!(args, &vec![9]);
            assert_eq!(*gas, 4);
            assert_eq!(*deposit, 3);
        }
        other => panic!("expected a function call, found {:?}", other),
    }
}

#[test]
fn public_key_bytes_are_validated() {
    // A recognized encoding: tag 0 followed by 32 bytes.
    assert!(PublicKey::from_bytes(ed25519_key_bytes()).is_ok());
    // A recognized encoding: tag 1 followed by 64 bytes.
    let mut secp = vec![0u8; 65];
    secp[0] = 1;
    assert!(PublicKey::from_bytes(secp).is_ok());
    // Wrong lengths and unknown tags are rejected.
    assert_eq!(
        PublicKey::from_bytes(vec![0u8; 32]),
        Err(HostError::InvalidPublicKey)
    );
    let mut wrong_tag = vec![0u8; 33];
    wrong_tag[0] = 9;
    assert_eq!(
        PublicKey::from_bytes(wrong_tag),
        Err(HostError::InvalidPublicKey)
    );
    let mut short_secp = vec![0u8; 33];
    short_secp[0] = 1;
    assert_eq!(
        PublicKey::from_bytes(short_secp),
        Err(HostError::InvalidPublicKey)
    );

    let mut manager = ReceiptManager::new();
    let mut ids = CountingDataIdSource::new(1);
    let index = manager
        .create_receipt(&mut ids, Vec::new(), String::from("b.test"))
        .unwrap();
    assert_eq!(
        manager.append_action_stake(index, 10, vec![1, 2, 3]),
        Err(HostError::InvalidPublicKey)
    );
    assert_eq!(
        manager.append_action_add_key_with_full_access(index, vec![], 1),
        Err(HostError::InvalidPublicKey)
    );
    assert_eq!(
        manager.append_action_delete_key(index, vec![0u8; 12]),
        Err(HostError::InvalidPublicKey)
    );
    assert!(manager.action_receipts.0[0].1.actions.is_empty());
}

#[test]
fn every_appended_action_round_trips_through_finalization() {
    let mut manager = ReceiptManager::new();
    let mut ids = CountingDataIdSource::new(1);
    let index = manager
        .create_receipt(&mut ids, Vec::new(), String::from("b.test"))
        .unwrap();

    let key = PublicKey::from_bytes(ed25519_key_bytes()).unwrap();
    manager.append_action_create_account(index).unwrap();
    manager
        .append_action_deploy_contract(index, vec![0, 1, 2])
        .unwrap();
    manager
        .append_action_function_call(index, b"act".to_vec(), vec![7], 11, 13)
        .unwrap();
    manager.append_action_transfer(index, 500).unwrap();
    manager
        .append_action_stake(index, 17, ed25519_key_bytes())
        .unwrap();
    manager
        .append_action_add_key_with_full_access(index, ed25519_key_bytes(), 3)
        .unwrap();
    manager
        .append_action_add_key_with_function_call(
            index,
            ed25519_key_bytes(),
            4,
            Some(1000),
            String::from("c.test"),
            vec![b"left".to_vec(), b"right".to_vec()],
        )
        .unwrap();
    manager
        .append_action_delete_key(index, ed25519_key_bytes())
        .unwrap();
    manager
        .append_action_delete_account(index, String::from("d.test"))
        .unwrap();

    let records = manager.action_receipts.take_receipts(
        &String::from("a.test"),
        &String::from("a.test"),
        &key,
        1,
    );
    assert_eq!(records.len(), 1);
    let actions = &records[0].actions;
    assert_eq!(actions.len(), 9);
    assert_eq!(actions[0], Action::CreateAccount);
    assert_eq!(actions[1], Action::DeployContract { code: vec![0, 1, 2] });
    assert_eq!(
        actions[2],
        Action::FunctionCall {
            method_name: String::from("act"),
            args: vec![7],
            gas: 13,
            deposit: 11,
        }
    );
    assert_eq!(actions[3], Action::Transfer { deposit: 500 });
    match &actions[4] {
        Action::Stake { stake, public_key } => {
            assert_eq!(*stake, 17);
            assert_eq!(public_key.as_bytes(), &ed25519_key_bytes());
        }
        other => panic!("expected a stake action, found {:?}", other),
    }
    match &actions[6] {
        Action::AddKey { public_key, access_key } => {
            assert_eq!(public_key.as_bytes(), &ed25519_key_bytes());
            assert_eq!(access_key.nonce, 4);
            match &access_key.permission {
                receipt_manager::actions::AccessKeyPermission::FunctionCall(permission) => {
                    assert_eq!(permission.allowance, Some(1000));
                    assert_eq!(permission.receiver_id, "c.test");
                    assert_eq!(permission.method_names, vec!["left", "right"]);
                }
                other => panic!("expected a function-call permission, found {:?}", other),
            }
        }
        other => panic!("expected an add-key action, found {:?}", other),
    }
}

#[test]
fn get_receipt_receiver_checks_the_handle() {
    let mut manager = ReceiptManager::new();
    let mut ids = CountingDataIdSource::new(1);
    manager
        .create_receipt(&mut ids, Vec::new(), String::from("b.test"))
        .unwrap();
    assert_eq!(manager.get_receipt_receiver(0), Some(&String::from("b.test")));
    assert_eq!(manager.get_receipt_receiver(1), None);
    assert_eq!(manager.get_receipt_receiver(u64::MAX), None);
}

#[test]
fn default_manager_is_empty() {
    let manager = ReceiptManager::default();
    assert!(manager.action_receipts.0.is_empty());
    assert!(manager.gas_weights.is_empty());
}
