use wasm_rpc::blockchain::{read_u32_cell, read_u64_cell, BlockChain};
use wasm_rpc::bytes::FromBytes;
use wasm_rpc::contract_registry::{address_of, ContractRegistry, ACCOUNT_BYTE_COUNT};
use wasm_rpc::fake_blockchain::{FakeBlockChain, ALICE, BOB, SENDER};
use wasm_rpc::value::Value;

fn registry() -> ContractRegistry<FakeBlockChain> {
    ContractRegistry {
        blockchain: FakeBlockChain::default(),
    }
}

#[test]
fn address_is_account_then_name() {
    let account = [0xabu8; 20];
    let mut expected = account.to_vec();
    expected.extend_from_slice(&[0x74, 0x6f, 0x6b, 0x65, 0x6e]);
    assert_eq!(address_of(&account, "token"), expected);
    assert_eq!(address_of(&account, "token").len(), ACCOUNT_BYTE_COUNT + 5);
    assert_eq!(address_of(&ALICE, ""), ALICE.to_vec());
    assert_eq!(address_of(&[], "a"), vec![b'a']);
}

#[test]
fn address_holds_the_utf8_bytes_of_the_name() {
    let address = address_of(&BOB, "münze");
    assert_eq!(address[..20], BOB);
    assert_eq!(&address[20..], "münze".as_bytes());
}

#[test]
fn deploy_stores_the_code_at_the_address() {
    let mut registry = registry();
    let result = registry.deploy(String::from("token"), vec![1, 2, 3]);
    assert!(matches!(result, Ok(Value::Null)));
    assert_eq!(
        registry.blockchain.read(address_of(&SENDER, "token")),
        vec![1, 2, 3]
    );
    assert_eq!(registry.blockchain.sender(), SENDER.to_vec());
}

#[test]
fn call_runs_the_deployed_code() {
    let mut registry = registry();
    registry
        .deploy(String::from("token"), vec![0, 97, 115, 109])
        .unwrap();
    let ran = registry.call(
        SENDER.to_vec(),
        String::from("token"),
        String::from("balance_of"),
        0,
    );
    assert_eq!(ran, vec![0, 97, 115, 109]);
}

#[test]
fn second_deploy_overwrites_the_first() {
    let mut registry = registry();
    registry.deploy(String::from("token"), vec![1, 1, 1, 1]).unwrap();
    registry.deploy(String::from("token"), vec![2, 2]).unwrap();
    let ran = registry.call(
        SENDER.to_vec(),
        String::from("token"),
        String::from("transfer"),
        7,
    );
    assert_eq!(ran, vec![2, 2]);
}

#[test]
fn call_without_code_runs_no_code() {
    let mut registry = registry();
    registry.deploy(String::from("token"), vec![1]).unwrap();
    let other_account = registry.call(
        ALICE.to_vec(),
        String::from("token"),
        String::from("m"),
        0,
    );
    assert_eq!(other_account, Vec::<u8>::new());
    let other_name = registry.call(
        SENDER.to_vec(),
        String::from("tokens"),
        String::from("m"),
        0,
    );
    assert_eq!(other_name, Vec::<u8>::new());
}

#[test]
fn contracts_of_two_accounts_do_not_meet() {
    let mut as_alice = ContractRegistry {
        blockchain: FakeBlockChain::new(ALICE.to_vec()),
    };
    as_alice.deploy(String::from("token"), vec![10]).unwrap();
    as_alice.blockchain.write(address_of(&BOB, "token"), vec![20]);
    let of_alice = as_alice.call(ALICE.to_vec(), String::from("token"), String::from("m"), 0);
    let of_bob = as_alice.call(BOB.to_vec(), String::from("token"), String::from("m"), 0);
    assert_eq!(of_alice, vec![10]);
    assert_eq!(of_bob, vec![20]);
}

#[test]
fn missing_key_reads_zero() {
    let blockchain = FakeBlockChain::default();
    assert_eq!(blockchain.read_u32(vec![1, 2, 3]), 0);
    assert_eq!(blockchain.read_u64(vec![1, 2, 3]), 0);
    assert_eq!(blockchain.read(vec![1, 2, 3]), Vec::<u8>::new());
    assert_eq!(blockchain.read_u64(vec![]), 0);
    assert_eq!(read_u32_cell(None), 0);
    assert_eq!(read_u64_cell(None), 0);
}

#[test]
fn stored_balance_reads_back() {
    let mut blockchain = FakeBlockChain::default();
    blockchain.write_u64(SENDER.to_vec(), 100);
    assert_eq!(blockchain.read_u64(SENDER.to_vec()), 100);
    assert_eq!(blockchain.read_u64(ALICE.to_vec()), 0);
    blockchain.write_u64(SENDER.to_vec(), u64::MAX);
    assert_eq!(blockchain.read_u64(SENDER.to_vec()), u64::MAX);
}

#[test]
fn stored_u64_cell_is_what_from_u64_makes() {
    let mut blockchain = FakeBlockChain::default();
    blockchain.write_u64(vec![7], 0x0102_0304_0506_0708);
    assert_eq!(blockchain.read(vec![7]), vec![1, 2, 3, 4, 5, 6, 7, 8]);
    blockchain.write_u64(vec![8], 1);
    assert_eq!(blockchain.read(vec![8]), <dyn FromBytes>::from_u64(1));
    assert_eq!(blockchain.read(vec![8]), vec![0, 0, 0, 0, 0, 0, 0, 1]);
}

#[test]
fn write_u64_touches_one_cell_only() {
    let mut blockchain = FakeBlockChain::default();
    blockchain.write(vec![1], vec![10]);
    blockchain.write_u64(vec![2], 5);
    assert_eq!(blockchain.read(vec![1]), vec![10]);
    assert_eq!(blockchain.read(vec![3]), Vec::<u8>::new());
    assert_eq!(blockchain.sender(), SENDER.to_vec());
}

#[test]
fn registry_call_leaves_storage_alone() {
    let mut registry = registry();
    registry.deploy(String::from("token"), vec![1, 2]).unwrap();
    registry.blockchain.write_u64(vec![9], 77);
    let ran = registry.call(SENDER.to_vec(), String::from("token"), String::from("m"), 4);
    assert_eq!(ran, vec![1, 2]);
    assert_eq!(registry.blockchain.read(address_of(&SENDER, "token")), vec![1, 2]);
    assert_eq!(registry.blockchain.read_u64(vec![9]), 77);
    assert_eq!(registry.blockchain.sender(), SENDER.to_vec());
    assert!(registry.blockchain.fault_message().is_none());
    let again = registry.call(SENDER.to_vec(), String::from("token"), String::from("m"), 4);
    assert_eq!(again, vec![1, 2]);
}

#[test]
fn cells_read_as_numbers() {
    let mut blockchain = FakeBlockChain::default();
    blockchain.write(vec![1], vec![0, 0, 1, 0]);
    assert_eq!(blockchain.read_u32(vec![1]), 256);
    blockchain.write(vec![2], vec![0, 0, 0, 0, 0, 0, 0, 1]);
    assert_eq!(blockchain.read_u64(vec![2]), 1);
    blockchain.write(vec![3], vec![1, 2, 3]);
    assert_eq!(blockchain.read_u64(vec![3]), 0);
    assert_eq!(read_u32_cell(Some(vec![0, 0, 0, 9])), 9);
    assert_eq!(read_u64_cell(Some(vec![0, 0, 0, 0, 0, 0, 0, 9])), 9);
    assert_eq!(read_u64_cell(Some(<dyn FromBytes>::from_u64(100))), 100);
    assert_eq!(read_u64_cell(Some(vec![9])), 0);
}

#[test]
fn last_write_to_a_key_wins() {
    let mut blockchain = FakeBlockChain::default();
    blockchain.write(vec![1], vec![10]);
    blockchain.write(vec![2], vec![20]);
    blockchain.write(vec![1], vec![11, 12]);
    assert_eq!(blockchain.read(vec![1]), vec![11, 12]);
    assert_eq!(blockchain.read(vec![2]), vec![20]);
    blockchain.write(vec![1], vec![]);
    assert_eq!(blockchain.read(vec![1]), Vec::<u8>::new());
}

#[test]
fn throw_signals_the_fault() {
    let mut blockchain = FakeBlockChain::default();
    assert!(blockchain.fault_message().is_none());
    blockchain.write(vec![1], vec![10]);
    blockchain.throw("out of gas");
    assert_eq!(blockchain.fault_message().map(|m| m.as_str()), Some("out of gas"));
    assert_eq!(blockchain.read(vec![1]), vec![10]);
    blockchain.throw("again");
    assert_eq!(blockchain.fault_message().map(|m| m.as_str()), Some("again"));
}

#[test]
fn fake_call_hands_the_code_back() {
    let mut blockchain = FakeBlockChain::new(BOB.to_vec());
    assert_eq!(blockchain.sender(), BOB.to_vec());
    let ran = blockchain.call(vec![5, 6], String::from("m"), 3, vec![1]);
    assert_eq!(ran, vec![5, 6]);
    assert_eq!(blockchain.read(vec![1]), Vec::<u8>::new());
}

#[test]
fn well_known_accounts() {
    assert_eq!(SENDER[19], 1);
    assert_eq!(ALICE[19], 2);
    assert_eq!(BOB[19], 3);
    assert!(SENDER[..19].iter().all(|b| *b == 0));
    assert_eq!(SENDER.len(), ACCOUNT_BYTE_COUNT);
}
