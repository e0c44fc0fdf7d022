use borsh::BorshSerialize;
use solana_orderbook_monitor::client::{initialize, record_event, AccountMeta};
use solana_orderbook_monitor::{
    process_instruction, AccountInfo, OrderbookError, OrderbookEventType, OrderbookInstruction,
    OrderbookMonitor, Pubkey,
};

fn key(seed: u8) -> Pubkey {
    Pubkey::new_from_array([seed; 32])
}

fn record(name: &str, price: u64, size: u64, is_bid: bool, event_type: OrderbookEventType) -> OrderbookInstruction {
    OrderbookInstruction::RecordEvent {
        market_name: name.to_string(),
        price,
        size,
        is_bid,
        event_type,
    }
}

#[test]
fn initialize_request_bytes() {
    assert_eq!(OrderbookInstruction::Initialize.encode(), Ok(vec![0u8]));
    assert_eq!(OrderbookInstruction::Initialize.to_bytes(), vec![0u8]);
    assert!(OrderbookInstruction::Initialize.fits());
}

#[test]
fn record_event_request_bytes() {
    let command = record("SOL/USDC", 2_500_000_000, 10_000_000, true, OrderbookEventType::OrderPlaced);
    let mut expected = vec![1u8, 8, 0, 0, 0];
    expected.extend_from_slice(b"SOL/USDC");
    expected.extend_from_slice(&2_500_000_000u64.to_le_bytes());
    expected.extend_from_slice(&10_000_000u64.to_le_bytes());
    expected.extend_from_slice(&[1, 0]);
    assert_eq!(command.encode(), Ok(expected));
}

#[test]
fn request_bytes_agree_with_borsh() {
    let cases = [
        ("SOL/USDC", 2_500_000_000u64, 10_000_000u64, true, OrderbookEventType::OrderPlaced),
        ("", 0, u64::MAX, false, OrderbookEventType::OrderFilled),
        ("ŻÓŁĆ/€", u64::MAX, 1, true, OrderbookEventType::OrderCancelled),
    ];
    for (name, price, size, is_bid, kind) in cases {
        let ours = record(name, price, size, is_bid, kind).encode().unwrap();
        let theirs = (1u8, name.to_string(), price, size, is_bid, kind.tag()).try_to_vec().unwrap();
        assert_eq!(ours, theirs);
    }
    assert_eq!(OrderbookInstruction::Initialize.encode().unwrap(), 0u8.try_to_vec().unwrap());
}

#[test]
fn requests_are_read_back() {
    let commands = [
        OrderbookInstruction::Initialize,
        record("SOL/USDC", 2_500_000_000, 10_000_000, true, OrderbookEventType::OrderPlaced),
        record("", 0, u64::MAX, false, OrderbookEventType::OrderFilled),
        record("ŻÓŁĆ/€", u64::MAX, 1, true, OrderbookEventType::OrderCancelled),
    ];
    for command in commands {
        let bytes = command.encode().unwrap();
        assert_eq!(OrderbookInstruction::decode(&bytes), Ok(command));
    }
}

#[test]
fn malformed_requests_are_refused() {
    let good = record("SOL", 1, 2, true, OrderbookEventType::OrderPlaced).encode().unwrap();
    assert_eq!(good.len(), 1 + 4 + 3 + 18);
    assert!(OrderbookInstruction::decode(&good).is_ok());
    let refused = Err(OrderbookError::InvalidInstruction);

    assert_eq!(OrderbookInstruction::decode(&[]), refused);
    assert_eq!(OrderbookInstruction::decode(&[2]), refused);
    assert_eq!(OrderbookInstruction::decode(&[255]), refused);
    assert_eq!(OrderbookInstruction::decode(&[0, 0]), refused);
    assert_eq!(OrderbookInstruction::decode(&[1]), refused);
    for cut in 1..good.len() {
        assert_eq!(OrderbookInstruction::decode(&good[..cut]), refused);
    }
    let mut longer = good.clone();
    longer.push(0);
    assert_eq!(OrderbookInstruction::decode(&longer), refused);

    let mut bad_side = good.clone();
    bad_side[24] = 2;
    assert_eq!(OrderbookInstruction::decode(&bad_side), refused);
    let mut bad_kind = good.clone();
    bad_kind[25] = 3;
    assert_eq!(OrderbookInstruction::decode(&bad_kind), refused);
    let mut bad_text = good.clone();
    bad_text[5] = 0xFF;
    assert_eq!(OrderbookInstruction::decode(&bad_text), refused);
    let mut bad_len = good.clone();
    bad_len[1] = 4;
    assert_eq!(OrderbookInstruction::decode(&bad_len), refused);
}

#[test]
fn instructions_compare_by_value() {
    let a = record("SOL/USDC", 1, 2, true, OrderbookEventType::OrderPlaced);
    assert_eq!(a, record("SOL/USDC", 1, 2, true, OrderbookEventType::OrderPlaced));
    assert_ne!(a, record("SOL/USDT", 1, 2, true, OrderbookEventType::OrderPlaced));
    assert_ne!(a, record("SOL/USDC", 9, 2, true, OrderbookEventType::OrderPlaced));
    assert_ne!(a, record("SOL/USDC", 1, 9, true, OrderbookEventType::OrderPlaced));
    assert_ne!(a, record("SOL/USDC", 1, 2, false, OrderbookEventType::OrderPlaced));
    assert_ne!(a, record("SOL/USDC", 1, 2, true, OrderbookEventType::OrderFilled));
    assert_ne!(a, OrderbookInstruction::Initialize);
    assert_eq!(OrderbookInstruction::Initialize, OrderbookInstruction::Initialize);
}

#[test]
fn client_initialize_request() {
    let request = initialize(&key(1), &key(2));
    assert_eq!(request.program_id, key(1));
    assert_eq!(request.accounts.len(), 1);
    assert_eq!(request.accounts[0].pubkey, key(2));
    assert!(request.accounts[0].is_signer);
    assert!(request.accounts[0].is_writable);
    assert_eq!(request.data, vec![0u8]);
    assert_eq!(OrderbookInstruction::decode(&request.data), Ok(OrderbookInstruction::Initialize));
}

#[test]
fn client_record_event_request() {
    let request = record_event(
        &key(1),
        &key(2),
        &key(3),
        "SOL/USDC".to_string(),
        2500_000_000,
        10_000_000,
        true,
        OrderbookEventType::OrderPlaced,
    );
    assert_eq!(request.program_id, key(1));
    assert_eq!(request.accounts.len(), 2);
    assert_eq!(request.accounts[0].pubkey, key(2));
    assert!(request.accounts[0].is_signer);
    assert!(request.accounts[0].is_writable);
    assert_eq!(request.accounts[1].pubkey, key(3));
    assert!(!request.accounts[1].is_signer);
    assert!(!request.accounts[1].is_writable);
    assert_eq!(
        OrderbookInstruction::decode(&request.data),
        Ok(record("SOL/USDC", 2500_000_000, 10_000_000, true, OrderbookEventType::OrderPlaced))
    );
}

#[test]
fn client_requests_drive_the_program() {
    let program_id = key(1);
    let mut accounts = vec![
        AccountInfo::new(key(2), true, true, 0, vec![0; 200], program_id, false, 0),
        AccountInfo::new(key(3), false, false, 0, vec![], key(4), false, 0),
    ];
    let init = initialize(&program_id, &key(2));
    assert_eq!(process_instruction(&program_id, &mut accounts, &init.data, 10), Ok(()));
    let filled = record_event(
        &program_id,
        &key(2),
        &key(3),
        "SOL/USDC".to_string(),
        2500_000_000,
        5_000_000,
        true,
        OrderbookEventType::OrderFilled,
    );
    assert_eq!(process_instruction(&program_id, &mut accounts, &filled.data, 11), Ok(()));
    let monitor = OrderbookMonitor::decode(&accounts[0].data).unwrap();
    assert_eq!(monitor.authority, key(2));
    assert_eq!(monitor.event_count, 1);
    assert_eq!(monitor.events[0].size, 5_000_000);
    assert_eq!(monitor.events[0].event_type, OrderbookEventType::OrderFilled);
    assert_eq!(monitor.events[0].timestamp, 11);
}

#[test]
fn account_meta_constructors() {
    let writable = AccountMeta::new(key(5), false);
    assert_eq!(writable.pubkey, key(5));
    assert!(!writable.is_signer);
    assert!(writable.is_writable);
    let readonly = AccountMeta::new_readonly(key(6), true);
    assert_eq!(readonly.pubkey, key(6));
    assert!(readonly.is_signer);
    assert!(!readonly.is_writable);
}

#[test]
fn pubkeys_compare_by_bytes() {
    let mut bytes = [3u8; 32];
    assert_eq!(Pubkey::new_from_array(bytes), key(3));
    assert_eq!(key(3).to_bytes(), bytes);
    bytes[31] = 4;
    assert_ne!(Pubkey::new_from_array(bytes), key(3));
    bytes[31] = 3;
    bytes[0] = 4;
    assert_ne!(Pubkey::new_from_array(bytes), key(3));
}

#[test]
fn error_codes_and_messages() {
    assert_eq!(OrderbookError::InvalidInstruction.code(), 0);
    assert_eq!(OrderbookError::InvalidOwner.code(), 1);
    assert_eq!(OrderbookError::AlreadyInitialized.code(), 2);
    assert_eq!(OrderbookError::NotEnoughAccountKeys.code(), 3);
    assert_eq!(OrderbookError::DeserializationFailure.code(), 4);
    assert_eq!(OrderbookError::CapacityExceeded.code(), 5);
    assert_eq!(OrderbookError::InvalidInstruction.message(), "Invalid instruction");
    assert_eq!(OrderbookError::InvalidOwner.message(), "Invalid account owner");
    assert_eq!(OrderbookError::AlreadyInitialized.message(), "Account already initialized");
    assert_eq!(OrderbookError::NotEnoughAccountKeys.message(), "Not enough account keys");
    assert_eq!(OrderbookError::DeserializationFailure.message(), "Account does not hold a ledger");
    assert_eq!(OrderbookError::CapacityExceeded.message(), "Account capacity exceeded");
}
