use borsh::{BorshDeserialize, BorshSerialize};
use solana_orderbook_monitor::event::{put_event, read_event};
use solana_orderbook_monitor::wire::{get_i64, get_u32, get_u64, put_i64, put_u32, put_u64};
use solana_orderbook_monitor::{
    OrderbookError, OrderbookEvent, OrderbookEventType, OrderbookMonitor, Pubkey,
};

type EventFields = (i64, String, u64, u64, bool, u8);
type MonitorFields = (bool, [u8; 32], u64, Vec<EventFields>);

fn event(timestamp: i64, name: &str, price: u64, size: u64, is_bid: bool, kind: u8) -> OrderbookEvent {
    let event_type = match kind {
        0 => OrderbookEventType::OrderPlaced,
        1 => OrderbookEventType::OrderFilled,
        _ => OrderbookEventType::OrderCancelled,
    };
    OrderbookEvent { timestamp, market_name: name.to_string(), price, size, is_bid, event_type }
}

fn fields_of(monitor: &OrderbookMonitor) -> MonitorFields {
    let events = monitor
        .events
        .iter()
        .map(|e| (e.timestamp, e.market_name.clone(), e.price, e.size, e.is_bid, e.event_type.tag()))
        .collect();
    (monitor.initialized, monitor.authority.to_bytes(), monitor.event_count, events)
}

fn sample_monitors() -> Vec<OrderbookMonitor> {
    let mut key = [0u8; 32];
    for (i, byte) in key.iter_mut().enumerate() {
        *byte = (i * 7 + 3) as u8;
    }
    vec![
        OrderbookMonitor {
            initialized: true,
            authority: Pubkey::new_from_array(key),
            event_count: 0,
            events: vec![],
        },
        OrderbookMonitor {
            initialized: false,
            authority: Pubkey::new_from_array([0; 32]),
            event_count: 0,
            events: vec![],
        },
        OrderbookMonitor {
            initialized: true,
            authority: Pubkey::new_from_array([0xFF; 32]),
            event_count: 3,
            events: vec![
                event(1_700_000_000, "SOL/USDC", 2_500_000_000, 10_000_000, true, 0),
                event(-1, "", u64::MAX, 0, false, 1),
                event(i64::MIN, "ŻÓŁĆ/€ 🚀", 1, u64::MAX - 1, true, 2),
            ],
        },
        OrderbookMonitor {
            initialized: true,
            authority: Pubkey::new_from_array(key),
            event_count: u64::MAX,
            events: vec![event(i64::MAX, "a", 0x0102030405060708, 0x1112131415161718, false, 2)],
        },
    ]
}

#[test]
fn empty_ledger_bytes() {
    let monitor = OrderbookMonitor {
        initialized: true,
        authority: Pubkey::new_from_array([9; 32]),
        event_count: 0,
        events: vec![],
    };
    let bytes = monitor.encode().unwrap();
    assert_eq!(bytes.len(), 45);
    assert_eq!(bytes[0], 1);
    assert_eq!(&bytes[1..33], &[9u8; 32]);
    assert_eq!(&bytes[33..], &[0u8; 12]);
}

#[test]
fn one_event_ledger_bytes() {
    let monitor = OrderbookMonitor {
        initialized: true,
        authority: Pubkey::new_from_array([0; 32]),
        event_count: 0x0102,
        events: vec![event(-2, "AB", 0x0A0B0C, 1, true, 1)],
    };
    let bytes = monitor.encode().unwrap();
    let mut expected = vec![1u8];
    expected.extend_from_slice(&[0u8; 32]);
    expected.extend_from_slice(&[0x02, 0x01, 0, 0, 0, 0, 0, 0]);
    expected.extend_from_slice(&[1, 0, 0, 0]);
    expected.extend_from_slice(&[0xFE, 0xFF, 0xFF, 0xFF, 0xFF, 0xFF, 0xFF, 0xFF]);
    expected.extend_from_slice(&[2, 0, 0, 0, b'A', b'B']);
    expected.extend_from_slice(&[0x0C, 0x0B, 0x0A, 0, 0, 0, 0, 0]);
    expected.extend_from_slice(&[1, 0, 0, 0, 0, 0, 0, 0]);
    expected.extend_from_slice(&[1, 1]);
    assert_eq!(bytes, expected);
    assert_eq!(bytes.len(), 45 + 30 + 2);
}

#[test]
fn integers_are_little_endian() {
    let mut out = vec![0xAAu8];
    put_u32(&mut out, 0x01020304);
    put_u64(&mut out, 0x1122334455667788);
    put_i64(&mut out, -256);
    put_i64(&mut out, i64::MIN);
    put_i64(&mut out, i64::MAX);
    let mut expected = vec![0xAAu8, 4, 3, 2, 1];
    expected.extend_from_slice(&0x1122334455667788u64.to_le_bytes());
    expected.extend_from_slice(&(-256i64).to_le_bytes());
    expected.extend_from_slice(&i64::MIN.to_le_bytes());
    expected.extend_from_slice(&i64::MAX.to_le_bytes());
    assert_eq!(out, expected);
    assert_eq!(get_u32(&out, 1), 0x01020304);
    assert_eq!(get_u64(&out, 5), 0x1122334455667788);
    assert_eq!(get_i64(&out, 13), -256);
    assert_eq!(get_i64(&out, 21), i64::MIN);
    assert_eq!(get_i64(&out, 29), i64::MAX);
    assert_eq!(get_u64(&[0xFF; 8], 0), u64::MAX);
    assert_eq!(get_u32(&[0xFF; 4], 0), u32::MAX);
    assert_eq!(get_i64(&[0xFF; 8], 0), -1);
}

#[test]
fn encode_then_decode_gives_the_ledger_back() {
    for monitor in sample_monitors() {
        let bytes = monitor.encode().unwrap();
        let back = OrderbookMonitor::decode(&bytes).unwrap();
        assert_eq!(fields_of(&back), fields_of(&monitor));
        assert_eq!(back.encode().unwrap(), bytes);
    }
}

#[test]
fn decode_ignores_what_follows_the_ledger() {
    for monitor in sample_monitors() {
        let mut bytes = monitor.encode().unwrap();
        bytes.extend_from_slice(&[0xFF, 0, 1, 2, 3]);
        let back = OrderbookMonitor::decode(&bytes).unwrap();
        assert_eq!(fields_of(&back), fields_of(&monitor));
    }
}

#[test]
fn encode_agrees_with_borsh() {
    for monitor in sample_monitors() {
        let ours = monitor.encode().unwrap();
        let theirs = fields_of(&monitor).try_to_vec().unwrap();
        assert_eq!(ours, theirs);
    }
}

#[test]
fn decode_agrees_with_borsh() {
    for monitor in sample_monitors() {
        let theirs = fields_of(&monitor).try_to_vec().unwrap();
        let back = OrderbookMonitor::decode(&theirs).unwrap();
        assert_eq!(fields_of(&back), fields_of(&monitor));
        let reread = MonitorFields::try_from_slice(&theirs).unwrap();
        assert_eq!(fields_of(&back), reread);
    }
}

#[test]
fn decode_and_borsh_refuse_the_same_prefixes() {
    let monitor = &sample_monitors()[2];
    let bytes = monitor.encode().unwrap();
    for cut in 0..bytes.len() {
        let ours = OrderbookMonitor::decode(&bytes[..cut]);
        let mut rest = &bytes[..cut];
        let theirs = MonitorFields::deserialize(&mut rest);
        assert_eq!(ours.is_ok(), theirs.is_ok(), "cut at {}", cut);
        assert!(ours.is_err(), "cut at {}", cut);
    }
}

#[test]
fn decode_and_borsh_agree_on_damaged_bytes() {
    let monitor = &sample_monitors()[2];
    let bytes = monitor.encode().unwrap();
    for at in 0..bytes.len() {
        for flip in [0x01u8, 0x80, 0xFF] {
            let mut damaged = bytes.clone();
            damaged[at] ^= flip;
            let ours = OrderbookMonitor::decode(&damaged);
            let mut rest = &damaged[..];
            let theirs = MonitorFields::deserialize(&mut rest);
            match (ours, theirs) {
                (Ok(a), Ok(b)) => {
                    if b.3.iter().all(|e| e.5 <= 2) {
                        assert_eq!(fields_of(&a), b, "byte {} flipped by {}", at, flip);
                    } else {
                        panic!("byte {} flipped by {}: unknown kind accepted", at, flip);
                    }
                }
                (Err(e), Ok(b)) => {
                    assert_eq!(e, OrderbookError::DeserializationFailure);
                    assert!(b.3.iter().any(|e| e.5 > 2), "byte {} flipped by {}", at, flip);
                }
                (Err(e), Err(_)) => assert_eq!(e, OrderbookError::DeserializationFailure),
                (Ok(_), Err(_)) => panic!("byte {} flipped by {}: accepted", at, flip),
            }
        }
    }
}

#[test]
fn decode_refuses_malformed_fields() {
    let monitor = OrderbookMonitor {
        initialized: true,
        authority: Pubkey::new_from_array([1; 32]),
        event_count: 1,
        events: vec![event(5, "SOL", 1, 2, true, 0)],
    };
    let bytes = monitor.encode().unwrap();
    assert_eq!(bytes.len(), 45 + 33);
    assert!(OrderbookMonitor::decode(&bytes).is_ok());

    let mut bad_flag = bytes.clone();
    bad_flag[0] = 2;
    assert_eq!(OrderbookMonitor::decode(&bad_flag).err(), Some(OrderbookError::DeserializationFailure));

    let mut bad_side = bytes.clone();
    bad_side[45 + 31] = 2;
    assert_eq!(OrderbookMonitor::decode(&bad_side).err(), Some(OrderbookError::DeserializationFailure));

    let mut bad_kind = bytes.clone();
    bad_kind[45 + 32] = 3;
    assert_eq!(OrderbookMonitor::decode(&bad_kind).err(), Some(OrderbookError::DeserializationFailure));

    let mut bad_text = bytes.clone();
    bad_text[45 + 12] = 0xC0;
    assert_eq!(OrderbookMonitor::decode(&bad_text).err(), Some(OrderbookError::DeserializationFailure));

    let mut long_name = bytes.clone();
    long_name[45 + 8] = 4;
    assert_eq!(OrderbookMonitor::decode(&long_name).err(), Some(OrderbookError::DeserializationFailure));

    let mut more_events = bytes.clone();
    more_events[41] = 2;
    assert_eq!(OrderbookMonitor::decode(&more_events).err(), Some(OrderbookError::DeserializationFailure));

    let mut huge = bytes.clone();
    huge[41..45].copy_from_slice(&[0xFF; 4]);
    assert_eq!(OrderbookMonitor::decode(&huge).err(), Some(OrderbookError::DeserializationFailure));

    assert_eq!(OrderbookMonitor::decode(&[]).err(), Some(OrderbookError::DeserializationFailure));
    assert_eq!(OrderbookMonitor::decode(&bytes[..44]).err(), Some(OrderbookError::DeserializationFailure));
}

#[test]
fn decode_reads_text_as_utf8() {
    let monitor = OrderbookMonitor {
        initialized: true,
        authority: Pubkey::new_from_array([1; 32]),
        event_count: 1,
        events: vec![event(5, "€", 1, 2, true, 0)],
    };
    let bytes = monitor.encode().unwrap();
    assert_eq!(&bytes[45 + 8..45 + 15], &[3, 0, 0, 0, 0xE2, 0x82, 0xAC]);
    let back = OrderbookMonitor::decode(&bytes).unwrap();
    assert_eq!(back.events[0].market_name, "€");
    assert_eq!(back.events[0].market_name.chars().count(), 1);

    let mut cut_short = bytes.clone();
    cut_short[45 + 14] = b'A';
    assert!(OrderbookMonitor::decode(&cut_short).is_err());
}

#[test]
fn decode_zero_region_gives_uninitialized_ledger() {
    let monitor = OrderbookMonitor::decode(&[0u8; 72]).unwrap();
    assert!(!monitor.initialized);
    assert_eq!(monitor.authority, Pubkey::new_from_array([0; 32]));
    assert_eq!(monitor.event_count, 0);
    assert!(monitor.events.is_empty());
}

#[test]
fn events_are_read_where_they_were_put() {
    let first = event(1, "SOL/USDC", 2, 3, true, 0);
    let second = event(-4, "BTC/USDC", 5, 6, false, 2);
    let mut out = vec![0xABu8; 3];
    assert!(first.fits());
    put_event(&mut out, &first);
    let middle = out.len();
    put_event(&mut out, &second);
    assert_eq!(middle, 3 + 38);
    assert_eq!(out.len(), 3 + 38 + 38);

    let (a, next) = read_event(&out, 3).unwrap();
    assert_eq!(next, middle);
    assert_eq!(a.market_name, "SOL/USDC");
    assert_eq!((a.timestamp, a.price, a.size, a.is_bid), (1, 2, 3, true));
    assert_eq!(a.event_type, OrderbookEventType::OrderPlaced);
    let (b, end) = read_event(&out, next).unwrap();
    assert_eq!(end, out.len());
    assert_eq!(b.market_name, "BTC/USDC");
    assert_eq!((b.timestamp, b.price, b.size, b.is_bid), (-4, 5, 6, false));
    assert_eq!(b.event_type, OrderbookEventType::OrderCancelled);
    assert!(read_event(&out, end).is_none());
    assert!(read_event(&out, 4).is_none());
}

#[test]
fn event_type_tags() {
    assert_eq!(OrderbookEventType::OrderPlaced.tag(), 0);
    assert_eq!(OrderbookEventType::OrderFilled.tag(), 1);
    assert_eq!(OrderbookEventType::OrderCancelled.tag(), 2);
    assert_eq!(OrderbookEventType::from_tag(0), Some(OrderbookEventType::OrderPlaced));
    assert_eq!(OrderbookEventType::from_tag(1), Some(OrderbookEventType::OrderFilled));
    assert_eq!(OrderbookEventType::from_tag(2), Some(OrderbookEventType::OrderCancelled));
    assert_eq!(OrderbookEventType::from_tag(3), None);
    assert_eq!(OrderbookEventType::from_tag(255), None);
}

// A small deterministic generator, so that a failure can be repeated.
fn next(state: &mut u64) -> u64 {
    *state ^= *state << 13;
    *state ^= *state >> 7;
    *state ^= *state << 17;
    *state
}

fn random_monitor(state: &mut u64) -> OrderbookMonitor {
    let mut key = [0u8; 32];
    for byte in key.iter_mut() {
        *byte = next(state) as u8;
    }
    let names = ["SOL/USDC", "BTC/USDC", "", "ę", "🚀/USD", "a-rather-long-market-name/with-parts"];
    let count = (next(state) % 6) as usize;
    let mut events = Vec::new();
    for _ in 0..count {
        events.push(event(
            next(state) as i64,
            names[(next(state) % names.len() as u64) as usize],
            next(state),
            next(state),
            next(state) % 2 == 0,
            (next(state) % 3) as u8,
        ));
    }
    OrderbookMonitor {
        initialized: next(state) % 4 != 0,
        authority: Pubkey::new_from_array(key),
        event_count: if next(state) % 2 == 0 { count as u64 } else { next(state) },
        events,
    }
}

#[test]
fn random_ledgers_agree_with_borsh() {
    let mut state = 0x9E3779B97F4A7C15u64;
    for _ in 0..500 {
        let monitor = random_monitor(&mut state);
        let ours = monitor.encode().unwrap();
        assert_eq!(ours, fields_of(&monitor).try_to_vec().unwrap());
        let back = OrderbookMonitor::decode(&ours).unwrap();
        assert_eq!(fields_of(&back), fields_of(&monitor));
    }
}

#[test]
fn random_damage_is_judged_as_borsh_judges_it() {
    let mut state = 0xD1B54A32D192ED03u64;
    for _ in 0..300 {
        let monitor = random_monitor(&mut state);
        let mut bytes = monitor.encode().unwrap();
        bytes.extend_from_slice(&[0u8; 7]);
        for _ in 0..10 {
            let mut damaged = bytes.clone();
            let hits = 1 + next(&mut state) % 3;
            for _ in 0..hits {
                let at = (next(&mut state) % damaged.len() as u64) as usize;
                damaged[at] = next(&mut state) as u8;
            }
            let cut = (next(&mut state) % (damaged.len() as u64 + 1)) as usize;
            if next(&mut state) % 4 == 0 {
                damaged.truncate(cut);
            }
            let ours = OrderbookMonitor::decode(&damaged);
            let mut rest = &damaged[..];
            let theirs = MonitorFields::deserialize(&mut rest);
            match (ours, theirs) {
                (Ok(a), Ok(b)) => assert_eq!(fields_of(&a), b),
                (Err(_), Ok(b)) => assert!(b.3.iter().any(|e| e.5 > 2)),
                (Err(e), Err(_)) => assert_eq!(e, OrderbookError::DeserializationFailure),
                (Ok(_), Err(_)) => panic!("accepted what borsh refuses: {:?}", damaged),
            }
        }
    }
}
