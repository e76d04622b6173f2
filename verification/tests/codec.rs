use ambient_indexer::abi::{
    parse_bool, parse_i128, parse_i32, parse_u128, parse_u64, parse_uint256,
};
use ambient_indexer::events::{
    BurnKnockoutEvent, HarvestEvent, IndexerError, InitPoolEvent, Log, MintAmbientEvent,
    MintRangedEvent, PoolRevisionEvent, SwapEvent, WithdrawKnockoutEvent,
};
use ambient_indexer::{Address, U256};

fn slot_with_tail(tail: &[u8]) -> Vec<u8> {
    let mut v = vec![0u8; 32 - tail.len()];
    v.extend_from_slice(tail);
    v
}

#[test]
fn parse_primitives_exact() {
    let slot = slot_with_tail(&[0x01, 0x02]);
    assert_eq!(parse_u64(&slot, 0), 0x0102);
    assert_eq!(parse_u128(&slot, 0), 0x0102);
    assert_eq!(parse_i32(&slot, 0), 0x0102);
    assert_eq!(parse_i128(&slot, 0), 0x0102);
    assert_eq!(parse_uint256(&slot, 0), U256::from_u64(0x0102));
    assert!(parse_bool(&slot, 0));
    let zeros = vec![0u8; 32];
    assert!(!parse_bool(&zeros, 0));
}

#[test]
fn parse_negative_two_complement() {
    // -1 in the last four bytes
    let slot = slot_with_tail(&[0xff, 0xff, 0xff, 0xff]);
    assert_eq!(parse_i32(&slot, 0), -1);
    let neg = vec![0xffu8; 32];
    assert_eq!(parse_i128(&neg, 0), -1);
    assert_eq!(parse_i32(&neg, 0), -1);
}

#[test]
fn address_hex_round() {
    let a = Address::from_hex("0x0412C7c846bb6b7DC462CF6B453f76D8440b2609").unwrap();
    assert_ne!(a, Address::default());
    assert!(Address::from_hex("0x123").is_none());
    assert!(Address::from_hex("0xZ412C7c846bb6b7DC462CF6B453f76D8440b2609").is_none());
}

#[test]
fn init_pool_round_trip() {
    let e = InitPoolEvent {
        block_height: U256::from_u64(7),
        base: Address::default(),
        quote: Address::from_hex("0x0412C7c846bb6b7DC462CF6B453f76D8440b2609").unwrap(),
        pool_idx: U256::from_u64(36000),
        creator: Address::from_hex("0x30dA8589BFa1E509A319489E014d384b87815D89").unwrap(),
        liq: 30000,
        base_flow: 30000,
        quote_flow: -42,
    };
    let log = e.encode_log();
    let back = InitPoolEvent::from_log(&log).unwrap();
    assert_eq!(back, e);
}

#[test]
fn swap_round_trip() {
    let e = SwapEvent {
        block_height: U256::from_u64(9),
        index: U256::from_u64(3),
        user: Address::from_hex("0x9676519d99E390A180Ab1445d5d857E3f6869065").unwrap(),
        base: Address::default(),
        quote: Address::from_hex("0x0412C7c846bb6b7DC462CF6B453f76D8440b2609").unwrap(),
        pool_idx: U256::from_u64(36000),
        is_buy: true,
        in_base_qty: false,
        qty: 123456,
        min_output: 7,
        base_flow: -1000000,
        quote_flow: 900000,
    };
    let back = SwapEvent::from_log(&e.encode_log()).unwrap();
    assert_eq!(back, e);
}

#[test]
fn mint_ranged_round_trip() {
    let e = MintRangedEvent {
        block_height: U256::from_u64(2),
        index: U256::from_u64(1),
        user: Address::default(),
        base: Address::default(),
        quote: Address::from_hex("0x0412C7c846bb6b7DC462CF6B453f76D8440b2609").unwrap(),
        pool_idx: U256::from_u64(36001),
        liq: 555,
        bid_tick: -250,
        ask_tick: 500,
        base_flow: 30000,
        quote_flow: 30000,
    };
    assert_eq!(MintRangedEvent::from_log(&e.encode_log()).unwrap(), e);
}

#[test]
fn mint_ambient_round_trip() {
    let e = MintAmbientEvent {
        block_height: U256::from_u64(4),
        index: U256::from_u64(0),
        user: Address::default(),
        base: Address::default(),
        quote: Address::from_hex("0x0412C7c846bb6b7DC462CF6B453f76D8440b2609").unwrap(),
        pool_idx: U256::from_u64(36000),
        liq: 1,
        base_flow: 2,
        quote_flow: 3,
    };
    assert_eq!(MintAmbientEvent::from_log(&e.encode_log()).unwrap(), e);
}

#[test]
fn knockout_round_trips() {
    let e = BurnKnockoutEvent {
        block_height: U256::from_u64(12),
        user: Address::default(),
        base: Address::default(),
        quote: Address::from_hex("0x0412C7c846bb6b7DC462CF6B453f76D8440b2609").unwrap(),
        pool_idx: U256::from_u64(36000),
        base_flow: 250000,
        quote_flow: 250000,
        is_bid: true,
        lower_tick: -250,
        upper_tick: 500,
    };
    assert_eq!(BurnKnockoutEvent::from_log(&e.encode_log()).unwrap(), e);
    let w = WithdrawKnockoutEvent {
        block_height: U256::from_u64(13),
        user: Address::default(),
        base: Address::default(),
        quote: Address::from_hex("0x0412C7c846bb6b7DC462CF6B453f76D8440b2609").unwrap(),
        pool_idx: U256::from_u64(36000),
        base_flow: 1,
        quote_flow: 2,
        lower_tick: -3,
        upper_tick: 4,
        fee_rewards: 99,
    };
    assert_eq!(WithdrawKnockoutEvent::from_log(&w.encode_log()).unwrap(), w);
}

#[test]
fn harvest_and_revision_round_trip() {
    let h = HarvestEvent {
        block_height: U256::from_u64(21),
        index: U256::from_u64(2),
        user: Address::default(),
        base: Address::default(),
        quote: Address::from_hex("0x0412C7c846bb6b7DC462CF6B453f76D8440b2609").unwrap(),
        pool_idx: U256::from_u64(36000),
        bid_tick: -5,
        ask_tick: 6,
        base_flow: 7,
        quote_flow: 8,
        rewards: 0,
    };
    assert_eq!(HarvestEvent::from_log(&h.encode_log()).unwrap(), h);
    let r = PoolRevisionEvent {
        block_height: U256::from_u64(22),
        index: U256::from_u64(0),
        base: Address::default(),
        quote: Address::from_hex("0x0412C7c846bb6b7DC462CF6B453f76D8440b2609").unwrap(),
        pool_idx: U256::from_u64(36000),
        fee_rate: 30,
        tick_size: 10,
        jit_thresh: 1,
        knockout: 2,
    };
    assert_eq!(PoolRevisionEvent::from_log(&r.encode_log()).unwrap(), r);
}

#[test]
fn malformed_logs_are_refused() {
    let good = MintAmbientEvent {
        block_height: U256::from_u64(4),
        ..Default::default()
    }
    .encode_log();

    // too few topics
    let mut l = good.clone();
    l.topics.truncate(2);
    assert!(matches!(
        MintAmbientEvent::from_log(&l),
        Err(IndexerError::InvalidEventLog(_))
    ));

    // missing block number
    let mut l = good.clone();
    l.block_number = None;
    assert!(matches!(
        MintAmbientEvent::from_log(&l),
        Err(IndexerError::InvalidEventLog(_))
    ));

    // truncated payload
    let mut l = good.clone();
    l.data.truncate(64);
    assert!(matches!(
        MintAmbientEvent::from_log(&l),
        Err(IndexerError::InvalidEventLog(_))
    ));

    // a short topic
    let mut l = good;
    l.topics[1] = vec![0u8; 8];
    assert!(matches!(
        MintAmbientEvent::from_log(&l),
        Err(IndexerError::InvalidEventLog(_))
    ));
}

#[test]
fn from_logs_batches() {
    let a = MintAmbientEvent {
        block_height: U256::from_u64(1),
        liq: 5,
        ..Default::default()
    };
    let b = MintAmbientEvent {
        block_height: U256::from_u64(2),
        liq: 6,
        ..Default::default()
    };
    let logs: Vec<Log> = vec![a.encode_log(), b.encode_log()];
    let out = MintAmbientEvent::from_logs(&logs).unwrap();
    assert_eq!(out, vec![a, b]);
    let mut bad = vec![a.encode_log()];
    bad[0].topics.truncate(1);
    assert!(MintAmbientEvent::from_logs(&bad).is_err());
}
