use ambient_indexer::events::{
    BurnAmbientEvent, BurnKnockoutEvent, BurnRangedEvent, InitPoolEvent, MintAmbientEvent,
    MintKnockoutEvent, MintRangedEvent, SwapEvent,
};
use ambient_indexer::tracking::{
    cross_ko_bump, handle_init_pool, handle_update, Pool, TrackedPool,
};
use ambient_indexer::updates::{PoolUpdateEvent, PriceTag};
use ambient_indexer::{Address, U256};

fn quote_token() -> Address {
    Address::from_hex("0x0412C7c846bb6b7DC462CF6B453f76D8440b2609").unwrap()
}

fn template() -> Pool {
    Pool {
        schema: 1,
        fee_rate: 30,
        protocol_take: 0,
        tick_size: 1,
        jit_thresh: 0,
        knockout_bits: 0,
        oracle_flags: 0,
    }
}

// Test bumps are not created unnecessarily
#[test]
fn ambient_noop() {
    let pool = TrackedPool::default();
    let base = Address::default();
    let quote = quote_token();
    let update = MintAmbientEvent {
        block_height: U256::from_u64(1),
        base,
        quote,
        pool_idx: U256::from_u64(36000),
        liq: 30000,
        base_flow: 30000,
        quote_flow: 30000,
        ..Default::default()
    };
    let pool = handle_update(pool, &PoolUpdateEvent::from_mint_ambient(&update)).unwrap();
    if !pool.bumps.is_empty() {
        panic!("Ambient update created tick bump");
    }
}

#[test]
fn ambient_burn() {
    let pool = TrackedPool::default();
    let base = Address::default();
    let quote = quote_token();
    let update = MintAmbientEvent {
        block_height: U256::from_u64(1),
        base,
        quote,
        pool_idx: U256::from_u64(36000),
        liq: 30000,
        base_flow: 30000,
        quote_flow: 30000,
        ..Default::default()
    };
    let pool = handle_update(pool, &PoolUpdateEvent::from_mint_ambient(&update)).unwrap();
    let mint_liq = pool.ambient_liq;
    let update = BurnAmbientEvent {
        block_height: U256::from_u64(1),
        base,
        quote,
        pool_idx: U256::from_u64(36000),
        liq: 30000,
        base_flow: -30000,
        quote_flow: -30000,
        ..Default::default()
    };
    let pool = handle_update(pool, &PoolUpdateEvent::from_burn_ambient(&update)).unwrap();
    let burn_liq = pool.ambient_liq;
    if !burn_liq.is_zero() {
        panic!(
            "Unexpected liquidity after burn: {:?} (mint liq {:?})",
            burn_liq, mint_liq
        );
    }
    if !pool.bumps.is_empty() {
        panic!("Ambient mint and burn created tick bump");
    }
}

// Test ranged liquidity bumps are created correctly
#[test]
fn range_mint() {
    let pool = TrackedPool::default();
    let base = Address::default();
    let quote = quote_token();
    let update = MintRangedEvent {
        block_height: U256::from_u64(1),
        base,
        quote,
        pool_idx: U256::from_u64(36000),
        liq: 30000,
        bid_tick: -250,
        ask_tick: 500,
        base_flow: 30000,
        quote_flow: 30000,
        ..Default::default()
    };
    let pool = handle_update(pool, &PoolUpdateEvent::from_mint_ranged(&update)).unwrap();
    let bid_liq = pool.get_bump(-250).unwrap().liquidity_delta;
    let ask_liq = pool.get_bump(500).unwrap().liquidity_delta;

    if bid_liq <= 0 {
        panic!("Lower liquidity range not positive {}", bid_liq);
    }
    if ask_liq >= 0 {
        panic!("Upper liquidity range not negative {}", ask_liq);
    }

    if bid_liq != -ask_liq {
        panic!("Liquidity range mismatch {} <-> {}", bid_liq, ask_liq);
    }
}

// Test ranged liquidity bumps are destroyed correctly
#[test]
fn range_burn() {
    let pool = TrackedPool::default();
    let user = Address::default();
    let base = Address::default();
    let quote = quote_token();
    let update = MintRangedEvent {
        block_height: U256::from_u64(1),
        user,
        base,
        quote,
        pool_idx: U256::from_u64(36000),
        liq: 30000,
        bid_tick: -250,
        ask_tick: 500,
        base_flow: 30000,
        quote_flow: 30000,
        ..Default::default()
    };
    let pool = handle_update(pool, &PoolUpdateEvent::from_mint_ranged(&update)).unwrap();
    assert!(pool.get_bump(-250).is_some());
    assert!(pool.get_bump(500).is_some());
    let update = BurnRangedEvent {
        block_height: U256::from_u64(2),
        user,
        base,
        quote,
        pool_idx: U256::from_u64(36000),
        liq: 30000,
        bid_tick: -250,
        ask_tick: 500,
        base_flow: -30000,
        quote_flow: -30000,
        ..Default::default()
    };
    let pool = handle_update(pool, &PoolUpdateEvent::from_burn_ranged(&update)).unwrap();
    assert!(pool.get_bump(-250).is_none());
    assert!(pool.get_bump(500).is_none());
}

// Test knockout bid positions affect bumps correctly
#[test]
fn knockout_bid() {
    let pool = TrackedPool::default();
    let base = Address::default();
    let quote = quote_token();
    // This liquidity will put the pool at tick 0 (equal amounts of base + quote) with a concentrated position of [-250, 500]
    let update = MintRangedEvent {
        block_height: U256::from_u64(1),
        base,
        quote,
        pool_idx: U256::from_u64(36000),
        liq: 30000,
        bid_tick: -250,
        ask_tick: 500,
        base_flow: 30000,
        quote_flow: 30000,
        ..Default::default()
    };
    let pool = handle_update(pool, &PoolUpdateEvent::from_mint_ranged(&update)).unwrap();
    let start_bid_liq = pool.get_bump(-250).unwrap().liquidity_delta;
    let start_ask_liq = pool.get_bump(500).unwrap().liquidity_delta;

    let update = MintKnockoutEvent {
        block_height: U256::from_u64(2),
        base,
        quote,
        pool_idx: U256::from_u64(36000),
        lower_tick: -250,
        upper_tick: 500,
        base_flow: 250000,
        quote_flow: 250000,
        is_bid: true,
        ..Default::default()
    };
    let mut pool = handle_update(pool, &PoolUpdateEvent::from_mint_knockout(&update)).unwrap();
    let second_bid_liq = pool.get_bump(-250).unwrap().liquidity_delta;
    let second_ask_liq = pool.get_bump(500).unwrap().liquidity_delta;

    let bid_bump = *pool.get_bump(-250).unwrap();
    cross_ko_bump(&mut pool, &bid_bump, true).unwrap();
    let third_bid_liq = pool.get_bump(-250).unwrap().liquidity_delta;
    let third_ask_liq = pool.get_bump(500).unwrap().liquidity_delta;

    println!(
        "BID: Start {}, Second {}, Third {}",
        start_bid_liq, second_bid_liq, third_bid_liq
    );
    println!(
        "ASK: Start {}, Second {}, Third {}",
        start_ask_liq, second_ask_liq, third_ask_liq
    );

    let bid_bump = pool.get_bump(-250).unwrap();
    let ask_bump = pool.get_bump(500).unwrap();
    if bid_bump.liquidity_delta != start_bid_liq {
        panic!(
            "Mismatched bid liq {} (expected {})",
            bid_bump.liquidity_delta, start_bid_liq
        );
    }
    if bid_bump.knockout_bid_liq != 0 {
        panic!(
            "Mismatched bid ko liq {} (expected {})",
            bid_bump.knockout_bid_liq, 0
        );
    }
    if bid_bump.knockout_bid_width != 0 {
        panic!("Knockout bid width not reset");
    }
    if ask_bump.liquidity_delta != start_ask_liq {
        panic!(
            "Mismatched ask liq {} (expected {})",
            ask_bump.liquidity_delta, start_ask_liq
        );
    }
}

// Test knockout ask positions affect bumps correctly
#[test]
fn knockout_ask() {
    let pool = TrackedPool::default();
    let base = Address::default();
    let quote = quote_token();
    // This liquidity will put the pool at tick 0 (equal amounts of base + quote) with a concentrated position of [-250, 500]
    let update = MintRangedEvent {
        block_height: U256::from_u64(1),
        base,
        quote,
        pool_idx: U256::from_u64(36000),
        liq: 30000,
        bid_tick: -250,
        ask_tick: 500,
        base_flow: 30000,
        quote_flow: 30000,
        ..Default::default()
    };
    let pool = handle_update(pool, &PoolUpdateEvent::from_mint_ranged(&update)).unwrap();
    let start_bid_liq = pool.get_bump(-250).unwrap().liquidity_delta;
    let start_ask_liq = pool.get_bump(500).unwrap().liquidity_delta;

    let update = MintKnockoutEvent {
        block_height: U256::from_u64(2),
        base,
        quote,
        pool_idx: U256::from_u64(36000),
        lower_tick: -250,
        upper_tick: 500,
        base_flow: 250000,
        quote_flow: 250000,
        is_bid: false,
        ..Default::default()
    };
    let mut pool = handle_update(pool, &PoolUpdateEvent::from_mint_knockout(&update)).unwrap();
    let second_bid_liq = pool.get_bump(-250).unwrap().liquidity_delta;
    let second_ask_liq = pool.get_bump(500).unwrap().liquidity_delta;

    let ask_bump = *pool.get_bump(500).unwrap();
    cross_ko_bump(&mut pool, &ask_bump, false).unwrap();
    let third_bid_liq = pool.get_bump(-250).unwrap().liquidity_delta;
    let third_ask_liq = pool.get_bump(500).unwrap().liquidity_delta;
    println!(
        "BID: Start {}, Second {}, Third {}",
        start_bid_liq, second_bid_liq, third_bid_liq
    );
    println!(
        "ASK: Start {}, Second {}, Third {}",
        start_ask_liq, second_ask_liq, third_ask_liq
    );
    let ask_bump = pool.get_bump(500).unwrap();
    let bid_bump = pool.get_bump(-250).unwrap();
    if ask_bump.liquidity_delta != start_ask_liq {
        panic!(
            "Mismatched ask liq {} (expected {})",
            ask_bump.liquidity_delta, start_ask_liq
        );
    }
    if ask_bump.knockout_ask_liq != 0 {
        panic!(
            "Mismatched ask ko liq {} (expected {})",
            ask_bump.knockout_ask_liq, 0
        );
    }
    if ask_bump.knockout_ask_width != 0 {
        panic!("Knockout ask width not reset");
    }
    if bid_bump.liquidity_delta != start_bid_liq {
        panic!(
            "Mismatched bid liq {} (expected {})",
            bid_bump.liquidity_delta, start_bid_liq
        );
    }
}

// Test knockout burns are handled correctly
#[test]
fn knockout_burn() {
    let pool = TrackedPool::default();
    let base = Address::default();
    let quote = quote_token();
    // This liquidity will put the pool at tick 0 (equal amounts of base + quote) with a concentrated position of [-250, 500]
    let update = MintRangedEvent {
        block_height: U256::from_u64(1),
        base,
        quote,
        pool_idx: U256::from_u64(36000),
        liq: 30000,
        bid_tick: -250,
        ask_tick: 500,
        base_flow: 30000,
        quote_flow: 30000,
        ..Default::default()
    };
    let pool = handle_update(pool, &PoolUpdateEvent::from_mint_ranged(&update)).unwrap();
    let start_bid_liq = pool.get_bump(-250).unwrap().liquidity_delta;
    let start_ask_liq = pool.get_bump(500).unwrap().liquidity_delta;

    let update = MintKnockoutEvent {
        block_height: U256::from_u64(2),
        base,
        quote,
        pool_idx: U256::from_u64(36000),
        lower_tick: -250,
        upper_tick: 500,
        base_flow: 250000,
        quote_flow: 250000,
        is_bid: true,
        ..Default::default()
    };
    let pool = handle_update(pool, &PoolUpdateEvent::from_mint_knockout(&update)).unwrap();

    let update = BurnKnockoutEvent {
        block_height: U256::from_u64(2),
        base,
        quote,
        pool_idx: U256::from_u64(36000),
        lower_tick: -250,
        upper_tick: 500,
        base_flow: 250000,
        quote_flow: 250000,
        is_bid: true,
        ..Default::default()
    };
    let pool = handle_update(pool, &PoolUpdateEvent::from_burn_knockout(&update)).unwrap();

    let bid_bump = pool.get_bump(-250).unwrap();
    let ask_bump = pool.get_bump(500).unwrap();

    if bid_bump.liquidity_delta != start_bid_liq {
        panic!(
            "Mismatched bid liq {} (expected {})",
            bid_bump.liquidity_delta, start_bid_liq
        );
    }
    if bid_bump.knockout_bid_liq != 0 {
        panic!(
            "Mismatched bid ko liq {} (expected {})",
            bid_bump.knockout_bid_liq, 0
        );
    }
    if bid_bump.knockout_bid_width != 0 {
        panic!("Knockout bid width not reset");
    }
    if ask_bump.liquidity_delta != start_ask_liq {
        panic!(
            "Mismatched ask liq {} (expected {})",
            ask_bump.liquidity_delta, start_ask_liq
        );
    }
}

// Pool creation produces the documented starting state.
#[test]
fn init_pool_state() {
    let base = Address::default();
    let quote = quote_token();
    let init = InitPoolEvent {
        block_height: U256::from_u64(1),
        base,
        quote,
        pool_idx: U256::from_u64(36000),
        creator: Address::default(),
        liq: 30000,
        base_flow: 30000,
        quote_flow: 30000,
    };
    let pool = handle_init_pool(&template(), &PoolUpdateEvent::from_init_pool(&init));
    assert_eq!(pool.base_tvl, U256::from_u64(30000));
    assert_eq!(pool.quote_tvl, U256::from_u64(30000));
    assert_eq!(pool.ambient_liq, U256::from_u64(30000));
    assert_eq!(pool.fee_rate_millionths, 30_000_000);
    assert!(pool.bumps.is_empty());
    assert_eq!(
        pool.last_price_swap,
        PriceTag::RootOfReserves {
            base: 30000,
            quote: 30000
        }
    );
    assert_eq!(pool.last_price_liq, pool.last_price_swap);
    assert_eq!(pool.last_price_indic, pool.last_price_swap);
    // the served value of that price tag is the square root of the ratio
    let served = (30000.0f64 / 30000.0f64).sqrt();
    assert_eq!(served, 1.0);
}

// A swap accumulates volume on both sides and fees on the unfixed side.
#[test]
fn swap_volume_and_fees() {
    let base = Address::default();
    let quote = quote_token();
    let init = InitPoolEvent {
        block_height: U256::from_u64(1),
        base,
        quote,
        pool_idx: U256::from_u64(36000),
        creator: Address::default(),
        liq: 30000,
        base_flow: 30000,
        quote_flow: 30000,
    };
    let pool = handle_init_pool(&template(), &PoolUpdateEvent::from_init_pool(&init));
    // stock the pool so that it can pay the quote side out
    let stock = MintAmbientEvent {
        block_height: U256::from_u64(2),
        base,
        quote,
        pool_idx: U256::from_u64(36000),
        liq: 2_000_000,
        base_flow: 2_000_000,
        quote_flow: 2_000_000,
        ..Default::default()
    };
    let pool = handle_update(pool, &PoolUpdateEvent::from_mint_ambient(&stock)).unwrap();
    let swap = SwapEvent {
        block_height: U256::from_u64(2),
        base,
        quote,
        pool_idx: U256::from_u64(36000),
        in_base_qty: true,
        base_flow: 1_000_000,
        quote_flow: -900_000,
        ..Default::default()
    };
    let pool = handle_update(pool, &PoolUpdateEvent::from_swap(&swap)).unwrap();
    assert_eq!(pool.base_volume, U256::from_u64(1_000_000));
    assert_eq!(pool.quote_volume, U256::from_u64(900_000));
    // 900_000 * 30 in whole units, stored in millionths
    assert_eq!(
        pool.quote_fees_millionths,
        U256::from_u128(900_000u128 * 30 * 1_000_000)
    );
    assert_eq!(pool.base_fees_millionths, U256::from_u64(0));
    assert_eq!(
        pool.last_price_swap,
        PriceTag::RatioOfFlows {
            base_mag: 1_000_000,
            quote_mag: 900_000
        }
    );
    let served = 1_000_000.0f64 / 900_000.0f64;
    assert!((served - 1.1111).abs() < 0.001);
}

// A revision only replaces the fee rate.
#[test]
fn revision_overwrites_fee_rate() {
    let base = Address::default();
    let quote = quote_token();
    let init = InitPoolEvent {
        block_height: U256::from_u64(1),
        base,
        quote,
        pool_idx: U256::from_u64(36000),
        creator: Address::default(),
        liq: 30000,
        base_flow: 30000,
        quote_flow: 30000,
    };
    let pool = handle_init_pool(&template(), &PoolUpdateEvent::from_init_pool(&init));
    let rev = ambient_indexer::events::PoolRevisionEvent {
        block_height: U256::from_u64(3),
        base,
        quote,
        pool_idx: U256::from_u64(36000),
        fee_rate: 55,
        ..Default::default()
    };
    let tvl = pool.base_tvl;
    let pool = handle_update(pool, &PoolUpdateEvent::from_pool_revision(&rev)).unwrap();
    assert_eq!(pool.fee_rate_millionths, 55);
    assert_eq!(pool.base_tvl, tvl);
}

// An overflowing fold step reports an error instead of wrapping.
#[test]
fn overflow_reports_error() {
    let base = Address::default();
    let quote = quote_token();
    let pool = TrackedPool::default();
    let burn = BurnAmbientEvent {
        block_height: U256::from_u64(1),
        base,
        quote,
        pool_idx: U256::from_u64(36000),
        liq: 1,
        base_flow: -5,
        quote_flow: -5,
        ..Default::default()
    };
    // the zero pool cannot give out tokens: the TVL would go negative
    let r = handle_update(pool, &PoolUpdateEvent::from_burn_ambient(&burn));
    assert!(matches!(
        r,
        Err(ambient_indexer::events::IndexerError::Overflow)
    ));
}
