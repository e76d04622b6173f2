use ambient_indexer::api::{tracked_pool_response, ApiResponse};
use ambient_indexer::db::{
    get_all_dirty_pools, get_all_mint_ambient, get_dirty_pool, get_latest_searched_block,
    get_syncing, get_tracked_pool, record_price, get_price,
    reset_all_pool_indexes, save_init_pool, save_latest_searched_block, save_mint_ambient,
    save_pool_template, save_syncing, set_dirty_pool, track_pool, track_pools, Db,
};
use ambient_indexer::events::{
    BurnAmbientEvent, BurnRangedEvent, InitPoolEvent, MintAmbientEvent, MintRangedEvent,
    SwapEvent,
};
use ambient_indexer::governance::{ParamChange, ProposalContent, ProposalInfo};
use ambient_indexer::positions::{
    combine_and_filter_ranged_positions, get_active_user_pool_positions, Position,
};
use ambient_indexer::proposals::{decode_proposal_content, proposal_info_from, ProposalData, ProtoAny};
use ambient_indexer::scanner::{ingest_pool_events, plan_iteration, EventBatches};
use ambient_indexer::strings::{format_decimal_18, format_u128_to_decimal_18, u128_to_decimal};
use ambient_indexer::tracking::{DirtyPoolTracker, Pool};
use ambient_indexer::events::IndexerError;
use ambient_indexer::updates::{PoolUpdateEvent, PriceTag};
use ambient_indexer::{Address, U256};

fn quote_token() -> Address {
    Address::from_hex("0x0412C7c846bb6b7DC462CF6B453f76D8440b2609").unwrap()
}

fn template() -> Pool {
    Pool {
        schema: 1,
        fee_rate: 30,
        protocol_take: 0,
        tick_size: 1,
        jit_thresh: 0,
        knockout_bits: 0,
        oracle_flags: 0,
    }
}

fn init_event() -> InitPoolEvent {
    InitPoolEvent {
        block_height: U256::from_u64(1),
        base: Address::default(),
        quote: quote_token(),
        pool_idx: U256::from_u64(36000),
        creator: Address::default(),
        liq: 30000,
        base_flow: 30000,
        quote_flow: 30000,
    }
}

#[test]
fn cursor_and_syncing_round() {
    let mut db = Db::new();
    assert!(get_latest_searched_block(&db).is_none());
    assert!(!get_syncing(&db));
    save_latest_searched_block(&mut db, U256::from_u64(777));
    save_syncing(&mut db, true);
    assert_eq!(get_latest_searched_block(&db), Some(U256::from_u64(777)));
    assert!(get_syncing(&db));
}

#[test]
fn keyed_saves_replace() {
    let mut db = Db::new();
    let e = MintAmbientEvent {
        block_height: U256::from_u64(5),
        liq: 1,
        ..Default::default()
    };
    save_mint_ambient(&mut db, e);
    let mut e2 = e;
    e2.liq = 2;
    save_mint_ambient(&mut db, e2);
    let all = get_all_mint_ambient(&db);
    assert_eq!(all.len(), 1);
    assert_eq!(all[0].liq, 2);
    // a different block is a different slot
    let mut e3 = e;
    e3.block_height = U256::from_u64(6);
    save_mint_ambient(&mut db, e3);
    assert_eq!(get_all_mint_ambient(&db).len(), 2);
}

#[test]
fn track_pool_builds_initial_state() {
    let mut db = Db::new();
    save_pool_template(&mut db, U256::from_u64(36000), template());
    save_init_pool(&mut db, init_event());
    set_dirty_pool(
        &mut db,
        Address::default(),
        quote_token(),
        U256::from_u64(36000),
        true,
        U256::from_u64(0),
    );
    let tracker = DirtyPoolTracker {
        dirty: true,
        last_block: U256::from_u64(0),
        base: Address::default(),
        quote: quote_token(),
        pool_idx: U256::from_u64(36000),
    };
    track_pool(&mut db, &tracker).unwrap();
    let p = get_tracked_pool(&db, Address::default(), quote_token(), U256::from_u64(36000))
        .unwrap();
    assert_eq!(p.base_tvl, U256::from_u64(30000));
    assert_eq!(p.quote_tvl, U256::from_u64(30000));
    assert_eq!(p.ambient_liq, U256::from_u64(30000));
    assert_eq!(p.fee_rate_millionths, 30_000_000);
    assert!(p.bumps.is_empty());
    let d = get_dirty_pool(&db, Address::default(), quote_token(), U256::from_u64(36000))
        .unwrap();
    assert!(!d.0);
    assert_eq!(d.1, U256::from_u64(1));
}

#[test]
fn replay_applies_later_events_in_order() {
    let mut db = Db::new();
    save_pool_template(&mut db, U256::from_u64(36000), template());
    save_init_pool(&mut db, init_event());
    let tracker = DirtyPoolTracker {
        dirty: true,
        last_block: U256::from_u64(0),
        base: Address::default(),
        quote: quote_token(),
        pool_idx: U256::from_u64(36000),
    };
    track_pool(&mut db, &tracker).unwrap();
    // a mint then a burn at the same block, later log index
    let mint = MintAmbientEvent {
        block_height: U256::from_u64(2),
        index: U256::from_u64(0),
        user: Address::default(),
        base: Address::default(),
        quote: quote_token(),
        pool_idx: U256::from_u64(36000),
        liq: 30000,
        base_flow: 30000,
        quote_flow: 30000,
    };
    let burn = BurnAmbientEvent {
        block_height: U256::from_u64(2),
        index: U256::from_u64(1),
        user: Address::default(),
        base: Address::default(),
        quote: quote_token(),
        pool_idx: U256::from_u64(36000),
        liq: 30000,
        base_flow: -30000,
        quote_flow: -30000,
    };
    save_mint_ambient(&mut db, mint);
    ambient_indexer::db::save_burn_ambient(&mut db, burn);
    let tracker = DirtyPoolTracker {
        dirty: true,
        last_block: U256::from_u64(1),
        ..tracker
    };
    track_pool(&mut db, &tracker).unwrap();
    let p = get_tracked_pool(&db, Address::default(), quote_token(), U256::from_u64(36000))
        .unwrap();
    // the paired mint and burn restored both totals and the ambient stake
    assert_eq!(p.base_tvl, U256::from_u64(30000));
    assert_eq!(p.quote_tvl, U256::from_u64(30000));
    assert_eq!(p.ambient_liq, U256::from_u64(30000));
    assert!(p.bumps.is_empty());
}

#[test]
fn reset_recreates_dirty_markers() {
    let mut db = Db::new();
    save_pool_template(&mut db, U256::from_u64(36000), template());
    save_init_pool(&mut db, init_event());
    let tracker = DirtyPoolTracker {
        dirty: true,
        last_block: U256::from_u64(0),
        base: Address::default(),
        quote: quote_token(),
        pool_idx: U256::from_u64(36000),
    };
    track_pool(&mut db, &tracker).unwrap();
    reset_all_pool_indexes(&mut db);
    assert!(get_tracked_pool(&db, Address::default(), quote_token(), U256::from_u64(36000))
        .is_none());
    let d = get_dirty_pool(&db, Address::default(), quote_token(), U256::from_u64(36000))
        .unwrap();
    assert!(d.0);
    assert!(d.1.is_zero());
    // a fresh pass rebuilds the pool from the stored creation record
    track_pools(&mut db).unwrap();
    let p = get_tracked_pool(&db, Address::default(), quote_token(), U256::from_u64(36000))
        .unwrap();
    assert_eq!(p.base_tvl, U256::from_u64(30000));
}

#[test]
fn plan_iteration_windows() {
    // syncing holds exactly when the head is more than 500 blocks past the
    // cursor
    let plan = plan_iteration(Some(U256::from_u64(5000)), &U256::from_u64(10000), 1000);
    assert!(plan.syncing);
    assert!(!plan.caught_up);
    assert_eq!(plan.start, U256::from_u64(5000));
    assert_eq!(plan.end, U256::from_u64(6000));
    let plan = plan_iteration(Some(U256::from_u64(9600)), &U256::from_u64(10000), 1000);
    assert!(!plan.syncing);
    assert_eq!(plan.end, U256::from_u64(10000));
    let plan = plan_iteration(Some(U256::from_u64(10000)), &U256::from_u64(10000), 1000);
    assert!(plan.caught_up);
    // a missing cursor scans from the beginning
    let plan = plan_iteration(None, &U256::from_u64(200), 1000);
    assert_eq!(plan.start, U256::from_u64(0));
    assert_eq!(plan.end, U256::from_u64(200));
    // the cursor never moves backward: the end is at or past the start
    assert!(plan.end.le(&U256::from_u64(200)));
    assert!(U256::from_u64(0).le(&plan.end));
}

#[test]
fn ingest_filters_and_marks() {
    let mut db = Db::new();
    save_pool_template(&mut db, U256::from_u64(36000), template());
    let allowed = MintRangedEvent {
        block_height: U256::from_u64(3),
        user: Address::default(),
        base: Address::default(),
        quote: quote_token(),
        pool_idx: U256::from_u64(36000),
        liq: 7,
        bid_tick: -1,
        ask_tick: 1,
        base_flow: 10,
        quote_flow: 10,
        index: U256::from_u64(0),
    };
    let mut off_template = allowed;
    off_template.pool_idx = U256::from_u64(999);
    let mut off_tokens = allowed;
    off_tokens.base = Address::from_hex("0x9676519d99E390A180Ab1445d5d857E3f6869065").unwrap();
    off_tokens.quote = Address::from_hex("0x9676519d99E390A180Ab1445d5d857E3f6869065").unwrap();
    let batches = EventBatches {
        init_pools: vec![init_event().encode_log()],
        swaps: vec![],
        mint_ranged: vec![
            allowed.encode_log(),
            off_template.encode_log(),
            off_tokens.encode_log(),
        ],
        mint_ambient: vec![],
        burn_ranged: vec![],
        burn_ambient: vec![],
        harvests: vec![],
        mint_knockout: vec![],
        burn_knockout: vec![],
        withdraw_knockout: vec![],
    };
    let tokens = vec![Address::default(), quote_token()];
    let templates = vec![U256::from_u64(36000), U256::from_u64(36001)];
    ingest_pool_events(&mut db, &batches, &tokens, &templates);
    // only the allowed record landed
    assert_eq!(ambient_indexer::db::get_all_mint_ranged(&db).len(), 1);
    assert_eq!(ambient_indexer::db::get_init_pools(&db).len(), 1);
    // both its pool and the created pool are marked dirty
    let dirty = get_all_dirty_pools(&db);
    assert!(dirty.iter().any(|t| t.dirty));
    // the creation record resets its pool's tracker to block zero
    let d = get_dirty_pool(&db, Address::default(), quote_token(), U256::from_u64(36000))
        .unwrap();
    assert!(d.0);
    assert!(d.1.is_zero());
}

#[test]
fn syncing_refusal_and_missing_pool() {
    let mut db = Db::new();
    // an unknown pool is a miss
    let r = tracked_pool_response(&db, Address::default(), quote_token(), U256::from_u64(999));
    assert!(matches!(r, ApiResponse::NotFound));
    // while syncing every derived-data answer is the refusal
    save_syncing(&mut db, true);
    let r = tracked_pool_response(&db, Address::default(), quote_token(), U256::from_u64(999));
    assert!(matches!(r, ApiResponse::Syncing));
}

#[test]
fn record_price_keeps_drained_pools() {
    let mut db = Db::new();
    // a zero reading with no prior record is not stored
    record_price(&mut db, 0, Address::default(), quote_token(), U256::from_u64(36000));
    assert!(get_price(&db, Address::default(), quote_token(), U256::from_u64(36000)).is_none());
    // a nonzero reading is stored
    record_price(&mut db, 55, Address::default(), quote_token(), U256::from_u64(36000));
    assert_eq!(
        get_price(&db, Address::default(), quote_token(), U256::from_u64(36000)),
        Some(55)
    );
    // a later zero reading overwrites, keeping the drained pool's record
    record_price(&mut db, 0, Address::default(), quote_token(), U256::from_u64(36000));
    assert_eq!(
        get_price(&db, Address::default(), quote_token(), U256::from_u64(36000)),
        Some(0)
    );
}

#[test]
fn position_pairing_counts() {
    let mint = MintRangedEvent {
        block_height: U256::from_u64(1),
        user: Address::default(),
        base: Address::default(),
        quote: quote_token(),
        pool_idx: U256::from_u64(36000),
        liq: 10,
        bid_tick: -250,
        ask_tick: 500,
        base_flow: 100,
        quote_flow: 100,
        index: U256::from_u64(0),
    };
    let mut second = mint;
    second.block_height = U256::from_u64(2);
    second.liq = 5;
    let burn = BurnRangedEvent {
        block_height: U256::from_u64(3),
        user: Address::default(),
        base: Address::default(),
        quote: quote_token(),
        pool_idx: U256::from_u64(36000),
        liq: 15,
        bid_tick: -250,
        ask_tick: 500,
        base_flow: -200,
        quote_flow: -200,
        index: U256::from_u64(0),
        rewards: 0,
    };
    // two mints with one key merge into one open position
    let open = combine_and_filter_ranged_positions(&vec![mint, second], &vec![]).unwrap();
    assert_eq!(open.len(), 1);
    assert_eq!(open[0].liq, 15);
    assert_eq!(open[0].start_block, U256::from_u64(2));
    // the burn closes it: mints minus burns leaves no open position
    let open = combine_and_filter_ranged_positions(&vec![mint, second], &vec![burn]).unwrap();
    assert_eq!(open.len(), 0);
    // an unmatched burn is ignored
    let open = combine_and_filter_ranged_positions(&vec![], &vec![burn]).unwrap();
    assert_eq!(open.len(), 0);
}

#[test]
fn user_pool_positions_listing() {
    let mut db = Db::new();
    let mint = MintRangedEvent {
        block_height: U256::from_u64(1),
        user: Address::default(),
        base: Address::default(),
        quote: quote_token(),
        pool_idx: U256::from_u64(36000),
        liq: 10,
        bid_tick: -250,
        ask_tick: 500,
        base_flow: 100,
        quote_flow: 100,
        index: U256::from_u64(0),
    };
    ambient_indexer::db::save_mint_ranged(&mut db, mint);
    let ps = get_active_user_pool_positions(
        &db,
        &Address::default(),
        &Address::default(),
        &quote_token(),
        &U256::from_u64(36000),
    )
    .unwrap();
    assert_eq!(ps.len(), 1);
    match &ps[0] {
        Position::Ranged(p) => {
            assert_eq!(p.liq, 10);
            assert_eq!(p.bid_tick, -250);
        }
        Position::Ambient(_) => panic!("expected a ranged position"),
    }
    // a stranger's listing is empty
    let ps = get_active_user_pool_positions(
        &db,
        &quote_token(),
        &Address::default(),
        &quote_token(),
        &U256::from_u64(36000),
    )
    .unwrap();
    assert!(ps.is_empty());
}

#[test]
fn decimal_formatting() {
    assert_eq!(u128_to_decimal(0), "0");
    assert_eq!(u128_to_decimal(1234), "1234");
    assert_eq!(format_u128_to_decimal_18(250, 100), "2.000000000000000000");
    assert_eq!(
        format_decimal_18("1500000000000000000"),
        "1.500000000000000000"
    );
    assert_eq!(format_decimal_18("42"), "0.000000000000000042");
    assert_eq!(format_decimal_18("not a number"), "0.000000000000000000");
}

#[test]
fn proposal_rendering() {
    let content = ProposalContent {
        type_url: "/cosmos.params.v1beta1.ParameterChangeProposal".to_string(),
        title: "t".to_string(),
        description: "d".to_string(),
        changes: Some(vec![
            ParamChange {
                subspace: "a".to_string(),
                key: "b".to_string(),
                value: "c".to_string(),
            },
            ParamChange {
                subspace: "x".to_string(),
                key: "y".to_string(),
                value: "z".to_string(),
            },
        ]),
        recipient: None,
        amount: None,
        plan: None,
        subject_client_id: None,
        substitute_client_id: None,
        metadata: None,
        erc20address: None,
    };
    let s = content.get_decoded_value().unwrap();
    assert_eq!(
        s,
        "Title: t\nDescription: d\nChanges:\nSubspace: a, Key: b, Value: c\nSubspace: x, Key: y, Value: z"
    );
    let info = ProposalInfo {
        proposal_id: 1,
        content: None,
        status: 2,
        status_value: 2,
        final_tally_result: None,
        submit_time: None,
        deposit_end_time: None,
        total_deposit: vec![],
        voting_start_time: None,
        voting_end_time: None,
        last_updated: 0,
    };
    assert!(info.is_active());
}

#[test]
fn proposal_payload_decoding() {
    // a hand-built TextProposal payload: field 1 "abc", field 2 "d"
    let bytes = vec![0x0a, 3, b'a', b'b', b'c', 0x12, 1, b'd'];
    let any = ProtoAny {
        type_url: "/cosmos.gov.v1beta1.TextProposal".to_string(),
        value: bytes,
    };
    let c = decode_proposal_content(&any).unwrap();
    assert_eq!(c.title, "abc");
    assert_eq!(c.description, "d");
    // an unknown kind is refused
    let any = ProtoAny {
        type_url: "/other.Thing".to_string(),
        value: vec![],
    };
    assert!(decode_proposal_content(&any).is_err());
}

#[test]
fn proposal_info_mapping() {
    let data = ProposalData {
        proposal_id: 9,
        content: None,
        status: 3,
        final_tally: None,
        submit_secs: Some(0),
        deposit_end_secs: None,
        voting_start_secs: None,
        voting_end_secs: None,
        total_deposit: vec![ambient_indexer::governance::Coin {
            amount: "100".to_string(),
            denom: "aalthea".to_string(),
        }],
    };
    let info = proposal_info_from(data, 42);
    assert_eq!(info.proposal_id, 9);
    assert_eq!(info.last_updated, 42);
    assert!(!info.is_active());
    assert_eq!(info.total_deposit, vec!["100aalthea".to_string()]);
    assert_eq!(
        info.submit_time.as_deref(),
        Some("1970-01-01T00:00:00.000000000Z")
    );
}

#[test]
fn ranged_mint_burn_bump_symmetry() {
    // the general law, on concrete values: a mint opens two bumps of equal
    // magnitude and opposite sign; the paired burn removes both
    let pool = ambient_indexer::tracking::TrackedPool::default();
    let mint = MintRangedEvent {
        block_height: U256::from_u64(1),
        user: Address::default(),
        base: Address::default(),
        quote: quote_token(),
        pool_idx: U256::from_u64(36000),
        liq: 12345,
        bid_tick: -7,
        ask_tick: 9,
        base_flow: 4000,
        quote_flow: 9000,
        index: U256::from_u64(0),
    };
    let p = ambient_indexer::tracking::handle_update(
        pool,
        &ambient_indexer::updates::PoolUpdateEvent::from_mint_ranged(&mint),
    )
    .unwrap();
    // sqrt(4000 * 9000) = 6000
    assert_eq!(p.get_bump(-7).unwrap().liquidity_delta, 6000);
    assert_eq!(p.get_bump(9).unwrap().liquidity_delta, -6000);
    assert!(p.bumps.windows(2).all(|w| w[0].tick < w[1].tick));
    let burn = BurnRangedEvent {
        block_height: U256::from_u64(2),
        user: Address::default(),
        base: Address::default(),
        quote: quote_token(),
        pool_idx: U256::from_u64(36000),
        liq: 12345,
        bid_tick: -7,
        ask_tick: 9,
        base_flow: -4000,
        quote_flow: -9000,
        index: U256::from_u64(0),
        rewards: 0,
    };
    let p = ambient_indexer::tracking::handle_update(
        p,
        &ambient_indexer::updates::PoolUpdateEvent::from_burn_ranged(&burn),
    )
    .unwrap();
    assert!(p.bumps.is_empty());
}

#[test]
fn swap_price_tag_orientation() {
    let (b, q, flip) = ambient_indexer::api::orient_pair(quote_token(), Address::default());
    assert_eq!(b, Address::default());
    assert_eq!(q, quote_token());
    assert!(flip);
    let swap = SwapEvent {
        base_flow: 500,
        quote_flow: 500,
        ..Default::default()
    };
    // flows under the stability floor leave the price untouched
    let pool = ambient_indexer::tracking::handle_update(
        ambient_indexer::tracking::TrackedPool::default(),
        &ambient_indexer::updates::PoolUpdateEvent::from_swap(&swap),
    )
    .unwrap();
    assert_eq!(pool.last_price_swap, PriceTag::Unit);
}

#[test]
fn reducer_error_variants() {
    let mut db = Db::new();
    // no template stored: initialization is refused
    let u = PoolUpdateEvent::from_init_pool(&init_event());
    assert!(matches!(
        ambient_indexer::db::update_pool(&mut db, &u),
        Err(IndexerError::MissingTemplate)
    ));
    // a negative creation flow is an invariant violation
    save_pool_template(&mut db, U256::from_u64(36000), template());
    let mut bad = init_event();
    bad.base_flow = -1;
    let u = PoolUpdateEvent::from_init_pool(&bad);
    assert!(matches!(
        ambient_indexer::db::update_pool(&mut db, &u),
        Err(IndexerError::InvalidInitFlows)
    ));
    // a pool marked past initialization but with no stored state is refused
    set_dirty_pool(
        &mut db,
        Address::default(),
        quote_token(),
        U256::from_u64(36000),
        true,
        U256::from_u64(5),
    );
    let mint = MintAmbientEvent {
        block_height: U256::from_u64(6),
        base: Address::default(),
        quote: quote_token(),
        pool_idx: U256::from_u64(36000),
        liq: 2000,
        base_flow: 2000,
        quote_flow: 2000,
        ..Default::default()
    };
    let u = PoolUpdateEvent::from_mint_ambient(&mint);
    assert!(matches!(
        ambient_indexer::db::update_pool(&mut db, &u),
        Err(IndexerError::MissingPool)
    ));
}
