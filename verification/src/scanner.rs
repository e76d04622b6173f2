//! The chain-log scanner's decision core: planning one iteration of the
//! scan loop and committing one window of fetched logs.
//!
//! Whatever fetches logs and heads from the chain hands the results in as
//! plain values; everything that decides and writes is here.

use vstd::prelude::*;
use crate::address::Address;
use crate::db::mark_pool_dirty;
use crate::db::save_burn_ambient;
use crate::db::save_burn_knockout;
use crate::db::save_burn_ranged;
use crate::db::save_harvest;
use crate::db::save_init_pool;
use crate::db::save_mint_ambient;
use crate::db::save_mint_knockout;
use crate::db::save_mint_ranged;
use crate::db::save_swap;
use crate::db::save_withdraw_knockout;
use crate::db::set_dirty_pool;
use crate::db::spec_first_dirty;
use crate::db::Db;
use crate::events::spec_decode_burn_ambient;
use crate::events::spec_decode_burn_knockout;
use crate::events::spec_decode_burn_ranged;
use crate::events::spec_decode_harvest;
use crate::events::spec_decode_init_pool;
use crate::events::spec_decode_mint_ambient;
use crate::events::spec_decode_mint_knockout;
use crate::events::spec_decode_mint_ranged;
use crate::events::spec_decode_swap;
use crate::events::spec_decode_withdraw_knockout;
use crate::events::BurnAmbientEvent;
use crate::events::BurnKnockoutEvent;
use crate::events::BurnRangedEvent;
use crate::events::HarvestEvent;
use crate::events::InitPoolEvent;
use crate::events::Log;
use crate::events::MintAmbientEvent;
use crate::events::MintKnockoutEvent;
use crate::events::MintRangedEvent;
use crate::events::SwapEvent;
use crate::events::WithdrawKnockoutEvent;
use crate::u256::u256_zero;
use crate::u256::U256;

verus! {

/// What one iteration of the scan loop decides before any fetch: the
/// window to scan and the syncing flag to store.
#[derive(Clone, Copy, Debug, PartialEq, Eq, Structural, Hash)]
pub struct IterationPlan {
    pub syncing: bool,
    pub caught_up: bool,
    pub start: U256,
    pub end: U256,
}

/// Plans one iteration from the stored cursor and the chain head.
///
/// The syncing flag holds exactly when the head is more than 500 blocks
/// past the cursor.  When the chain offers nothing new the iteration only
/// sleeps; otherwise the window runs from the cursor to at most `window`
/// blocks further, capped by the head, so the cursor never moves backward.
pub fn plan_iteration(cursor: Option<U256>, head: &U256, window: u64) -> (r: IterationPlan)
    requires
        window >= 1,
    ensures
        r.start == (if cursor is Some {
            cursor->0
        } else {
            u256_zero()
        }),
        r.syncing == (head.as_nat() > r.start.as_nat() + 500),
        r.caught_up == (head.as_nat() <= r.start.as_nat()),
        !r.caught_up ==> r.end.as_nat() == (if r.start.as_nat() + window <= head.as_nat() {
            (r.start.as_nat() + window) as nat
        } else {
            head.as_nat()
        }),
        !r.caught_up ==> r.start.as_nat() < r.end.as_nat() <= head.as_nat(),
{
    let start: U256 = match cursor {
        Some(c) => c,
        None => U256::zero(),
    };
    let syncing: bool = match start.checked_add(&U256::from_u64(500)) {
        Some(s) => s.lt(head),
        None => false,
    };
    let caught_up: bool = head.le(&start);
    let end: U256 = match start.checked_add(&U256::from_u64(window)) {
        Some(limit) => {
            if limit.le(head) {
                limit
            } else {
                *head
            }
        },
        None => *head,
    };
    IterationPlan { syncing, caught_up, start, end }
}

/// The latest-searched block never decreases during normal operation: the
/// end of every planned window sits at or past its start, so persisting it
/// never moves the cursor backward.
pub proof fn lemma_cursor_monotone(r: IterationPlan, cursor: Option<U256>, head: U256)
    requires
        r.caught_up == (head.as_nat() <= r.start.as_nat()),
        !r.caught_up ==> r.start.as_nat() < r.end.as_nat(),
        r.start == (if cursor is Some {
            cursor->0
        } else {
            u256_zero()
        }),
    ensures
        !r.caught_up && cursor is Some ==> r.end.as_nat() >= cursor->0.as_nat(),
{
}

/// Whether a pool is worth indexing: its template is allowed and one of
/// its tokens is on the allow-list.
pub open spec fn spec_allowed(
    pool_idx: U256,
    base: Address,
    quote: Address,
    tokens: Seq<Address>,
    templates: Seq<U256>,
) -> bool {
    templates.contains(pool_idx) && (tokens.contains(base) || tokens.contains(quote))
}

/// Membership scan for an address allow-list.
pub fn contains_address(v: &Vec<Address>, a: &Address) -> (r: bool)
    ensures
        r == v@.contains(*a),
{
    let mut i: usize = 0;
    while i < v.len()
        invariant
            0 <= i <= v@.len(),
            forall|j: int| 0 <= j < i ==> v@[j] != *a,
        decreases v@.len() - i,
    {
        if v[i] == *a {
            return true;
        }
        i += 1;
    }
    false
}

/// Membership scan for a template allow-list.
pub fn contains_u256(v: &Vec<U256>, a: &U256) -> (r: bool)
    ensures
        r == v@.contains(*a),
{
    let mut i: usize = 0;
    while i < v.len()
        invariant
            0 <= i <= v@.len(),
            forall|j: int| 0 <= j < i ==> v@[j] != *a,
        decreases v@.len() - i,
    {
        if v[i] == *a {
            return true;
        }
        i += 1;
    }
    false
}

/// One window's worth of fetched logs, one batch per event topic.
#[derive(Clone, Debug)]
pub struct EventBatches {
    pub init_pools: Vec<Log>,
    pub swaps: Vec<Log>,
    pub mint_ranged: Vec<Log>,
    pub mint_ambient: Vec<Log>,
    pub burn_ranged: Vec<Log>,
    pub burn_ambient: Vec<Log>,
    pub harvests: Vec<Log>,
    pub mint_knockout: Vec<Log>,
    pub burn_knockout: Vec<Log>,
    pub withdraw_knockout: Vec<Log>,
}

/// The stored init pool records after committing one batch of
/// logs: each decodable, allowed log's record lands at its key; the rest
/// are skipped.
pub open spec fn spec_ingest_init_pool(
    s: Seq<InitPoolEvent>,
    logs: Seq<Log>,
    tokens: Seq<Address>,
    templates: Seq<U256>,
) -> Seq<InitPoolEvent>
    decreases logs.len(),
{
    if logs.len() == 0 {
        s
    } else {
        let d = spec_decode_init_pool(logs[0]);
        if d is Some && spec_allowed(d->0.pool_idx, d->0.base, d->0.quote, tokens, templates) {
            spec_ingest_init_pool(
                s.filter((|v: InitPoolEvent| !crate::db::spec_init_pool_same_key(v, d->0))).push(d->0),
                logs.drop_first(),
                tokens,
                templates,
            )
        } else {
            spec_ingest_init_pool(s, logs.drop_first(), tokens, templates)
        }
    }
}

/// The stored swap records after committing one batch of
/// logs: each decodable, allowed log's record lands at its key; the rest
/// are skipped.
pub open spec fn spec_ingest_swap(
    s: Seq<SwapEvent>,
    logs: Seq<Log>,
    tokens: Seq<Address>,
    templates: Seq<U256>,
) -> Seq<SwapEvent>
    decreases logs.len(),
{
    if logs.len() == 0 {
        s
    } else {
        let d = spec_decode_swap(logs[0]);
        if d is Some && spec_allowed(d->0.pool_idx, d->0.base, d->0.quote, tokens, templates) {
            spec_ingest_swap(
                s.filter((|v: SwapEvent| !crate::db::spec_swap_same_key(v, d->0))).push(d->0),
                logs.drop_first(),
                tokens,
                templates,
            )
        } else {
            spec_ingest_swap(s, logs.drop_first(), tokens, templates)
        }
    }
}

/// The stored mint ranged records after committing one batch of
/// logs: each decodable, allowed log's record lands at its key; the rest
/// are skipped.
pub open spec fn spec_ingest_mint_ranged(
    s: Seq<MintRangedEvent>,
    logs: Seq<Log>,
    tokens: Seq<Address>,
    templates: Seq<U256>,
) -> Seq<MintRangedEvent>
    decreases logs.len(),
{
    if logs.len() == 0 {
        s
    } else {
        let d = spec_decode_mint_ranged(logs[0]);
        if d is Some && spec_allowed(d->0.pool_idx, d->0.base, d->0.quote, tokens, templates) {
            spec_ingest_mint_ranged(
                s.filter((|v: MintRangedEvent| !crate::db::spec_mint_ranged_same_key(v, d->0))).push(d->0),
                logs.drop_first(),
                tokens,
                templates,
            )
        } else {
            spec_ingest_mint_ranged(s, logs.drop_first(), tokens, templates)
        }
    }
}

/// The stored mint ambient records after committing one batch of
/// logs: each decodable, allowed log's record lands at its key; the rest
/// are skipped.
pub open spec fn spec_ingest_mint_ambient(
    s: Seq<MintAmbientEvent>,
    logs: Seq<Log>,
    tokens: Seq<Address>,
    templates: Seq<U256>,
) -> Seq<MintAmbientEvent>
    decreases logs.len(),
{
    if logs.len() == 0 {
        s
    } else {
        let d = spec_decode_mint_ambient(logs[0]);
        if d is Some && spec_allowed(d->0.pool_idx, d->0.base, d->0.quote, tokens, templates) {
            spec_ingest_mint_ambient(
                s.filter((|v: MintAmbientEvent| !crate::db::spec_mint_ambient_same_key(v, d->0))).push(d->0),
                logs.drop_first(),
                tokens,
                templates,
            )
        } else {
            spec_ingest_mint_ambient(s, logs.drop_first(), tokens, templates)
        }
    }
}

/// The stored burn ranged records after committing one batch of
/// logs: each decodable, allowed log's record lands at its key; the rest
/// are skipped.
pub open spec fn spec_ingest_burn_ranged(
    s: Seq<BurnRangedEvent>,
    logs: Seq<Log>,
    tokens: Seq<Address>,
    templates: Seq<U256>,
) -> Seq<BurnRangedEvent>
    decreases logs.len(),
{
    if logs.len() == 0 {
        s
    } else {
        let d = spec_decode_burn_ranged(logs[0]);
        if d is Some && spec_allowed(d->0.pool_idx, d->0.base, d->0.quote, tokens, templates) {
            spec_ingest_burn_ranged(
                s.filter((|v: BurnRangedEvent| !crate::db::spec_burn_ranged_same_key(v, d->0))).push(d->0),
                logs.drop_first(),
                tokens,
                templates,
            )
        } else {
            spec_ingest_burn_ranged(s, logs.drop_first(), tokens, templates)
        }
    }
}

/// The stored burn ambient records after committing one batch of
/// logs: each decodable, allowed log's record lands at its key; the rest
/// are skipped.
pub open spec fn spec_ingest_burn_ambient(
    s: Seq<BurnAmbientEvent>,
    logs: Seq<Log>,
    tokens: Seq<Address>,
    templates: Seq<U256>,
) -> Seq<BurnAmbientEvent>
    decreases logs.len(),
{
    if logs.len() == 0 {
        s
    } else {
        let d = spec_decode_burn_ambient(logs[0]);
        if d is Some && spec_allowed(d->0.pool_idx, d->0.base, d->0.quote, tokens, templates) {
            spec_ingest_burn_ambient(
                s.filter((|v: BurnAmbientEvent| !crate::db::spec_burn_ambient_same_key(v, d->0))).push(d->0),
                logs.drop_first(),
                tokens,
                templates,
            )
        } else {
            spec_ingest_burn_ambient(s, logs.drop_first(), tokens, templates)
        }
    }
}

/// The stored harvest records after committing one batch of
/// logs: each decodable, allowed log's record lands at its key; the rest
/// are skipped.
pub open spec fn spec_ingest_harvest(
    s: Seq<HarvestEvent>,
    logs: Seq<Log>,
    tokens: Seq<Address>,
    templates: Seq<U256>,
) -> Seq<HarvestEvent>
    decreases logs.len(),
{
    if logs.len() == 0 {
        s
    } else {
        let d = spec_decode_harvest(logs[0]);
        if d is Some && spec_allowed(d->0.pool_idx, d->0.base, d->0.quote, tokens, templates) {
            spec_ingest_harvest(
                s.filter((|v: HarvestEvent| !crate::db::spec_harvest_same_key(v, d->0))).push(d->0),
                logs.drop_first(),
                tokens,
                templates,
            )
        } else {
            spec_ingest_harvest(s, logs.drop_first(), tokens, templates)
        }
    }
}

/// The stored mint knockout records after committing one batch of
/// logs: each decodable, allowed log's record lands at its key; the rest
/// are skipped.
pub open spec fn spec_ingest_mint_knockout(
    s: Seq<MintKnockoutEvent>,
    logs: Seq<Log>,
    tokens: Seq<Address>,
    templates: Seq<U256>,
) -> Seq<MintKnockoutEvent>
    decreases logs.len(),
{
    if logs.len() == 0 {
        s
    } else {
        let d = spec_decode_mint_knockout(logs[0]);
        if d is Some && spec_allowed(d->0.pool_idx, d->0.base, d->0.quote, tokens, templates) {
            spec_ingest_mint_knockout(
                s.filter((|v: MintKnockoutEvent| !crate::db::spec_mint_knockout_same_key(v, d->0))).push(d->0),
                logs.drop_first(),
                tokens,
                templates,
            )
        } else {
            spec_ingest_mint_knockout(s, logs.drop_first(), tokens, templates)
        }
    }
}

/// The stored burn knockout records after committing one batch of
/// logs: each decodable, allowed log's record lands at its key; the rest
/// are skipped.
pub open spec fn spec_ingest_burn_knockout(
    s: Seq<BurnKnockoutEvent>,
    logs: Seq<Log>,
    tokens: Seq<Address>,
    templates: Seq<U256>,
) -> Seq<BurnKnockoutEvent>
    decreases logs.len(),
{
    if logs.len() == 0 {
        s
    } else {
        let d = spec_decode_burn_knockout(logs[0]);
        if d is Some && spec_allowed(d->0.pool_idx, d->0.base, d->0.quote, tokens, templates) {
            spec_ingest_burn_knockout(
                s.filter((|v: BurnKnockoutEvent| !crate::db::spec_burn_knockout_same_key(v, d->0))).push(d->0),
                logs.drop_first(),
                tokens,
                templates,
            )
        } else {
            spec_ingest_burn_knockout(s, logs.drop_first(), tokens, templates)
        }
    }
}

/// The stored withdraw knockout records after committing one batch of
/// logs: each decodable, allowed log's record lands at its key; the rest
/// are skipped.
pub open spec fn spec_ingest_withdraw_knockout(
    s: Seq<WithdrawKnockoutEvent>,
    logs: Seq<Log>,
    tokens: Seq<Address>,
    templates: Seq<U256>,
) -> Seq<WithdrawKnockoutEvent>
    decreases logs.len(),
{
    if logs.len() == 0 {
        s
    } else {
        let d = spec_decode_withdraw_knockout(logs[0]);
        if d is Some && spec_allowed(d->0.pool_idx, d->0.base, d->0.quote, tokens, templates) {
            spec_ingest_withdraw_knockout(
                s.filter((|v: WithdrawKnockoutEvent| !crate::db::spec_withdraw_knockout_same_key(v, d->0))).push(d->0),
                logs.drop_first(),
                tokens,
                templates,
            )
        } else {
            spec_ingest_withdraw_knockout(s, logs.drop_first(), tokens, templates)
        }
    }
}

/// Whether a pool's tracker is stored and flagged dirty.
pub open spec fn spec_marked_dirty(db: Db, base: Address, quote: Address, pool_idx: U256) -> bool {
    spec_first_dirty(db.dirty_pools@, base, quote, pool_idx) matches Some(t) && t.dirty
}

/// Whether a pool's tracker is dirty and reset to block zero, which
/// forces the state machine to initialize the pool.
pub open spec fn spec_marked_reset(db: Db, base: Address, quote: Address, pool_idx: U256) -> bool {
    spec_first_dirty(db.dirty_pools@, base, quote, pool_idx) matches Some(t) && t.dirty
        && t.last_block.as_nat() == 0
}

/// Commits one fetched window: every decodable log whose pool passes the
/// allow-lists is stored at its key and its pool is marked dirty; a pool
/// creation forces initialization by resetting its tracker to block zero.
/// Malformed logs are skipped.
#[verifier::rlimit(100)]
#[verifier::spinoff_prover]
pub fn ingest_pool_events(
    db: &mut Db,
    batches: &EventBatches,
    tokens: &Vec<Address>,
    templates: &Vec<U256>,
)
    ensures
        final(db).init_pools@ == spec_ingest_init_pool(old(db).init_pools@, batches.init_pools@, tokens@, templates@),
        final(db).swaps@ == spec_ingest_swap(old(db).swaps@, batches.swaps@, tokens@, templates@),
        final(db).mint_ranged@ == spec_ingest_mint_ranged(old(db).mint_ranged@, batches.mint_ranged@, tokens@, templates@),
        final(db).mint_ambient@ == spec_ingest_mint_ambient(old(db).mint_ambient@, batches.mint_ambient@, tokens@, templates@),
        final(db).burn_ranged@ == spec_ingest_burn_ranged(old(db).burn_ranged@, batches.burn_ranged@, tokens@, templates@),
        final(db).burn_ambient@ == spec_ingest_burn_ambient(old(db).burn_ambient@, batches.burn_ambient@, tokens@, templates@),
        final(db).harvests@ == spec_ingest_harvest(old(db).harvests@, batches.harvests@, tokens@, templates@),
        final(db).mint_knockout@ == spec_ingest_mint_knockout(old(db).mint_knockout@, batches.mint_knockout@, tokens@, templates@),
        final(db).burn_knockout@ == spec_ingest_burn_knockout(old(db).burn_knockout@, batches.burn_knockout@, tokens@, templates@),
        final(db).withdraw_knockout@ == spec_ingest_withdraw_knockout(old(db).withdraw_knockout@, batches.withdraw_knockout@, tokens@, templates@),
        forall|k: int| 0 <= k < batches.init_pools@.len() ==> ({
            let d = spec_decode_init_pool(#[trigger] batches.init_pools@[k]);
            (d is Some && spec_allowed(d->0.pool_idx, d->0.base, d->0.quote, tokens@, templates@)) ==> spec_marked_reset(
                *final(db),
                d->0.base,
                d->0.quote,
                d->0.pool_idx,
            )
        }),
        forall|k: int| 0 <= k < batches.swaps@.len() ==> ({
            let d = spec_decode_swap(#[trigger] batches.swaps@[k]);
            (d is Some && spec_allowed(d->0.pool_idx, d->0.base, d->0.quote, tokens@, templates@)) ==> spec_marked_dirty(
                *final(db),
                d->0.base,
                d->0.quote,
                d->0.pool_idx,
            )
        }),
        forall|k: int| 0 <= k < batches.mint_ranged@.len() ==> ({
            let d = spec_decode_mint_ranged(#[trigger] batches.mint_ranged@[k]);
            (d is Some && spec_allowed(d->0.pool_idx, d->0.base, d->0.quote, tokens@, templates@)) ==> spec_marked_dirty(
                *final(db),
                d->0.base,
                d->0.quote,
                d->0.pool_idx,
            )
        }),
        forall|k: int| 0 <= k < batches.mint_ambient@.len() ==> ({
            let d = spec_decode_mint_ambient(#[trigger] batches.mint_ambient@[k]);
            (d is Some && spec_allowed(d->0.pool_idx, d->0.base, d->0.quote, tokens@, templates@)) ==> spec_marked_dirty(
                *final(db),
                d->0.base,
                d->0.quote,
                d->0.pool_idx,
            )
        }),
        forall|k: int| 0 <= k < batches.burn_ranged@.len() ==> ({
            let d = spec_decode_burn_ranged(#[trigger] batches.burn_ranged@[k]);
            (d is Some && spec_allowed(d->0.pool_idx, d->0.base, d->0.quote, tokens@, templates@)) ==> spec_marked_dirty(
                *final(db),
                d->0.base,
                d->0.quote,
                d->0.pool_idx,
            )
        }),
        forall|k: int| 0 <= k < batches.burn_ambient@.len() ==> ({
            let d = spec_decode_burn_ambient(#[trigger] batches.burn_ambient@[k]);
            (d is Some && spec_allowed(d->0.pool_idx, d->0.base, d->0.quote, tokens@, templates@)) ==> spec_marked_dirty(
                *final(db),
                d->0.base,
                d->0.quote,
                d->0.pool_idx,
            )
        }),
        forall|k: int| 0 <= k < batches.harvests@.len() ==> ({
            let d = spec_decode_harvest(#[trigger] batches.harvests@[k]);
            (d is Some && spec_allowed(d->0.pool_idx, d->0.base, d->0.quote, tokens@, templates@)) ==> spec_marked_dirty(
                *final(db),
                d->0.base,
                d->0.quote,
                d->0.pool_idx,
            )
        }),
        forall|k: int| 0 <= k < batches.mint_knockout@.len() ==> ({
            let d = spec_decode_mint_knockout(#[trigger] batches.mint_knockout@[k]);
            (d is Some && spec_allowed(d->0.pool_idx, d->0.base, d->0.quote, tokens@, templates@)) ==> spec_marked_dirty(
                *final(db),
                d->0.base,
                d->0.quote,
                d->0.pool_idx,
            )
        }),
        forall|k: int| 0 <= k < batches.burn_knockout@.len() ==> ({
            let d = spec_decode_burn_knockout(#[trigger] batches.burn_knockout@[k]);
            (d is Some && spec_allowed(d->0.pool_idx, d->0.base, d->0.quote, tokens@, templates@)) ==> spec_marked_dirty(
                *final(db),
                d->0.base,
                d->0.quote,
                d->0.pool_idx,
            )
        }),
        forall|k: int| 0 <= k < batches.withdraw_knockout@.len() ==> ({
            let d = spec_decode_withdraw_knockout(#[trigger] batches.withdraw_knockout@[k]);
            (d is Some && spec_allowed(d->0.pool_idx, d->0.base, d->0.quote, tokens@, templates@)) ==> spec_marked_dirty(
                *final(db),
                d->0.base,
                d->0.quote,
                d->0.pool_idx,
            )
        }),
        final(db).templates@ == old(db).templates@,
        final(db).revisions@ == old(db).revisions@,
        final(db).tracked_pools@ == old(db).tracked_pools@,
        final(db).prices@ == old(db).prices@,
        final(db).liquidity@ == old(db).liquidity@,
        final(db).curves@ == old(db).curves@,
        final(db).latest_block == old(db).latest_block,
        final(db).syncing == old(db).syncing,
{
    let mut i: usize = 0;
    proof {
        assert(batches.init_pools@.skip(0) =~= batches.init_pools@);
    }
    while i < batches.init_pools.len()
        invariant
            0 <= i <= batches.init_pools@.len(),
            spec_ingest_init_pool(old(db).init_pools@, batches.init_pools@, tokens@, templates@) == spec_ingest_init_pool(db.init_pools@, batches.init_pools@.skip(i as int), tokens@, templates@),
            forall|k: int| 0 <= k < i ==> ({
                let d = spec_decode_init_pool(#[trigger] batches.init_pools@[k]);
                (d is Some && spec_allowed(d->0.pool_idx, d->0.base, d->0.quote, tokens@, templates@)) ==> spec_marked_reset(
                    *db,
                    d->0.base,
                    d->0.quote,
                    d->0.pool_idx,
                )
            }),
            db.swaps@ == old(db).swaps@,
            db.mint_ranged@ == old(db).mint_ranged@,
            db.mint_ambient@ == old(db).mint_ambient@,
            db.burn_ranged@ == old(db).burn_ranged@,
            db.burn_ambient@ == old(db).burn_ambient@,
            db.harvests@ == old(db).harvests@,
            db.mint_knockout@ == old(db).mint_knockout@,
            db.burn_knockout@ == old(db).burn_knockout@,
            db.withdraw_knockout@ == old(db).withdraw_knockout@,
            db.templates@ == old(db).templates@,
            db.revisions@ == old(db).revisions@,
            db.tracked_pools@ == old(db).tracked_pools@,
            db.prices@ == old(db).prices@,
            db.liquidity@ == old(db).liquidity@,
            db.curves@ == old(db).curves@,
            db.latest_block == old(db).latest_block,
            db.syncing == old(db).syncing,
        decreases batches.init_pools@.len() - i,
    {
        let log = &batches.init_pools[i];
        match InitPoolEvent::from_log(log) {
            Ok(e) => {
                if contains_u256(templates, &e.pool_idx) && (contains_address(tokens, &e.base)
                    || contains_address(tokens, &e.quote)) {
                    set_dirty_pool(db, e.base, e.quote, e.pool_idx, true, U256::zero());
                    save_init_pool(db, e);
                }
            },
            Err(_) => {},
        }
        proof {
            assert(batches.init_pools@.skip(i as int)[0] == batches.init_pools@[i as int]);
            assert(batches.init_pools@.skip(i as int).drop_first() =~= batches.init_pools@.skip(i + 1));
        }
        i += 1;
    }
    proof {
        assert(batches.init_pools@.skip(batches.init_pools@.len() as int).len() == 0);
    }

    let mut i: usize = 0;
    proof {
        assert(batches.swaps@.skip(0) =~= batches.swaps@);
    }
    while i < batches.swaps.len()
        invariant
            0 <= i <= batches.swaps@.len(),
            spec_ingest_swap(old(db).swaps@, batches.swaps@, tokens@, templates@) == spec_ingest_swap(db.swaps@, batches.swaps@.skip(i as int), tokens@, templates@),
            forall|k: int| 0 <= k < batches.init_pools@.len() ==> ({
                let d = spec_decode_init_pool(#[trigger] batches.init_pools@[k]);
                (d is Some && spec_allowed(d->0.pool_idx, d->0.base, d->0.quote, tokens@, templates@)) ==> spec_marked_reset(
                    *db,
                    d->0.base,
                    d->0.quote,
                    d->0.pool_idx,
                )
            }),
            forall|k: int| 0 <= k < i ==> ({
                let d = spec_decode_swap(#[trigger] batches.swaps@[k]);
                (d is Some && spec_allowed(d->0.pool_idx, d->0.base, d->0.quote, tokens@, templates@)) ==> spec_marked_dirty(
                    *db,
                    d->0.base,
                    d->0.quote,
                    d->0.pool_idx,
                )
            }),
            db.init_pools@ == spec_ingest_init_pool(old(db).init_pools@, batches.init_pools@, tokens@, templates@),
            db.mint_ranged@ == old(db).mint_ranged@,
            db.mint_ambient@ == old(db).mint_ambient@,
            db.burn_ranged@ == old(db).burn_ranged@,
            db.burn_ambient@ == old(db).burn_ambient@,
            db.harvests@ == old(db).harvests@,
            db.mint_knockout@ == old(db).mint_knockout@,
            db.burn_knockout@ == old(db).burn_knockout@,
            db.withdraw_knockout@ == old(db).withdraw_knockout@,
            db.templates@ == old(db).templates@,
            db.revisions@ == old(db).revisions@,
            db.tracked_pools@ == old(db).tracked_pools@,
            db.prices@ == old(db).prices@,
            db.liquidity@ == old(db).liquidity@,
            db.curves@ == old(db).curves@,
            db.latest_block == old(db).latest_block,
            db.syncing == old(db).syncing,
        decreases batches.swaps@.len() - i,
    {
        let log = &batches.swaps[i];
        match SwapEvent::from_log(log) {
            Ok(e) => {
                if contains_u256(templates, &e.pool_idx) && (contains_address(tokens, &e.base)
                    || contains_address(tokens, &e.quote)) {
                    mark_pool_dirty(db, e.base, e.quote, e.pool_idx);
                    save_swap(db, e);
                }
            },
            Err(_) => {},
        }
        proof {
            assert(batches.swaps@.skip(i as int)[0] == batches.swaps@[i as int]);
            assert(batches.swaps@.skip(i as int).drop_first() =~= batches.swaps@.skip(i + 1));
        }
        i += 1;
    }
    proof {
        assert(batches.swaps@.skip(batches.swaps@.len() as int).len() == 0);
    }

    let mut i: usize = 0;
    proof {
        assert(batches.mint_ranged@.skip(0) =~= batches.mint_ranged@);
    }
    while i < batches.mint_ranged.len()
        invariant
            0 <= i <= batches.mint_ranged@.len(),
            spec_ingest_mint_ranged(old(db).mint_ranged@, batches.mint_ranged@, tokens@, templates@) == spec_ingest_mint_ranged(db.mint_ranged@, batches.mint_ranged@.skip(i as int), tokens@, templates@),
            forall|k: int| 0 <= k < batches.init_pools@.len() ==> ({
                let d = spec_decode_init_pool(#[trigger] batches.init_pools@[k]);
                (d is Some && spec_allowed(d->0.pool_idx, d->0.base, d->0.quote, tokens@, templates@)) ==> spec_marked_reset(
                    *db,
                    d->0.base,
                    d->0.quote,
                    d->0.pool_idx,
                )
            }),
            forall|k: int| 0 <= k < batches.swaps@.len() ==> ({
                let d = spec_decode_swap(#[trigger] batches.swaps@[k]);
                (d is Some && spec_allowed(d->0.pool_idx, d->0.base, d->0.quote, tokens@, templates@)) ==> spec_marked_dirty(
                    *db,
                    d->0.base,
                    d->0.quote,
                    d->0.pool_idx,
                )
            }),
            forall|k: int| 0 <= k < i ==> ({
                let d = spec_decode_mint_ranged(#[trigger] batches.mint_ranged@[k]);
                (d is Some && spec_allowed(d->0.pool_idx, d->0.base, d->0.quote, tokens@, templates@)) ==> spec_marked_dirty(
                    *db,
                    d->0.base,
                    d->0.quote,
                    d->0.pool_idx,
                )
            }),
            db.init_pools@ == spec_ingest_init_pool(old(db).init_pools@, batches.init_pools@, tokens@, templates@),
            db.swaps@ == spec_ingest_swap(old(db).swaps@, batches.swaps@, tokens@, templates@),
            db.mint_ambient@ == old(db).mint_ambient@,
            db.burn_ranged@ == old(db).burn_ranged@,
            db.burn_ambient@ == old(db).burn_ambient@,
            db.harvests@ == old(db).harvests@,
            db.mint_knockout@ == old(db).mint_knockout@,
            db.burn_knockout@ == old(db).burn_knockout@,
            db.withdraw_knockout@ == old(db).withdraw_knockout@,
            db.templates@ == old(db).templates@,
            db.revisions@ == old(db).revisions@,
            db.tracked_pools@ == old(db).tracked_pools@,
            db.prices@ == old(db).prices@,
            db.liquidity@ == old(db).liquidity@,
            db.curves@ == old(db).curves@,
            db.latest_block == old(db).latest_block,
            db.syncing == old(db).syncing,
        decreases batches.mint_ranged@.len() - i,
    {
        let log = &batches.mint_ranged[i];
        match MintRangedEvent::from_log(log) {
            Ok(e) => {
                if contains_u256(templates, &e.pool_idx) && (contains_address(tokens, &e.base)
                    || contains_address(tokens, &e.quote)) {
                    mark_pool_dirty(db, e.base, e.quote, e.pool_idx);
                    save_mint_ranged(db, e);
                }
            },
            Err(_) => {},
        }
        proof {
            assert(batches.mint_ranged@.skip(i as int)[0] == batches.mint_ranged@[i as int]);
            assert(batches.mint_ranged@.skip(i as int).drop_first() =~= batches.mint_ranged@.skip(i + 1));
        }
        i += 1;
    }
    proof {
        assert(batches.mint_ranged@.skip(batches.mint_ranged@.len() as int).len() == 0);
    }

    let mut i: usize = 0;
    proof {
        assert(batches.mint_ambient@.skip(0) =~= batches.mint_ambient@);
    }
    while i < batches.mint_ambient.len()
        invariant
            0 <= i <= batches.mint_ambient@.len(),
            spec_ingest_mint_ambient(old(db).mint_ambient@, batches.mint_ambient@, tokens@, templates@) == spec_ingest_mint_ambient(db.mint_ambient@, batches.mint_ambient@.skip(i as int), tokens@, templates@),
            forall|k: int| 0 <= k < batches.init_pools@.len() ==> ({
                let d = spec_decode_init_pool(#[trigger] batches.init_pools@[k]);
                (d is Some && spec_allowed(d->0.pool_idx, d->0.base, d->0.quote, tokens@, templates@)) ==> spec_marked_reset(
                    *db,
                    d->0.base,
                    d->0.quote,
                    d->0.pool_idx,
                )
            }),
            forall|k: int| 0 <= k < batches.swaps@.len() ==> ({
                let d = spec_decode_swap(#[trigger] batches.swaps@[k]);
                (d is Some && spec_allowed(d->0.pool_idx, d->0.base, d->0.quote, tokens@, templates@)) ==> spec_marked_dirty(
                    *db,
                    d->0.base,
                    d->0.quote,
                    d->0.pool_idx,
                )
            }),
            forall|k: int| 0 <= k < batches.mint_ranged@.len() ==> ({
                let d = spec_decode_mint_ranged(#[trigger] batches.mint_ranged@[k]);
                (d is Some && spec_allowed(d->0.pool_idx, d->0.base, d->0.quote, tokens@, templates@)) ==> spec_marked_dirty(
                    *db,
                    d->0.base,
                    d->0.quote,
                    d->0.pool_idx,
                )
            }),
            forall|k: int| 0 <= k < i ==> ({
                let d = spec_decode_mint_ambient(#[trigger] batches.mint_ambient@[k]);
                (d is Some && spec_allowed(d->0.pool_idx, d->0.base, d->0.quote, tokens@, templates@)) ==> spec_marked_dirty(
                    *db,
                    d->0.base,
                    d->0.quote,
                    d->0.pool_idx,
                )
            }),
            db.init_pools@ == spec_ingest_init_pool(old(db).init_pools@, batches.init_pools@, tokens@, templates@),
            db.swaps@ == spec_ingest_swap(old(db).swaps@, batches.swaps@, tokens@, templates@),
            db.mint_ranged@ == spec_ingest_mint_ranged(old(db).mint_ranged@, batches.mint_ranged@, tokens@, templates@),
            db.burn_ranged@ == old(db).burn_ranged@,
            db.burn_ambient@ == old(db).burn_ambient@,
            db.harvests@ == old(db).harvests@,
            db.mint_knockout@ == old(db).mint_knockout@,
            db.burn_knockout@ == old(db).burn_knockout@,
            db.withdraw_knockout@ == old(db).withdraw_knockout@,
            db.templates@ == old(db).templates@,
            db.revisions@ == old(db).revisions@,
            db.tracked_pools@ == old(db).tracked_pools@,
            db.prices@ == old(db).prices@,
            db.liquidity@ == old(db).liquidity@,
            db.curves@ == old(db).curves@,
            db.latest_block == old(db).latest_block,
            db.syncing == old(db).syncing,
        decreases batches.mint_ambient@.len() - i,
    {
        let log = &batches.mint_ambient[i];
        match MintAmbientEvent::from_log(log) {
            Ok(e) => {
                if contains_u256(templates, &e.pool_idx) && (contains_address(tokens, &e.base)
                    || contains_address(tokens, &e.quote)) {
                    mark_pool_dirty(db, e.base, e.quote, e.pool_idx);
                    save_mint_ambient(db, e);
                }
            },
            Err(_) => {},
        }
        proof {
            assert(batches.mint_ambient@.skip(i as int)[0] == batches.mint_ambient@[i as int]);
            assert(batches.mint_ambient@.skip(i as int).drop_first() =~= batches.mint_ambient@.skip(i + 1));
        }
        i += 1;
    }
    proof {
        assert(batches.mint_ambient@.skip(batches.mint_ambient@.len() as int).len() == 0);
    }

    let mut i: usize = 0;
    proof {
        assert(batches.burn_ranged@.skip(0) =~= batches.burn_ranged@);
    }
    while i < batches.burn_ranged.len()
        invariant
            0 <= i <= batches.burn_ranged@.len(),
            spec_ingest_burn_ranged(old(db).burn_ranged@, batches.burn_ranged@, tokens@, templates@) == spec_ingest_burn_ranged(db.burn_ranged@, batches.burn_ranged@.skip(i as int), tokens@, templates@),
            forall|k: int| 0 <= k < batches.init_pools@.len() ==> ({
                let d = spec_decode_init_pool(#[trigger] batches.init_pools@[k]);
                (d is Some && spec_allowed(d->0.pool_idx, d->0.base, d->0.quote, tokens@, templates@)) ==> spec_marked_reset(
                    *db,
                    d->0.base,
                    d->0.quote,
                    d->0.pool_idx,
                )
            }),
            forall|k: int| 0 <= k < batches.swaps@.len() ==> ({
                let d = spec_decode_swap(#[trigger] batches.swaps@[k]);
                (d is Some && spec_allowed(d->0.pool_idx, d->0.base, d->0.quote, tokens@, templates@)) ==> spec_marked_dirty(
                    *db,
                    d->0.base,
                    d->0.quote,
                    d->0.pool_idx,
                )
            }),
            forall|k: int| 0 <= k < batches.mint_ranged@.len() ==> ({
                let d = spec_decode_mint_ranged(#[trigger] batches.mint_ranged@[k]);
                (d is Some && spec_allowed(d->0.pool_idx, d->0.base, d->0.quote, tokens@, templates@)) ==> spec_marked_dirty(
                    *db,
                    d->0.base,
                    d->0.quote,
                    d->0.pool_idx,
                )
            }),
            forall|k: int| 0 <= k < batches.mint_ambient@.len() ==> ({
                let d = spec_decode_mint_ambient(#[trigger] batches.mint_ambient@[k]);
                (d is Some && spec_allowed(d->0.pool_idx, d->0.base, d->0.quote, tokens@, templates@)) ==> spec_marked_dirty(
                    *db,
                    d->0.base,
                    d->0.quote,
                    d->0.pool_idx,
                )
            }),
            forall|k: int| 0 <= k < i ==> ({
                let d = spec_decode_burn_ranged(#[trigger] batches.burn_ranged@[k]);
                (d is Some && spec_allowed(d->0.pool_idx, d->0.base, d->0.quote, tokens@, templates@)) ==> spec_marked_dirty(
                    *db,
                    d->0.base,
                    d->0.quote,
                    d->0.pool_idx,
                )
            }),
            db.init_pools@ == spec_ingest_init_pool(old(db).init_pools@, batches.init_pools@, tokens@, templates@),
            db.swaps@ == spec_ingest_swap(old(db).swaps@, batches.swaps@, tokens@, templates@),
            db.mint_ranged@ == spec_ingest_mint_ranged(old(db).mint_ranged@, batches.mint_ranged@, tokens@, templates@),
            db.mint_ambient@ == spec_ingest_mint_ambient(old(db).mint_ambient@, batches.mint_ambient@, tokens@, templates@),
            db.burn_ambient@ == old(db).burn_ambient@,
            db.harvests@ == old(db).harvests@,
            db.mint_knockout@ == old(db).mint_knockout@,
            db.burn_knockout@ == old(db).burn_knockout@,
            db.withdraw_knockout@ == old(db).withdraw_knockout@,
            db.templates@ == old(db).templates@,
            db.revisions@ == old(db).revisions@,
            db.tracked_pools@ == old(db).tracked_pools@,
            db.prices@ == old(db).prices@,
            db.liquidity@ == old(db).liquidity@,
            db.curves@ == old(db).curves@,
            db.latest_block == old(db).latest_block,
            db.syncing == old(db).syncing,
        decreases batches.burn_ranged@.len() - i,
    {
        let log = &batches.burn_ranged[i];
        match BurnRangedEvent::from_log(log) {
            Ok(e) => {
                if contains_u256(templates, &e.pool_idx) && (contains_address(tokens, &e.base)
                    || contains_address(tokens, &e.quote)) {
                    mark_pool_dirty(db, e.base, e.quote, e.pool_idx);
                    save_burn_ranged(db, e);
                }
            },
            Err(_) => {},
        }
        proof {
            assert(batches.burn_ranged@.skip(i as int)[0] == batches.burn_ranged@[i as int]);
            assert(batches.burn_ranged@.skip(i as int).drop_first() =~= batches.burn_ranged@.skip(i + 1));
        }
        i += 1;
    }
    proof {
        assert(batches.burn_ranged@.skip(batches.burn_ranged@.len() as int).len() == 0);
    }

    let mut i: usize = 0;
    proof {
        assert(batches.burn_ambient@.skip(0) =~= batches.burn_ambient@);
    }
    while i < batches.burn_ambient.len()
        invariant
            0 <= i <= batches.burn_ambient@.len(),
            spec_ingest_burn_ambient(old(db).burn_ambient@, batches.burn_ambient@, tokens@, templates@) == spec_ingest_burn_ambient(db.burn_ambient@, batches.burn_ambient@.skip(i as int), tokens@, templates@),
            forall|k: int| 0 <= k < batches.init_pools@.len() ==> ({
                let d = spec_decode_init_pool(#[trigger] batches.init_pools@[k]);
                (d is Some && spec_allowed(d->0.pool_idx, d->0.base, d->0.quote, tokens@, templates@)) ==> spec_marked_reset(
                    *db,
                    d->0.base,
                    d->0.quote,
                    d->0.pool_idx,
                )
            }),
            forall|k: int| 0 <= k < batches.swaps@.len() ==> ({
                let d = spec_decode_swap(#[trigger] batches.swaps@[k]);
                (d is Some && spec_allowed(d->0.pool_idx, d->0.base, d->0.quote, tokens@, templates@)) ==> spec_marked_dirty(
                    *db,
                    d->0.base,
                    d->0.quote,
                    d->0.pool_idx,
                )
            }),
            forall|k: int| 0 <= k < batches.mint_ranged@.len() ==> ({
                let d = spec_decode_mint_ranged(#[trigger] batches.mint_ranged@[k]);
                (d is Some && spec_allowed(d->0.pool_idx, d->0.base, d->0.quote, tokens@, templates@)) ==> spec_marked_dirty(
                    *db,
                    d->0.base,
                    d->0.quote,
                    d->0.pool_idx,
                )
            }),
            forall|k: int| 0 <= k < batches.mint_ambient@.len() ==> ({
                let d = spec_decode_mint_ambient(#[trigger] batches.mint_ambient@[k]);
                (d is Some && spec_allowed(d->0.pool_idx, d->0.base, d->0.quote, tokens@, templates@)) ==> spec_marked_dirty(
                    *db,
                    d->0.base,
                    d->0.quote,
                    d->0.pool_idx,
                )
            }),
            forall|k: int| 0 <= k < batches.burn_ranged@.len() ==> ({
                let d = spec_decode_burn_ranged(#[trigger] batches.burn_ranged@[k]);
                (d is Some && spec_allowed(d->0.pool_idx, d->0.base, d->0.quote, tokens@, templates@)) ==> spec_marked_dirty(
                    *db,
                    d->0.base,
                    d->0.quote,
                    d->0.pool_idx,
                )
            }),
            forall|k: int| 0 <= k < i ==> ({
                let d = spec_decode_burn_ambient(#[trigger] batches.burn_ambient@[k]);
                (d is Some && spec_allowed(d->0.pool_idx, d->0.base, d->0.quote, tokens@, templates@)) ==> spec_marked_dirty(
                    *db,
                    d->0.base,
                    d->0.quote,
                    d->0.pool_idx,
                )
            }),
            db.init_pools@ == spec_ingest_init_pool(old(db).init_pools@, batches.init_pools@, tokens@, templates@),
            db.swaps@ == spec_ingest_swap(old(db).swaps@, batches.swaps@, tokens@, templates@),
            db.mint_ranged@ == spec_ingest_mint_ranged(old(db).mint_ranged@, batches.mint_ranged@, tokens@, templates@),
            db.mint_ambient@ == spec_ingest_mint_ambient(old(db).mint_ambient@, batches.mint_ambient@, tokens@, templates@),
            db.burn_ranged@ == spec_ingest_burn_ranged(old(db).burn_ranged@, batches.burn_ranged@, tokens@, templates@),
            db.harvests@ == old(db).harvests@,
            db.mint_knockout@ == old(db).mint_knockout@,
            db.burn_knockout@ == old(db).burn_knockout@,
            db.withdraw_knockout@ == old(db).withdraw_knockout@,
            db.templates@ == old(db).templates@,
            db.revisions@ == old(db).revisions@,
            db.tracked_pools@ == old(db).tracked_pools@,
            db.prices@ == old(db).prices@,
            db.liquidity@ == old(db).liquidity@,
            db.curves@ == old(db).curves@,
            db.latest_block == old(db).latest_block,
            db.syncing == old(db).syncing,
        decreases batches.burn_ambient@.len() - i,
    {
        let log = &batches.burn_ambient[i];
        match BurnAmbientEvent::from_log(log) {
            Ok(e) => {
                if contains_u256(templates, &e.pool_idx) && (contains_address(tokens, &e.base)
                    || contains_address(tokens, &e.quote)) {
                    mark_pool_dirty(db, e.base, e.quote, e.pool_idx);
                    save_burn_ambient(db, e);
                }
            },
            Err(_) => {},
        }
        proof {
            assert(batches.burn_ambient@.skip(i as int)[0] == batches.burn_ambient@[i as int]);
            assert(batches.burn_ambient@.skip(i as int).drop_first() =~= batches.burn_ambient@.skip(i + 1));
        }
        i += 1;
    }
    proof {
        assert(batches.burn_ambient@.skip(batches.burn_ambient@.len() as int).len() == 0);
    }

    let mut i: usize = 0;
    proof {
        assert(batches.harvests@.skip(0) =~= batches.harvests@);
    }
    while i < batches.harvests.len()
        invariant
            0 <= i <= batches.harvests@.len(),
            spec_ingest_harvest(old(db).harvests@, batches.harvests@, tokens@, templates@) == spec_ingest_harvest(db.harvests@, batches.harvests@.skip(i as int), tokens@, templates@),
            forall|k: int| 0 <= k < batches.init_pools@.len() ==> ({
                let d = spec_decode_init_pool(#[trigger] batches.init_pools@[k]);
                (d is Some && spec_allowed(d->0.pool_idx, d->0.base, d->0.quote, tokens@, templates@)) ==> spec_marked_reset(
                    *db,
                    d->0.base,
                    d->0.quote,
                    d->0.pool_idx,
                )
            }),
            forall|k: int| 0 <= k < batches.swaps@.len() ==> ({
                let d = spec_decode_swap(#[trigger] batches.swaps@[k]);
                (d is Some && spec_allowed(d->0.pool_idx, d->0.base, d->0.quote, tokens@, templates@)) ==> spec_marked_dirty(
                    *db,
                    d->0.base,
                    d->0.quote,
                    d->0.pool_idx,
                )
            }),
            forall|k: int| 0 <= k < batches.mint_ranged@.len() ==> ({
                let d = spec_decode_mint_ranged(#[trigger] batches.mint_ranged@[k]);
                (d is Some && spec_allowed(d->0.pool_idx, d->0.base, d->0.quote, tokens@, templates@)) ==> spec_marked_dirty(
                    *db,
                    d->0.base,
                    d->0.quote,
                    d->0.pool_idx,
                )
            }),
            forall|k: int| 0 <= k < batches.mint_ambient@.len() ==> ({
                let d = spec_decode_mint_ambient(#[trigger] batches.mint_ambient@[k]);
                (d is Some && spec_allowed(d->0.pool_idx, d->0.base, d->0.quote, tokens@, templates@)) ==> spec_marked_dirty(
                    *db,
                    d->0.base,
                    d->0.quote,
                    d->0.pool_idx,
                )
            }),
            forall|k: int| 0 <= k < batches.burn_ranged@.len() ==> ({
                let d = spec_decode_burn_ranged(#[trigger] batches.burn_ranged@[k]);
                (d is Some && spec_allowed(d->0.pool_idx, d->0.base, d->0.quote, tokens@, templates@)) ==> spec_marked_dirty(
                    *db,
                    d->0.base,
                    d->0.quote,
                    d->0.pool_idx,
                )
            }),
            forall|k: int| 0 <= k < batches.burn_ambient@.len() ==> ({
                let d = spec_decode_burn_ambient(#[trigger] batches.burn_ambient@[k]);
                (d is Some && spec_allowed(d->0.pool_idx, d->0.base, d->0.quote, tokens@, templates@)) ==> spec_marked_dirty(
                    *db,
                    d->0.base,
                    d->0.quote,
                    d->0.pool_idx,
                )
            }),
            forall|k: int| 0 <= k < i ==> ({
                let d = spec_decode_harvest(#[trigger] batches.harvests@[k]);
                (d is Some && spec_allowed(d->0.pool_idx, d->0.base, d->0.quote, tokens@, templates@)) ==> spec_marked_dirty(
                    *db,
                    d->0.base,
                    d->0.quote,
                    d->0.pool_idx,
                )
            }),
            db.init_pools@ == spec_ingest_init_pool(old(db).init_pools@, batches.init_pools@, tokens@, templates@),
            db.swaps@ == spec_ingest_swap(old(db).swaps@, batches.swaps@, tokens@, templates@),
            db.mint_ranged@ == spec_ingest_mint_ranged(old(db).mint_ranged@, batches.mint_ranged@, tokens@, templates@),
            db.mint_ambient@ == spec_ingest_mint_ambient(old(db).mint_ambient@, batches.mint_ambient@, tokens@, templates@),
            db.burn_ranged@ == spec_ingest_burn_ranged(old(db).burn_ranged@, batches.burn_ranged@, tokens@, templates@),
            db.burn_ambient@ == spec_ingest_burn_ambient(old(db).burn_ambient@, batches.burn_ambient@, tokens@, templates@),
            db.mint_knockout@ == old(db).mint_knockout@,
            db.burn_knockout@ == old(db).burn_knockout@,
            db.withdraw_knockout@ == old(db).withdraw_knockout@,
            db.templates@ == old(db).templates@,
            db.revisions@ == old(db).revisions@,
            db.tracked_pools@ == old(db).tracked_pools@,
            db.prices@ == old(db).prices@,
            db.liquidity@ == old(db).liquidity@,
            db.curves@ == old(db).curves@,
            db.latest_block == old(db).latest_block,
            db.syncing == old(db).syncing,
        decreases batches.harvests@.len() - i,
    {
        let log = &batches.harvests[i];
        match HarvestEvent::from_log(log) {
            Ok(e) => {
                if contains_u256(templates, &e.pool_idx) && (contains_address(tokens, &e.base)
                    || contains_address(tokens, &e.quote)) {
                    mark_pool_dirty(db, e.base, e.quote, e.pool_idx);
                    save_harvest(db, e);
                }
            },
            Err(_) => {},
        }
        proof {
            assert(batches.harvests@.skip(i as int)[0] == batches.harvests@[i as int]);
            assert(batches.harvests@.skip(i as int).drop_first() =~= batches.harvests@.skip(i + 1));
        }
        i += 1;
    }
    proof {
        assert(batches.harvests@.skip(batches.harvests@.len() as int).len() == 0);
    }

    let mut i: usize = 0;
    proof {
        assert(batches.mint_knockout@.skip(0) =~= batches.mint_knockout@);
    }
    while i < batches.mint_knockout.len()
        invariant
            0 <= i <= batches.mint_knockout@.len(),
            spec_ingest_mint_knockout(old(db).mint_knockout@, batches.mint_knockout@, tokens@, templates@) == spec_ingest_mint_knockout(db.mint_knockout@, batches.mint_knockout@.skip(i as int), tokens@, templates@),
            forall|k: int| 0 <= k < batches.init_pools@.len() ==> ({
                let d = spec_decode_init_pool(#[trigger] batches.init_pools@[k]);
                (d is Some && spec_allowed(d->0.pool_idx, d->0.base, d->0.quote, tokens@, templates@)) ==> spec_marked_reset(
                    *db,
                    d->0.base,
                    d->0.quote,
                    d->0.pool_idx,
                )
            }),
            forall|k: int| 0 <= k < batches.swaps@.len() ==> ({
                let d = spec_decode_swap(#[trigger] batches.swaps@[k]);
                (d is Some && spec_allowed(d->0.pool_idx, d->0.base, d->0.quote, tokens@, templates@)) ==> spec_marked_dirty(
                    *db,
                    d->0.base,
                    d->0.quote,
                    d->0.pool_idx,
                )
            }),
            forall|k: int| 0 <= k < batches.mint_ranged@.len() ==> ({
                let d = spec_decode_mint_ranged(#[trigger] batches.mint_ranged@[k]);
                (d is Some && spec_allowed(d->0.pool_idx, d->0.base, d->0.quote, tokens@, templates@)) ==> spec_marked_dirty(
                    *db,
                    d->0.base,
                    d->0.quote,
                    d->0.pool_idx,
                )
            }),
            forall|k: int| 0 <= k < batches.mint_ambient@.len() ==> ({
                let d = spec_decode_mint_ambient(#[trigger] batches.mint_ambient@[k]);
                (d is Some && spec_allowed(d->0.pool_idx, d->0.base, d->0.quote, tokens@, templates@)) ==> spec_marked_dirty(
                    *db,
                    d->0.base,
                    d->0.quote,
                    d->0.pool_idx,
                )
            }),
            forall|k: int| 0 <= k < batches.burn_ranged@.len() ==> ({
                let d = spec_decode_burn_ranged(#[trigger] batches.burn_ranged@[k]);
                (d is Some && spec_allowed(d->0.pool_idx, d->0.base, d->0.quote, tokens@, templates@)) ==> spec_marked_dirty(
                    *db,
                    d->0.base,
                    d->0.quote,
                    d->0.pool_idx,
                )
            }),
            forall|k: int| 0 <= k < batches.burn_ambient@.len() ==> ({
                let d = spec_decode_burn_ambient(#[trigger] batches.burn_ambient@[k]);
                (d is Some && spec_allowed(d->0.pool_idx, d->0.base, d->0.quote, tokens@, templates@)) ==> spec_marked_dirty(
                    *db,
                    d->0.base,
                    d->0.quote,
                    d->0.pool_idx,
                )
            }),
            forall|k: int| 0 <= k < batches.harvests@.len() ==> ({
                let d = spec_decode_harvest(#[trigger] batches.harvests@[k]);
                (d is Some && spec_allowed(d->0.pool_idx, d->0.base, d->0.quote, tokens@, templates@)) ==> spec_marked_dirty(
                    *db,
                    d->0.base,
                    d->0.quote,
                    d->0.pool_idx,
                )
            }),
            forall|k: int| 0 <= k < i ==> ({
                let d = spec_decode_mint_knockout(#[trigger] batches.mint_knockout@[k]);
                (d is Some && spec_allowed(d->0.pool_idx, d->0.base, d->0.quote, tokens@, templates@)) ==> spec_marked_dirty(
                    *db,
                    d->0.base,
                    d->0.quote,
                    d->0.pool_idx,
                )
            }),
            db.init_pools@ == spec_ingest_init_pool(old(db).init_pools@, batches.init_pools@, tokens@, templates@),
            db.swaps@ == spec_ingest_swap(old(db).swaps@, batches.swaps@, tokens@, templates@),
            db.mint_ranged@ == spec_ingest_mint_ranged(old(db).mint_ranged@, batches.mint_ranged@, tokens@, templates@),
            db.mint_ambient@ == spec_ingest_mint_ambient(old(db).mint_ambient@, batches.mint_ambient@, tokens@, templates@),
            db.burn_ranged@ == spec_ingest_burn_ranged(old(db).burn_ranged@, batches.burn_ranged@, tokens@, templates@),
            db.burn_ambient@ == spec_ingest_burn_ambient(old(db).burn_ambient@, batches.burn_ambient@, tokens@, templates@),
            db.harvests@ == spec_ingest_harvest(old(db).harvests@, batches.harvests@, tokens@, templates@),
            db.burn_knockout@ == old(db).burn_knockout@,
            db.withdraw_knockout@ == old(db).withdraw_knockout@,
            db.templates@ == old(db).templates@,
            db.revisions@ == old(db).revisions@,
            db.tracked_pools@ == old(db).tracked_pools@,
            db.prices@ == old(db).prices@,
            db.liquidity@ == old(db).liquidity@,
            db.curves@ == old(db).curves@,
            db.latest_block == old(db).latest_block,
            db.syncing == old(db).syncing,
        decreases batches.mint_knockout@.len() - i,
    {
        let log = &batches.mint_knockout[i];
        match MintKnockoutEvent::from_log(log) {
            Ok(e) => {
                if contains_u256(templates, &e.pool_idx) && (contains_address(tokens, &e.base)
                    || contains_address(tokens, &e.quote)) {
                    mark_pool_dirty(db, e.base, e.quote, e.pool_idx);
                    save_mint_knockout(db, e);
                }
            },
            Err(_) => {},
        }
        proof {
            assert(batches.mint_knockout@.skip(i as int)[0] == batches.mint_knockout@[i as int]);
            assert(batches.mint_knockout@.skip(i as int).drop_first() =~= batches.mint_knockout@.skip(i + 1));
        }
        i += 1;
    }
    proof {
        assert(batches.mint_knockout@.skip(batches.mint_knockout@.len() as int).len() == 0);
    }

    let mut i: usize = 0;
    proof {
        assert(batches.burn_knockout@.skip(0) =~= batches.burn_knockout@);
    }
    while i < batches.burn_knockout.len()
        invariant
            0 <= i <= batches.burn_knockout@.len(),
            spec_ingest_burn_knockout(old(db).burn_knockout@, batches.burn_knockout@, tokens@, templates@) == spec_ingest_burn_knockout(db.burn_knockout@, batches.burn_knockout@.skip(i as int), tokens@, templates@),
            forall|k: int| 0 <= k < batches.init_pools@.len() ==> ({
                let d = spec_decode_init_pool(#[trigger] batches.init_pools@[k]);
                (d is Some && spec_allowed(d->0.pool_idx, d->0.base, d->0.quote, tokens@, templates@)) ==> spec_marked_reset(
                    *db,
                    d->0.base,
                    d->0.quote,
                    d->0.pool_idx,
                )
            }),
            forall|k: int| 0 <= k < batches.swaps@.len() ==> ({
                let d = spec_decode_swap(#[trigger] batches.swaps@[k]);
                (d is Some && spec_allowed(d->0.pool_idx, d->0.base, d->0.quote, tokens@, templates@)) ==> spec_marked_dirty(
                    *db,
                    d->0.base,
                    d->0.quote,
                    d->0.pool_idx,
                )
            }),
            forall|k: int| 0 <= k < batches.mint_ranged@.len() ==> ({
                let d = spec_decode_mint_ranged(#[trigger] batches.mint_ranged@[k]);
                (d is Some && spec_allowed(d->0.pool_idx, d->0.base, d->0.quote, tokens@, templates@)) ==> spec_marked_dirty(
                    *db,
                    d->0.base,
                    d->0.quote,
                    d->0.pool_idx,
                )
            }),
            forall|k: int| 0 <= k < batches.mint_ambient@.len() ==> ({
                let d = spec_decode_mint_ambient(#[trigger] batches.mint_ambient@[k]);
                (d is Some && spec_allowed(d->0.pool_idx, d->0.base, d->0.quote, tokens@, templates@)) ==> spec_marked_dirty(
                    *db,
                    d->0.base,
                    d->0.quote,
                    d->0.pool_idx,
                )
            }),
            forall|k: int| 0 <= k < batches.burn_ranged@.len() ==> ({
                let d = spec_decode_burn_ranged(#[trigger] batches.burn_ranged@[k]);
                (d is Some && spec_allowed(d->0.pool_idx, d->0.base, d->0.quote, tokens@, templates@)) ==> spec_marked_dirty(
                    *db,
                    d->0.base,
                    d->0.quote,
                    d->0.pool_idx,
                )
            }),
            forall|k: int| 0 <= k < batches.burn_ambient@.len() ==> ({
                let d = spec_decode_burn_ambient(#[trigger] batches.burn_ambient@[k]);
                (d is Some && spec_allowed(d->0.pool_idx, d->0.base, d->0.quote, tokens@, templates@)) ==> spec_marked_dirty(
                    *db,
                    d->0.base,
                    d->0.quote,
                    d->0.pool_idx,
                )
            }),
            forall|k: int| 0 <= k < batches.harvests@.len() ==> ({
                let d = spec_decode_harvest(#[trigger] batches.harvests@[k]);
                (d is Some && spec_allowed(d->0.pool_idx, d->0.base, d->0.quote, tokens@, templates@)) ==> spec_marked_dirty(
                    *db,
                    d->0.base,
                    d->0.quote,
                    d->0.pool_idx,
                )
            }),
            forall|k: int| 0 <= k < batches.mint_knockout@.len() ==> ({
                let d = spec_decode_mint_knockout(#[trigger] batches.mint_knockout@[k]);
                (d is Some && spec_allowed(d->0.pool_idx, d->0.base, d->0.quote, tokens@, templates@)) ==> spec_marked_dirty(
                    *db,
                    d->0.base,
                    d->0.quote,
                    d->0.pool_idx,
                )
            }),
            forall|k: int| 0 <= k < i ==> ({
                let d = spec_decode_burn_knockout(#[trigger] batches.burn_knockout@[k]);
                (d is Some && spec_allowed(d->0.pool_idx, d->0.base, d->0.quote, tokens@, templates@)) ==> spec_marked_dirty(
                    *db,
                    d->0.base,
                    d->0.quote,
                    d->0.pool_idx,
                )
            }),
            db.init_pools@ == spec_ingest_init_pool(old(db).init_pools@, batches.init_pools@, tokens@, templates@),
            db.swaps@ == spec_ingest_swap(old(db).swaps@, batches.swaps@, tokens@, templates@),
            db.mint_ranged@ == spec_ingest_mint_ranged(old(db).mint_ranged@, batches.mint_ranged@, tokens@, templates@),
            db.mint_ambient@ == spec_ingest_mint_ambient(old(db).mint_ambient@, batches.mint_ambient@, tokens@, templates@),
            db.burn_ranged@ == spec_ingest_burn_ranged(old(db).burn_ranged@, batches.burn_ranged@, tokens@, templates@),
            db.burn_ambient@ == spec_ingest_burn_ambient(old(db).burn_ambient@, batches.burn_ambient@, tokens@, templates@),
            db.harvests@ == spec_ingest_harvest(old(db).harvests@, batches.harvests@, tokens@, templates@),
            db.mint_knockout@ == spec_ingest_mint_knockout(old(db).mint_knockout@, batches.mint_knockout@, tokens@, templates@),
            db.withdraw_knockout@ == old(db).withdraw_knockout@,
            db.templates@ == old(db).templates@,
            db.revisions@ == old(db).revisions@,
            db.tracked_pools@ == old(db).tracked_pools@,
            db.prices@ == old(db).prices@,
            db.liquidity@ == old(db).liquidity@,
            db.curves@ == old(db).curves@,
            db.latest_block == old(db).latest_block,
            db.syncing == old(db).syncing,
        decreases batches.burn_knockout@.len() - i,
    {
        let log = &batches.burn_knockout[i];
        match BurnKnockoutEvent::from_log(log) {
            Ok(e) => {
                if contains_u256(templates, &e.pool_idx) && (contains_address(tokens, &e.base)
                    || contains_address(tokens, &e.quote)) {
                    mark_pool_dirty(db, e.base, e.quote, e.pool_idx);
                    save_burn_knockout(db, e);
                }
            },
            Err(_) => {},
        }
        proof {
            assert(batches.burn_knockout@.skip(i as int)[0] == batches.burn_knockout@[i as int]);
            assert(batches.burn_knockout@.skip(i as int).drop_first() =~= batches.burn_knockout@.skip(i + 1));
        }
        i += 1;
    }
    proof {
        assert(batches.burn_knockout@.skip(batches.burn_knockout@.len() as int).len() == 0);
    }

    let mut i: usize = 0;
    proof {
        assert(batches.withdraw_knockout@.skip(0) =~= batches.withdraw_knockout@);
    }
    while i < batches.withdraw_knockout.len()
        invariant
            0 <= i <= batches.withdraw_knockout@.len(),
            spec_ingest_withdraw_knockout(old(db).withdraw_knockout@, batches.withdraw_knockout@, tokens@, templates@) == spec_ingest_withdraw_knockout(db.withdraw_knockout@, batches.withdraw_knockout@.skip(i as int), tokens@, templates@),
            forall|k: int| 0 <= k < batches.init_pools@.len() ==> ({
                let d = spec_decode_init_pool(#[trigger] batches.init_pools@[k]);
                (d is Some && spec_allowed(d->0.pool_idx, d->0.base, d->0.quote, tokens@, templates@)) ==> spec_marked_reset(
                    *db,
                    d->0.base,
                    d->0.quote,
                    d->0.pool_idx,
                )
            }),
            forall|k: int| 0 <= k < batches.swaps@.len() ==> ({
                let d = spec_decode_swap(#[trigger] batches.swaps@[k]);
                (d is Some && spec_allowed(d->0.pool_idx, d->0.base, d->0.quote, tokens@, templates@)) ==> spec_marked_dirty(
                    *db,
                    d->0.base,
                    d->0.quote,
                    d->0.pool_idx,
                )
            }),
            forall|k: int| 0 <= k < batches.mint_ranged@.len() ==> ({
                let d = spec_decode_mint_ranged(#[trigger] batches.mint_ranged@[k]);
                (d is Some && spec_allowed(d->0.pool_idx, d->0.base, d->0.quote, tokens@, templates@)) ==> spec_marked_dirty(
                    *db,
                    d->0.base,
                    d->0.quote,
                    d->0.pool_idx,
                )
            }),
            forall|k: int| 0 <= k < batches.mint_ambient@.len() ==> ({
                let d = spec_decode_mint_ambient(#[trigger] batches.mint_ambient@[k]);
                (d is Some && spec_allowed(d->0.pool_idx, d->0.base, d->0.quote, tokens@, templates@)) ==> spec_marked_dirty(
                    *db,
                    d->0.base,
                    d->0.quote,
                    d->0.pool_idx,
                )
            }),
            forall|k: int| 0 <= k < batches.burn_ranged@.len() ==> ({
                let d = spec_decode_burn_ranged(#[trigger] batches.burn_ranged@[k]);
                (d is Some && spec_allowed(d->0.pool_idx, d->0.base, d->0.quote, tokens@, templates@)) ==> spec_marked_dirty(
                    *db,
                    d->0.base,
                    d->0.quote,
                    d->0.pool_idx,
                )
            }),
            forall|k: int| 0 <= k < batches.burn_ambient@.len() ==> ({
                let d = spec_decode_burn_ambient(#[trigger] batches.burn_ambient@[k]);
                (d is Some && spec_allowed(d->0.pool_idx, d->0.base, d->0.quote, tokens@, templates@)) ==> spec_marked_dirty(
                    *db,
                    d->0.base,
                    d->0.quote,
                    d->0.pool_idx,
                )
            }),
            forall|k: int| 0 <= k < batches.harvests@.len() ==> ({
                let d = spec_decode_harvest(#[trigger] batches.harvests@[k]);
                (d is Some && spec_allowed(d->0.pool_idx, d->0.base, d->0.quote, tokens@, templates@)) ==> spec_marked_dirty(
                    *db,
                    d->0.base,
                    d->0.quote,
                    d->0.pool_idx,
                )
            }),
            forall|k: int| 0 <= k < batches.mint_knockout@.len() ==> ({
                let d = spec_decode_mint_knockout(#[trigger] batches.mint_knockout@[k]);
                (d is Some && spec_allowed(d->0.pool_idx, d->0.base, d->0.quote, tokens@, templates@)) ==> spec_marked_dirty(
                    *db,
                    d->0.base,
                    d->0.quote,
                    d->0.pool_idx,
                )
            }),
            forall|k: int| 0 <= k < batches.burn_knockout@.len() ==> ({
                let d = spec_decode_burn_knockout(#[trigger] batches.burn_knockout@[k]);
                (d is Some && spec_allowed(d->0.pool_idx, d->0.base, d->0.quote, tokens@, templates@)) ==> spec_marked_dirty(
                    *db,
                    d->0.base,
                    d->0.quote,
                    d->0.pool_idx,
                )
            }),
            forall|k: int| 0 <= k < i ==> ({
                let d = spec_decode_withdraw_knockout(#[trigger] batches.withdraw_knockout@[k]);
                (d is Some && spec_allowed(d->0.pool_idx, d->0.base, d->0.quote, tokens@, templates@)) ==> spec_marked_dirty(
                    *db,
                    d->0.base,
                    d->0.quote,
                    d->0.pool_idx,
                )
            }),
            db.init_pools@ == spec_ingest_init_pool(old(db).init_pools@, batches.init_pools@, tokens@, templates@),
            db.swaps@ == spec_ingest_swap(old(db).swaps@, batches.swaps@, tokens@, templates@),
            db.mint_ranged@ == spec_ingest_mint_ranged(old(db).mint_ranged@, batches.mint_ranged@, tokens@, templates@),
            db.mint_ambient@ == spec_ingest_mint_ambient(old(db).mint_ambient@, batches.mint_ambient@, tokens@, templates@),
            db.burn_ranged@ == spec_ingest_burn_ranged(old(db).burn_ranged@, batches.burn_ranged@, tokens@, templates@),
            db.burn_ambient@ == spec_ingest_burn_ambient(old(db).burn_ambient@, batches.burn_ambient@, tokens@, templates@),
            db.harvests@ == spec_ingest_harvest(old(db).harvests@, batches.harvests@, tokens@, templates@),
            db.mint_knockout@ == spec_ingest_mint_knockout(old(db).mint_knockout@, batches.mint_knockout@, tokens@, templates@),
            db.burn_knockout@ == spec_ingest_burn_knockout(old(db).burn_knockout@, batches.burn_knockout@, tokens@, templates@),
            db.templates@ == old(db).templates@,
            db.revisions@ == old(db).revisions@,
            db.tracked_pools@ == old(db).tracked_pools@,
            db.prices@ == old(db).prices@,
            db.liquidity@ == old(db).liquidity@,
            db.curves@ == old(db).curves@,
            db.latest_block == old(db).latest_block,
            db.syncing == old(db).syncing,
        decreases batches.withdraw_knockout@.len() - i,
    {
        let log = &batches.withdraw_knockout[i];
        match WithdrawKnockoutEvent::from_log(log) {
            Ok(e) => {
                if contains_u256(templates, &e.pool_idx) && (contains_address(tokens, &e.base)
                    || contains_address(tokens, &e.quote)) {
                    mark_pool_dirty(db, e.base, e.quote, e.pool_idx);
                    save_withdraw_knockout(db, e);
                }
            },
            Err(_) => {},
        }
        proof {
            assert(batches.withdraw_knockout@.skip(i as int)[0] == batches.withdraw_knockout@[i as int]);
            assert(batches.withdraw_knockout@.skip(i as int).drop_first() =~= batches.withdraw_knockout@.skip(i + 1));
        }
        i += 1;
    }
    proof {
        assert(batches.withdraw_knockout@.skip(batches.withdraw_knockout@.len() as int).len() == 0);
    }

}

} // verus!
