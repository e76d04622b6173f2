//! The committed store: every decoded record, the derived pool state, and
//! the two scalar keys that survive restarts.
//!
//! Each record family is kept keyed the way the persistent layout keys it:
//! writing a record with the key of a stored one replaces it, so replaying
//! an overlapping block window is idempotent.  The store itself lives in
//! memory; whatever persists it outside the library replays its contents
//! back through these same operations.

use vstd::prelude::*;
use vstd::multiset::Multiset;
use crate::address::Address;
use crate::events::BurnAmbientEvent;
use crate::events::BurnKnockoutEvent;
use crate::events::BurnRangedEvent;
use crate::events::HarvestEvent;
use crate::events::IndexerError;
use crate::events::InitPoolEvent;
use crate::events::MintAmbientEvent;
use crate::events::MintKnockoutEvent;
use crate::events::MintRangedEvent;
use crate::events::PoolRevisionEvent;
use crate::events::SwapEvent;
use crate::tracking::handle_init_pool;
use crate::tracking::handle_update;
use crate::tracking::DirtyPoolTracker;
use crate::tracking::Pool;
use crate::tracking::TrackedPool;
use crate::u256::U256;
use crate::updates::PoolUpdateEvent;

verus! {

/// A stored template, keyed by its pool index.
#[derive(Clone, Copy, Debug, PartialEq, Eq, Structural, Hash)]
pub struct TemplateEntry {
    pub pool_idx: U256,
    pub template: Pool,
}

/// The latest authoritative curve reading of a pool, as the query contract
/// reports it.
#[derive(Clone, Copy, Debug, PartialEq, Eq, Structural, Hash)]
pub struct CurveState {
    pub price_root: u128,
    pub ambient_seeds: u128,
    pub conc_liq: u128,
}

impl CurveState {
    pub fn is_zero(&self) -> (r: bool)
        ensures
            r == (self.price_root == 0 && self.ambient_seeds == 0 && self.conc_liq == 0),
    {
        self.price_root == 0 && self.ambient_seeds == 0 && self.conc_liq == 0
    }
}

/// A stored per-pool scalar reading, keyed by the pool triple.
#[derive(Clone, Copy, Debug, PartialEq, Eq, Structural, Hash)]
pub struct PoolScalarEntry {
    pub base: Address,
    pub quote: Address,
    pub pool_idx: U256,
    pub value: u128,
}

/// A stored per-pool curve reading, keyed by the pool triple.
#[derive(Clone, Copy, Debug, PartialEq, Eq, Structural, Hash)]
pub struct PoolCurveEntry {
    pub base: Address,
    pub quote: Address,
    pub pool_idx: U256,
    pub curve: CurveState,
}

/// The in-memory committed store.
pub struct Db {
    pub init_pools: Vec<InitPoolEvent>,
    pub templates: Vec<TemplateEntry>,
    pub swaps: Vec<SwapEvent>,
    pub revisions: Vec<PoolRevisionEvent>,
    pub mint_ranged: Vec<MintRangedEvent>,
    pub burn_ranged: Vec<BurnRangedEvent>,
    pub harvests: Vec<HarvestEvent>,
    pub mint_ambient: Vec<MintAmbientEvent>,
    pub burn_ambient: Vec<BurnAmbientEvent>,
    pub mint_knockout: Vec<MintKnockoutEvent>,
    pub burn_knockout: Vec<BurnKnockoutEvent>,
    pub withdraw_knockout: Vec<WithdrawKnockoutEvent>,
    pub dirty_pools: Vec<DirtyPoolTracker>,
    pub tracked_pools: Vec<TrackedPool>,
    pub latest_block: Option<U256>,
    pub syncing: bool,
    pub prices: Vec<PoolScalarEntry>,
    pub liquidity: Vec<PoolScalarEntry>,
    pub curves: Vec<PoolCurveEntry>,
}

use crate::events::WithdrawKnockoutEvent;

impl Db {
    /// An empty store.
    pub fn new() -> (r: Db)
        ensures
            r.init_pools@ =~= Seq::empty(),
            r.templates@ =~= Seq::empty(),
            r.swaps@ =~= Seq::empty(),
            r.revisions@ =~= Seq::empty(),
            r.mint_ranged@ =~= Seq::empty(),
            r.burn_ranged@ =~= Seq::empty(),
            r.harvests@ =~= Seq::empty(),
            r.mint_ambient@ =~= Seq::empty(),
            r.burn_ambient@ =~= Seq::empty(),
            r.mint_knockout@ =~= Seq::empty(),
            r.burn_knockout@ =~= Seq::empty(),
            r.withdraw_knockout@ =~= Seq::empty(),
            r.dirty_pools@ =~= Seq::empty(),
            r.tracked_pools@ =~= Seq::empty(),
            r.latest_block is None,
            !r.syncing,
            r.prices@ =~= Seq::empty(),
            r.liquidity@ =~= Seq::empty(),
            r.curves@ =~= Seq::empty(),
    {
        Db {
            init_pools: Vec::new(),
            templates: Vec::new(),
            swaps: Vec::new(),
            revisions: Vec::new(),
            mint_ranged: Vec::new(),
            burn_ranged: Vec::new(),
            harvests: Vec::new(),
            mint_ambient: Vec::new(),
            burn_ambient: Vec::new(),
            mint_knockout: Vec::new(),
            burn_knockout: Vec::new(),
            withdraw_knockout: Vec::new(),
            dirty_pools: Vec::new(),
            tracked_pools: Vec::new(),
            latest_block: None,
            syncing: false,
            prices: Vec::new(),
            liquidity: Vec::new(),
            curves: Vec::new(),
        }
    }
}

/// The latest searched block, if one was ever recorded.
pub fn get_latest_searched_block(db: &Db) -> (r: Option<U256>)
    ensures
        r == db.latest_block,
{
    db.latest_block
}

/// Persists the cursor.
pub fn save_latest_searched_block(db: &mut Db, block: U256)
    ensures
        final(db).latest_block == Some(block),
        same_records(*old(db), *final(db)),
        final(db).syncing == old(db).syncing,
{
    db.latest_block = Some(block);
}

/// The stored records, derived state and per-pool readings are untouched.
pub open spec fn same_records(a: Db, b: Db) -> bool {
    &&& b.init_pools@ == a.init_pools@
    &&& b.templates@ == a.templates@
    &&& b.swaps@ == a.swaps@
    &&& b.revisions@ == a.revisions@
    &&& b.mint_ranged@ == a.mint_ranged@
    &&& b.burn_ranged@ == a.burn_ranged@
    &&& b.harvests@ == a.harvests@
    &&& b.mint_ambient@ == a.mint_ambient@
    &&& b.burn_ambient@ == a.burn_ambient@
    &&& b.mint_knockout@ == a.mint_knockout@
    &&& b.burn_knockout@ == a.burn_knockout@
    &&& b.withdraw_knockout@ == a.withdraw_knockout@
    &&& b.dirty_pools@ == a.dirty_pools@
    &&& b.tracked_pools@ == a.tracked_pools@
    &&& b.prices@ == a.prices@
    &&& b.liquidity@ == a.liquidity@
    &&& b.curves@ == a.curves@
}

/// The syncing flag; false until something sets it.
pub fn get_syncing(db: &Db) -> (r: bool)
    ensures
        r == db.syncing,
{
    db.syncing
}

/// Persists the syncing flag.
pub fn save_syncing(db: &mut Db, syncing: bool)
    ensures
        final(db).syncing == syncing,
        final(db).latest_block == old(db).latest_block,
        same_records(*old(db), *final(db)),
{
    db.syncing = syncing;
}

/// Whether two records occupy the same slot of the persistent layout.
pub open spec fn spec_init_pool_same_key(a: InitPoolEvent, b: InitPoolEvent) -> bool {
    a.base == b.base && a.quote == b.quote && a.pool_idx == b.pool_idx
}

/// Stores a record, replacing the record with its key if one is held.
pub fn save_init_pool(db: &mut Db, e: InitPoolEvent)
    ensures
        final(db).init_pools@ == old(db).init_pools@.filter(|v: InitPoolEvent| !spec_init_pool_same_key(v, e)).push(e),
        final(db).templates@ == old(db).templates@,
        final(db).swaps@ == old(db).swaps@,
        final(db).revisions@ == old(db).revisions@,
        final(db).mint_ranged@ == old(db).mint_ranged@,
        final(db).burn_ranged@ == old(db).burn_ranged@,
        final(db).harvests@ == old(db).harvests@,
        final(db).mint_ambient@ == old(db).mint_ambient@,
        final(db).burn_ambient@ == old(db).burn_ambient@,
        final(db).mint_knockout@ == old(db).mint_knockout@,
        final(db).burn_knockout@ == old(db).burn_knockout@,
        final(db).withdraw_knockout@ == old(db).withdraw_knockout@,
        final(db).dirty_pools@ == old(db).dirty_pools@,
        final(db).tracked_pools@ == old(db).tracked_pools@,
        final(db).prices@ == old(db).prices@,
        final(db).liquidity@ == old(db).liquidity@,
        final(db).curves@ == old(db).curves@,
        final(db).latest_block == old(db).latest_block,
        final(db).syncing == old(db).syncing,
{
    let mut res: Vec<InitPoolEvent> = Vec::new();
    let mut i: usize = 0;
    while i < db.init_pools.len()
        invariant
            0 <= i <= db.init_pools@.len(),
            res@ == db.init_pools@.take(i as int).filter(|v: InitPoolEvent| !spec_init_pool_same_key(v, e)),
        decreases db.init_pools@.len() - i,
    {
        let v = db.init_pools[i];
        let keep = !(v.base == e.base && v.quote == e.quote && v.pool_idx == e.pool_idx);
        if keep {
            res.push(v);
        }
        proof {
            reveal_with_fuel(Seq::<InitPoolEvent>::filter, 3);
            let pre = db.init_pools@.take(i as int);
            let post = db.init_pools@.take(i + 1);
            assert(post.drop_last() =~= pre);
            assert(post.last() == v);
            assert(res@ =~= post.filter(|v: InitPoolEvent| !spec_init_pool_same_key(v, e)));
        }
        i += 1;
    }
    proof {
        assert(db.init_pools@.take(db.init_pools@.len() as int) =~= db.init_pools@);
    }
    res.push(e);
    db.init_pools = res;
}

/// Every stored record of this family, in storage order.
pub fn get_init_pools(db: &Db) -> (r: Vec<InitPoolEvent>)
    ensures
        r@ == db.init_pools@,
{
    let mut res: Vec<InitPoolEvent> = Vec::new();
    let mut i: usize = 0;
    while i < db.init_pools.len()
        invariant
            0 <= i <= db.init_pools@.len(),
            res@ == db.init_pools@.take(i as int),
        decreases db.init_pools@.len() - i,
    {
        res.push(db.init_pools[i]);
        proof {
            assert(res@ =~= db.init_pools@.take(i + 1));
        }
        i += 1;
    }
    proof {
        assert(db.init_pools@.take(db.init_pools@.len() as int) =~= db.init_pools@);
    }
    res
}

/// The first stored creation record of a pool triple.
pub open spec fn spec_first_init(
    s: Seq<InitPoolEvent>,
    base: Address,
    quote: Address,
    pool_idx: U256,
) -> Option<InitPoolEvent>
    decreases s.len(),
{
    if s.len() == 0 {
        None
    } else if s[0].base == base && s[0].quote == quote && s[0].pool_idx == pool_idx {
        Some(s[0])
    } else {
        spec_first_init(s.drop_first(), base, quote, pool_idx)
    }
}

proof fn lemma_first_init_skip(
    s: Seq<InitPoolEvent>,
    i: int,
    base: Address,
    quote: Address,
    pool_idx: U256,
)
    requires
        0 <= i <= s.len(),
        forall|j: int|
            0 <= j < i ==> !((#[trigger] s[j]).base == base && s[j].quote == quote && s[j].pool_idx
                == pool_idx),
    ensures
        spec_first_init(s, base, quote, pool_idx) == spec_first_init(
            s.skip(i),
            base,
            quote,
            pool_idx,
        ),
    decreases i,
{
    if i == 0 {
        assert(s.skip(0) =~= s);
    } else {
        assert(s.skip(i) =~= s.drop_first().skip(i - 1));
        assert(forall|j: int|
            0 <= j < i - 1 ==> !((#[trigger] s.drop_first()[j]).base == base
                && s.drop_first()[j].quote == quote && s.drop_first()[j].pool_idx == pool_idx));
        lemma_first_init_skip(s.drop_first(), i - 1, base, quote, pool_idx);
    }
}

/// Looks the creation record of a pool triple up.
pub fn get_init_pool(db: &Db, base: Address, quote: Address, pool_idx: U256) -> (r: Option<
    InitPoolEvent,
>)
    ensures
        r == spec_first_init(db.init_pools@, base, quote, pool_idx),
{
    let mut i: usize = 0;
    while i < db.init_pools.len()
        invariant
            0 <= i <= db.init_pools@.len(),
            forall|j: int|
                0 <= j < i ==> !((#[trigger] db.init_pools@[j]).base == base
                    && db.init_pools@[j].quote == quote && db.init_pools@[j].pool_idx == pool_idx),
        decreases db.init_pools@.len() - i,
    {
        let v = db.init_pools[i];
        if v.base == base && v.quote == quote && v.pool_idx == pool_idx {
            proof {
                lemma_first_init_skip(db.init_pools@, i as int, base, quote, pool_idx);
                assert(db.init_pools@.skip(i as int)[0] == v);
            }
            return Some(v);
        }
        i += 1;
    }
    proof {
        lemma_first_init_skip(db.init_pools@, db.init_pools@.len() as int, base, quote, pool_idx);
        assert(db.init_pools@.skip(db.init_pools@.len() as int).len() == 0);
    }
    None
}

/// Whether two records occupy the same slot of the persistent layout.
pub open spec fn spec_swap_same_key(a: SwapEvent, b: SwapEvent) -> bool {
    a.user == b.user && a.base == b.base && a.quote == b.quote && a.pool_idx == b.pool_idx && a.block_height == b.block_height && a.index == b.index
}

/// Stores a record, replacing the record with its key if one is held.
pub fn save_swap(db: &mut Db, e: SwapEvent)
    ensures
        final(db).swaps@ == old(db).swaps@.filter(|v: SwapEvent| !spec_swap_same_key(v, e)).push(e),
        final(db).init_pools@ == old(db).init_pools@,
        final(db).templates@ == old(db).templates@,
        final(db).revisions@ == old(db).revisions@,
        final(db).mint_ranged@ == old(db).mint_ranged@,
        final(db).burn_ranged@ == old(db).burn_ranged@,
        final(db).harvests@ == old(db).harvests@,
        final(db).mint_ambient@ == old(db).mint_ambient@,
        final(db).burn_ambient@ == old(db).burn_ambient@,
        final(db).mint_knockout@ == old(db).mint_knockout@,
        final(db).burn_knockout@ == old(db).burn_knockout@,
        final(db).withdraw_knockout@ == old(db).withdraw_knockout@,
        final(db).dirty_pools@ == old(db).dirty_pools@,
        final(db).tracked_pools@ == old(db).tracked_pools@,
        final(db).prices@ == old(db).prices@,
        final(db).liquidity@ == old(db).liquidity@,
        final(db).curves@ == old(db).curves@,
        final(db).latest_block == old(db).latest_block,
        final(db).syncing == old(db).syncing,
{
    let mut res: Vec<SwapEvent> = Vec::new();
    let mut i: usize = 0;
    while i < db.swaps.len()
        invariant
            0 <= i <= db.swaps@.len(),
            res@ == db.swaps@.take(i as int).filter(|v: SwapEvent| !spec_swap_same_key(v, e)),
        decreases db.swaps@.len() - i,
    {
        let v = db.swaps[i];
        let keep = !(v.user == e.user && v.base == e.base && v.quote == e.quote && v.pool_idx == e.pool_idx && v.block_height == e.block_height && v.index == e.index);
        if keep {
            res.push(v);
        }
        proof {
            reveal_with_fuel(Seq::<SwapEvent>::filter, 3);
            let pre = db.swaps@.take(i as int);
            let post = db.swaps@.take(i + 1);
            assert(post.drop_last() =~= pre);
            assert(post.last() == v);
            assert(res@ =~= post.filter(|v: SwapEvent| !spec_swap_same_key(v, e)));
        }
        i += 1;
    }
    proof {
        assert(db.swaps@.take(db.swaps@.len() as int) =~= db.swaps@);
    }
    res.push(e);
    db.swaps = res;
}

/// Every stored record of this family, in storage order.
pub fn get_all_swap(db: &Db) -> (r: Vec<SwapEvent>)
    ensures
        r@ == db.swaps@,
{
    let mut res: Vec<SwapEvent> = Vec::new();
    let mut i: usize = 0;
    while i < db.swaps.len()
        invariant
            0 <= i <= db.swaps@.len(),
            res@ == db.swaps@.take(i as int),
        decreases db.swaps@.len() - i,
    {
        res.push(db.swaps[i]);
        proof {
            assert(res@ =~= db.swaps@.take(i + 1));
        }
        i += 1;
    }
    proof {
        assert(db.swaps@.take(db.swaps@.len() as int) =~= db.swaps@);
    }
    res
}

/// The records strictly after `block`, in storage order.
pub open spec fn spec_swap_after_block(s: Seq<SwapEvent>, block: U256) -> Seq<SwapEvent> {
    s.filter((|v: SwapEvent| v.block_height.as_nat() > block.as_nat()))
}

/// The stored records that sit strictly after `block`.
pub fn get_all_swap_after_block(db: &Db, block: &U256) -> (r: Vec<SwapEvent>)
    ensures
        r@ == spec_swap_after_block(db.swaps@, *block),
{
    let mut res: Vec<SwapEvent> = Vec::new();
    let mut i: usize = 0;
    while i < db.swaps.len()
        invariant
            0 <= i <= db.swaps@.len(),
            res@ == spec_swap_after_block(db.swaps@.take(i as int), *block),
        decreases db.swaps@.len() - i,
    {
        let v = db.swaps[i];
        if block.lt(&v.block_height) {
            res.push(v);
        }
        proof {
            reveal_with_fuel(Seq::<SwapEvent>::filter, 3);
            let pre = db.swaps@.take(i as int);
            let post = db.swaps@.take(i + 1);
            assert(post.drop_last() =~= pre);
            assert(post.last() == v);
            assert(res@ =~= spec_swap_after_block(post, *block));
        }
        i += 1;
    }
    proof {
        assert(db.swaps@.take(db.swaps@.len() as int) =~= db.swaps@);
    }
    res
}

/// Whether two records occupy the same slot of the persistent layout.
pub open spec fn spec_revision_same_key(a: PoolRevisionEvent, b: PoolRevisionEvent) -> bool {
    a.base == b.base && a.quote == b.quote && a.pool_idx == b.pool_idx && a.block_height == b.block_height && a.index == b.index
}

/// Stores a record, replacing the record with its key if one is held.
pub fn save_revision(db: &mut Db, e: PoolRevisionEvent)
    ensures
        final(db).revisions@ == old(db).revisions@.filter(|v: PoolRevisionEvent| !spec_revision_same_key(v, e)).push(e),
        final(db).init_pools@ == old(db).init_pools@,
        final(db).templates@ == old(db).templates@,
        final(db).swaps@ == old(db).swaps@,
        final(db).mint_ranged@ == old(db).mint_ranged@,
        final(db).burn_ranged@ == old(db).burn_ranged@,
        final(db).harvests@ == old(db).harvests@,
        final(db).mint_ambient@ == old(db).mint_ambient@,
        final(db).burn_ambient@ == old(db).burn_ambient@,
        final(db).mint_knockout@ == old(db).mint_knockout@,
        final(db).burn_knockout@ == old(db).burn_knockout@,
        final(db).withdraw_knockout@ == old(db).withdraw_knockout@,
        final(db).dirty_pools@ == old(db).dirty_pools@,
        final(db).tracked_pools@ == old(db).tracked_pools@,
        final(db).prices@ == old(db).prices@,
        final(db).liquidity@ == old(db).liquidity@,
        final(db).curves@ == old(db).curves@,
        final(db).latest_block == old(db).latest_block,
        final(db).syncing == old(db).syncing,
{
    let mut res: Vec<PoolRevisionEvent> = Vec::new();
    let mut i: usize = 0;
    while i < db.revisions.len()
        invariant
            0 <= i <= db.revisions@.len(),
            res@ == db.revisions@.take(i as int).filter(|v: PoolRevisionEvent| !spec_revision_same_key(v, e)),
        decreases db.revisions@.len() - i,
    {
        let v = db.revisions[i];
        let keep = !(v.base == e.base && v.quote == e.quote && v.pool_idx == e.pool_idx && v.block_height == e.block_height && v.index == e.index);
        if keep {
            res.push(v);
        }
        proof {
            reveal_with_fuel(Seq::<PoolRevisionEvent>::filter, 3);
            let pre = db.revisions@.take(i as int);
            let post = db.revisions@.take(i + 1);
            assert(post.drop_last() =~= pre);
            assert(post.last() == v);
            assert(res@ =~= post.filter(|v: PoolRevisionEvent| !spec_revision_same_key(v, e)));
        }
        i += 1;
    }
    proof {
        assert(db.revisions@.take(db.revisions@.len() as int) =~= db.revisions@);
    }
    res.push(e);
    db.revisions = res;
}

/// Every stored record of this family, in storage order.
pub fn get_all_revision(db: &Db) -> (r: Vec<PoolRevisionEvent>)
    ensures
        r@ == db.revisions@,
{
    let mut res: Vec<PoolRevisionEvent> = Vec::new();
    let mut i: usize = 0;
    while i < db.revisions.len()
        invariant
            0 <= i <= db.revisions@.len(),
            res@ == db.revisions@.take(i as int),
        decreases db.revisions@.len() - i,
    {
        res.push(db.revisions[i]);
        proof {
            assert(res@ =~= db.revisions@.take(i + 1));
        }
        i += 1;
    }
    proof {
        assert(db.revisions@.take(db.revisions@.len() as int) =~= db.revisions@);
    }
    res
}

/// The records strictly after `block`, in storage order.
pub open spec fn spec_revision_after_block(s: Seq<PoolRevisionEvent>, block: U256) -> Seq<PoolRevisionEvent> {
    s.filter((|v: PoolRevisionEvent| v.block_height.as_nat() > block.as_nat()))
}

/// The stored records that sit strictly after `block`.
pub fn get_all_revision_after_block(db: &Db, block: &U256) -> (r: Vec<PoolRevisionEvent>)
    ensures
        r@ == spec_revision_after_block(db.revisions@, *block),
{
    let mut res: Vec<PoolRevisionEvent> = Vec::new();
    let mut i: usize = 0;
    while i < db.revisions.len()
        invariant
            0 <= i <= db.revisions@.len(),
            res@ == spec_revision_after_block(db.revisions@.take(i as int), *block),
        decreases db.revisions@.len() - i,
    {
        let v = db.revisions[i];
        if block.lt(&v.block_height) {
            res.push(v);
        }
        proof {
            reveal_with_fuel(Seq::<PoolRevisionEvent>::filter, 3);
            let pre = db.revisions@.take(i as int);
            let post = db.revisions@.take(i + 1);
            assert(post.drop_last() =~= pre);
            assert(post.last() == v);
            assert(res@ =~= spec_revision_after_block(post, *block));
        }
        i += 1;
    }
    proof {
        assert(db.revisions@.take(db.revisions@.len() as int) =~= db.revisions@);
    }
    res
}

/// Whether two records occupy the same slot of the persistent layout.
pub open spec fn spec_mint_ranged_same_key(a: MintRangedEvent, b: MintRangedEvent) -> bool {
    a.user == b.user && a.base == b.base && a.quote == b.quote && a.pool_idx == b.pool_idx && a.bid_tick == b.bid_tick && a.ask_tick == b.ask_tick && a.block_height == b.block_height && a.index == b.index
}

/// Stores a record, replacing the record with its key if one is held.
pub fn save_mint_ranged(db: &mut Db, e: MintRangedEvent)
    ensures
        final(db).mint_ranged@ == old(db).mint_ranged@.filter(|v: MintRangedEvent| !spec_mint_ranged_same_key(v, e)).push(e),
        final(db).init_pools@ == old(db).init_pools@,
        final(db).templates@ == old(db).templates@,
        final(db).swaps@ == old(db).swaps@,
        final(db).revisions@ == old(db).revisions@,
        final(db).burn_ranged@ == old(db).burn_ranged@,
        final(db).harvests@ == old(db).harvests@,
        final(db).mint_ambient@ == old(db).mint_ambient@,
        final(db).burn_ambient@ == old(db).burn_ambient@,
        final(db).mint_knockout@ == old(db).mint_knockout@,
        final(db).burn_knockout@ == old(db).burn_knockout@,
        final(db).withdraw_knockout@ == old(db).withdraw_knockout@,
        final(db).dirty_pools@ == old(db).dirty_pools@,
        final(db).tracked_pools@ == old(db).tracked_pools@,
        final(db).prices@ == old(db).prices@,
        final(db).liquidity@ == old(db).liquidity@,
        final(db).curves@ == old(db).curves@,
        final(db).latest_block == old(db).latest_block,
        final(db).syncing == old(db).syncing,
{
    let mut res: Vec<MintRangedEvent> = Vec::new();
    let mut i: usize = 0;
    while i < db.mint_ranged.len()
        invariant
            0 <= i <= db.mint_ranged@.len(),
            res@ == db.mint_ranged@.take(i as int).filter(|v: MintRangedEvent| !spec_mint_ranged_same_key(v, e)),
        decreases db.mint_ranged@.len() - i,
    {
        let v = db.mint_ranged[i];
        let keep = !(v.user == e.user && v.base == e.base && v.quote == e.quote && v.pool_idx == e.pool_idx && v.bid_tick == e.bid_tick && v.ask_tick == e.ask_tick && v.block_height == e.block_height && v.index == e.index);
        if keep {
            res.push(v);
        }
        proof {
            reveal_with_fuel(Seq::<MintRangedEvent>::filter, 3);
            let pre = db.mint_ranged@.take(i as int);
            let post = db.mint_ranged@.take(i + 1);
            assert(post.drop_last() =~= pre);
            assert(post.last() == v);
            assert(res@ =~= post.filter(|v: MintRangedEvent| !spec_mint_ranged_same_key(v, e)));
        }
        i += 1;
    }
    proof {
        assert(db.mint_ranged@.take(db.mint_ranged@.len() as int) =~= db.mint_ranged@);
    }
    res.push(e);
    db.mint_ranged = res;
}

/// Every stored record of this family, in storage order.
pub fn get_all_mint_ranged(db: &Db) -> (r: Vec<MintRangedEvent>)
    ensures
        r@ == db.mint_ranged@,
{
    let mut res: Vec<MintRangedEvent> = Vec::new();
    let mut i: usize = 0;
    while i < db.mint_ranged.len()
        invariant
            0 <= i <= db.mint_ranged@.len(),
            res@ == db.mint_ranged@.take(i as int),
        decreases db.mint_ranged@.len() - i,
    {
        res.push(db.mint_ranged[i]);
        proof {
            assert(res@ =~= db.mint_ranged@.take(i + 1));
        }
        i += 1;
    }
    proof {
        assert(db.mint_ranged@.take(db.mint_ranged@.len() as int) =~= db.mint_ranged@);
    }
    res
}

/// The records strictly after `block`, in storage order.
pub open spec fn spec_mint_ranged_after_block(s: Seq<MintRangedEvent>, block: U256) -> Seq<MintRangedEvent> {
    s.filter((|v: MintRangedEvent| v.block_height.as_nat() > block.as_nat()))
}

/// The stored records that sit strictly after `block`.
pub fn get_all_mint_ranged_after_block(db: &Db, block: &U256) -> (r: Vec<MintRangedEvent>)
    ensures
        r@ == spec_mint_ranged_after_block(db.mint_ranged@, *block),
{
    let mut res: Vec<MintRangedEvent> = Vec::new();
    let mut i: usize = 0;
    while i < db.mint_ranged.len()
        invariant
            0 <= i <= db.mint_ranged@.len(),
            res@ == spec_mint_ranged_after_block(db.mint_ranged@.take(i as int), *block),
        decreases db.mint_ranged@.len() - i,
    {
        let v = db.mint_ranged[i];
        if block.lt(&v.block_height) {
            res.push(v);
        }
        proof {
            reveal_with_fuel(Seq::<MintRangedEvent>::filter, 3);
            let pre = db.mint_ranged@.take(i as int);
            let post = db.mint_ranged@.take(i + 1);
            assert(post.drop_last() =~= pre);
            assert(post.last() == v);
            assert(res@ =~= spec_mint_ranged_after_block(post, *block));
        }
        i += 1;
    }
    proof {
        assert(db.mint_ranged@.take(db.mint_ranged@.len() as int) =~= db.mint_ranged@);
    }
    res
}

/// Looks one record up by its full key.
pub fn get_mint_ranged(db: &Db, user: Address, base: Address, quote: Address, pool_idx: U256, bid_tick: i32, ask_tick: i32, block: U256, index: U256) -> (r: Option<MintRangedEvent>)
    ensures
        r matches Some(v) ==> db.mint_ranged@.contains(v) && v.user == user && v.base == base && v.quote == quote && v.pool_idx == pool_idx && v.bid_tick == bid_tick && v.ask_tick == ask_tick && v.block_height == block && v.index == index,
        r is None ==> forall|j: int|
            0 <= j < db.mint_ranged@.len() ==> !((#[trigger] db.mint_ranged@[j]).user == user && (#[trigger] db.mint_ranged@[j]).base == base && (#[trigger] db.mint_ranged@[j]).quote == quote && (#[trigger] db.mint_ranged@[j]).pool_idx == pool_idx && (#[trigger] db.mint_ranged@[j]).bid_tick == bid_tick && (#[trigger] db.mint_ranged@[j]).ask_tick == ask_tick && (#[trigger] db.mint_ranged@[j]).block_height == block && (#[trigger] db.mint_ranged@[j]).index == index),
{
    let mut i: usize = 0;
    while i < db.mint_ranged.len()
        invariant
            0 <= i <= db.mint_ranged@.len(),
            forall|j: int|
                0 <= j < i ==> !((#[trigger] db.mint_ranged@[j]).user == user && (#[trigger] db.mint_ranged@[j]).base == base && (#[trigger] db.mint_ranged@[j]).quote == quote && (#[trigger] db.mint_ranged@[j]).pool_idx == pool_idx && (#[trigger] db.mint_ranged@[j]).bid_tick == bid_tick && (#[trigger] db.mint_ranged@[j]).ask_tick == ask_tick && (#[trigger] db.mint_ranged@[j]).block_height == block && (#[trigger] db.mint_ranged@[j]).index == index),
        decreases db.mint_ranged@.len() - i,
    {
        let v = db.mint_ranged[i];
        if v.user == user && v.base == base && v.quote == quote && v.pool_idx == pool_idx && v.bid_tick == bid_tick && v.ask_tick == ask_tick && v.block_height == block && v.index == index {
            return Some(v);
        }
        i += 1;
    }
    None
}

/// Whether two records occupy the same slot of the persistent layout.
pub open spec fn spec_burn_ranged_same_key(a: BurnRangedEvent, b: BurnRangedEvent) -> bool {
    a.user == b.user && a.base == b.base && a.quote == b.quote && a.pool_idx == b.pool_idx && a.bid_tick == b.bid_tick && a.ask_tick == b.ask_tick && a.block_height == b.block_height && a.index == b.index
}

/// Stores a record, replacing the record with its key if one is held.
pub fn save_burn_ranged(db: &mut Db, e: BurnRangedEvent)
    ensures
        final(db).burn_ranged@ == old(db).burn_ranged@.filter(|v: BurnRangedEvent| !spec_burn_ranged_same_key(v, e)).push(e),
        final(db).init_pools@ == old(db).init_pools@,
        final(db).templates@ == old(db).templates@,
        final(db).swaps@ == old(db).swaps@,
        final(db).revisions@ == old(db).revisions@,
        final(db).mint_ranged@ == old(db).mint_ranged@,
        final(db).harvests@ == old(db).harvests@,
        final(db).mint_ambient@ == old(db).mint_ambient@,
        final(db).burn_ambient@ == old(db).burn_ambient@,
        final(db).mint_knockout@ == old(db).mint_knockout@,
        final(db).burn_knockout@ == old(db).burn_knockout@,
        final(db).withdraw_knockout@ == old(db).withdraw_knockout@,
        final(db).dirty_pools@ == old(db).dirty_pools@,
        final(db).tracked_pools@ == old(db).tracked_pools@,
        final(db).prices@ == old(db).prices@,
        final(db).liquidity@ == old(db).liquidity@,
        final(db).curves@ == old(db).curves@,
        final(db).latest_block == old(db).latest_block,
        final(db).syncing == old(db).syncing,
{
    let mut res: Vec<BurnRangedEvent> = Vec::new();
    let mut i: usize = 0;
    while i < db.burn_ranged.len()
        invariant
            0 <= i <= db.burn_ranged@.len(),
            res@ == db.burn_ranged@.take(i as int).filter(|v: BurnRangedEvent| !spec_burn_ranged_same_key(v, e)),
        decreases db.burn_ranged@.len() - i,
    {
        let v = db.burn_ranged[i];
        let keep = !(v.user == e.user && v.base == e.base && v.quote == e.quote && v.pool_idx == e.pool_idx && v.bid_tick == e.bid_tick && v.ask_tick == e.ask_tick && v.block_height == e.block_height && v.index == e.index);
        if keep {
            res.push(v);
        }
        proof {
            reveal_with_fuel(Seq::<BurnRangedEvent>::filter, 3);
            let pre = db.burn_ranged@.take(i as int);
            let post = db.burn_ranged@.take(i + 1);
            assert(post.drop_last() =~= pre);
            assert(post.last() == v);
            assert(res@ =~= post.filter(|v: BurnRangedEvent| !spec_burn_ranged_same_key(v, e)));
        }
        i += 1;
    }
    proof {
        assert(db.burn_ranged@.take(db.burn_ranged@.len() as int) =~= db.burn_ranged@);
    }
    res.push(e);
    db.burn_ranged = res;
}

/// Every stored record of this family, in storage order.
pub fn get_all_burn_ranged(db: &Db) -> (r: Vec<BurnRangedEvent>)
    ensures
        r@ == db.burn_ranged@,
{
    let mut res: Vec<BurnRangedEvent> = Vec::new();
    let mut i: usize = 0;
    while i < db.burn_ranged.len()
        invariant
            0 <= i <= db.burn_ranged@.len(),
            res@ == db.burn_ranged@.take(i as int),
        decreases db.burn_ranged@.len() - i,
    {
        res.push(db.burn_ranged[i]);
        proof {
            assert(res@ =~= db.burn_ranged@.take(i + 1));
        }
        i += 1;
    }
    proof {
        assert(db.burn_ranged@.take(db.burn_ranged@.len() as int) =~= db.burn_ranged@);
    }
    res
}

/// The records strictly after `block`, in storage order.
pub open spec fn spec_burn_ranged_after_block(s: Seq<BurnRangedEvent>, block: U256) -> Seq<BurnRangedEvent> {
    s.filter((|v: BurnRangedEvent| v.block_height.as_nat() > block.as_nat()))
}

/// The stored records that sit strictly after `block`.
pub fn get_all_burn_ranged_after_block(db: &Db, block: &U256) -> (r: Vec<BurnRangedEvent>)
    ensures
        r@ == spec_burn_ranged_after_block(db.burn_ranged@, *block),
{
    let mut res: Vec<BurnRangedEvent> = Vec::new();
    let mut i: usize = 0;
    while i < db.burn_ranged.len()
        invariant
            0 <= i <= db.burn_ranged@.len(),
            res@ == spec_burn_ranged_after_block(db.burn_ranged@.take(i as int), *block),
        decreases db.burn_ranged@.len() - i,
    {
        let v = db.burn_ranged[i];
        if block.lt(&v.block_height) {
            res.push(v);
        }
        proof {
            reveal_with_fuel(Seq::<BurnRangedEvent>::filter, 3);
            let pre = db.burn_ranged@.take(i as int);
            let post = db.burn_ranged@.take(i + 1);
            assert(post.drop_last() =~= pre);
            assert(post.last() == v);
            assert(res@ =~= spec_burn_ranged_after_block(post, *block));
        }
        i += 1;
    }
    proof {
        assert(db.burn_ranged@.take(db.burn_ranged@.len() as int) =~= db.burn_ranged@);
    }
    res
}

/// Looks one record up by its full key.
pub fn get_burn_ranged(db: &Db, user: Address, base: Address, quote: Address, pool_idx: U256, bid_tick: i32, ask_tick: i32, block: U256, index: U256) -> (r: Option<BurnRangedEvent>)
    ensures
        r matches Some(v) ==> db.burn_ranged@.contains(v) && v.user == user && v.base == base && v.quote == quote && v.pool_idx == pool_idx && v.bid_tick == bid_tick && v.ask_tick == ask_tick && v.block_height == block && v.index == index,
        r is None ==> forall|j: int|
            0 <= j < db.burn_ranged@.len() ==> !((#[trigger] db.burn_ranged@[j]).user == user && (#[trigger] db.burn_ranged@[j]).base == base && (#[trigger] db.burn_ranged@[j]).quote == quote && (#[trigger] db.burn_ranged@[j]).pool_idx == pool_idx && (#[trigger] db.burn_ranged@[j]).bid_tick == bid_tick && (#[trigger] db.burn_ranged@[j]).ask_tick == ask_tick && (#[trigger] db.burn_ranged@[j]).block_height == block && (#[trigger] db.burn_ranged@[j]).index == index),
{
    let mut i: usize = 0;
    while i < db.burn_ranged.len()
        invariant
            0 <= i <= db.burn_ranged@.len(),
            forall|j: int|
                0 <= j < i ==> !((#[trigger] db.burn_ranged@[j]).user == user && (#[trigger] db.burn_ranged@[j]).base == base && (#[trigger] db.burn_ranged@[j]).quote == quote && (#[trigger] db.burn_ranged@[j]).pool_idx == pool_idx && (#[trigger] db.burn_ranged@[j]).bid_tick == bid_tick && (#[trigger] db.burn_ranged@[j]).ask_tick == ask_tick && (#[trigger] db.burn_ranged@[j]).block_height == block && (#[trigger] db.burn_ranged@[j]).index == index),
        decreases db.burn_ranged@.len() - i,
    {
        let v = db.burn_ranged[i];
        if v.user == user && v.base == base && v.quote == quote && v.pool_idx == pool_idx && v.bid_tick == bid_tick && v.ask_tick == ask_tick && v.block_height == block && v.index == index {
            return Some(v);
        }
        i += 1;
    }
    None
}

/// Whether two records occupy the same slot of the persistent layout.
pub open spec fn spec_harvest_same_key(a: HarvestEvent, b: HarvestEvent) -> bool {
    a.user == b.user && a.base == b.base && a.quote == b.quote && a.pool_idx == b.pool_idx && a.bid_tick == b.bid_tick && a.ask_tick == b.ask_tick && a.block_height == b.block_height && a.index == b.index
}

/// Stores a record, replacing the record with its key if one is held.
pub fn save_harvest(db: &mut Db, e: HarvestEvent)
    ensures
        final(db).harvests@ == old(db).harvests@.filter(|v: HarvestEvent| !spec_harvest_same_key(v, e)).push(e),
        final(db).init_pools@ == old(db).init_pools@,
        final(db).templates@ == old(db).templates@,
        final(db).swaps@ == old(db).swaps@,
        final(db).revisions@ == old(db).revisions@,
        final(db).mint_ranged@ == old(db).mint_ranged@,
        final(db).burn_ranged@ == old(db).burn_ranged@,
        final(db).mint_ambient@ == old(db).mint_ambient@,
        final(db).burn_ambient@ == old(db).burn_ambient@,
        final(db).mint_knockout@ == old(db).mint_knockout@,
        final(db).burn_knockout@ == old(db).burn_knockout@,
        final(db).withdraw_knockout@ == old(db).withdraw_knockout@,
        final(db).dirty_pools@ == old(db).dirty_pools@,
        final(db).tracked_pools@ == old(db).tracked_pools@,
        final(db).prices@ == old(db).prices@,
        final(db).liquidity@ == old(db).liquidity@,
        final(db).curves@ == old(db).curves@,
        final(db).latest_block == old(db).latest_block,
        final(db).syncing == old(db).syncing,
{
    let mut res: Vec<HarvestEvent> = Vec::new();
    let mut i: usize = 0;
    while i < db.harvests.len()
        invariant
            0 <= i <= db.harvests@.len(),
            res@ == db.harvests@.take(i as int).filter(|v: HarvestEvent| !spec_harvest_same_key(v, e)),
        decreases db.harvests@.len() - i,
    {
        let v = db.harvests[i];
        let keep = !(v.user == e.user && v.base == e.base && v.quote == e.quote && v.pool_idx == e.pool_idx && v.bid_tick == e.bid_tick && v.ask_tick == e.ask_tick && v.block_height == e.block_height && v.index == e.index);
        if keep {
            res.push(v);
        }
        proof {
            reveal_with_fuel(Seq::<HarvestEvent>::filter, 3);
            let pre = db.harvests@.take(i as int);
            let post = db.harvests@.take(i + 1);
            assert(post.drop_last() =~= pre);
            assert(post.last() == v);
            assert(res@ =~= post.filter(|v: HarvestEvent| !spec_harvest_same_key(v, e)));
        }
        i += 1;
    }
    proof {
        assert(db.harvests@.take(db.harvests@.len() as int) =~= db.harvests@);
    }
    res.push(e);
    db.harvests = res;
}

/// Every stored record of this family, in storage order.
pub fn get_all_harvest(db: &Db) -> (r: Vec<HarvestEvent>)
    ensures
        r@ == db.harvests@,
{
    let mut res: Vec<HarvestEvent> = Vec::new();
    let mut i: usize = 0;
    while i < db.harvests.len()
        invariant
            0 <= i <= db.harvests@.len(),
            res@ == db.harvests@.take(i as int),
        decreases db.harvests@.len() - i,
    {
        res.push(db.harvests[i]);
        proof {
            assert(res@ =~= db.harvests@.take(i + 1));
        }
        i += 1;
    }
    proof {
        assert(db.harvests@.take(db.harvests@.len() as int) =~= db.harvests@);
    }
    res
}

/// The records strictly after `block`, in storage order.
pub open spec fn spec_harvest_after_block(s: Seq<HarvestEvent>, block: U256) -> Seq<HarvestEvent> {
    s.filter((|v: HarvestEvent| v.block_height.as_nat() > block.as_nat()))
}

/// The stored records that sit strictly after `block`.
pub fn get_all_harvest_after_block(db: &Db, block: &U256) -> (r: Vec<HarvestEvent>)
    ensures
        r@ == spec_harvest_after_block(db.harvests@, *block),
{
    let mut res: Vec<HarvestEvent> = Vec::new();
    let mut i: usize = 0;
    while i < db.harvests.len()
        invariant
            0 <= i <= db.harvests@.len(),
            res@ == spec_harvest_after_block(db.harvests@.take(i as int), *block),
        decreases db.harvests@.len() - i,
    {
        let v = db.harvests[i];
        if block.lt(&v.block_height) {
            res.push(v);
        }
        proof {
            reveal_with_fuel(Seq::<HarvestEvent>::filter, 3);
            let pre = db.harvests@.take(i as int);
            let post = db.harvests@.take(i + 1);
            assert(post.drop_last() =~= pre);
            assert(post.last() == v);
            assert(res@ =~= spec_harvest_after_block(post, *block));
        }
        i += 1;
    }
    proof {
        assert(db.harvests@.take(db.harvests@.len() as int) =~= db.harvests@);
    }
    res
}

/// Looks one record up by its full key.
pub fn get_harvest(db: &Db, user: Address, base: Address, quote: Address, pool_idx: U256, bid_tick: i32, ask_tick: i32, block: U256, index: U256) -> (r: Option<HarvestEvent>)
    ensures
        r matches Some(v) ==> db.harvests@.contains(v) && v.user == user && v.base == base && v.quote == quote && v.pool_idx == pool_idx && v.bid_tick == bid_tick && v.ask_tick == ask_tick && v.block_height == block && v.index == index,
        r is None ==> forall|j: int|
            0 <= j < db.harvests@.len() ==> !((#[trigger] db.harvests@[j]).user == user && (#[trigger] db.harvests@[j]).base == base && (#[trigger] db.harvests@[j]).quote == quote && (#[trigger] db.harvests@[j]).pool_idx == pool_idx && (#[trigger] db.harvests@[j]).bid_tick == bid_tick && (#[trigger] db.harvests@[j]).ask_tick == ask_tick && (#[trigger] db.harvests@[j]).block_height == block && (#[trigger] db.harvests@[j]).index == index),
{
    let mut i: usize = 0;
    while i < db.harvests.len()
        invariant
            0 <= i <= db.harvests@.len(),
            forall|j: int|
                0 <= j < i ==> !((#[trigger] db.harvests@[j]).user == user && (#[trigger] db.harvests@[j]).base == base && (#[trigger] db.harvests@[j]).quote == quote && (#[trigger] db.harvests@[j]).pool_idx == pool_idx && (#[trigger] db.harvests@[j]).bid_tick == bid_tick && (#[trigger] db.harvests@[j]).ask_tick == ask_tick && (#[trigger] db.harvests@[j]).block_height == block && (#[trigger] db.harvests@[j]).index == index),
        decreases db.harvests@.len() - i,
    {
        let v = db.harvests[i];
        if v.user == user && v.base == base && v.quote == quote && v.pool_idx == pool_idx && v.bid_tick == bid_tick && v.ask_tick == ask_tick && v.block_height == block && v.index == index {
            return Some(v);
        }
        i += 1;
    }
    None
}

/// Whether two records occupy the same slot of the persistent layout.
pub open spec fn spec_mint_ambient_same_key(a: MintAmbientEvent, b: MintAmbientEvent) -> bool {
    a.user == b.user && a.base == b.base && a.quote == b.quote && a.pool_idx == b.pool_idx && a.block_height == b.block_height && a.index == b.index
}

/// Stores a record, replacing the record with its key if one is held.
pub fn save_mint_ambient(db: &mut Db, e: MintAmbientEvent)
    ensures
        final(db).mint_ambient@ == old(db).mint_ambient@.filter(|v: MintAmbientEvent| !spec_mint_ambient_same_key(v, e)).push(e),
        final(db).init_pools@ == old(db).init_pools@,
        final(db).templates@ == old(db).templates@,
        final(db).swaps@ == old(db).swaps@,
        final(db).revisions@ == old(db).revisions@,
        final(db).mint_ranged@ == old(db).mint_ranged@,
        final(db).burn_ranged@ == old(db).burn_ranged@,
        final(db).harvests@ == old(db).harvests@,
        final(db).burn_ambient@ == old(db).burn_ambient@,
        final(db).mint_knockout@ == old(db).mint_knockout@,
        final(db).burn_knockout@ == old(db).burn_knockout@,
        final(db).withdraw_knockout@ == old(db).withdraw_knockout@,
        final(db).dirty_pools@ == old(db).dirty_pools@,
        final(db).tracked_pools@ == old(db).tracked_pools@,
        final(db).prices@ == old(db).prices@,
        final(db).liquidity@ == old(db).liquidity@,
        final(db).curves@ == old(db).curves@,
        final(db).latest_block == old(db).latest_block,
        final(db).syncing == old(db).syncing,
{
    let mut res: Vec<MintAmbientEvent> = Vec::new();
    let mut i: usize = 0;
    while i < db.mint_ambient.len()
        invariant
            0 <= i <= db.mint_ambient@.len(),
            res@ == db.mint_ambient@.take(i as int).filter(|v: MintAmbientEvent| !spec_mint_ambient_same_key(v, e)),
        decreases db.mint_ambient@.len() - i,
    {
        let v = db.mint_ambient[i];
        let keep = !(v.user == e.user && v.base == e.base && v.quote == e.quote && v.pool_idx == e.pool_idx && v.block_height == e.block_height && v.index == e.index);
        if keep {
            res.push(v);
        }
        proof {
            reveal_with_fuel(Seq::<MintAmbientEvent>::filter, 3);
            let pre = db.mint_ambient@.take(i as int);
            let post = db.mint_ambient@.take(i + 1);
            assert(post.drop_last() =~= pre);
            assert(post.last() == v);
            assert(res@ =~= post.filter(|v: MintAmbientEvent| !spec_mint_ambient_same_key(v, e)));
        }
        i += 1;
    }
    proof {
        assert(db.mint_ambient@.take(db.mint_ambient@.len() as int) =~= db.mint_ambient@);
    }
    res.push(e);
    db.mint_ambient = res;
}

/// Every stored record of this family, in storage order.
pub fn get_all_mint_ambient(db: &Db) -> (r: Vec<MintAmbientEvent>)
    ensures
        r@ == db.mint_ambient@,
{
    let mut res: Vec<MintAmbientEvent> = Vec::new();
    let mut i: usize = 0;
    while i < db.mint_ambient.len()
        invariant
            0 <= i <= db.mint_ambient@.len(),
            res@ == db.mint_ambient@.take(i as int),
        decreases db.mint_ambient@.len() - i,
    {
        res.push(db.mint_ambient[i]);
        proof {
            assert(res@ =~= db.mint_ambient@.take(i + 1));
        }
        i += 1;
    }
    proof {
        assert(db.mint_ambient@.take(db.mint_ambient@.len() as int) =~= db.mint_ambient@);
    }
    res
}

/// The records strictly after `block`, in storage order.
pub open spec fn spec_mint_ambient_after_block(s: Seq<MintAmbientEvent>, block: U256) -> Seq<MintAmbientEvent> {
    s.filter((|v: MintAmbientEvent| v.block_height.as_nat() > block.as_nat()))
}

/// The stored records that sit strictly after `block`.
pub fn get_all_mint_ambient_after_block(db: &Db, block: &U256) -> (r: Vec<MintAmbientEvent>)
    ensures
        r@ == spec_mint_ambient_after_block(db.mint_ambient@, *block),
{
    let mut res: Vec<MintAmbientEvent> = Vec::new();
    let mut i: usize = 0;
    while i < db.mint_ambient.len()
        invariant
            0 <= i <= db.mint_ambient@.len(),
            res@ == spec_mint_ambient_after_block(db.mint_ambient@.take(i as int), *block),
        decreases db.mint_ambient@.len() - i,
    {
        let v = db.mint_ambient[i];
        if block.lt(&v.block_height) {
            res.push(v);
        }
        proof {
            reveal_with_fuel(Seq::<MintAmbientEvent>::filter, 3);
            let pre = db.mint_ambient@.take(i as int);
            let post = db.mint_ambient@.take(i + 1);
            assert(post.drop_last() =~= pre);
            assert(post.last() == v);
            assert(res@ =~= spec_mint_ambient_after_block(post, *block));
        }
        i += 1;
    }
    proof {
        assert(db.mint_ambient@.take(db.mint_ambient@.len() as int) =~= db.mint_ambient@);
    }
    res
}

/// Looks one record up by its full key.
pub fn get_mint_ambient(db: &Db, user: Address, base: Address, quote: Address, pool_idx: U256, block: U256, index: U256) -> (r: Option<MintAmbientEvent>)
    ensures
        r matches Some(v) ==> db.mint_ambient@.contains(v) && v.user == user && v.base == base && v.quote == quote && v.pool_idx == pool_idx && v.block_height == block && v.index == index,
        r is None ==> forall|j: int|
            0 <= j < db.mint_ambient@.len() ==> !((#[trigger] db.mint_ambient@[j]).user == user && (#[trigger] db.mint_ambient@[j]).base == base && (#[trigger] db.mint_ambient@[j]).quote == quote && (#[trigger] db.mint_ambient@[j]).pool_idx == pool_idx && (#[trigger] db.mint_ambient@[j]).block_height == block && (#[trigger] db.mint_ambient@[j]).index == index),
{
    let mut i: usize = 0;
    while i < db.mint_ambient.len()
        invariant
            0 <= i <= db.mint_ambient@.len(),
            forall|j: int|
                0 <= j < i ==> !((#[trigger] db.mint_ambient@[j]).user == user && (#[trigger] db.mint_ambient@[j]).base == base && (#[trigger] db.mint_ambient@[j]).quote == quote && (#[trigger] db.mint_ambient@[j]).pool_idx == pool_idx && (#[trigger] db.mint_ambient@[j]).block_height == block && (#[trigger] db.mint_ambient@[j]).index == index),
        decreases db.mint_ambient@.len() - i,
    {
        let v = db.mint_ambient[i];
        if v.user == user && v.base == base && v.quote == quote && v.pool_idx == pool_idx && v.block_height == block && v.index == index {
            return Some(v);
        }
        i += 1;
    }
    None
}

/// Whether two records occupy the same slot of the persistent layout.
pub open spec fn spec_burn_ambient_same_key(a: BurnAmbientEvent, b: BurnAmbientEvent) -> bool {
    a.user == b.user && a.base == b.base && a.quote == b.quote && a.pool_idx == b.pool_idx && a.block_height == b.block_height && a.index == b.index
}

/// Stores a record, replacing the record with its key if one is held.
pub fn save_burn_ambient(db: &mut Db, e: BurnAmbientEvent)
    ensures
        final(db).burn_ambient@ == old(db).burn_ambient@.filter(|v: BurnAmbientEvent| !spec_burn_ambient_same_key(v, e)).push(e),
        final(db).init_pools@ == old(db).init_pools@,
        final(db).templates@ == old(db).templates@,
        final(db).swaps@ == old(db).swaps@,
        final(db).revisions@ == old(db).revisions@,
        final(db).mint_ranged@ == old(db).mint_ranged@,
        final(db).burn_ranged@ == old(db).burn_ranged@,
        final(db).harvests@ == old(db).harvests@,
        final(db).mint_ambient@ == old(db).mint_ambient@,
        final(db).mint_knockout@ == old(db).mint_knockout@,
        final(db).burn_knockout@ == old(db).burn_knockout@,
        final(db).withdraw_knockout@ == old(db).withdraw_knockout@,
        final(db).dirty_pools@ == old(db).dirty_pools@,
        final(db).tracked_pools@ == old(db).tracked_pools@,
        final(db).prices@ == old(db).prices@,
        final(db).liquidity@ == old(db).liquidity@,
        final(db).curves@ == old(db).curves@,
        final(db).latest_block == old(db).latest_block,
        final(db).syncing == old(db).syncing,
{
    let mut res: Vec<BurnAmbientEvent> = Vec::new();
    let mut i: usize = 0;
    while i < db.burn_ambient.len()
        invariant
            0 <= i <= db.burn_ambient@.len(),
            res@ == db.burn_ambient@.take(i as int).filter(|v: BurnAmbientEvent| !spec_burn_ambient_same_key(v, e)),
        decreases db.burn_ambient@.len() - i,
    {
        let v = db.burn_ambient[i];
        let keep = !(v.user == e.user && v.base == e.base && v.quote == e.quote && v.pool_idx == e.pool_idx && v.block_height == e.block_height && v.index == e.index);
        if keep {
            res.push(v);
        }
        proof {
            reveal_with_fuel(Seq::<BurnAmbientEvent>::filter, 3);
            let pre = db.burn_ambient@.take(i as int);
            let post = db.burn_ambient@.take(i + 1);
            assert(post.drop_last() =~= pre);
            assert(post.last() == v);
            assert(res@ =~= post.filter(|v: BurnAmbientEvent| !spec_burn_ambient_same_key(v, e)));
        }
        i += 1;
    }
    proof {
        assert(db.burn_ambient@.take(db.burn_ambient@.len() as int) =~= db.burn_ambient@);
    }
    res.push(e);
    db.burn_ambient = res;
}

/// Every stored record of this family, in storage order.
pub fn get_all_burn_ambient(db: &Db) -> (r: Vec<BurnAmbientEvent>)
    ensures
        r@ == db.burn_ambient@,
{
    let mut res: Vec<BurnAmbientEvent> = Vec::new();
    let mut i: usize = 0;
    while i < db.burn_ambient.len()
        invariant
            0 <= i <= db.burn_ambient@.len(),
            res@ == db.burn_ambient@.take(i as int),
        decreases db.burn_ambient@.len() - i,
    {
        res.push(db.burn_ambient[i]);
        proof {
            assert(res@ =~= db.burn_ambient@.take(i + 1));
        }
        i += 1;
    }
    proof {
        assert(db.burn_ambient@.take(db.burn_ambient@.len() as int) =~= db.burn_ambient@);
    }
    res
}

/// The records strictly after `block`, in storage order.
pub open spec fn spec_burn_ambient_after_block(s: Seq<BurnAmbientEvent>, block: U256) -> Seq<BurnAmbientEvent> {
    s.filter((|v: BurnAmbientEvent| v.block_height.as_nat() > block.as_nat()))
}

/// The stored records that sit strictly after `block`.
pub fn get_all_burn_ambient_after_block(db: &Db, block: &U256) -> (r: Vec<BurnAmbientEvent>)
    ensures
        r@ == spec_burn_ambient_after_block(db.burn_ambient@, *block),
{
    let mut res: Vec<BurnAmbientEvent> = Vec::new();
    let mut i: usize = 0;
    while i < db.burn_ambient.len()
        invariant
            0 <= i <= db.burn_ambient@.len(),
            res@ == spec_burn_ambient_after_block(db.burn_ambient@.take(i as int), *block),
        decreases db.burn_ambient@.len() - i,
    {
        let v = db.burn_ambient[i];
        if block.lt(&v.block_height) {
            res.push(v);
        }
        proof {
            reveal_with_fuel(Seq::<BurnAmbientEvent>::filter, 3);
            let pre = db.burn_ambient@.take(i as int);
            let post = db.burn_ambient@.take(i + 1);
            assert(post.drop_last() =~= pre);
            assert(post.last() == v);
            assert(res@ =~= spec_burn_ambient_after_block(post, *block));
        }
        i += 1;
    }
    proof {
        assert(db.burn_ambient@.take(db.burn_ambient@.len() as int) =~= db.burn_ambient@);
    }
    res
}

/// Looks one record up by its full key.
pub fn get_burn_ambient(db: &Db, user: Address, base: Address, quote: Address, pool_idx: U256, block: U256, index: U256) -> (r: Option<BurnAmbientEvent>)
    ensures
        r matches Some(v) ==> db.burn_ambient@.contains(v) && v.user == user && v.base == base && v.quote == quote && v.pool_idx == pool_idx && v.block_height == block && v.index == index,
        r is None ==> forall|j: int|
            0 <= j < db.burn_ambient@.len() ==> !((#[trigger] db.burn_ambient@[j]).user == user && (#[trigger] db.burn_ambient@[j]).base == base && (#[trigger] db.burn_ambient@[j]).quote == quote && (#[trigger] db.burn_ambient@[j]).pool_idx == pool_idx && (#[trigger] db.burn_ambient@[j]).block_height == block && (#[trigger] db.burn_ambient@[j]).index == index),
{
    let mut i: usize = 0;
    while i < db.burn_ambient.len()
        invariant
            0 <= i <= db.burn_ambient@.len(),
            forall|j: int|
                0 <= j < i ==> !((#[trigger] db.burn_ambient@[j]).user == user && (#[trigger] db.burn_ambient@[j]).base == base && (#[trigger] db.burn_ambient@[j]).quote == quote && (#[trigger] db.burn_ambient@[j]).pool_idx == pool_idx && (#[trigger] db.burn_ambient@[j]).block_height == block && (#[trigger] db.burn_ambient@[j]).index == index),
        decreases db.burn_ambient@.len() - i,
    {
        let v = db.burn_ambient[i];
        if v.user == user && v.base == base && v.quote == quote && v.pool_idx == pool_idx && v.block_height == block && v.index == index {
            return Some(v);
        }
        i += 1;
    }
    None
}

/// Whether two records occupy the same slot of the persistent layout.
pub open spec fn spec_mint_knockout_same_key(a: MintKnockoutEvent, b: MintKnockoutEvent) -> bool {
    a.user == b.user && a.base == b.base && a.quote == b.quote && a.pool_idx == b.pool_idx && a.block_height == b.block_height
}

/// Stores a record, replacing the record with its key if one is held.
pub fn save_mint_knockout(db: &mut Db, e: MintKnockoutEvent)
    ensures
        final(db).mint_knockout@ == old(db).mint_knockout@.filter(|v: MintKnockoutEvent| !spec_mint_knockout_same_key(v, e)).push(e),
        final(db).init_pools@ == old(db).init_pools@,
        final(db).templates@ == old(db).templates@,
        final(db).swaps@ == old(db).swaps@,
        final(db).revisions@ == old(db).revisions@,
        final(db).mint_ranged@ == old(db).mint_ranged@,
        final(db).burn_ranged@ == old(db).burn_ranged@,
        final(db).harvests@ == old(db).harvests@,
        final(db).mint_ambient@ == old(db).mint_ambient@,
        final(db).burn_ambient@ == old(db).burn_ambient@,
        final(db).burn_knockout@ == old(db).burn_knockout@,
        final(db).withdraw_knockout@ == old(db).withdraw_knockout@,
        final(db).dirty_pools@ == old(db).dirty_pools@,
        final(db).tracked_pools@ == old(db).tracked_pools@,
        final(db).prices@ == old(db).prices@,
        final(db).liquidity@ == old(db).liquidity@,
        final(db).curves@ == old(db).curves@,
        final(db).latest_block == old(db).latest_block,
        final(db).syncing == old(db).syncing,
{
    let mut res: Vec<MintKnockoutEvent> = Vec::new();
    let mut i: usize = 0;
    while i < db.mint_knockout.len()
        invariant
            0 <= i <= db.mint_knockout@.len(),
            res@ == db.mint_knockout@.take(i as int).filter(|v: MintKnockoutEvent| !spec_mint_knockout_same_key(v, e)),
        decreases db.mint_knockout@.len() - i,
    {
        let v = db.mint_knockout[i];
        let keep = !(v.user == e.user && v.base == e.base && v.quote == e.quote && v.pool_idx == e.pool_idx && v.block_height == e.block_height);
        if keep {
            res.push(v);
        }
        proof {
            reveal_with_fuel(Seq::<MintKnockoutEvent>::filter, 3);
            let pre = db.mint_knockout@.take(i as int);
            let post = db.mint_knockout@.take(i + 1);
            assert(post.drop_last() =~= pre);
            assert(post.last() == v);
            assert(res@ =~= post.filter(|v: MintKnockoutEvent| !spec_mint_knockout_same_key(v, e)));
        }
        i += 1;
    }
    proof {
        assert(db.mint_knockout@.take(db.mint_knockout@.len() as int) =~= db.mint_knockout@);
    }
    res.push(e);
    db.mint_knockout = res;
}

/// Every stored record of this family, in storage order.
pub fn get_all_mint_knockout(db: &Db) -> (r: Vec<MintKnockoutEvent>)
    ensures
        r@ == db.mint_knockout@,
{
    let mut res: Vec<MintKnockoutEvent> = Vec::new();
    let mut i: usize = 0;
    while i < db.mint_knockout.len()
        invariant
            0 <= i <= db.mint_knockout@.len(),
            res@ == db.mint_knockout@.take(i as int),
        decreases db.mint_knockout@.len() - i,
    {
        res.push(db.mint_knockout[i]);
        proof {
            assert(res@ =~= db.mint_knockout@.take(i + 1));
        }
        i += 1;
    }
    proof {
        assert(db.mint_knockout@.take(db.mint_knockout@.len() as int) =~= db.mint_knockout@);
    }
    res
}

/// The records strictly after `block`, in storage order.
pub open spec fn spec_mint_knockout_after_block(s: Seq<MintKnockoutEvent>, block: U256) -> Seq<MintKnockoutEvent> {
    s.filter((|v: MintKnockoutEvent| v.block_height.as_nat() > block.as_nat()))
}

/// The stored records that sit strictly after `block`.
pub fn get_all_mint_knockout_after_block(db: &Db, block: &U256) -> (r: Vec<MintKnockoutEvent>)
    ensures
        r@ == spec_mint_knockout_after_block(db.mint_knockout@, *block),
{
    let mut res: Vec<MintKnockoutEvent> = Vec::new();
    let mut i: usize = 0;
    while i < db.mint_knockout.len()
        invariant
            0 <= i <= db.mint_knockout@.len(),
            res@ == spec_mint_knockout_after_block(db.mint_knockout@.take(i as int), *block),
        decreases db.mint_knockout@.len() - i,
    {
        let v = db.mint_knockout[i];
        if block.lt(&v.block_height) {
            res.push(v);
        }
        proof {
            reveal_with_fuel(Seq::<MintKnockoutEvent>::filter, 3);
            let pre = db.mint_knockout@.take(i as int);
            let post = db.mint_knockout@.take(i + 1);
            assert(post.drop_last() =~= pre);
            assert(post.last() == v);
            assert(res@ =~= spec_mint_knockout_after_block(post, *block));
        }
        i += 1;
    }
    proof {
        assert(db.mint_knockout@.take(db.mint_knockout@.len() as int) =~= db.mint_knockout@);
    }
    res
}

/// Looks one record up by its full key.
pub fn get_mint_knockout(db: &Db, user: Address, base: Address, quote: Address, pool_idx: U256, block: U256) -> (r: Option<MintKnockoutEvent>)
    ensures
        r matches Some(v) ==> db.mint_knockout@.contains(v) && v.user == user && v.base == base && v.quote == quote && v.pool_idx == pool_idx && v.block_height == block,
        r is None ==> forall|j: int|
            0 <= j < db.mint_knockout@.len() ==> !((#[trigger] db.mint_knockout@[j]).user == user && (#[trigger] db.mint_knockout@[j]).base == base && (#[trigger] db.mint_knockout@[j]).quote == quote && (#[trigger] db.mint_knockout@[j]).pool_idx == pool_idx && (#[trigger] db.mint_knockout@[j]).block_height == block),
{
    let mut i: usize = 0;
    while i < db.mint_knockout.len()
        invariant
            0 <= i <= db.mint_knockout@.len(),
            forall|j: int|
                0 <= j < i ==> !((#[trigger] db.mint_knockout@[j]).user == user && (#[trigger] db.mint_knockout@[j]).base == base && (#[trigger] db.mint_knockout@[j]).quote == quote && (#[trigger] db.mint_knockout@[j]).pool_idx == pool_idx && (#[trigger] db.mint_knockout@[j]).block_height == block),
        decreases db.mint_knockout@.len() - i,
    {
        let v = db.mint_knockout[i];
        if v.user == user && v.base == base && v.quote == quote && v.pool_idx == pool_idx && v.block_height == block {
            return Some(v);
        }
        i += 1;
    }
    None
}

/// Whether two records occupy the same slot of the persistent layout.
pub open spec fn spec_burn_knockout_same_key(a: BurnKnockoutEvent, b: BurnKnockoutEvent) -> bool {
    a.user == b.user && a.base == b.base && a.quote == b.quote && a.pool_idx == b.pool_idx && a.block_height == b.block_height
}

/// Stores a record, replacing the record with its key if one is held.
pub fn save_burn_knockout(db: &mut Db, e: BurnKnockoutEvent)
    ensures
        final(db).burn_knockout@ == old(db).burn_knockout@.filter(|v: BurnKnockoutEvent| !spec_burn_knockout_same_key(v, e)).push(e),
        final(db).init_pools@ == old(db).init_pools@,
        final(db).templates@ == old(db).templates@,
        final(db).swaps@ == old(db).swaps@,
        final(db).revisions@ == old(db).revisions@,
        final(db).mint_ranged@ == old(db).mint_ranged@,
        final(db).burn_ranged@ == old(db).burn_ranged@,
        final(db).harvests@ == old(db).harvests@,
        final(db).mint_ambient@ == old(db).mint_ambient@,
        final(db).burn_ambient@ == old(db).burn_ambient@,
        final(db).mint_knockout@ == old(db).mint_knockout@,
        final(db).withdraw_knockout@ == old(db).withdraw_knockout@,
        final(db).dirty_pools@ == old(db).dirty_pools@,
        final(db).tracked_pools@ == old(db).tracked_pools@,
        final(db).prices@ == old(db).prices@,
        final(db).liquidity@ == old(db).liquidity@,
        final(db).curves@ == old(db).curves@,
        final(db).latest_block == old(db).latest_block,
        final(db).syncing == old(db).syncing,
{
    let mut res: Vec<BurnKnockoutEvent> = Vec::new();
    let mut i: usize = 0;
    while i < db.burn_knockout.len()
        invariant
            0 <= i <= db.burn_knockout@.len(),
            res@ == db.burn_knockout@.take(i as int).filter(|v: BurnKnockoutEvent| !spec_burn_knockout_same_key(v, e)),
        decreases db.burn_knockout@.len() - i,
    {
        let v = db.burn_knockout[i];
        let keep = !(v.user == e.user && v.base == e.base && v.quote == e.quote && v.pool_idx == e.pool_idx && v.block_height == e.block_height);
        if keep {
            res.push(v);
        }
        proof {
            reveal_with_fuel(Seq::<BurnKnockoutEvent>::filter, 3);
            let pre = db.burn_knockout@.take(i as int);
            let post = db.burn_knockout@.take(i + 1);
            assert(post.drop_last() =~= pre);
            assert(post.last() == v);
            assert(res@ =~= post.filter(|v: BurnKnockoutEvent| !spec_burn_knockout_same_key(v, e)));
        }
        i += 1;
    }
    proof {
        assert(db.burn_knockout@.take(db.burn_knockout@.len() as int) =~= db.burn_knockout@);
    }
    res.push(e);
    db.burn_knockout = res;
}

/// Every stored record of this family, in storage order.
pub fn get_all_burn_knockout(db: &Db) -> (r: Vec<BurnKnockoutEvent>)
    ensures
        r@ == db.burn_knockout@,
{
    let mut res: Vec<BurnKnockoutEvent> = Vec::new();
    let mut i: usize = 0;
    while i < db.burn_knockout.len()
        invariant
            0 <= i <= db.burn_knockout@.len(),
            res@ == db.burn_knockout@.take(i as int),
        decreases db.burn_knockout@.len() - i,
    {
        res.push(db.burn_knockout[i]);
        proof {
            assert(res@ =~= db.burn_knockout@.take(i + 1));
        }
        i += 1;
    }
    proof {
        assert(db.burn_knockout@.take(db.burn_knockout@.len() as int) =~= db.burn_knockout@);
    }
    res
}

/// The records strictly after `block`, in storage order.
pub open spec fn spec_burn_knockout_after_block(s: Seq<BurnKnockoutEvent>, block: U256) -> Seq<BurnKnockoutEvent> {
    s.filter((|v: BurnKnockoutEvent| v.block_height.as_nat() > block.as_nat()))
}

/// The stored records that sit strictly after `block`.
pub fn get_all_burn_knockout_after_block(db: &Db, block: &U256) -> (r: Vec<BurnKnockoutEvent>)
    ensures
        r@ == spec_burn_knockout_after_block(db.burn_knockout@, *block),
{
    let mut res: Vec<BurnKnockoutEvent> = Vec::new();
    let mut i: usize = 0;
    while i < db.burn_knockout.len()
        invariant
            0 <= i <= db.burn_knockout@.len(),
            res@ == spec_burn_knockout_after_block(db.burn_knockout@.take(i as int), *block),
        decreases db.burn_knockout@.len() - i,
    {
        let v = db.burn_knockout[i];
        if block.lt(&v.block_height) {
            res.push(v);
        }
        proof {
            reveal_with_fuel(Seq::<BurnKnockoutEvent>::filter, 3);
            let pre = db.burn_knockout@.take(i as int);
            let post = db.burn_knockout@.take(i + 1);
            assert(post.drop_last() =~= pre);
            assert(post.last() == v);
            assert(res@ =~= spec_burn_knockout_after_block(post, *block));
        }
        i += 1;
    }
    proof {
        assert(db.burn_knockout@.take(db.burn_knockout@.len() as int) =~= db.burn_knockout@);
    }
    res
}

/// Looks one record up by its full key.
pub fn get_burn_knockout(db: &Db, user: Address, base: Address, quote: Address, pool_idx: U256, block: U256) -> (r: Option<BurnKnockoutEvent>)
    ensures
        r matches Some(v) ==> db.burn_knockout@.contains(v) && v.user == user && v.base == base && v.quote == quote && v.pool_idx == pool_idx && v.block_height == block,
        r is None ==> forall|j: int|
            0 <= j < db.burn_knockout@.len() ==> !((#[trigger] db.burn_knockout@[j]).user == user && (#[trigger] db.burn_knockout@[j]).base == base && (#[trigger] db.burn_knockout@[j]).quote == quote && (#[trigger] db.burn_knockout@[j]).pool_idx == pool_idx && (#[trigger] db.burn_knockout@[j]).block_height == block),
{
    let mut i: usize = 0;
    while i < db.burn_knockout.len()
        invariant
            0 <= i <= db.burn_knockout@.len(),
            forall|j: int|
                0 <= j < i ==> !((#[trigger] db.burn_knockout@[j]).user == user && (#[trigger] db.burn_knockout@[j]).base == base && (#[trigger] db.burn_knockout@[j]).quote == quote && (#[trigger] db.burn_knockout@[j]).pool_idx == pool_idx && (#[trigger] db.burn_knockout@[j]).block_height == block),
        decreases db.burn_knockout@.len() - i,
    {
        let v = db.burn_knockout[i];
        if v.user == user && v.base == base && v.quote == quote && v.pool_idx == pool_idx && v.block_height == block {
            return Some(v);
        }
        i += 1;
    }
    None
}

/// Whether two records occupy the same slot of the persistent layout.
pub open spec fn spec_withdraw_knockout_same_key(a: WithdrawKnockoutEvent, b: WithdrawKnockoutEvent) -> bool {
    a.user == b.user && a.base == b.base && a.quote == b.quote && a.pool_idx == b.pool_idx && a.block_height == b.block_height
}

/// Stores a record, replacing the record with its key if one is held.
pub fn save_withdraw_knockout(db: &mut Db, e: WithdrawKnockoutEvent)
    ensures
        final(db).withdraw_knockout@ == old(db).withdraw_knockout@.filter(|v: WithdrawKnockoutEvent| !spec_withdraw_knockout_same_key(v, e)).push(e),
        final(db).init_pools@ == old(db).init_pools@,
        final(db).templates@ == old(db).templates@,
        final(db).swaps@ == old(db).swaps@,
        final(db).revisions@ == old(db).revisions@,
        final(db).mint_ranged@ == old(db).mint_ranged@,
        final(db).burn_ranged@ == old(db).burn_ranged@,
        final(db).harvests@ == old(db).harvests@,
        final(db).mint_ambient@ == old(db).mint_ambient@,
        final(db).burn_ambient@ == old(db).burn_ambient@,
        final(db).mint_knockout@ == old(db).mint_knockout@,
        final(db).burn_knockout@ == old(db).burn_knockout@,
        final(db).dirty_pools@ == old(db).dirty_pools@,
        final(db).tracked_pools@ == old(db).tracked_pools@,
        final(db).prices@ == old(db).prices@,
        final(db).liquidity@ == old(db).liquidity@,
        final(db).curves@ == old(db).curves@,
        final(db).latest_block == old(db).latest_block,
        final(db).syncing == old(db).syncing,
{
    let mut res: Vec<WithdrawKnockoutEvent> = Vec::new();
    let mut i: usize = 0;
    while i < db.withdraw_knockout.len()
        invariant
            0 <= i <= db.withdraw_knockout@.len(),
            res@ == db.withdraw_knockout@.take(i as int).filter(|v: WithdrawKnockoutEvent| !spec_withdraw_knockout_same_key(v, e)),
        decreases db.withdraw_knockout@.len() - i,
    {
        let v = db.withdraw_knockout[i];
        let keep = !(v.user == e.user && v.base == e.base && v.quote == e.quote && v.pool_idx == e.pool_idx && v.block_height == e.block_height);
        if keep {
            res.push(v);
        }
        proof {
            reveal_with_fuel(Seq::<WithdrawKnockoutEvent>::filter, 3);
            let pre = db.withdraw_knockout@.take(i as int);
            let post = db.withdraw_knockout@.take(i + 1);
            assert(post.drop_last() =~= pre);
            assert(post.last() == v);
            assert(res@ =~= post.filter(|v: WithdrawKnockoutEvent| !spec_withdraw_knockout_same_key(v, e)));
        }
        i += 1;
    }
    proof {
        assert(db.withdraw_knockout@.take(db.withdraw_knockout@.len() as int) =~= db.withdraw_knockout@);
    }
    res.push(e);
    db.withdraw_knockout = res;
}

/// Every stored record of this family, in storage order.
pub fn get_all_withdraw_knockout(db: &Db) -> (r: Vec<WithdrawKnockoutEvent>)
    ensures
        r@ == db.withdraw_knockout@,
{
    let mut res: Vec<WithdrawKnockoutEvent> = Vec::new();
    let mut i: usize = 0;
    while i < db.withdraw_knockout.len()
        invariant
            0 <= i <= db.withdraw_knockout@.len(),
            res@ == db.withdraw_knockout@.take(i as int),
        decreases db.withdraw_knockout@.len() - i,
    {
        res.push(db.withdraw_knockout[i]);
        proof {
            assert(res@ =~= db.withdraw_knockout@.take(i + 1));
        }
        i += 1;
    }
    proof {
        assert(db.withdraw_knockout@.take(db.withdraw_knockout@.len() as int) =~= db.withdraw_knockout@);
    }
    res
}

/// The records strictly after `block`, in storage order.
pub open spec fn spec_withdraw_knockout_after_block(s: Seq<WithdrawKnockoutEvent>, block: U256) -> Seq<WithdrawKnockoutEvent> {
    s.filter((|v: WithdrawKnockoutEvent| v.block_height.as_nat() > block.as_nat()))
}

/// The stored records that sit strictly after `block`.
pub fn get_all_withdraw_knockout_after_block(db: &Db, block: &U256) -> (r: Vec<WithdrawKnockoutEvent>)
    ensures
        r@ == spec_withdraw_knockout_after_block(db.withdraw_knockout@, *block),
{
    let mut res: Vec<WithdrawKnockoutEvent> = Vec::new();
    let mut i: usize = 0;
    while i < db.withdraw_knockout.len()
        invariant
            0 <= i <= db.withdraw_knockout@.len(),
            res@ == spec_withdraw_knockout_after_block(db.withdraw_knockout@.take(i as int), *block),
        decreases db.withdraw_knockout@.len() - i,
    {
        let v = db.withdraw_knockout[i];
        if block.lt(&v.block_height) {
            res.push(v);
        }
        proof {
            reveal_with_fuel(Seq::<WithdrawKnockoutEvent>::filter, 3);
            let pre = db.withdraw_knockout@.take(i as int);
            let post = db.withdraw_knockout@.take(i + 1);
            assert(post.drop_last() =~= pre);
            assert(post.last() == v);
            assert(res@ =~= spec_withdraw_knockout_after_block(post, *block));
        }
        i += 1;
    }
    proof {
        assert(db.withdraw_knockout@.take(db.withdraw_knockout@.len() as int) =~= db.withdraw_knockout@);
    }
    res
}

/// Looks one record up by its full key.
pub fn get_withdraw_knockout(db: &Db, user: Address, base: Address, quote: Address, pool_idx: U256, block: U256) -> (r: Option<WithdrawKnockoutEvent>)
    ensures
        r matches Some(v) ==> db.withdraw_knockout@.contains(v) && v.user == user && v.base == base && v.quote == quote && v.pool_idx == pool_idx && v.block_height == block,
        r is None ==> forall|j: int|
            0 <= j < db.withdraw_knockout@.len() ==> !((#[trigger] db.withdraw_knockout@[j]).user == user && (#[trigger] db.withdraw_knockout@[j]).base == base && (#[trigger] db.withdraw_knockout@[j]).quote == quote && (#[trigger] db.withdraw_knockout@[j]).pool_idx == pool_idx && (#[trigger] db.withdraw_knockout@[j]).block_height == block),
{
    let mut i: usize = 0;
    while i < db.withdraw_knockout.len()
        invariant
            0 <= i <= db.withdraw_knockout@.len(),
            forall|j: int|
                0 <= j < i ==> !((#[trigger] db.withdraw_knockout@[j]).user == user && (#[trigger] db.withdraw_knockout@[j]).base == base && (#[trigger] db.withdraw_knockout@[j]).quote == quote && (#[trigger] db.withdraw_knockout@[j]).pool_idx == pool_idx && (#[trigger] db.withdraw_knockout@[j]).block_height == block),
        decreases db.withdraw_knockout@.len() - i,
    {
        let v = db.withdraw_knockout[i];
        if v.user == user && v.base == base && v.quote == quote && v.pool_idx == pool_idx && v.block_height == block {
            return Some(v);
        }
        i += 1;
    }
    None
}


/// The first stored template for a pool index.
pub open spec fn spec_first_template(s: Seq<TemplateEntry>, pool_idx: U256) -> Option<Pool>
    decreases s.len(),
{
    if s.len() == 0 {
        None
    } else if s[0].pool_idx == pool_idx {
        Some(s[0].template)
    } else {
        spec_first_template(s.drop_first(), pool_idx)
    }
}

proof fn lemma_first_template_skip(s: Seq<TemplateEntry>, i: int, pool_idx: U256)
    requires
        0 <= i <= s.len(),
        forall|j: int| 0 <= j < i ==> (#[trigger] s[j]).pool_idx != pool_idx,
    ensures
        spec_first_template(s, pool_idx) == spec_first_template(s.skip(i), pool_idx),
    decreases i,
{
    if i == 0 {
        assert(s.skip(0) =~= s);
    } else {
        assert(s.skip(i) =~= s.drop_first().skip(i - 1));
        assert(forall|j: int| 0 <= j < i - 1 ==> (#[trigger] s.drop_first()[j]).pool_idx != pool_idx);
        lemma_first_template_skip(s.drop_first(), i - 1, pool_idx);
    }
}

/// Stores a template under its pool index.
pub fn save_pool_template(db: &mut Db, pool_idx: U256, template: Pool)
    ensures
        spec_first_template(final(db).templates@, pool_idx) == Some(template),
        forall|ix: U256|
            ix != pool_idx ==> #[trigger] spec_first_template(final(db).templates@, ix)
                == spec_first_template(old(db).templates@, ix),
        final(db).init_pools@ == old(db).init_pools@,
        final(db).swaps@ == old(db).swaps@,
        final(db).revisions@ == old(db).revisions@,
        final(db).mint_ranged@ == old(db).mint_ranged@,
        final(db).burn_ranged@ == old(db).burn_ranged@,
        final(db).harvests@ == old(db).harvests@,
        final(db).mint_ambient@ == old(db).mint_ambient@,
        final(db).burn_ambient@ == old(db).burn_ambient@,
        final(db).mint_knockout@ == old(db).mint_knockout@,
        final(db).burn_knockout@ == old(db).burn_knockout@,
        final(db).withdraw_knockout@ == old(db).withdraw_knockout@,
        final(db).dirty_pools@ == old(db).dirty_pools@,
        final(db).tracked_pools@ == old(db).tracked_pools@,
        final(db).prices@ == old(db).prices@,
        final(db).liquidity@ == old(db).liquidity@,
        final(db).curves@ == old(db).curves@,
        final(db).latest_block == old(db).latest_block,
        final(db).syncing == old(db).syncing,
{
    let entry = TemplateEntry { pool_idx, template };
    let mut res: Vec<TemplateEntry> = Vec::new();
    res.push(entry);
    let mut i: usize = 0;
    while i < db.templates.len()
        invariant
            0 <= i <= db.templates@.len(),
            res@ == seq![entry] + db.templates@.take(i as int),
        decreases db.templates@.len() - i,
    {
        res.push(db.templates[i]);
        proof {
            assert(res@ =~= seq![entry] + db.templates@.take(i + 1));
        }
        i += 1;
    }
    proof {
        assert(db.templates@.take(db.templates@.len() as int) =~= db.templates@);
    }
    db.templates = res;
    proof {
        assert(db.templates@.drop_first() =~= old(db).templates@);
        assert forall|ix: U256|
            ix != pool_idx implies spec_first_template(db.templates@, ix) == spec_first_template(
            old(db).templates@,
            ix,
        ) by {
            assert(db.templates@[0] == entry);
        }
    }
}

/// Looks the template of a pool index up.
pub fn get_pool_template(db: &Db, pool_idx: U256) -> (r: Option<Pool>)
    ensures
        r == spec_first_template(db.templates@, pool_idx),
{
    let mut i: usize = 0;
    while i < db.templates.len()
        invariant
            0 <= i <= db.templates@.len(),
            forall|j: int| 0 <= j < i ==> (#[trigger] db.templates@[j]).pool_idx != pool_idx,
        decreases db.templates@.len() - i,
    {
        let v = db.templates[i];
        if v.pool_idx == pool_idx {
            proof {
                lemma_first_template_skip(db.templates@, i as int, pool_idx);
                assert(db.templates@.skip(i as int)[0] == v);
            }
            return Some(v.template);
        }
        i += 1;
    }
    proof {
        lemma_first_template_skip(db.templates@, db.templates@.len() as int, pool_idx);
        assert(db.templates@.skip(db.templates@.len() as int).len() == 0);
    }
    None
}

/// The first dirty tracker stored for a pool triple.
pub open spec fn spec_first_dirty(
    s: Seq<DirtyPoolTracker>,
    base: Address,
    quote: Address,
    pool_idx: U256,
) -> Option<DirtyPoolTracker>
    decreases s.len(),
{
    if s.len() == 0 {
        None
    } else if s[0].base == base && s[0].quote == quote && s[0].pool_idx == pool_idx {
        Some(s[0])
    } else {
        spec_first_dirty(s.drop_first(), base, quote, pool_idx)
    }
}

proof fn lemma_first_dirty_skip(
    s: Seq<DirtyPoolTracker>,
    i: int,
    base: Address,
    quote: Address,
    pool_idx: U256,
)
    requires
        0 <= i <= s.len(),
        forall|j: int|
            0 <= j < i ==> !((#[trigger] s[j]).base == base && s[j].quote == quote && s[j].pool_idx
                == pool_idx),
    ensures
        spec_first_dirty(s, base, quote, pool_idx) == spec_first_dirty(
            s.skip(i),
            base,
            quote,
            pool_idx,
        ),
    decreases i,
{
    if i == 0 {
        assert(s.skip(0) =~= s);
    } else {
        assert(s.skip(i) =~= s.drop_first().skip(i - 1));
        assert(forall|j: int|
            0 <= j < i - 1 ==> !((#[trigger] s.drop_first()[j]).base == base
                && s.drop_first()[j].quote == quote && s.drop_first()[j].pool_idx == pool_idx));
        lemma_first_dirty_skip(s.drop_first(), i - 1, base, quote, pool_idx);
    }
}

/// Records the dirty flag and last folded block of a pool.  The new
/// tracker shadows any stored one for the same triple.
pub fn set_dirty_pool(
    db: &mut Db,
    base: Address,
    quote: Address,
    pool_idx: U256,
    dirty: bool,
    last_block: U256,
)
    ensures
        ({
            let t = DirtyPoolTracker { dirty, last_block, base, quote, pool_idx };
            &&& spec_first_dirty(final(db).dirty_pools@, base, quote, pool_idx) == Some(t)
            &&& final(db).dirty_pools@ == seq![t] + old(db).dirty_pools@.filter(
                (|v: DirtyPoolTracker| !(v.base == base && v.quote == quote && v.pool_idx
                    == pool_idx)),
            )
        }),
        forall|b2: Address, q2: Address, ix2: U256|
            !(b2 == base && q2 == quote && ix2 == pool_idx)
                ==> #[trigger] spec_first_dirty(final(db).dirty_pools@, b2, q2, ix2)
                == spec_first_dirty(old(db).dirty_pools@, b2, q2, ix2),
        final(db).tracked_pools@ == old(db).tracked_pools@,
        final(db).init_pools@ == old(db).init_pools@,
        final(db).templates@ == old(db).templates@,
        final(db).swaps@ == old(db).swaps@,
        final(db).revisions@ == old(db).revisions@,
        final(db).mint_ranged@ == old(db).mint_ranged@,
        final(db).burn_ranged@ == old(db).burn_ranged@,
        final(db).harvests@ == old(db).harvests@,
        final(db).mint_ambient@ == old(db).mint_ambient@,
        final(db).burn_ambient@ == old(db).burn_ambient@,
        final(db).mint_knockout@ == old(db).mint_knockout@,
        final(db).burn_knockout@ == old(db).burn_knockout@,
        final(db).withdraw_knockout@ == old(db).withdraw_knockout@,
        final(db).prices@ == old(db).prices@,
        final(db).liquidity@ == old(db).liquidity@,
        final(db).curves@ == old(db).curves@,
        final(db).latest_block == old(db).latest_block,
        final(db).syncing == old(db).syncing,
{
    let t = DirtyPoolTracker { dirty, last_block, base, quote, pool_idx };
    let mut res: Vec<DirtyPoolTracker> = Vec::new();
    res.push(t);
    let mut i: usize = 0;
    while i < db.dirty_pools.len()
        invariant
            0 <= i <= db.dirty_pools@.len(),
            res@ == seq![t] + db.dirty_pools@.take(i as int).filter(
                (|v: DirtyPoolTracker| !(v.base == base && v.quote == quote && v.pool_idx
                    == pool_idx)),
            ),
        decreases db.dirty_pools@.len() - i,
    {
        let v = db.dirty_pools[i];
        if !(v.base == base && v.quote == quote && v.pool_idx == pool_idx) {
            res.push(v);
        }
        proof {
            reveal_with_fuel(Seq::<DirtyPoolTracker>::filter, 3);
            let pre = db.dirty_pools@.take(i as int);
            let post = db.dirty_pools@.take(i + 1);
            assert(post.drop_last() =~= pre);
            assert(post.last() == v);
            assert(res@ =~= seq![t] + post.filter(
                (|v: DirtyPoolTracker| !(v.base == base && v.quote == quote && v.pool_idx
                    == pool_idx)),
            ));
        }
        i += 1;
    }
    proof {
        assert(db.dirty_pools@.take(db.dirty_pools@.len() as int) =~= db.dirty_pools@);
    }
    db.dirty_pools = res;
    proof {
        assert(db.dirty_pools@[0] == t);
        let rest = old(db).dirty_pools@.filter(
            (|v: DirtyPoolTracker| !(v.base == base && v.quote == quote && v.pool_idx
                == pool_idx)),
        );
        assert(db.dirty_pools@.drop_first() =~= rest);
        assert forall|b2: Address, q2: Address, ix2: U256|
            !(b2 == base && q2 == quote && ix2 == pool_idx) implies #[trigger] spec_first_dirty(
            db.dirty_pools@,
            b2,
            q2,
            ix2,
        ) == spec_first_dirty(old(db).dirty_pools@, b2, q2, ix2) by {
            lemma_first_dirty_filter(old(db).dirty_pools@, base, quote, pool_idx, b2, q2, ix2);
        }
    }
}

/// Filtering one triple out leaves the first match of every other triple.
proof fn lemma_first_dirty_filter(
    s: Seq<DirtyPoolTracker>,
    base: Address,
    quote: Address,
    pool_idx: U256,
    b2: Address,
    q2: Address,
    ix2: U256,
)
    requires
        !(b2 == base && q2 == quote && ix2 == pool_idx),
    ensures
        spec_first_dirty(
            s.filter(
                (|v: DirtyPoolTracker| !(v.base == base && v.quote == quote && v.pool_idx
                    == pool_idx)),
            ),
            b2,
            q2,
            ix2,
        ) == spec_first_dirty(s, b2, q2, ix2),
    decreases s.len(),
{
    reveal_with_fuel(Seq::<DirtyPoolTracker>::filter, 3);
    let pred = (|v: DirtyPoolTracker| !(v.base == base && v.quote == quote && v.pool_idx
        == pool_idx));
    if s.len() == 0 {
        assert(s.filter(pred) =~= Seq::<DirtyPoolTracker>::empty());
    } else {
        lemma_first_dirty_filter(s.drop_first(), base, quote, pool_idx, b2, q2, ix2);
        lemma_filter_first(s, pred);
        let tailf = s.drop_first().filter(pred);
        if pred(s[0]) {
            let whole = seq![s[0]] + tailf;
            assert(s.filter(pred) == whole);
            assert(whole[0] == s[0]);
            if s[0].base == b2 && s[0].quote == q2 && s[0].pool_idx == ix2 {
            } else {
                assert(whole.drop_first() =~= tailf);
            }
        } else {
            assert(!(s[0].base == b2 && s[0].quote == q2 && s[0].pool_idx == ix2));
        }
    }
}

/// Filtering from either end agrees: the filter of a nonempty sequence is
/// the filter of its first element followed by the filter of the rest.
proof fn lemma_filter_first(s: Seq<DirtyPoolTracker>, pred: spec_fn(DirtyPoolTracker) -> bool)
    requires
        s.len() > 0,
    ensures
        s.filter(pred) == if pred(s[0]) {
            seq![s[0]] + s.drop_first().filter(pred)
        } else {
            s.drop_first().filter(pred)
        },
    decreases s.len(),
{
    reveal_with_fuel(Seq::<DirtyPoolTracker>::filter, 3);
    if s.len() == 1 {
        assert(s.drop_last() =~= Seq::<DirtyPoolTracker>::empty());
        assert(s.drop_first() =~= Seq::<DirtyPoolTracker>::empty());
        if pred(s[0]) {
            assert(s.filter(pred) =~= seq![s[0]]);
            assert(seq![s[0]] + s.drop_first().filter(pred) =~= seq![s[0]]);
        }
    } else {
        let d = s.drop_last();
        let tail = s.drop_first();
        lemma_filter_first(d, pred);
        assert(d[0] == s[0]);
        assert(tail.drop_last() =~= d.drop_first());
        assert(tail.last() == s.last());
        assert(tail.filter(pred) == if pred(s.last()) {
            d.drop_first().filter(pred).push(s.last())
        } else {
            d.drop_first().filter(pred)
        });
        assert(s.filter(pred) == if pred(s.last()) {
            d.filter(pred).push(s.last())
        } else {
            d.filter(pred)
        });
        if pred(s[0]) {
            if pred(s.last()) {
                assert((seq![s[0]] + d.drop_first().filter(pred)).push(s.last()) =~= seq![s[0]]
                    + d.drop_first().filter(pred).push(s.last()));
            }
        }
    }
}


/// Every stored dirty tracker, in storage order.
pub fn get_all_dirty_pools(db: &Db) -> (r: Vec<DirtyPoolTracker>)
    ensures
        r@ == db.dirty_pools@,
{
    let mut res: Vec<DirtyPoolTracker> = Vec::new();
    let mut i: usize = 0;
    while i < db.dirty_pools.len()
        invariant
            0 <= i <= db.dirty_pools@.len(),
            res@ == db.dirty_pools@.take(i as int),
        decreases db.dirty_pools@.len() - i,
    {
        res.push(db.dirty_pools[i]);
        proof {
            assert(res@ =~= db.dirty_pools@.take(i + 1));
        }
        i += 1;
    }
    proof {
        assert(db.dirty_pools@.take(db.dirty_pools@.len() as int) =~= db.dirty_pools@);
    }
    res
}

/// The dirty flag and last folded block of a pool, if it is known.
pub fn get_dirty_pool(db: &Db, base: Address, quote: Address, pool_idx: U256) -> (r: Option<
    (bool, U256),
>)
    ensures
        r == match spec_first_dirty(db.dirty_pools@, base, quote, pool_idx) {
            Some(t) => Some((t.dirty, t.last_block)),
            None => None,
        },
{
    let mut i: usize = 0;
    while i < db.dirty_pools.len()
        invariant
            0 <= i <= db.dirty_pools@.len(),
            forall|j: int|
                0 <= j < i ==> !((#[trigger] db.dirty_pools@[j]).base == base
                    && db.dirty_pools@[j].quote == quote && db.dirty_pools@[j].pool_idx
                    == pool_idx),
        decreases db.dirty_pools@.len() - i,
    {
        let v = db.dirty_pools[i];
        if v.base == base && v.quote == quote && v.pool_idx == pool_idx {
            proof {
                lemma_first_dirty_skip(db.dirty_pools@, i as int, base, quote, pool_idx);
                assert(db.dirty_pools@.skip(i as int)[0] == v);
            }
            return Some((v.dirty, v.last_block));
        }
        i += 1;
    }
    proof {
        lemma_first_dirty_skip(
            db.dirty_pools@,
            db.dirty_pools@.len() as int,
            base,
            quote,
            pool_idx,
        );
        assert(db.dirty_pools@.skip(db.dirty_pools@.len() as int).len() == 0);
    }
    None
}

/// Marks a pool as folded through `block`.
pub fn mark_pool_fresh(db: &mut Db, base: Address, quote: Address, pool_idx: U256, block: U256)
    ensures
        spec_first_dirty(final(db).dirty_pools@, base, quote, pool_idx) == Some(
            (DirtyPoolTracker { dirty: false, last_block: block, base, quote, pool_idx }),
        ),
        forall|b2: Address, q2: Address, ix2: U256|
            !(b2 == base && q2 == quote && ix2 == pool_idx)
                ==> #[trigger] spec_first_dirty(final(db).dirty_pools@, b2, q2, ix2)
                == spec_first_dirty(old(db).dirty_pools@, b2, q2, ix2),
        final(db).tracked_pools@ == old(db).tracked_pools@,
        final(db).init_pools@ == old(db).init_pools@,
        final(db).templates@ == old(db).templates@,
        final(db).swaps@ == old(db).swaps@,
        final(db).revisions@ == old(db).revisions@,
        final(db).mint_ranged@ == old(db).mint_ranged@,
        final(db).burn_ranged@ == old(db).burn_ranged@,
        final(db).harvests@ == old(db).harvests@,
        final(db).mint_ambient@ == old(db).mint_ambient@,
        final(db).burn_ambient@ == old(db).burn_ambient@,
        final(db).mint_knockout@ == old(db).mint_knockout@,
        final(db).burn_knockout@ == old(db).burn_knockout@,
        final(db).withdraw_knockout@ == old(db).withdraw_knockout@,
        final(db).prices@ == old(db).prices@,
        final(db).liquidity@ == old(db).liquidity@,
        final(db).curves@ == old(db).curves@,
        final(db).latest_block == old(db).latest_block,
        final(db).syncing == old(db).syncing,
{
    set_dirty_pool(db, base, quote, pool_idx, false, block);
}

/// Marks a pool as holding unfolded events, keeping its last folded block.
pub fn mark_pool_dirty(db: &mut Db, base: Address, quote: Address, pool_idx: U256)
    ensures
        ({
            let lb = match spec_first_dirty(old(db).dirty_pools@, base, quote, pool_idx) {
                Some(t) => t.last_block,
                None => crate::u256::u256_zero(),
            };
            spec_first_dirty(final(db).dirty_pools@, base, quote, pool_idx) == Some(
                (DirtyPoolTracker { dirty: true, last_block: lb, base, quote, pool_idx }),
            )
        }),
        forall|b2: Address, q2: Address, ix2: U256|
            !(b2 == base && q2 == quote && ix2 == pool_idx)
                ==> #[trigger] spec_first_dirty(final(db).dirty_pools@, b2, q2, ix2)
                == spec_first_dirty(old(db).dirty_pools@, b2, q2, ix2),
        final(db).tracked_pools@ == old(db).tracked_pools@,
        final(db).init_pools@ == old(db).init_pools@,
        final(db).templates@ == old(db).templates@,
        final(db).swaps@ == old(db).swaps@,
        final(db).revisions@ == old(db).revisions@,
        final(db).mint_ranged@ == old(db).mint_ranged@,
        final(db).burn_ranged@ == old(db).burn_ranged@,
        final(db).harvests@ == old(db).harvests@,
        final(db).mint_ambient@ == old(db).mint_ambient@,
        final(db).burn_ambient@ == old(db).burn_ambient@,
        final(db).mint_knockout@ == old(db).mint_knockout@,
        final(db).burn_knockout@ == old(db).burn_knockout@,
        final(db).withdraw_knockout@ == old(db).withdraw_knockout@,
        final(db).prices@ == old(db).prices@,
        final(db).liquidity@ == old(db).liquidity@,
        final(db).curves@ == old(db).curves@,
        final(db).latest_block == old(db).latest_block,
        final(db).syncing == old(db).syncing,
{
    let block: U256 = match get_dirty_pool(db, base, quote, pool_idx) {
        Some(p) => p.1,
        None => U256::zero(),
    };
    set_dirty_pool(db, base, quote, pool_idx, true, block);
}

/// The most recently stored pool state for a triple: later writes shadow
/// earlier ones, as they do in the persistent layout.
pub open spec fn spec_last_tracked(
    s: Seq<TrackedPool>,
    base: Address,
    quote: Address,
    pool_idx: U256,
) -> Option<crate::tracking::PoolModel>
    decreases s.len(),
{
    if s.len() == 0 {
        None
    } else if s.last().base == base && s.last().quote == quote && s.last().pool_idx == pool_idx {
        Some(s.last()@)
    } else {
        spec_last_tracked(s.drop_last(), base, quote, pool_idx)
    }
}

proof fn lemma_last_tracked_take(
    s: Seq<TrackedPool>,
    i: int,
    base: Address,
    quote: Address,
    pool_idx: U256,
)
    requires
        0 <= i <= s.len(),
        forall|j: int|
            i <= j < s.len() ==> !((#[trigger] s[j]).base == base && s[j].quote == quote
                && s[j].pool_idx == pool_idx),
    ensures
        spec_last_tracked(s, base, quote, pool_idx) == spec_last_tracked(
            s.take(i),
            base,
            quote,
            pool_idx,
        ),
    decreases s.len() - i,
{
    if i < s.len() {
        assert(!(s.last().base == base && s.last().quote == quote && s.last().pool_idx
            == pool_idx));
        assert(forall|j: int|
            i <= j < s.drop_last().len() ==> !((#[trigger] s.drop_last()[j]).base == base
                && s.drop_last()[j].quote == quote && s.drop_last()[j].pool_idx == pool_idx));
        lemma_last_tracked_take(s.drop_last(), i, base, quote, pool_idx);
        assert(s.drop_last().take(i) =~= s.take(i));
    } else {
        assert(s.take(i) =~= s);
    }
}

/// Stores the derived state of a pool; the new state shadows older ones.
pub fn set_tracked_pool(db: &mut Db, pool: TrackedPool)
    ensures
        final(db).tracked_pools@ == old(db).tracked_pools@.push(pool),
        spec_last_tracked(final(db).tracked_pools@, pool.base, pool.quote, pool.pool_idx) == Some(
            pool@,
        ),
        forall|b2: Address, q2: Address, ix2: U256|
            !(b2 == pool.base && q2 == pool.quote && ix2 == pool.pool_idx)
                ==> #[trigger] spec_last_tracked(final(db).tracked_pools@, b2, q2, ix2)
                == spec_last_tracked(old(db).tracked_pools@, b2, q2, ix2),
        final(db).dirty_pools@ == old(db).dirty_pools@,
        final(db).init_pools@ == old(db).init_pools@,
        final(db).templates@ == old(db).templates@,
        final(db).swaps@ == old(db).swaps@,
        final(db).revisions@ == old(db).revisions@,
        final(db).mint_ranged@ == old(db).mint_ranged@,
        final(db).burn_ranged@ == old(db).burn_ranged@,
        final(db).harvests@ == old(db).harvests@,
        final(db).mint_ambient@ == old(db).mint_ambient@,
        final(db).burn_ambient@ == old(db).burn_ambient@,
        final(db).mint_knockout@ == old(db).mint_knockout@,
        final(db).burn_knockout@ == old(db).burn_knockout@,
        final(db).withdraw_knockout@ == old(db).withdraw_knockout@,
        final(db).prices@ == old(db).prices@,
        final(db).liquidity@ == old(db).liquidity@,
        final(db).curves@ == old(db).curves@,
        final(db).latest_block == old(db).latest_block,
        final(db).syncing == old(db).syncing,
{
    let ghost p = pool;
    db.tracked_pools.push(pool);
    proof {
        assert(db.tracked_pools@.last() == p);
        assert(db.tracked_pools@.drop_last() =~= old(db).tracked_pools@);
    }
}

/// The latest stored derived state of a pool.
pub fn get_tracked_pool(db: &Db, base: Address, quote: Address, pool_idx: U256) -> (r: Option<
    TrackedPool,
>)
    ensures
        r matches Some(p) ==> spec_last_tracked(db.tracked_pools@, base, quote, pool_idx) == Some(
            p@,
        ),
        r matches Some(p) ==> p.base == base && p.quote == quote && p.pool_idx == pool_idx,
        r is None <==> spec_last_tracked(db.tracked_pools@, base, quote, pool_idx) is None,
{
    let n = db.tracked_pools.len();
    let mut i: usize = n;
    while i > 0
        invariant
            0 <= i <= db.tracked_pools@.len(),
            n == db.tracked_pools@.len(),
            forall|j: int|
                i <= j < db.tracked_pools@.len() ==> !((#[trigger] db.tracked_pools@[j]).base
                    == base && db.tracked_pools@[j].quote == quote
                    && db.tracked_pools@[j].pool_idx == pool_idx),
        decreases i,
    {
        i = i - 1;
        let p = &db.tracked_pools[i];
        if p.base == base && p.quote == quote && p.pool_idx == pool_idx {
            proof {
                lemma_last_tracked_take(db.tracked_pools@, i + 1, base, quote, pool_idx);
                assert(db.tracked_pools@.take(i + 1).last() == db.tracked_pools@[i as int]);
            }
            return Some(p.snapshot());
        }
    }
    proof {
        lemma_last_tracked_take(db.tracked_pools@, 0, base, quote, pool_idx);
        assert(db.tracked_pools@.take(0).len() == 0);
    }
    None
}

/// Whether a reading is stored for a pool triple.
pub open spec fn spec_has_price(s: Seq<PoolScalarEntry>, base: Address, quote: Address, pool_idx: U256) -> bool {
    exists|j: int|
        0 <= j < s.len() && (#[trigger] s[j]).base == base && s[j].quote == quote && s[j].pool_idx
            == pool_idx
}

/// Stores a reading, replacing the stored one for the triple.
pub fn save_price(db: &mut Db, value: u128, base: Address, quote: Address, pool_idx: U256)
    ensures
        final(db).prices@ == old(db).prices@.filter(
            (|v: PoolScalarEntry| !(v.base == base && v.quote == quote && v.pool_idx == pool_idx)),
        ).push((PoolScalarEntry { base, quote, pool_idx, value })),
        final(db).liquidity@ == old(db).liquidity@,
        final(db).curves@ == old(db).curves@,
        final(db).init_pools@ == old(db).init_pools@,
        final(db).templates@ == old(db).templates@,
        final(db).swaps@ == old(db).swaps@,
        final(db).revisions@ == old(db).revisions@,
        final(db).mint_ranged@ == old(db).mint_ranged@,
        final(db).burn_ranged@ == old(db).burn_ranged@,
        final(db).harvests@ == old(db).harvests@,
        final(db).mint_ambient@ == old(db).mint_ambient@,
        final(db).burn_ambient@ == old(db).burn_ambient@,
        final(db).mint_knockout@ == old(db).mint_knockout@,
        final(db).burn_knockout@ == old(db).burn_knockout@,
        final(db).withdraw_knockout@ == old(db).withdraw_knockout@,
        final(db).dirty_pools@ == old(db).dirty_pools@,
        final(db).tracked_pools@ == old(db).tracked_pools@,
        final(db).latest_block == old(db).latest_block,
        final(db).syncing == old(db).syncing,
{
    let e = PoolScalarEntry { base, quote, pool_idx, value };
    let mut res: Vec<PoolScalarEntry> = Vec::new();
    let mut i: usize = 0;
    while i < db.prices.len()
        invariant
            0 <= i <= db.prices@.len(),
            res@ == db.prices@.take(i as int).filter(
                (|v: PoolScalarEntry| !(v.base == base && v.quote == quote && v.pool_idx == pool_idx)),
            ),
        decreases db.prices@.len() - i,
    {
        let v = db.prices[i];
        if !(v.base == base && v.quote == quote && v.pool_idx == pool_idx) {
            res.push(v);
        }
        proof {
            reveal_with_fuel(Seq::<PoolScalarEntry>::filter, 3);
            let pre = db.prices@.take(i as int);
            let post = db.prices@.take(i + 1);
            assert(post.drop_last() =~= pre);
            assert(post.last() == v);
            assert(res@ =~= post.filter(
                (|v: PoolScalarEntry| !(v.base == base && v.quote == quote && v.pool_idx == pool_idx)),
            ));
        }
        i += 1;
    }
    proof {
        assert(db.prices@.take(db.prices@.len() as int) =~= db.prices@);
    }
    res.push(e);
    db.prices = res;
}

/// The stored reading of a pool triple.
pub fn get_price(db: &Db, base: Address, quote: Address, pool_idx: U256) -> (r: Option<u128>)
    ensures
        r is Some <==> spec_has_price(db.prices@, base, quote, pool_idx),
        r matches Some(v) ==> exists|j: int|
            0 <= j < db.prices@.len() && (#[trigger] db.prices@[j]).base == base && db.prices@[j].quote
                == quote && db.prices@[j].pool_idx == pool_idx && db.prices@[j].value == v,
{
    let mut i: usize = 0;
    while i < db.prices.len()
        invariant
            0 <= i <= db.prices@.len(),
            forall|j: int|
                0 <= j < i ==> !((#[trigger] db.prices@[j]).base == base && db.prices@[j].quote
                    == quote && db.prices@[j].pool_idx == pool_idx),
        decreases db.prices@.len() - i,
    {
        let v = db.prices[i];
        if v.base == base && v.quote == quote && v.pool_idx == pool_idx {
            return Some(v.value);
        }
        i += 1;
    }
    None
}

/// Stores a fresh reading only when it is nonzero or a reading already
/// exists, so a drained pool keeps its record but empty pools stay out.
pub fn record_price(db: &mut Db, value: u128, base: Address, quote: Address, pool_idx: U256)
    ensures
        (value != 0 || spec_has_price(old(db).prices@, base, quote, pool_idx)) ==> final(db).prices@
            == old(db).prices@.filter(
            (|v: PoolScalarEntry| !(v.base == base && v.quote == quote && v.pool_idx == pool_idx)),
        ).push((PoolScalarEntry { base, quote, pool_idx, value })),
        !(value != 0 || spec_has_price(old(db).prices@, base, quote, pool_idx)) ==> final(db).prices@
            == old(db).prices@,
        final(db).liquidity@ == old(db).liquidity@,
        final(db).curves@ == old(db).curves@,
        final(db).init_pools@ == old(db).init_pools@,
        final(db).templates@ == old(db).templates@,
        final(db).swaps@ == old(db).swaps@,
        final(db).revisions@ == old(db).revisions@,
        final(db).mint_ranged@ == old(db).mint_ranged@,
        final(db).burn_ranged@ == old(db).burn_ranged@,
        final(db).harvests@ == old(db).harvests@,
        final(db).mint_ambient@ == old(db).mint_ambient@,
        final(db).burn_ambient@ == old(db).burn_ambient@,
        final(db).mint_knockout@ == old(db).mint_knockout@,
        final(db).burn_knockout@ == old(db).burn_knockout@,
        final(db).withdraw_knockout@ == old(db).withdraw_knockout@,
        final(db).dirty_pools@ == old(db).dirty_pools@,
        final(db).tracked_pools@ == old(db).tracked_pools@,
        final(db).latest_block == old(db).latest_block,
        final(db).syncing == old(db).syncing,
{
    if value != 0 {
        save_price(db, value, base, quote, pool_idx);
        return ;
    }
    match get_price(db, base, quote, pool_idx) {
        Some(_) => {
            save_price(db, value, base, quote, pool_idx);
        },
        None => {},
    }
}

/// Whether a reading is stored for a pool triple.
pub open spec fn spec_has_liquidity(s: Seq<PoolScalarEntry>, base: Address, quote: Address, pool_idx: U256) -> bool {
    exists|j: int|
        0 <= j < s.len() && (#[trigger] s[j]).base == base && s[j].quote == quote && s[j].pool_idx
            == pool_idx
}

/// Stores a reading, replacing the stored one for the triple.
pub fn save_liquidity(db: &mut Db, value: u128, base: Address, quote: Address, pool_idx: U256)
    ensures
        final(db).liquidity@ == old(db).liquidity@.filter(
            (|v: PoolScalarEntry| !(v.base == base && v.quote == quote && v.pool_idx == pool_idx)),
        ).push((PoolScalarEntry { base, quote, pool_idx, value })),
        final(db).prices@ == old(db).prices@,
        final(db).curves@ == old(db).curves@,
        final(db).init_pools@ == old(db).init_pools@,
        final(db).templates@ == old(db).templates@,
        final(db).swaps@ == old(db).swaps@,
        final(db).revisions@ == old(db).revisions@,
        final(db).mint_ranged@ == old(db).mint_ranged@,
        final(db).burn_ranged@ == old(db).burn_ranged@,
        final(db).harvests@ == old(db).harvests@,
        final(db).mint_ambient@ == old(db).mint_ambient@,
        final(db).burn_ambient@ == old(db).burn_ambient@,
        final(db).mint_knockout@ == old(db).mint_knockout@,
        final(db).burn_knockout@ == old(db).burn_knockout@,
        final(db).withdraw_knockout@ == old(db).withdraw_knockout@,
        final(db).dirty_pools@ == old(db).dirty_pools@,
        final(db).tracked_pools@ == old(db).tracked_pools@,
        final(db).latest_block == old(db).latest_block,
        final(db).syncing == old(db).syncing,
{
    let e = PoolScalarEntry { base, quote, pool_idx, value };
    let mut res: Vec<PoolScalarEntry> = Vec::new();
    let mut i: usize = 0;
    while i < db.liquidity.len()
        invariant
            0 <= i <= db.liquidity@.len(),
            res@ == db.liquidity@.take(i as int).filter(
                (|v: PoolScalarEntry| !(v.base == base && v.quote == quote && v.pool_idx == pool_idx)),
            ),
        decreases db.liquidity@.len() - i,
    {
        let v = db.liquidity[i];
        if !(v.base == base && v.quote == quote && v.pool_idx == pool_idx) {
            res.push(v);
        }
        proof {
            reveal_with_fuel(Seq::<PoolScalarEntry>::filter, 3);
            let pre = db.liquidity@.take(i as int);
            let post = db.liquidity@.take(i + 1);
            assert(post.drop_last() =~= pre);
            assert(post.last() == v);
            assert(res@ =~= post.filter(
                (|v: PoolScalarEntry| !(v.base == base && v.quote == quote && v.pool_idx == pool_idx)),
            ));
        }
        i += 1;
    }
    proof {
        assert(db.liquidity@.take(db.liquidity@.len() as int) =~= db.liquidity@);
    }
    res.push(e);
    db.liquidity = res;
}

/// The stored reading of a pool triple.
pub fn get_liquidity(db: &Db, base: Address, quote: Address, pool_idx: U256) -> (r: Option<u128>)
    ensures
        r is Some <==> spec_has_liquidity(db.liquidity@, base, quote, pool_idx),
        r matches Some(v) ==> exists|j: int|
            0 <= j < db.liquidity@.len() && (#[trigger] db.liquidity@[j]).base == base && db.liquidity@[j].quote
                == quote && db.liquidity@[j].pool_idx == pool_idx && db.liquidity@[j].value == v,
{
    let mut i: usize = 0;
    while i < db.liquidity.len()
        invariant
            0 <= i <= db.liquidity@.len(),
            forall|j: int|
                0 <= j < i ==> !((#[trigger] db.liquidity@[j]).base == base && db.liquidity@[j].quote
                    == quote && db.liquidity@[j].pool_idx == pool_idx),
        decreases db.liquidity@.len() - i,
    {
        let v = db.liquidity[i];
        if v.base == base && v.quote == quote && v.pool_idx == pool_idx {
            return Some(v.value);
        }
        i += 1;
    }
    None
}

/// Stores a fresh reading only when it is nonzero or a reading already
/// exists, so a drained pool keeps its record but empty pools stay out.
pub fn record_liquidity(db: &mut Db, value: u128, base: Address, quote: Address, pool_idx: U256)
    ensures
        (value != 0 || spec_has_liquidity(old(db).liquidity@, base, quote, pool_idx)) ==> final(db).liquidity@
            == old(db).liquidity@.filter(
            (|v: PoolScalarEntry| !(v.base == base && v.quote == quote && v.pool_idx == pool_idx)),
        ).push((PoolScalarEntry { base, quote, pool_idx, value })),
        !(value != 0 || spec_has_liquidity(old(db).liquidity@, base, quote, pool_idx)) ==> final(db).liquidity@
            == old(db).liquidity@,
        final(db).prices@ == old(db).prices@,
        final(db).curves@ == old(db).curves@,
        final(db).init_pools@ == old(db).init_pools@,
        final(db).templates@ == old(db).templates@,
        final(db).swaps@ == old(db).swaps@,
        final(db).revisions@ == old(db).revisions@,
        final(db).mint_ranged@ == old(db).mint_ranged@,
        final(db).burn_ranged@ == old(db).burn_ranged@,
        final(db).harvests@ == old(db).harvests@,
        final(db).mint_ambient@ == old(db).mint_ambient@,
        final(db).burn_ambient@ == old(db).burn_ambient@,
        final(db).mint_knockout@ == old(db).mint_knockout@,
        final(db).burn_knockout@ == old(db).burn_knockout@,
        final(db).withdraw_knockout@ == old(db).withdraw_knockout@,
        final(db).dirty_pools@ == old(db).dirty_pools@,
        final(db).tracked_pools@ == old(db).tracked_pools@,
        final(db).latest_block == old(db).latest_block,
        final(db).syncing == old(db).syncing,
{
    if value != 0 {
        save_liquidity(db, value, base, quote, pool_idx);
        return ;
    }
    match get_liquidity(db, base, quote, pool_idx) {
        Some(_) => {
            save_liquidity(db, value, base, quote, pool_idx);
        },
        None => {},
    }
}


/// Whether a curve reading is stored for a pool triple.
pub open spec fn spec_has_curve(s: Seq<PoolCurveEntry>, base: Address, quote: Address, pool_idx: U256) -> bool {
    exists|j: int|
        0 <= j < s.len() && (#[trigger] s[j]).base == base && s[j].quote == quote && s[j].pool_idx
            == pool_idx
}

/// Stores a curve reading, replacing the stored one for the triple.
pub fn save_curve(db: &mut Db, curve: CurveState, base: Address, quote: Address, pool_idx: U256)
    ensures
        final(db).curves@ == old(db).curves@.filter(
            (|v: PoolCurveEntry| !(v.base == base && v.quote == quote && v.pool_idx == pool_idx)),
        ).push((PoolCurveEntry { base, quote, pool_idx, curve })),
        final(db).prices@ == old(db).prices@,
        final(db).liquidity@ == old(db).liquidity@,
        final(db).init_pools@ == old(db).init_pools@,
        final(db).templates@ == old(db).templates@,
        final(db).swaps@ == old(db).swaps@,
        final(db).revisions@ == old(db).revisions@,
        final(db).mint_ranged@ == old(db).mint_ranged@,
        final(db).burn_ranged@ == old(db).burn_ranged@,
        final(db).harvests@ == old(db).harvests@,
        final(db).mint_ambient@ == old(db).mint_ambient@,
        final(db).burn_ambient@ == old(db).burn_ambient@,
        final(db).mint_knockout@ == old(db).mint_knockout@,
        final(db).burn_knockout@ == old(db).burn_knockout@,
        final(db).withdraw_knockout@ == old(db).withdraw_knockout@,
        final(db).dirty_pools@ == old(db).dirty_pools@,
        final(db).tracked_pools@ == old(db).tracked_pools@,
        final(db).latest_block == old(db).latest_block,
        final(db).syncing == old(db).syncing,
{
    let e = PoolCurveEntry { base, quote, pool_idx, curve };
    let mut res: Vec<PoolCurveEntry> = Vec::new();
    let mut i: usize = 0;
    while i < db.curves.len()
        invariant
            0 <= i <= db.curves@.len(),
            res@ == db.curves@.take(i as int).filter(
                (|v: PoolCurveEntry| !(v.base == base && v.quote == quote && v.pool_idx
                    == pool_idx)),
            ),
        decreases db.curves@.len() - i,
    {
        let v = db.curves[i];
        if !(v.base == base && v.quote == quote && v.pool_idx == pool_idx) {
            res.push(v);
        }
        proof {
            reveal_with_fuel(Seq::<PoolCurveEntry>::filter, 3);
            let pre = db.curves@.take(i as int);
            let post = db.curves@.take(i + 1);
            assert(post.drop_last() =~= pre);
            assert(post.last() == v);
            assert(res@ =~= post.filter(
                (|v: PoolCurveEntry| !(v.base == base && v.quote == quote && v.pool_idx
                    == pool_idx)),
            ));
        }
        i += 1;
    }
    proof {
        assert(db.curves@.take(db.curves@.len() as int) =~= db.curves@);
    }
    res.push(e);
    db.curves = res;
}

/// The stored curve reading of a pool triple.
pub fn get_curve(db: &Db, base: Address, quote: Address, pool_idx: U256) -> (r: Option<CurveState>)
    ensures
        r is Some <==> spec_has_curve(db.curves@, base, quote, pool_idx),
        r matches Some(v) ==> exists|j: int|
            0 <= j < db.curves@.len() && (#[trigger] db.curves@[j]).base == base
                && db.curves@[j].quote == quote && db.curves@[j].pool_idx == pool_idx
                && db.curves@[j].curve == v,
{
    let mut i: usize = 0;
    while i < db.curves.len()
        invariant
            0 <= i <= db.curves@.len(),
            forall|j: int|
                0 <= j < i ==> !((#[trigger] db.curves@[j]).base == base && db.curves@[j].quote
                    == quote && db.curves@[j].pool_idx == pool_idx),
        decreases db.curves@.len() - i,
    {
        let v = db.curves[i];
        if v.base == base && v.quote == quote && v.pool_idx == pool_idx {
            return Some(v.curve);
        }
        i += 1;
    }
    None
}

/// Stores a fresh curve reading only when it is nonzero or a reading
/// already exists, preserving the record of a pool drained to zero.
pub fn record_curve(db: &mut Db, curve: CurveState, base: Address, quote: Address, pool_idx: U256)
    ensures
        (!(curve.price_root == 0 && curve.ambient_seeds == 0 && curve.conc_liq == 0)
            || spec_has_curve(old(db).curves@, base, quote, pool_idx)) ==> final(db).curves@ == old(
            db,
        ).curves@.filter(
            (|v: PoolCurveEntry| !(v.base == base && v.quote == quote && v.pool_idx == pool_idx)),
        ).push((PoolCurveEntry { base, quote, pool_idx, curve })),
        ((curve.price_root == 0 && curve.ambient_seeds == 0 && curve.conc_liq == 0)
            && !spec_has_curve(old(db).curves@, base, quote, pool_idx)) ==> final(db).curves@ == old(
            db,
        ).curves@,
        final(db).prices@ == old(db).prices@,
        final(db).liquidity@ == old(db).liquidity@,
        final(db).init_pools@ == old(db).init_pools@,
        final(db).templates@ == old(db).templates@,
        final(db).swaps@ == old(db).swaps@,
        final(db).revisions@ == old(db).revisions@,
        final(db).mint_ranged@ == old(db).mint_ranged@,
        final(db).burn_ranged@ == old(db).burn_ranged@,
        final(db).harvests@ == old(db).harvests@,
        final(db).mint_ambient@ == old(db).mint_ambient@,
        final(db).burn_ambient@ == old(db).burn_ambient@,
        final(db).mint_knockout@ == old(db).mint_knockout@,
        final(db).burn_knockout@ == old(db).burn_knockout@,
        final(db).withdraw_knockout@ == old(db).withdraw_knockout@,
        final(db).dirty_pools@ == old(db).dirty_pools@,
        final(db).tracked_pools@ == old(db).tracked_pools@,
        final(db).latest_block == old(db).latest_block,
        final(db).syncing == old(db).syncing,
{
    if !curve.is_zero() {
        save_curve(db, curve, base, quote, pool_idx);
        return ;
    }
    match get_curve(db, base, quote, pool_idx) {
        Some(_) => {
            save_curve(db, curve, base, quote, pool_idx);
        },
        None => {},
    }
}

/// The trackers a reset leaves: one dirty tracker at block zero per
/// stored creation record, a later record shadowing any earlier one for
/// the same pool, and nothing else.
pub open spec fn spec_reset_trackers(s: Seq<InitPoolEvent>) -> Seq<DirtyPoolTracker>
    decreases s.len(),
{
    if s.len() == 0 {
        Seq::empty()
    } else {
        let rest = spec_reset_trackers(s.drop_last());
        let base = s.last().base;
        let quote = s.last().quote;
        let pool_idx = s.last().pool_idx;
        seq![
            DirtyPoolTracker {
                dirty: true,
                last_block: crate::u256::u256_zero(),
                base,
                quote,
                pool_idx,
            },
        ] + rest.filter(
            (|v: DirtyPoolTracker| !(v.base == base && v.quote == quote && v.pool_idx
                == pool_idx)),
        )
    }
}

/// Forgets every dirty tracker and every derived pool state, then marks
/// each pool with a stored creation record dirty from block zero, so the
/// state machine rebuilds it from scratch.
pub fn reset_all_pool_indexes(db: &mut Db)
    ensures
        final(db).tracked_pools@ =~= Seq::<TrackedPool>::empty(),
        final(db).dirty_pools@ == spec_reset_trackers(old(db).init_pools@),
        forall|k: int|
            0 <= k < old(db).init_pools@.len() ==> (#[trigger] spec_first_dirty(
                final(db).dirty_pools@,
                old(db).init_pools@[k].base,
                old(db).init_pools@[k].quote,
                old(db).init_pools@[k].pool_idx,
            ) matches Some(t) && t.dirty && t.last_block.as_nat() == 0),
        final(db).init_pools@ == old(db).init_pools@,
        final(db).templates@ == old(db).templates@,
        final(db).swaps@ == old(db).swaps@,
        final(db).revisions@ == old(db).revisions@,
        final(db).mint_ranged@ == old(db).mint_ranged@,
        final(db).burn_ranged@ == old(db).burn_ranged@,
        final(db).harvests@ == old(db).harvests@,
        final(db).mint_ambient@ == old(db).mint_ambient@,
        final(db).burn_ambient@ == old(db).burn_ambient@,
        final(db).mint_knockout@ == old(db).mint_knockout@,
        final(db).burn_knockout@ == old(db).burn_knockout@,
        final(db).withdraw_knockout@ == old(db).withdraw_knockout@,
        final(db).prices@ == old(db).prices@,
        final(db).liquidity@ == old(db).liquidity@,
        final(db).curves@ == old(db).curves@,
        final(db).latest_block == old(db).latest_block,
        final(db).syncing == old(db).syncing,
{
    db.tracked_pools = Vec::new();
    db.dirty_pools = Vec::new();
    let mut i: usize = 0;
    proof {
        assert(db.init_pools@.take(0).len() == 0);
        assert(db.dirty_pools@ =~= spec_reset_trackers(db.init_pools@.take(0)));
    }
    while i < db.init_pools.len()
        invariant
            0 <= i <= db.init_pools@.len(),
            db.init_pools@ == old(db).init_pools@,
            db.dirty_pools@ == spec_reset_trackers(db.init_pools@.take(i as int)),
            db.tracked_pools@ =~= Seq::<TrackedPool>::empty(),
            db.templates@ == old(db).templates@,
            db.swaps@ == old(db).swaps@,
            db.revisions@ == old(db).revisions@,
            db.mint_ranged@ == old(db).mint_ranged@,
            db.burn_ranged@ == old(db).burn_ranged@,
            db.harvests@ == old(db).harvests@,
            db.mint_ambient@ == old(db).mint_ambient@,
            db.burn_ambient@ == old(db).burn_ambient@,
            db.mint_knockout@ == old(db).mint_knockout@,
            db.burn_knockout@ == old(db).burn_knockout@,
            db.withdraw_knockout@ == old(db).withdraw_knockout@,
            db.prices@ == old(db).prices@,
            db.liquidity@ == old(db).liquidity@,
            db.curves@ == old(db).curves@,
            db.latest_block == old(db).latest_block,
            db.syncing == old(db).syncing,
            forall|k: int|
                0 <= k < i ==> (#[trigger] spec_first_dirty(
                    db.dirty_pools@,
                    db.init_pools@[k].base,
                    db.init_pools@[k].quote,
                    db.init_pools@[k].pool_idx,
                ) matches Some(t) && t.dirty && t.last_block.as_nat() == 0),
        decreases db.init_pools@.len() - i,
    {
        let e = db.init_pools[i];
        let ghost pre = db.dirty_pools@;
        set_dirty_pool(db, e.base, e.quote, e.pool_idx, true, U256::zero());
        proof {
            let post = db.init_pools@.take(i + 1);
            assert(post.drop_last() =~= db.init_pools@.take(i as int));
            assert(post.last() == e);
            assert(db.dirty_pools@ =~= spec_reset_trackers(post));
        }
        i += 1;
    }
    proof {
        assert(db.init_pools@.take(db.init_pools@.len() as int) =~= db.init_pools@);
    }
}

/// Replay order: by block, then by the log index within the block.
pub open spec fn spec_upd_le(a: PoolUpdateEvent, b: PoolUpdateEvent) -> bool {
    a.block.as_nat() < b.block.as_nat() || (a.block.as_nat() == b.block.as_nat()
        && a.index.as_nat() <= b.index.as_nat())
}

/// Whether a batch is in replay order.
pub open spec fn updates_sorted(s: Seq<PoolUpdateEvent>) -> bool {
    forall|i: int, j: int| 0 <= i < j < s.len() ==> spec_upd_le(#[trigger] s[i], #[trigger] s[j])
}

/// Replay-order comparison of two updates.
pub fn upd_le(a: &PoolUpdateEvent, b: &PoolUpdateEvent) -> (r: bool)
    ensures
        r == spec_upd_le(*a, *b),
{
    if a.block.lt(&b.block) {
        true
    } else if b.block.lt(&a.block) {
        false
    } else {
        a.index.le(&b.index)
    }
}

/// Sorts a batch of updates into replay order.  Updates with equal block
/// and index keep no particular relative order beyond the multiset.
pub fn sort_updates(v: &Vec<PoolUpdateEvent>) -> (r: Vec<PoolUpdateEvent>)
    ensures
        updates_sorted(r@),
        r@.to_multiset() == v@.to_multiset(),
{
    broadcast use vstd::seq_lib::group_to_multiset_ensures;

    let mut res: Vec<PoolUpdateEvent> = Vec::new();
    let mut i: usize = 0;
    proof {
        assert(v@.take(0) =~= Seq::<PoolUpdateEvent>::empty());
        assert(res@.to_multiset() =~= v@.take(0).to_multiset());
    }
    while i < v.len()
        invariant
            0 <= i <= v@.len(),
            updates_sorted(res@),
            res@.to_multiset() == v@.take(i as int).to_multiset(),
        decreases v@.len() - i,
    {
        broadcast use vstd::seq_lib::group_to_multiset_ensures;

        let e = v[i];
        let mut pos: usize = res.len();
        while pos > 0 && !upd_le(&res[pos - 1], &e)
            invariant
                0 <= pos <= res@.len(),
                forall|j: int| pos <= j < res@.len() ==> !spec_upd_le(#[trigger] res@[j], e),
            decreases pos,
        {
            pos = pos - 1;
        }
        let ghost before = res@;
        res.insert(pos, e);
        proof {
            assert(res@ =~= before.take(pos as int) + seq![e] + before.skip(pos as int));
            assert(updates_sorted(res@)) by {
                assert(forall|j: int| 0 <= j < pos ==> res@[j] == before[j]);
                assert(res@[pos as int] == e);
                assert(forall|j: int|
                    pos < j < res@.len() ==> res@[j] == before[j - 1]);
                assert(forall|j: int|
                    0 <= j < pos ==> spec_upd_le(#[trigger] before[j], e)) by {
                    if pos > 0 {
                        assert(spec_upd_le(before[pos - 1], e));
                    }
                }
                assert(forall|j: int|
                    pos <= j < before.len() ==> spec_upd_le(e, #[trigger] before[j]));
            }
            vstd::seq_lib::lemma_multiset_commutative(
                before.take(pos as int) + seq![e],
                before.skip(pos as int),
            );
            vstd::seq_lib::lemma_multiset_commutative(before.take(pos as int), seq![e]);
            vstd::seq_lib::lemma_multiset_commutative(
                before.take(pos as int),
                before.skip(pos as int),
            );
            assert(before.take(pos as int) + before.skip(pos as int) =~= before);
            assert(seq![e] =~= Seq::<PoolUpdateEvent>::empty().push(e));
            assert(seq![e].to_multiset() =~= Multiset::<PoolUpdateEvent>::empty().insert(e));
            assert(res@.to_multiset() =~= before.to_multiset().insert(e));
            assert(v@.take(i + 1) =~= v@.take(i as int).push(e));
            assert(res@.to_multiset() =~= v@.take(i + 1).to_multiset());
        }
        i += 1;
    }
    proof {
        assert(v@.take(v@.len() as int) =~= v@);
    }
    res
}


/// Folds one update into its pool's derived state.
///
/// A pool whose tracker is missing or still at block zero is initialized
/// from this update, which then must be its InitPool record: the template
/// must be stored and the flows non-negative.  Otherwise the stored state
/// is folded one step.  On success the pool is marked fresh at the
/// update's block and the new state is stored.
pub fn update_pool(db: &mut Db, update: &PoolUpdateEvent) -> (r: Result<(), IndexerError>)
    requires
        crate::updates::spec_update_wf(*update),
    ensures
        ({
            let dirty0 = spec_first_dirty(
                old(db).dirty_pools@,
                update.base,
                update.quote,
                update.pool_idx,
            );
            let not_init = dirty0 is None || dirty0->0.last_block.as_nat() == 0;
            let tpl = spec_first_template(old(db).templates@, update.pool_idx);
            let prev = spec_last_tracked(
                old(db).tracked_pools@,
                update.base,
                update.quote,
                update.pool_idx,
            );
            &&& (not_init ==> ((r is Ok) <==> (tpl is Some && update.base_flow >= 0
                && update.quote_flow >= 0 && !update.ambient_liq.negative)))
            &&& (not_init && r is Ok ==> spec_last_tracked(
                final(db).tracked_pools@,
                update.base,
                update.quote,
                update.pool_idx,
            ) == Some(crate::tracking::spec_handle_init_pool(tpl->0, *update)))
            &&& (!not_init ==> ((r is Ok) <==> (prev is Some && crate::tracking::spec_handle_update(
                prev->0,
                *update,
            ) is Some)))
            &&& (!not_init && r is Ok ==> spec_last_tracked(
                final(db).tracked_pools@,
                update.base,
                update.quote,
                update.pool_idx,
            ) == crate::tracking::spec_handle_update(prev->0, *update))
            &&& (r is Ok ==> (spec_first_dirty(
                final(db).dirty_pools@,
                update.base,
                update.quote,
                update.pool_idx,
            ) matches Some(t) && !t.dirty && t.last_block == update.block))
            &&& (r is Ok ==> forall|b2: Address, q2: Address, ix2: U256|
                !(b2 == update.base && q2 == update.quote && ix2 == update.pool_idx)
                    ==> #[trigger] spec_last_tracked(final(db).tracked_pools@, b2, q2, ix2)
                    == spec_last_tracked(old(db).tracked_pools@, b2, q2, ix2))
            &&& (r is Ok ==> forall|b2: Address, q2: Address, ix2: U256|
                !(b2 == update.base && q2 == update.quote && ix2 == update.pool_idx)
                    ==> #[trigger] spec_first_dirty(final(db).dirty_pools@, b2, q2, ix2)
                    == spec_first_dirty(old(db).dirty_pools@, b2, q2, ix2))
            &&& (r is Err ==> final(db).dirty_pools@ == old(db).dirty_pools@)
            &&& (r is Err ==> final(db).tracked_pools@ == old(db).tracked_pools@)
        }),
        final(db).init_pools@ == old(db).init_pools@,
        final(db).templates@ == old(db).templates@,
        final(db).swaps@ == old(db).swaps@,
        final(db).revisions@ == old(db).revisions@,
        final(db).mint_ranged@ == old(db).mint_ranged@,
        final(db).burn_ranged@ == old(db).burn_ranged@,
        final(db).harvests@ == old(db).harvests@,
        final(db).mint_ambient@ == old(db).mint_ambient@,
        final(db).burn_ambient@ == old(db).burn_ambient@,
        final(db).mint_knockout@ == old(db).mint_knockout@,
        final(db).burn_knockout@ == old(db).burn_knockout@,
        final(db).withdraw_knockout@ == old(db).withdraw_knockout@,
        final(db).prices@ == old(db).prices@,
        final(db).liquidity@ == old(db).liquidity@,
        final(db).curves@ == old(db).curves@,
        final(db).latest_block == old(db).latest_block,
        final(db).syncing == old(db).syncing,
        r matches Err(e) ==> !(e is InvalidEventLog),
{
    let dirty_status = get_dirty_pool(db, update.base, update.quote, update.pool_idx);
    let not_initialized = match &dirty_status {
        None => true,
        Some(p) => p.1.is_zero(),
    };
    let pool = if not_initialized {
        let template = match get_pool_template(db, update.pool_idx) {
            Some(t) => t,
            None => {
                return Err(IndexerError::MissingTemplate);
            },
        };
        if update.base_flow < 0 || update.quote_flow < 0 || update.ambient_liq.negative {
            return Err(IndexerError::InvalidInitFlows);
        }
        handle_init_pool(&template, update)
    } else {
        let prev = match get_tracked_pool(db, update.base, update.quote, update.pool_idx) {
            Some(p) => p,
            None => {
                return Err(IndexerError::MissingPool);
            },
        };
        match handle_update(prev, update) {
            Ok(q) => q,
            Err(e) => {
                return Err(e);
            },
        }
    };
    mark_pool_fresh(db, update.base, update.quote, update.pool_idx, update.block);
    set_tracked_pool(db, pool);
    proof {
        let dirty0 = spec_first_dirty(
            old(db).dirty_pools@,
            update.base,
            update.quote,
            update.pool_idx,
        );
        let not_init = dirty0 is None || dirty0->0.last_block.as_nat() == 0;
        let tpl = spec_first_template(old(db).templates@, update.pool_idx);
        let prev = spec_last_tracked(
            old(db).tracked_pools@,
            update.base,
            update.quote,
            update.pool_idx,
        );
        assert(not_init == not_initialized);
        if not_initialized {
            assert(pool@ == crate::tracking::spec_handle_init_pool(tpl->0, *update));
            assert(pool.base == update.base && pool.quote == update.quote && pool.pool_idx
                == update.pool_idx);
        } else {
            assert(Some(pool@) == crate::tracking::spec_handle_update(prev->0, *update));
            assert(pool.base == update.base && pool.quote == update.quote && pool.pool_idx
                == update.pool_idx);
        }
        assert(spec_last_tracked(
            db.tracked_pools@,
            update.base,
            update.quote,
            update.pool_idx,
        ) == Some(pool@));
        assert(spec_first_dirty(db.dirty_pools@, update.base, update.quote, update.pool_idx)
            matches Some(t) && !t.dirty && t.last_block == update.block);
    }
    Ok(())
}

/// The pending conversions of one record family: every stored record
/// strictly after `lb`, in storage order, in uniform update shape.
pub open spec fn spec_pending_mint_ambient(db: Db, lb: U256) -> Seq<PoolUpdateEvent> {
    spec_mint_ambient_after_block(db.mint_ambient@, lb).map_values(
        (|e: MintAmbientEvent| crate::updates::spec_update_from_mint_ambient(e)),
    )
}

pub open spec fn spec_pending_burn_ambient(db: Db, lb: U256) -> Seq<PoolUpdateEvent> {
    spec_burn_ambient_after_block(db.burn_ambient@, lb).map_values(
        (|e: BurnAmbientEvent| crate::updates::spec_update_from_burn_ambient(e)),
    )
}

pub open spec fn spec_pending_mint_ranged(db: Db, lb: U256) -> Seq<PoolUpdateEvent> {
    spec_mint_ranged_after_block(db.mint_ranged@, lb).map_values(
        (|e: MintRangedEvent| crate::updates::spec_update_from_mint_ranged(e)),
    )
}

pub open spec fn spec_pending_burn_ranged(db: Db, lb: U256) -> Seq<PoolUpdateEvent> {
    spec_burn_ranged_after_block(db.burn_ranged@, lb).map_values(
        (|e: BurnRangedEvent| crate::updates::spec_update_from_burn_ranged(e)),
    )
}

pub open spec fn spec_pending_harvest(db: Db, lb: U256) -> Seq<PoolUpdateEvent> {
    spec_harvest_after_block(db.harvests@, lb).map_values(
        (|e: HarvestEvent| crate::updates::spec_update_from_harvest(e)),
    )
}

pub open spec fn spec_pending_mint_knockout(db: Db, lb: U256) -> Seq<PoolUpdateEvent> {
    spec_mint_knockout_after_block(db.mint_knockout@, lb).map_values(
        (|e: MintKnockoutEvent| crate::updates::spec_update_from_mint_knockout(e)),
    )
}

pub open spec fn spec_pending_burn_knockout(db: Db, lb: U256) -> Seq<PoolUpdateEvent> {
    spec_burn_knockout_after_block(db.burn_knockout@, lb).map_values(
        (|e: BurnKnockoutEvent| crate::updates::spec_update_from_burn_knockout(e)),
    )
}

pub open spec fn spec_pending_withdraw_knockout(db: Db, lb: U256) -> Seq<PoolUpdateEvent> {
    spec_withdraw_knockout_after_block(db.withdraw_knockout@, lb).map_values(
        (|e: WithdrawKnockoutEvent| crate::updates::spec_update_from_withdraw_knockout(e)),
    )
}

pub open spec fn spec_pending_swap(db: Db, lb: U256) -> Seq<PoolUpdateEvent> {
    spec_swap_after_block(db.swaps@, lb).map_values(
        (|e: SwapEvent| crate::updates::spec_update_from_swap(e)),
    )
}

pub open spec fn spec_pending_revision(db: Db, lb: U256) -> Seq<PoolUpdateEvent> {
    spec_revision_after_block(db.revisions@, lb).map_values(
        (|e: PoolRevisionEvent| crate::updates::spec_update_from_pool_revision(e)),
    )
}

/// Everything a replay past `lb` folds, before ordering: the pending
/// conversions of the ten record families, family by family.
pub open spec fn spec_pending_updates(db: Db, lb: U256) -> Seq<PoolUpdateEvent> {
    spec_pending_mint_ambient(db, lb) + spec_pending_burn_ambient(db, lb) + spec_pending_mint_ranged(db, lb) + spec_pending_burn_ranged(db, lb) + spec_pending_harvest(db, lb) + spec_pending_mint_knockout(db, lb) + spec_pending_burn_knockout(db, lb) + spec_pending_withdraw_knockout(db, lb) + spec_pending_swap(db, lb) + spec_pending_revision(db, lb)
}

/// Gathers every stored event of every variant strictly after `lb` and
/// puts the batch into replay order.
pub fn pending_updates(db: &Db, lb: &U256) -> (r: Vec<PoolUpdateEvent>)
    ensures
        updates_sorted(r@),
        r@.to_multiset() == spec_pending_updates(*db, *lb).to_multiset(),
        forall|j: int|
            0 <= j < r@.len() ==> crate::updates::spec_update_wf(#[trigger] r@[j]),
{
    let mut updates: Vec<PoolUpdateEvent> = Vec::new();
    let batch = get_all_mint_ambient_after_block(db, lb);
    let ghost done = Seq::<PoolUpdateEvent>::empty();
    proof {
        assert(updates@ =~= done + spec_pending_mint_ambient(*db, *lb).take(0));
    }
    let mut i: usize = 0;
    while i < batch.len()
        invariant
            0 <= i <= batch@.len(),
            batch@ == spec_mint_ambient_after_block(db.mint_ambient@, *lb),
            batch@.len() == spec_pending_mint_ambient(*db, *lb).len(),
            updates@ == done + spec_pending_mint_ambient(*db, *lb).take(i as int),
            forall|j: int|
                0 <= j < updates@.len() ==> crate::updates::spec_update_wf(
                    #[trigger] updates@[j],
                ),
        decreases batch@.len() - i,
    {
        updates.push(PoolUpdateEvent::from_mint_ambient(&batch[i]));
        proof {
            assert(spec_pending_mint_ambient(*db, *lb)[i as int] == crate::updates::spec_update_from_mint_ambient(
                batch@[i as int],
            ));
            assert(updates@ =~= done + spec_pending_mint_ambient(*db, *lb).take(i + 1));
        }
        i += 1;
    }
    proof {
        assert(spec_pending_mint_ambient(*db, *lb).take(spec_pending_mint_ambient(*db, *lb).len() as int)
            =~= spec_pending_mint_ambient(*db, *lb));
    }

    let batch = get_all_burn_ambient_after_block(db, lb);
    let ghost done = spec_pending_mint_ambient(*db, *lb);
    proof {
        assert(updates@ =~= done + spec_pending_burn_ambient(*db, *lb).take(0));
    }
    let mut i: usize = 0;
    while i < batch.len()
        invariant
            0 <= i <= batch@.len(),
            batch@ == spec_burn_ambient_after_block(db.burn_ambient@, *lb),
            batch@.len() == spec_pending_burn_ambient(*db, *lb).len(),
            updates@ == done + spec_pending_burn_ambient(*db, *lb).take(i as int),
            forall|j: int|
                0 <= j < updates@.len() ==> crate::updates::spec_update_wf(
                    #[trigger] updates@[j],
                ),
        decreases batch@.len() - i,
    {
        updates.push(PoolUpdateEvent::from_burn_ambient(&batch[i]));
        proof {
            assert(spec_pending_burn_ambient(*db, *lb)[i as int] == crate::updates::spec_update_from_burn_ambient(
                batch@[i as int],
            ));
            assert(updates@ =~= done + spec_pending_burn_ambient(*db, *lb).take(i + 1));
        }
        i += 1;
    }
    proof {
        assert(spec_pending_burn_ambient(*db, *lb).take(spec_pending_burn_ambient(*db, *lb).len() as int)
            =~= spec_pending_burn_ambient(*db, *lb));
    }

    let batch = get_all_mint_ranged_after_block(db, lb);
    let ghost done = spec_pending_mint_ambient(*db, *lb) + spec_pending_burn_ambient(*db, *lb);
    proof {
        assert(updates@ =~= done + spec_pending_mint_ranged(*db, *lb).take(0));
    }
    let mut i: usize = 0;
    while i < batch.len()
        invariant
            0 <= i <= batch@.len(),
            batch@ == spec_mint_ranged_after_block(db.mint_ranged@, *lb),
            batch@.len() == spec_pending_mint_ranged(*db, *lb).len(),
            updates@ == done + spec_pending_mint_ranged(*db, *lb).take(i as int),
            forall|j: int|
                0 <= j < updates@.len() ==> crate::updates::spec_update_wf(
                    #[trigger] updates@[j],
                ),
        decreases batch@.len() - i,
    {
        updates.push(PoolUpdateEvent::from_mint_ranged(&batch[i]));
        proof {
            assert(spec_pending_mint_ranged(*db, *lb)[i as int] == crate::updates::spec_update_from_mint_ranged(
                batch@[i as int],
            ));
            assert(updates@ =~= done + spec_pending_mint_ranged(*db, *lb).take(i + 1));
        }
        i += 1;
    }
    proof {
        assert(spec_pending_mint_ranged(*db, *lb).take(spec_pending_mint_ranged(*db, *lb).len() as int)
            =~= spec_pending_mint_ranged(*db, *lb));
    }

    let batch = get_all_burn_ranged_after_block(db, lb);
    let ghost done = spec_pending_mint_ambient(*db, *lb) + spec_pending_burn_ambient(*db, *lb) + spec_pending_mint_ranged(*db, *lb);
    proof {
        assert(updates@ =~= done + spec_pending_burn_ranged(*db, *lb).take(0));
    }
    let mut i: usize = 0;
    while i < batch.len()
        invariant
            0 <= i <= batch@.len(),
            batch@ == spec_burn_ranged_after_block(db.burn_ranged@, *lb),
            batch@.len() == spec_pending_burn_ranged(*db, *lb).len(),
            updates@ == done + spec_pending_burn_ranged(*db, *lb).take(i as int),
            forall|j: int|
                0 <= j < updates@.len() ==> crate::updates::spec_update_wf(
                    #[trigger] updates@[j],
                ),
        decreases batch@.len() - i,
    {
        updates.push(PoolUpdateEvent::from_burn_ranged(&batch[i]));
        proof {
            assert(spec_pending_burn_ranged(*db, *lb)[i as int] == crate::updates::spec_update_from_burn_ranged(
                batch@[i as int],
            ));
            assert(updates@ =~= done + spec_pending_burn_ranged(*db, *lb).take(i + 1));
        }
        i += 1;
    }
    proof {
        assert(spec_pending_burn_ranged(*db, *lb).take(spec_pending_burn_ranged(*db, *lb).len() as int)
            =~= spec_pending_burn_ranged(*db, *lb));
    }

    let batch = get_all_harvest_after_block(db, lb);
    let ghost done = spec_pending_mint_ambient(*db, *lb) + spec_pending_burn_ambient(*db, *lb) + spec_pending_mint_ranged(*db, *lb) + spec_pending_burn_ranged(*db, *lb);
    proof {
        assert(updates@ =~= done + spec_pending_harvest(*db, *lb).take(0));
    }
    let mut i: usize = 0;
    while i < batch.len()
        invariant
            0 <= i <= batch@.len(),
            batch@ == spec_harvest_after_block(db.harvests@, *lb),
            batch@.len() == spec_pending_harvest(*db, *lb).len(),
            updates@ == done + spec_pending_harvest(*db, *lb).take(i as int),
            forall|j: int|
                0 <= j < updates@.len() ==> crate::updates::spec_update_wf(
                    #[trigger] updates@[j],
                ),
        decreases batch@.len() - i,
    {
        updates.push(PoolUpdateEvent::from_harvest(&batch[i]));
        proof {
            assert(spec_pending_harvest(*db, *lb)[i as int] == crate::updates::spec_update_from_harvest(
                batch@[i as int],
            ));
            assert(updates@ =~= done + spec_pending_harvest(*db, *lb).take(i + 1));
        }
        i += 1;
    }
    proof {
        assert(spec_pending_harvest(*db, *lb).take(spec_pending_harvest(*db, *lb).len() as int)
            =~= spec_pending_harvest(*db, *lb));
    }

    let batch = get_all_mint_knockout_after_block(db, lb);
    let ghost done = spec_pending_mint_ambient(*db, *lb) + spec_pending_burn_ambient(*db, *lb) + spec_pending_mint_ranged(*db, *lb) + spec_pending_burn_ranged(*db, *lb) + spec_pending_harvest(*db, *lb);
    proof {
        assert(updates@ =~= done + spec_pending_mint_knockout(*db, *lb).take(0));
    }
    let mut i: usize = 0;
    while i < batch.len()
        invariant
            0 <= i <= batch@.len(),
            batch@ == spec_mint_knockout_after_block(db.mint_knockout@, *lb),
            batch@.len() == spec_pending_mint_knockout(*db, *lb).len(),
            updates@ == done + spec_pending_mint_knockout(*db, *lb).take(i as int),
            forall|j: int|
                0 <= j < updates@.len() ==> crate::updates::spec_update_wf(
                    #[trigger] updates@[j],
                ),
        decreases batch@.len() - i,
    {
        updates.push(PoolUpdateEvent::from_mint_knockout(&batch[i]));
        proof {
            assert(spec_pending_mint_knockout(*db, *lb)[i as int] == crate::updates::spec_update_from_mint_knockout(
                batch@[i as int],
            ));
            assert(updates@ =~= done + spec_pending_mint_knockout(*db, *lb).take(i + 1));
        }
        i += 1;
    }
    proof {
        assert(spec_pending_mint_knockout(*db, *lb).take(spec_pending_mint_knockout(*db, *lb).len() as int)
            =~= spec_pending_mint_knockout(*db, *lb));
    }

    let batch = get_all_burn_knockout_after_block(db, lb);
    let ghost done = spec_pending_mint_ambient(*db, *lb) + spec_pending_burn_ambient(*db, *lb) + spec_pending_mint_ranged(*db, *lb) + spec_pending_burn_ranged(*db, *lb) + spec_pending_harvest(*db, *lb) + spec_pending_mint_knockout(*db, *lb);
    proof {
        assert(updates@ =~= done + spec_pending_burn_knockout(*db, *lb).take(0));
    }
    let mut i: usize = 0;
    while i < batch.len()
        invariant
            0 <= i <= batch@.len(),
            batch@ == spec_burn_knockout_after_block(db.burn_knockout@, *lb),
            batch@.len() == spec_pending_burn_knockout(*db, *lb).len(),
            updates@ == done + spec_pending_burn_knockout(*db, *lb).take(i as int),
            forall|j: int|
                0 <= j < updates@.len() ==> crate::updates::spec_update_wf(
                    #[trigger] updates@[j],
                ),
        decreases batch@.len() - i,
    {
        updates.push(PoolUpdateEvent::from_burn_knockout(&batch[i]));
        proof {
            assert(spec_pending_burn_knockout(*db, *lb)[i as int] == crate::updates::spec_update_from_burn_knockout(
                batch@[i as int],
            ));
            assert(updates@ =~= done + spec_pending_burn_knockout(*db, *lb).take(i + 1));
        }
        i += 1;
    }
    proof {
        assert(spec_pending_burn_knockout(*db, *lb).take(spec_pending_burn_knockout(*db, *lb).len() as int)
            =~= spec_pending_burn_knockout(*db, *lb));
    }

    let batch = get_all_withdraw_knockout_after_block(db, lb);
    let ghost done = spec_pending_mint_ambient(*db, *lb) + spec_pending_burn_ambient(*db, *lb) + spec_pending_mint_ranged(*db, *lb) + spec_pending_burn_ranged(*db, *lb) + spec_pending_harvest(*db, *lb) + spec_pending_mint_knockout(*db, *lb) + spec_pending_burn_knockout(*db, *lb);
    proof {
        assert(updates@ =~= done + spec_pending_withdraw_knockout(*db, *lb).take(0));
    }
    let mut i: usize = 0;
    while i < batch.len()
        invariant
            0 <= i <= batch@.len(),
            batch@ == spec_withdraw_knockout_after_block(db.withdraw_knockout@, *lb),
            batch@.len() == spec_pending_withdraw_knockout(*db, *lb).len(),
            updates@ == done + spec_pending_withdraw_knockout(*db, *lb).take(i as int),
            forall|j: int|
                0 <= j < updates@.len() ==> crate::updates::spec_update_wf(
                    #[trigger] updates@[j],
                ),
        decreases batch@.len() - i,
    {
        updates.push(PoolUpdateEvent::from_withdraw_knockout(&batch[i]));
        proof {
            assert(spec_pending_withdraw_knockout(*db, *lb)[i as int] == crate::updates::spec_update_from_withdraw_knockout(
                batch@[i as int],
            ));
            assert(updates@ =~= done + spec_pending_withdraw_knockout(*db, *lb).take(i + 1));
        }
        i += 1;
    }
    proof {
        assert(spec_pending_withdraw_knockout(*db, *lb).take(spec_pending_withdraw_knockout(*db, *lb).len() as int)
            =~= spec_pending_withdraw_knockout(*db, *lb));
    }

    let batch = get_all_swap_after_block(db, lb);
    let ghost done = spec_pending_mint_ambient(*db, *lb) + spec_pending_burn_ambient(*db, *lb) + spec_pending_mint_ranged(*db, *lb) + spec_pending_burn_ranged(*db, *lb) + spec_pending_harvest(*db, *lb) + spec_pending_mint_knockout(*db, *lb) + spec_pending_burn_knockout(*db, *lb) + spec_pending_withdraw_knockout(*db, *lb);
    proof {
        assert(updates@ =~= done + spec_pending_swap(*db, *lb).take(0));
    }
    let mut i: usize = 0;
    while i < batch.len()
        invariant
            0 <= i <= batch@.len(),
            batch@ == spec_swap_after_block(db.swaps@, *lb),
            batch@.len() == spec_pending_swap(*db, *lb).len(),
            updates@ == done + spec_pending_swap(*db, *lb).take(i as int),
            forall|j: int|
                0 <= j < updates@.len() ==> crate::updates::spec_update_wf(
                    #[trigger] updates@[j],
                ),
        decreases batch@.len() - i,
    {
        updates.push(PoolUpdateEvent::from_swap(&batch[i]));
        proof {
            assert(spec_pending_swap(*db, *lb)[i as int] == crate::updates::spec_update_from_swap(
                batch@[i as int],
            ));
            assert(updates@ =~= done + spec_pending_swap(*db, *lb).take(i + 1));
        }
        i += 1;
    }
    proof {
        assert(spec_pending_swap(*db, *lb).take(spec_pending_swap(*db, *lb).len() as int)
            =~= spec_pending_swap(*db, *lb));
    }

    let batch = get_all_revision_after_block(db, lb);
    let ghost done = spec_pending_mint_ambient(*db, *lb) + spec_pending_burn_ambient(*db, *lb) + spec_pending_mint_ranged(*db, *lb) + spec_pending_burn_ranged(*db, *lb) + spec_pending_harvest(*db, *lb) + spec_pending_mint_knockout(*db, *lb) + spec_pending_burn_knockout(*db, *lb) + spec_pending_withdraw_knockout(*db, *lb) + spec_pending_swap(*db, *lb);
    proof {
        assert(updates@ =~= done + spec_pending_revision(*db, *lb).take(0));
    }
    let mut i: usize = 0;
    while i < batch.len()
        invariant
            0 <= i <= batch@.len(),
            batch@ == spec_revision_after_block(db.revisions@, *lb),
            batch@.len() == spec_pending_revision(*db, *lb).len(),
            updates@ == done + spec_pending_revision(*db, *lb).take(i as int),
            forall|j: int|
                0 <= j < updates@.len() ==> crate::updates::spec_update_wf(
                    #[trigger] updates@[j],
                ),
        decreases batch@.len() - i,
    {
        updates.push(PoolUpdateEvent::from_pool_revision(&batch[i]));
        proof {
            assert(spec_pending_revision(*db, *lb)[i as int] == crate::updates::spec_update_from_pool_revision(
                batch@[i as int],
            ));
            assert(updates@ =~= done + spec_pending_revision(*db, *lb).take(i + 1));
        }
        i += 1;
    }
    proof {
        assert(spec_pending_revision(*db, *lb).take(spec_pending_revision(*db, *lb).len() as int)
            =~= spec_pending_revision(*db, *lb));
    }

    proof {
        assert(updates@ =~= spec_pending_updates(*db, *lb));
    }
    let ordered = sort_updates(&updates);
    proof {
        broadcast use vstd::seq_lib::group_to_multiset_ensures;

        assert forall|j: int|
            0 <= j < ordered@.len() implies crate::updates::spec_update_wf(
            #[trigger] ordered@[j],
        ) by {
            assert(ordered@.to_multiset().contains(ordered@[j]));
            assert(updates@.to_multiset().contains(ordered@[j]));
            assert(updates@.contains(ordered@[j]));
        }
    }
    ordered
}

/// The tracked state of a pool's tracker, read as the last folded block.
pub open spec fn spec_dirty_lb(db: Db, base: Address, quote: Address, pool_idx: U256) -> Option<
    nat,
> {
    match spec_first_dirty(db.dirty_pools@, base, quote, pool_idx) {
        Some(t) => Some(t.last_block.as_nat()),
        None => None,
    }
}

/// The derived state of one pool after a batch replays in order, on a run
/// where every step succeeds: updates of other pools pass it by; the
/// pool's first applied update initializes it when its tracker is absent
/// or at block zero, and folds one reducer step otherwise; every applied
/// update leaves the tracker fresh at its own block.
pub open spec fn spec_replay_tracked(
    prev: Option<crate::tracking::PoolModel>,
    dlb: Option<nat>,
    tpl: Option<Pool>,
    us: Seq<PoolUpdateEvent>,
    base: Address,
    quote: Address,
    pool_idx: U256,
) -> Option<crate::tracking::PoolModel>
    decreases us.len(),
{
    if us.len() == 0 {
        prev
    } else if !(us[0].base == base && us[0].quote == quote && us[0].pool_idx == pool_idx) {
        spec_replay_tracked(prev, dlb, tpl, us.drop_first(), base, quote, pool_idx)
    } else {
        let not_init = dlb is None || dlb->0 == 0;
        let next = if not_init {
            crate::tracking::spec_handle_init_pool(tpl->0, us[0])
        } else {
            crate::tracking::spec_handle_update(prev->0, us[0])->0
        };
        spec_replay_tracked(
            Some(next),
            Some(us[0].block.as_nat()),
            tpl,
            us.drop_first(),
            base,
            quote,
            pool_idx,
        )
    }
}

/// Folds an ordered batch, each update into its own pool, stopping at the
/// first failing step.
pub fn replay_updates(db: &mut Db, ordered: &Vec<PoolUpdateEvent>) -> (r: Result<
    (),
    IndexerError,
>)
    requires
        forall|j: int|
            0 <= j < ordered@.len() ==> crate::updates::spec_update_wf(#[trigger] ordered@[j]),
    ensures
        final(db).init_pools@ == old(db).init_pools@,
        final(db).templates@ == old(db).templates@,
        final(db).swaps@ == old(db).swaps@,
        final(db).revisions@ == old(db).revisions@,
        final(db).mint_ranged@ == old(db).mint_ranged@,
        final(db).burn_ranged@ == old(db).burn_ranged@,
        final(db).harvests@ == old(db).harvests@,
        final(db).mint_ambient@ == old(db).mint_ambient@,
        final(db).burn_ambient@ == old(db).burn_ambient@,
        final(db).mint_knockout@ == old(db).mint_knockout@,
        final(db).burn_knockout@ == old(db).burn_knockout@,
        final(db).withdraw_knockout@ == old(db).withdraw_knockout@,
        final(db).prices@ == old(db).prices@,
        final(db).liquidity@ == old(db).liquidity@,
        final(db).curves@ == old(db).curves@,
        final(db).latest_block == old(db).latest_block,
        final(db).syncing == old(db).syncing,
        r matches Err(e) ==> !(e is InvalidEventLog),
        r is Ok ==> forall|b2: Address, q2: Address, x2: U256|
            #[trigger] spec_last_tracked(final(db).tracked_pools@, b2, q2, x2)
                == spec_replay_tracked(
                spec_last_tracked(old(db).tracked_pools@, b2, q2, x2),
                spec_dirty_lb(*old(db), b2, q2, x2),
                spec_first_template(old(db).templates@, x2),
                ordered@,
                b2,
                q2,
                x2,
            ),
        forall|b2: Address, q2: Address, x2: U256|
            (#[trigger] spec_last_tracked(old(db).tracked_pools@, b2, q2, x2)) is Some
                ==> spec_last_tracked(final(db).tracked_pools@, b2, q2, x2) is Some,
        forall|b2: Address, q2: Address, x2: U256|
            #[trigger] spec_first_dirty(final(db).dirty_pools@, b2, q2, x2) == spec_first_dirty(
                old(db).dirty_pools@,
                b2,
                q2,
                x2,
            ) || spec_last_tracked(final(db).tracked_pools@, b2, q2, x2) is Some,
{
    let mut i: usize = 0;
    proof {
        assert(ordered@.skip(0) =~= ordered@);
    }
    while i < ordered.len()
        invariant
            0 <= i <= ordered@.len(),
            forall|j: int|
                0 <= j < ordered@.len() ==> crate::updates::spec_update_wf(
                    #[trigger] ordered@[j],
                ),
            db.init_pools@ == old(db).init_pools@,
            db.templates@ == old(db).templates@,
            db.swaps@ == old(db).swaps@,
            db.revisions@ == old(db).revisions@,
            db.mint_ranged@ == old(db).mint_ranged@,
            db.burn_ranged@ == old(db).burn_ranged@,
            db.harvests@ == old(db).harvests@,
            db.mint_ambient@ == old(db).mint_ambient@,
            db.burn_ambient@ == old(db).burn_ambient@,
            db.mint_knockout@ == old(db).mint_knockout@,
            db.burn_knockout@ == old(db).burn_knockout@,
            db.withdraw_knockout@ == old(db).withdraw_knockout@,
            db.prices@ == old(db).prices@,
            db.liquidity@ == old(db).liquidity@,
            db.curves@ == old(db).curves@,
            db.latest_block == old(db).latest_block,
            db.syncing == old(db).syncing,
            forall|b2: Address, q2: Address, x2: U256|
                #[trigger] spec_replay_tracked(
                    spec_last_tracked(old(db).tracked_pools@, b2, q2, x2),
                    spec_dirty_lb(*old(db), b2, q2, x2),
                    spec_first_template(old(db).templates@, x2),
                    ordered@,
                    b2,
                    q2,
                    x2,
                ) == spec_replay_tracked(
                    spec_last_tracked(db.tracked_pools@, b2, q2, x2),
                    spec_dirty_lb(*db, b2, q2, x2),
                    spec_first_template(old(db).templates@, x2),
                    ordered@.skip(i as int),
                    b2,
                    q2,
                    x2,
                ),
            forall|b2: Address, q2: Address, x2: U256|
                (#[trigger] spec_last_tracked(old(db).tracked_pools@, b2, q2, x2)) is Some
                    ==> spec_last_tracked(db.tracked_pools@, b2, q2, x2) is Some,
            forall|b2: Address, q2: Address, x2: U256|
                #[trigger] spec_first_dirty(db.dirty_pools@, b2, q2, x2) == spec_first_dirty(
                    old(db).dirty_pools@,
                    b2,
                    q2,
                    x2,
                ) || spec_last_tracked(db.tracked_pools@, b2, q2, x2) is Some,
        decreases ordered@.len() - i,
    {
        let ghost pre_db = *db;
        match update_pool(db, &ordered[i]) {
            Ok(()) => {},
            Err(e) => {
                return Err(e);
            },
        }
        proof {
            let u = ordered@[i as int];
            assert(ordered@.skip(i as int)[0] == u);
            assert(ordered@.skip(i as int).drop_first() =~= ordered@.skip(i + 1));
            assert forall|b2: Address, q2: Address, x2: U256| #[trigger] spec_replay_tracked(
                spec_last_tracked(old(db).tracked_pools@, b2, q2, x2),
                spec_dirty_lb(*old(db), b2, q2, x2),
                spec_first_template(old(db).templates@, x2),
                ordered@,
                b2,
                q2,
                x2,
            ) == spec_replay_tracked(
                spec_last_tracked(db.tracked_pools@, b2, q2, x2),
                spec_dirty_lb(*db, b2, q2, x2),
                spec_first_template(old(db).templates@, x2),
                ordered@.skip(i + 1),
                b2,
                q2,
                x2,
            ) by {
                if u.base == b2 && u.quote == q2 && u.pool_idx == x2 {
                    assert(spec_dirty_lb(*db, b2, q2, x2) == Some(u.block.as_nat()));
                } else {
                    assert(spec_last_tracked(db.tracked_pools@, b2, q2, x2)
                        == spec_last_tracked(pre_db.tracked_pools@, b2, q2, x2));
                    assert(spec_first_dirty(db.dirty_pools@, b2, q2, x2) == spec_first_dirty(
                        pre_db.dirty_pools@,
                        b2,
                        q2,
                        x2,
                    ));
                }
            }
        }
        i += 1;
    }
    proof {
        assert(ordered@.skip(ordered@.len() as int).len() == 0);
    }
    Ok(())
}

/// What one successful window replay shows: some replay-ordered
/// arrangement of everything pending past `lb` whose fold every pool's
/// stored state now reflects.
pub open spec fn spec_replayed_window(pre: Db, post: Db, lb: U256, us: Seq<PoolUpdateEvent>) -> bool {
    &&& updates_sorted(us)
    &&& us.to_multiset() == spec_pending_updates(pre, lb).to_multiset()
    &&& forall|b2: Address, q2: Address, x2: U256|
        #[trigger] spec_last_tracked(post.tracked_pools@, b2, q2, x2) == spec_replay_tracked(
            spec_last_tracked(pre.tracked_pools@, b2, q2, x2),
            spec_dirty_lb(pre, b2, q2, x2),
            spec_first_template(pre.templates@, x2),
            us,
            b2,
            q2,
            x2,
        )
}

/// A found creation record carries the queried triple.
proof fn lemma_first_init_key(s: Seq<InitPoolEvent>, base: Address, quote: Address, pool_idx: U256)
    ensures
        spec_first_init(s, base, quote, pool_idx) matches Some(e) ==> e.base == base && e.quote
            == quote && e.pool_idx == pool_idx,
    decreases s.len(),
{
    if s.len() > 0 {
        lemma_first_init_key(s.drop_first(), base, quote, pool_idx);
    }
}

/// Replays a dirty pool: an uninitialized pool is built from its stored
/// creation record; otherwise every stored event past the pool's last
/// folded block is converted, put into replay order and folded in turn,
/// each update into its own pool.
pub fn track_pool(db: &mut Db, pool: &DirtyPoolTracker) -> (r: Result<(), IndexerError>)
    ensures
        final(db).init_pools@ == old(db).init_pools@,
        final(db).templates@ == old(db).templates@,
        final(db).swaps@ == old(db).swaps@,
        final(db).revisions@ == old(db).revisions@,
        final(db).mint_ranged@ == old(db).mint_ranged@,
        final(db).burn_ranged@ == old(db).burn_ranged@,
        final(db).harvests@ == old(db).harvests@,
        final(db).mint_ambient@ == old(db).mint_ambient@,
        final(db).burn_ambient@ == old(db).burn_ambient@,
        final(db).mint_knockout@ == old(db).mint_knockout@,
        final(db).burn_knockout@ == old(db).burn_knockout@,
        final(db).withdraw_knockout@ == old(db).withdraw_knockout@,
        final(db).prices@ == old(db).prices@,
        final(db).liquidity@ == old(db).liquidity@,
        final(db).curves@ == old(db).curves@,
        final(db).latest_block == old(db).latest_block,
        final(db).syncing == old(db).syncing,
        r matches Err(e) ==> !(e is InvalidEventLog),
        pool.last_block.as_nat() == 0 && spec_first_init(
            old(db).init_pools@,
            pool.base,
            pool.quote,
            pool.pool_idx,
        ) is None ==> r is Ok && final(db).tracked_pools@ == old(db).tracked_pools@
            && final(db).dirty_pools@ == old(db).dirty_pools@,
        ({
            let io = spec_first_init(old(db).init_pools@, pool.base, pool.quote, pool.pool_idx);
            let dlb = spec_dirty_lb(*old(db), pool.base, pool.quote, pool.pool_idx);
            let tpl = spec_first_template(old(db).templates@, pool.pool_idx);
            (pool.last_block.as_nat() == 0 && io is Some && (dlb is None || dlb->0 == 0)) ==> ((
            r is Ok <==> (tpl is Some && io->0.base_flow >= 0 && io->0.quote_flow >= 0)) && (r
                is Ok ==> spec_last_tracked(
                final(db).tracked_pools@,
                pool.base,
                pool.quote,
                pool.pool_idx,
            ) == Some(
                crate::tracking::spec_handle_init_pool(
                    tpl->0,
                    crate::updates::spec_update_from_init_pool(io->0),
                ),
            )))
        }),
        pool.last_block.as_nat() != 0 && r is Ok ==> (exists|us: Seq<PoolUpdateEvent>|
            #[trigger] spec_replayed_window(*old(db), *final(db), pool.last_block, us)),
        forall|b2: Address, q2: Address, x2: U256|
            (#[trigger] spec_last_tracked(old(db).tracked_pools@, b2, q2, x2)) is Some
                ==> spec_last_tracked(final(db).tracked_pools@, b2, q2, x2) is Some,
        forall|b2: Address, q2: Address, x2: U256|
            #[trigger] spec_first_dirty(final(db).dirty_pools@, b2, q2, x2) == spec_first_dirty(
                old(db).dirty_pools@,
                b2,
                q2,
                x2,
            ) || spec_last_tracked(final(db).tracked_pools@, b2, q2, x2) is Some,
{
    if pool.last_block.is_zero() {
        match get_init_pool(db, pool.base, pool.quote, pool.pool_idx) {
            Some(init) => {
                proof {
                    lemma_first_init_key(
                        db.init_pools@,
                        pool.base,
                        pool.quote,
                        pool.pool_idx,
                    );
                }
                let u = PoolUpdateEvent::from_init_pool(&init);
                let r = update_pool(db, &u);
                match r {
                    Ok(()) => Ok(()),
                    Err(e) => Err(e),
                }
            },
            None => {
                // no creation record yet; leave the pool for a later pass
                Ok(())
            },
        }
    } else {
        let ordered = pending_updates(db, &pool.last_block);
        let r = replay_updates(db, &ordered);
        match r {
            Ok(()) => {
                proof {
                    assert(spec_replayed_window(
                        *old(db),
                        *db,
                        pool.last_block,
                        ordered@,
                    ));
                    assert(exists|us: Seq<PoolUpdateEvent>| #[trigger] spec_replayed_window(
                        *old(db),
                        *db,
                        pool.last_block,
                        us,
                    ));
                }
                Ok(())
            },
            Err(e) => Err(e),
        }
    }
}

/// Replays every dirty pool; a pool whose replay fails is skipped and
/// stays dirty for the next pass.  Any pool whose tracker the pass
/// touched has derived state stored, and in particular every dirty pool
/// awaiting initialization whose creation record, template and
/// non-negative flows are in place comes out tracked.
pub fn track_pools(db: &mut Db) -> (r: Result<(), IndexerError>)
    ensures
        r is Ok,
        final(db).init_pools@ == old(db).init_pools@,
        final(db).templates@ == old(db).templates@,
        final(db).swaps@ == old(db).swaps@,
        final(db).revisions@ == old(db).revisions@,
        final(db).mint_ranged@ == old(db).mint_ranged@,
        final(db).burn_ranged@ == old(db).burn_ranged@,
        final(db).harvests@ == old(db).harvests@,
        final(db).mint_ambient@ == old(db).mint_ambient@,
        final(db).burn_ambient@ == old(db).burn_ambient@,
        final(db).mint_knockout@ == old(db).mint_knockout@,
        final(db).burn_knockout@ == old(db).burn_knockout@,
        final(db).withdraw_knockout@ == old(db).withdraw_knockout@,
        final(db).prices@ == old(db).prices@,
        final(db).liquidity@ == old(db).liquidity@,
        final(db).curves@ == old(db).curves@,
        final(db).latest_block == old(db).latest_block,
        final(db).syncing == old(db).syncing,
        forall|b2: Address, q2: Address, x2: U256|
            (#[trigger] spec_last_tracked(old(db).tracked_pools@, b2, q2, x2)) is Some
                ==> spec_last_tracked(final(db).tracked_pools@, b2, q2, x2) is Some,
        forall|b2: Address, q2: Address, x2: U256|
            #[trigger] spec_first_dirty(final(db).dirty_pools@, b2, q2, x2) == spec_first_dirty(
                old(db).dirty_pools@,
                b2,
                q2,
                x2,
            ) || spec_last_tracked(final(db).tracked_pools@, b2, q2, x2) is Some,
        forall|k: int| 0 <= k < old(db).dirty_pools@.len() ==> ({
            let t = #[trigger] old(db).dirty_pools@[k];
            let io = spec_first_init(old(db).init_pools@, t.base, t.quote, t.pool_idx);
            (t.dirty && t.last_block.as_nat() == 0 && (spec_dirty_lb(
                *old(db),
                t.base,
                t.quote,
                t.pool_idx,
            ) matches Some(l) && l == 0) && (io matches Some(iv) && iv.base_flow >= 0
                && iv.quote_flow >= 0) && spec_first_template(old(db).templates@, t.pool_idx)
                is Some) ==> spec_last_tracked(
                final(db).tracked_pools@,
                t.base,
                t.quote,
                t.pool_idx,
            ) is Some
        }),
{
    let dirty = get_all_dirty_pools(db);
    let mut i: usize = 0;
    while i < dirty.len()
        invariant
            0 <= i <= dirty@.len(),
            dirty@ == old(db).dirty_pools@,
            db.init_pools@ == old(db).init_pools@,
            db.templates@ == old(db).templates@,
            db.swaps@ == old(db).swaps@,
            db.revisions@ == old(db).revisions@,
            db.mint_ranged@ == old(db).mint_ranged@,
            db.burn_ranged@ == old(db).burn_ranged@,
            db.harvests@ == old(db).harvests@,
            db.mint_ambient@ == old(db).mint_ambient@,
            db.burn_ambient@ == old(db).burn_ambient@,
            db.mint_knockout@ == old(db).mint_knockout@,
            db.burn_knockout@ == old(db).burn_knockout@,
            db.withdraw_knockout@ == old(db).withdraw_knockout@,
            db.prices@ == old(db).prices@,
            db.liquidity@ == old(db).liquidity@,
            db.curves@ == old(db).curves@,
            db.latest_block == old(db).latest_block,
            db.syncing == old(db).syncing,
            forall|b2: Address, q2: Address, x2: U256|
                (#[trigger] spec_last_tracked(old(db).tracked_pools@, b2, q2, x2)) is Some
                    ==> spec_last_tracked(db.tracked_pools@, b2, q2, x2) is Some,
            forall|b2: Address, q2: Address, x2: U256|
                #[trigger] spec_first_dirty(db.dirty_pools@, b2, q2, x2) == spec_first_dirty(
                    old(db).dirty_pools@,
                    b2,
                    q2,
                    x2,
                ) || spec_last_tracked(db.tracked_pools@, b2, q2, x2) is Some,
            forall|k: int| 0 <= k < i ==> ({
                let t = #[trigger] dirty@[k];
                let io = spec_first_init(old(db).init_pools@, t.base, t.quote, t.pool_idx);
                (t.dirty && t.last_block.as_nat() == 0 && (spec_dirty_lb(
                    *old(db),
                    t.base,
                    t.quote,
                    t.pool_idx,
                ) matches Some(l) && l == 0) && (io matches Some(iv) && iv.base_flow >= 0
                    && iv.quote_flow >= 0) && spec_first_template(old(db).templates@, t.pool_idx)
                    is Some) ==> spec_last_tracked(
                    db.tracked_pools@,
                    t.base,
                    t.quote,
                    t.pool_idx,
                ) is Some
            }),
        decreases dirty@.len() - i,
    {
        let p = dirty[i];
        let ghost pre_db = *db;
        if p.dirty {
            // a failed replay leaves the pool dirty for the next pass
            let _ignored = track_pool(db, &p);
        }
        proof {
            if p.dirty && p.last_block.as_nat() == 0 {
                if spec_dirty_lb(*old(db), p.base, p.quote, p.pool_idx) matches Some(l) && l
                    == 0 {
                    if spec_first_dirty(pre_db.dirty_pools@, p.base, p.quote, p.pool_idx)
                        == spec_first_dirty(old(db).dirty_pools@, p.base, p.quote, p.pool_idx) {
                    } else {
                        assert(spec_last_tracked(
                            pre_db.tracked_pools@,
                            p.base,
                            p.quote,
                            p.pool_idx,
                        ) is Some);
                    }
                }
            }
        }
        i += 1;
    }
    Ok(())
}


/// Ordered replay through the store agrees with the pure fold: for a
/// pool already past initialization, a batch holding only its own updates
/// at nonzero blocks replays to exactly the fold of the reducer over the
/// batch.  With the fold's own window-partition law, replaying the same
/// ordered events in any window split yields the same stored state.
pub proof fn lemma_replay_is_fold(
    prev: crate::tracking::PoolModel,
    dlb: nat,
    tpl: Option<Pool>,
    us: Seq<PoolUpdateEvent>,
    base: Address,
    quote: Address,
    pool_idx: U256,
)
    requires
        dlb != 0,
        forall|j: int|
            0 <= j < us.len() ==> (#[trigger] us[j]).base == base && us[j].quote == quote
                && us[j].pool_idx == pool_idx,
        forall|j: int| 0 <= j < us.len() ==> (#[trigger] us[j]).block.as_nat() != 0,
        crate::tracking::spec_fold_updates(prev, us) is Some,
    ensures
        spec_replay_tracked(Some(prev), Some(dlb), tpl, us, base, quote, pool_idx) == Some(
            crate::tracking::spec_fold_updates(prev, us)->0,
        ),
    decreases us.len(),
{
    if us.len() > 0 {
        let next = crate::tracking::spec_handle_update(prev, us[0])->0;
        assert(forall|j: int|
            0 <= j < us.drop_first().len() ==> (#[trigger] us.drop_first()[j]).base == base
                && us.drop_first()[j].quote == quote && us.drop_first()[j].pool_idx == pool_idx);
        assert(forall|j: int|
            0 <= j < us.drop_first().len() ==> (#[trigger] us.drop_first()[j]).block.as_nat()
                != 0);
        lemma_replay_is_fold(
            next,
            us[0].block.as_nat(),
            tpl,
            us.drop_first(),
            base,
            quote,
            pool_idx,
        );
    }
}

} // verus!
