//! Reconstructing a user's open positions from stored mint and burn
//! streams.
//!
//! A mint merges into the first reconstructed position with the same key
//! that started no later than the mint; a burn removes the first open
//! position it matches; unmatched burns are ignored.

use vstd::prelude::*;
use crate::address::Address;
use crate::db::get_all_burn_ambient;
use crate::db::get_all_burn_ranged;
use crate::db::get_all_mint_ambient;
use crate::db::get_all_mint_ranged;
use crate::db::Db;
use crate::events::BurnAmbientEvent;
use crate::events::BurnRangedEvent;
use crate::events::IndexerError;
use crate::events::MintAmbientEvent;
use crate::events::MintRangedEvent;
use crate::u256::U256;

verus! {

/// An open concentrated-range position.
#[derive(Clone, Copy, Debug, PartialEq, Eq, Structural, Hash)]
pub struct RangedPosition {
    pub start_block: U256,
    pub user: Address,
    pub base: Address,
    pub quote: Address,
    pub pool_idx: U256,
    pub bid_tick: i32,
    pub ask_tick: i32,
    pub liq: u128,
    pub base_flow: i128,
    pub quote_flow: i128,
}

/// An open full-range position.
#[derive(Clone, Copy, Debug, PartialEq, Eq, Structural, Hash)]
pub struct AmbientPosition {
    pub start_block: U256,
    pub user: Address,
    pub base: Address,
    pub quote: Address,
    pub pool_idx: U256,
    pub liq: u128,
    pub base_flow: i128,
    pub quote_flow: i128,
}

/// Either kind of open position.
#[derive(Clone, Copy, Debug)]
pub enum Position {
    Ranged(RangedPosition),
    Ambient(AmbientPosition),
}

/// Whether a ranged mint or burn at `block` addresses an open position.
pub open spec fn spec_ranged_matches(
    p: RangedPosition,
    base: Address,
    quote: Address,
    pool_idx: U256,
    bid_tick: i32,
    ask_tick: i32,
    block: U256,
) -> bool {
    &&& p.start_block.as_nat() <= block.as_nat()
    &&& p.base == base
    &&& p.quote == quote
    &&& p.pool_idx == pool_idx
    &&& p.bid_tick == bid_tick
    &&& p.ask_tick == ask_tick
}

/// Whether an ambient mint or burn at `block` addresses an open position.
pub open spec fn spec_ambient_matches(
    p: AmbientPosition,
    base: Address,
    quote: Address,
    pool_idx: U256,
    block: U256,
) -> bool {
    &&& p.start_block.as_nat() <= block.as_nat()
    &&& p.base == base
    &&& p.quote == quote
    &&& p.pool_idx == pool_idx
}

/// The index of the first position a ranged event addresses.
pub open spec fn spec_find_ranged(s: Seq<RangedPosition>, m: MintRangedEvent) -> Option<int>
    decreases s.len(),
{
    if s.len() == 0 {
        None
    } else if spec_ranged_matches(
        s[0],
        m.base,
        m.quote,
        m.pool_idx,
        m.bid_tick,
        m.ask_tick,
        m.block_height,
    ) {
        Some(0int)
    } else {
        match spec_find_ranged(s.drop_first(), m) {
            Some(k) => Some(k + 1),
            None => None,
        }
    }
}

/// The index of the first position an ambient event addresses.
pub open spec fn spec_find_ambient(s: Seq<AmbientPosition>, m: MintAmbientEvent) -> Option<int>
    decreases s.len(),
{
    if s.len() == 0 {
        None
    } else if spec_ambient_matches(s[0], m.base, m.quote, m.pool_idx, m.block_height) {
        Some(0int)
    } else {
        match spec_find_ambient(s.drop_first(), m) {
            Some(k) => Some(k + 1),
            None => None,
        }
    }
}

/// The burn shaped as the mint it cancels, for position matching.
pub open spec fn spec_burn_ranged_as_mint(b: BurnRangedEvent) -> MintRangedEvent {
    MintRangedEvent {
        block_height: b.block_height,
        index: b.index,
        user: b.user,
        base: b.base,
        quote: b.quote,
        pool_idx: b.pool_idx,
        liq: b.liq,
        bid_tick: b.bid_tick,
        ask_tick: b.ask_tick,
        base_flow: b.base_flow,
        quote_flow: b.quote_flow,
    }
}

/// The burn shaped as the mint it cancels, for position matching.
pub open spec fn spec_burn_ambient_as_mint(b: BurnAmbientEvent) -> MintAmbientEvent {
    MintAmbientEvent {
        block_height: b.block_height,
        index: b.index,
        user: b.user,
        base: b.base,
        quote: b.quote,
        pool_idx: b.pool_idx,
        liq: b.liq,
        base_flow: b.base_flow,
        quote_flow: b.quote_flow,
    }
}

/// What one ranged mint does: merge into the first matching open
/// position, moving its start to this mint's block, or open a new one.
/// `None` when a total leaves its numeric range.
pub open spec fn spec_apply_mint_ranged(s: Seq<RangedPosition>, m: MintRangedEvent) -> Option<
    Seq<RangedPosition>,
> {
    match spec_find_ranged(s, m) {
        Some(k) => {
            let p = s[k];
            let nb = p.base_flow + m.base_flow;
            let nq = p.quote_flow + m.quote_flow;
            let nl = p.liq + m.liq;
            if i128::MIN <= nb <= i128::MAX && i128::MIN <= nq <= i128::MAX && nl <= u128::MAX {
                Some(
                    s.update(
                        k,
                        RangedPosition {
                            base_flow: nb as i128,
                            quote_flow: nq as i128,
                            liq: nl as u128,
                            start_block: m.block_height,
                            ..p
                        },
                    ),
                )
            } else {
                None
            }
        },
        None => Some(
            s.push(
                RangedPosition {
                    start_block: m.block_height,
                    user: m.user,
                    base: m.base,
                    quote: m.quote,
                    pool_idx: m.pool_idx,
                    bid_tick: m.bid_tick,
                    ask_tick: m.ask_tick,
                    liq: m.liq,
                    base_flow: m.base_flow,
                    quote_flow: m.quote_flow,
                },
            ),
        ),
    }
}

/// What one ambient mint does.
pub open spec fn spec_apply_mint_ambient(s: Seq<AmbientPosition>, m: MintAmbientEvent) -> Option<
    Seq<AmbientPosition>,
> {
    match spec_find_ambient(s, m) {
        Some(k) => {
            let p = s[k];
            let nb = p.base_flow + m.base_flow;
            let nq = p.quote_flow + m.quote_flow;
            let nl = p.liq + m.liq;
            if i128::MIN <= nb <= i128::MAX && i128::MIN <= nq <= i128::MAX && nl <= u128::MAX {
                Some(
                    s.update(
                        k,
                        AmbientPosition {
                            base_flow: nb as i128,
                            quote_flow: nq as i128,
                            liq: nl as u128,
                            start_block: m.block_height,
                            ..p
                        },
                    ),
                )
            } else {
                None
            }
        },
        None => Some(
            s.push(
                AmbientPosition {
                    start_block: m.block_height,
                    user: m.user,
                    base: m.base,
                    quote: m.quote,
                    pool_idx: m.pool_idx,
                    liq: m.liq,
                    base_flow: m.base_flow,
                    quote_flow: m.quote_flow,
                },
            ),
        ),
    }
}

/// What one ranged burn does: close the first open position it matches,
/// or nothing when none matches.
pub open spec fn spec_apply_burn_ranged(s: Seq<RangedPosition>, b: BurnRangedEvent) -> Seq<
    RangedPosition,
> {
    match spec_find_ranged(s, spec_burn_ranged_as_mint(b)) {
        Some(k) => s.remove(k),
        None => s,
    }
}

/// What one ambient burn does.
pub open spec fn spec_apply_burn_ambient(s: Seq<AmbientPosition>, b: BurnAmbientEvent) -> Seq<
    AmbientPosition,
> {
    match spec_find_ambient(s, spec_burn_ambient_as_mint(b)) {
        Some(k) => s.remove(k),
        None => s,
    }
}

/// Folding all mints, then all burns, in the given order.
pub open spec fn spec_fold_mints_ranged(
    s: Seq<RangedPosition>,
    ms: Seq<MintRangedEvent>,
) -> Option<Seq<RangedPosition>>
    decreases ms.len(),
{
    if ms.len() == 0 {
        Some(s)
    } else {
        match spec_apply_mint_ranged(s, ms[0]) {
            Some(t) => spec_fold_mints_ranged(t, ms.drop_first()),
            None => None,
        }
    }
}

/// Folding all ranged burns in order.
pub open spec fn spec_fold_burns_ranged(
    s: Seq<RangedPosition>,
    bs: Seq<BurnRangedEvent>,
) -> Seq<RangedPosition>
    decreases bs.len(),
{
    if bs.len() == 0 {
        s
    } else {
        spec_fold_burns_ranged(spec_apply_burn_ranged(s, bs[0]), bs.drop_first())
    }
}

/// Folding all ambient mints in order.
pub open spec fn spec_fold_mints_ambient(
    s: Seq<AmbientPosition>,
    ms: Seq<MintAmbientEvent>,
) -> Option<Seq<AmbientPosition>>
    decreases ms.len(),
{
    if ms.len() == 0 {
        Some(s)
    } else {
        match spec_apply_mint_ambient(s, ms[0]) {
            Some(t) => spec_fold_mints_ambient(t, ms.drop_first()),
            None => None,
        }
    }
}

/// Folding all ambient burns in order.
pub open spec fn spec_fold_burns_ambient(
    s: Seq<AmbientPosition>,
    bs: Seq<BurnAmbientEvent>,
) -> Seq<AmbientPosition>
    decreases bs.len(),
{
    if bs.len() == 0 {
        s
    } else {
        spec_fold_burns_ambient(spec_apply_burn_ambient(s, bs[0]), bs.drop_first())
    }
}

proof fn lemma_find_ranged_skip(s: Seq<RangedPosition>, i: int, m: MintRangedEvent)
    requires
        0 <= i <= s.len(),
        forall|j: int|
            0 <= j < i ==> !spec_ranged_matches(
                #[trigger] s[j],
                m.base,
                m.quote,
                m.pool_idx,
                m.bid_tick,
                m.ask_tick,
                m.block_height,
            ),
    ensures
        spec_find_ranged(s, m) == match spec_find_ranged(s.skip(i), m) {
            Some(k) => Some(k + i),
            None => None,
        },
    decreases i,
{
    if i == 0 {
        assert(s.skip(0) =~= s);
    } else {
        assert(s.skip(i) =~= s.drop_first().skip(i - 1));
        assert(forall|j: int|
            0 <= j < i - 1 ==> !spec_ranged_matches(
                #[trigger] s.drop_first()[j],
                m.base,
                m.quote,
                m.pool_idx,
                m.bid_tick,
                m.ask_tick,
                m.block_height,
            ));
        lemma_find_ranged_skip(s.drop_first(), i - 1, m);
    }
}

proof fn lemma_find_ambient_skip(s: Seq<AmbientPosition>, i: int, m: MintAmbientEvent)
    requires
        0 <= i <= s.len(),
        forall|j: int|
            0 <= j < i ==> !spec_ambient_matches(
                #[trigger] s[j],
                m.base,
                m.quote,
                m.pool_idx,
                m.block_height,
            ),
    ensures
        spec_find_ambient(s, m) == match spec_find_ambient(s.skip(i), m) {
            Some(k) => Some(k + i),
            None => None,
        },
    decreases i,
{
    if i == 0 {
        assert(s.skip(0) =~= s);
    } else {
        assert(s.skip(i) =~= s.drop_first().skip(i - 1));
        assert(forall|j: int|
            0 <= j < i - 1 ==> !spec_ambient_matches(
                #[trigger] s.drop_first()[j],
                m.base,
                m.quote,
                m.pool_idx,
                m.block_height,
            ));
        lemma_find_ambient_skip(s.drop_first(), i - 1, m);
    }
}

/// Finds the first open ranged position an event addresses.
fn find_ranged(s: &Vec<RangedPosition>, m: &MintRangedEvent) -> (r: Option<usize>)
    ensures
        r matches Some(k) ==> k < s@.len() && Some(k as int) == spec_find_ranged(s@, *m),
        r is None <==> spec_find_ranged(s@, *m) is None,
{
    let mut i: usize = 0;
    while i < s.len()
        invariant
            0 <= i <= s@.len(),
            forall|j: int|
                0 <= j < i ==> !spec_ranged_matches(
                    #[trigger] s@[j],
                    m.base,
                    m.quote,
                    m.pool_idx,
                    m.bid_tick,
                    m.ask_tick,
                    m.block_height,
                ),
        decreases s@.len() - i,
    {
        let p = &s[i];
        if p.start_block.le(&m.block_height) && p.base == m.base && p.quote == m.quote
            && p.pool_idx == m.pool_idx && p.bid_tick == m.bid_tick && p.ask_tick == m.ask_tick {
            proof {
                lemma_find_ranged_skip(s@, i as int, *m);
                assert(s@.skip(i as int)[0] == s@[i as int]);
            }
            return Some(i);
        }
        i += 1;
    }
    proof {
        lemma_find_ranged_skip(s@, s@.len() as int, *m);
        assert(s@.skip(s@.len() as int).len() == 0);
    }
    None
}

/// Finds the first open ambient position an event addresses.
fn find_ambient(s: &Vec<AmbientPosition>, m: &MintAmbientEvent) -> (r: Option<usize>)
    ensures
        r matches Some(k) ==> k < s@.len() && Some(k as int) == spec_find_ambient(s@, *m),
        r is None <==> spec_find_ambient(s@, *m) is None,
{
    let mut i: usize = 0;
    while i < s.len()
        invariant
            0 <= i <= s@.len(),
            forall|j: int|
                0 <= j < i ==> !spec_ambient_matches(
                    #[trigger] s@[j],
                    m.base,
                    m.quote,
                    m.pool_idx,
                    m.block_height,
                ),
        decreases s@.len() - i,
    {
        let p = &s[i];
        if p.start_block.le(&m.block_height) && p.base == m.base && p.quote == m.quote
            && p.pool_idx == m.pool_idx {
            proof {
                lemma_find_ambient_skip(s@, i as int, *m);
                assert(s@.skip(i as int)[0] == s@[i as int]);
            }
            return Some(i);
        }
        i += 1;
    }
    proof {
        lemma_find_ambient_skip(s@, s@.len() as int, *m);
        assert(s@.skip(s@.len() as int).len() == 0);
    }
    None
}

/// Merges the given ranged mints into positions, then closes them with
/// the given burns, both in the given order.
pub fn combine_and_filter_ranged_positions(
    mint_ranged: &Vec<MintRangedEvent>,
    burn_ranged: &Vec<BurnRangedEvent>,
) -> (r: Result<Vec<RangedPosition>, IndexerError>)
    ensures
        r is Ok <==> spec_fold_mints_ranged(Seq::empty(), mint_ranged@) is Some,
        r matches Ok(v) ==> Some(
            spec_fold_burns_ranged(
                spec_fold_mints_ranged(Seq::empty(), mint_ranged@)->0,
                burn_ranged@,
            ),
        ) == Some(v@),
        r matches Err(e) ==> e is Overflow,
{
    let mut res: Vec<RangedPosition> = Vec::new();
    let mut i: usize = 0;
    proof {
        assert(mint_ranged@.skip(0) =~= mint_ranged@);
        assert(res@ =~= Seq::<RangedPosition>::empty());
    }
    while i < mint_ranged.len()
        invariant
            0 <= i <= mint_ranged@.len(),
            spec_fold_mints_ranged(Seq::empty(), mint_ranged@) == spec_fold_mints_ranged(
                res@,
                mint_ranged@.skip(i as int),
            ),
        decreases mint_ranged@.len() - i,
    {
        let m = mint_ranged[i];
        let ghost pre = res@;
        match find_ranged(&res, &m) {
            Some(k) => {
                let p = res[k];
                let nb = match p.base_flow.checked_add(m.base_flow) {
                    Some(v) => v,
                    None => {
                        proof {
                            assert(spec_apply_mint_ranged(pre, m) is None);
                        }
                        return Err(IndexerError::Overflow);
                    },
                };
                let nq = match p.quote_flow.checked_add(m.quote_flow) {
                    Some(v) => v,
                    None => {
                        proof {
                            assert(spec_apply_mint_ranged(pre, m) is None);
                        }
                        return Err(IndexerError::Overflow);
                    },
                };
                let nl = match p.liq.checked_add(m.liq) {
                    Some(v) => v,
                    None => {
                        proof {
                            assert(spec_apply_mint_ranged(pre, m) is None);
                        }
                        return Err(IndexerError::Overflow);
                    },
                };
                let updated = RangedPosition {
                    base_flow: nb,
                    quote_flow: nq,
                    liq: nl,
                    start_block: m.block_height,
                    ..p
                };
                res.remove(k);
                res.insert(k, updated);
                proof {
                    assert(res@ =~= pre.update(k as int, updated));
                    assert(Some(res@) == spec_apply_mint_ranged(pre, m));
                }
            },
            None => {
                res.push(
                    RangedPosition {
                        start_block: m.block_height,
                        user: m.user,
                        base: m.base,
                        quote: m.quote,
                        pool_idx: m.pool_idx,
                        bid_tick: m.bid_tick,
                        ask_tick: m.ask_tick,
                        liq: m.liq,
                        base_flow: m.base_flow,
                        quote_flow: m.quote_flow,
                    },
                );
                proof {
                    assert(Some(res@) == spec_apply_mint_ranged(pre, m));
                }
            },
        }
        proof {
            assert(mint_ranged@.skip(i as int)[0] == mint_ranged@[i as int]);
            assert(mint_ranged@.skip(i as int).drop_first() =~= mint_ranged@.skip(i + 1));
        }
        i += 1;
    }
    proof {
        assert(mint_ranged@.skip(mint_ranged@.len() as int).len() == 0);
    }
    let ghost after_mints = res@;
    let mut i: usize = 0;
    proof {
        assert(burn_ranged@.skip(0) =~= burn_ranged@);
    }
    while i < burn_ranged.len()
        invariant
            0 <= i <= burn_ranged@.len(),
            spec_fold_burns_ranged(after_mints, burn_ranged@) == spec_fold_burns_ranged(
                res@,
                burn_ranged@.skip(i as int),
            ),
        decreases burn_ranged@.len() - i,
    {
        let b = burn_ranged[i];
        let ghost pre = res@;
        let probe = MintRangedEvent {
            block_height: b.block_height,
            index: b.index,
            user: b.user,
            base: b.base,
            quote: b.quote,
            pool_idx: b.pool_idx,
            liq: b.liq,
            bid_tick: b.bid_tick,
            ask_tick: b.ask_tick,
            base_flow: b.base_flow,
            quote_flow: b.quote_flow,
        };
        proof {
            assert(probe == spec_burn_ranged_as_mint(b));
        }
        match find_ranged(&res, &probe) {
            Some(k) => {
                res.remove(k);
                proof {
                    assert(res@ =~= pre.remove(k as int));
                    assert(res@ == spec_apply_burn_ranged(pre, b));
                }
            },
            None => {
                proof {
                    assert(res@ == spec_apply_burn_ranged(pre, b));
                }
            },
        }
        proof {
            assert(burn_ranged@.skip(i as int)[0] == burn_ranged@[i as int]);
            assert(burn_ranged@.skip(i as int).drop_first() =~= burn_ranged@.skip(i + 1));
        }
        i += 1;
    }
    proof {
        assert(burn_ranged@.skip(burn_ranged@.len() as int).len() == 0);
    }
    Ok(res)
}

/// Merges the given ambient mints into positions, then closes them with
/// the given burns, both in the given order.
pub fn combine_and_filter_ambient_positions(
    mint_ambient: &Vec<MintAmbientEvent>,
    burn_ambient: &Vec<BurnAmbientEvent>,
) -> (r: Result<Vec<AmbientPosition>, IndexerError>)
    ensures
        r is Ok <==> spec_fold_mints_ambient(Seq::empty(), mint_ambient@) is Some,
        r matches Ok(v) ==> Some(
            spec_fold_burns_ambient(
                spec_fold_mints_ambient(Seq::empty(), mint_ambient@)->0,
                burn_ambient@,
            ),
        ) == Some(v@),
        r matches Err(e) ==> e is Overflow,
{
    let mut res: Vec<AmbientPosition> = Vec::new();
    let mut i: usize = 0;
    proof {
        assert(mint_ambient@.skip(0) =~= mint_ambient@);
        assert(res@ =~= Seq::<AmbientPosition>::empty());
    }
    while i < mint_ambient.len()
        invariant
            0 <= i <= mint_ambient@.len(),
            spec_fold_mints_ambient(Seq::empty(), mint_ambient@) == spec_fold_mints_ambient(
                res@,
                mint_ambient@.skip(i as int),
            ),
        decreases mint_ambient@.len() - i,
    {
        let m = mint_ambient[i];
        let ghost pre = res@;
        match find_ambient(&res, &m) {
            Some(k) => {
                let p = res[k];
                let nb = match p.base_flow.checked_add(m.base_flow) {
                    Some(v) => v,
                    None => {
                        proof {
                            assert(spec_apply_mint_ambient(pre, m) is None);
                        }
                        return Err(IndexerError::Overflow);
                    },
                };
                let nq = match p.quote_flow.checked_add(m.quote_flow) {
                    Some(v) => v,
                    None => {
                        proof {
                            assert(spec_apply_mint_ambient(pre, m) is None);
                        }
                        return Err(IndexerError::Overflow);
                    },
                };
                let nl = match p.liq.checked_add(m.liq) {
                    Some(v) => v,
                    None => {
                        proof {
                            assert(spec_apply_mint_ambient(pre, m) is None);
                        }
                        return Err(IndexerError::Overflow);
                    },
                };
                let updated = AmbientPosition {
                    base_flow: nb,
                    quote_flow: nq,
                    liq: nl,
                    start_block: m.block_height,
                    ..p
                };
                res.remove(k);
                res.insert(k, updated);
                proof {
                    assert(res@ =~= pre.update(k as int, updated));
                    assert(Some(res@) == spec_apply_mint_ambient(pre, m));
                }
            },
            None => {
                res.push(
                    AmbientPosition {
                        start_block: m.block_height,
                        user: m.user,
                        base: m.base,
                        quote: m.quote,
                        pool_idx: m.pool_idx,
                        liq: m.liq,
                        base_flow: m.base_flow,
                        quote_flow: m.quote_flow,
                    },
                );
                proof {
                    assert(Some(res@) == spec_apply_mint_ambient(pre, m));
                }
            },
        }
        proof {
            assert(mint_ambient@.skip(i as int)[0] == mint_ambient@[i as int]);
            assert(mint_ambient@.skip(i as int).drop_first() =~= mint_ambient@.skip(i + 1));
        }
        i += 1;
    }
    proof {
        assert(mint_ambient@.skip(mint_ambient@.len() as int).len() == 0);
    }
    let ghost after_mints = res@;
    let mut i: usize = 0;
    proof {
        assert(burn_ambient@.skip(0) =~= burn_ambient@);
    }
    while i < burn_ambient.len()
        invariant
            0 <= i <= burn_ambient@.len(),
            spec_fold_burns_ambient(after_mints, burn_ambient@) == spec_fold_burns_ambient(
                res@,
                burn_ambient@.skip(i as int),
            ),
        decreases burn_ambient@.len() - i,
    {
        let b = burn_ambient[i];
        let ghost pre = res@;
        let probe = MintAmbientEvent {
            block_height: b.block_height,
            index: b.index,
            user: b.user,
            base: b.base,
            quote: b.quote,
            pool_idx: b.pool_idx,
            liq: b.liq,
            base_flow: b.base_flow,
            quote_flow: b.quote_flow,
        };
        proof {
            assert(probe == spec_burn_ambient_as_mint(b));
        }
        match find_ambient(&res, &probe) {
            Some(k) => {
                res.remove(k);
                proof {
                    assert(res@ =~= pre.remove(k as int));
                    assert(res@ == spec_apply_burn_ambient(pre, b));
                }
            },
            None => {
                proof {
                    assert(res@ == spec_apply_burn_ambient(pre, b));
                }
            },
        }
        proof {
            assert(burn_ambient@.skip(i as int)[0] == burn_ambient@[i as int]);
            assert(burn_ambient@.skip(i as int).drop_first() =~= burn_ambient@.skip(i + 1));
        }
        i += 1;
    }
    proof {
        assert(burn_ambient@.skip(burn_ambient@.len() as int).len() == 0);
    }
    Ok(res)
}

/// Open ranged positions with a given key.
pub open spec fn spec_count_ranged(
    s: Seq<RangedPosition>,
    base: Address,
    quote: Address,
    pool_idx: U256,
    bid_tick: i32,
    ask_tick: i32,
) -> nat
    decreases s.len(),
{
    if s.len() == 0 {
        0
    } else {
        let rest = spec_count_ranged(s.drop_first(), base, quote, pool_idx, bid_tick, ask_tick);
        if s[0].base == base && s[0].quote == quote && s[0].pool_idx == pool_idx && s[0].bid_tick
            == bid_tick && s[0].ask_tick == ask_tick {
            rest + 1
        } else {
            rest
        }
    }
}

/// One mint opens at most one position: it adds a position with its own
/// key exactly when no open position matches it, and touches no other
/// key's count.
pub proof fn lemma_mint_step_count(
    s: Seq<RangedPosition>,
    m: MintRangedEvent,
    base: Address,
    quote: Address,
    pool_idx: U256,
    bid_tick: i32,
    ask_tick: i32,
)
    ensures
        spec_apply_mint_ranged(s, m) matches Some(t) ==> spec_count_ranged(
            t,
            base,
            quote,
            pool_idx,
            bid_tick,
            ask_tick,
        ) == spec_count_ranged(s, base, quote, pool_idx, bid_tick, ask_tick) + (
        if m.base == base && m.quote == quote && m.pool_idx == pool_idx && m.bid_tick == bid_tick
            && m.ask_tick == ask_tick && spec_find_ranged(s, m) is None {
            1int
        } else {
            0int
        }),
{
    lemma_find_ranged_key(s, m);
    match spec_find_ranged(s, m) {
        Some(k) => {
            let mo = spec_apply_mint_ranged(s, m);
            if mo is Some {
                let t = mo->0;
                lemma_count_update(s, k, t[k], base, quote, pool_idx, bid_tick, ask_tick);
            }
        },
        None => {
            let t = spec_apply_mint_ranged(s, m)->0;
            lemma_count_push(s, t.last(), base, quote, pool_idx, bid_tick, ask_tick);
        },
    }
}

/// One burn closes exactly one position with its key when one is open,
/// and touches no other key's count.
pub proof fn lemma_burn_step_count(
    s: Seq<RangedPosition>,
    b: BurnRangedEvent,
    base: Address,
    quote: Address,
    pool_idx: U256,
    bid_tick: i32,
    ask_tick: i32,
)
    ensures
        ({
            let t = spec_apply_burn_ranged(s, b);
            let hit = spec_find_ranged(s, spec_burn_ranged_as_mint(b));
            spec_count_ranged(t, base, quote, pool_idx, bid_tick, ask_tick) == spec_count_ranged(
                s,
                base,
                quote,
                pool_idx,
                bid_tick,
                ask_tick,
            ) - (if hit is Some && b.base == base && b.quote == quote && b.pool_idx == pool_idx
                && b.bid_tick == bid_tick && b.ask_tick == ask_tick {
                1int
            } else {
                0int
            })
        }),
{
    lemma_find_ranged_key(s, spec_burn_ranged_as_mint(b));
    match spec_find_ranged(s, spec_burn_ranged_as_mint(b)) {
        Some(k) => {
            lemma_count_remove(s, k, base, quote, pool_idx, bid_tick, ask_tick);
        },
        None => {},
    }
}

/// How many mints of a fold open a new position with the given key.
pub open spec fn spec_opened_ranged(
    s: Seq<RangedPosition>,
    ms: Seq<MintRangedEvent>,
    base: Address,
    quote: Address,
    pool_idx: U256,
    bid_tick: i32,
    ask_tick: i32,
) -> int
    decreases ms.len(),
{
    if ms.len() == 0 {
        0
    } else {
        let here: int = if ms[0].base == base && ms[0].quote == quote && ms[0].pool_idx
            == pool_idx && ms[0].bid_tick == bid_tick && ms[0].ask_tick == ask_tick
            && spec_find_ranged(s, ms[0]) is None {
            1
        } else {
            0
        };
        match spec_apply_mint_ranged(s, ms[0]) {
            Some(t) => here + spec_opened_ranged(
                t,
                ms.drop_first(),
                base,
                quote,
                pool_idx,
                bid_tick,
                ask_tick,
            ),
            None => here,
        }
    }
}

/// How many burns of a fold close a position with the given key.
pub open spec fn spec_matched_ranged(
    s: Seq<RangedPosition>,
    bs: Seq<BurnRangedEvent>,
    base: Address,
    quote: Address,
    pool_idx: U256,
    bid_tick: i32,
    ask_tick: i32,
) -> int
    decreases bs.len(),
{
    if bs.len() == 0 {
        0
    } else {
        let here: int = if bs[0].base == base && bs[0].quote == quote && bs[0].pool_idx
            == pool_idx && bs[0].bid_tick == bid_tick && bs[0].ask_tick == ask_tick
            && spec_find_ranged(s, spec_burn_ranged_as_mint(bs[0])) is Some {
            1
        } else {
            0
        };
        here + spec_matched_ranged(
            spec_apply_burn_ranged(s, bs[0]),
            bs.drop_first(),
            base,
            quote,
            pool_idx,
            bid_tick,
            ask_tick,
        )
    }
}

/// Folding the mints raises a key's open count by exactly the mints that
/// opened a position with it.
pub proof fn lemma_fold_mints_count(
    s: Seq<RangedPosition>,
    ms: Seq<MintRangedEvent>,
    base: Address,
    quote: Address,
    pool_idx: U256,
    bid_tick: i32,
    ask_tick: i32,
)
    requires
        spec_fold_mints_ranged(s, ms) is Some,
    ensures
        spec_count_ranged(
            spec_fold_mints_ranged(s, ms)->0,
            base,
            quote,
            pool_idx,
            bid_tick,
            ask_tick,
        ) == spec_count_ranged(s, base, quote, pool_idx, bid_tick, ask_tick)
            + spec_opened_ranged(s, ms, base, quote, pool_idx, bid_tick, ask_tick),
    decreases ms.len(),
{
    if ms.len() > 0 {
        lemma_mint_step_count(s, ms[0], base, quote, pool_idx, bid_tick, ask_tick);
        let t = spec_apply_mint_ranged(s, ms[0])->0;
        lemma_fold_mints_count(t, ms.drop_first(), base, quote, pool_idx, bid_tick, ask_tick);
    }
}

/// Folding the burns lowers a key's open count by exactly the burns that
/// found a match.
pub proof fn lemma_fold_burns_count(
    s: Seq<RangedPosition>,
    bs: Seq<BurnRangedEvent>,
    base: Address,
    quote: Address,
    pool_idx: U256,
    bid_tick: i32,
    ask_tick: i32,
)
    ensures
        spec_count_ranged(
            spec_fold_burns_ranged(s, bs),
            base,
            quote,
            pool_idx,
            bid_tick,
            ask_tick,
        ) == spec_count_ranged(s, base, quote, pool_idx, bid_tick, ask_tick)
            - spec_matched_ranged(s, bs, base, quote, pool_idx, bid_tick, ask_tick),
    decreases bs.len(),
{
    if bs.len() > 0 {
        lemma_burn_step_count(s, bs[0], base, quote, pool_idx, bid_tick, ask_tick);
        lemma_fold_burns_count(
            spec_apply_burn_ranged(s, bs[0]),
            bs.drop_first(),
            base,
            quote,
            pool_idx,
            bid_tick,
            ask_tick,
        );
    }
}

/// Position pairing across the whole reconstruction: for each key, the
/// open positions left after merging the mints and closing with the burns
/// number the opening mints minus the matching burns.
pub proof fn lemma_position_pairing(
    ms: Seq<MintRangedEvent>,
    bs: Seq<BurnRangedEvent>,
    base: Address,
    quote: Address,
    pool_idx: U256,
    bid_tick: i32,
    ask_tick: i32,
)
    requires
        spec_fold_mints_ranged(Seq::empty(), ms) is Some,
    ensures
        ({
            let opened = spec_fold_mints_ranged(Seq::empty(), ms)->0;
            spec_count_ranged(
                spec_fold_burns_ranged(opened, bs),
                base,
                quote,
                pool_idx,
                bid_tick,
                ask_tick,
            ) == spec_opened_ranged(
                Seq::empty(),
                ms,
                base,
                quote,
                pool_idx,
                bid_tick,
                ask_tick,
            ) - spec_matched_ranged(opened, bs, base, quote, pool_idx, bid_tick, ask_tick)
        }),
{
    lemma_fold_mints_count(Seq::empty(), ms, base, quote, pool_idx, bid_tick, ask_tick);
    lemma_fold_burns_count(
        spec_fold_mints_ranged(Seq::empty(), ms)->0,
        bs,
        base,
        quote,
        pool_idx,
        bid_tick,
        ask_tick,
    );
}

/// A found index carries the probe's key.
proof fn lemma_find_ranged_key(s: Seq<RangedPosition>, m: MintRangedEvent)
    ensures
        spec_find_ranged(s, m) matches Some(k) ==> 0 <= k < s.len() && spec_ranged_matches(
            s[k],
            m.base,
            m.quote,
            m.pool_idx,
            m.bid_tick,
            m.ask_tick,
            m.block_height,
        ),
    decreases s.len(),
{
    if s.len() > 0 {
        lemma_find_ranged_key(s.drop_first(), m);
    }
}

/// Updating one slot changes the count only as the slot's key changes.
proof fn lemma_count_update(
    s: Seq<RangedPosition>,
    k: int,
    v: RangedPosition,
    base: Address,
    quote: Address,
    pool_idx: U256,
    bid_tick: i32,
    ask_tick: i32,
)
    requires
        0 <= k < s.len(),
        v.base == s[k].base && v.quote == s[k].quote && v.pool_idx == s[k].pool_idx && v.bid_tick
            == s[k].bid_tick && v.ask_tick == s[k].ask_tick,
    ensures
        spec_count_ranged(s.update(k, v), base, quote, pool_idx, bid_tick, ask_tick)
            == spec_count_ranged(s, base, quote, pool_idx, bid_tick, ask_tick),
    decreases s.len(),
{
    if k == 0 {
        assert(s.update(0, v).drop_first() =~= s.drop_first());
    } else {
        assert(s.update(k, v).drop_first() =~= s.drop_first().update(k - 1, v));
        lemma_count_update(s.drop_first(), k - 1, v, base, quote, pool_idx, bid_tick, ask_tick);
    }
}

/// Appending adds one to the count exactly when the key matches.
proof fn lemma_count_push(
    s: Seq<RangedPosition>,
    v: RangedPosition,
    base: Address,
    quote: Address,
    pool_idx: U256,
    bid_tick: i32,
    ask_tick: i32,
)
    ensures
        spec_count_ranged(s.push(v), base, quote, pool_idx, bid_tick, ask_tick)
            == spec_count_ranged(s, base, quote, pool_idx, bid_tick, ask_tick) + (
        if v.base == base && v.quote == quote && v.pool_idx == pool_idx && v.bid_tick == bid_tick
            && v.ask_tick == ask_tick {
            1int
        } else {
            0int
        }),
    decreases s.len(),
{
    if s.len() == 0 {
        assert(s.push(v)[0] == v);
        assert(s.push(v).drop_first() =~= Seq::<RangedPosition>::empty());
        assert(spec_count_ranged(
            Seq::<RangedPosition>::empty(),
            base,
            quote,
            pool_idx,
            bid_tick,
            ask_tick,
        ) == 0);
        assert(spec_count_ranged(s, base, quote, pool_idx, bid_tick, ask_tick) == 0);
    } else {
        assert(s.push(v)[0] == s[0]);
        assert(s.push(v).drop_first() =~= s.drop_first().push(v));
        lemma_count_push(s.drop_first(), v, base, quote, pool_idx, bid_tick, ask_tick);
    }
}

/// Removing one slot subtracts one from the count exactly when its key
/// matches.
proof fn lemma_count_remove(
    s: Seq<RangedPosition>,
    k: int,
    base: Address,
    quote: Address,
    pool_idx: U256,
    bid_tick: i32,
    ask_tick: i32,
)
    requires
        0 <= k < s.len(),
    ensures
        spec_count_ranged(s.remove(k), base, quote, pool_idx, bid_tick, ask_tick)
            == spec_count_ranged(s, base, quote, pool_idx, bid_tick, ask_tick) - (
        if s[k].base == base && s[k].quote == quote && s[k].pool_idx == pool_idx && s[k].bid_tick
            == bid_tick && s[k].ask_tick == ask_tick {
            1int
        } else {
            0int
        }),
    decreases s.len(),
{
    if k == 0 {
        assert(s.remove(0) =~= s.drop_first());
    } else {
        assert(s.remove(k).drop_first() =~= s.drop_first().remove(k - 1));
        assert(s.remove(k)[0] == s[0]);
        lemma_count_remove(s.drop_first(), k - 1, base, quote, pool_idx, bid_tick, ask_tick);
    }
}

/// Whether a batch of records is in block order.
pub open spec fn spec_block_sorted_mint_ranged_by_block(s: Seq<MintRangedEvent>) -> bool {
    forall|i: int, j: int|
        0 <= i < j < s.len() ==> (#[trigger] s[i]).block_height.as_nat()
            <= (#[trigger] s[j]).block_height.as_nat()
}

/// Sorts records by block, keeping records of equal block in their
/// stored order.
pub fn sort_mint_ranged_by_block(v: &Vec<MintRangedEvent>) -> (r: Vec<MintRangedEvent>)
    ensures
        spec_block_sorted_mint_ranged_by_block(r@),
        r@.to_multiset() == v@.to_multiset(),
{
    broadcast use vstd::seq_lib::group_to_multiset_ensures;

    let mut res: Vec<MintRangedEvent> = Vec::new();
    let mut i: usize = 0;
    proof {
        assert(v@.take(0) =~= Seq::<MintRangedEvent>::empty());
        assert(res@.to_multiset() =~= v@.take(0).to_multiset());
    }
    while i < v.len()
        invariant
            0 <= i <= v@.len(),
            spec_block_sorted_mint_ranged_by_block(res@),
            res@.to_multiset() == v@.take(i as int).to_multiset(),
        decreases v@.len() - i,
    {
        broadcast use vstd::seq_lib::group_to_multiset_ensures;

        let e = v[i];
        let mut pos: usize = res.len();
        while pos > 0 && !res[pos - 1].block_height.le(&e.block_height)
            invariant
                0 <= pos <= res@.len(),
                forall|j: int|
                    pos <= j < res@.len() ==> !((#[trigger] res@[j]).block_height.as_nat()
                        <= e.block_height.as_nat()),
            decreases pos,
        {
            pos = pos - 1;
        }
        let ghost before = res@;
        res.insert(pos, e);
        proof {
            assert(res@ =~= before.take(pos as int) + seq![e] + before.skip(pos as int));
            assert(spec_block_sorted_mint_ranged_by_block(res@)) by {
                assert(forall|j: int| 0 <= j < pos ==> res@[j] == before[j]);
                assert(res@[pos as int] == e);
                assert(forall|j: int| pos < j < res@.len() ==> res@[j] == before[j - 1]);
                assert(forall|j: int|
                    0 <= j < pos ==> (#[trigger] before[j]).block_height.as_nat()
                        <= e.block_height.as_nat()) by {
                    if pos > 0 {
                        assert(before[pos - 1].block_height.as_nat() <= e.block_height.as_nat());
                    }
                }
            }
            vstd::seq_lib::lemma_multiset_commutative(
                before.take(pos as int) + seq![e],
                before.skip(pos as int),
            );
            vstd::seq_lib::lemma_multiset_commutative(before.take(pos as int), seq![e]);
            vstd::seq_lib::lemma_multiset_commutative(
                before.take(pos as int),
                before.skip(pos as int),
            );
            assert(before.take(pos as int) + before.skip(pos as int) =~= before);
            assert(seq![e] =~= Seq::<MintRangedEvent>::empty().push(e));
            assert(seq![e].to_multiset() =~= vstd::multiset::Multiset::<MintRangedEvent>::empty().insert(e));
            assert(res@.to_multiset() =~= before.to_multiset().insert(e));
            assert(v@.take(i + 1) =~= v@.take(i as int).push(e));
            assert(res@.to_multiset() =~= v@.take(i + 1).to_multiset());
        }
        i += 1;
    }
    proof {
        assert(v@.take(v@.len() as int) =~= v@);
    }
    res
}

/// Whether a batch of records is in block order.
pub open spec fn spec_block_sorted_burn_ranged_by_block(s: Seq<BurnRangedEvent>) -> bool {
    forall|i: int, j: int|
        0 <= i < j < s.len() ==> (#[trigger] s[i]).block_height.as_nat()
            <= (#[trigger] s[j]).block_height.as_nat()
}

/// Sorts records by block, keeping records of equal block in their
/// stored order.
pub fn sort_burn_ranged_by_block(v: &Vec<BurnRangedEvent>) -> (r: Vec<BurnRangedEvent>)
    ensures
        spec_block_sorted_burn_ranged_by_block(r@),
        r@.to_multiset() == v@.to_multiset(),
{
    broadcast use vstd::seq_lib::group_to_multiset_ensures;

    let mut res: Vec<BurnRangedEvent> = Vec::new();
    let mut i: usize = 0;
    proof {
        assert(v@.take(0) =~= Seq::<BurnRangedEvent>::empty());
        assert(res@.to_multiset() =~= v@.take(0).to_multiset());
    }
    while i < v.len()
        invariant
            0 <= i <= v@.len(),
            spec_block_sorted_burn_ranged_by_block(res@),
            res@.to_multiset() == v@.take(i as int).to_multiset(),
        decreases v@.len() - i,
    {
        broadcast use vstd::seq_lib::group_to_multiset_ensures;

        let e = v[i];
        let mut pos: usize = res.len();
        while pos > 0 && !res[pos - 1].block_height.le(&e.block_height)
            invariant
                0 <= pos <= res@.len(),
                forall|j: int|
                    pos <= j < res@.len() ==> !((#[trigger] res@[j]).block_height.as_nat()
                        <= e.block_height.as_nat()),
            decreases pos,
        {
            pos = pos - 1;
        }
        let ghost before = res@;
        res.insert(pos, e);
        proof {
            assert(res@ =~= before.take(pos as int) + seq![e] + before.skip(pos as int));
            assert(spec_block_sorted_burn_ranged_by_block(res@)) by {
                assert(forall|j: int| 0 <= j < pos ==> res@[j] == before[j]);
                assert(res@[pos as int] == e);
                assert(forall|j: int| pos < j < res@.len() ==> res@[j] == before[j - 1]);
                assert(forall|j: int|
                    0 <= j < pos ==> (#[trigger] before[j]).block_height.as_nat()
                        <= e.block_height.as_nat()) by {
                    if pos > 0 {
                        assert(before[pos - 1].block_height.as_nat() <= e.block_height.as_nat());
                    }
                }
            }
            vstd::seq_lib::lemma_multiset_commutative(
                before.take(pos as int) + seq![e],
                before.skip(pos as int),
            );
            vstd::seq_lib::lemma_multiset_commutative(before.take(pos as int), seq![e]);
            vstd::seq_lib::lemma_multiset_commutative(
                before.take(pos as int),
                before.skip(pos as int),
            );
            assert(before.take(pos as int) + before.skip(pos as int) =~= before);
            assert(seq![e] =~= Seq::<BurnRangedEvent>::empty().push(e));
            assert(seq![e].to_multiset() =~= vstd::multiset::Multiset::<BurnRangedEvent>::empty().insert(e));
            assert(res@.to_multiset() =~= before.to_multiset().insert(e));
            assert(v@.take(i + 1) =~= v@.take(i as int).push(e));
            assert(res@.to_multiset() =~= v@.take(i + 1).to_multiset());
        }
        i += 1;
    }
    proof {
        assert(v@.take(v@.len() as int) =~= v@);
    }
    res
}

/// Whether a batch of records is in block order.
pub open spec fn spec_block_sorted_mint_ambient_by_block(s: Seq<MintAmbientEvent>) -> bool {
    forall|i: int, j: int|
        0 <= i < j < s.len() ==> (#[trigger] s[i]).block_height.as_nat()
            <= (#[trigger] s[j]).block_height.as_nat()
}

/// Sorts records by block, keeping records of equal block in their
/// stored order.
pub fn sort_mint_ambient_by_block(v: &Vec<MintAmbientEvent>) -> (r: Vec<MintAmbientEvent>)
    ensures
        spec_block_sorted_mint_ambient_by_block(r@),
        r@.to_multiset() == v@.to_multiset(),
{
    broadcast use vstd::seq_lib::group_to_multiset_ensures;

    let mut res: Vec<MintAmbientEvent> = Vec::new();
    let mut i: usize = 0;
    proof {
        assert(v@.take(0) =~= Seq::<MintAmbientEvent>::empty());
        assert(res@.to_multiset() =~= v@.take(0).to_multiset());
    }
    while i < v.len()
        invariant
            0 <= i <= v@.len(),
            spec_block_sorted_mint_ambient_by_block(res@),
            res@.to_multiset() == v@.take(i as int).to_multiset(),
        decreases v@.len() - i,
    {
        broadcast use vstd::seq_lib::group_to_multiset_ensures;

        let e = v[i];
        let mut pos: usize = res.len();
        while pos > 0 && !res[pos - 1].block_height.le(&e.block_height)
            invariant
                0 <= pos <= res@.len(),
                forall|j: int|
                    pos <= j < res@.len() ==> !((#[trigger] res@[j]).block_height.as_nat()
                        <= e.block_height.as_nat()),
            decreases pos,
        {
            pos = pos - 1;
        }
        let ghost before = res@;
        res.insert(pos, e);
        proof {
            assert(res@ =~= before.take(pos as int) + seq![e] + before.skip(pos as int));
            assert(spec_block_sorted_mint_ambient_by_block(res@)) by {
                assert(forall|j: int| 0 <= j < pos ==> res@[j] == before[j]);
                assert(res@[pos as int] == e);
                assert(forall|j: int| pos < j < res@.len() ==> res@[j] == before[j - 1]);
                assert(forall|j: int|
                    0 <= j < pos ==> (#[trigger] before[j]).block_height.as_nat()
                        <= e.block_height.as_nat()) by {
                    if pos > 0 {
                        assert(before[pos - 1].block_height.as_nat() <= e.block_height.as_nat());
                    }
                }
            }
            vstd::seq_lib::lemma_multiset_commutative(
                before.take(pos as int) + seq![e],
                before.skip(pos as int),
            );
            vstd::seq_lib::lemma_multiset_commutative(before.take(pos as int), seq![e]);
            vstd::seq_lib::lemma_multiset_commutative(
                before.take(pos as int),
                before.skip(pos as int),
            );
            assert(before.take(pos as int) + before.skip(pos as int) =~= before);
            assert(seq![e] =~= Seq::<MintAmbientEvent>::empty().push(e));
            assert(seq![e].to_multiset() =~= vstd::multiset::Multiset::<MintAmbientEvent>::empty().insert(e));
            assert(res@.to_multiset() =~= before.to_multiset().insert(e));
            assert(v@.take(i + 1) =~= v@.take(i as int).push(e));
            assert(res@.to_multiset() =~= v@.take(i + 1).to_multiset());
        }
        i += 1;
    }
    proof {
        assert(v@.take(v@.len() as int) =~= v@);
    }
    res
}

/// Whether a batch of records is in block order.
pub open spec fn spec_block_sorted_burn_ambient_by_block(s: Seq<BurnAmbientEvent>) -> bool {
    forall|i: int, j: int|
        0 <= i < j < s.len() ==> (#[trigger] s[i]).block_height.as_nat()
            <= (#[trigger] s[j]).block_height.as_nat()
}

/// Sorts records by block, keeping records of equal block in their
/// stored order.
pub fn sort_burn_ambient_by_block(v: &Vec<BurnAmbientEvent>) -> (r: Vec<BurnAmbientEvent>)
    ensures
        spec_block_sorted_burn_ambient_by_block(r@),
        r@.to_multiset() == v@.to_multiset(),
{
    broadcast use vstd::seq_lib::group_to_multiset_ensures;

    let mut res: Vec<BurnAmbientEvent> = Vec::new();
    let mut i: usize = 0;
    proof {
        assert(v@.take(0) =~= Seq::<BurnAmbientEvent>::empty());
        assert(res@.to_multiset() =~= v@.take(0).to_multiset());
    }
    while i < v.len()
        invariant
            0 <= i <= v@.len(),
            spec_block_sorted_burn_ambient_by_block(res@),
            res@.to_multiset() == v@.take(i as int).to_multiset(),
        decreases v@.len() - i,
    {
        broadcast use vstd::seq_lib::group_to_multiset_ensures;

        let e = v[i];
        let mut pos: usize = res.len();
        while pos > 0 && !res[pos - 1].block_height.le(&e.block_height)
            invariant
                0 <= pos <= res@.len(),
                forall|j: int|
                    pos <= j < res@.len() ==> !((#[trigger] res@[j]).block_height.as_nat()
                        <= e.block_height.as_nat()),
            decreases pos,
        {
            pos = pos - 1;
        }
        let ghost before = res@;
        res.insert(pos, e);
        proof {
            assert(res@ =~= before.take(pos as int) + seq![e] + before.skip(pos as int));
            assert(spec_block_sorted_burn_ambient_by_block(res@)) by {
                assert(forall|j: int| 0 <= j < pos ==> res@[j] == before[j]);
                assert(res@[pos as int] == e);
                assert(forall|j: int| pos < j < res@.len() ==> res@[j] == before[j - 1]);
                assert(forall|j: int|
                    0 <= j < pos ==> (#[trigger] before[j]).block_height.as_nat()
                        <= e.block_height.as_nat()) by {
                    if pos > 0 {
                        assert(before[pos - 1].block_height.as_nat() <= e.block_height.as_nat());
                    }
                }
            }
            vstd::seq_lib::lemma_multiset_commutative(
                before.take(pos as int) + seq![e],
                before.skip(pos as int),
            );
            vstd::seq_lib::lemma_multiset_commutative(before.take(pos as int), seq![e]);
            vstd::seq_lib::lemma_multiset_commutative(
                before.take(pos as int),
                before.skip(pos as int),
            );
            assert(before.take(pos as int) + before.skip(pos as int) =~= before);
            assert(seq![e] =~= Seq::<BurnAmbientEvent>::empty().push(e));
            assert(seq![e].to_multiset() =~= vstd::multiset::Multiset::<BurnAmbientEvent>::empty().insert(e));
            assert(res@.to_multiset() =~= before.to_multiset().insert(e));
            assert(v@.take(i + 1) =~= v@.take(i as int).push(e));
            assert(res@.to_multiset() =~= v@.take(i + 1).to_multiset());
        }
        i += 1;
    }
    proof {
        assert(v@.take(v@.len() as int) =~= v@);
    }
    res
}

/// The records of one user, in storage order.
pub open spec fn spec_user_mint_ranged(s: Seq<MintRangedEvent>, user: Address) -> Seq<MintRangedEvent> {
    s.filter((|e: MintRangedEvent| e.user == user))
}

/// The records of one user in one pool, in storage order.
pub open spec fn spec_user_pool_mint_ranged(
    s: Seq<MintRangedEvent>,
    user: Address,
    base: Address,
    quote: Address,
    pool_idx: U256,
) -> Seq<MintRangedEvent> {
    s.filter(
        (|e: MintRangedEvent| e.user == user && e.base == base && e.quote == quote && e.pool_idx == pool_idx),
    )
}

/// The stored mint ranged records of one user, in storage order.
pub fn user_mint_ranged(db: &Db, user: &Address) -> (r: Vec<MintRangedEvent>)
    ensures
        r@ == spec_user_mint_ranged(db.mint_ranged@, *user),
{
    let all = get_all_mint_ranged(db);
    let mut res: Vec<MintRangedEvent> = Vec::new();
    let mut i: usize = 0;
    while i < all.len()
        invariant
            0 <= i <= all@.len(),
            all@ == db.mint_ranged@,
            res@ == spec_user_mint_ranged(all@.take(i as int), *user),
        decreases all@.len() - i,
    {
        let e = all[i];
        if e.user == *user {
            res.push(e);
        }
        proof {
            reveal_with_fuel(Seq::<MintRangedEvent>::filter, 3);
            let pre = all@.take(i as int);
            let post = all@.take(i + 1);
            assert(post.drop_last() =~= pre);
            assert(post.last() == e);
            assert(res@ =~= spec_user_mint_ranged(post, *user));
        }
        i += 1;
    }
    proof {
        assert(all@.take(all@.len() as int) =~= all@);
    }
    res
}

/// The stored mint ranged records of one user in one pool.
pub fn user_pool_mint_ranged(db: &Db, user: &Address, base: &Address, quote: &Address, pool_idx: &U256) -> (r: Vec<MintRangedEvent>)
    ensures
        r@ == spec_user_pool_mint_ranged(db.mint_ranged@, *user, *base, *quote, *pool_idx),
{
    let all = get_all_mint_ranged(db);
    let mut res: Vec<MintRangedEvent> = Vec::new();
    let mut i: usize = 0;
    while i < all.len()
        invariant
            0 <= i <= all@.len(),
            all@ == db.mint_ranged@,
            res@ == spec_user_pool_mint_ranged(all@.take(i as int), *user, *base, *quote, *pool_idx),
        decreases all@.len() - i,
    {
        let e = all[i];
        if e.user == *user && e.base == *base && e.quote == *quote && e.pool_idx == *pool_idx {
            res.push(e);
        }
        proof {
            reveal_with_fuel(Seq::<MintRangedEvent>::filter, 3);
            let pre = all@.take(i as int);
            let post = all@.take(i + 1);
            assert(post.drop_last() =~= pre);
            assert(post.last() == e);
            assert(res@ =~= spec_user_pool_mint_ranged(post, *user, *base, *quote, *pool_idx));
        }
        i += 1;
    }
    proof {
        assert(all@.take(all@.len() as int) =~= all@);
    }
    res
}

/// The records of one user, in storage order.
pub open spec fn spec_user_burn_ranged(s: Seq<BurnRangedEvent>, user: Address) -> Seq<BurnRangedEvent> {
    s.filter((|e: BurnRangedEvent| e.user == user))
}

/// The records of one user in one pool, in storage order.
pub open spec fn spec_user_pool_burn_ranged(
    s: Seq<BurnRangedEvent>,
    user: Address,
    base: Address,
    quote: Address,
    pool_idx: U256,
) -> Seq<BurnRangedEvent> {
    s.filter(
        (|e: BurnRangedEvent| e.user == user && e.base == base && e.quote == quote && e.pool_idx == pool_idx),
    )
}

/// The stored burn ranged records of one user, in storage order.
pub fn user_burn_ranged(db: &Db, user: &Address) -> (r: Vec<BurnRangedEvent>)
    ensures
        r@ == spec_user_burn_ranged(db.burn_ranged@, *user),
{
    let all = get_all_burn_ranged(db);
    let mut res: Vec<BurnRangedEvent> = Vec::new();
    let mut i: usize = 0;
    while i < all.len()
        invariant
            0 <= i <= all@.len(),
            all@ == db.burn_ranged@,
            res@ == spec_user_burn_ranged(all@.take(i as int), *user),
        decreases all@.len() - i,
    {
        let e = all[i];
        if e.user == *user {
            res.push(e);
        }
        proof {
            reveal_with_fuel(Seq::<BurnRangedEvent>::filter, 3);
            let pre = all@.take(i as int);
            let post = all@.take(i + 1);
            assert(post.drop_last() =~= pre);
            assert(post.last() == e);
            assert(res@ =~= spec_user_burn_ranged(post, *user));
        }
        i += 1;
    }
    proof {
        assert(all@.take(all@.len() as int) =~= all@);
    }
    res
}

/// The stored burn ranged records of one user in one pool.
pub fn user_pool_burn_ranged(db: &Db, user: &Address, base: &Address, quote: &Address, pool_idx: &U256) -> (r: Vec<BurnRangedEvent>)
    ensures
        r@ == spec_user_pool_burn_ranged(db.burn_ranged@, *user, *base, *quote, *pool_idx),
{
    let all = get_all_burn_ranged(db);
    let mut res: Vec<BurnRangedEvent> = Vec::new();
    let mut i: usize = 0;
    while i < all.len()
        invariant
            0 <= i <= all@.len(),
            all@ == db.burn_ranged@,
            res@ == spec_user_pool_burn_ranged(all@.take(i as int), *user, *base, *quote, *pool_idx),
        decreases all@.len() - i,
    {
        let e = all[i];
        if e.user == *user && e.base == *base && e.quote == *quote && e.pool_idx == *pool_idx {
            res.push(e);
        }
        proof {
            reveal_with_fuel(Seq::<BurnRangedEvent>::filter, 3);
            let pre = all@.take(i as int);
            let post = all@.take(i + 1);
            assert(post.drop_last() =~= pre);
            assert(post.last() == e);
            assert(res@ =~= spec_user_pool_burn_ranged(post, *user, *base, *quote, *pool_idx));
        }
        i += 1;
    }
    proof {
        assert(all@.take(all@.len() as int) =~= all@);
    }
    res
}

/// The records of one user, in storage order.
pub open spec fn spec_user_mint_ambient(s: Seq<MintAmbientEvent>, user: Address) -> Seq<MintAmbientEvent> {
    s.filter((|e: MintAmbientEvent| e.user == user))
}

/// The records of one user in one pool, in storage order.
pub open spec fn spec_user_pool_mint_ambient(
    s: Seq<MintAmbientEvent>,
    user: Address,
    base: Address,
    quote: Address,
    pool_idx: U256,
) -> Seq<MintAmbientEvent> {
    s.filter(
        (|e: MintAmbientEvent| e.user == user && e.base == base && e.quote == quote && e.pool_idx == pool_idx),
    )
}

/// The stored mint ambient records of one user, in storage order.
pub fn user_mint_ambient(db: &Db, user: &Address) -> (r: Vec<MintAmbientEvent>)
    ensures
        r@ == spec_user_mint_ambient(db.mint_ambient@, *user),
{
    let all = get_all_mint_ambient(db);
    let mut res: Vec<MintAmbientEvent> = Vec::new();
    let mut i: usize = 0;
    while i < all.len()
        invariant
            0 <= i <= all@.len(),
            all@ == db.mint_ambient@,
            res@ == spec_user_mint_ambient(all@.take(i as int), *user),
        decreases all@.len() - i,
    {
        let e = all[i];
        if e.user == *user {
            res.push(e);
        }
        proof {
            reveal_with_fuel(Seq::<MintAmbientEvent>::filter, 3);
            let pre = all@.take(i as int);
            let post = all@.take(i + 1);
            assert(post.drop_last() =~= pre);
            assert(post.last() == e);
            assert(res@ =~= spec_user_mint_ambient(post, *user));
        }
        i += 1;
    }
    proof {
        assert(all@.take(all@.len() as int) =~= all@);
    }
    res
}

/// The stored mint ambient records of one user in one pool.
pub fn user_pool_mint_ambient(db: &Db, user: &Address, base: &Address, quote: &Address, pool_idx: &U256) -> (r: Vec<MintAmbientEvent>)
    ensures
        r@ == spec_user_pool_mint_ambient(db.mint_ambient@, *user, *base, *quote, *pool_idx),
{
    let all = get_all_mint_ambient(db);
    let mut res: Vec<MintAmbientEvent> = Vec::new();
    let mut i: usize = 0;
    while i < all.len()
        invariant
            0 <= i <= all@.len(),
            all@ == db.mint_ambient@,
            res@ == spec_user_pool_mint_ambient(all@.take(i as int), *user, *base, *quote, *pool_idx),
        decreases all@.len() - i,
    {
        let e = all[i];
        if e.user == *user && e.base == *base && e.quote == *quote && e.pool_idx == *pool_idx {
            res.push(e);
        }
        proof {
            reveal_with_fuel(Seq::<MintAmbientEvent>::filter, 3);
            let pre = all@.take(i as int);
            let post = all@.take(i + 1);
            assert(post.drop_last() =~= pre);
            assert(post.last() == e);
            assert(res@ =~= spec_user_pool_mint_ambient(post, *user, *base, *quote, *pool_idx));
        }
        i += 1;
    }
    proof {
        assert(all@.take(all@.len() as int) =~= all@);
    }
    res
}

/// The records of one user, in storage order.
pub open spec fn spec_user_burn_ambient(s: Seq<BurnAmbientEvent>, user: Address) -> Seq<BurnAmbientEvent> {
    s.filter((|e: BurnAmbientEvent| e.user == user))
}

/// The records of one user in one pool, in storage order.
pub open spec fn spec_user_pool_burn_ambient(
    s: Seq<BurnAmbientEvent>,
    user: Address,
    base: Address,
    quote: Address,
    pool_idx: U256,
) -> Seq<BurnAmbientEvent> {
    s.filter(
        (|e: BurnAmbientEvent| e.user == user && e.base == base && e.quote == quote && e.pool_idx == pool_idx),
    )
}

/// The stored burn ambient records of one user, in storage order.
pub fn user_burn_ambient(db: &Db, user: &Address) -> (r: Vec<BurnAmbientEvent>)
    ensures
        r@ == spec_user_burn_ambient(db.burn_ambient@, *user),
{
    let all = get_all_burn_ambient(db);
    let mut res: Vec<BurnAmbientEvent> = Vec::new();
    let mut i: usize = 0;
    while i < all.len()
        invariant
            0 <= i <= all@.len(),
            all@ == db.burn_ambient@,
            res@ == spec_user_burn_ambient(all@.take(i as int), *user),
        decreases all@.len() - i,
    {
        let e = all[i];
        if e.user == *user {
            res.push(e);
        }
        proof {
            reveal_with_fuel(Seq::<BurnAmbientEvent>::filter, 3);
            let pre = all@.take(i as int);
            let post = all@.take(i + 1);
            assert(post.drop_last() =~= pre);
            assert(post.last() == e);
            assert(res@ =~= spec_user_burn_ambient(post, *user));
        }
        i += 1;
    }
    proof {
        assert(all@.take(all@.len() as int) =~= all@);
    }
    res
}

/// The stored burn ambient records of one user in one pool.
pub fn user_pool_burn_ambient(db: &Db, user: &Address, base: &Address, quote: &Address, pool_idx: &U256) -> (r: Vec<BurnAmbientEvent>)
    ensures
        r@ == spec_user_pool_burn_ambient(db.burn_ambient@, *user, *base, *quote, *pool_idx),
{
    let all = get_all_burn_ambient(db);
    let mut res: Vec<BurnAmbientEvent> = Vec::new();
    let mut i: usize = 0;
    while i < all.len()
        invariant
            0 <= i <= all@.len(),
            all@ == db.burn_ambient@,
            res@ == spec_user_pool_burn_ambient(all@.take(i as int), *user, *base, *quote, *pool_idx),
        decreases all@.len() - i,
    {
        let e = all[i];
        if e.user == *user && e.base == *base && e.quote == *quote && e.pool_idx == *pool_idx {
            res.push(e);
        }
        proof {
            reveal_with_fuel(Seq::<BurnAmbientEvent>::filter, 3);
            let pre = all@.take(i as int);
            let post = all@.take(i + 1);
            assert(post.drop_last() =~= pre);
            assert(post.last() == e);
            assert(res@ =~= spec_user_pool_burn_ambient(post, *user, *base, *quote, *pool_idx));
        }
        i += 1;
    }
    proof {
        assert(all@.take(all@.len() as int) =~= all@);
    }
    res
}

/// The start block of a reconstructed position.
pub open spec fn spec_position_start(p: Position) -> nat {
    match p {
        Position::Ranged(v) => v.start_block.as_nat(),
        Position::Ambient(v) => v.start_block.as_nat(),
    }
}

/// Whether a mixed position listing is in start-block order.
pub open spec fn positions_sorted(s: Seq<Position>) -> bool {
    forall|i: int, j: int|
        0 <= i < j < s.len() ==> spec_position_start(#[trigger] s[i]) <= spec_position_start(
            #[trigger] s[j],
        )
}

/// The contents of an open-position listing: exactly the survivors of the
/// mint-then-burn folds, each ranged or ambient survivor appearing once.
pub open spec fn spec_listing_contents(
    rp: Seq<RangedPosition>,
    ap: Seq<AmbientPosition>,
    v: Seq<Position>,
) -> bool {
    v.to_multiset() == rp.map_values(|p: RangedPosition| Position::Ranged(p)).to_multiset().add(
        ap.map_values(|p: AmbientPosition| Position::Ambient(p)).to_multiset(),
    )
}

/// What a user listing holds: for some block-ordered arrangements of the
/// user's stored mints and burns of each kind, the result is the merge of
/// the two reconstruction folds, listed by start block.
pub open spec fn spec_user_listing(
    db: Db,
    user: Address,
    mr: Seq<MintRangedEvent>,
    br: Seq<BurnRangedEvent>,
    ma: Seq<MintAmbientEvent>,
    ba: Seq<BurnAmbientEvent>,
    v: Seq<Position>,
) -> bool {
    &&& spec_block_sorted_mint_ranged_by_block(mr)
    &&& spec_block_sorted_burn_ranged_by_block(br)
    &&& spec_block_sorted_mint_ambient_by_block(ma)
    &&& spec_block_sorted_burn_ambient_by_block(ba)
    &&& mr.to_multiset() == spec_user_mint_ranged(db.mint_ranged@, user).to_multiset()
    &&& br.to_multiset() == spec_user_burn_ranged(db.burn_ranged@, user).to_multiset()
    &&& ma.to_multiset() == spec_user_mint_ambient(db.mint_ambient@, user).to_multiset()
    &&& ba.to_multiset() == spec_user_burn_ambient(db.burn_ambient@, user).to_multiset()
    &&& spec_fold_mints_ranged(Seq::empty(), mr) is Some
    &&& spec_fold_mints_ambient(Seq::empty(), ma) is Some
    &&& spec_listing_contents(
        spec_fold_burns_ranged(spec_fold_mints_ranged(Seq::empty(), mr)->0, br),
        spec_fold_burns_ambient(spec_fold_mints_ambient(Seq::empty(), ma)->0, ba),
        v,
    )
}

/// What a per-pool listing holds, restricted to one pool triple.
pub open spec fn spec_user_pool_listing(
    db: Db,
    user: Address,
    base: Address,
    quote: Address,
    pool_idx: U256,
    mr: Seq<MintRangedEvent>,
    br: Seq<BurnRangedEvent>,
    ma: Seq<MintAmbientEvent>,
    ba: Seq<BurnAmbientEvent>,
    v: Seq<Position>,
) -> bool {
    &&& spec_block_sorted_mint_ranged_by_block(mr)
    &&& spec_block_sorted_burn_ranged_by_block(br)
    &&& spec_block_sorted_mint_ambient_by_block(ma)
    &&& spec_block_sorted_burn_ambient_by_block(ba)
    &&& mr.to_multiset() == spec_user_pool_mint_ranged(
        db.mint_ranged@,
        user,
        base,
        quote,
        pool_idx,
    ).to_multiset()
    &&& br.to_multiset() == spec_user_pool_burn_ranged(
        db.burn_ranged@,
        user,
        base,
        quote,
        pool_idx,
    ).to_multiset()
    &&& ma.to_multiset() == spec_user_pool_mint_ambient(
        db.mint_ambient@,
        user,
        base,
        quote,
        pool_idx,
    ).to_multiset()
    &&& ba.to_multiset() == spec_user_pool_burn_ambient(
        db.burn_ambient@,
        user,
        base,
        quote,
        pool_idx,
    ).to_multiset()
    &&& spec_fold_mints_ranged(Seq::empty(), mr) is Some
    &&& spec_fold_mints_ambient(Seq::empty(), ma) is Some
    &&& spec_listing_contents(
        spec_fold_burns_ranged(spec_fold_mints_ranged(Seq::empty(), mr)->0, br),
        spec_fold_burns_ambient(spec_fold_mints_ambient(Seq::empty(), ma)->0, ba),
        v,
    )
}

/// Merges ranged and ambient positions into one listing in start-block
/// order, keeping exactly the given positions.
fn merge_positions(ranged: Vec<RangedPosition>, ambient: Vec<AmbientPosition>) -> (r: Vec<
    Position,
>)
    ensures
        positions_sorted(r@),
        spec_listing_contents(ranged@, ambient@, r@),
{
    broadcast use vstd::seq_lib::group_to_multiset_ensures;

    let mut res: Vec<Position> = Vec::new();
    let mut i: usize = 0;
    proof {
        assert(ranged@.take(0).map_values(|p: RangedPosition| Position::Ranged(p))
            =~= Seq::<Position>::empty());
        assert(res@.to_multiset() =~= ranged@.take(0).map_values(
            |p: RangedPosition| Position::Ranged(p),
        ).to_multiset());
    }
    while i < ranged.len()
        invariant
            0 <= i <= ranged@.len(),
            positions_sorted(res@),
            res@.to_multiset() == ranged@.take(i as int).map_values(
                |p: RangedPosition| Position::Ranged(p),
            ).to_multiset(),
        decreases ranged@.len() - i,
    {
        broadcast use vstd::seq_lib::group_to_multiset_ensures;

        let e = Position::Ranged(ranged[i]);
        let mut pos: usize = res.len();
        while pos > 0 && !start_le(&res[pos - 1], &e)
            invariant
                0 <= pos <= res@.len(),
                forall|j: int|
                    pos <= j < res@.len() ==> !(spec_position_start(#[trigger] res@[j])
                        <= spec_position_start(e)),
            decreases pos,
        {
            pos = pos - 1;
        }
        let ghost before = res@;
        res.insert(pos, e);
        proof {
            assert(res@ =~= before.take(pos as int) + seq![e] + before.skip(pos as int));
            assert(positions_sorted(res@)) by {
                assert(forall|j: int| 0 <= j < pos ==> res@[j] == before[j]);
                assert(res@[pos as int] == e);
                assert(forall|j: int| pos < j < res@.len() ==> res@[j] == before[j - 1]);
                assert(forall|j: int|
                    0 <= j < pos ==> spec_position_start(#[trigger] before[j])
                        <= spec_position_start(e)) by {
                    if pos > 0 {
                        assert(spec_position_start(before[pos - 1]) <= spec_position_start(e));
                    }
                }
            }
            vstd::seq_lib::lemma_multiset_commutative(
                before.take(pos as int) + seq![e],
                before.skip(pos as int),
            );
            vstd::seq_lib::lemma_multiset_commutative(before.take(pos as int), seq![e]);
            vstd::seq_lib::lemma_multiset_commutative(
                before.take(pos as int),
                before.skip(pos as int),
            );
            assert(before.take(pos as int) + before.skip(pos as int) =~= before);
            assert(seq![e] =~= Seq::<Position>::empty().push(e));
            assert(seq![e].to_multiset() =~= vstd::multiset::Multiset::<Position>::empty().insert(
                e,
            ));
            assert(res@.to_multiset() =~= before.to_multiset().insert(e));
            assert(ranged@.take(i + 1).map_values(|p: RangedPosition| Position::Ranged(p))
                =~= ranged@.take(i as int).map_values(
                |p: RangedPosition| Position::Ranged(p),
            ).push(e));
            assert(res@.to_multiset() =~= ranged@.take(i + 1).map_values(
                |p: RangedPosition| Position::Ranged(p),
            ).to_multiset());
        }
        i += 1;
    }
    proof {
        assert(ranged@.take(ranged@.len() as int) =~= ranged@);
        assert(ambient@.take(0).map_values(|p: AmbientPosition| Position::Ambient(p))
            =~= Seq::<Position>::empty());
    }
    let ghost rpart = ranged@.map_values(|p: RangedPosition| Position::Ranged(p)).to_multiset();
    let mut k: usize = 0;
    while k < ambient.len()
        invariant
            0 <= k <= ambient@.len(),
            positions_sorted(res@),
            res@.to_multiset() == rpart.add(
                ambient@.take(k as int).map_values(
                    |p: AmbientPosition| Position::Ambient(p),
                ).to_multiset(),
            ),
            rpart == ranged@.map_values(|p: RangedPosition| Position::Ranged(p)).to_multiset(),
        decreases ambient@.len() - k,
    {
        broadcast use vstd::seq_lib::group_to_multiset_ensures;

        let e = Position::Ambient(ambient[k]);
        let mut pos: usize = res.len();
        while pos > 0 && !start_le(&res[pos - 1], &e)
            invariant
                0 <= pos <= res@.len(),
                forall|j: int|
                    pos <= j < res@.len() ==> !(spec_position_start(#[trigger] res@[j])
                        <= spec_position_start(e)),
            decreases pos,
        {
            pos = pos - 1;
        }
        let ghost before = res@;
        res.insert(pos, e);
        proof {
            assert(res@ =~= before.take(pos as int) + seq![e] + before.skip(pos as int));
            assert(positions_sorted(res@)) by {
                assert(forall|j: int| 0 <= j < pos ==> res@[j] == before[j]);
                assert(res@[pos as int] == e);
                assert(forall|j: int| pos < j < res@.len() ==> res@[j] == before[j - 1]);
                assert(forall|j: int|
                    0 <= j < pos ==> spec_position_start(#[trigger] before[j])
                        <= spec_position_start(e)) by {
                    if pos > 0 {
                        assert(spec_position_start(before[pos - 1]) <= spec_position_start(e));
                    }
                }
            }
            vstd::seq_lib::lemma_multiset_commutative(
                before.take(pos as int) + seq![e],
                before.skip(pos as int),
            );
            vstd::seq_lib::lemma_multiset_commutative(before.take(pos as int), seq![e]);
            vstd::seq_lib::lemma_multiset_commutative(
                before.take(pos as int),
                before.skip(pos as int),
            );
            assert(before.take(pos as int) + before.skip(pos as int) =~= before);
            assert(seq![e] =~= Seq::<Position>::empty().push(e));
            assert(seq![e].to_multiset() =~= vstd::multiset::Multiset::<Position>::empty().insert(
                e,
            ));
            assert(res@.to_multiset() =~= before.to_multiset().insert(e));
            assert(ambient@.take(k + 1).map_values(|p: AmbientPosition| Position::Ambient(p))
                =~= ambient@.take(k as int).map_values(
                |p: AmbientPosition| Position::Ambient(p),
            ).push(e));
            assert(res@.to_multiset() =~= rpart.add(
                ambient@.take(k + 1).map_values(
                    |p: AmbientPosition| Position::Ambient(p),
                ).to_multiset(),
            ));
        }
        k += 1;
    }
    proof {
        assert(ambient@.take(ambient@.len() as int) =~= ambient@);
    }
    res
}

/// Start-block comparison of two positions.
fn start_le(a: &Position, b: &Position) -> (r: bool)
    ensures
        r == (spec_position_start(*a) <= spec_position_start(*b)),
{
    let sa: &U256 = match a {
        Position::Ranged(v) => &v.start_block,
        Position::Ambient(v) => &v.start_block,
    };
    let sb: &U256 = match b {
        Position::Ranged(v) => &v.start_block,
        Position::Ambient(v) => &v.start_block,
    };
    sa.le(sb)
}

/// The open positions of one user across every pool: the user's stored
/// mints and burns of each kind are put in block order, mints are merged
/// and burns close positions, and the survivors are listed by start
/// block.
pub fn get_active_user_positions(db: &Db, user: &Address) -> (r: Result<
    Vec<Position>,
    IndexerError,
>)
    ensures
        r matches Ok(v) ==> positions_sorted(v@) && (exists|
            mr: Seq<MintRangedEvent>,
            br: Seq<BurnRangedEvent>,
            ma: Seq<MintAmbientEvent>,
            ba: Seq<BurnAmbientEvent>,
        | #[trigger] spec_user_listing(*db, *user, mr, br, ma, ba, v@)),
        r matches Err(e) ==> e is Overflow,
{
    let mrv = sort_mint_ranged_by_block(&user_mint_ranged(db, user));
    let brv = sort_burn_ranged_by_block(&user_burn_ranged(db, user));
    let mav = sort_mint_ambient_by_block(&user_mint_ambient(db, user));
    let bav = sort_burn_ambient_by_block(&user_burn_ambient(db, user));
    let ranged = match combine_and_filter_ranged_positions(&mrv, &brv) {
        Ok(v) => v,
        Err(e) => {
            return Err(e);
        },
    };
    let ambient = match combine_and_filter_ambient_positions(&mav, &bav) {
        Ok(v) => v,
        Err(e) => {
            return Err(e);
        },
    };
    let merged = merge_positions(ranged, ambient);
    proof {
        assert(spec_user_listing(*db, *user, mrv@, brv@, mav@, bav@, merged@));
        assert(exists|
            mr: Seq<MintRangedEvent>,
            br: Seq<BurnRangedEvent>,
            ma: Seq<MintAmbientEvent>,
            ba: Seq<BurnAmbientEvent>,
        | #[trigger] spec_user_listing(*db, *user, mr, br, ma, ba, merged@));
    }
    Ok(merged)
}

/// The open positions of one user in one pool, listed by start block.
pub fn get_active_user_pool_positions(
    db: &Db,
    user: &Address,
    base: &Address,
    quote: &Address,
    pool_idx: &U256,
) -> (r: Result<Vec<Position>, IndexerError>)
    ensures
        r matches Ok(v) ==> positions_sorted(v@) && (exists|
            mr: Seq<MintRangedEvent>,
            br: Seq<BurnRangedEvent>,
            ma: Seq<MintAmbientEvent>,
            ba: Seq<BurnAmbientEvent>,
        | #[trigger] spec_user_pool_listing(*db, *user, *base, *quote, *pool_idx, mr, br, ma, ba, v@)),
        r matches Err(e) ==> e is Overflow,
{
    let mrv = sort_mint_ranged_by_block(&user_pool_mint_ranged(db, user, base, quote, pool_idx));
    let brv = sort_burn_ranged_by_block(&user_pool_burn_ranged(db, user, base, quote, pool_idx));
    let mav = sort_mint_ambient_by_block(&user_pool_mint_ambient(db, user, base, quote, pool_idx));
    let bav = sort_burn_ambient_by_block(&user_pool_burn_ambient(db, user, base, quote, pool_idx));
    let ranged = match combine_and_filter_ranged_positions(&mrv, &brv) {
        Ok(v) => v,
        Err(e) => {
            return Err(e);
        },
    };
    let ambient = match combine_and_filter_ambient_positions(&mav, &bav) {
        Ok(v) => v,
        Err(e) => {
            return Err(e);
        },
    };
    let merged = merge_positions(ranged, ambient);
    proof {
        assert(spec_user_pool_listing(
            *db,
            *user,
            *base,
            *quote,
            *pool_idx,
            mrv@,
            brv@,
            mav@,
            bav@,
            merged@,
        ));
        assert(exists|
            mr: Seq<MintRangedEvent>,
            br: Seq<BurnRangedEvent>,
            ma: Seq<MintAmbientEvent>,
            ba: Seq<BurnAmbientEvent>,
        | #[trigger] spec_user_pool_listing(
            *db,
            *user,
            *base,
            *quote,
            *pool_idx,
            mr,
            br,
            ma,
            ba,
            merged@,
        ));
    }
    Ok(merged)
}

} // verus!
