//! The general properties of the fold: replay determinism, volume
//! monotonicity, conservation under paired mints and burns, bump symmetry
//! and bump ordering.

use vstd::prelude::*;
use crate::events::BurnAmbientEvent;
use crate::events::BurnRangedEvent;
use crate::events::MintAmbientEvent;
use crate::events::MintRangedEvent;
use crate::tracking::bumps_sorted;
use crate::tracking::spec_add_signed;
use crate::tracking::spec_apply_bump_change;
use crate::tracking::spec_bump_at;
use crate::tracking::spec_change_bump;
use crate::tracking::spec_collapsed;
use crate::tracking::spec_conc_bumps;
use crate::tracking::spec_fold_updates;
use crate::tracking::spec_handle_liq;
use crate::tracking::spec_handle_swap;
use crate::tracking::spec_handle_update;
use crate::tracking::spec_remove_collapsed;
use crate::tracking::LiquidityBump;
use crate::tracking::PoolModel;
use crate::u256::lemma_u256_of_as_nat;
use crate::u256::spec_isqrt;
use crate::updates::spec_flow_liq;
use crate::updates::spec_mag;
use crate::updates::spec_update_from_burn_ambient;
use crate::updates::spec_update_from_burn_ranged;
use crate::updates::spec_update_from_mint_ambient;
use crate::updates::spec_update_from_mint_ranged;
use crate::updates::PoolUpdateEvent;

verus! {

/// Whether some bump sits at `t`.
pub open spec fn has_tick(bs: Seq<LiquidityBump>, t: i32) -> bool {
    exists|i: int| 0 <= i < bs.len() && #[trigger] bs[i].tick == t
}

/// Every natural number has an integer square root.
pub proof fn lemma_isqrt_exists(n: nat)
    ensures
        spec_isqrt(n) * spec_isqrt(n) <= n,
        n < (spec_isqrt(n) + 1) * (spec_isqrt(n) + 1),
    decreases n,
{
    if n == 0 {
        assert((0 + 1) * (0 + 1) == 1) by (nonlinear_arith);
        crate::u256::lemma_isqrt_unique(0, 0);
    } else {
        lemma_isqrt_exists((n - 1) as nat);
        let r = spec_isqrt((n - 1) as nat);
        if n < (r + 1) * (r + 1) {
            crate::u256::lemma_isqrt_unique(n, r);
        } else {
            assert(n == (r + 1) * (r + 1));
            assert((r + 1) * (r + 1) < (r + 2) * (r + 2)) by (nonlinear_arith);
            crate::u256::lemma_isqrt_unique(n, r + 1);
        }
    }
}

/// Ordered replay determinism: folding a batch and then another batch is
/// the same as folding their concatenation, so any window partition of the
/// same ordered events replays to the same pool state.
pub proof fn lemma_fold_append(p: PoolModel, a: Seq<PoolUpdateEvent>, b: Seq<PoolUpdateEvent>)
    ensures
        spec_fold_updates(p, a + b) == match spec_fold_updates(p, a) {
            Some(q) => spec_fold_updates(q, b),
            None => None,
        },
    decreases a.len(),
{
    if a.len() == 0 {
        assert(a + b =~= b);
    } else {
        assert((a + b)[0] == a[0]);
        match spec_handle_update(p, a[0]) {
            Some(q) => {
                assert((a + b).drop_first() =~= a.drop_first() + b);
                lemma_fold_append(q, a.drop_first(), b);
            },
            None => {},
        }
    }
}

/// One step never decreases the recorded volumes.
pub proof fn lemma_step_volumes(p: PoolModel, u: PoolUpdateEvent)
    ensures
        spec_handle_update(p, u) matches Some(q) ==> q.base_volume.as_nat()
            >= p.base_volume.as_nat() && q.quote_volume.as_nat() >= p.quote_volume.as_nat(),
{
    if u.is_liq {
    } else if u.is_swap {
        let s = spec_handle_swap(p, u);
        if s is Some {
            let bv = crate::tracking::spec_add_amount(p.base_volume, spec_mag(u.base_flow));
            let qv = crate::tracking::spec_add_amount(p.quote_volume, spec_mag(u.quote_flow));
            lemma_u256_of_as_nat(bv->0);
            lemma_u256_of_as_nat(qv->0);
            assert(bv->0.as_nat() == p.base_volume.as_nat() + spec_mag(u.base_flow)) by {
                lemma_add_signed_value(p.base_volume, spec_mag(u.base_flow) as int);
            }
            assert(qv->0.as_nat() == p.quote_volume.as_nat() + spec_mag(u.quote_flow)) by {
                lemma_add_signed_value(p.quote_volume, spec_mag(u.quote_flow) as int);
            }
        }
    }
}

/// The value held by a successful signed addition.
pub proof fn lemma_add_signed_value(a: crate::u256::U256, d: int)
    ensures
        spec_add_signed(a, d) matches Some(s) ==> s.as_nat() == a.as_nat() + d,
{
    if spec_add_signed(a, d) is Some {
        lemma_u256_of_value((a.as_nat() + d) as nat);
    }
}

/// Reading the value back out of `spec_u256_of`.
pub proof fn lemma_u256_of_value(n: nat)
    requires
        n < 0x10000000000000000000000000000000000000000000000000000000000000000,
    ensures
        crate::u256::spec_u256_of(n).as_nat() == n,
{
    reveal(crate::u256::spec_u256_of);
    let b: int = 0x10000000000000000;
    let q1: int = (n as int) / 0x10000000000000000;
    let q2: int = q1 / b;
    let q3: int = q2 / b;
    vstd::arithmetic::div_mod::lemma_fundamental_div_mod(n as int, b);
    vstd::arithmetic::div_mod::lemma_fundamental_div_mod(q1, b);
    vstd::arithmetic::div_mod::lemma_fundamental_div_mod(q2, b);
    vstd::arithmetic::div_mod::lemma_fundamental_div_mod(q3, b);
    assert(q3 < b) by {
        vstd::arithmetic::div_mod::lemma_div_denominator(n as int, b, b);
        vstd::arithmetic::div_mod::lemma_div_denominator(n as int, b * b, b);
        vstd::arithmetic::div_mod::lemma_multiply_divide_lt(
            n as int,
            (b * b) * b,
            b,
        );
        assert(((b * b) * b) * b
            == 0x10000000000000000000000000000000000000000000000000000000000000000);
    }
    assert(q3 % b == q3) by {
        vstd::arithmetic::div_mod::lemma_small_mod(q3 as nat, b as nat);
    }
    assert(crate::u256::spec_u256_of(n).as_nat() == (n as int) % b + (q1 % b) * b + (q2 % b) * (b
        * b) + q3 * ((b * b) * b)) by (nonlinear_arith)
        requires
            crate::u256::spec_u256_of(n).as_nat() == (n as int) % b + ((q1 % b)
                * 0x10000000000000000 + (q2 % b) * 0x100000000000000000000000000000000 + (q3 % b)
                * 0x1000000000000000000000000000000000000000000000000),
            q3 % b == q3,
            b == 0x10000000000000000,
    ;
    assert(n == (n as int) % b + (q1 % b) * b + (q2 % b) * (b * b) + q3 * ((b * b) * b))
        by (nonlinear_arith)
        requires
            n as int == b * q1 + (n as int) % b,
            q1 == b * q2 + q1 % b,
            q2 == b * q3 + q2 % b,
    ;
}

/// Volume monotonicity: across any folded sequence of updates, the base
/// and quote volumes never decrease.
pub proof fn lemma_fold_volumes(p: PoolModel, us: Seq<PoolUpdateEvent>)
    ensures
        spec_fold_updates(p, us) matches Some(q) ==> q.base_volume.as_nat()
            >= p.base_volume.as_nat() && q.quote_volume.as_nat() >= p.quote_volume.as_nat(),
    decreases us.len(),
{
    if us.len() > 0 {
        match spec_handle_update(p, us[0]) {
            Some(q) => {
                lemma_step_volumes(p, us[0]);
                lemma_fold_volumes(q, us.drop_first());
            },
            None => {},
        }
    }
}

/// A bump change keeps the sequence strictly sorted by tick, and
/// introduces no tick but the changed one.
pub proof fn lemma_apply_bump_sorted(
    bs: Seq<LiquidityBump>,
    tick: i32,
    dd: int,
    dkb: int,
    dka: int,
    sbw: Option<i32>,
    saw: Option<i32>,
)
    requires
        bumps_sorted(bs),
    ensures
        spec_apply_bump_change(bs, tick, dd, dkb, dka, sbw, saw) matches Some(r) ==> bumps_sorted(
            r,
        ) && (forall|k: int|
            0 <= k < r.len() ==> (#[trigger] r[k].tick == tick || has_tick(bs, r[k].tick))),
    decreases bs.len(),
{
    let ro = spec_apply_bump_change(bs, tick, dd, dkb, dka, sbw, saw);
    if ro is Some {
        let r = ro->0;
        if bs.len() == 0 {
        } else if bs[0].tick == tick {
            assert(forall|k: int|
                0 <= k < bs.drop_first().len() ==> #[trigger] bs.drop_first()[k] == bs[k + 1]);
            assert(forall|k: int| 0 <= k < r.len() && r[k].tick != tick ==> has_tick(
                bs,
                r[k].tick,
            )) by {
                assert(forall|k: int| 1 <= k < r.len() ==> r[k] == bs[k]);
            }
        } else if tick < bs[0].tick {
            assert(forall|k: int| 1 <= k < r.len() ==> r[k] == bs[k - 1]);
            assert(bumps_sorted(r)) by {
                assert(forall|k: int| 1 <= k < r.len() ==> #[trigger] r[k].tick >= bs[0].tick);
            }
        } else {
            let tail = bs.drop_first();
            assert(bumps_sorted(tail)) by {
                assert(forall|k: int| 0 <= k < tail.len() ==> #[trigger] tail[k] == bs[k + 1]);
            }
            lemma_apply_bump_prefix_tail(bs, tick, dd, dkb, dka, sbw, saw);
            lemma_apply_bump_sorted(tail, tick, dd, dkb, dka, sbw, saw);
            let rt = spec_apply_bump_change(tail, tick, dd, dkb, dka, sbw, saw)->0;
            assert(r == seq![bs[0]] + rt);
            assert(forall|k: int| 1 <= k < r.len() ==> r[k] == rt[k - 1]);
            assert(forall|k: int|
                1 <= k < r.len() ==> (#[trigger] r[k].tick == tick || has_tick(tail, r[k].tick)));
            assert(forall|k: int| 0 <= k < tail.len() && has_tick(tail, tail[k].tick) ==> has_tick(
                bs,
                tail[k].tick,
            ));
            assert(forall|k: int| 1 <= k < r.len() ==> bs[0].tick < #[trigger] r[k].tick) by {
                assert(forall|m: int|
                    0 <= m < tail.len() ==> bs[0].tick < #[trigger] tail[m].tick);
                assert(bs[0].tick < tick);
            }
        }
    }
}

/// Helper: in the recursive branch, both sides step together.
proof fn lemma_apply_bump_prefix_tail(
    bs: Seq<LiquidityBump>,
    tick: i32,
    dd: int,
    dkb: int,
    dka: int,
    sbw: Option<i32>,
    saw: Option<i32>,
)
    requires
        bs.len() > 0,
        bs[0].tick != tick,
        !(tick < bs[0].tick),
    ensures
        spec_apply_bump_change(bs, tick, dd, dkb, dka, sbw, saw) matches Some(r) ==> r == seq![
            bs[0],
        ] + spec_apply_bump_change(bs.drop_first(), tick, dd, dkb, dka, sbw, saw)->0,
{
}

/// Dropping collapsed bumps keeps the sequence strictly sorted: the
/// survivors are a subsequence of the bumps that went in.
pub proof fn lemma_remove_collapsed_sorted(bs: Seq<LiquidityBump>, tick: i32)
    requires
        bumps_sorted(bs),
    ensures
        bumps_sorted(spec_remove_collapsed(bs, tick)),
        forall|k: int|
            0 <= k < spec_remove_collapsed(bs, tick).len() ==> bs.contains(
                #[trigger] spec_remove_collapsed(bs, tick)[k],
            ),
    decreases bs.len(),
{
    if bs.len() > 0 {
        let tail = bs.drop_first();
        assert(bumps_sorted(tail)) by {
            assert(forall|k: int| 0 <= k < tail.len() ==> #[trigger] tail[k] == bs[k + 1]);
        }
        lemma_remove_collapsed_sorted(tail, tick);
        let rt = spec_remove_collapsed(tail, tick);
        assert(forall|k: int| 0 <= k < rt.len() ==> tail.contains(#[trigger] rt[k]));
        assert(forall|k: int| 0 <= k < tail.len() ==> bs.contains(#[trigger] tail[k])) by {
            assert(forall|k: int| 0 <= k < tail.len() ==> #[trigger] tail[k] == bs[k + 1]);
        }
        if bs[0].tick == tick && spec_collapsed(bs[0]) {
        } else {
            let r = seq![bs[0]] + rt;
            assert(forall|k: int| 1 <= k < r.len() ==> r[k] == rt[k - 1]);
            assert(forall|k: int| 1 <= k < r.len() ==> bs[0].tick < #[trigger] r[k].tick) by {
                assert(forall|m: int|
                    0 <= m < rt.len() ==> tail.contains(#[trigger] rt[m]) && bumps_sorted(bs));
                assert(forall|m: int|
                    0 <= m < tail.len() ==> bs[0].tick < #[trigger] tail[m].tick);
                assert(forall|m: int| 0 <= m < rt.len() ==> exists|j: int|
                    0 <= j < tail.len() && #[trigger] rt[m] == tail[j]);
            }
        }
    }
}

/// Bump order: one fold step keeps the bump sequence strictly sorted by
/// tick.
pub proof fn lemma_step_sorted(p: PoolModel, u: PoolUpdateEvent)
    requires
        bumps_sorted(p.bumps),
    ensures
        spec_handle_update(p, u) matches Some(q) ==> bumps_sorted(q.bumps),
{
    if u.is_liq {
        let s = spec_handle_liq(p, u);
        if s is Some && spec_mag(u.base_flow) >= 1000 && spec_mag(u.quote_flow) >= 1000
            && u.flows_at_market && u.is_tick_skewed {
            let bid = u.bid_tick->0;
            let ask = u.ask_tick->0;
            let l = spec_flow_liq(u.base_flow, u.quote_flow) as int;
            let dd: int = if u.is_burn {
                -l
            } else {
                l
            };
            let ko_bid = u.is_knockout && u.is_bid;
            let ko_ask = u.is_knockout && !u.is_bid;
            let wval: int = if u.is_burn {
                0
            } else {
                ask - bid
            };
            let w: i32 = wval as i32;
            let r1 = spec_apply_bump_change(
                p.bumps,
                bid,
                dd,
                if ko_bid {
                    dd
                } else {
                    0
                },
                0,
                if ko_bid {
                    Some(w)
                } else {
                    None
                },
                None,
            );
            lemma_apply_bump_sorted(
                p.bumps,
                bid,
                dd,
                if ko_bid {
                    dd
                } else {
                    0
                },
                0,
                if ko_bid {
                    Some(w)
                } else {
                    None
                },
                None,
            );
            if r1 is Some {
                let r2 = spec_apply_bump_change(
                    r1->0,
                    ask,
                    -dd,
                    0,
                    if ko_ask {
                        -dd
                    } else {
                        0
                    },
                    None,
                    if ko_ask {
                        Some(w)
                    } else {
                        None
                    },
                );
                lemma_apply_bump_sorted(
                    r1->0,
                    ask,
                    -dd,
                    0,
                    if ko_ask {
                        -dd
                    } else {
                        0
                    },
                    None,
                    if ko_ask {
                        Some(w)
                    } else {
                        None
                    },
                );
                if r2 is Some {
                    lemma_remove_collapsed_sorted(r2->0, bid);
                    lemma_remove_collapsed_sorted(spec_remove_collapsed(r2->0, bid), ask);
                }
            }
        }
    }
}

/// Bump order across any folded sequence of updates.
pub proof fn lemma_fold_sorted(p: PoolModel, us: Seq<PoolUpdateEvent>)
    requires
        bumps_sorted(p.bumps),
    ensures
        spec_fold_updates(p, us) matches Some(q) ==> bumps_sorted(q.bumps),
    decreases us.len(),
{
    if us.len() > 0 {
        match spec_handle_update(p, us[0]) {
            Some(q) => {
                lemma_step_sorted(p, us[0]);
                lemma_fold_sorted(q, us.drop_first());
            },
            None => {},
        }
    }
}

/// TVL conservation under a paired ambient mint and burn: an ambient mint
/// followed by the equal-magnitude ambient burn restores both TVLs, leaves
/// ambient liquidity untouched and creates no bumps.
#[verifier::rlimit(100)]
#[verifier::spinoff_prover]
pub proof fn lemma_ambient_mint_burn(p: PoolModel, m: MintAmbientEvent, b: BurnAmbientEvent)
    requires
        b.base_flow + m.base_flow == 0,
        b.quote_flow + m.quote_flow == 0,
        spec_handle_update(p, spec_update_from_mint_ambient(m)) is Some,
    ensures
        spec_fold_updates(
            p,
            seq![spec_update_from_mint_ambient(m), spec_update_from_burn_ambient(b)],
        ) matches Some(r) && r.base_tvl == p.base_tvl && r.quote_tvl == p.quote_tvl
            && r.ambient_liq == p.ambient_liq && r.bumps == p.bumps,
{
    let u1 = spec_update_from_mint_ambient(m);
    let u2 = spec_update_from_burn_ambient(b);
    let us = seq![u1, u2];
    let q = spec_handle_update(p, u1)->0;
    lemma_add_signed_value(p.base_tvl, m.base_flow as int);
    lemma_add_signed_value(p.quote_tvl, m.quote_flow as int);
    lemma_add_signed_value(q.base_tvl, b.base_flow as int);
    lemma_add_signed_value(q.quote_tvl, b.quote_flow as int);
    assert(q.base_tvl.as_nat() == p.base_tvl.as_nat() + m.base_flow);
    assert(q.quote_tvl.as_nat() == p.quote_tvl.as_nat() + m.quote_flow);
    assert(q.ambient_liq == p.ambient_liq && q.bumps == p.bumps);
    let r = spec_handle_update(q, u2);
    assert(r is Some);
    let rv = r->0;
    assert(rv.ambient_liq == q.ambient_liq && rv.bumps == q.bumps);
    assert(rv.base_tvl.as_nat() == p.base_tvl.as_nat());
    assert(rv.quote_tvl.as_nat() == p.quote_tvl.as_nat());
    assert(rv.base_tvl == p.base_tvl) by {
        lemma_u256_of_value(p.base_tvl.as_nat());
        lemma_u256_of_as_nat(p.base_tvl);
        lemma_u256_of_as_nat(rv.base_tvl);
    }
    assert(rv.quote_tvl == p.quote_tvl) by {
        lemma_u256_of_as_nat(p.quote_tvl);
        lemma_u256_of_as_nat(rv.quote_tvl);
    }
    assert(us.drop_first() =~= seq![u2]);
    assert(seq![u2].drop_first() =~= Seq::<PoolUpdateEvent>::empty());
    assert(us[0] == u1);
    assert(spec_handle_update(p, us[0]) == Some(q));
    assert(spec_fold_updates(p, us) == spec_fold_updates(q, us.drop_first()));
    assert(spec_fold_updates(q, seq![u2]) == spec_fold_updates(
        rv,
        seq![u2].drop_first(),
    ));
    assert(spec_fold_updates(rv, Seq::<PoolUpdateEvent>::empty()) == Some(rv));
    assert(spec_fold_updates(p, us) == Some(rv));
}

/// Ranged mint and burn symmetry, from a pool whose curve holds no bumps:
/// a ranged mint at `[bid, ask]` creates exactly two bumps carrying the
/// flow liquidity with opposite signs, and the equal-magnitude burn at the
/// same range removes both again.
pub proof fn lemma_ranged_mint_burn(p: PoolModel, m: MintRangedEvent, b: BurnRangedEvent)
    requires
        p.bumps =~= Seq::<LiquidityBump>::empty(),
        m.bid_tick < m.ask_tick,
        spec_mag(m.base_flow) >= 1000,
        spec_mag(m.quote_flow) >= 1000,
        b.base_flow + m.base_flow == 0,
        b.quote_flow + m.quote_flow == 0,
        b.bid_tick == m.bid_tick,
        b.ask_tick == m.ask_tick,
        spec_handle_update(p, spec_update_from_mint_ranged(m)) is Some,
    ensures
        ({
            let l = spec_flow_liq(m.base_flow, m.quote_flow) as int;
            let q = spec_handle_update(p, spec_update_from_mint_ranged(m))->0;
            &&& q.bumps.len() == 2
            &&& q.bumps[0].tick == m.bid_tick
            &&& q.bumps[0].liquidity_delta == l
            &&& q.bumps[1].tick == m.ask_tick
            &&& q.bumps[1].liquidity_delta == -l
            &&& l > 0
            &&& spec_handle_update(q, spec_update_from_burn_ranged(b)) matches Some(r)
                && r.bumps =~= Seq::<LiquidityBump>::empty()
        }),
{
    let u1 = spec_update_from_mint_ranged(m);
    let u2 = spec_update_from_burn_ranged(b);
    let lnat = spec_flow_liq(m.base_flow, m.quote_flow);
    let l = lnat as int;
    assert(spec_mag(b.base_flow) == spec_mag(m.base_flow));
    assert(spec_mag(b.quote_flow) == spec_mag(m.quote_flow));
    assert(spec_flow_liq(b.base_flow, b.quote_flow) == lnat);
    assert(l > 0) by {
        lemma_isqrt_exists(spec_mag(m.base_flow) * spec_mag(m.quote_flow));
        assert(spec_mag(m.base_flow) * spec_mag(m.quote_flow) >= 1000 * 1000)
            by (nonlinear_arith)
            requires
                spec_mag(m.base_flow) >= 1000,
                spec_mag(m.quote_flow) >= 1000,
        ;
        if lnat == 0 {
            assert(spec_mag(m.base_flow) * spec_mag(m.quote_flow) < 1);
        }
    }
    // the mint: two fresh bumps in tick order
    let s1 = spec_handle_liq(p, u1);
    assert(s1 is Some);
    assert(spec_conc_bumps(p.bumps, u1) is Some);
    assert(!(l > i128::MAX));
    let q = s1->0;
    let bid = m.bid_tick;
    let ask = m.ask_tick;
    let b_bid = spec_change_bump(spec_bump_at(bid), l, 0, 0, None, None)->0;
    let r1 = spec_apply_bump_change(p.bumps, bid, l, 0, 0, None, None);
    assert(r1 == Some(seq![b_bid])) by {
        reveal_with_fuel(spec_apply_bump_change, 3);
    }
    let b_ask = spec_change_bump(spec_bump_at(ask), -l, 0, 0, None, None)->0;
    let r2 = spec_apply_bump_change(seq![b_bid], ask, -l, 0, 0, None, None);
    assert(seq![b_bid].drop_first() =~= Seq::<LiquidityBump>::empty());
    assert(r2 == Some(seq![b_bid] + seq![b_ask])) by {
        reveal_with_fuel(spec_apply_bump_change, 3);
    }
    let two = seq![b_bid] + seq![b_ask];
    assert(two.len() == 2 && two[0] == b_bid && two[1] == b_ask);
    assert(!spec_collapsed(b_bid) && !spec_collapsed(b_ask));
    assert(spec_remove_collapsed(two, bid) =~= two) by {
        reveal_with_fuel(spec_remove_collapsed, 4);
        assert(two.drop_first() =~= seq![b_ask]);
        assert(seq![b_ask].drop_first() =~= Seq::<LiquidityBump>::empty());
    }
    assert(spec_remove_collapsed(two, ask) =~= two) by {
        reveal_with_fuel(spec_remove_collapsed, 4);
        assert(two.drop_first() =~= seq![b_ask]);
        assert(seq![b_ask].drop_first() =~= Seq::<LiquidityBump>::empty());
    }
    assert(spec_conc_bumps(p.bumps, u1) == Some(two));
    assert(q.bumps == two);
    // the burn: both bumps collapse and are removed
    let s2 = spec_handle_liq(q, u2);
    lemma_add_signed_value(p.base_tvl, m.base_flow as int);
    lemma_add_signed_value(p.quote_tvl, m.quote_flow as int);
    lemma_add_signed_value(q.base_tvl, b.base_flow as int);
    lemma_add_signed_value(q.quote_tvl, b.quote_flow as int);
    let bb2 = spec_change_bump(b_bid, -l, 0, 0, None, None)->0;
    let r3 = spec_apply_bump_change(two, bid, -l, 0, 0, None, None);
    assert(two[0] == b_bid && b_bid.tick == bid);
    assert(r3 == Some(seq![bb2] + two.drop_first())) by {
        reveal_with_fuel(spec_apply_bump_change, 3);
    }
    assert(two.drop_first() =~= seq![b_ask]);
    let mid = seq![bb2] + seq![b_ask];
    assert(r3->0 =~= mid);
    let ba2 = spec_change_bump(b_ask, l, 0, 0, None, None)->0;
    assert(mid[0].tick == bid && bid < ask);
    assert(mid.drop_first() =~= seq![b_ask]);
    let r4 = spec_apply_bump_change(mid, ask, l, 0, 0, None, None);
    assert(spec_apply_bump_change(seq![b_ask], ask, l, 0, 0, None, None) == Some(
        seq![ba2] + seq![b_ask].drop_first(),
    )) by {
        reveal_with_fuel(spec_apply_bump_change, 3);
    }
    assert(seq![b_ask].drop_first() =~= Seq::<LiquidityBump>::empty());
    assert(seq![ba2] + seq![b_ask].drop_first() =~= seq![ba2]);
    assert(r4 == Some(seq![mid[0]] + (seq![ba2] + seq![b_ask].drop_first()))) by {
        reveal_with_fuel(spec_apply_bump_change, 3);
    }
    let fin = seq![mid[0]] + (seq![ba2] + seq![b_ask].drop_first());
    assert(fin =~= seq![bb2] + seq![ba2]);
    assert(spec_collapsed(bb2) && spec_collapsed(ba2));
    assert(bb2.tick == bid && ba2.tick == ask);
    let after_bid = spec_remove_collapsed(fin, bid);
    assert(after_bid =~= seq![ba2]) by {
        reveal_with_fuel(spec_remove_collapsed, 4);
        assert(fin.drop_first() =~= seq![ba2]);
        assert(seq![ba2].drop_first() =~= Seq::<LiquidityBump>::empty());
        assert(seq![ba2] + Seq::<LiquidityBump>::empty() =~= seq![ba2]);
    }
    let after_ask = spec_remove_collapsed(after_bid, ask);
    assert(after_ask =~= Seq::<LiquidityBump>::empty()) by {
        reveal_with_fuel(spec_remove_collapsed, 4);
        assert(seq![ba2].drop_first() =~= Seq::<LiquidityBump>::empty());
    }
    assert(spec_conc_bumps(q.bumps, u2) == Some(after_ask));
    assert(s2 is Some);
    assert(s2->0.bumps =~= Seq::<LiquidityBump>::empty());
}

} // verus!
