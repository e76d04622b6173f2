//! The uniform shape that every pool-changing observation is folded through.
//!
//! Each event record converts into a `PoolUpdateEvent` carrying signed token
//! flows, liquidity deltas, the tick range and the tags that steer the
//! reducer.  Each conversion is specified exactly by a spec function.

use vstd::prelude::*;
use crate::address::Address;
use crate::events::BurnAmbientEvent;
use crate::events::BurnKnockoutEvent;
use crate::events::BurnRangedEvent;
use crate::events::HarvestEvent;
use crate::events::InitPoolEvent;
use crate::events::MintAmbientEvent;
use crate::events::MintKnockoutEvent;
use crate::events::MintRangedEvent;
use crate::events::PoolRevisionEvent;
use crate::events::SwapEvent;
use crate::events::WithdrawKnockoutEvent;
use crate::u256::abs_i128;
use crate::u256::spec_isqrt;
use crate::u256::u256_zero;
use crate::u256::SignedAmount;
use crate::u256::U256;
use crate::address::address_zero;

verus! {

/// How a recorded pool price arose.  The numeric value is a pure function
/// of the fields; whoever serves it as a floating-point number evaluates
/// it outside the library.
#[derive(Clone, Copy, Debug, PartialEq, Eq, Structural, Hash)]
pub enum PriceTag {
    /// The price one, used when the quote side is zero.
    Unit,
    /// `sqrt(base / quote)` of the initial reserves.
    RootOfReserves { base: u128, quote: u128 },
    /// `|base / quote|` of the flows of a swap or an ambient change.
    RatioOfFlows { base_mag: u128, quote_mag: u128 },
    /// The square of the in-range root of the concentrated-flow quadratic
    /// with `a = |quote| * p_ask`, `b = |base| - |quote| * p_bid * p_ask`,
    /// `c = -|base| * p_ask`, where `p_t = sqrt(1.0001^t)`.
    ConcFlowRoot { base_flow: i128, quote_flow: i128, bid_tick: i32, ask_tick: i32 },
}

/// How a liquidity reading of an update arose.  An exact amount is
/// carried as is; a knockout's stake is a function of its flows and tick
/// range whose numeric value, like a `PriceTag`, is evaluated outside the
/// library.
#[derive(Clone, Copy, Debug, PartialEq, Eq, Structural, Hash)]
pub enum LiquidityTag {
    /// An exact signed amount.
    Exact(SignedAmount),
    /// The knockout-mint derivation: with `p_t = sqrt(1.0001^t)`, the
    /// stake is `|base| * (p_ask - p_bid)` when the quote flow is zero,
    /// `|quote| / (1/p_bid - 1/p_ask)` when the base flow is zero, and
    /// otherwise `|base| / (s - p_bid)` with `s` the in-range root of the
    /// concentrated-flow quadratic, or zero when that is undefined.
    ConcFromFlows { base_flow: i128, quote_flow: i128, bid_tick: i32, ask_tick: i32 },
    /// The flow liquidity `sqrt(|base * quote|)` of a knockout burn.
    RootOfFlowProduct { base_flow: i128, quote_flow: i128 },
}

/// The magnitudes of a signed flow pair.
pub open spec fn spec_mag(v: i128) -> nat {
    if v >= 0 {
        v as nat
    } else {
        (-(v as int)) as nat
    }
}

/// The liquidity reading of a flow pair: `sqrt(|base| * |quote|)`.
pub open spec fn spec_flow_liq(base_flow: i128, quote_flow: i128) -> nat {
    spec_isqrt(spec_mag(base_flow) * spec_mag(quote_flow))
}

/// A well-formed update: a tick-skewed change carries both ticks.
pub open spec fn spec_update_wf(u: PoolUpdateEvent) -> bool {
    u.is_tick_skewed ==> u.bid_tick is Some && u.ask_tick is Some
}

/// One pool-changing observation in uniform shape.
#[verifier::ext_equal]
#[derive(Clone, Copy, Debug)]
pub struct PoolUpdateEvent {
    pub block: U256,
    pub index: U256,
    pub base: Address,
    pub quote: Address,
    pub pool_idx: U256,
    pub base_flow: i128,
    pub quote_flow: i128,
    pub ambient_liq: SignedAmount,
    pub conc_liq: LiquidityTag,
    pub fee_rate_millionths: u64,
    pub bid_tick: Option<i32>,
    pub ask_tick: Option<i32>,
    pub is_swap: bool,
    pub is_liq: bool,
    pub is_mint: bool,
    pub is_burn: bool,
    pub is_knockout: bool,
    pub is_bid: bool,
    pub is_harvest: bool,
    pub is_buy: bool,
    pub in_base_qty: bool,
    /// True when a liquidity change has distinct bid and ask ticks and is
    /// not a harvest.
    pub is_tick_skewed: bool,
    /// True for mints, burns, harvests and swaps.
    pub flows_at_market: bool,
}

/// The all-zero update that each conversion starts from.
pub open spec fn spec_update_base() -> PoolUpdateEvent {
    PoolUpdateEvent {
        block: u256_zero(),
        index: u256_zero(),
        base: address_zero(),
        quote: address_zero(),
        pool_idx: u256_zero(),
        base_flow: 0,
        quote_flow: 0,
        ambient_liq: SignedAmount { negative: false, magnitude: 0 },
        conc_liq: LiquidityTag::Exact(SignedAmount { negative: false, magnitude: 0 }),
        fee_rate_millionths: 0,
        bid_tick: None,
        ask_tick: None,
        is_swap: false,
        is_liq: false,
        is_mint: false,
        is_burn: false,
        is_knockout: false,
        is_bid: false,
        is_harvest: false,
        is_buy: false,
        in_base_qty: false,
        is_tick_skewed: false,
        flows_at_market: false,
    }
}

/// What an InitPool record turns into: flows and ambient liquidity, tagged
/// as a liquidity change that is not at market.
pub open spec fn spec_update_from_init_pool(e: InitPoolEvent) -> PoolUpdateEvent {
    PoolUpdateEvent {
        block: e.block_height,
        base: e.base,
        quote: e.quote,
        pool_idx: e.pool_idx,
        base_flow: e.base_flow,
        quote_flow: e.quote_flow,
        ambient_liq: SignedAmount { negative: false, magnitude: e.liq },
        is_liq: true,
        ..spec_update_base()
    }
}

/// What a PoolRevision record turns into: only the fee rate, in millionths.
pub open spec fn spec_update_from_pool_revision(e: PoolRevisionEvent) -> PoolUpdateEvent {
    PoolUpdateEvent {
        block: e.block_height,
        index: e.index,
        base: e.base,
        quote: e.quote,
        pool_idx: e.pool_idx,
        fee_rate_millionths: e.fee_rate as u64,
        ..spec_update_base()
    }
}

/// What a MintRanged record turns into.
pub open spec fn spec_update_from_mint_ranged(e: MintRangedEvent) -> PoolUpdateEvent {
    PoolUpdateEvent {
        block: e.block_height,
        index: e.index,
        base: e.base,
        quote: e.quote,
        pool_idx: e.pool_idx,
        base_flow: e.base_flow,
        quote_flow: e.quote_flow,
        conc_liq: LiquidityTag::Exact(SignedAmount { negative: false, magnitude: e.liq }),
        bid_tick: Some(e.bid_tick),
        ask_tick: Some(e.ask_tick),
        is_liq: true,
        is_mint: true,
        is_tick_skewed: e.bid_tick != e.ask_tick,
        flows_at_market: true,
        ..spec_update_base()
    }
}

/// What a BurnRanged record turns into.
pub open spec fn spec_update_from_burn_ranged(e: BurnRangedEvent) -> PoolUpdateEvent {
    PoolUpdateEvent {
        block: e.block_height,
        index: e.index,
        base: e.base,
        quote: e.quote,
        pool_idx: e.pool_idx,
        base_flow: e.base_flow,
        quote_flow: e.quote_flow,
        conc_liq: LiquidityTag::Exact(SignedAmount { negative: true, magnitude: e.liq }),
        ambient_liq: SignedAmount { negative: true, magnitude: e.rewards },
        bid_tick: Some(e.bid_tick),
        ask_tick: Some(e.ask_tick),
        is_liq: true,
        is_burn: true,
        is_tick_skewed: e.bid_tick != e.ask_tick,
        flows_at_market: true,
        ..spec_update_base()
    }
}

/// What a Harvest record turns into.  It is not tagged `is_liq`, so the
/// reducer treats it as a parameter revision, as the stored fee rate of
/// zero then shows.
pub open spec fn spec_update_from_harvest(e: HarvestEvent) -> PoolUpdateEvent {
    PoolUpdateEvent {
        block: e.block_height,
        index: e.index,
        base: e.base,
        quote: e.quote,
        pool_idx: e.pool_idx,
        base_flow: e.base_flow,
        quote_flow: e.quote_flow,
        ambient_liq: SignedAmount { negative: true, magnitude: e.rewards },
        bid_tick: Some(e.bid_tick),
        ask_tick: Some(e.ask_tick),
        is_harvest: true,
        flows_at_market: true,
        ..spec_update_base()
    }
}

/// What a MintAmbient record turns into.
pub open spec fn spec_update_from_mint_ambient(e: MintAmbientEvent) -> PoolUpdateEvent {
    PoolUpdateEvent {
        block: e.block_height,
        index: e.index,
        base: e.base,
        quote: e.quote,
        pool_idx: e.pool_idx,
        base_flow: e.base_flow,
        quote_flow: e.quote_flow,
        ambient_liq: SignedAmount { negative: false, magnitude: e.liq },
        is_liq: true,
        is_mint: true,
        flows_at_market: true,
        ..spec_update_base()
    }
}

/// What a BurnAmbient record turns into.
pub open spec fn spec_update_from_burn_ambient(e: BurnAmbientEvent) -> PoolUpdateEvent {
    PoolUpdateEvent {
        block: e.block_height,
        index: e.index,
        base: e.base,
        quote: e.quote,
        pool_idx: e.pool_idx,
        base_flow: e.base_flow,
        quote_flow: e.quote_flow,
        ambient_liq: SignedAmount { negative: true, magnitude: e.liq },
        is_liq: true,
        is_burn: true,
        flows_at_market: true,
        ..spec_update_base()
    }
}

/// What a Swap record turns into.
pub open spec fn spec_update_from_swap(e: SwapEvent) -> PoolUpdateEvent {
    PoolUpdateEvent {
        block: e.block_height,
        index: e.index,
        base: e.base,
        quote: e.quote,
        pool_idx: e.pool_idx,
        base_flow: e.base_flow,
        quote_flow: e.quote_flow,
        is_buy: e.is_buy,
        in_base_qty: e.in_base_qty,
        is_swap: true,
        flows_at_market: true,
        ..spec_update_base()
    }
}

/// What a MintKnockout record turns into.  Its concentrated liquidity is
/// recorded as the flow liquidity `sqrt(|base| * |quote|)`.
pub open spec fn spec_update_from_mint_knockout(e: MintKnockoutEvent) -> PoolUpdateEvent {
    PoolUpdateEvent {
        block: e.block_height,
        base: e.base,
        quote: e.quote,
        pool_idx: e.pool_idx,
        base_flow: e.base_flow,
        quote_flow: e.quote_flow,
        conc_liq: LiquidityTag::ConcFromFlows {
            base_flow: e.base_flow,
            quote_flow: e.quote_flow,
            bid_tick: e.lower_tick,
            ask_tick: e.upper_tick,
        },
        bid_tick: Some(e.lower_tick),
        ask_tick: Some(e.upper_tick),
        is_mint: true,
        is_knockout: true,
        is_bid: e.is_bid,
        is_liq: true,
        is_tick_skewed: e.lower_tick != e.upper_tick,
        flows_at_market: true,
        ..spec_update_base()
    }
}

/// What a BurnKnockout record turns into.
pub open spec fn spec_update_from_burn_knockout(e: BurnKnockoutEvent) -> PoolUpdateEvent {
    PoolUpdateEvent {
        block: e.block_height,
        base: e.base,
        quote: e.quote,
        pool_idx: e.pool_idx,
        base_flow: e.base_flow,
        quote_flow: e.quote_flow,
        conc_liq: LiquidityTag::RootOfFlowProduct {
            base_flow: e.base_flow,
            quote_flow: e.quote_flow,
        },
        bid_tick: Some(e.lower_tick),
        ask_tick: Some(e.upper_tick),
        is_knockout: true,
        is_bid: e.is_bid,
        is_liq: true,
        is_burn: true,
        is_tick_skewed: e.lower_tick != e.upper_tick,
        flows_at_market: true,
        ..spec_update_base()
    }
}

/// What a WithdrawKnockout record turns into.  A withdrawal after a
/// knockout is not at market: the principal left the curve when the pivot
/// was crossed.  Only claimed fee rewards touch ambient liquidity.
pub open spec fn spec_update_from_withdraw_knockout(e: WithdrawKnockoutEvent) -> PoolUpdateEvent {
    PoolUpdateEvent {
        block: e.block_height,
        base: e.base,
        quote: e.quote,
        pool_idx: e.pool_idx,
        base_flow: e.base_flow,
        quote_flow: e.quote_flow,
        ambient_liq: SignedAmount {
            negative: true,
            magnitude: spec_isqrt(e.fee_rewards as nat) as u128,
        },
        bid_tick: Some(e.lower_tick),
        ask_tick: Some(e.upper_tick),
        is_knockout: true,
        is_liq: true,
        is_tick_skewed: e.lower_tick != e.upper_tick,
        ..spec_update_base()
    }
}

impl PoolUpdateEvent {
    /// The all-zero update.
    pub fn empty() -> (r: PoolUpdateEvent)
        ensures
            r == spec_update_base(),
    {
        PoolUpdateEvent {
            block: U256::zero(),
            index: U256::zero(),
            base: Address::zero(),
            quote: Address::zero(),
            pool_idx: U256::zero(),
            base_flow: 0,
            quote_flow: 0,
            ambient_liq: SignedAmount::zero(),
            conc_liq: LiquidityTag::Exact(SignedAmount { negative: false, magnitude: 0 }),
            fee_rate_millionths: 0,
            bid_tick: None,
            ask_tick: None,
            is_swap: false,
            is_liq: false,
            is_mint: false,
            is_burn: false,
            is_knockout: false,
            is_bid: false,
            is_harvest: false,
            is_buy: false,
            in_base_qty: false,
            is_tick_skewed: false,
            flows_at_market: false,
        }
    }

    /// The flow liquidity `sqrt(|base| * |quote|)` of a flow pair.
    pub fn flow_liq(base_flow: i128, quote_flow: i128) -> (r: u128)
        ensures
            r == spec_flow_liq(base_flow, quote_flow),
    {
        let bm = abs_i128(base_flow);
        let qm = abs_i128(quote_flow);
        let prod = crate::u256::U256::mul_u128(bm, qm);
        let r = prod.isqrt();
        proof {
            crate::u256::lemma_isqrt_unique(prod.as_nat(), r as nat);
        }
        r
    }

    pub fn from_init_pool(e: &InitPoolEvent) -> (r: PoolUpdateEvent)
        ensures
            r == spec_update_from_init_pool(*e),
    {
        let mut u = PoolUpdateEvent::empty();
        u.block = e.block_height;
        u.base = e.base;
        u.quote = e.quote;
        u.pool_idx = e.pool_idx;
        u.base_flow = e.base_flow;
        u.quote_flow = e.quote_flow;
        u.ambient_liq = SignedAmount::positive(e.liq);
        u.is_liq = true;
        proof {
            assert(u =~= spec_update_from_init_pool(*e));
        }
        u
    }

    pub fn from_pool_revision(e: &PoolRevisionEvent) -> (r: PoolUpdateEvent)
        ensures
            r == spec_update_from_pool_revision(*e),
    {
        let mut u = PoolUpdateEvent::empty();
        u.block = e.block_height;
        u.index = e.index;
        u.base = e.base;
        u.quote = e.quote;
        u.pool_idx = e.pool_idx;
        u.fee_rate_millionths = e.fee_rate as u64;
        proof {
            assert(u =~= spec_update_from_pool_revision(*e));
        }
        u
    }

    pub fn from_mint_ranged(e: &MintRangedEvent) -> (r: PoolUpdateEvent)
        ensures
            r == spec_update_from_mint_ranged(*e),
    {
        let mut u = PoolUpdateEvent::empty();
        u.block = e.block_height;
        u.index = e.index;
        u.base = e.base;
        u.quote = e.quote;
        u.pool_idx = e.pool_idx;
        u.base_flow = e.base_flow;
        u.quote_flow = e.quote_flow;
        u.conc_liq = LiquidityTag::Exact(SignedAmount { negative: false, magnitude: e.liq });
        u.bid_tick = Some(e.bid_tick);
        u.ask_tick = Some(e.ask_tick);
        u.is_liq = true;
        u.is_mint = true;
        u.is_tick_skewed = e.bid_tick != e.ask_tick;
        u.flows_at_market = true;
        proof {
            assert(u =~= spec_update_from_mint_ranged(*e));
        }
        u
    }

    pub fn from_burn_ranged(e: &BurnRangedEvent) -> (r: PoolUpdateEvent)
        ensures
            r == spec_update_from_burn_ranged(*e),
    {
        let mut u = PoolUpdateEvent::empty();
        u.block = e.block_height;
        u.index = e.index;
        u.base = e.base;
        u.quote = e.quote;
        u.pool_idx = e.pool_idx;
        u.base_flow = e.base_flow;
        u.quote_flow = e.quote_flow;
        u.conc_liq = LiquidityTag::Exact(SignedAmount { negative: true, magnitude: e.liq });
        u.ambient_liq = SignedAmount::negated(e.rewards);
        u.bid_tick = Some(e.bid_tick);
        u.ask_tick = Some(e.ask_tick);
        u.is_liq = true;
        u.is_burn = true;
        u.is_tick_skewed = e.bid_tick != e.ask_tick;
        u.flows_at_market = true;
        proof {
            assert(u =~= spec_update_from_burn_ranged(*e));
        }
        u
    }

    pub fn from_harvest(e: &HarvestEvent) -> (r: PoolUpdateEvent)
        ensures
            r == spec_update_from_harvest(*e),
    {
        let mut u = PoolUpdateEvent::empty();
        u.block = e.block_height;
        u.index = e.index;
        u.base = e.base;
        u.quote = e.quote;
        u.pool_idx = e.pool_idx;
        u.base_flow = e.base_flow;
        u.quote_flow = e.quote_flow;
        u.ambient_liq = SignedAmount::negated(e.rewards);
        u.bid_tick = Some(e.bid_tick);
        u.ask_tick = Some(e.ask_tick);
        u.is_harvest = true;
        u.flows_at_market = true;
        proof {
            assert(u =~= spec_update_from_harvest(*e));
        }
        u
    }

    pub fn from_mint_ambient(e: &MintAmbientEvent) -> (r: PoolUpdateEvent)
        ensures
            r == spec_update_from_mint_ambient(*e),
    {
        let mut u = PoolUpdateEvent::empty();
        u.block = e.block_height;
        u.index = e.index;
        u.base = e.base;
        u.quote = e.quote;
        u.pool_idx = e.pool_idx;
        u.base_flow = e.base_flow;
        u.quote_flow = e.quote_flow;
        u.ambient_liq = SignedAmount::positive(e.liq);
        u.is_liq = true;
        u.is_mint = true;
        u.flows_at_market = true;
        proof {
            assert(u =~= spec_update_from_mint_ambient(*e));
        }
        u
    }

    pub fn from_burn_ambient(e: &BurnAmbientEvent) -> (r: PoolUpdateEvent)
        ensures
            r == spec_update_from_burn_ambient(*e),
    {
        let mut u = PoolUpdateEvent::empty();
        u.block = e.block_height;
        u.index = e.index;
        u.base = e.base;
        u.quote = e.quote;
        u.pool_idx = e.pool_idx;
        u.base_flow = e.base_flow;
        u.quote_flow = e.quote_flow;
        u.ambient_liq = SignedAmount::negated(e.liq);
        u.is_liq = true;
        u.is_burn = true;
        u.flows_at_market = true;
        proof {
            assert(u =~= spec_update_from_burn_ambient(*e));
        }
        u
    }

    pub fn from_swap(e: &SwapEvent) -> (r: PoolUpdateEvent)
        ensures
            r == spec_update_from_swap(*e),
    {
        let mut u = PoolUpdateEvent::empty();
        u.block = e.block_height;
        u.index = e.index;
        u.base = e.base;
        u.quote = e.quote;
        u.pool_idx = e.pool_idx;
        u.base_flow = e.base_flow;
        u.quote_flow = e.quote_flow;
        u.is_buy = e.is_buy;
        u.in_base_qty = e.in_base_qty;
        u.is_swap = true;
        u.flows_at_market = true;
        proof {
            assert(u =~= spec_update_from_swap(*e));
        }
        u
    }

    pub fn from_mint_knockout(e: &MintKnockoutEvent) -> (r: PoolUpdateEvent)
        ensures
            r == spec_update_from_mint_knockout(*e),
    {
        let mut u = PoolUpdateEvent::empty();
        u.block = e.block_height;
        u.base = e.base;
        u.quote = e.quote;
        u.pool_idx = e.pool_idx;
        u.base_flow = e.base_flow;
        u.quote_flow = e.quote_flow;
        u.conc_liq = LiquidityTag::ConcFromFlows {
            base_flow: e.base_flow,
            quote_flow: e.quote_flow,
            bid_tick: e.lower_tick,
            ask_tick: e.upper_tick,
        };
        u.bid_tick = Some(e.lower_tick);
        u.ask_tick = Some(e.upper_tick);
        u.is_mint = true;
        u.is_knockout = true;
        u.is_bid = e.is_bid;
        u.is_liq = true;
        u.is_tick_skewed = e.lower_tick != e.upper_tick;
        u.flows_at_market = true;
        proof {
            assert(u =~= spec_update_from_mint_knockout(*e));
        }
        u
    }

    pub fn from_burn_knockout(e: &BurnKnockoutEvent) -> (r: PoolUpdateEvent)
        ensures
            r == spec_update_from_burn_knockout(*e),
    {
        let mut u = PoolUpdateEvent::empty();
        u.block = e.block_height;
        u.base = e.base;
        u.quote = e.quote;
        u.pool_idx = e.pool_idx;
        u.base_flow = e.base_flow;
        u.quote_flow = e.quote_flow;
        u.conc_liq = LiquidityTag::RootOfFlowProduct {
            base_flow: e.base_flow,
            quote_flow: e.quote_flow,
        };
        u.bid_tick = Some(e.lower_tick);
        u.ask_tick = Some(e.upper_tick);
        u.is_knockout = true;
        u.is_bid = e.is_bid;
        u.is_liq = true;
        u.is_burn = true;
        u.is_tick_skewed = e.lower_tick != e.upper_tick;
        u.flows_at_market = true;
        proof {
            assert(u =~= spec_update_from_burn_knockout(*e));
        }
        u
    }

    pub fn from_withdraw_knockout(e: &WithdrawKnockoutEvent) -> (r: PoolUpdateEvent)
        ensures
            r == spec_update_from_withdraw_knockout(*e),
    {
        let mut u = PoolUpdateEvent::empty();
        u.block = e.block_height;
        u.base = e.base;
        u.quote = e.quote;
        u.pool_idx = e.pool_idx;
        u.base_flow = e.base_flow;
        u.quote_flow = e.quote_flow;
        let fr = U256::from_u128(e.fee_rewards);
        let root = fr.isqrt();
        proof {
            crate::u256::lemma_isqrt_unique(fr.as_nat(), root as nat);
        }
        u.ambient_liq = SignedAmount::negated(root);
        u.bid_tick = Some(e.lower_tick);
        u.ask_tick = Some(e.upper_tick);
        u.is_knockout = true;
        u.is_liq = true;
        u.is_tick_skewed = e.lower_tick != e.upper_tick;
        proof {
            assert(u =~= spec_update_from_withdraw_knockout(*e));
        }
        u
    }
}

} // verus!
