//! The pool state machine: folding ordered pool updates into derived state.
//!
//! `TrackedPool` is a projection of the stored event log.  The reducer is a
//! pure function from a pool state and one update to the next state; every
//! handler is specified exactly by a spec function, and a fold step that
//! would leave the representable range reports an error instead of
//! wrapping.

use vstd::prelude::*;
use crate::address::address_zero;
use crate::address::Address;
use crate::events::IndexerError;
use crate::u256::lemma_u256_of_as_nat;
use crate::u256::spec_u256_of;
use crate::u256::u256_zero;
use crate::u256::SignedAmount;
use crate::u256::U256;
use crate::updates::spec_flow_liq;
use crate::updates::spec_mag;
use crate::updates::PoolUpdateEvent;
use crate::updates::PriceTag;

verus! {

/// A pool template: the parameter bundle selected by `pool_idx`.
#[derive(Clone, Copy, Debug, PartialEq, Eq, Structural, Hash)]
pub struct Pool {
    pub schema: u8,
    pub fee_rate: u16,
    pub protocol_take: u8,
    pub tick_size: u16,
    pub jit_thresh: u8,
    pub knockout_bits: u8,
    pub oracle_flags: u8,
}

/// A per-tick record of signed liquidity change, with the knockout
/// bookkeeping for positions protected on one side.
#[derive(Clone, Copy, Debug, PartialEq, Eq, PartialOrd, Ord, Structural, Hash)]
pub struct LiquidityBump {
    pub tick: i32,
    pub last_block: U256,
    pub liquidity_delta: i128,
    pub knockout_bid_liq: i128,
    pub knockout_ask_liq: i128,
    pub knockout_bid_width: i32,
    pub knockout_ask_width: i32,
}

/// The fresh bump at a tick, before any liquidity is recorded on it.
pub open spec fn spec_bump_at(tick: i32) -> LiquidityBump {
    LiquidityBump {
        tick,
        last_block: u256_zero(),
        liquidity_delta: 0,
        knockout_bid_liq: 0,
        knockout_ask_liq: 0,
        knockout_bid_width: 0,
        knockout_ask_width: 0,
    }
}

/// A bump whose three liquidity fields have collapsed to zero is removed.
pub open spec fn spec_collapsed(b: LiquidityBump) -> bool {
    b.liquidity_delta == 0 && b.knockout_bid_liq == 0 && b.knockout_ask_liq == 0
}

/// Bumps are kept strictly sorted by tick.
pub open spec fn bumps_sorted(bs: Seq<LiquidityBump>) -> bool {
    forall|i: int, j: int| 0 <= i < j < bs.len() ==> #[trigger] bs[i].tick < #[trigger] bs[j].tick
}

/// The per-pool dirty flag and the last folded block.
#[derive(Clone, Copy, Debug, PartialEq, Eq, Structural, Hash)]
pub struct DirtyPoolTracker {
    pub dirty: bool,
    pub last_block: U256,
    pub base: Address,
    pub quote: Address,
    pub pool_idx: U256,
}

/// The derived state of one pool.  Fee totals and the fee rate are kept in
/// millionths, so that the arithmetic of the fold is exact.
#[verifier::ext_equal]
#[derive(Clone, Debug)]
pub struct TrackedPool {
    pub base: Address,
    pub quote: Address,
    pub pool_idx: U256,
    pub base_tvl: U256,
    pub quote_tvl: U256,
    pub base_volume: U256,
    pub quote_volume: U256,
    pub base_fees_millionths: U256,
    pub quote_fees_millionths: U256,
    pub last_price_swap: PriceTag,
    pub last_price_liq: PriceTag,
    pub last_price_indic: PriceTag,
    pub ambient_liq: U256,
    pub bumps: Vec<LiquidityBump>,
    pub conc_liq: U256,
    pub fee_rate_millionths: u64,
}

/// The mathematical reading of a tracked pool: the same fields with the
/// bump vector read as a sequence.
pub struct PoolModel {
    pub base: Address,
    pub quote: Address,
    pub pool_idx: U256,
    pub base_tvl: U256,
    pub quote_tvl: U256,
    pub base_volume: U256,
    pub quote_volume: U256,
    pub base_fees_millionths: U256,
    pub quote_fees_millionths: U256,
    pub last_price_swap: PriceTag,
    pub last_price_liq: PriceTag,
    pub last_price_indic: PriceTag,
    pub ambient_liq: U256,
    pub bumps: Seq<LiquidityBump>,
    pub conc_liq: U256,
    pub fee_rate_millionths: u64,
}

impl View for TrackedPool {
    type V = PoolModel;

    open spec fn view(&self) -> PoolModel {
        PoolModel {
            base: self.base,
            quote: self.quote,
            pool_idx: self.pool_idx,
            base_tvl: self.base_tvl,
            quote_tvl: self.quote_tvl,
            base_volume: self.base_volume,
            quote_volume: self.quote_volume,
            base_fees_millionths: self.base_fees_millionths,
            quote_fees_millionths: self.quote_fees_millionths,
            last_price_swap: self.last_price_swap,
            last_price_liq: self.last_price_liq,
            last_price_indic: self.last_price_indic,
            ambient_liq: self.ambient_liq,
            bumps: self.bumps@,
            conc_liq: self.conc_liq,
            fee_rate_millionths: self.fee_rate_millionths,
        }
    }
}

/// The all-zero pool state.
pub open spec fn spec_pool_default() -> PoolModel {
    PoolModel {
        base: address_zero(),
        quote: address_zero(),
        pool_idx: u256_zero(),
        base_tvl: u256_zero(),
        quote_tvl: u256_zero(),
        base_volume: u256_zero(),
        quote_volume: u256_zero(),
        base_fees_millionths: u256_zero(),
        quote_fees_millionths: u256_zero(),
        last_price_swap: PriceTag::Unit,
        last_price_liq: PriceTag::Unit,
        last_price_indic: PriceTag::Unit,
        ambient_liq: u256_zero(),
        bumps: Seq::empty(),
        conc_liq: u256_zero(),
        fee_rate_millionths: 0,
    }
}

impl Default for TrackedPool {
    /// The all-zero pool state, with the unit price on every price slot.
    fn default() -> (r: TrackedPool)
        ensures
            r@ == spec_pool_default(),
    {
        TrackedPool {
            base: Address::zero(),
            quote: Address::zero(),
            pool_idx: U256::zero(),
            base_tvl: U256::zero(),
            quote_tvl: U256::zero(),
            base_volume: U256::zero(),
            quote_volume: U256::zero(),
            base_fees_millionths: U256::zero(),
            quote_fees_millionths: U256::zero(),
            last_price_swap: PriceTag::Unit,
            last_price_liq: PriceTag::Unit,
            last_price_indic: PriceTag::Unit,
            ambient_liq: U256::zero(),
            bumps: Vec::new(),
            conc_liq: U256::zero(),
            fee_rate_millionths: 0,
        }
    }
}

/// Applying a signed delta to a total, `None` when the result would leave
/// `[0, 2^256)`.
pub open spec fn spec_add_signed(a: U256, d: int) -> Option<U256> {
    if 0 <= a.as_nat() + d && a.as_nat() + d
        < 0x10000000000000000000000000000000000000000000000000000000000000000 {
        Some(spec_u256_of((a.as_nat() + d) as nat))
    } else {
        None
    }
}

/// Adding an unsigned amount to a total, `None` past 2^256.
pub open spec fn spec_add_amount(a: U256, d: nat) -> Option<U256> {
    spec_add_signed(a, d as int)
}

/// Applies a signed delta to a total.
pub fn add_signed_u256(a: &U256, d: SignedAmount) -> (r: Option<U256>)
    ensures
        r == spec_add_signed(*a, d.as_int()),
        r matches Some(s) ==> s.as_nat() == a.as_nat() + d.as_int(),
{
    let r = a.add_signed(d);
    proof {
        if r is Some {
            lemma_u256_of_as_nat(r->0);
        }
    }
    r
}

/// Adds one total into another.
pub fn add_u256(a: &U256, d: &U256) -> (r: Option<U256>)
    ensures
        r == spec_add_amount(*a, d.as_nat()),
        r matches Some(s) ==> s.as_nat() == a.as_nat() + d.as_nat(),
{
    let r = a.checked_add(d);
    proof {
        if r is Some {
            lemma_u256_of_as_nat(r->0);
        }
    }
    r
}

/// `checked_add` on two liquidity magnitudes.
fn i128_add(a: i128, b: i128) -> (r: Option<i128>)
    ensures
        i128::MIN <= a + b <= i128::MAX ==> r == Some((a + b) as i128),
        !(i128::MIN <= a + b <= i128::MAX) ==> r is None,
{
    a.checked_add(b)
}

/// One bump after a liquidity change, `None` when a field leaves `i128`.
pub open spec fn spec_change_bump(
    b: LiquidityBump,
    dd: int,
    dkb: int,
    dka: int,
    sbw: Option<i32>,
    saw: Option<i32>,
) -> Option<LiquidityBump> {
    let nd = b.liquidity_delta + dd;
    let nkb = b.knockout_bid_liq + dkb;
    let nka = b.knockout_ask_liq + dka;
    if i128::MIN <= nd <= i128::MAX && i128::MIN <= nkb <= i128::MAX && i128::MIN <= nka
        <= i128::MAX {
        Some(
            LiquidityBump {
                liquidity_delta: nd as i128,
                knockout_bid_liq: nkb as i128,
                knockout_ask_liq: nka as i128,
                knockout_bid_width: if sbw is Some {
                    sbw->0
                } else {
                    b.knockout_bid_width
                },
                knockout_ask_width: if saw is Some {
                    saw->0
                } else {
                    b.knockout_ask_width
                },
                ..b
            },
        )
    } else {
        None
    }
}

/// The bump sequence after a change at `tick`: the bump there is created
/// in tick order if absent, then adjusted.
pub open spec fn spec_apply_bump_change(
    bs: Seq<LiquidityBump>,
    tick: i32,
    dd: int,
    dkb: int,
    dka: int,
    sbw: Option<i32>,
    saw: Option<i32>,
) -> Option<Seq<LiquidityBump>>
    decreases bs.len(),
{
    if bs.len() == 0 {
        match spec_change_bump(spec_bump_at(tick), dd, dkb, dka, sbw, saw) {
            Some(b) => Some(seq![b]),
            None => None,
        }
    } else if bs[0].tick == tick {
        match spec_change_bump(bs[0], dd, dkb, dka, sbw, saw) {
            Some(b) => Some(seq![b] + bs.drop_first()),
            None => None,
        }
    } else if tick < bs[0].tick {
        match spec_change_bump(spec_bump_at(tick), dd, dkb, dka, sbw, saw) {
            Some(b) => Some(seq![b] + bs),
            None => None,
        }
    } else {
        match spec_apply_bump_change(bs.drop_first(), tick, dd, dkb, dka, sbw, saw) {
            Some(t) => Some(seq![bs[0]] + t),
            None => None,
        }
    }
}

/// The bump sequence with every collapsed bump at `tick` dropped.
pub open spec fn spec_remove_collapsed(bs: Seq<LiquidityBump>, tick: i32) -> Seq<LiquidityBump>
    decreases bs.len(),
{
    if bs.len() == 0 {
        Seq::empty()
    } else {
        let rest = spec_remove_collapsed(bs.drop_first(), tick);
        if bs[0].tick == tick && spec_collapsed(bs[0]) {
            rest
        } else {
            seq![bs[0]] + rest
        }
    }
}

/// Walking a prefix whose ticks all sit below the target leaves it intact.
proof fn lemma_apply_bump_prefix(
    bs: Seq<LiquidityBump>,
    i: int,
    tick: i32,
    dd: int,
    dkb: int,
    dka: int,
    sbw: Option<i32>,
    saw: Option<i32>,
)
    requires
        0 <= i <= bs.len(),
        forall|j: int| 0 <= j < i ==> #[trigger] bs[j].tick < tick,
    ensures
        spec_apply_bump_change(bs, tick, dd, dkb, dka, sbw, saw) == match spec_apply_bump_change(
            bs.skip(i),
            tick,
            dd,
            dkb,
            dka,
            sbw,
            saw,
        ) {
            Some(t) => Some(bs.take(i) + t),
            None => None,
        },
    decreases i,
{
    if i == 0 {
        assert(bs.skip(0) =~= bs);
        let r = spec_apply_bump_change(bs, tick, dd, dkb, dka, sbw, saw);
        if r is Some {
            assert(bs.take(0) + r->0 =~= r->0);
        }
    } else {
        assert(bs[0].tick < tick);
        let tail = bs.drop_first();
        assert(bs.skip(i) =~= tail.skip(i - 1));
        assert(forall|j: int| 0 <= j < i - 1 ==> #[trigger] tail[j].tick < tick);
        lemma_apply_bump_prefix(tail, i - 1, tick, dd, dkb, dka, sbw, saw);
        let rt = spec_apply_bump_change(tail, tick, dd, dkb, dka, sbw, saw);
        if rt is Some {
            assert(bs.take(i) =~= seq![bs[0]] + tail.take(i - 1));
            assert(seq![bs[0]] + (tail.take(i - 1) + spec_apply_bump_change(
                bs.skip(i),
                tick,
                dd,
                dkb,
                dka,
                sbw,
                saw,
            )->0) =~= (seq![bs[0]] + tail.take(i - 1)) + spec_apply_bump_change(
                bs.skip(i),
                tick,
                dd,
                dkb,
                dka,
                sbw,
                saw,
            )->0);
        }
    }
}

/// Removal distributes over splitting the sequence.
proof fn lemma_remove_collapsed_append(a: Seq<LiquidityBump>, b: Seq<LiquidityBump>, tick: i32)
    ensures
        spec_remove_collapsed(a + b, tick) == spec_remove_collapsed(a, tick)
            + spec_remove_collapsed(b, tick),
    decreases a.len(),
{
    if a.len() == 0 {
        assert(a + b =~= b);
        assert(spec_remove_collapsed(a, tick) + spec_remove_collapsed(b, tick)
            =~= spec_remove_collapsed(b, tick));
    } else {
        lemma_remove_collapsed_append(a.drop_first(), b, tick);
        assert((a + b).drop_first() =~= a.drop_first() + b);
        assert((a + b)[0] == a[0]);
        if a[0].tick == tick && spec_collapsed(a[0]) {
        } else {
            assert(seq![a[0]] + (spec_remove_collapsed(a.drop_first(), tick)
                + spec_remove_collapsed(b, tick)) =~= (seq![a[0]] + spec_remove_collapsed(
                a.drop_first(),
                tick,
            )) + spec_remove_collapsed(b, tick));
        }
    }
}

/// Applies one liquidity change to the bump at `tick`, creating the bump
/// in tick order when it is absent.
pub fn apply_bump_change(
    bumps: &Vec<LiquidityBump>,
    tick: i32,
    dd: i128,
    dkb: i128,
    dka: i128,
    sbw: Option<i32>,
    saw: Option<i32>,
) -> (r: Result<Vec<LiquidityBump>, IndexerError>)
    ensures
        r is Ok <==> spec_apply_bump_change(bumps@, tick, dd as int, dkb as int, dka as int, sbw, saw) is Some,
        r matches Ok(v) ==> Some(v@) == spec_apply_bump_change(
            bumps@,
            tick,
            dd as int,
            dkb as int,
            dka as int,
            sbw,
            saw,
        ),
        r matches Err(e) ==> e is Overflow,
{
    let ghost gspec = spec_apply_bump_change(bumps@, tick, dd as int, dkb as int, dka as int, sbw, saw);
    let mut res: Vec<LiquidityBump> = Vec::new();
    let mut i: usize = 0;
    while i < bumps.len() && bumps[i].tick < tick
        invariant
            0 <= i <= bumps@.len(),
            res@ == bumps@.take(i as int),
            forall|j: int| 0 <= j < i ==> #[trigger] bumps@[j].tick < tick,
        decreases bumps@.len() - i,
    {
        res.push(bumps[i]);
        proof {
            assert(res@ =~= bumps@.take(i + 1));
        }
        i += 1;
    }
    proof {
        lemma_apply_bump_prefix(bumps@, i as int, tick, dd as int, dkb as int, dka as int, sbw, saw);
    }
    let src: LiquidityBump = if i < bumps.len() && bumps[i].tick == tick {
        bumps[i]
    } else {
        LiquidityBump {
            tick,
            last_block: U256::zero(),
            liquidity_delta: 0,
            knockout_bid_liq: 0,
            knockout_ask_liq: 0,
            knockout_bid_width: 0,
            knockout_ask_width: 0,
        }
    };
    let nd = match i128_add(src.liquidity_delta, dd) {
        Some(v) => v,
        None => {
            return Err(IndexerError::Overflow);
        },
    };
    let nkb = match i128_add(src.knockout_bid_liq, dkb) {
        Some(v) => v,
        None => {
            return Err(IndexerError::Overflow);
        },
    };
    let nka = match i128_add(src.knockout_ask_liq, dka) {
        Some(v) => v,
        None => {
            return Err(IndexerError::Overflow);
        },
    };
    let changed = LiquidityBump {
        liquidity_delta: nd,
        knockout_bid_liq: nkb,
        knockout_ask_liq: nka,
        knockout_bid_width: match sbw {
            Some(w) => w,
            None => src.knockout_bid_width,
        },
        knockout_ask_width: match saw {
            Some(w) => w,
            None => src.knockout_ask_width,
        },
        ..src
    };
    proof {
        assert(Some(changed) == spec_change_bump(src, dd as int, dkb as int, dka as int, sbw, saw));
    }
    res.push(changed);
    let mut k: usize = if i < bumps.len() && bumps[i].tick == tick {
        i + 1
    } else {
        i
    };
    let ghost start = k as int;
    while k < bumps.len()
        invariant
            0 <= i as int <= start <= k <= bumps@.len(),
            res@ == bumps@.take(i as int) + seq![changed] + bumps@.subrange(start, k as int),
        decreases bumps@.len() - k,
    {
        let ghost prev = res@;
        res.push(bumps[k]);
        proof {
            assert(bumps@.subrange(start, k + 1) =~= bumps@.subrange(start, k as int) + seq![
                bumps@[k as int],
            ]);
            assert(res@ =~= prev.push(bumps@[k as int]));
            assert(res@ =~= bumps@.take(i as int) + seq![changed] + bumps@.subrange(
                start,
                k + 1,
            ));
        }
        k += 1;
    }
    proof {
        let tail = bumps@.skip(i as int);
        if i < bumps@.len() && bumps@[i as int].tick == tick {
            assert(tail[0] == bumps@[i as int]);
            assert(seq![changed] + tail.drop_first() =~= seq![changed] + bumps@.subrange(
                i + 1,
                bumps@.len() as int,
            ));
            assert(res@ =~= bumps@.take(i as int) + (seq![changed] + tail.drop_first()));
        } else if i < bumps@.len() {
            assert(tick < tail[0].tick);
            assert(seq![changed] + tail =~= seq![changed] + bumps@.subrange(
                i as int,
                bumps@.len() as int,
            ));
            assert(res@ =~= bumps@.take(i as int) + (seq![changed] + tail));
        } else {
            assert(tail.len() == 0);
            assert(res@ =~= bumps@.take(i as int) + seq![changed]);
        }
    }
    Ok(res)
}

/// Drops the bump at `tick` when its liquidity has collapsed to zero.
pub fn remove_collapsed(bumps: &Vec<LiquidityBump>, tick: i32) -> (r: Vec<LiquidityBump>)
    ensures
        r@ == spec_remove_collapsed(bumps@, tick),
{
    let mut res: Vec<LiquidityBump> = Vec::new();
    let mut i: usize = 0;
    while i < bumps.len()
        invariant
            0 <= i <= bumps@.len(),
            res@ == spec_remove_collapsed(bumps@.take(i as int), tick),
        decreases bumps@.len() - i,
    {
        let b = bumps[i];
        let keep = !(b.tick == tick && b.liquidity_delta == 0 && b.knockout_bid_liq == 0
            && b.knockout_ask_liq == 0);
        if keep {
            res.push(b);
        }
        proof {
            reveal_with_fuel(spec_remove_collapsed, 3);
            let pre = bumps@.take(i as int);
            let post = bumps@.take(i + 1);
            assert(post =~= pre + seq![b]);
            lemma_remove_collapsed_append(pre, seq![b], tick);
            assert(seq![b].drop_first() =~= Seq::<LiquidityBump>::empty());
            if b.tick == tick && spec_collapsed(b) {
                assert(spec_remove_collapsed(seq![b], tick) =~= Seq::<LiquidityBump>::empty());
                assert(pre.take(0) + res@ =~= res@);
            } else {
                assert(spec_remove_collapsed(seq![b], tick) =~= seq![b]);
            }
            assert(res@ =~= spec_remove_collapsed(post, tick));
        }
        i += 1;
    }
    proof {
        assert(bumps@.take(bumps@.len() as int) =~= bumps@);
    }
    res
}

impl TrackedPool {
    /// The bump at a tick, if the curve holds one.
    pub fn get_bump(&self, tick: i32) -> (r: Option<&LiquidityBump>)
        ensures
            r matches Some(b) ==> self.bumps@.contains(*b) && b.tick == tick,
            r is None ==> forall|j: int|
                0 <= j < self.bumps@.len() ==> (#[trigger] self.bumps@[j]).tick != tick,
    {
        let mut i: usize = 0;
        while i < self.bumps.len()
            invariant
                0 <= i <= self.bumps@.len(),
                forall|j: int| 0 <= j < i ==> (#[trigger] self.bumps@[j]).tick != tick,
            decreases self.bumps@.len() - i,
        {
            if self.bumps[i].tick == tick {
                return Some(&self.bumps[i]);
            }
            i += 1;
        }
        None
    }

    /// A copy with the same reading.
    pub fn snapshot(&self) -> (r: TrackedPool)
        ensures
            r@ == self@,
    {
        let mut bumps: Vec<LiquidityBump> = Vec::new();
        let mut i: usize = 0;
        while i < self.bumps.len()
            invariant
                0 <= i <= self.bumps@.len(),
                bumps@ == self.bumps@.take(i as int),
            decreases self.bumps@.len() - i,
        {
            bumps.push(self.bumps[i]);
            proof {
                assert(bumps@ =~= self.bumps@.take(i + 1));
            }
            i += 1;
        }
        proof {
            assert(self.bumps@.take(self.bumps@.len() as int) =~= self.bumps@);
        }
        let r = TrackedPool {
            base: self.base,
            quote: self.quote,
            pool_idx: self.pool_idx,
            base_tvl: self.base_tvl,
            quote_tvl: self.quote_tvl,
            base_volume: self.base_volume,
            quote_volume: self.quote_volume,
            base_fees_millionths: self.base_fees_millionths,
            quote_fees_millionths: self.quote_fees_millionths,
            last_price_swap: self.last_price_swap,
            last_price_liq: self.last_price_liq,
            last_price_indic: self.last_price_indic,
            ambient_liq: self.ambient_liq,
            bumps,
            conc_liq: self.conc_liq,
            fee_rate_millionths: self.fee_rate_millionths,
        };
        proof {
            assert(r@ =~= self@);
        }
        r
    }
}

/// The bump bookkeeping of one concentrated liquidity change: a mint adds
/// the flow liquidity at the bid tick and subtracts it at the ask tick,
/// a burn reverses that, knockout changes record their protected side and
/// width, and a bump whose liquidity collapses to zero is dropped.
pub open spec fn spec_conc_bumps(bs: Seq<LiquidityBump>, u: PoolUpdateEvent) -> Option<
    Seq<LiquidityBump>,
> {
    let bid = u.bid_tick->0;
    let ask = u.ask_tick->0;
    let l = spec_flow_liq(u.base_flow, u.quote_flow) as int;
    let dd: int = if u.is_burn {
        -l
    } else {
        l
    };
    let ko_bid = u.is_knockout && u.is_bid;
    let ko_ask = u.is_knockout && !u.is_bid;
    let wval: int = if u.is_burn {
        0
    } else {
        ask - bid
    };
    if l > i128::MAX {
        None
    } else if (ko_bid || ko_ask) && !(i32::MIN <= wval <= i32::MAX) {
        None
    } else {
        let w: i32 = wval as i32;
        let r1 = spec_apply_bump_change(
            bs,
            bid,
            dd,
            if ko_bid {
                dd
            } else {
                0
            },
            0,
            if ko_bid {
                Some(w)
            } else {
                None
            },
            None,
        );
        if r1 is None {
            None
        } else {
            let r2 = spec_apply_bump_change(
                r1->0,
                ask,
                -dd,
                0,
                if ko_ask {
                    -dd
                } else {
                    0
                },
                None,
                if ko_ask {
                    Some(w)
                } else {
                    None
                },
            );
            if r2 is None {
                None
            } else {
                Some(spec_remove_collapsed(spec_remove_collapsed(r2->0, bid), ask))
            }
        }
    }
}

/// What one liquidity-changing update does to a pool: the flows join the
/// TVLs; when both flows are numerically stable and at market the latest
/// liquidity price is recorded, and a tick-skewed change maintains the
/// liquidity bumps.
pub open spec fn spec_handle_liq(p: PoolModel, u: PoolUpdateEvent) -> Option<PoolModel> {
    let bt = spec_add_signed(p.base_tvl, u.base_flow as int);
    let qt = spec_add_signed(p.quote_tvl, u.quote_flow as int);
    if bt is None || qt is None {
        None
    } else {
        let p1 = PoolModel { base_tvl: bt->0, quote_tvl: qt->0, ..p };
        let bm = spec_mag(u.base_flow);
        let qm = spec_mag(u.quote_flow);
        if bm < 1000 || qm < 1000 {
            Some(p1)
        } else if !u.flows_at_market {
            Some(p1)
        } else if u.is_tick_skewed {
            let price = PriceTag::ConcFlowRoot {
                base_flow: u.base_flow,
                quote_flow: u.quote_flow,
                bid_tick: u.bid_tick->0,
                ask_tick: u.ask_tick->0,
            };
            let p2 = PoolModel { last_price_liq: price, last_price_indic: price, ..p1 };
            match spec_conc_bumps(p2.bumps, u) {
                Some(bs) => Some(PoolModel { bumps: bs, ..p2 }),
                None => None,
            }
        } else {
            let price = if u.quote_flow == 0 {
                PriceTag::Unit
            } else {
                PriceTag::RatioOfFlows { base_mag: bm as u128, quote_mag: qm as u128 }
            };
            Some(PoolModel { last_price_liq: price, last_price_indic: price, ..p1 })
        }
    }
}

/// What one swap does to a pool: flows join the TVLs, magnitudes join the
/// volumes, the fee accrues on the unspecified side, and a dual-stable
/// swap records the latest swap price.
pub open spec fn spec_handle_swap(p: PoolModel, u: PoolUpdateEvent) -> Option<PoolModel> {
    let bm = spec_mag(u.base_flow);
    let qm = spec_mag(u.quote_flow);
    let bt = spec_add_signed(p.base_tvl, u.base_flow as int);
    let qt = spec_add_signed(p.quote_tvl, u.quote_flow as int);
    let bv = spec_add_amount(p.base_volume, bm);
    let qv = spec_add_amount(p.quote_volume, qm);
    let fee_side = if u.in_base_qty {
        spec_add_amount(p.quote_fees_millionths, (qm * p.fee_rate_millionths) as nat)
    } else {
        spec_add_amount(p.base_fees_millionths, (bm * p.fee_rate_millionths) as nat)
    };
    let stable = bm >= 1000 && qm >= 1000;
    let price = PriceTag::RatioOfFlows { base_mag: bm as u128, quote_mag: qm as u128 };
    if bt is None || qt is None || bv is None || qv is None || fee_side is None {
        None
    } else {
        Some(
            PoolModel {
                base_tvl: bt->0,
                quote_tvl: qt->0,
                base_volume: bv->0,
                quote_volume: qv->0,
                base_fees_millionths: if u.in_base_qty {
                    p.base_fees_millionths
                } else {
                    fee_side->0
                },
                quote_fees_millionths: if u.in_base_qty {
                    fee_side->0
                } else {
                    p.quote_fees_millionths
                },
                last_price_swap: if stable {
                    price
                } else {
                    p.last_price_swap
                },
                last_price_indic: if stable {
                    price
                } else {
                    p.last_price_indic
                },
                ..p
            },
        )
    }
}

/// A revision only overwrites the fee rate.
pub open spec fn spec_handle_revision(p: PoolModel, u: PoolUpdateEvent) -> PoolModel {
    PoolModel { fee_rate_millionths: u.fee_rate_millionths, ..p }
}

/// Routing one update to its handler.
pub open spec fn spec_handle_update(p: PoolModel, u: PoolUpdateEvent) -> Option<PoolModel> {
    if u.is_liq {
        spec_handle_liq(p, u)
    } else if u.is_swap {
        spec_handle_swap(p, u)
    } else {
        Some(spec_handle_revision(p, u))
    }
}

/// The pool state a pool initialization produces.
pub open spec fn spec_handle_init_pool(t: Pool, u: PoolUpdateEvent) -> PoolModel {
    PoolModel {
        base: u.base,
        quote: u.quote,
        pool_idx: u.pool_idx,
        base_tvl: spec_u256_of(spec_mag(u.base_flow)),
        quote_tvl: spec_u256_of(spec_mag(u.quote_flow)),
        base_volume: u256_zero(),
        quote_volume: u256_zero(),
        base_fees_millionths: u256_zero(),
        quote_fees_millionths: u256_zero(),
        last_price_swap: spec_init_price(u),
        last_price_liq: spec_init_price(u),
        last_price_indic: spec_init_price(u),
        ambient_liq: spec_u256_of(u.ambient_liq.magnitude as nat),
        bumps: Seq::empty(),
        conc_liq: u256_zero(),
        fee_rate_millionths: (t.fee_rate * 1000000) as u64,
    }
}

/// The initial price: `sqrt(base / quote)` of the reserves, or one when
/// the quote side is empty.
pub open spec fn spec_init_price(u: PoolUpdateEvent) -> PriceTag {
    if u.quote_flow == 0 {
        PriceTag::Unit
    } else {
        PriceTag::RootOfReserves {
            base: spec_mag(u.base_flow) as u128,
            quote: spec_mag(u.quote_flow) as u128,
        }
    }
}

/// Folding a sequence of updates from a starting state.
pub open spec fn spec_fold_updates(p: PoolModel, us: Seq<PoolUpdateEvent>) -> Option<PoolModel>
    decreases us.len(),
{
    if us.len() == 0 {
        Some(p)
    } else {
        match spec_handle_update(p, us[0]) {
            Some(q) => spec_fold_updates(q, us.drop_first()),
            None => None,
        }
    }
}

/// Applies one liquidity-changing update.
pub fn handle_liq(pool: TrackedPool, update: &PoolUpdateEvent) -> (r: Result<
    TrackedPool,
    IndexerError,
>)
    requires
        crate::updates::spec_update_wf(*update),
    ensures
        r is Ok <==> spec_handle_liq(pool@, *update) is Some,
        r matches Ok(p) ==> Some(p@) == spec_handle_liq(pool@, *update),
        r matches Ok(p) ==> p.base == pool.base && p.quote == pool.quote && p.pool_idx
            == pool.pool_idx,
        r matches Err(e) ==> e is Overflow,
{
    let ghost p0 = pool@;
    let bt = match add_signed_u256(&pool.base_tvl, SignedAmount::from_i128(update.base_flow)) {
        Some(v) => v,
        None => {
            return Err(IndexerError::Overflow);
        },
    };
    let qt = match add_signed_u256(&pool.quote_tvl, SignedAmount::from_i128(update.quote_flow)) {
        Some(v) => v,
        None => {
            return Err(IndexerError::Overflow);
        },
    };
    let mut p = pool;
    p.base_tvl = bt;
    p.quote_tvl = qt;
    proof {
        assert(p@ =~= PoolModel { base_tvl: bt, quote_tvl: qt, ..p0 });
    }
    let bm = crate::u256::abs_i128(update.base_flow);
    let qm = crate::u256::abs_i128(update.quote_flow);
    if bm < 1000 || qm < 1000 {
        return Ok(p);
    }
    if !update.flows_at_market {
        return Ok(p);
    }
    if update.is_tick_skewed {
        let bid: i32 = match update.bid_tick {
            Some(t) => t,
            None => {
                proof {
                    assert(false);
                }
                return Err(IndexerError::Overflow);
            },
        };
        let ask: i32 = match update.ask_tick {
            Some(t) => t,
            None => {
                proof {
                    assert(false);
                }
                return Err(IndexerError::Overflow);
            },
        };
        let price = PriceTag::ConcFlowRoot {
            base_flow: update.base_flow,
            quote_flow: update.quote_flow,
            bid_tick: bid,
            ask_tick: ask,
        };
        p.last_price_liq = price;
        p.last_price_indic = price;
        let ghost p2 = p@;
        proof {
            assert(p2 =~= PoolModel {
                last_price_liq: price,
                last_price_indic: price,
                ..PoolModel { base_tvl: bt, quote_tvl: qt, ..p0 }
            });
            assert(p2.bumps == p0.bumps);
        }
        let l_wide = PoolUpdateEvent::flow_liq(update.base_flow, update.quote_flow);
        if l_wide > 0x7fffffffffffffffffffffffffffffff {
            return Err(IndexerError::Overflow);
        }
        let l = l_wide as i128;
        let sgn_l: i128 = if update.is_burn {
            -l
        } else {
            l
        };
        let ko_bid = update.is_knockout && update.is_bid;
        let ko_ask = update.is_knockout && !update.is_bid;
        let wval: i64 = if update.is_burn {
            0
        } else {
            ask as i64 - bid as i64
        };
        if (ko_bid || ko_ask) && (wval > 0x7fffffff || wval < -0x80000000) {
            return Err(IndexerError::Overflow);
        }
        let w: i32 = if wval > 0x7fffffff || wval < -0x80000000 {
            0
        } else {
            wval as i32
        };
        let bs1 = match apply_bump_change(
            &p.bumps,
            bid,
            sgn_l,
            if ko_bid {
                sgn_l
            } else {
                0
            },
            0,
            if ko_bid {
                Some(w)
            } else {
                None
            },
            None,
        ) {
            Ok(v) => v,
            Err(e) => {
                proof {
                    assert(spec_conc_bumps(p2.bumps, *update) is None);
                }
                return Err(e);
            },
        };
        let bs2 = match apply_bump_change(
            &bs1,
            ask,
            -sgn_l,
            0,
            if ko_ask {
                -sgn_l
            } else {
                0
            },
            None,
            if ko_ask {
                Some(w)
            } else {
                None
            },
        ) {
            Ok(v) => v,
            Err(e) => {
                proof {
                    assert(spec_conc_bumps(p2.bumps, *update) is None);
                }
                return Err(e);
            },
        };
        let bs3 = remove_collapsed(&bs2, bid);
        let bs4 = remove_collapsed(&bs3, ask);
        p.bumps = bs4;
        proof {
            assert(p@ =~= PoolModel { bumps: bs4@, ..p2 });
            assert(Some(spec_remove_collapsed(spec_remove_collapsed(bs2@, bid), ask))
                == spec_conc_bumps(p2.bumps, *update));
            assert(Some(p@) == spec_handle_liq(p0, *update));
        }
        Ok(p)
    } else {
        let price = if update.quote_flow == 0 {
            PriceTag::Unit
        } else {
            PriceTag::RatioOfFlows { base_mag: bm, quote_mag: qm }
        };
        p.last_price_liq = price;
        p.last_price_indic = price;
        Ok(p)
    }
}

/// Applies one swap.
#[verifier::rlimit(100)]
#[verifier::spinoff_prover]
#[verifier::loop_isolation(false)]
pub fn handle_swap(pool: TrackedPool, update: &PoolUpdateEvent) -> (r: Result<
    TrackedPool,
    IndexerError,
>)
    ensures
        r is Ok <==> spec_handle_swap(pool@, *update) is Some,
        r matches Ok(p) ==> Some(p@) == spec_handle_swap(pool@, *update),
        r matches Ok(p) ==> p.base == pool.base && p.quote == pool.quote && p.pool_idx
            == pool.pool_idx,
        r matches Err(e) ==> e is Overflow,
        r matches Ok(p) ==> p.base_volume.as_nat() >= pool.base_volume.as_nat()
            && p.quote_volume.as_nat() >= pool.quote_volume.as_nat(),
{
    let ghost p0 = pool@;
    let bm = crate::u256::abs_i128(update.base_flow);
    let qm = crate::u256::abs_i128(update.quote_flow);
    let bt = match add_signed_u256(&pool.base_tvl, SignedAmount::from_i128(update.base_flow)) {
        Some(v) => v,
        None => {
            return Err(IndexerError::Overflow);
        },
    };
    let qt = match add_signed_u256(&pool.quote_tvl, SignedAmount::from_i128(update.quote_flow)) {
        Some(v) => v,
        None => {
            return Err(IndexerError::Overflow);
        },
    };
    let bv = match add_u256(&pool.base_volume, &U256::from_u128(bm)) {
        Some(v) => v,
        None => {
            return Err(IndexerError::Overflow);
        },
    };
    let qv = match add_u256(&pool.quote_volume, &U256::from_u128(qm)) {
        Some(v) => v,
        None => {
            return Err(IndexerError::Overflow);
        },
    };
    let mut p = pool;
    p.base_tvl = bt;
    p.quote_tvl = qt;
    p.base_volume = bv;
    p.quote_volume = qv;
    if update.in_base_qty {
        let fee = U256::mul_u128(qm, p.fee_rate_millionths as u128);
        let nf = match add_u256(&p.quote_fees_millionths, &fee) {
            Some(v) => v,
            None => {
                return Err(IndexerError::Overflow);
            },
        };
        p.quote_fees_millionths = nf;
    } else {
        let fee = U256::mul_u128(bm, p.fee_rate_millionths as u128);
        let nf = match add_u256(&p.base_fees_millionths, &fee) {
            Some(v) => v,
            None => {
                return Err(IndexerError::Overflow);
            },
        };
        p.base_fees_millionths = nf;
    }
    if bm >= 1000 && qm >= 1000 {
        let price = PriceTag::RatioOfFlows { base_mag: bm, quote_mag: qm };
        p.last_price_swap = price;
        p.last_price_indic = price;
    }
    proof {
        crate::u256::lemma_u256_of_as_nat(pool.base_volume);
        crate::u256::lemma_u256_of_as_nat(pool.quote_volume);
        let s = spec_handle_swap(p0, *update);
        assert(s is Some);
        assert(p@ =~= s->0);
    }
    Ok(p)
}

/// Applies a parameter revision.
pub fn handle_revision(pool: TrackedPool, update: &PoolUpdateEvent) -> (r: TrackedPool)
    ensures
        r@ == spec_handle_revision(pool@, *update),
        r.base == pool.base && r.quote == pool.quote && r.pool_idx == pool.pool_idx,
{
    let mut p = pool;
    p.fee_rate_millionths = update.fee_rate_millionths;
    p
}

/// Routes one update to its handler.
pub fn handle_update(pool: TrackedPool, update: &PoolUpdateEvent) -> (r: Result<
    TrackedPool,
    IndexerError,
>)
    requires
        crate::updates::spec_update_wf(*update),
    ensures
        r is Ok <==> spec_handle_update(pool@, *update) is Some,
        r matches Ok(p) ==> Some(p@) == spec_handle_update(pool@, *update),
        r matches Ok(p) ==> p.base == pool.base && p.quote == pool.quote && p.pool_idx
            == pool.pool_idx,
        r matches Err(e) ==> e is Overflow,
{
    if update.is_liq {
        handle_liq(pool, update)
    } else if update.is_swap {
        handle_swap(pool, update)
    } else {
        Ok(handle_revision(pool, update))
    }
}

/// Builds the initial pool state from an InitPool update and its template.
///
/// A negative initialization flow or liquidity would be an invariant
/// violation, so those inputs are excluded here and checked by callers.
pub fn handle_init_pool(template: &Pool, update: &PoolUpdateEvent) -> (r: TrackedPool)
    requires
        update.base_flow >= 0,
        update.quote_flow >= 0,
        !update.ambient_liq.negative,
    ensures
        r@ == spec_handle_init_pool(*template, *update),
{
    let price = if update.quote_flow == 0 {
        PriceTag::Unit
    } else {
        PriceTag::RootOfReserves {
            base: crate::u256::abs_i128(update.base_flow),
            quote: crate::u256::abs_i128(update.quote_flow),
        }
    };
    let r = TrackedPool {
        base: update.base,
        quote: update.quote,
        pool_idx: update.pool_idx,
        base_tvl: U256::from_u128(crate::u256::abs_i128(update.base_flow)),
        quote_tvl: U256::from_u128(crate::u256::abs_i128(update.quote_flow)),
        base_volume: U256::zero(),
        quote_volume: U256::zero(),
        base_fees_millionths: U256::zero(),
        quote_fees_millionths: U256::zero(),
        last_price_swap: price,
        last_price_liq: price,
        last_price_indic: price,
        ambient_liq: U256::from_u128(update.ambient_liq.magnitude),
        bumps: Vec::new(),
        conc_liq: U256::zero(),
        fee_rate_millionths: (template.fee_rate as u64) * 1000000,
    };
    proof {
        lemma_u256_of_as_nat(r.base_tvl);
        lemma_u256_of_as_nat(r.quote_tvl);
        lemma_u256_of_as_nat(r.ambient_liq);
        assert(r@ =~= spec_handle_init_pool(*template, *update));
    }
    r
}

/// Folds a batch of updates in order, stopping at the first failing step.
pub fn apply_updates(pool: TrackedPool, updates: &Vec<PoolUpdateEvent>) -> (r: Result<
    TrackedPool,
    IndexerError,
>)
    requires
        forall|i: int|
            0 <= i < updates@.len() ==> crate::updates::spec_update_wf(#[trigger] updates@[i]),
    ensures
        r is Ok <==> spec_fold_updates(pool@, updates@) is Some,
        r matches Ok(p) ==> Some(p@) == spec_fold_updates(pool@, updates@),
        r matches Err(e) ==> e is Overflow,
{
    let mut p = pool;
    let mut i: usize = 0;
    proof {
        assert(updates@.skip(0) =~= updates@);
    }
    while i < updates.len()
        invariant
            0 <= i <= updates@.len(),
            forall|j: int|
                0 <= j < updates@.len() ==> crate::updates::spec_update_wf(#[trigger] updates@[j]),
            spec_fold_updates(pool@, updates@) == spec_fold_updates(p@, updates@.skip(i as int)),
        decreases updates@.len() - i,
    {
        let ghost pre = p@;
        p = match handle_update(p, &updates[i]) {
            Ok(q) => q,
            Err(e) => {
                proof {
                    assert(updates@.skip(i as int)[0] == updates@[i as int]);
                    assert(spec_fold_updates(pre, updates@.skip(i as int)) is None);
                }
                return Err(e);
            },
        };
        proof {
            assert(updates@.skip(i as int)[0] == updates@[i as int]);
            assert(updates@.skip(i as int).drop_first() =~= updates@.skip(i + 1));
        }
        i += 1;
    }
    proof {
        assert(updates@.skip(updates@.len() as int) =~= Seq::<PoolUpdateEvent>::empty());
    }
    Ok(p)
}

/// The bumps that a price move from `old_tick` to `new_tick` knocks out:
/// ask-side bumps on an upward move, bid-side bumps on a downward move,
/// inclusive on the destination side.
pub open spec fn spec_crossed_bumps(bs: Seq<LiquidityBump>, old_tick: i32, new_tick: i32) -> Seq<
    LiquidityBump,
>
    decreases bs.len(),
{
    if bs.len() == 0 {
        Seq::empty()
    } else {
        let rest = spec_crossed_bumps(bs.drop_first(), old_tick, new_tick);
        let hit = if new_tick > old_tick {
            old_tick < bs[0].tick <= new_tick && bs[0].knockout_ask_liq > 0
        } else {
            new_tick <= bs[0].tick < old_tick && bs[0].knockout_bid_liq > 0
        };
        if hit {
            seq![bs[0]] + rest
        } else {
            rest
        }
    }
}

/// Splitting the scan splits its result.
proof fn lemma_crossed_bumps_append(
    a: Seq<LiquidityBump>,
    b: Seq<LiquidityBump>,
    old_tick: i32,
    new_tick: i32,
)
    ensures
        spec_crossed_bumps(a + b, old_tick, new_tick) == spec_crossed_bumps(a, old_tick, new_tick)
            + spec_crossed_bumps(b, old_tick, new_tick),
    decreases a.len(),
{
    if a.len() == 0 {
        assert(a + b =~= b);
        assert(spec_crossed_bumps(a, old_tick, new_tick) + spec_crossed_bumps(
            b,
            old_tick,
            new_tick,
        ) =~= spec_crossed_bumps(b, old_tick, new_tick));
    } else {
        lemma_crossed_bumps_append(a.drop_first(), b, old_tick, new_tick);
        assert((a + b).drop_first() =~= a.drop_first() + b);
        assert((a + b)[0] == a[0]);
        let rest = spec_crossed_bumps(a.drop_first(), old_tick, new_tick) + spec_crossed_bumps(
            b,
            old_tick,
            new_tick,
        );
        assert(seq![a[0]] + rest =~= (seq![a[0]] + spec_crossed_bumps(
            a.drop_first(),
            old_tick,
            new_tick,
        )) + spec_crossed_bumps(b, old_tick, new_tick));
    }
}

/// Collects the knockout bumps that a tick move crosses.
pub fn get_crossed_ko_bumps(pool: &TrackedPool, old_tick: i32, new_tick: i32) -> (r: Vec<
    LiquidityBump,
>)
    ensures
        r@ == spec_crossed_bumps(pool@.bumps, old_tick, new_tick),
{
    let mut res: Vec<LiquidityBump> = Vec::new();
    let mut i: usize = 0;
    while i < pool.bumps.len()
        invariant
            0 <= i <= pool.bumps@.len(),
            res@ == spec_crossed_bumps(pool.bumps@.take(i as int), old_tick, new_tick),
        decreases pool.bumps@.len() - i,
    {
        let b = pool.bumps[i];
        let hit = if new_tick > old_tick {
            old_tick < b.tick && b.tick <= new_tick && b.knockout_ask_liq > 0
        } else {
            new_tick <= b.tick && b.tick < old_tick && b.knockout_bid_liq > 0
        };
        if hit {
            res.push(b);
        }
        proof {
            reveal_with_fuel(spec_crossed_bumps, 3);
            let pre = pool.bumps@.take(i as int);
            let post = pool.bumps@.take(i + 1);
            assert(post =~= pre + seq![b]);
            lemma_crossed_bumps_append(pre, seq![b], old_tick, new_tick);
            assert(seq![b].drop_first() =~= Seq::<LiquidityBump>::empty());
            if new_tick > old_tick {
                if old_tick < b.tick <= new_tick && b.knockout_ask_liq > 0 {
                    assert(spec_crossed_bumps(seq![b], old_tick, new_tick) =~= seq![b]);
                } else {
                    assert(spec_crossed_bumps(seq![b], old_tick, new_tick)
                        =~= Seq::<LiquidityBump>::empty());
                    assert(pre.take(0) + res@ =~= res@);
                }
            } else {
                if new_tick <= b.tick < old_tick && b.knockout_bid_liq > 0 {
                    assert(spec_crossed_bumps(seq![b], old_tick, new_tick) =~= seq![b]);
                } else {
                    assert(spec_crossed_bumps(seq![b], old_tick, new_tick)
                        =~= Seq::<LiquidityBump>::empty());
                    assert(pre.take(0) + res@ =~= res@);
                }
            }
            assert(res@ =~= spec_crossed_bumps(post, old_tick, new_tick));
        }
        i += 1;
    }
    proof {
        assert(pool.bumps@.take(pool.bumps@.len() as int) =~= pool.bumps@);
    }
    res
}

/// What crossing one knockout pivot does to the curve: the knocked-out
/// side's liquidity leaves the pivot bump, whose knockout state resets,
/// and the same liquidity re-enters at the position's other endpoint so
/// that later crossings of these ticks cannot re-inject the principal.
pub open spec fn spec_cross_ko(bs: Seq<LiquidityBump>, b: LiquidityBump, is_bid: bool) -> Option<
    Seq<LiquidityBump>,
> {
    let liq = if is_bid {
        b.knockout_bid_liq as int
    } else {
        b.knockout_ask_liq as int
    };
    let paired: int = if is_bid {
        b.tick + b.knockout_bid_width
    } else {
        b.tick - b.knockout_ask_width
    };
    if liq == i128::MIN {
        None
    } else if !(i32::MIN <= paired <= i32::MAX) {
        None
    } else {
        let r1 = if is_bid {
            spec_apply_bump_change(bs, b.tick, -liq, -liq, 0, Some(0), None)
        } else {
            spec_apply_bump_change(bs, b.tick, -liq, 0, -liq, None, Some(0))
        };
        match r1 {
            Some(t) => spec_apply_bump_change(t, paired as i32, liq, 0, 0, None, None),
            None => None,
        }
    }
}

/// Crosses one knockout pivot, cancelling the position at both endpoints.
pub fn cross_ko_bump(pool: &mut TrackedPool, bump: &LiquidityBump, is_bid: bool) -> (r: Result<
    (),
    IndexerError,
>)
    ensures
        ({
            let s = spec_cross_ko(old(pool)@.bumps, *bump, is_bid);
            &&& (r is Ok <==> s is Some)
            &&& (r is Ok ==> Some(final(pool)@.bumps) == s)
            &&& (r is Ok ==> final(pool)@ == PoolModel { bumps: final(pool)@.bumps, ..old(pool)@ })
            &&& (r is Err ==> final(pool)@ == old(pool)@)
        }),
{
    let liq: i128 = if is_bid {
        bump.knockout_bid_liq
    } else {
        bump.knockout_ask_liq
    };
    if liq == i128::MIN {
        // the negation below could not be represented; a liquidity total
        // this size cannot arise from real flows
        return Err(IndexerError::Overflow);
    }
    let paired_wide: i64 = if is_bid {
        bump.tick as i64 + bump.knockout_bid_width as i64
    } else {
        bump.tick as i64 - bump.knockout_ask_width as i64
    };
    if paired_wide > 0x7fffffff || paired_wide < -0x80000000 {
        return Err(IndexerError::Overflow);
    }
    let paired: i32 = paired_wide as i32;
    let r1 = if is_bid {
        apply_bump_change(&pool.bumps, bump.tick, -liq, -liq, 0, Some(0), None)
    } else {
        apply_bump_change(&pool.bumps, bump.tick, -liq, 0, -liq, None, Some(0))
    };
    let bs1 = match r1 {
        Ok(v) => v,
        Err(e) => {
            return Err(e);
        },
    };
    let bs2 = match apply_bump_change(&bs1, paired, liq, 0, 0, None, None) {
        Ok(v) => v,
        Err(e) => {
            return Err(e);
        },
    };
    pool.bumps = bs2;
    Ok(())
}

} // verus!
