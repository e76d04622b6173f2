//! The read side that the HTTP surface consumes: each answer is either
//! the payload, a miss, or the syncing refusal that holds while the
//! cursor trails the chain head too far.

use vstd::prelude::*;
use crate::address::Address;
use crate::db::get_syncing;
use crate::db::get_tracked_pool;
use crate::db::get_init_pool;
use crate::db::spec_last_tracked;
use crate::db::Db;
use crate::events::InitPoolEvent;
use crate::tracking::TrackedPool;
use crate::u256::U256;

verus! {

/// A derived-data answer: the payload, a miss, or the syncing refusal.
pub enum ApiResponse<T> {
    /// Served while the indexer trails the head: the HTTP layer answers
    /// 503.
    Syncing,
    /// The queried entity is unknown: the HTTP layer answers 404.
    NotFound,
    /// The payload to serve.
    Found(T),
}

/// The derived state of a pool, for the pool statistics and liquidity
/// curve endpoints: refused while syncing, missing for a triple no event
/// has touched.
pub fn tracked_pool_response(db: &Db, base: Address, quote: Address, pool_idx: U256) -> (r:
    ApiResponse<TrackedPool>)
    ensures
        db.syncing ==> r is Syncing,
        !db.syncing && spec_last_tracked(db.tracked_pools@, base, quote, pool_idx) is None ==> r
            is NotFound,
        !db.syncing ==> (r matches ApiResponse::Found(p) ==> Some(p@) == spec_last_tracked(
            db.tracked_pools@,
            base,
            quote,
            pool_idx,
        )),
        !db.syncing ==> (r is Found <==> spec_last_tracked(
            db.tracked_pools@,
            base,
            quote,
            pool_idx,
        ) is Some),
{
    if get_syncing(db) {
        return ApiResponse::Syncing;
    }
    match get_tracked_pool(db, base, quote, pool_idx) {
        Some(p) => ApiResponse::Found(p),
        None => ApiResponse::NotFound,
    }
}

/// The creation record of a pool, for the pool lookup endpoint.
pub fn init_pool_response(db: &Db, base: Address, quote: Address, pool_idx: U256) -> (r:
    ApiResponse<InitPoolEvent>)
    ensures
        db.syncing ==> r is Syncing,
        !db.syncing ==> (r matches ApiResponse::Found(e) ==> crate::db::spec_first_init(
            db.init_pools@,
            base,
            quote,
            pool_idx,
        ) == Some(e)),
        !db.syncing ==> ((r is NotFound) <==> crate::db::spec_first_init(
            db.init_pools@,
            base,
            quote,
            pool_idx,
        ) is None),
{
    if get_syncing(db) {
        return ApiResponse::Syncing;
    }
    match get_init_pool(db, base, quote, pool_idx) {
        Some(e) => ApiResponse::Found(e),
        None => ApiResponse::NotFound,
    }
}

/// The canonical pair ordering of a price query: the lower address is the
/// base, and a flipped query inverts the served price.
pub fn orient_pair(from: Address, to: Address) -> (r: (Address, Address, bool))
    ensures
        from.as_nat() < to.as_nat() ==> r == (from, to, false),
        from.as_nat() >= to.as_nat() ==> r == (to, from, true),
{
    if from.lt(&to) {
        (from, to, false)
    } else {
        (to, from, true)
    }
}

} // verus!
