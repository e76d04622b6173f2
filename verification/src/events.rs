//! Chain logs and the typed event records decoded from them.
//!
//! Each observable of the AMM dispatch contract has one record type with a
//! `from_log` decoder, a `from_logs` batch decoder and an `encode_log`
//! builder.  A spec function per record gives the exact meaning of its
//! byte layout; decoding an encoded record returns the record.

use vstd::prelude::*;
use crate::abi::be_val;
use crate::abi::parse_address;
use crate::abi::parse_bool;
use crate::abi::parse_i128;
use crate::abi::parse_i32;
use crate::abi::parse_u128;
use crate::abi::parse_u16;
use crate::abi::parse_u8;
use crate::abi::parse_uint256;
use crate::abi::push_slot_address;
use crate::abi::push_slot_bool;
use crate::abi::push_slot_i128;
use crate::abi::push_slot_i32;
use crate::abi::push_slot_u128;
use crate::abi::push_slot_u16;
use crate::abi::push_slot_u256;
use crate::abi::push_slot_u8;
use crate::abi::twos_complement;
use crate::address::address_zero;
use crate::address::lemma_address_of_as_nat;
use crate::address::spec_address_of;
use crate::address::Address;
use crate::u256::lemma_u256_of_as_nat;
use crate::u256::spec_u256_of;
use crate::u256::u256_zero;
use crate::u256::U256;
use vstd::string::StringExecFns;

verus! {

/// The error kinds that the library's own logic can report.
#[derive(Clone, Debug)]
pub enum IndexerError {
    /// A log's topics or data do not fit the expected layout; the record
    /// is skipped.
    InvalidEventLog(String),
    /// The reducer was asked to fold a pool with no tracked state.
    MissingPool,
    /// A pool initialization names a template that the store does not hold.
    MissingTemplate,
    /// A pool initialization carries a negative flow.
    InvalidInitFlows,
    /// A fold step left the representable range of a total.
    Overflow,
}

/// One chain log: the indexed topics, the packed payload, and where the
/// log sat in the chain.
#[derive(Clone, Debug)]
pub struct Log {
    pub topics: Vec<Vec<u8>>,
    pub data: Vec<u8>,
    pub block_number: Option<U256>,
    pub log_index: Option<U256>,
}

/// Whether the three indexed topics and the block number are usable.
pub open spec fn spec_topics_ok(log: Log) -> bool {
    &&& log.topics@.len() >= 4
    &&& log.topics@[1]@.len() >= 32
    &&& log.topics@[2]@.len() >= 32
    &&& log.topics@[3]@.len() >= 32
    &&& log.block_number is Some
}

/// The address packed into topic `i`.
pub open spec fn spec_topic_address(log: Log, i: int) -> Address {
    spec_address_of(be_val(log.topics@[i]@.subrange(12, 32)))
}

/// The 256-bit integer packed into topic `i`.
pub open spec fn spec_topic_u256(log: Log, i: int) -> U256 {
    spec_u256_of(be_val(log.topics@[i]@.subrange(0, 32)))
}

/// The log's index within its block, zero when the source omits it.
pub open spec fn spec_log_index(log: Log) -> U256 {
    if log.log_index is Some {
        log.log_index->0
    } else {
        u256_zero()
    }
}

/// Reads the address topic `i`.
fn topic_address(log: &Log, i: usize) -> (r: Address)
    requires
        i < log.topics@.len(),
        log.topics@[i as int]@.len() >= 32,
    ensures
        r == spec_topic_address(*log, i as int),
{
    let t: &Vec<u8> = &log.topics[i];
    let a = parse_address(t.as_slice(), 0);
    proof {
        lemma_address_of_as_nat(a);
    }
    a
}

/// Reads the 256-bit integer topic `i`.
fn topic_u256(log: &Log, i: usize) -> (r: U256)
    requires
        i < log.topics@.len(),
        log.topics@[i as int]@.len() >= 32,
    ensures
        r == spec_topic_u256(*log, i as int),
{
    let t: &Vec<u8> = &log.topics[i];
    let v = parse_uint256(t.as_slice(), 0);
    proof {
        lemma_u256_of_as_nat(v);
    }
    v
}

/// Checks the common shape of a log and hands out block number and index.
fn check_log_shape(log: &Log) -> (r: Result<(U256, U256), IndexerError>)
    ensures
        r is Ok <==> spec_topics_ok(*log),
        r matches Ok(p) ==> p.0 == log.block_number->0 && p.1 == spec_log_index(*log),
        r matches Err(e) ==> e is InvalidEventLog,
{
    if log.topics.len() < 4 {
        return Err(IndexerError::InvalidEventLog("too few topics".to_owned()));
    }
    if log.topics[1].len() < 32 || log.topics[2].len() < 32 || log.topics[3].len() < 32 {
        return Err(IndexerError::InvalidEventLog("topic too short".to_owned()));
    }
    let block: U256 = match &log.block_number {
        Some(b) => *b,
        None => {
            return Err(IndexerError::InvalidEventLog("log has no block number".to_owned()));
        },
    };
    let index: U256 = match &log.log_index {
        Some(i) => *i,
        None => U256::zero(),
    };
    Ok((block, index))
}

/// The creation of a pool, as its InitPool log reports it.
#[derive(Clone, Copy, Debug, PartialEq, Eq, Structural, Hash)]
pub struct InitPoolEvent {
    pub block_height: U256,
    pub base: Address,
    pub quote: Address,
    pub pool_idx: U256,
    pub creator: Address,
    pub liq: u128,
    pub base_flow: i128,
    pub quote_flow: i128,
}

/// The unindexed payload of an InitPool log.
#[derive(Clone, Copy, Debug, PartialEq, Eq, Structural, Hash)]
pub struct InitPoolBytes {
    pub price: u128,
    pub user: Address,
    pub liq: u128,
    pub base_flow: i128,
    pub quote_flow: i128,
}

/// The meaning of an InitPool payload: five 32-byte slots.
pub open spec fn spec_init_pool_bytes(data: Seq<u8>) -> Option<InitPoolBytes> {
    if data.len() < 160 {
        None
    } else {
        Some(
            InitPoolBytes {
                price: be_val(data.subrange(16, 32)) as u128,
                user: spec_address_of(be_val(data.subrange(44, 64))),
                liq: be_val(data.subrange(80, 96)) as u128,
                base_flow: twos_complement(be_val(data.subrange(112, 128)), 128) as i128,
                quote_flow: twos_complement(be_val(data.subrange(144, 160)), 128) as i128,
            },
        )
    }
}

/// The meaning of a whole InitPool log.
pub open spec fn spec_decode_init_pool(log: Log) -> Option<InitPoolEvent> {
    let ob = spec_init_pool_bytes(log.data@);
    if !spec_topics_ok(log) || ob is None {
        None
    } else {
        Some(
            InitPoolEvent {
                block_height: log.block_number->0,
                base: spec_topic_address(log, 1),
                quote: spec_topic_address(log, 2),
                pool_idx: spec_topic_u256(log, 3),
                creator: ob->0.user,
                liq: ob->0.liq,
                base_flow: ob->0.base_flow,
                quote_flow: ob->0.quote_flow,
            },
        )
    }
}

impl InitPoolEvent {
    /// Decodes every log of a batch, or reports the first bad one.
    pub fn from_logs(input: &Vec<Log>) -> (r: Result<Vec<InitPoolEvent>, IndexerError>)
        ensures
            r is Ok <==> (forall|i: int|
                0 <= i < input@.len() ==> spec_decode_init_pool(input@[i]) is Some),
            r matches Ok(es) ==> es@.len() == input@.len() && (forall|i: int|
                0 <= i < input@.len() ==> Some(es@[i]) == spec_decode_init_pool(input@[i])),
            r matches Err(e) ==> e is InvalidEventLog,
    {
        let mut res: Vec<InitPoolEvent> = Vec::new();
        let mut i: usize = 0;
        while i < input.len()
            invariant
                i <= input@.len(),
                res@.len() == i,
                forall|j: int| 0 <= j < i ==> Some(res@[j]) == spec_decode_init_pool(input@[j]),
            decreases input@.len() - i,
        {
            match InitPoolEvent::from_log(&input[i]) {
                Ok(e) => res.push(e),
                Err(e) => {
                    return Err(e);
                },
            }
            i += 1;
        }
        Ok(res)
    }

    /// Decodes one log: three indexed topics, then the payload.
    pub fn from_log(input: &Log) -> (r: Result<InitPoolEvent, IndexerError>)
        ensures
            r matches Ok(e) ==> spec_decode_init_pool(*input) == Some(e),
            r is Ok <==> spec_decode_init_pool(*input) is Some,
            r matches Err(e) ==> e is InvalidEventLog,
    {
        let (block_height, _index) = match check_log_shape(input) {
            Ok(p) => p,
            Err(e) => {
                return Err(e);
            },
        };
        let base = topic_address(input, 1);
        let quote = topic_address(input, 2);
        let pool_idx = topic_u256(input, 3);
        let b = match Self::decode_data_bytes(input.data.as_slice()) {
            Ok(b) => b,
            Err(e) => {
                return Err(e);
            },
        };
        Ok(
            InitPoolEvent {
                block_height,
                base,
                quote,
                pool_idx,
                creator: b.user,
                liq: b.liq,
                base_flow: b.base_flow,
                quote_flow: b.quote_flow,
            },
        )
    }

    /// Decodes the payload slots of an InitPool log.
    pub fn decode_data_bytes(input: &[u8]) -> (r: Result<InitPoolBytes, IndexerError>)
        ensures
            r matches Ok(b) ==> spec_init_pool_bytes(input@) == Some(b),
            r is Ok <==> spec_init_pool_bytes(input@) is Some,
            r matches Err(e) ==> e is InvalidEventLog,
    {
        if input.len() < 160 {
            return Err(IndexerError::InvalidEventLog("too short for InitPoolBytes".to_owned()));
        }
        let price = parse_u128(input, 0);
        let user = parse_address(input, 32);
        let liq = parse_u128(input, 64);
        let base_flow = parse_i128(input, 96);
        let quote_flow = parse_i128(input, 128);
        proof {
            lemma_address_of_as_nat(user);
        }
        Ok(InitPoolBytes { price, user, liq, base_flow, quote_flow })
    }

    /// Builds the payload back from the record; the price slot, which the
    /// record does not keep, is written as zero.
    pub fn encode_data(&self) -> (r: Vec<u8>)
        ensures
            spec_init_pool_bytes(r@) == Some(
                InitPoolBytes {
                    price: 0,
                    user: self.creator,
                    liq: self.liq,
                    base_flow: self.base_flow,
                    quote_flow: self.quote_flow,
                },
            ),
    {
        let mut out: Vec<u8> = Vec::new();
        push_slot_u128(&mut out, 0);
        let ghost g1 = out@;
        push_slot_address(&mut out, &self.creator);
        let ghost g2 = out@;
        push_slot_u128(&mut out, self.liq);
        let ghost g3 = out@;
        push_slot_i128(&mut out, self.base_flow);
        let ghost g4 = out@;
        push_slot_i128(&mut out, self.quote_flow);
        proof {
            assert(out@.subrange(16, 32) =~= g1.subrange(16, 32));
            assert(out@.subrange(44, 64) =~= g2.subrange(44, 64));
            assert(out@.subrange(80, 96) =~= g3.subrange(80, 96));
            assert(out@.subrange(112, 128) =~= g4.subrange(112, 128));
            lemma_address_of_as_nat(self.creator);
        }
        out
    }

    /// Builds a log that decodes back to this record.  The signature topic
    /// is left zeroed: decoding never reads it.
    pub fn encode_log(&self) -> (r: Log)
        ensures
            spec_decode_init_pool(r) == Some(*self),
    {
        let mut topic0: Vec<u8> = Vec::new();
        crate::abi::push_zeros(&mut topic0, 32);
        let mut t_base: Vec<u8> = Vec::new();
        push_slot_address(&mut t_base, &self.base);
        let mut t_quote: Vec<u8> = Vec::new();
        push_slot_address(&mut t_quote, &self.quote);
        let mut t_idx: Vec<u8> = Vec::new();
        push_slot_u256(&mut t_idx, &self.pool_idx);
        let data = self.encode_data();
        let topics: Vec<Vec<u8>> = vec![topic0, t_base, t_quote, t_idx];
        let r = Log { topics, data, block_number: Some(self.block_height), log_index: None };
        proof {
            lemma_address_of_as_nat(self.base);
            lemma_address_of_as_nat(self.quote);
            lemma_u256_of_as_nat(self.pool_idx);
        }
        r
    }
}

impl Default for InitPoolEvent {
    /// The all-zero record.
    fn default() -> (r: InitPoolEvent)
        ensures
            (r == InitPoolEvent {
                block_height: u256_zero(),
                base: address_zero(),
                quote: address_zero(),
                pool_idx: u256_zero(),
                creator: address_zero(),
                liq: 0,
                base_flow: 0,
                quote_flow: 0,
            }),
    {
        InitPoolEvent {
            block_height: U256::zero(),
            base: Address::zero(),
            quote: Address::zero(),
            pool_idx: U256::zero(),
            creator: Address::zero(),
            liq: 0,
            base_flow: 0,
            quote_flow: 0,
        }
    }
}

/// A PoolRevision observation, as its log reports it.
#[derive(Clone, Copy, Debug, PartialEq, Eq, Structural, Hash)]
pub struct PoolRevisionEvent {
    pub block_height: U256,
    pub index: U256,
    pub base: Address,
    pub quote: Address,
    pub pool_idx: U256,
    pub fee_rate: u16,
    pub tick_size: u16,
    pub jit_thresh: u8,
    pub knockout: u8,
}

/// The unindexed payload of a PoolRevision log.
#[derive(Clone, Copy, Debug, PartialEq, Eq, Structural, Hash)]
pub struct PoolRevisionBytes {
    pub fee_rate: u16,
    pub tick_size: u16,
    pub jit_thresh: u8,
    pub knockout: u8,
}

/// The meaning of a PoolRevision payload: 4 32-byte slots.
pub open spec fn spec_pool_revision_bytes(data: Seq<u8>) -> Option<PoolRevisionBytes> {
    if data.len() < 128 {
        None
    } else {
        Some(
            PoolRevisionBytes {
                fee_rate: be_val(data.subrange(30, 32)) as u16,
                tick_size: be_val(data.subrange(62, 64)) as u16,
                jit_thresh: be_val(data.subrange(95, 96)) as u8,
                knockout: be_val(data.subrange(127, 128)) as u8,
            },
        )
    }
}

/// The meaning of a whole PoolRevision log.
pub open spec fn spec_decode_pool_revision(log: Log) -> Option<PoolRevisionEvent> {
    let ob = spec_pool_revision_bytes(log.data@);
    if !spec_topics_ok(log) || ob is None {
        None
    } else {
        Some(
            PoolRevisionEvent {
                block_height: log.block_number->0,
                index: spec_log_index(log),
                base: spec_topic_address(log, 1),
                quote: spec_topic_address(log, 2),
                pool_idx: spec_topic_u256(log, 3),
                fee_rate: ob->0.fee_rate,
                tick_size: ob->0.tick_size,
                jit_thresh: ob->0.jit_thresh,
                knockout: ob->0.knockout,
            },
        )
    }
}

impl PoolRevisionEvent {
    /// Decodes every log of a batch, or reports the first bad one.
    pub fn from_logs(input: &Vec<Log>) -> (r: Result<Vec<PoolRevisionEvent>, IndexerError>)
        ensures
            r is Ok <==> (forall|i: int|
                0 <= i < input@.len() ==> spec_decode_pool_revision(input@[i]) is Some),
            r matches Ok(es) ==> es@.len() == input@.len() && (forall|i: int|
                0 <= i < input@.len() ==> Some(es@[i]) == spec_decode_pool_revision(input@[i])),
            r matches Err(e) ==> e is InvalidEventLog,
    {
        let mut res: Vec<PoolRevisionEvent> = Vec::new();
        let mut i: usize = 0;
        while i < input.len()
            invariant
                i <= input@.len(),
                res@.len() == i,
                forall|j: int| 0 <= j < i ==> Some(res@[j]) == spec_decode_pool_revision(input@[j]),
            decreases input@.len() - i,
        {
            match PoolRevisionEvent::from_log(&input[i]) {
                Ok(e) => res.push(e),
                Err(e) => {
                    return Err(e);
                },
            }
            i += 1;
        }
        Ok(res)
    }

    /// Decodes one log: three indexed topics, then the payload.
    pub fn from_log(input: &Log) -> (r: Result<PoolRevisionEvent, IndexerError>)
        ensures
            r matches Ok(e) ==> spec_decode_pool_revision(*input) == Some(e),
            r is Ok <==> spec_decode_pool_revision(*input) is Some,
            r matches Err(e) ==> e is InvalidEventLog,
    {
        let (block_height, index) = match check_log_shape(input) {
            Ok(p) => p,
            Err(e) => {
                return Err(e);
            },
        };
        let base = topic_address(input, 1);
        let quote = topic_address(input, 2);
        let pool_idx = topic_u256(input, 3);
        let b = match Self::decode_data_bytes(input.data.as_slice()) {
            Ok(b) => b,
            Err(e) => {
                return Err(e);
            },
        };
        Ok(
            PoolRevisionEvent {
                block_height,
                index,
                base,
                quote,
                pool_idx,
                fee_rate: b.fee_rate,
                tick_size: b.tick_size,
                jit_thresh: b.jit_thresh,
                knockout: b.knockout,
            },
        )
    }

    /// Decodes the payload slots of a PoolRevision log.
    pub fn decode_data_bytes(input: &[u8]) -> (r: Result<PoolRevisionBytes, IndexerError>)
        ensures
            r matches Ok(b) ==> spec_pool_revision_bytes(input@) == Some(b),
            r is Ok <==> spec_pool_revision_bytes(input@) is Some,
            r matches Err(e) ==> e is InvalidEventLog,
    {
        if input.len() < 128 {
            return Err(IndexerError::InvalidEventLog("too short for PoolRevisionBytes".to_owned()));
        }
        let fee_rate = parse_u16(input, 0);
        let tick_size = parse_u16(input, 32);
        let jit_thresh = parse_u8(input, 64);
        let knockout = parse_u8(input, 96);
        Ok(PoolRevisionBytes { fee_rate, tick_size, jit_thresh, knockout })
    }

    /// Builds the payload back from the record.
    pub fn encode_data(&self) -> (r: Vec<u8>)
        ensures
            spec_pool_revision_bytes(r@) == Some(
                PoolRevisionBytes { fee_rate: self.fee_rate, tick_size: self.tick_size, jit_thresh: self.jit_thresh, knockout: self.knockout },
            ),
    {
        let mut out: Vec<u8> = Vec::new();
        push_slot_u16(&mut out, self.fee_rate);
        let ghost g1 = out@;
        push_slot_u16(&mut out, self.tick_size);
        let ghost g2 = out@;
        push_slot_u8(&mut out, self.jit_thresh);
        let ghost g3 = out@;
        push_slot_u8(&mut out, self.knockout);
        proof {
            assert(out@.subrange(30, 32) =~= g1.subrange(30, 32));
            assert(out@.subrange(62, 64) =~= g2.subrange(62, 64));
            assert(out@.subrange(95, 96) =~= g3.subrange(95, 96));
        }
        out
    }

    /// Builds a log that decodes back to this record.  The signature topic
    /// is left zeroed: decoding never reads it.
    pub fn encode_log(&self) -> (r: Log)
        ensures
            spec_decode_pool_revision(r) == Some(*self),
    {
        let mut topic0: Vec<u8> = Vec::new();
        crate::abi::push_zeros(&mut topic0, 32);
        let mut t_base: Vec<u8> = Vec::new();
        push_slot_address(&mut t_base, &self.base);
        let mut t_quote: Vec<u8> = Vec::new();
        push_slot_address(&mut t_quote, &self.quote);
        let mut t_idx: Vec<u8> = Vec::new();
        push_slot_u256(&mut t_idx, &self.pool_idx);
        let data = self.encode_data();
        let topics: Vec<Vec<u8>> = vec![topic0, t_base, t_quote, t_idx];
        let r = Log { topics, data, block_number: Some(self.block_height), log_index: Some(self.index) };
        proof {
            lemma_address_of_as_nat(self.base);
            lemma_address_of_as_nat(self.quote);
            lemma_u256_of_as_nat(self.pool_idx);
        }
        r
    }
}

impl Default for PoolRevisionEvent {
    /// The all-zero record.
    fn default() -> (r: PoolRevisionEvent)
        ensures
            (r == PoolRevisionEvent {
                block_height: u256_zero(),
                index: u256_zero(),
                base: address_zero(),
                quote: address_zero(),
                pool_idx: u256_zero(),
                fee_rate: 0,
                tick_size: 0,
                jit_thresh: 0,
                knockout: 0,
            }),
    {
        PoolRevisionEvent {
            block_height: U256::zero(),
            index: U256::zero(),
            base: Address::zero(),
            quote: Address::zero(),
            pool_idx: U256::zero(),
            fee_rate: 0,
            tick_size: 0,
            jit_thresh: 0,
            knockout: 0,
        }
    }
}

/// A Swap observation, as its log reports it.
#[derive(Clone, Copy, Debug, PartialEq, Eq, Structural, Hash)]
pub struct SwapEvent {
    pub block_height: U256,
    pub index: U256,
    pub user: Address,
    pub base: Address,
    pub quote: Address,
    pub pool_idx: U256,
    pub is_buy: bool,
    pub in_base_qty: bool,
    pub qty: u128,
    pub min_output: u128,
    pub base_flow: i128,
    pub quote_flow: i128,
}

/// The unindexed payload of a Swap log.
#[derive(Clone, Copy, Debug, PartialEq, Eq, Structural, Hash)]
pub struct SwapBytes {
    pub pool_idx: U256,
    pub is_buy: bool,
    pub in_base_qty: bool,
    pub qty: u128,
    pub min_output: u128,
    pub base_flow: i128,
    pub quote_flow: i128,
}

/// The meaning of a Swap payload: 7 32-byte slots.
pub open spec fn spec_swap_bytes(data: Seq<u8>) -> Option<SwapBytes> {
    if data.len() < 224 {
        None
    } else {
        Some(
            SwapBytes {
                pool_idx: spec_u256_of(be_val(data.subrange(0, 32))),
                is_buy: (data[63] != 0),
                in_base_qty: (data[95] != 0),
                qty: be_val(data.subrange(112, 128)) as u128,
                min_output: be_val(data.subrange(144, 160)) as u128,
                base_flow: twos_complement(be_val(data.subrange(176, 192)), 128) as i128,
                quote_flow: twos_complement(be_val(data.subrange(208, 224)), 128) as i128,
            },
        )
    }
}

/// The meaning of a whole Swap log.
pub open spec fn spec_decode_swap(log: Log) -> Option<SwapEvent> {
    let ob = spec_swap_bytes(log.data@);
    if !spec_topics_ok(log) || ob is None {
        None
    } else {
        Some(
            SwapEvent {
                block_height: log.block_number->0,
                index: spec_log_index(log),
                user: spec_topic_address(log, 1),
                base: spec_topic_address(log, 2),
                quote: spec_topic_address(log, 3),
                pool_idx: ob->0.pool_idx,
                is_buy: ob->0.is_buy,
                in_base_qty: ob->0.in_base_qty,
                qty: ob->0.qty,
                min_output: ob->0.min_output,
                base_flow: ob->0.base_flow,
                quote_flow: ob->0.quote_flow,
            },
        )
    }
}

impl SwapEvent {
    /// Decodes every log of a batch, or reports the first bad one.
    pub fn from_logs(input: &Vec<Log>) -> (r: Result<Vec<SwapEvent>, IndexerError>)
        ensures
            r is Ok <==> (forall|i: int|
                0 <= i < input@.len() ==> spec_decode_swap(input@[i]) is Some),
            r matches Ok(es) ==> es@.len() == input@.len() && (forall|i: int|
                0 <= i < input@.len() ==> Some(es@[i]) == spec_decode_swap(input@[i])),
            r matches Err(e) ==> e is InvalidEventLog,
    {
        let mut res: Vec<SwapEvent> = Vec::new();
        let mut i: usize = 0;
        while i < input.len()
            invariant
                i <= input@.len(),
                res@.len() == i,
                forall|j: int| 0 <= j < i ==> Some(res@[j]) == spec_decode_swap(input@[j]),
            decreases input@.len() - i,
        {
            match SwapEvent::from_log(&input[i]) {
                Ok(e) => res.push(e),
                Err(e) => {
                    return Err(e);
                },
            }
            i += 1;
        }
        Ok(res)
    }

    /// Decodes one log: three indexed topics, then the payload.
    pub fn from_log(input: &Log) -> (r: Result<SwapEvent, IndexerError>)
        ensures
            r matches Ok(e) ==> spec_decode_swap(*input) == Some(e),
            r is Ok <==> spec_decode_swap(*input) is Some,
            r matches Err(e) ==> e is InvalidEventLog,
    {
        let (block_height, index) = match check_log_shape(input) {
            Ok(p) => p,
            Err(e) => {
                return Err(e);
            },
        };
        let user = topic_address(input, 1);
        let base = topic_address(input, 2);
        let quote = topic_address(input, 3);
        let b = match Self::decode_data_bytes(input.data.as_slice()) {
            Ok(b) => b,
            Err(e) => {
                return Err(e);
            },
        };
        Ok(
            SwapEvent {
                block_height,
                index,
                user,
                base,
                quote,
                pool_idx: b.pool_idx,
                is_buy: b.is_buy,
                in_base_qty: b.in_base_qty,
                qty: b.qty,
                min_output: b.min_output,
                base_flow: b.base_flow,
                quote_flow: b.quote_flow,
            },
        )
    }

    /// Decodes the payload slots of a Swap log.
    pub fn decode_data_bytes(input: &[u8]) -> (r: Result<SwapBytes, IndexerError>)
        ensures
            r matches Ok(b) ==> spec_swap_bytes(input@) == Some(b),
            r is Ok <==> spec_swap_bytes(input@) is Some,
            r matches Err(e) ==> e is InvalidEventLog,
    {
        if input.len() < 224 {
            return Err(IndexerError::InvalidEventLog("too short for SwapBytes".to_owned()));
        }
        let pool_idx = parse_uint256(input, 0);
        let is_buy = parse_bool(input, 32);
        let in_base_qty = parse_bool(input, 64);
        let qty = parse_u128(input, 96);
        let min_output = parse_u128(input, 128);
        let base_flow = parse_i128(input, 160);
        let quote_flow = parse_i128(input, 192);
        proof {
            lemma_u256_of_as_nat(pool_idx);
        }
        Ok(SwapBytes { pool_idx, is_buy, in_base_qty, qty, min_output, base_flow, quote_flow })
    }

    /// Builds the payload back from the record.
    pub fn encode_data(&self) -> (r: Vec<u8>)
        ensures
            spec_swap_bytes(r@) == Some(
                SwapBytes { pool_idx: self.pool_idx, is_buy: self.is_buy, in_base_qty: self.in_base_qty, qty: self.qty, min_output: self.min_output, base_flow: self.base_flow, quote_flow: self.quote_flow },
            ),
    {
        let mut out: Vec<u8> = Vec::new();
        push_slot_u256(&mut out, &self.pool_idx);
        let ghost g1 = out@;
        push_slot_bool(&mut out, self.is_buy);
        let ghost g2 = out@;
        push_slot_bool(&mut out, self.in_base_qty);
        let ghost g3 = out@;
        push_slot_u128(&mut out, self.qty);
        let ghost g4 = out@;
        push_slot_u128(&mut out, self.min_output);
        let ghost g5 = out@;
        push_slot_i128(&mut out, self.base_flow);
        let ghost g6 = out@;
        push_slot_i128(&mut out, self.quote_flow);
        proof {
            assert(out@.subrange(0, 32) =~= g1.subrange(0, 32));
            assert(out@[63] == g2[63]);
            assert(out@[95] == g3[95]);
            assert(out@.subrange(112, 128) =~= g4.subrange(112, 128));
            assert(out@.subrange(144, 160) =~= g5.subrange(144, 160));
            assert(out@.subrange(176, 192) =~= g6.subrange(176, 192));
            lemma_u256_of_as_nat(self.pool_idx);
        }
        out
    }

    /// Builds a log that decodes back to this record.  The signature topic
    /// is left zeroed: decoding never reads it.
    pub fn encode_log(&self) -> (r: Log)
        ensures
            spec_decode_swap(r) == Some(*self),
    {
        let mut topic0: Vec<u8> = Vec::new();
        crate::abi::push_zeros(&mut topic0, 32);
        let mut t_user: Vec<u8> = Vec::new();
        push_slot_address(&mut t_user, &self.user);
        let mut t_base: Vec<u8> = Vec::new();
        push_slot_address(&mut t_base, &self.base);
        let mut t_quote: Vec<u8> = Vec::new();
        push_slot_address(&mut t_quote, &self.quote);
        let data = self.encode_data();
        let topics: Vec<Vec<u8>> = vec![topic0, t_user, t_base, t_quote];
        let r = Log { topics, data, block_number: Some(self.block_height), log_index: Some(self.index) };
        proof {
            lemma_address_of_as_nat(self.user);
            lemma_address_of_as_nat(self.base);
            lemma_address_of_as_nat(self.quote);
        }
        r
    }
}

impl Default for SwapEvent {
    /// The all-zero record.
    fn default() -> (r: SwapEvent)
        ensures
            (r == SwapEvent {
                block_height: u256_zero(),
                index: u256_zero(),
                user: address_zero(),
                base: address_zero(),
                quote: address_zero(),
                pool_idx: u256_zero(),
                is_buy: false,
                in_base_qty: false,
                qty: 0,
                min_output: 0,
                base_flow: 0,
                quote_flow: 0,
            }),
    {
        SwapEvent {
            block_height: U256::zero(),
            index: U256::zero(),
            user: Address::zero(),
            base: Address::zero(),
            quote: Address::zero(),
            pool_idx: U256::zero(),
            is_buy: false,
            in_base_qty: false,
            qty: 0,
            min_output: 0,
            base_flow: 0,
            quote_flow: 0,
        }
    }
}

/// A MintRanged observation, as its log reports it.
#[derive(Clone, Copy, Debug, PartialEq, Eq, Structural, Hash)]
pub struct MintRangedEvent {
    pub block_height: U256,
    pub index: U256,
    pub user: Address,
    pub base: Address,
    pub quote: Address,
    pub pool_idx: U256,
    pub liq: u128,
    pub bid_tick: i32,
    pub ask_tick: i32,
    pub base_flow: i128,
    pub quote_flow: i128,
}

/// The unindexed payload of a MintRanged log.
#[derive(Clone, Copy, Debug, PartialEq, Eq, Structural, Hash)]
pub struct MintRangedBytes {
    pub pool_idx: U256,
    pub liq: u128,
    pub bid_tick: i32,
    pub ask_tick: i32,
    pub base_flow: i128,
    pub quote_flow: i128,
}

/// The meaning of a MintRanged payload: 6 32-byte slots.
pub open spec fn spec_mint_ranged_bytes(data: Seq<u8>) -> Option<MintRangedBytes> {
    if data.len() < 192 {
        None
    } else {
        Some(
            MintRangedBytes {
                pool_idx: spec_u256_of(be_val(data.subrange(0, 32))),
                liq: be_val(data.subrange(48, 64)) as u128,
                bid_tick: twos_complement(be_val(data.subrange(92, 96)), 32) as i32,
                ask_tick: twos_complement(be_val(data.subrange(124, 128)), 32) as i32,
                base_flow: twos_complement(be_val(data.subrange(144, 160)), 128) as i128,
                quote_flow: twos_complement(be_val(data.subrange(176, 192)), 128) as i128,
            },
        )
    }
}

/// The meaning of a whole MintRanged log.
pub open spec fn spec_decode_mint_ranged(log: Log) -> Option<MintRangedEvent> {
    let ob = spec_mint_ranged_bytes(log.data@);
    if !spec_topics_ok(log) || ob is None {
        None
    } else {
        Some(
            MintRangedEvent {
                block_height: log.block_number->0,
                index: spec_log_index(log),
                user: spec_topic_address(log, 1),
                base: spec_topic_address(log, 2),
                quote: spec_topic_address(log, 3),
                pool_idx: ob->0.pool_idx,
                liq: ob->0.liq,
                bid_tick: ob->0.bid_tick,
                ask_tick: ob->0.ask_tick,
                base_flow: ob->0.base_flow,
                quote_flow: ob->0.quote_flow,
            },
        )
    }
}

impl MintRangedEvent {
    /// Decodes every log of a batch, or reports the first bad one.
    pub fn from_logs(input: &Vec<Log>) -> (r: Result<Vec<MintRangedEvent>, IndexerError>)
        ensures
            r is Ok <==> (forall|i: int|
                0 <= i < input@.len() ==> spec_decode_mint_ranged(input@[i]) is Some),
            r matches Ok(es) ==> es@.len() == input@.len() && (forall|i: int|
                0 <= i < input@.len() ==> Some(es@[i]) == spec_decode_mint_ranged(input@[i])),
            r matches Err(e) ==> e is InvalidEventLog,
    {
        let mut res: Vec<MintRangedEvent> = Vec::new();
        let mut i: usize = 0;
        while i < input.len()
            invariant
                i <= input@.len(),
                res@.len() == i,
                forall|j: int| 0 <= j < i ==> Some(res@[j]) == spec_decode_mint_ranged(input@[j]),
            decreases input@.len() - i,
        {
            match MintRangedEvent::from_log(&input[i]) {
                Ok(e) => res.push(e),
                Err(e) => {
                    return Err(e);
                },
            }
            i += 1;
        }
        Ok(res)
    }

    /// Decodes one log: three indexed topics, then the payload.
    pub fn from_log(input: &Log) -> (r: Result<MintRangedEvent, IndexerError>)
        ensures
            r matches Ok(e) ==> spec_decode_mint_ranged(*input) == Some(e),
            r is Ok <==> spec_decode_mint_ranged(*input) is Some,
            r matches Err(e) ==> e is InvalidEventLog,
    {
        let (block_height, index) = match check_log_shape(input) {
            Ok(p) => p,
            Err(e) => {
                return Err(e);
            },
        };
        let user = topic_address(input, 1);
        let base = topic_address(input, 2);
        let quote = topic_address(input, 3);
        let b = match Self::decode_data_bytes(input.data.as_slice()) {
            Ok(b) => b,
            Err(e) => {
                return Err(e);
            },
        };
        Ok(
            MintRangedEvent {
                block_height,
                index,
                user,
                base,
                quote,
                pool_idx: b.pool_idx,
                liq: b.liq,
                bid_tick: b.bid_tick,
                ask_tick: b.ask_tick,
                base_flow: b.base_flow,
                quote_flow: b.quote_flow,
            },
        )
    }

    /// Decodes the payload slots of a MintRanged log.
    pub fn decode_data_bytes(input: &[u8]) -> (r: Result<MintRangedBytes, IndexerError>)
        ensures
            r matches Ok(b) ==> spec_mint_ranged_bytes(input@) == Some(b),
            r is Ok <==> spec_mint_ranged_bytes(input@) is Some,
            r matches Err(e) ==> e is InvalidEventLog,
    {
        if input.len() < 192 {
            return Err(IndexerError::InvalidEventLog("too short for MintRangedBytes".to_owned()));
        }
        let pool_idx = parse_uint256(input, 0);
        let liq = parse_u128(input, 32);
        let bid_tick = parse_i32(input, 64);
        let ask_tick = parse_i32(input, 96);
        let base_flow = parse_i128(input, 128);
        let quote_flow = parse_i128(input, 160);
        proof {
            lemma_u256_of_as_nat(pool_idx);
        }
        Ok(MintRangedBytes { pool_idx, liq, bid_tick, ask_tick, base_flow, quote_flow })
    }

    /// Builds the payload back from the record.
    pub fn encode_data(&self) -> (r: Vec<u8>)
        ensures
            spec_mint_ranged_bytes(r@) == Some(
                MintRangedBytes { pool_idx: self.pool_idx, liq: self.liq, bid_tick: self.bid_tick, ask_tick: self.ask_tick, base_flow: self.base_flow, quote_flow: self.quote_flow },
            ),
    {
        let mut out: Vec<u8> = Vec::new();
        push_slot_u256(&mut out, &self.pool_idx);
        let ghost g1 = out@;
        push_slot_u128(&mut out, self.liq);
        let ghost g2 = out@;
        push_slot_i32(&mut out, self.bid_tick);
        let ghost g3 = out@;
        push_slot_i32(&mut out, self.ask_tick);
        let ghost g4 = out@;
        push_slot_i128(&mut out, self.base_flow);
        let ghost g5 = out@;
        push_slot_i128(&mut out, self.quote_flow);
        proof {
            assert(out@.subrange(0, 32) =~= g1.subrange(0, 32));
            assert(out@.subrange(48, 64) =~= g2.subrange(48, 64));
            assert(out@.subrange(92, 96) =~= g3.subrange(92, 96));
            assert(out@.subrange(124, 128) =~= g4.subrange(124, 128));
            assert(out@.subrange(144, 160) =~= g5.subrange(144, 160));
            lemma_u256_of_as_nat(self.pool_idx);
        }
        out
    }

    /// Builds a log that decodes back to this record.  The signature topic
    /// is left zeroed: decoding never reads it.
    pub fn encode_log(&self) -> (r: Log)
        ensures
            spec_decode_mint_ranged(r) == Some(*self),
    {
        let mut topic0: Vec<u8> = Vec::new();
        crate::abi::push_zeros(&mut topic0, 32);
        let mut t_user: Vec<u8> = Vec::new();
        push_slot_address(&mut t_user, &self.user);
        let mut t_base: Vec<u8> = Vec::new();
        push_slot_address(&mut t_base, &self.base);
        let mut t_quote: Vec<u8> = Vec::new();
        push_slot_address(&mut t_quote, &self.quote);
        let data = self.encode_data();
        let topics: Vec<Vec<u8>> = vec![topic0, t_user, t_base, t_quote];
        let r = Log { topics, data, block_number: Some(self.block_height), log_index: Some(self.index) };
        proof {
            lemma_address_of_as_nat(self.user);
            lemma_address_of_as_nat(self.base);
            lemma_address_of_as_nat(self.quote);
        }
        r
    }
}

impl Default for MintRangedEvent {
    /// The all-zero record.
    fn default() -> (r: MintRangedEvent)
        ensures
            (r == MintRangedEvent {
                block_height: u256_zero(),
                index: u256_zero(),
                user: address_zero(),
                base: address_zero(),
                quote: address_zero(),
                pool_idx: u256_zero(),
                liq: 0,
                bid_tick: 0,
                ask_tick: 0,
                base_flow: 0,
                quote_flow: 0,
            }),
    {
        MintRangedEvent {
            block_height: U256::zero(),
            index: U256::zero(),
            user: Address::zero(),
            base: Address::zero(),
            quote: Address::zero(),
            pool_idx: U256::zero(),
            liq: 0,
            bid_tick: 0,
            ask_tick: 0,
            base_flow: 0,
            quote_flow: 0,
        }
    }
}

/// A BurnRanged observation, as its log reports it.
#[derive(Clone, Copy, Debug, PartialEq, Eq, Structural, Hash)]
pub struct BurnRangedEvent {
    pub block_height: U256,
    pub index: U256,
    pub user: Address,
    pub base: Address,
    pub quote: Address,
    pub pool_idx: U256,
    pub liq: u128,
    pub bid_tick: i32,
    pub ask_tick: i32,
    pub base_flow: i128,
    pub quote_flow: i128,
    pub rewards: u128,
}

/// The unindexed payload of a BurnRanged log.
#[derive(Clone, Copy, Debug, PartialEq, Eq, Structural, Hash)]
pub struct BurnRangedBytes {
    pub pool_idx: U256,
    pub liq: u128,
    pub bid_tick: i32,
    pub ask_tick: i32,
    pub base_flow: i128,
    pub quote_flow: i128,
}

/// The meaning of a BurnRanged payload: 6 32-byte slots.
pub open spec fn spec_burn_ranged_bytes(data: Seq<u8>) -> Option<BurnRangedBytes> {
    if data.len() < 192 {
        None
    } else {
        Some(
            BurnRangedBytes {
                pool_idx: spec_u256_of(be_val(data.subrange(0, 32))),
                liq: be_val(data.subrange(48, 64)) as u128,
                bid_tick: twos_complement(be_val(data.subrange(92, 96)), 32) as i32,
                ask_tick: twos_complement(be_val(data.subrange(124, 128)), 32) as i32,
                base_flow: twos_complement(be_val(data.subrange(144, 160)), 128) as i128,
                quote_flow: twos_complement(be_val(data.subrange(176, 192)), 128) as i128,
            },
        )
    }
}

/// The meaning of a whole BurnRanged log.
pub open spec fn spec_decode_burn_ranged(log: Log) -> Option<BurnRangedEvent> {
    let ob = spec_burn_ranged_bytes(log.data@);
    if !spec_topics_ok(log) || ob is None {
        None
    } else {
        Some(
            BurnRangedEvent {
                block_height: log.block_number->0,
                index: spec_log_index(log),
                user: spec_topic_address(log, 1),
                base: spec_topic_address(log, 2),
                quote: spec_topic_address(log, 3),
                pool_idx: ob->0.pool_idx,
                liq: ob->0.liq,
                bid_tick: ob->0.bid_tick,
                ask_tick: ob->0.ask_tick,
                base_flow: ob->0.base_flow,
                quote_flow: ob->0.quote_flow,
                rewards: 0,
            },
        )
    }
}

impl BurnRangedEvent {
    /// Decodes every log of a batch, or reports the first bad one.
    pub fn from_logs(input: &Vec<Log>) -> (r: Result<Vec<BurnRangedEvent>, IndexerError>)
        ensures
            r is Ok <==> (forall|i: int|
                0 <= i < input@.len() ==> spec_decode_burn_ranged(input@[i]) is Some),
            r matches Ok(es) ==> es@.len() == input@.len() && (forall|i: int|
                0 <= i < input@.len() ==> Some(es@[i]) == spec_decode_burn_ranged(input@[i])),
            r matches Err(e) ==> e is InvalidEventLog,
    {
        let mut res: Vec<BurnRangedEvent> = Vec::new();
        let mut i: usize = 0;
        while i < input.len()
            invariant
                i <= input@.len(),
                res@.len() == i,
                forall|j: int| 0 <= j < i ==> Some(res@[j]) == spec_decode_burn_ranged(input@[j]),
            decreases input@.len() - i,
        {
            match BurnRangedEvent::from_log(&input[i]) {
                Ok(e) => res.push(e),
                Err(e) => {
                    return Err(e);
                },
            }
            i += 1;
        }
        Ok(res)
    }

    /// Decodes one log: three indexed topics, then the payload.
    pub fn from_log(input: &Log) -> (r: Result<BurnRangedEvent, IndexerError>)
        ensures
            r matches Ok(e) ==> spec_decode_burn_ranged(*input) == Some(e),
            r is Ok <==> spec_decode_burn_ranged(*input) is Some,
            r matches Err(e) ==> e is InvalidEventLog,
    {
        let (block_height, index) = match check_log_shape(input) {
            Ok(p) => p,
            Err(e) => {
                return Err(e);
            },
        };
        let user = topic_address(input, 1);
        let base = topic_address(input, 2);
        let quote = topic_address(input, 3);
        let b = match Self::decode_data_bytes(input.data.as_slice()) {
            Ok(b) => b,
            Err(e) => {
                return Err(e);
            },
        };
        Ok(
            BurnRangedEvent {
                block_height,
                index,
                user,
                base,
                quote,
                pool_idx: b.pool_idx,
                liq: b.liq,
                bid_tick: b.bid_tick,
                ask_tick: b.ask_tick,
                base_flow: b.base_flow,
                quote_flow: b.quote_flow,
                rewards: 0,
            },
        )
    }

    /// Decodes the payload slots of a BurnRanged log.
    pub fn decode_data_bytes(input: &[u8]) -> (r: Result<BurnRangedBytes, IndexerError>)
        ensures
            r matches Ok(b) ==> spec_burn_ranged_bytes(input@) == Some(b),
            r is Ok <==> spec_burn_ranged_bytes(input@) is Some,
            r matches Err(e) ==> e is InvalidEventLog,
    {
        if input.len() < 192 {
            return Err(IndexerError::InvalidEventLog("too short for BurnRangedBytes".to_owned()));
        }
        let pool_idx = parse_uint256(input, 0);
        let liq = parse_u128(input, 32);
        let bid_tick = parse_i32(input, 64);
        let ask_tick = parse_i32(input, 96);
        let base_flow = parse_i128(input, 128);
        let quote_flow = parse_i128(input, 160);
        proof {
            lemma_u256_of_as_nat(pool_idx);
        }
        Ok(BurnRangedBytes { pool_idx, liq, bid_tick, ask_tick, base_flow, quote_flow })
    }

    /// Builds the payload back from the record.  The reward fields, which no payload slot carries, decode back as zero.
    pub fn encode_data(&self) -> (r: Vec<u8>)
        ensures
            spec_burn_ranged_bytes(r@) == Some(
                BurnRangedBytes { pool_idx: self.pool_idx, liq: self.liq, bid_tick: self.bid_tick, ask_tick: self.ask_tick, base_flow: self.base_flow, quote_flow: self.quote_flow },
            ),
    {
        let mut out: Vec<u8> = Vec::new();
        push_slot_u256(&mut out, &self.pool_idx);
        let ghost g1 = out@;
        push_slot_u128(&mut out, self.liq);
        let ghost g2 = out@;
        push_slot_i32(&mut out, self.bid_tick);
        let ghost g3 = out@;
        push_slot_i32(&mut out, self.ask_tick);
        let ghost g4 = out@;
        push_slot_i128(&mut out, self.base_flow);
        let ghost g5 = out@;
        push_slot_i128(&mut out, self.quote_flow);
        proof {
            assert(out@.subrange(0, 32) =~= g1.subrange(0, 32));
            assert(out@.subrange(48, 64) =~= g2.subrange(48, 64));
            assert(out@.subrange(92, 96) =~= g3.subrange(92, 96));
            assert(out@.subrange(124, 128) =~= g4.subrange(124, 128));
            assert(out@.subrange(144, 160) =~= g5.subrange(144, 160));
            lemma_u256_of_as_nat(self.pool_idx);
        }
        out
    }

    /// Builds a log that decodes back to this record.  The signature topic
    /// is left zeroed: decoding never reads it.  Records with nonzero
    /// reward fields come back with those fields zeroed.
    pub fn encode_log(&self) -> (r: Log)
        ensures
            spec_decode_burn_ranged(r) == Some(
                BurnRangedEvent {
                    block_height: self.block_height,
                    index: self.index,
                    user: self.user,
                    base: self.base,
                    quote: self.quote,
                    pool_idx: self.pool_idx,
                    liq: self.liq,
                    bid_tick: self.bid_tick,
                    ask_tick: self.ask_tick,
                    base_flow: self.base_flow,
                    quote_flow: self.quote_flow,
                    rewards: 0,
                },
            ),
    {
        let mut topic0: Vec<u8> = Vec::new();
        crate::abi::push_zeros(&mut topic0, 32);
        let mut t_user: Vec<u8> = Vec::new();
        push_slot_address(&mut t_user, &self.user);
        let mut t_base: Vec<u8> = Vec::new();
        push_slot_address(&mut t_base, &self.base);
        let mut t_quote: Vec<u8> = Vec::new();
        push_slot_address(&mut t_quote, &self.quote);
        let data = self.encode_data();
        let topics: Vec<Vec<u8>> = vec![topic0, t_user, t_base, t_quote];
        let r = Log { topics, data, block_number: Some(self.block_height), log_index: Some(self.index) };
        proof {
            lemma_address_of_as_nat(self.user);
            lemma_address_of_as_nat(self.base);
            lemma_address_of_as_nat(self.quote);
        }
        r
    }
}

impl Default for BurnRangedEvent {
    /// The all-zero record.
    fn default() -> (r: BurnRangedEvent)
        ensures
            (r == BurnRangedEvent {
                block_height: u256_zero(),
                index: u256_zero(),
                user: address_zero(),
                base: address_zero(),
                quote: address_zero(),
                pool_idx: u256_zero(),
                liq: 0,
                bid_tick: 0,
                ask_tick: 0,
                base_flow: 0,
                quote_flow: 0,
                rewards: 0,
            }),
    {
        BurnRangedEvent {
            block_height: U256::zero(),
            index: U256::zero(),
            user: Address::zero(),
            base: Address::zero(),
            quote: Address::zero(),
            pool_idx: U256::zero(),
            liq: 0,
            bid_tick: 0,
            ask_tick: 0,
            base_flow: 0,
            quote_flow: 0,
            rewards: 0,
        }
    }
}

/// A Harvest observation, as its log reports it.
#[derive(Clone, Copy, Debug, PartialEq, Eq, Structural, Hash)]
pub struct HarvestEvent {
    pub block_height: U256,
    pub index: U256,
    pub user: Address,
    pub base: Address,
    pub quote: Address,
    pub pool_idx: U256,
    pub bid_tick: i32,
    pub ask_tick: i32,
    pub base_flow: i128,
    pub quote_flow: i128,
    pub rewards: u128,
}

/// The unindexed payload of a Harvest log.
#[derive(Clone, Copy, Debug, PartialEq, Eq, Structural, Hash)]
pub struct HarvestBytes {
    pub pool_idx: U256,
    pub bid_tick: i32,
    pub ask_tick: i32,
    pub base_flow: i128,
    pub quote_flow: i128,
}

/// The meaning of a Harvest payload: 5 32-byte slots.
pub open spec fn spec_harvest_bytes(data: Seq<u8>) -> Option<HarvestBytes> {
    if data.len() < 160 {
        None
    } else {
        Some(
            HarvestBytes {
                pool_idx: spec_u256_of(be_val(data.subrange(0, 32))),
                bid_tick: twos_complement(be_val(data.subrange(60, 64)), 32) as i32,
                ask_tick: twos_complement(be_val(data.subrange(92, 96)), 32) as i32,
                base_flow: twos_complement(be_val(data.subrange(112, 128)), 128) as i128,
                quote_flow: twos_complement(be_val(data.subrange(144, 160)), 128) as i128,
            },
        )
    }
}

/// The meaning of a whole Harvest log.
pub open spec fn spec_decode_harvest(log: Log) -> Option<HarvestEvent> {
    let ob = spec_harvest_bytes(log.data@);
    if !spec_topics_ok(log) || ob is None {
        None
    } else {
        Some(
            HarvestEvent {
                block_height: log.block_number->0,
                index: spec_log_index(log),
                user: spec_topic_address(log, 1),
                base: spec_topic_address(log, 2),
                quote: spec_topic_address(log, 3),
                pool_idx: ob->0.pool_idx,
                bid_tick: ob->0.bid_tick,
                ask_tick: ob->0.ask_tick,
                base_flow: ob->0.base_flow,
                quote_flow: ob->0.quote_flow,
                rewards: 0,
            },
        )
    }
}

impl HarvestEvent {
    /// Decodes every log of a batch, or reports the first bad one.
    pub fn from_logs(input: &Vec<Log>) -> (r: Result<Vec<HarvestEvent>, IndexerError>)
        ensures
            r is Ok <==> (forall|i: int|
                0 <= i < input@.len() ==> spec_decode_harvest(input@[i]) is Some),
            r matches Ok(es) ==> es@.len() == input@.len() && (forall|i: int|
                0 <= i < input@.len() ==> Some(es@[i]) == spec_decode_harvest(input@[i])),
            r matches Err(e) ==> e is InvalidEventLog,
    {
        let mut res: Vec<HarvestEvent> = Vec::new();
        let mut i: usize = 0;
        while i < input.len()
            invariant
                i <= input@.len(),
                res@.len() == i,
                forall|j: int| 0 <= j < i ==> Some(res@[j]) == spec_decode_harvest(input@[j]),
            decreases input@.len() - i,
        {
            match HarvestEvent::from_log(&input[i]) {
                Ok(e) => res.push(e),
                Err(e) => {
                    return Err(e);
                },
            }
            i += 1;
        }
        Ok(res)
    }

    /// Decodes one log: three indexed topics, then the payload.
    pub fn from_log(input: &Log) -> (r: Result<HarvestEvent, IndexerError>)
        ensures
            r matches Ok(e) ==> spec_decode_harvest(*input) == Some(e),
            r is Ok <==> spec_decode_harvest(*input) is Some,
            r matches Err(e) ==> e is InvalidEventLog,
    {
        let (block_height, index) = match check_log_shape(input) {
            Ok(p) => p,
            Err(e) => {
                return Err(e);
            },
        };
        let user = topic_address(input, 1);
        let base = topic_address(input, 2);
        let quote = topic_address(input, 3);
        let b = match Self::decode_data_bytes(input.data.as_slice()) {
            Ok(b) => b,
            Err(e) => {
                return Err(e);
            },
        };
        Ok(
            HarvestEvent {
                block_height,
                index,
                user,
                base,
                quote,
                pool_idx: b.pool_idx,
                bid_tick: b.bid_tick,
                ask_tick: b.ask_tick,
                base_flow: b.base_flow,
                quote_flow: b.quote_flow,
                rewards: 0,
            },
        )
    }

    /// Decodes the payload slots of a Harvest log.
    pub fn decode_data_bytes(input: &[u8]) -> (r: Result<HarvestBytes, IndexerError>)
        ensures
            r matches Ok(b) ==> spec_harvest_bytes(input@) == Some(b),
            r is Ok <==> spec_harvest_bytes(input@) is Some,
            r matches Err(e) ==> e is InvalidEventLog,
    {
        if input.len() < 160 {
            return Err(IndexerError::InvalidEventLog("too short for HarvestBytes".to_owned()));
        }
        let pool_idx = parse_uint256(input, 0);
        let bid_tick = parse_i32(input, 32);
        let ask_tick = parse_i32(input, 64);
        let base_flow = parse_i128(input, 96);
        let quote_flow = parse_i128(input, 128);
        proof {
            lemma_u256_of_as_nat(pool_idx);
        }
        Ok(HarvestBytes { pool_idx, bid_tick, ask_tick, base_flow, quote_flow })
    }

    /// Builds the payload back from the record.  The reward fields, which no payload slot carries, decode back as zero.
    pub fn encode_data(&self) -> (r: Vec<u8>)
        ensures
            spec_harvest_bytes(r@) == Some(
                HarvestBytes { pool_idx: self.pool_idx, bid_tick: self.bid_tick, ask_tick: self.ask_tick, base_flow: self.base_flow, quote_flow: self.quote_flow },
            ),
    {
        let mut out: Vec<u8> = Vec::new();
        push_slot_u256(&mut out, &self.pool_idx);
        let ghost g1 = out@;
        push_slot_i32(&mut out, self.bid_tick);
        let ghost g2 = out@;
        push_slot_i32(&mut out, self.ask_tick);
        let ghost g3 = out@;
        push_slot_i128(&mut out, self.base_flow);
        let ghost g4 = out@;
        push_slot_i128(&mut out, self.quote_flow);
        proof {
            assert(out@.subrange(0, 32) =~= g1.subrange(0, 32));
            assert(out@.subrange(60, 64) =~= g2.subrange(60, 64));
            assert(out@.subrange(92, 96) =~= g3.subrange(92, 96));
            assert(out@.subrange(112, 128) =~= g4.subrange(112, 128));
            lemma_u256_of_as_nat(self.pool_idx);
        }
        out
    }

    /// Builds a log that decodes back to this record.  The signature topic
    /// is left zeroed: decoding never reads it.  Records with nonzero
    /// reward fields come back with those fields zeroed.
    pub fn encode_log(&self) -> (r: Log)
        ensures
            spec_decode_harvest(r) == Some(
                HarvestEvent {
                    block_height: self.block_height,
                    index: self.index,
                    user: self.user,
                    base: self.base,
                    quote: self.quote,
                    pool_idx: self.pool_idx,
                    bid_tick: self.bid_tick,
                    ask_tick: self.ask_tick,
                    base_flow: self.base_flow,
                    quote_flow: self.quote_flow,
                    rewards: 0,
                },
            ),
    {
        let mut topic0: Vec<u8> = Vec::new();
        crate::abi::push_zeros(&mut topic0, 32);
        let mut t_user: Vec<u8> = Vec::new();
        push_slot_address(&mut t_user, &self.user);
        let mut t_base: Vec<u8> = Vec::new();
        push_slot_address(&mut t_base, &self.base);
        let mut t_quote: Vec<u8> = Vec::new();
        push_slot_address(&mut t_quote, &self.quote);
        let data = self.encode_data();
        let topics: Vec<Vec<u8>> = vec![topic0, t_user, t_base, t_quote];
        let r = Log { topics, data, block_number: Some(self.block_height), log_index: Some(self.index) };
        proof {
            lemma_address_of_as_nat(self.user);
            lemma_address_of_as_nat(self.base);
            lemma_address_of_as_nat(self.quote);
        }
        r
    }
}

impl Default for HarvestEvent {
    /// The all-zero record.
    fn default() -> (r: HarvestEvent)
        ensures
            (r == HarvestEvent {
                block_height: u256_zero(),
                index: u256_zero(),
                user: address_zero(),
                base: address_zero(),
                quote: address_zero(),
                pool_idx: u256_zero(),
                bid_tick: 0,
                ask_tick: 0,
                base_flow: 0,
                quote_flow: 0,
                rewards: 0,
            }),
    {
        HarvestEvent {
            block_height: U256::zero(),
            index: U256::zero(),
            user: Address::zero(),
            base: Address::zero(),
            quote: Address::zero(),
            pool_idx: U256::zero(),
            bid_tick: 0,
            ask_tick: 0,
            base_flow: 0,
            quote_flow: 0,
            rewards: 0,
        }
    }
}

/// A MintAmbient observation, as its log reports it.
#[derive(Clone, Copy, Debug, PartialEq, Eq, Structural, Hash)]
pub struct MintAmbientEvent {
    pub block_height: U256,
    pub index: U256,
    pub user: Address,
    pub base: Address,
    pub quote: Address,
    pub pool_idx: U256,
    pub liq: u128,
    pub base_flow: i128,
    pub quote_flow: i128,
}

/// The unindexed payload of a MintAmbient log.
#[derive(Clone, Copy, Debug, PartialEq, Eq, Structural, Hash)]
pub struct MintAmbientBytes {
    pub pool_idx: U256,
    pub liq: u128,
    pub base_flow: i128,
    pub quote_flow: i128,
}

/// The meaning of a MintAmbient payload: 4 32-byte slots.
pub open spec fn spec_mint_ambient_bytes(data: Seq<u8>) -> Option<MintAmbientBytes> {
    if data.len() < 128 {
        None
    } else {
        Some(
            MintAmbientBytes {
                pool_idx: spec_u256_of(be_val(data.subrange(0, 32))),
                liq: be_val(data.subrange(48, 64)) as u128,
                base_flow: twos_complement(be_val(data.subrange(80, 96)), 128) as i128,
                quote_flow: twos_complement(be_val(data.subrange(112, 128)), 128) as i128,
            },
        )
    }
}

/// The meaning of a whole MintAmbient log.
pub open spec fn spec_decode_mint_ambient(log: Log) -> Option<MintAmbientEvent> {
    let ob = spec_mint_ambient_bytes(log.data@);
    if !spec_topics_ok(log) || ob is None {
        None
    } else {
        Some(
            MintAmbientEvent {
                block_height: log.block_number->0,
                index: spec_log_index(log),
                user: spec_topic_address(log, 1),
                base: spec_topic_address(log, 2),
                quote: spec_topic_address(log, 3),
                pool_idx: ob->0.pool_idx,
                liq: ob->0.liq,
                base_flow: ob->0.base_flow,
                quote_flow: ob->0.quote_flow,
            },
        )
    }
}

impl MintAmbientEvent {
    /// Decodes every log of a batch, or reports the first bad one.
    pub fn from_logs(input: &Vec<Log>) -> (r: Result<Vec<MintAmbientEvent>, IndexerError>)
        ensures
            r is Ok <==> (forall|i: int|
                0 <= i < input@.len() ==> spec_decode_mint_ambient(input@[i]) is Some),
            r matches Ok(es) ==> es@.len() == input@.len() && (forall|i: int|
                0 <= i < input@.len() ==> Some(es@[i]) == spec_decode_mint_ambient(input@[i])),
            r matches Err(e) ==> e is InvalidEventLog,
    {
        let mut res: Vec<MintAmbientEvent> = Vec::new();
        let mut i: usize = 0;
        while i < input.len()
            invariant
                i <= input@.len(),
                res@.len() == i,
                forall|j: int| 0 <= j < i ==> Some(res@[j]) == spec_decode_mint_ambient(input@[j]),
            decreases input@.len() - i,
        {
            match MintAmbientEvent::from_log(&input[i]) {
                Ok(e) => res.push(e),
                Err(e) => {
                    return Err(e);
                },
            }
            i += 1;
        }
        Ok(res)
    }

    /// Decodes one log: three indexed topics, then the payload.
    pub fn from_log(input: &Log) -> (r: Result<MintAmbientEvent, IndexerError>)
        ensures
            r matches Ok(e) ==> spec_decode_mint_ambient(*input) == Some(e),
            r is Ok <==> spec_decode_mint_ambient(*input) is Some,
            r matches Err(e) ==> e is InvalidEventLog,
    {
        let (block_height, index) = match check_log_shape(input) {
            Ok(p) => p,
            Err(e) => {
                return Err(e);
            },
        };
        let user = topic_address(input, 1);
        let base = topic_address(input, 2);
        let quote = topic_address(input, 3);
        let b = match Self::decode_data_bytes(input.data.as_slice()) {
            Ok(b) => b,
            Err(e) => {
                return Err(e);
            },
        };
        Ok(
            MintAmbientEvent {
                block_height,
                index,
                user,
                base,
                quote,
                pool_idx: b.pool_idx,
                liq: b.liq,
                base_flow: b.base_flow,
                quote_flow: b.quote_flow,
            },
        )
    }

    /// Decodes the payload slots of a MintAmbient log.
    pub fn decode_data_bytes(input: &[u8]) -> (r: Result<MintAmbientBytes, IndexerError>)
        ensures
            r matches Ok(b) ==> spec_mint_ambient_bytes(input@) == Some(b),
            r is Ok <==> spec_mint_ambient_bytes(input@) is Some,
            r matches Err(e) ==> e is InvalidEventLog,
    {
        if input.len() < 128 {
            return Err(IndexerError::InvalidEventLog("too short for MintAmbientBytes".to_owned()));
        }
        let pool_idx = parse_uint256(input, 0);
        let liq = parse_u128(input, 32);
        let base_flow = parse_i128(input, 64);
        let quote_flow = parse_i128(input, 96);
        proof {
            lemma_u256_of_as_nat(pool_idx);
        }
        Ok(MintAmbientBytes { pool_idx, liq, base_flow, quote_flow })
    }

    /// Builds the payload back from the record.
    pub fn encode_data(&self) -> (r: Vec<u8>)
        ensures
            spec_mint_ambient_bytes(r@) == Some(
                MintAmbientBytes { pool_idx: self.pool_idx, liq: self.liq, base_flow: self.base_flow, quote_flow: self.quote_flow },
            ),
    {
        let mut out: Vec<u8> = Vec::new();
        push_slot_u256(&mut out, &self.pool_idx);
        let ghost g1 = out@;
        push_slot_u128(&mut out, self.liq);
        let ghost g2 = out@;
        push_slot_i128(&mut out, self.base_flow);
        let ghost g3 = out@;
        push_slot_i128(&mut out, self.quote_flow);
        proof {
            assert(out@.subrange(0, 32) =~= g1.subrange(0, 32));
            assert(out@.subrange(48, 64) =~= g2.subrange(48, 64));
            assert(out@.subrange(80, 96) =~= g3.subrange(80, 96));
            lemma_u256_of_as_nat(self.pool_idx);
        }
        out
    }

    /// Builds a log that decodes back to this record.  The signature topic
    /// is left zeroed: decoding never reads it.
    pub fn encode_log(&self) -> (r: Log)
        ensures
            spec_decode_mint_ambient(r) == Some(*self),
    {
        let mut topic0: Vec<u8> = Vec::new();
        crate::abi::push_zeros(&mut topic0, 32);
        let mut t_user: Vec<u8> = Vec::new();
        push_slot_address(&mut t_user, &self.user);
        let mut t_base: Vec<u8> = Vec::new();
        push_slot_address(&mut t_base, &self.base);
        let mut t_quote: Vec<u8> = Vec::new();
        push_slot_address(&mut t_quote, &self.quote);
        let data = self.encode_data();
        let topics: Vec<Vec<u8>> = vec![topic0, t_user, t_base, t_quote];
        let r = Log { topics, data, block_number: Some(self.block_height), log_index: Some(self.index) };
        proof {
            lemma_address_of_as_nat(self.user);
            lemma_address_of_as_nat(self.base);
            lemma_address_of_as_nat(self.quote);
        }
        r
    }
}

impl Default for MintAmbientEvent {
    /// The all-zero record.
    fn default() -> (r: MintAmbientEvent)
        ensures
            (r == MintAmbientEvent {
                block_height: u256_zero(),
                index: u256_zero(),
                user: address_zero(),
                base: address_zero(),
                quote: address_zero(),
                pool_idx: u256_zero(),
                liq: 0,
                base_flow: 0,
                quote_flow: 0,
            }),
    {
        MintAmbientEvent {
            block_height: U256::zero(),
            index: U256::zero(),
            user: Address::zero(),
            base: Address::zero(),
            quote: Address::zero(),
            pool_idx: U256::zero(),
            liq: 0,
            base_flow: 0,
            quote_flow: 0,
        }
    }
}

/// A BurnAmbient observation, as its log reports it.
#[derive(Clone, Copy, Debug, PartialEq, Eq, Structural, Hash)]
pub struct BurnAmbientEvent {
    pub block_height: U256,
    pub index: U256,
    pub user: Address,
    pub base: Address,
    pub quote: Address,
    pub pool_idx: U256,
    pub liq: u128,
    pub base_flow: i128,
    pub quote_flow: i128,
}

/// The unindexed payload of a BurnAmbient log.
#[derive(Clone, Copy, Debug, PartialEq, Eq, Structural, Hash)]
pub struct BurnAmbientBytes {
    pub pool_idx: U256,
    pub liq: u128,
    pub base_flow: i128,
    pub quote_flow: i128,
}

/// The meaning of a BurnAmbient payload: 4 32-byte slots.
pub open spec fn spec_burn_ambient_bytes(data: Seq<u8>) -> Option<BurnAmbientBytes> {
    if data.len() < 128 {
        None
    } else {
        Some(
            BurnAmbientBytes {
                pool_idx: spec_u256_of(be_val(data.subrange(0, 32))),
                liq: be_val(data.subrange(48, 64)) as u128,
                base_flow: twos_complement(be_val(data.subrange(80, 96)), 128) as i128,
                quote_flow: twos_complement(be_val(data.subrange(112, 128)), 128) as i128,
            },
        )
    }
}

/// The meaning of a whole BurnAmbient log.
pub open spec fn spec_decode_burn_ambient(log: Log) -> Option<BurnAmbientEvent> {
    let ob = spec_burn_ambient_bytes(log.data@);
    if !spec_topics_ok(log) || ob is None {
        None
    } else {
        Some(
            BurnAmbientEvent {
                block_height: log.block_number->0,
                index: spec_log_index(log),
                user: spec_topic_address(log, 1),
                base: spec_topic_address(log, 2),
                quote: spec_topic_address(log, 3),
                pool_idx: ob->0.pool_idx,
                liq: ob->0.liq,
                base_flow: ob->0.base_flow,
                quote_flow: ob->0.quote_flow,
            },
        )
    }
}

impl BurnAmbientEvent {
    /// Decodes every log of a batch, or reports the first bad one.
    pub fn from_logs(input: &Vec<Log>) -> (r: Result<Vec<BurnAmbientEvent>, IndexerError>)
        ensures
            r is Ok <==> (forall|i: int|
                0 <= i < input@.len() ==> spec_decode_burn_ambient(input@[i]) is Some),
            r matches Ok(es) ==> es@.len() == input@.len() && (forall|i: int|
                0 <= i < input@.len() ==> Some(es@[i]) == spec_decode_burn_ambient(input@[i])),
            r matches Err(e) ==> e is InvalidEventLog,
    {
        let mut res: Vec<BurnAmbientEvent> = Vec::new();
        let mut i: usize = 0;
        while i < input.len()
            invariant
                i <= input@.len(),
                res@.len() == i,
                forall|j: int| 0 <= j < i ==> Some(res@[j]) == spec_decode_burn_ambient(input@[j]),
            decreases input@.len() - i,
        {
            match BurnAmbientEvent::from_log(&input[i]) {
                Ok(e) => res.push(e),
                Err(e) => {
                    return Err(e);
                },
            }
            i += 1;
        }
        Ok(res)
    }

    /// Decodes one log: three indexed topics, then the payload.
    pub fn from_log(input: &Log) -> (r: Result<BurnAmbientEvent, IndexerError>)
        ensures
            r matches Ok(e) ==> spec_decode_burn_ambient(*input) == Some(e),
            r is Ok <==> spec_decode_burn_ambient(*input) is Some,
            r matches Err(e) ==> e is InvalidEventLog,
    {
        let (block_height, index) = match check_log_shape(input) {
            Ok(p) => p,
            Err(e) => {
                return Err(e);
            },
        };
        let user = topic_address(input, 1);
        let base = topic_address(input, 2);
        let quote = topic_address(input, 3);
        let b = match Self::decode_data_bytes(input.data.as_slice()) {
            Ok(b) => b,
            Err(e) => {
                return Err(e);
            },
        };
        Ok(
            BurnAmbientEvent {
                block_height,
                index,
                user,
                base,
                quote,
                pool_idx: b.pool_idx,
                liq: b.liq,
                base_flow: b.base_flow,
                quote_flow: b.quote_flow,
            },
        )
    }

    /// Decodes the payload slots of a BurnAmbient log.
    pub fn decode_data_bytes(input: &[u8]) -> (r: Result<BurnAmbientBytes, IndexerError>)
        ensures
            r matches Ok(b) ==> spec_burn_ambient_bytes(input@) == Some(b),
            r is Ok <==> spec_burn_ambient_bytes(input@) is Some,
            r matches Err(e) ==> e is InvalidEventLog,
    {
        if input.len() < 128 {
            return Err(IndexerError::InvalidEventLog("too short for BurnAmbientBytes".to_owned()));
        }
        let pool_idx = parse_uint256(input, 0);
        let liq = parse_u128(input, 32);
        let base_flow = parse_i128(input, 64);
        let quote_flow = parse_i128(input, 96);
        proof {
            lemma_u256_of_as_nat(pool_idx);
        }
        Ok(BurnAmbientBytes { pool_idx, liq, base_flow, quote_flow })
    }

    /// Builds the payload back from the record.
    pub fn encode_data(&self) -> (r: Vec<u8>)
        ensures
            spec_burn_ambient_bytes(r@) == Some(
                BurnAmbientBytes { pool_idx: self.pool_idx, liq: self.liq, base_flow: self.base_flow, quote_flow: self.quote_flow },
            ),
    {
        let mut out: Vec<u8> = Vec::new();
        push_slot_u256(&mut out, &self.pool_idx);
        let ghost g1 = out@;
        push_slot_u128(&mut out, self.liq);
        let ghost g2 = out@;
        push_slot_i128(&mut out, self.base_flow);
        let ghost g3 = out@;
        push_slot_i128(&mut out, self.quote_flow);
        proof {
            assert(out@.subrange(0, 32) =~= g1.subrange(0, 32));
            assert(out@.subrange(48, 64) =~= g2.subrange(48, 64));
            assert(out@.subrange(80, 96) =~= g3.subrange(80, 96));
            lemma_u256_of_as_nat(self.pool_idx);
        }
        out
    }

    /// Builds a log that decodes back to this record.  The signature topic
    /// is left zeroed: decoding never reads it.
    pub fn encode_log(&self) -> (r: Log)
        ensures
            spec_decode_burn_ambient(r) == Some(*self),
    {
        let mut topic0: Vec<u8> = Vec::new();
        crate::abi::push_zeros(&mut topic0, 32);
        let mut t_user: Vec<u8> = Vec::new();
        push_slot_address(&mut t_user, &self.user);
        let mut t_base: Vec<u8> = Vec::new();
        push_slot_address(&mut t_base, &self.base);
        let mut t_quote: Vec<u8> = Vec::new();
        push_slot_address(&mut t_quote, &self.quote);
        let data = self.encode_data();
        let topics: Vec<Vec<u8>> = vec![topic0, t_user, t_base, t_quote];
        let r = Log { topics, data, block_number: Some(self.block_height), log_index: Some(self.index) };
        proof {
            lemma_address_of_as_nat(self.user);
            lemma_address_of_as_nat(self.base);
            lemma_address_of_as_nat(self.quote);
        }
        r
    }
}

impl Default for BurnAmbientEvent {
    /// The all-zero record.
    fn default() -> (r: BurnAmbientEvent)
        ensures
            (r == BurnAmbientEvent {
                block_height: u256_zero(),
                index: u256_zero(),
                user: address_zero(),
                base: address_zero(),
                quote: address_zero(),
                pool_idx: u256_zero(),
                liq: 0,
                base_flow: 0,
                quote_flow: 0,
            }),
    {
        BurnAmbientEvent {
            block_height: U256::zero(),
            index: U256::zero(),
            user: Address::zero(),
            base: Address::zero(),
            quote: Address::zero(),
            pool_idx: U256::zero(),
            liq: 0,
            base_flow: 0,
            quote_flow: 0,
        }
    }
}

/// A MintKnockout observation, as its log reports it.
#[derive(Clone, Copy, Debug, PartialEq, Eq, Structural, Hash)]
pub struct MintKnockoutEvent {
    pub block_height: U256,
    pub user: Address,
    pub base: Address,
    pub quote: Address,
    pub pool_idx: U256,
    pub base_flow: i128,
    pub quote_flow: i128,
    pub is_bid: bool,
    pub lower_tick: i32,
    pub upper_tick: i32,
}

/// The unindexed payload of a MintKnockout log.
#[derive(Clone, Copy, Debug, PartialEq, Eq, Structural, Hash)]
pub struct MintKnockoutBytes {
    pub pool_idx: U256,
    pub base_flow: i128,
    pub quote_flow: i128,
    pub is_bid: bool,
    pub lower_tick: i32,
    pub upper_tick: i32,
}

/// The meaning of a MintKnockout payload: 6 32-byte slots.
pub open spec fn spec_mint_knockout_bytes(data: Seq<u8>) -> Option<MintKnockoutBytes> {
    if data.len() < 192 {
        None
    } else {
        Some(
            MintKnockoutBytes {
                pool_idx: spec_u256_of(be_val(data.subrange(0, 32))),
                base_flow: twos_complement(be_val(data.subrange(48, 64)), 128) as i128,
                quote_flow: twos_complement(be_val(data.subrange(80, 96)), 128) as i128,
                is_bid: (data[127] != 0),
                lower_tick: twos_complement(be_val(data.subrange(156, 160)), 32) as i32,
                upper_tick: twos_complement(be_val(data.subrange(188, 192)), 32) as i32,
            },
        )
    }
}

/// The meaning of a whole MintKnockout log.
pub open spec fn spec_decode_mint_knockout(log: Log) -> Option<MintKnockoutEvent> {
    let ob = spec_mint_knockout_bytes(log.data@);
    if !spec_topics_ok(log) || ob is None {
        None
    } else {
        Some(
            MintKnockoutEvent {
                block_height: log.block_number->0,
                user: spec_topic_address(log, 1),
                base: spec_topic_address(log, 2),
                quote: spec_topic_address(log, 3),
                pool_idx: ob->0.pool_idx,
                base_flow: ob->0.base_flow,
                quote_flow: ob->0.quote_flow,
                is_bid: ob->0.is_bid,
                lower_tick: ob->0.lower_tick,
                upper_tick: ob->0.upper_tick,
            },
        )
    }
}

impl MintKnockoutEvent {
    /// Decodes every log of a batch, or reports the first bad one.
    pub fn from_logs(input: &Vec<Log>) -> (r: Result<Vec<MintKnockoutEvent>, IndexerError>)
        ensures
            r is Ok <==> (forall|i: int|
                0 <= i < input@.len() ==> spec_decode_mint_knockout(input@[i]) is Some),
            r matches Ok(es) ==> es@.len() == input@.len() && (forall|i: int|
                0 <= i < input@.len() ==> Some(es@[i]) == spec_decode_mint_knockout(input@[i])),
            r matches Err(e) ==> e is InvalidEventLog,
    {
        let mut res: Vec<MintKnockoutEvent> = Vec::new();
        let mut i: usize = 0;
        while i < input.len()
            invariant
                i <= input@.len(),
                res@.len() == i,
                forall|j: int| 0 <= j < i ==> Some(res@[j]) == spec_decode_mint_knockout(input@[j]),
            decreases input@.len() - i,
        {
            match MintKnockoutEvent::from_log(&input[i]) {
                Ok(e) => res.push(e),
                Err(e) => {
                    return Err(e);
                },
            }
            i += 1;
        }
        Ok(res)
    }

    /// Decodes one log: three indexed topics, then the payload.
    pub fn from_log(input: &Log) -> (r: Result<MintKnockoutEvent, IndexerError>)
        ensures
            r matches Ok(e) ==> spec_decode_mint_knockout(*input) == Some(e),
            r is Ok <==> spec_decode_mint_knockout(*input) is Some,
            r matches Err(e) ==> e is InvalidEventLog,
    {
        let (block_height, _index) = match check_log_shape(input) {
            Ok(p) => p,
            Err(e) => {
                return Err(e);
            },
        };
        let user = topic_address(input, 1);
        let base = topic_address(input, 2);
        let quote = topic_address(input, 3);
        let b = match Self::decode_data_bytes(input.data.as_slice()) {
            Ok(b) => b,
            Err(e) => {
                return Err(e);
            },
        };
        Ok(
            MintKnockoutEvent {
                block_height,
                user,
                base,
                quote,
                pool_idx: b.pool_idx,
                base_flow: b.base_flow,
                quote_flow: b.quote_flow,
                is_bid: b.is_bid,
                lower_tick: b.lower_tick,
                upper_tick: b.upper_tick,
            },
        )
    }

    /// Decodes the payload slots of a MintKnockout log.
    pub fn decode_data_bytes(input: &[u8]) -> (r: Result<MintKnockoutBytes, IndexerError>)
        ensures
            r matches Ok(b) ==> spec_mint_knockout_bytes(input@) == Some(b),
            r is Ok <==> spec_mint_knockout_bytes(input@) is Some,
            r matches Err(e) ==> e is InvalidEventLog,
    {
        if input.len() < 192 {
            return Err(IndexerError::InvalidEventLog("too short for MintKnockoutBytes".to_owned()));
        }
        let pool_idx = parse_uint256(input, 0);
        let base_flow = parse_i128(input, 32);
        let quote_flow = parse_i128(input, 64);
        let is_bid = parse_bool(input, 96);
        let lower_tick = parse_i32(input, 128);
        let upper_tick = parse_i32(input, 160);
        proof {
            lemma_u256_of_as_nat(pool_idx);
        }
        Ok(MintKnockoutBytes { pool_idx, base_flow, quote_flow, is_bid, lower_tick, upper_tick })
    }

    /// Builds the payload back from the record.
    pub fn encode_data(&self) -> (r: Vec<u8>)
        ensures
            spec_mint_knockout_bytes(r@) == Some(
                MintKnockoutBytes { pool_idx: self.pool_idx, base_flow: self.base_flow, quote_flow: self.quote_flow, is_bid: self.is_bid, lower_tick: self.lower_tick, upper_tick: self.upper_tick },
            ),
    {
        let mut out: Vec<u8> = Vec::new();
        push_slot_u256(&mut out, &self.pool_idx);
        let ghost g1 = out@;
        push_slot_i128(&mut out, self.base_flow);
        let ghost g2 = out@;
        push_slot_i128(&mut out, self.quote_flow);
        let ghost g3 = out@;
        push_slot_bool(&mut out, self.is_bid);
        let ghost g4 = out@;
        push_slot_i32(&mut out, self.lower_tick);
        let ghost g5 = out@;
        push_slot_i32(&mut out, self.upper_tick);
        proof {
            assert(out@.subrange(0, 32) =~= g1.subrange(0, 32));
            assert(out@.subrange(48, 64) =~= g2.subrange(48, 64));
            assert(out@.subrange(80, 96) =~= g3.subrange(80, 96));
            assert(out@[127] == g4[127]);
            assert(out@.subrange(156, 160) =~= g5.subrange(156, 160));
            lemma_u256_of_as_nat(self.pool_idx);
        }
        out
    }

    /// Builds a log that decodes back to this record.  The signature topic
    /// is left zeroed: decoding never reads it.
    pub fn encode_log(&self) -> (r: Log)
        ensures
            spec_decode_mint_knockout(r) == Some(*self),
    {
        let mut topic0: Vec<u8> = Vec::new();
        crate::abi::push_zeros(&mut topic0, 32);
        let mut t_user: Vec<u8> = Vec::new();
        push_slot_address(&mut t_user, &self.user);
        let mut t_base: Vec<u8> = Vec::new();
        push_slot_address(&mut t_base, &self.base);
        let mut t_quote: Vec<u8> = Vec::new();
        push_slot_address(&mut t_quote, &self.quote);
        let data = self.encode_data();
        let topics: Vec<Vec<u8>> = vec![topic0, t_user, t_base, t_quote];
        let r = Log { topics, data, block_number: Some(self.block_height), log_index: None };
        proof {
            lemma_address_of_as_nat(self.user);
            lemma_address_of_as_nat(self.base);
            lemma_address_of_as_nat(self.quote);
        }
        r
    }
}

impl Default for MintKnockoutEvent {
    /// The all-zero record.
    fn default() -> (r: MintKnockoutEvent)
        ensures
            (r == MintKnockoutEvent {
                block_height: u256_zero(),
                user: address_zero(),
                base: address_zero(),
                quote: address_zero(),
                pool_idx: u256_zero(),
                base_flow: 0,
                quote_flow: 0,
                is_bid: false,
                lower_tick: 0,
                upper_tick: 0,
            }),
    {
        MintKnockoutEvent {
            block_height: U256::zero(),
            user: Address::zero(),
            base: Address::zero(),
            quote: Address::zero(),
            pool_idx: U256::zero(),
            base_flow: 0,
            quote_flow: 0,
            is_bid: false,
            lower_tick: 0,
            upper_tick: 0,
        }
    }
}

/// A BurnKnockout observation, as its log reports it.
///
/// The burn payload mirrors the mint payload's six slots, including the
/// protected side: a burn names the side whose knockout bookkeeping it
/// cancels, so the reducer can clear the matching bid or ask state.
#[derive(Clone, Copy, Debug, PartialEq, Eq, Structural, Hash)]
pub struct BurnKnockoutEvent {
    pub block_height: U256,
    pub user: Address,
    pub base: Address,
    pub quote: Address,
    pub pool_idx: U256,
    pub base_flow: i128,
    pub quote_flow: i128,
    pub is_bid: bool,
    pub lower_tick: i32,
    pub upper_tick: i32,
}

/// The unindexed payload of a BurnKnockout log.
#[derive(Clone, Copy, Debug, PartialEq, Eq, Structural, Hash)]
pub struct BurnKnockoutBytes {
    pub pool_idx: U256,
    pub base_flow: i128,
    pub quote_flow: i128,
    pub is_bid: bool,
    pub lower_tick: i32,
    pub upper_tick: i32,
}

/// The meaning of a BurnKnockout payload: 6 32-byte slots.
pub open spec fn spec_burn_knockout_bytes(data: Seq<u8>) -> Option<BurnKnockoutBytes> {
    if data.len() < 192 {
        None
    } else {
        Some(
            BurnKnockoutBytes {
                pool_idx: spec_u256_of(be_val(data.subrange(0, 32))),
                base_flow: twos_complement(be_val(data.subrange(48, 64)), 128) as i128,
                quote_flow: twos_complement(be_val(data.subrange(80, 96)), 128) as i128,
                is_bid: (data[127] != 0),
                lower_tick: twos_complement(be_val(data.subrange(156, 160)), 32) as i32,
                upper_tick: twos_complement(be_val(data.subrange(188, 192)), 32) as i32,
            },
        )
    }
}

/// The meaning of a whole BurnKnockout log.
pub open spec fn spec_decode_burn_knockout(log: Log) -> Option<BurnKnockoutEvent> {
    let ob = spec_burn_knockout_bytes(log.data@);
    if !spec_topics_ok(log) || ob is None {
        None
    } else {
        Some(
            BurnKnockoutEvent {
                block_height: log.block_number->0,
                user: spec_topic_address(log, 1),
                base: spec_topic_address(log, 2),
                quote: spec_topic_address(log, 3),
                pool_idx: ob->0.pool_idx,
                base_flow: ob->0.base_flow,
                quote_flow: ob->0.quote_flow,
                is_bid: ob->0.is_bid,
                lower_tick: ob->0.lower_tick,
                upper_tick: ob->0.upper_tick,
            },
        )
    }
}

impl BurnKnockoutEvent {
    /// Decodes every log of a batch, or reports the first bad one.
    pub fn from_logs(input: &Vec<Log>) -> (r: Result<Vec<BurnKnockoutEvent>, IndexerError>)
        ensures
            r is Ok <==> (forall|i: int|
                0 <= i < input@.len() ==> spec_decode_burn_knockout(input@[i]) is Some),
            r matches Ok(es) ==> es@.len() == input@.len() && (forall|i: int|
                0 <= i < input@.len() ==> Some(es@[i]) == spec_decode_burn_knockout(input@[i])),
            r matches Err(e) ==> e is InvalidEventLog,
    {
        let mut res: Vec<BurnKnockoutEvent> = Vec::new();
        let mut i: usize = 0;
        while i < input.len()
            invariant
                i <= input@.len(),
                res@.len() == i,
                forall|j: int| 0 <= j < i ==> Some(res@[j]) == spec_decode_burn_knockout(input@[j]),
            decreases input@.len() - i,
        {
            match BurnKnockoutEvent::from_log(&input[i]) {
                Ok(e) => res.push(e),
                Err(e) => {
                    return Err(e);
                },
            }
            i += 1;
        }
        Ok(res)
    }

    /// Decodes one log: three indexed topics, then the payload.
    pub fn from_log(input: &Log) -> (r: Result<BurnKnockoutEvent, IndexerError>)
        ensures
            r matches Ok(e) ==> spec_decode_burn_knockout(*input) == Some(e),
            r is Ok <==> spec_decode_burn_knockout(*input) is Some,
            r matches Err(e) ==> e is InvalidEventLog,
    {
        let (block_height, _index) = match check_log_shape(input) {
            Ok(p) => p,
            Err(e) => {
                return Err(e);
            },
        };
        let user = topic_address(input, 1);
        let base = topic_address(input, 2);
        let quote = topic_address(input, 3);
        let b = match Self::decode_data_bytes(input.data.as_slice()) {
            Ok(b) => b,
            Err(e) => {
                return Err(e);
            },
        };
        Ok(
            BurnKnockoutEvent {
                block_height,
                user,
                base,
                quote,
                pool_idx: b.pool_idx,
                base_flow: b.base_flow,
                quote_flow: b.quote_flow,
                is_bid: b.is_bid,
                lower_tick: b.lower_tick,
                upper_tick: b.upper_tick,
            },
        )
    }

    /// Decodes the payload slots of a BurnKnockout log.
    pub fn decode_data_bytes(input: &[u8]) -> (r: Result<BurnKnockoutBytes, IndexerError>)
        ensures
            r matches Ok(b) ==> spec_burn_knockout_bytes(input@) == Some(b),
            r is Ok <==> spec_burn_knockout_bytes(input@) is Some,
            r matches Err(e) ==> e is InvalidEventLog,
    {
        if input.len() < 192 {
            return Err(IndexerError::InvalidEventLog("too short for BurnKnockoutBytes".to_owned()));
        }
        let pool_idx = parse_uint256(input, 0);
        let base_flow = parse_i128(input, 32);
        let quote_flow = parse_i128(input, 64);
        let is_bid = parse_bool(input, 96);
        let lower_tick = parse_i32(input, 128);
        let upper_tick = parse_i32(input, 160);
        proof {
            lemma_u256_of_as_nat(pool_idx);
        }
        Ok(BurnKnockoutBytes { pool_idx, base_flow, quote_flow, is_bid, lower_tick, upper_tick })
    }

    /// Builds the payload back from the record.
    pub fn encode_data(&self) -> (r: Vec<u8>)
        ensures
            spec_burn_knockout_bytes(r@) == Some(
                BurnKnockoutBytes { pool_idx: self.pool_idx, base_flow: self.base_flow, quote_flow: self.quote_flow, is_bid: self.is_bid, lower_tick: self.lower_tick, upper_tick: self.upper_tick },
            ),
    {
        let mut out: Vec<u8> = Vec::new();
        push_slot_u256(&mut out, &self.pool_idx);
        let ghost g1 = out@;
        push_slot_i128(&mut out, self.base_flow);
        let ghost g2 = out@;
        push_slot_i128(&mut out, self.quote_flow);
        let ghost g3 = out@;
        push_slot_bool(&mut out, self.is_bid);
        let ghost g4 = out@;
        push_slot_i32(&mut out, self.lower_tick);
        let ghost g5 = out@;
        push_slot_i32(&mut out, self.upper_tick);
        proof {
            assert(out@.subrange(0, 32) =~= g1.subrange(0, 32));
            assert(out@.subrange(48, 64) =~= g2.subrange(48, 64));
            assert(out@.subrange(80, 96) =~= g3.subrange(80, 96));
            assert(out@[127] == g4[127]);
            assert(out@.subrange(156, 160) =~= g5.subrange(156, 160));
            lemma_u256_of_as_nat(self.pool_idx);
        }
        out
    }

    /// Builds a log that decodes back to this record.  The signature topic
    /// is left zeroed: decoding never reads it.
    pub fn encode_log(&self) -> (r: Log)
        ensures
            spec_decode_burn_knockout(r) == Some(*self),
    {
        let mut topic0: Vec<u8> = Vec::new();
        crate::abi::push_zeros(&mut topic0, 32);
        let mut t_user: Vec<u8> = Vec::new();
        push_slot_address(&mut t_user, &self.user);
        let mut t_base: Vec<u8> = Vec::new();
        push_slot_address(&mut t_base, &self.base);
        let mut t_quote: Vec<u8> = Vec::new();
        push_slot_address(&mut t_quote, &self.quote);
        let data = self.encode_data();
        let topics: Vec<Vec<u8>> = vec![topic0, t_user, t_base, t_quote];
        let r = Log { topics, data, block_number: Some(self.block_height), log_index: None };
        proof {
            lemma_address_of_as_nat(self.user);
            lemma_address_of_as_nat(self.base);
            lemma_address_of_as_nat(self.quote);
        }
        r
    }
}

impl Default for BurnKnockoutEvent {
    /// The all-zero record.
    fn default() -> (r: BurnKnockoutEvent)
        ensures
            (r == BurnKnockoutEvent {
                block_height: u256_zero(),
                user: address_zero(),
                base: address_zero(),
                quote: address_zero(),
                pool_idx: u256_zero(),
                base_flow: 0,
                quote_flow: 0,
                is_bid: false,
                lower_tick: 0,
                upper_tick: 0,
            }),
    {
        BurnKnockoutEvent {
            block_height: U256::zero(),
            user: Address::zero(),
            base: Address::zero(),
            quote: Address::zero(),
            pool_idx: U256::zero(),
            base_flow: 0,
            quote_flow: 0,
            is_bid: false,
            lower_tick: 0,
            upper_tick: 0,
        }
    }
}

/// A WithdrawKnockout observation, as its log reports it.
#[derive(Clone, Copy, Debug, PartialEq, Eq, Structural, Hash)]
pub struct WithdrawKnockoutEvent {
    pub block_height: U256,
    pub user: Address,
    pub base: Address,
    pub quote: Address,
    pub pool_idx: U256,
    pub base_flow: i128,
    pub quote_flow: i128,
    pub lower_tick: i32,
    pub upper_tick: i32,
    pub fee_rewards: u128,
}

/// The unindexed payload of a WithdrawKnockout log.
#[derive(Clone, Copy, Debug, PartialEq, Eq, Structural, Hash)]
pub struct WithdrawKnockoutBytes {
    pub pool_idx: U256,
    pub base_flow: i128,
    pub quote_flow: i128,
    pub lower_tick: i32,
    pub upper_tick: i32,
    pub fee_rewards: u128,
}

/// The meaning of a WithdrawKnockout payload: 6 32-byte slots.
pub open spec fn spec_withdraw_knockout_bytes(data: Seq<u8>) -> Option<WithdrawKnockoutBytes> {
    if data.len() < 192 {
        None
    } else {
        Some(
            WithdrawKnockoutBytes {
                pool_idx: spec_u256_of(be_val(data.subrange(0, 32))),
                base_flow: twos_complement(be_val(data.subrange(48, 64)), 128) as i128,
                quote_flow: twos_complement(be_val(data.subrange(80, 96)), 128) as i128,
                lower_tick: twos_complement(be_val(data.subrange(124, 128)), 32) as i32,
                upper_tick: twos_complement(be_val(data.subrange(156, 160)), 32) as i32,
                fee_rewards: be_val(data.subrange(176, 192)) as u128,
            },
        )
    }
}

/// The meaning of a whole WithdrawKnockout log.
pub open spec fn spec_decode_withdraw_knockout(log: Log) -> Option<WithdrawKnockoutEvent> {
    let ob = spec_withdraw_knockout_bytes(log.data@);
    if !spec_topics_ok(log) || ob is None {
        None
    } else {
        Some(
            WithdrawKnockoutEvent {
                block_height: log.block_number->0,
                user: spec_topic_address(log, 1),
                base: spec_topic_address(log, 2),
                quote: spec_topic_address(log, 3),
                pool_idx: ob->0.pool_idx,
                base_flow: ob->0.base_flow,
                quote_flow: ob->0.quote_flow,
                lower_tick: ob->0.lower_tick,
                upper_tick: ob->0.upper_tick,
                fee_rewards: ob->0.fee_rewards,
            },
        )
    }
}

impl WithdrawKnockoutEvent {
    /// Decodes every log of a batch, or reports the first bad one.
    pub fn from_logs(input: &Vec<Log>) -> (r: Result<Vec<WithdrawKnockoutEvent>, IndexerError>)
        ensures
            r is Ok <==> (forall|i: int|
                0 <= i < input@.len() ==> spec_decode_withdraw_knockout(input@[i]) is Some),
            r matches Ok(es) ==> es@.len() == input@.len() && (forall|i: int|
                0 <= i < input@.len() ==> Some(es@[i]) == spec_decode_withdraw_knockout(input@[i])),
            r matches Err(e) ==> e is InvalidEventLog,
    {
        let mut res: Vec<WithdrawKnockoutEvent> = Vec::new();
        let mut i: usize = 0;
        while i < input.len()
            invariant
                i <= input@.len(),
                res@.len() == i,
                forall|j: int| 0 <= j < i ==> Some(res@[j]) == spec_decode_withdraw_knockout(input@[j]),
            decreases input@.len() - i,
        {
            match WithdrawKnockoutEvent::from_log(&input[i]) {
                Ok(e) => res.push(e),
                Err(e) => {
                    return Err(e);
                },
            }
            i += 1;
        }
        Ok(res)
    }

    /// Decodes one log: three indexed topics, then the payload.
    pub fn from_log(input: &Log) -> (r: Result<WithdrawKnockoutEvent, IndexerError>)
        ensures
            r matches Ok(e) ==> spec_decode_withdraw_knockout(*input) == Some(e),
            r is Ok <==> spec_decode_withdraw_knockout(*input) is Some,
            r matches Err(e) ==> e is InvalidEventLog,
    {
        let (block_height, _index) = match check_log_shape(input) {
            Ok(p) => p,
            Err(e) => {
                return Err(e);
            },
        };
        let user = topic_address(input, 1);
        let base = topic_address(input, 2);
        let quote = topic_address(input, 3);
        let b = match Self::decode_data_bytes(input.data.as_slice()) {
            Ok(b) => b,
            Err(e) => {
                return Err(e);
            },
        };
        Ok(
            WithdrawKnockoutEvent {
                block_height,
                user,
                base,
                quote,
                pool_idx: b.pool_idx,
                base_flow: b.base_flow,
                quote_flow: b.quote_flow,
                lower_tick: b.lower_tick,
                upper_tick: b.upper_tick,
                fee_rewards: b.fee_rewards,
            },
        )
    }

    /// Decodes the payload slots of a WithdrawKnockout log.
    pub fn decode_data_bytes(input: &[u8]) -> (r: Result<WithdrawKnockoutBytes, IndexerError>)
        ensures
            r matches Ok(b) ==> spec_withdraw_knockout_bytes(input@) == Some(b),
            r is Ok <==> spec_withdraw_knockout_bytes(input@) is Some,
            r matches Err(e) ==> e is InvalidEventLog,
    {
        if input.len() < 192 {
            return Err(IndexerError::InvalidEventLog("too short for WithdrawKnockoutBytes".to_owned()));
        }
        let pool_idx = parse_uint256(input, 0);
        let base_flow = parse_i128(input, 32);
        let quote_flow = parse_i128(input, 64);
        let lower_tick = parse_i32(input, 96);
        let upper_tick = parse_i32(input, 128);
        let fee_rewards = parse_u128(input, 160);
        proof {
            lemma_u256_of_as_nat(pool_idx);
        }
        Ok(WithdrawKnockoutBytes { pool_idx, base_flow, quote_flow, lower_tick, upper_tick, fee_rewards })
    }

    /// Builds the payload back from the record.
    pub fn encode_data(&self) -> (r: Vec<u8>)
        ensures
            spec_withdraw_knockout_bytes(r@) == Some(
                WithdrawKnockoutBytes { pool_idx: self.pool_idx, base_flow: self.base_flow, quote_flow: self.quote_flow, lower_tick: self.lower_tick, upper_tick: self.upper_tick, fee_rewards: self.fee_rewards },
            ),
    {
        let mut out: Vec<u8> = Vec::new();
        push_slot_u256(&mut out, &self.pool_idx);
        let ghost g1 = out@;
        push_slot_i128(&mut out, self.base_flow);
        let ghost g2 = out@;
        push_slot_i128(&mut out, self.quote_flow);
        let ghost g3 = out@;
        push_slot_i32(&mut out, self.lower_tick);
        let ghost g4 = out@;
        push_slot_i32(&mut out, self.upper_tick);
        let ghost g5 = out@;
        push_slot_u128(&mut out, self.fee_rewards);
        proof {
            assert(out@.subrange(0, 32) =~= g1.subrange(0, 32));
            assert(out@.subrange(48, 64) =~= g2.subrange(48, 64));
            assert(out@.subrange(80, 96) =~= g3.subrange(80, 96));
            assert(out@.subrange(124, 128) =~= g4.subrange(124, 128));
            assert(out@.subrange(156, 160) =~= g5.subrange(156, 160));
            lemma_u256_of_as_nat(self.pool_idx);
        }
        out
    }

    /// Builds a log that decodes back to this record.  The signature topic
    /// is left zeroed: decoding never reads it.
    pub fn encode_log(&self) -> (r: Log)
        ensures
            spec_decode_withdraw_knockout(r) == Some(*self),
    {
        let mut topic0: Vec<u8> = Vec::new();
        crate::abi::push_zeros(&mut topic0, 32);
        let mut t_user: Vec<u8> = Vec::new();
        push_slot_address(&mut t_user, &self.user);
        let mut t_base: Vec<u8> = Vec::new();
        push_slot_address(&mut t_base, &self.base);
        let mut t_quote: Vec<u8> = Vec::new();
        push_slot_address(&mut t_quote, &self.quote);
        let data = self.encode_data();
        let topics: Vec<Vec<u8>> = vec![topic0, t_user, t_base, t_quote];
        let r = Log { topics, data, block_number: Some(self.block_height), log_index: None };
        proof {
            lemma_address_of_as_nat(self.user);
            lemma_address_of_as_nat(self.base);
            lemma_address_of_as_nat(self.quote);
        }
        r
    }
}

impl Default for WithdrawKnockoutEvent {
    /// The all-zero record.
    fn default() -> (r: WithdrawKnockoutEvent)
        ensures
            (r == WithdrawKnockoutEvent {
                block_height: u256_zero(),
                user: address_zero(),
                base: address_zero(),
                quote: address_zero(),
                pool_idx: u256_zero(),
                base_flow: 0,
                quote_flow: 0,
                lower_tick: 0,
                upper_tick: 0,
                fee_rewards: 0,
            }),
    {
        WithdrawKnockoutEvent {
            block_height: U256::zero(),
            user: Address::zero(),
            base: Address::zero(),
            quote: Address::zero(),
            pool_idx: U256::zero(),
            base_flow: 0,
            quote_flow: 0,
            lower_tick: 0,
            upper_tick: 0,
            fee_rewards: 0,
        }
    }
}

} // verus!
