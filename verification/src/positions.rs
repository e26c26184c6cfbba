//! The five events that a liquidity position emits: minting and burning of
//! ranged and of ambient positions, and the harvest of a ranged position's
//! rewards.
//!
//! The user, the base token and the quote token are indexed and sit in topics
//! 1 to 3; everything else is in the data payload, one slot per field.

use vstd::prelude::*;
use crate::raw_log::{address_topic, push_tick_slot, push_u128_slot, push_u256_slot};
use crate::raw_log::{data_slot, word_fits_u128, word_tick, word_u128, word_u256};
use crate::raw_log::{fits_u128, read_tick, read_u128, read_u256};
use crate::raw_log::{lemma_address_slot, lemma_tick_slot, lemma_u128_slot, lemma_u256_slot};
use crate::raw_log::{tick_slot, u128_slot, u256_slot};
use crate::raw_log::{DecodeError, RawLog};
use crate::types::{Address, U256};

verus! {

/// Emitted when a ranged position is created or liquidity is added to one.
#[derive(Clone, Copy, Debug, PartialEq, Eq, Hash, Structural)]
pub struct MintRangedEvent {
    /// The height of the block that holds the event.
    pub block_height: U256,
    /// The account that acted.
    pub user: Address,
    /// The base token of the pool.
    pub base: Address,
    /// The quote token of the pool.
    pub quote: Address,
    /// The template of the pool.
    pub pool_idx: U256,
    /// The lower tick of the range.
    pub bid_tick: i32,
    /// The upper tick of the range.
    pub ask_tick: i32,
    /// The liquidity moved, in sqrt(X*Y) terms.
    pub liq: u128,
    /// The amount of base tokens moved.
    pub base_qty: u128,
    /// The amount of quote tokens moved.
    pub quote_qty: u128,
}

/// The data payload of a MintRanged event.
#[derive(Clone, Copy, Debug, PartialEq, Eq, Hash, Structural)]
pub struct MintRangedBytes {
    /// The template of the pool.
    pub pool_idx: U256,
    /// The liquidity moved, in sqrt(X*Y) terms.
    pub liq: u128,
    /// The lower tick of the range.
    pub bid_tick: i32,
    /// The upper tick of the range.
    pub ask_tick: i32,
    /// The amount of base tokens moved.
    pub base_qty: u128,
    /// The amount of quote tokens moved.
    pub quote_qty: u128,
}

impl MintRangedEvent {
    /// What the data payload `input` decodes to: a payload shorter than
    /// 6 slots is truncated, and a 128-bit quantity with bits above its 128
    /// bits is an overflow.
    pub open spec fn decoded_data(input: Seq<u8>) -> Result<MintRangedBytes, DecodeError> {
        if input.len() < 192 {
            Err(DecodeError::TruncatedData)
        } else if !(word_fits_u128(data_slot(input, 1))
                && word_fits_u128(data_slot(input, 4))
                && word_fits_u128(data_slot(input, 5))) {
            Err(DecodeError::NumericOverflow)
        } else {
            Ok(
                MintRangedBytes {
                    pool_idx: word_u256(data_slot(input, 0)),
                    liq: word_u128(data_slot(input, 1)),
                    bid_tick: word_tick(data_slot(input, 2)),
                    ask_tick: word_tick(data_slot(input, 3)),
                    base_qty: word_u128(data_slot(input, 4)),
                    quote_qty: word_u128(data_slot(input, 5)),
                },
            )
        }
    }

    /// What the log `log` decodes to. The topic count is tested first, the
    /// block height second, the data payload last.
    #[verifier::opaque]
    pub open spec fn decoded(log: &RawLog) -> Result<MintRangedEvent, DecodeError> {
        match log.header_fault() {
            Some(e) => Err(e),
            None => match Self::decoded_data(log.data@) {
                Err(e) => Err(e),
                Ok(bytes) => Ok(
                    MintRangedEvent {
                        block_height: log.block_number.unwrap(),
                        user: log.topic_address(1),
                        base: log.topic_address(2),
                        quote: log.topic_address(3),
                        pool_idx: bytes.pool_idx,
                        bid_tick: bytes.bid_tick,
                        ask_tick: bytes.ask_tick,
                        liq: bytes.liq,
                        base_qty: bytes.base_qty,
                        quote_qty: bytes.quote_qty,
                    },
                ),
            },
        }
    }

    /// Decodes every log of `input`, and fails on the first one that does not decode.
    pub fn from_logs(input: &[RawLog]) -> (r: Result<Vec<MintRangedEvent>, DecodeError>)
        ensures
            match r {
                Ok(events) => events@.len() == input@.len() && forall|i: int|
                    0 <= i < input@.len() ==> Self::decoded(&input@[i]) == Ok::<
                        MintRangedEvent,
                        DecodeError,
                    >(#[trigger] events@[i]),
                Err(e) => exists|i: int|
                    0 <= i < input@.len() && #[trigger] Self::decoded(&input@[i]) == Err::<
                        MintRangedEvent,
                        DecodeError,
                    >(e) && forall|j: int|
                        0 <= j < i ==> (#[trigger] Self::decoded(&input@[j])).is_ok(),
            },
    {
        let mut res: Vec<MintRangedEvent> = Vec::new();
        let mut n: usize = 0;
        while n < input.len()
            invariant
                n <= input@.len(),
                res@.len() == n,
                forall|i: int|
                    0 <= i < n ==> Self::decoded(&input@[i]) == Ok::<
                        MintRangedEvent,
                        DecodeError,
                    >(#[trigger] res@[i]),
                forall|j: int| 0 <= j < n ==> (#[trigger] Self::decoded(&input@[j])).is_ok(),
            decreases input@.len() - n,
        {
            match Self::from_log(&input[n]) {
                Ok(event) => {
                    res.push(event);
                },
                Err(e) => {
                    assert(Self::decoded(&input@[n as int]) == Err::<MintRangedEvent, DecodeError>(
                        e,
                    ));
                    return Err(e);
                },
            }
            n = n + 1;
        }
        Ok(res)
    }

    /// Decodes one log: the indexed parameters from its topics, the others
    /// from its data payload.
    pub fn from_log(input: &RawLog) -> (r: Result<MintRangedEvent, DecodeError>)
        ensures
            r == Self::decoded(input),
    {
        reveal(MintRangedEvent::decoded);
        let block_height = match input.check_header() {
            Ok(height) => height,
            Err(e) => {
                return Err(e);
            },
        };
        let user = input.read_topic_address(1);
        let base = input.read_topic_address(2);
        let quote = input.read_topic_address(3);
        let bytes = match Self::decode_data_bytes(input.data.as_slice()) {
            Ok(bytes) => bytes,
            Err(e) => {
                return Err(e);
            },
        };
        Ok(MintRangedEvent {
            block_height,
            user,
            base,
            quote,
            pool_idx: bytes.pool_idx,
            bid_tick: bytes.bid_tick,
            ask_tick: bytes.ask_tick,
            liq: bytes.liq,
            base_qty: bytes.base_qty,
            quote_qty: bytes.quote_qty,
        })
    }

    /// The data payload that carries `bytes`: one slot for each field.
    pub open spec fn encoded_data(bytes: MintRangedBytes) -> Seq<u8> {
        u256_slot(bytes.pool_idx)
            + u128_slot(bytes.liq)
            + tick_slot(bytes.bid_tick)
            + tick_slot(bytes.ask_tick)
            + u128_slot(bytes.base_qty)
            + u128_slot(bytes.quote_qty)
    }

    /// The data payload of this event.
    pub open spec fn data_bytes(&self) -> MintRangedBytes {
        MintRangedBytes {
            pool_idx: self.pool_idx,
            liq: self.liq,
            bid_tick: self.bid_tick,
            ask_tick: self.ask_tick,
            base_qty: self.base_qty,
            quote_qty: self.quote_qty,
        }
    }

    /// A payload decodes to the fields that it was encoded from.
    pub proof fn lemma_data_round_trip(bytes: MintRangedBytes)
        ensures
            Self::encoded_data(bytes).len() == 192,
            Self::decoded_data(Self::encoded_data(bytes)) == Ok::<MintRangedBytes, DecodeError>(
                bytes,
            ),
    {
        let data = Self::encoded_data(bytes);
        lemma_u256_slot(bytes.pool_idx);
        lemma_u128_slot(bytes.liq);
        lemma_tick_slot(bytes.bid_tick);
        lemma_tick_slot(bytes.ask_tick);
        lemma_u128_slot(bytes.base_qty);
        lemma_u128_slot(bytes.quote_qty);
        assert(data_slot(data, 0) =~= u256_slot(bytes.pool_idx));
        assert(data_slot(data, 1) =~= u128_slot(bytes.liq));
        assert(data_slot(data, 2) =~= tick_slot(bytes.bid_tick));
        assert(data_slot(data, 3) =~= tick_slot(bytes.ask_tick));
        assert(data_slot(data, 4) =~= u128_slot(bytes.base_qty));
        assert(data_slot(data, 5) =~= u128_slot(bytes.quote_qty));
    }

    /// Encodes the data payload of this event.
    pub fn encode_data_bytes(bytes: &MintRangedBytes) -> (out: Vec<u8>)
        ensures
            out@ == Self::encoded_data(*bytes),
            Self::decoded_data(out@) == Ok::<MintRangedBytes, DecodeError>(*bytes),
    {
        let mut out: Vec<u8> = Vec::new();
        push_u256_slot(&mut out, bytes.pool_idx);
        push_u128_slot(&mut out, bytes.liq);
        push_tick_slot(&mut out, bytes.bid_tick);
        push_tick_slot(&mut out, bytes.ask_tick);
        push_u128_slot(&mut out, bytes.base_qty);
        push_u128_slot(&mut out, bytes.quote_qty);
        proof {
            assert(out@ =~= Self::encoded_data(*bytes));
            Self::lemma_data_round_trip(*bytes);
        }
        out
    }

    /// The log that carries this event under the signature hash
    /// `signature`. Decoding the log gives the event back.
    pub fn to_log(&self, signature: [u8; 32]) -> (log: RawLog)
        ensures
            Self::decoded(&log) == Ok::<MintRangedEvent, DecodeError>(*self),
            log.topics@.len() == 4,
            log.topics@[0] == signature,
            log.data@ == Self::encoded_data(self.data_bytes()),
            log.block_number == Some(self.block_height),
    {
        let mut topics: Vec<[u8; 32]> = Vec::new();
        topics.push(signature);
        topics.push(address_topic(self.user));
        topics.push(address_topic(self.base));
        topics.push(address_topic(self.quote));
        let bytes = MintRangedBytes {
            pool_idx: self.pool_idx,
            liq: self.liq,
            bid_tick: self.bid_tick,
            ask_tick: self.ask_tick,
            base_qty: self.base_qty,
            quote_qty: self.quote_qty,
        };
        let data = Self::encode_data_bytes(&bytes);
        let log = RawLog { topics, data, block_number: Some(self.block_height) };
        proof {
            reveal(MintRangedEvent::decoded);
            lemma_address_slot(self.user);
            lemma_address_slot(self.base);
            lemma_address_slot(self.quote);
        }
        log
    }

    /// Decodes the data payload of this event.
    pub fn decode_data_bytes(input: &[u8]) -> (r: Result<MintRangedBytes, DecodeError>)
        ensures
            r == Self::decoded_data(input@),
    {
        if input.len() < 6 * 32 {
            return Err(DecodeError::TruncatedData);
        }
        if !(fits_u128(input, 1)
            && fits_u128(input, 4)
            && fits_u128(input, 5)) {
            return Err(DecodeError::NumericOverflow);
        }
        let pool_idx = read_u256(input, 0);
        let liq = read_u128(input, 1);
        let bid_tick = read_tick(input, 2);
        let ask_tick = read_tick(input, 3);
        let base_qty = read_u128(input, 4);
        let quote_qty = read_u128(input, 5);
        Ok(MintRangedBytes {
            pool_idx,
            liq,
            bid_tick,
            ask_tick,
            base_qty,
            quote_qty,
        })
    }
}

/// Emitted when a ranged position is closed and its liquidity leaves the pool.
#[derive(Clone, Copy, Debug, PartialEq, Eq, Hash, Structural)]
pub struct BurnRangedEvent {
    /// The height of the block that holds the event.
    pub block_height: U256,
    /// The account that acted.
    pub user: Address,
    /// The base token of the pool.
    pub base: Address,
    /// The quote token of the pool.
    pub quote: Address,
    /// The template of the pool.
    pub pool_idx: U256,
    /// The lower tick of the range.
    pub bid_tick: i32,
    /// The upper tick of the range.
    pub ask_tick: i32,
    /// The liquidity moved, in sqrt(X*Y) terms.
    pub liq: u128,
    /// The amount of base tokens moved.
    pub base_qty: u128,
    /// The amount of quote tokens moved.
    pub quote_qty: u128,
}

/// The data payload of a BurnRanged event.
#[derive(Clone, Copy, Debug, PartialEq, Eq, Hash, Structural)]
pub struct BurnRangedBytes {
    /// The template of the pool.
    pub pool_idx: U256,
    /// The liquidity moved, in sqrt(X*Y) terms.
    pub liq: u128,
    /// The lower tick of the range.
    pub bid_tick: i32,
    /// The upper tick of the range.
    pub ask_tick: i32,
    /// The amount of base tokens moved.
    pub base_qty: u128,
    /// The amount of quote tokens moved.
    pub quote_qty: u128,
}

impl BurnRangedEvent {
    /// What the data payload `input` decodes to: a payload shorter than
    /// 6 slots is truncated, and a 128-bit quantity with bits above its 128
    /// bits is an overflow.
    pub open spec fn decoded_data(input: Seq<u8>) -> Result<BurnRangedBytes, DecodeError> {
        if input.len() < 192 {
            Err(DecodeError::TruncatedData)
        } else if !(word_fits_u128(data_slot(input, 1))
                && word_fits_u128(data_slot(input, 4))
                && word_fits_u128(data_slot(input, 5))) {
            Err(DecodeError::NumericOverflow)
        } else {
            Ok(
                BurnRangedBytes {
                    pool_idx: word_u256(data_slot(input, 0)),
                    liq: word_u128(data_slot(input, 1)),
                    bid_tick: word_tick(data_slot(input, 2)),
                    ask_tick: word_tick(data_slot(input, 3)),
                    base_qty: word_u128(data_slot(input, 4)),
                    quote_qty: word_u128(data_slot(input, 5)),
                },
            )
        }
    }

    /// What the log `log` decodes to. The topic count is tested first, the
    /// block height second, the data payload last.
    #[verifier::opaque]
    pub open spec fn decoded(log: &RawLog) -> Result<BurnRangedEvent, DecodeError> {
        match log.header_fault() {
            Some(e) => Err(e),
            None => match Self::decoded_data(log.data@) {
                Err(e) => Err(e),
                Ok(bytes) => Ok(
                    BurnRangedEvent {
                        block_height: log.block_number.unwrap(),
                        user: log.topic_address(1),
                        base: log.topic_address(2),
                        quote: log.topic_address(3),
                        pool_idx: bytes.pool_idx,
                        bid_tick: bytes.bid_tick,
                        ask_tick: bytes.ask_tick,
                        liq: bytes.liq,
                        base_qty: bytes.base_qty,
                        quote_qty: bytes.quote_qty,
                    },
                ),
            },
        }
    }

    /// Decodes every log of `input`, and fails on the first one that does not decode.
    pub fn from_logs(input: &[RawLog]) -> (r: Result<Vec<BurnRangedEvent>, DecodeError>)
        ensures
            match r {
                Ok(events) => events@.len() == input@.len() && forall|i: int|
                    0 <= i < input@.len() ==> Self::decoded(&input@[i]) == Ok::<
                        BurnRangedEvent,
                        DecodeError,
                    >(#[trigger] events@[i]),
                Err(e) => exists|i: int|
                    0 <= i < input@.len() && #[trigger] Self::decoded(&input@[i]) == Err::<
                        BurnRangedEvent,
                        DecodeError,
                    >(e) && forall|j: int|
                        0 <= j < i ==> (#[trigger] Self::decoded(&input@[j])).is_ok(),
            },
    {
        let mut res: Vec<BurnRangedEvent> = Vec::new();
        let mut n: usize = 0;
        while n < input.len()
            invariant
                n <= input@.len(),
                res@.len() == n,
                forall|i: int|
                    0 <= i < n ==> Self::decoded(&input@[i]) == Ok::<
                        BurnRangedEvent,
                        DecodeError,
                    >(#[trigger] res@[i]),
                forall|j: int| 0 <= j < n ==> (#[trigger] Self::decoded(&input@[j])).is_ok(),
            decreases input@.len() - n,
        {
            match Self::from_log(&input[n]) {
                Ok(event) => {
                    res.push(event);
                },
                Err(e) => {
                    assert(Self::decoded(&input@[n as int]) == Err::<BurnRangedEvent, DecodeError>(
                        e,
                    ));
                    return Err(e);
                },
            }
            n = n + 1;
        }
        Ok(res)
    }

    /// Decodes one log: the indexed parameters from its topics, the others
    /// from its data payload.
    pub fn from_log(input: &RawLog) -> (r: Result<BurnRangedEvent, DecodeError>)
        ensures
            r == Self::decoded(input),
    {
        reveal(BurnRangedEvent::decoded);
        let block_height = match input.check_header() {
            Ok(height) => height,
            Err(e) => {
                return Err(e);
            },
        };
        let user = input.read_topic_address(1);
        let base = input.read_topic_address(2);
        let quote = input.read_topic_address(3);
        let bytes = match Self::decode_data_bytes(input.data.as_slice()) {
            Ok(bytes) => bytes,
            Err(e) => {
                return Err(e);
            },
        };
        Ok(BurnRangedEvent {
            block_height,
            user,
            base,
            quote,
            pool_idx: bytes.pool_idx,
            bid_tick: bytes.bid_tick,
            ask_tick: bytes.ask_tick,
            liq: bytes.liq,
            base_qty: bytes.base_qty,
            quote_qty: bytes.quote_qty,
        })
    }

    /// The data payload that carries `bytes`: one slot for each field.
    pub open spec fn encoded_data(bytes: BurnRangedBytes) -> Seq<u8> {
        u256_slot(bytes.pool_idx)
            + u128_slot(bytes.liq)
            + tick_slot(bytes.bid_tick)
            + tick_slot(bytes.ask_tick)
            + u128_slot(bytes.base_qty)
            + u128_slot(bytes.quote_qty)
    }

    /// The data payload of this event.
    pub open spec fn data_bytes(&self) -> BurnRangedBytes {
        BurnRangedBytes {
            pool_idx: self.pool_idx,
            liq: self.liq,
            bid_tick: self.bid_tick,
            ask_tick: self.ask_tick,
            base_qty: self.base_qty,
            quote_qty: self.quote_qty,
        }
    }

    /// A payload decodes to the fields that it was encoded from.
    pub proof fn lemma_data_round_trip(bytes: BurnRangedBytes)
        ensures
            Self::encoded_data(bytes).len() == 192,
            Self::decoded_data(Self::encoded_data(bytes)) == Ok::<BurnRangedBytes, DecodeError>(
                bytes,
            ),
    {
        let data = Self::encoded_data(bytes);
        lemma_u256_slot(bytes.pool_idx);
        lemma_u128_slot(bytes.liq);
        lemma_tick_slot(bytes.bid_tick);
        lemma_tick_slot(bytes.ask_tick);
        lemma_u128_slot(bytes.base_qty);
        lemma_u128_slot(bytes.quote_qty);
        assert(data_slot(data, 0) =~= u256_slot(bytes.pool_idx));
        assert(data_slot(data, 1) =~= u128_slot(bytes.liq));
        assert(data_slot(data, 2) =~= tick_slot(bytes.bid_tick));
        assert(data_slot(data, 3) =~= tick_slot(bytes.ask_tick));
        assert(data_slot(data, 4) =~= u128_slot(bytes.base_qty));
        assert(data_slot(data, 5) =~= u128_slot(bytes.quote_qty));
    }

    /// Encodes the data payload of this event.
    pub fn encode_data_bytes(bytes: &BurnRangedBytes) -> (out: Vec<u8>)
        ensures
            out@ == Self::encoded_data(*bytes),
            Self::decoded_data(out@) == Ok::<BurnRangedBytes, DecodeError>(*bytes),
    {
        let mut out: Vec<u8> = Vec::new();
        push_u256_slot(&mut out, bytes.pool_idx);
        push_u128_slot(&mut out, bytes.liq);
        push_tick_slot(&mut out, bytes.bid_tick);
        push_tick_slot(&mut out, bytes.ask_tick);
        push_u128_slot(&mut out, bytes.base_qty);
        push_u128_slot(&mut out, bytes.quote_qty);
        proof {
            assert(out@ =~= Self::encoded_data(*bytes));
            Self::lemma_data_round_trip(*bytes);
        }
        out
    }

    /// The log that carries this event under the signature hash
    /// `signature`. Decoding the log gives the event back.
    pub fn to_log(&self, signature: [u8; 32]) -> (log: RawLog)
        ensures
            Self::decoded(&log) == Ok::<BurnRangedEvent, DecodeError>(*self),
            log.topics@.len() == 4,
            log.topics@[0] == signature,
            log.data@ == Self::encoded_data(self.data_bytes()),
            log.block_number == Some(self.block_height),
    {
        let mut topics: Vec<[u8; 32]> = Vec::new();
        topics.push(signature);
        topics.push(address_topic(self.user));
        topics.push(address_topic(self.base));
        topics.push(address_topic(self.quote));
        let bytes = BurnRangedBytes {
            pool_idx: self.pool_idx,
            liq: self.liq,
            bid_tick: self.bid_tick,
            ask_tick: self.ask_tick,
            base_qty: self.base_qty,
            quote_qty: self.quote_qty,
        };
        let data = Self::encode_data_bytes(&bytes);
        let log = RawLog { topics, data, block_number: Some(self.block_height) };
        proof {
            reveal(BurnRangedEvent::decoded);
            lemma_address_slot(self.user);
            lemma_address_slot(self.base);
            lemma_address_slot(self.quote);
        }
        log
    }

    /// Decodes the data payload of this event.
    pub fn decode_data_bytes(input: &[u8]) -> (r: Result<BurnRangedBytes, DecodeError>)
        ensures
            r == Self::decoded_data(input@),
    {
        if input.len() < 6 * 32 {
            return Err(DecodeError::TruncatedData);
        }
        if !(fits_u128(input, 1)
            && fits_u128(input, 4)
            && fits_u128(input, 5)) {
            return Err(DecodeError::NumericOverflow);
        }
        let pool_idx = read_u256(input, 0);
        let liq = read_u128(input, 1);
        let bid_tick = read_tick(input, 2);
        let ask_tick = read_tick(input, 3);
        let base_qty = read_u128(input, 4);
        let quote_qty = read_u128(input, 5);
        Ok(BurnRangedBytes {
            pool_idx,
            liq,
            bid_tick,
            ask_tick,
            base_qty,
            quote_qty,
        })
    }
}

/// Emitted when the rewards of a ranged position are withdrawn; the principal stays.
#[derive(Clone, Copy, Debug, PartialEq, Eq, Hash, Structural)]
pub struct HarvestEvent {
    /// The height of the block that holds the event.
    pub block_height: U256,
    /// The account that acted.
    pub user: Address,
    /// The base token of the pool.
    pub base: Address,
    /// The quote token of the pool.
    pub quote: Address,
    /// The template of the pool.
    pub pool_idx: U256,
    /// The lower tick of the range.
    pub bid_tick: i32,
    /// The upper tick of the range.
    pub ask_tick: i32,
    /// The amount of base tokens moved.
    pub base_qty: u128,
    /// The amount of quote tokens moved.
    pub quote_qty: u128,
}

/// The data payload of a Harvest event.
#[derive(Clone, Copy, Debug, PartialEq, Eq, Hash, Structural)]
pub struct HarvestBytes {
    /// The template of the pool.
    pub pool_idx: U256,
    /// The lower tick of the range.
    pub bid_tick: i32,
    /// The upper tick of the range.
    pub ask_tick: i32,
    /// The amount of base tokens moved.
    pub base_qty: u128,
    /// The amount of quote tokens moved.
    pub quote_qty: u128,
}

impl HarvestEvent {
    /// What the data payload `input` decodes to: a payload shorter than
    /// 5 slots is truncated, and a 128-bit quantity with bits above its 128
    /// bits is an overflow.
    pub open spec fn decoded_data(input: Seq<u8>) -> Result<HarvestBytes, DecodeError> {
        if input.len() < 160 {
            Err(DecodeError::TruncatedData)
        } else if !(word_fits_u128(data_slot(input, 3))
                && word_fits_u128(data_slot(input, 4))) {
            Err(DecodeError::NumericOverflow)
        } else {
            Ok(
                HarvestBytes {
                    pool_idx: word_u256(data_slot(input, 0)),
                    bid_tick: word_tick(data_slot(input, 1)),
                    ask_tick: word_tick(data_slot(input, 2)),
                    base_qty: word_u128(data_slot(input, 3)),
                    quote_qty: word_u128(data_slot(input, 4)),
                },
            )
        }
    }

    /// What the log `log` decodes to. The topic count is tested first, the
    /// block height second, the data payload last.
    #[verifier::opaque]
    pub open spec fn decoded(log: &RawLog) -> Result<HarvestEvent, DecodeError> {
        match log.header_fault() {
            Some(e) => Err(e),
            None => match Self::decoded_data(log.data@) {
                Err(e) => Err(e),
                Ok(bytes) => Ok(
                    HarvestEvent {
                        block_height: log.block_number.unwrap(),
                        user: log.topic_address(1),
                        base: log.topic_address(2),
                        quote: log.topic_address(3),
                        pool_idx: bytes.pool_idx,
                        bid_tick: bytes.bid_tick,
                        ask_tick: bytes.ask_tick,
                        base_qty: bytes.base_qty,
                        quote_qty: bytes.quote_qty,
                    },
                ),
            },
        }
    }

    /// Decodes every log of `input`, and fails on the first one that does not decode.
    pub fn from_logs(input: &[RawLog]) -> (r: Result<Vec<HarvestEvent>, DecodeError>)
        ensures
            match r {
                Ok(events) => events@.len() == input@.len() && forall|i: int|
                    0 <= i < input@.len() ==> Self::decoded(&input@[i]) == Ok::<
                        HarvestEvent,
                        DecodeError,
                    >(#[trigger] events@[i]),
                Err(e) => exists|i: int|
                    0 <= i < input@.len() && #[trigger] Self::decoded(&input@[i]) == Err::<
                        HarvestEvent,
                        DecodeError,
                    >(e) && forall|j: int|
                        0 <= j < i ==> (#[trigger] Self::decoded(&input@[j])).is_ok(),
            },
    {
        let mut res: Vec<HarvestEvent> = Vec::new();
        let mut n: usize = 0;
        while n < input.len()
            invariant
                n <= input@.len(),
                res@.len() == n,
                forall|i: int|
                    0 <= i < n ==> Self::decoded(&input@[i]) == Ok::<
                        HarvestEvent,
                        DecodeError,
                    >(#[trigger] res@[i]),
                forall|j: int| 0 <= j < n ==> (#[trigger] Self::decoded(&input@[j])).is_ok(),
            decreases input@.len() - n,
        {
            match Self::from_log(&input[n]) {
                Ok(event) => {
                    res.push(event);
                },
                Err(e) => {
                    assert(Self::decoded(&input@[n as int]) == Err::<HarvestEvent, DecodeError>(
                        e,
                    ));
                    return Err(e);
                },
            }
            n = n + 1;
        }
        Ok(res)
    }

    /// Decodes one log: the indexed parameters from its topics, the others
    /// from its data payload.
    pub fn from_log(input: &RawLog) -> (r: Result<HarvestEvent, DecodeError>)
        ensures
            r == Self::decoded(input),
    {
        reveal(HarvestEvent::decoded);
        let block_height = match input.check_header() {
            Ok(height) => height,
            Err(e) => {
                return Err(e);
            },
        };
        let user = input.read_topic_address(1);
        let base = input.read_topic_address(2);
        let quote = input.read_topic_address(3);
        let bytes = match Self::decode_data_bytes(input.data.as_slice()) {
            Ok(bytes) => bytes,
            Err(e) => {
                return Err(e);
            },
        };
        Ok(HarvestEvent {
            block_height,
            user,
            base,
            quote,
            pool_idx: bytes.pool_idx,
            bid_tick: bytes.bid_tick,
            ask_tick: bytes.ask_tick,
            base_qty: bytes.base_qty,
            quote_qty: bytes.quote_qty,
        })
    }

    /// The data payload that carries `bytes`: one slot for each field.
    pub open spec fn encoded_data(bytes: HarvestBytes) -> Seq<u8> {
        u256_slot(bytes.pool_idx)
            + tick_slot(bytes.bid_tick)
            + tick_slot(bytes.ask_tick)
            + u128_slot(bytes.base_qty)
            + u128_slot(bytes.quote_qty)
    }

    /// The data payload of this event.
    pub open spec fn data_bytes(&self) -> HarvestBytes {
        HarvestBytes {
            pool_idx: self.pool_idx,
            bid_tick: self.bid_tick,
            ask_tick: self.ask_tick,
            base_qty: self.base_qty,
            quote_qty: self.quote_qty,
        }
    }

    /// A payload decodes to the fields that it was encoded from.
    pub proof fn lemma_data_round_trip(bytes: HarvestBytes)
        ensures
            Self::encoded_data(bytes).len() == 160,
            Self::decoded_data(Self::encoded_data(bytes)) == Ok::<HarvestBytes, DecodeError>(
                bytes,
            ),
    {
        let data = Self::encoded_data(bytes);
        lemma_u256_slot(bytes.pool_idx);
        lemma_tick_slot(bytes.bid_tick);
        lemma_tick_slot(bytes.ask_tick);
        lemma_u128_slot(bytes.base_qty);
        lemma_u128_slot(bytes.quote_qty);
        assert(data_slot(data, 0) =~= u256_slot(bytes.pool_idx));
        assert(data_slot(data, 1) =~= tick_slot(bytes.bid_tick));
        assert(data_slot(data, 2) =~= tick_slot(bytes.ask_tick));
        assert(data_slot(data, 3) =~= u128_slot(bytes.base_qty));
        assert(data_slot(data, 4) =~= u128_slot(bytes.quote_qty));
    }

    /// Encodes the data payload of this event.
    pub fn encode_data_bytes(bytes: &HarvestBytes) -> (out: Vec<u8>)
        ensures
            out@ == Self::encoded_data(*bytes),
            Self::decoded_data(out@) == Ok::<HarvestBytes, DecodeError>(*bytes),
    {
        let mut out: Vec<u8> = Vec::new();
        push_u256_slot(&mut out, bytes.pool_idx);
        push_tick_slot(&mut out, bytes.bid_tick);
        push_tick_slot(&mut out, bytes.ask_tick);
        push_u128_slot(&mut out, bytes.base_qty);
        push_u128_slot(&mut out, bytes.quote_qty);
        proof {
            assert(out@ =~= Self::encoded_data(*bytes));
            Self::lemma_data_round_trip(*bytes);
        }
        out
    }

    /// The log that carries this event under the signature hash
    /// `signature`. Decoding the log gives the event back.
    pub fn to_log(&self, signature: [u8; 32]) -> (log: RawLog)
        ensures
            Self::decoded(&log) == Ok::<HarvestEvent, DecodeError>(*self),
            log.topics@.len() == 4,
            log.topics@[0] == signature,
            log.data@ == Self::encoded_data(self.data_bytes()),
            log.block_number == Some(self.block_height),
    {
        let mut topics: Vec<[u8; 32]> = Vec::new();
        topics.push(signature);
        topics.push(address_topic(self.user));
        topics.push(address_topic(self.base));
        topics.push(address_topic(self.quote));
        let bytes = HarvestBytes {
            pool_idx: self.pool_idx,
            bid_tick: self.bid_tick,
            ask_tick: self.ask_tick,
            base_qty: self.base_qty,
            quote_qty: self.quote_qty,
        };
        let data = Self::encode_data_bytes(&bytes);
        let log = RawLog { topics, data, block_number: Some(self.block_height) };
        proof {
            reveal(HarvestEvent::decoded);
            lemma_address_slot(self.user);
            lemma_address_slot(self.base);
            lemma_address_slot(self.quote);
        }
        log
    }

    /// Decodes the data payload of this event.
    pub fn decode_data_bytes(input: &[u8]) -> (r: Result<HarvestBytes, DecodeError>)
        ensures
            r == Self::decoded_data(input@),
    {
        if input.len() < 5 * 32 {
            return Err(DecodeError::TruncatedData);
        }
        if !(fits_u128(input, 3)
            && fits_u128(input, 4)) {
            return Err(DecodeError::NumericOverflow);
        }
        let pool_idx = read_u256(input, 0);
        let bid_tick = read_tick(input, 1);
        let ask_tick = read_tick(input, 2);
        let base_qty = read_u128(input, 3);
        let quote_qty = read_u128(input, 4);
        Ok(HarvestBytes {
            pool_idx,
            bid_tick,
            ask_tick,
            base_qty,
            quote_qty,
        })
    }
}

/// Emitted when an ambient position is created or liquidity is added to one.
#[derive(Clone, Copy, Debug, PartialEq, Eq, Hash, Structural)]
pub struct MintAmbientEvent {
    /// The height of the block that holds the event.
    pub block_height: U256,
    /// The account that acted.
    pub user: Address,
    /// The base token of the pool.
    pub base: Address,
    /// The quote token of the pool.
    pub quote: Address,
    /// The template of the pool.
    pub pool_idx: U256,
    /// The liquidity moved, in sqrt(X*Y) terms.
    pub liq: u128,
    /// The amount of base tokens moved.
    pub base_qty: u128,
    /// The amount of quote tokens moved.
    pub quote_qty: u128,
}

/// The data payload of a MintAmbient event.
#[derive(Clone, Copy, Debug, PartialEq, Eq, Hash, Structural)]
pub struct MintAmbientBytes {
    /// The template of the pool.
    pub pool_idx: U256,
    /// The liquidity moved, in sqrt(X*Y) terms.
    pub liq: u128,
    /// The amount of base tokens moved.
    pub base_qty: u128,
    /// The amount of quote tokens moved.
    pub quote_qty: u128,
}

impl MintAmbientEvent {
    /// What the data payload `input` decodes to: a payload shorter than
    /// 4 slots is truncated, and a 128-bit quantity with bits above its 128
    /// bits is an overflow.
    pub open spec fn decoded_data(input: Seq<u8>) -> Result<MintAmbientBytes, DecodeError> {
        if input.len() < 128 {
            Err(DecodeError::TruncatedData)
        } else if !(word_fits_u128(data_slot(input, 1))
                && word_fits_u128(data_slot(input, 2))
                && word_fits_u128(data_slot(input, 3))) {
            Err(DecodeError::NumericOverflow)
        } else {
            Ok(
                MintAmbientBytes {
                    pool_idx: word_u256(data_slot(input, 0)),
                    liq: word_u128(data_slot(input, 1)),
                    base_qty: word_u128(data_slot(input, 2)),
                    quote_qty: word_u128(data_slot(input, 3)),
                },
            )
        }
    }

    /// What the log `log` decodes to. The topic count is tested first, the
    /// block height second, the data payload last.
    #[verifier::opaque]
    pub open spec fn decoded(log: &RawLog) -> Result<MintAmbientEvent, DecodeError> {
        match log.header_fault() {
            Some(e) => Err(e),
            None => match Self::decoded_data(log.data@) {
                Err(e) => Err(e),
                Ok(bytes) => Ok(
                    MintAmbientEvent {
                        block_height: log.block_number.unwrap(),
                        user: log.topic_address(1),
                        base: log.topic_address(2),
                        quote: log.topic_address(3),
                        pool_idx: bytes.pool_idx,
                        liq: bytes.liq,
                        base_qty: bytes.base_qty,
                        quote_qty: bytes.quote_qty,
                    },
                ),
            },
        }
    }

    /// Decodes every log of `input`, and fails on the first one that does not decode.
    pub fn from_logs(input: &[RawLog]) -> (r: Result<Vec<MintAmbientEvent>, DecodeError>)
        ensures
            match r {
                Ok(events) => events@.len() == input@.len() && forall|i: int|
                    0 <= i < input@.len() ==> Self::decoded(&input@[i]) == Ok::<
                        MintAmbientEvent,
                        DecodeError,
                    >(#[trigger] events@[i]),
                Err(e) => exists|i: int|
                    0 <= i < input@.len() && #[trigger] Self::decoded(&input@[i]) == Err::<
                        MintAmbientEvent,
                        DecodeError,
                    >(e) && forall|j: int|
                        0 <= j < i ==> (#[trigger] Self::decoded(&input@[j])).is_ok(),
            },
    {
        let mut res: Vec<MintAmbientEvent> = Vec::new();
        let mut n: usize = 0;
        while n < input.len()
            invariant
                n <= input@.len(),
                res@.len() == n,
                forall|i: int|
                    0 <= i < n ==> Self::decoded(&input@[i]) == Ok::<
                        MintAmbientEvent,
                        DecodeError,
                    >(#[trigger] res@[i]),
                forall|j: int| 0 <= j < n ==> (#[trigger] Self::decoded(&input@[j])).is_ok(),
            decreases input@.len() - n,
        {
            match Self::from_log(&input[n]) {
                Ok(event) => {
                    res.push(event);
                },
                Err(e) => {
                    assert(Self::decoded(&input@[n as int]) == Err::<MintAmbientEvent, DecodeError>(
                        e,
                    ));
                    return Err(e);
                },
            }
            n = n + 1;
        }
        Ok(res)
    }

    /// Decodes one log: the indexed parameters from its topics, the others
    /// from its data payload.
    pub fn from_log(input: &RawLog) -> (r: Result<MintAmbientEvent, DecodeError>)
        ensures
            r == Self::decoded(input),
    {
        reveal(MintAmbientEvent::decoded);
        let block_height = match input.check_header() {
            Ok(height) => height,
            Err(e) => {
                return Err(e);
            },
        };
        let user = input.read_topic_address(1);
        let base = input.read_topic_address(2);
        let quote = input.read_topic_address(3);
        let bytes = match Self::decode_data_bytes(input.data.as_slice()) {
            Ok(bytes) => bytes,
            Err(e) => {
                return Err(e);
            },
        };
        Ok(MintAmbientEvent {
            block_height,
            user,
            base,
            quote,
            pool_idx: bytes.pool_idx,
            liq: bytes.liq,
            base_qty: bytes.base_qty,
            quote_qty: bytes.quote_qty,
        })
    }

    /// The data payload that carries `bytes`: one slot for each field.
    pub open spec fn encoded_data(bytes: MintAmbientBytes) -> Seq<u8> {
        u256_slot(bytes.pool_idx)
            + u128_slot(bytes.liq)
            + u128_slot(bytes.base_qty)
            + u128_slot(bytes.quote_qty)
    }

    /// The data payload of this event.
    pub open spec fn data_bytes(&self) -> MintAmbientBytes {
        MintAmbientBytes {
            pool_idx: self.pool_idx,
            liq: self.liq,
            base_qty: self.base_qty,
            quote_qty: self.quote_qty,
        }
    }

    /// A payload decodes to the fields that it was encoded from.
    pub proof fn lemma_data_round_trip(bytes: MintAmbientBytes)
        ensures
            Self::encoded_data(bytes).len() == 128,
            Self::decoded_data(Self::encoded_data(bytes)) == Ok::<MintAmbientBytes, DecodeError>(
                bytes,
            ),
    {
        let data = Self::encoded_data(bytes);
        lemma_u256_slot(bytes.pool_idx);
        lemma_u128_slot(bytes.liq);
        lemma_u128_slot(bytes.base_qty);
        lemma_u128_slot(bytes.quote_qty);
        assert(data_slot(data, 0) =~= u256_slot(bytes.pool_idx));
        assert(data_slot(data, 1) =~= u128_slot(bytes.liq));
        assert(data_slot(data, 2) =~= u128_slot(bytes.base_qty));
        assert(data_slot(data, 3) =~= u128_slot(bytes.quote_qty));
    }

    /// Encodes the data payload of this event.
    pub fn encode_data_bytes(bytes: &MintAmbientBytes) -> (out: Vec<u8>)
        ensures
            out@ == Self::encoded_data(*bytes),
            Self::decoded_data(out@) == Ok::<MintAmbientBytes, DecodeError>(*bytes),
    {
        let mut out: Vec<u8> = Vec::new();
        push_u256_slot(&mut out, bytes.pool_idx);
        push_u128_slot(&mut out, bytes.liq);
        push_u128_slot(&mut out, bytes.base_qty);
        push_u128_slot(&mut out, bytes.quote_qty);
        proof {
            assert(out@ =~= Self::encoded_data(*bytes));
            Self::lemma_data_round_trip(*bytes);
        }
        out
    }

    /// The log that carries this event under the signature hash
    /// `signature`. Decoding the log gives the event back.
    pub fn to_log(&self, signature: [u8; 32]) -> (log: RawLog)
        ensures
            Self::decoded(&log) == Ok::<MintAmbientEvent, DecodeError>(*self),
            log.topics@.len() == 4,
            log.topics@[0] == signature,
            log.data@ == Self::encoded_data(self.data_bytes()),
            log.block_number == Some(self.block_height),
    {
        let mut topics: Vec<[u8; 32]> = Vec::new();
        topics.push(signature);
        topics.push(address_topic(self.user));
        topics.push(address_topic(self.base));
        topics.push(address_topic(self.quote));
        let bytes = MintAmbientBytes {
            pool_idx: self.pool_idx,
            liq: self.liq,
            base_qty: self.base_qty,
            quote_qty: self.quote_qty,
        };
        let data = Self::encode_data_bytes(&bytes);
        let log = RawLog { topics, data, block_number: Some(self.block_height) };
        proof {
            reveal(MintAmbientEvent::decoded);
            lemma_address_slot(self.user);
            lemma_address_slot(self.base);
            lemma_address_slot(self.quote);
        }
        log
    }

    /// Decodes the data payload of this event.
    pub fn decode_data_bytes(input: &[u8]) -> (r: Result<MintAmbientBytes, DecodeError>)
        ensures
            r == Self::decoded_data(input@),
    {
        if input.len() < 4 * 32 {
            return Err(DecodeError::TruncatedData);
        }
        if !(fits_u128(input, 1)
            && fits_u128(input, 2)
            && fits_u128(input, 3)) {
            return Err(DecodeError::NumericOverflow);
        }
        let pool_idx = read_u256(input, 0);
        let liq = read_u128(input, 1);
        let base_qty = read_u128(input, 2);
        let quote_qty = read_u128(input, 3);
        Ok(MintAmbientBytes {
            pool_idx,
            liq,
            base_qty,
            quote_qty,
        })
    }
}

/// Emitted when an ambient position is closed and its liquidity leaves the pool.
#[derive(Clone, Copy, Debug, PartialEq, Eq, Hash, Structural)]
pub struct BurnAmbientEvent {
    /// The height of the block that holds the event.
    pub block_height: U256,
    /// The account that acted.
    pub user: Address,
    /// The base token of the pool.
    pub base: Address,
    /// The quote token of the pool.
    pub quote: Address,
    /// The template of the pool.
    pub pool_idx: U256,
    /// The liquidity moved, in sqrt(X*Y) terms.
    pub liq: u128,
    /// The amount of base tokens moved.
    pub base_qty: u128,
    /// The amount of quote tokens moved.
    pub quote_qty: u128,
}

/// The data payload of a BurnAmbient event.
#[derive(Clone, Copy, Debug, PartialEq, Eq, Hash, Structural)]
pub struct BurnAmbientBytes {
    /// The template of the pool.
    pub pool_idx: U256,
    /// The liquidity moved, in sqrt(X*Y) terms.
    pub liq: u128,
    /// The amount of base tokens moved.
    pub base_qty: u128,
    /// The amount of quote tokens moved.
    pub quote_qty: u128,
}

impl BurnAmbientEvent {
    /// What the data payload `input` decodes to: a payload shorter than
    /// 4 slots is truncated, and a 128-bit quantity with bits above its 128
    /// bits is an overflow.
    pub open spec fn decoded_data(input: Seq<u8>) -> Result<BurnAmbientBytes, DecodeError> {
        if input.len() < 128 {
            Err(DecodeError::TruncatedData)
        } else if !(word_fits_u128(data_slot(input, 1))
                && word_fits_u128(data_slot(input, 2))
                && word_fits_u128(data_slot(input, 3))) {
            Err(DecodeError::NumericOverflow)
        } else {
            Ok(
                BurnAmbientBytes {
                    pool_idx: word_u256(data_slot(input, 0)),
                    liq: word_u128(data_slot(input, 1)),
                    base_qty: word_u128(data_slot(input, 2)),
                    quote_qty: word_u128(data_slot(input, 3)),
                },
            )
        }
    }

    /// What the log `log` decodes to. The topic count is tested first, the
    /// block height second, the data payload last.
    #[verifier::opaque]
    pub open spec fn decoded(log: &RawLog) -> Result<BurnAmbientEvent, DecodeError> {
        match log.header_fault() {
            Some(e) => Err(e),
            None => match Self::decoded_data(log.data@) {
                Err(e) => Err(e),
                Ok(bytes) => Ok(
                    BurnAmbientEvent {
                        block_height: log.block_number.unwrap(),
                        user: log.topic_address(1),
                        base: log.topic_address(2),
                        quote: log.topic_address(3),
                        pool_idx: bytes.pool_idx,
                        liq: bytes.liq,
                        base_qty: bytes.base_qty,
                        quote_qty: bytes.quote_qty,
                    },
                ),
            },
        }
    }

    /// Decodes every log of `input`, and fails on the first one that does not decode.
    pub fn from_logs(input: &[RawLog]) -> (r: Result<Vec<BurnAmbientEvent>, DecodeError>)
        ensures
            match r {
                Ok(events) => events@.len() == input@.len() && forall|i: int|
                    0 <= i < input@.len() ==> Self::decoded(&input@[i]) == Ok::<
                        BurnAmbientEvent,
                        DecodeError,
                    >(#[trigger] events@[i]),
                Err(e) => exists|i: int|
                    0 <= i < input@.len() && #[trigger] Self::decoded(&input@[i]) == Err::<
                        BurnAmbientEvent,
                        DecodeError,
                    >(e) && forall|j: int|
                        0 <= j < i ==> (#[trigger] Self::decoded(&input@[j])).is_ok(),
            },
    {
        let mut res: Vec<BurnAmbientEvent> = Vec::new();
        let mut n: usize = 0;
        while n < input.len()
            invariant
                n <= input@.len(),
                res@.len() == n,
                forall|i: int|
                    0 <= i < n ==> Self::decoded(&input@[i]) == Ok::<
                        BurnAmbientEvent,
                        DecodeError,
                    >(#[trigger] res@[i]),
                forall|j: int| 0 <= j < n ==> (#[trigger] Self::decoded(&input@[j])).is_ok(),
            decreases input@.len() - n,
        {
            match Self::from_log(&input[n]) {
                Ok(event) => {
                    res.push(event);
                },
                Err(e) => {
                    assert(Self::decoded(&input@[n as int]) == Err::<BurnAmbientEvent, DecodeError>(
                        e,
                    ));
                    return Err(e);
                },
            }
            n = n + 1;
        }
        Ok(res)
    }

    /// Decodes one log: the indexed parameters from its topics, the others
    /// from its data payload.
    pub fn from_log(input: &RawLog) -> (r: Result<BurnAmbientEvent, DecodeError>)
        ensures
            r == Self::decoded(input),
    {
        reveal(BurnAmbientEvent::decoded);
        let block_height = match input.check_header() {
            Ok(height) => height,
            Err(e) => {
                return Err(e);
            },
        };
        let user = input.read_topic_address(1);
        let base = input.read_topic_address(2);
        let quote = input.read_topic_address(3);
        let bytes = match Self::decode_data_bytes(input.data.as_slice()) {
            Ok(bytes) => bytes,
            Err(e) => {
                return Err(e);
            },
        };
        Ok(BurnAmbientEvent {
            block_height,
            user,
            base,
            quote,
            pool_idx: bytes.pool_idx,
            liq: bytes.liq,
            base_qty: bytes.base_qty,
            quote_qty: bytes.quote_qty,
        })
    }

    /// The data payload that carries `bytes`: one slot for each field.
    pub open spec fn encoded_data(bytes: BurnAmbientBytes) -> Seq<u8> {
        u256_slot(bytes.pool_idx)
            + u128_slot(bytes.liq)
            + u128_slot(bytes.base_qty)
            + u128_slot(bytes.quote_qty)
    }

    /// The data payload of this event.
    pub open spec fn data_bytes(&self) -> BurnAmbientBytes {
        BurnAmbientBytes {
            pool_idx: self.pool_idx,
            liq: self.liq,
            base_qty: self.base_qty,
            quote_qty: self.quote_qty,
        }
    }

    /// A payload decodes to the fields that it was encoded from.
    pub proof fn lemma_data_round_trip(bytes: BurnAmbientBytes)
        ensures
            Self::encoded_data(bytes).len() == 128,
            Self::decoded_data(Self::encoded_data(bytes)) == Ok::<BurnAmbientBytes, DecodeError>(
                bytes,
            ),
    {
        let data = Self::encoded_data(bytes);
        lemma_u256_slot(bytes.pool_idx);
        lemma_u128_slot(bytes.liq);
        lemma_u128_slot(bytes.base_qty);
        lemma_u128_slot(bytes.quote_qty);
        assert(data_slot(data, 0) =~= u256_slot(bytes.pool_idx));
        assert(data_slot(data, 1) =~= u128_slot(bytes.liq));
        assert(data_slot(data, 2) =~= u128_slot(bytes.base_qty));
        assert(data_slot(data, 3) =~= u128_slot(bytes.quote_qty));
    }

    /// Encodes the data payload of this event.
    pub fn encode_data_bytes(bytes: &BurnAmbientBytes) -> (out: Vec<u8>)
        ensures
            out@ == Self::encoded_data(*bytes),
            Self::decoded_data(out@) == Ok::<BurnAmbientBytes, DecodeError>(*bytes),
    {
        let mut out: Vec<u8> = Vec::new();
        push_u256_slot(&mut out, bytes.pool_idx);
        push_u128_slot(&mut out, bytes.liq);
        push_u128_slot(&mut out, bytes.base_qty);
        push_u128_slot(&mut out, bytes.quote_qty);
        proof {
            assert(out@ =~= Self::encoded_data(*bytes));
            Self::lemma_data_round_trip(*bytes);
        }
        out
    }

    /// The log that carries this event under the signature hash
    /// `signature`. Decoding the log gives the event back.
    pub fn to_log(&self, signature: [u8; 32]) -> (log: RawLog)
        ensures
            Self::decoded(&log) == Ok::<BurnAmbientEvent, DecodeError>(*self),
            log.topics@.len() == 4,
            log.topics@[0] == signature,
            log.data@ == Self::encoded_data(self.data_bytes()),
            log.block_number == Some(self.block_height),
    {
        let mut topics: Vec<[u8; 32]> = Vec::new();
        topics.push(signature);
        topics.push(address_topic(self.user));
        topics.push(address_topic(self.base));
        topics.push(address_topic(self.quote));
        let bytes = BurnAmbientBytes {
            pool_idx: self.pool_idx,
            liq: self.liq,
            base_qty: self.base_qty,
            quote_qty: self.quote_qty,
        };
        let data = Self::encode_data_bytes(&bytes);
        let log = RawLog { topics, data, block_number: Some(self.block_height) };
        proof {
            reveal(BurnAmbientEvent::decoded);
            lemma_address_slot(self.user);
            lemma_address_slot(self.base);
            lemma_address_slot(self.quote);
        }
        log
    }

    /// Decodes the data payload of this event.
    pub fn decode_data_bytes(input: &[u8]) -> (r: Result<BurnAmbientBytes, DecodeError>)
        ensures
            r == Self::decoded_data(input@),
    {
        if input.len() < 4 * 32 {
            return Err(DecodeError::TruncatedData);
        }
        if !(fits_u128(input, 1)
            && fits_u128(input, 2)
            && fits_u128(input, 3)) {
            return Err(DecodeError::NumericOverflow);
        }
        let pool_idx = read_u256(input, 0);
        let liq = read_u128(input, 1);
        let base_qty = read_u128(input, 2);
        let quote_qty = read_u128(input, 3);
        Ok(BurnAmbientBytes {
            pool_idx,
            liq,
            base_qty,
            quote_qty,
        })
    }
}

} // verus!
