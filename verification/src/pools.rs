//! The event that announces a new pool.
//!
//! The base token, the quote token and the pool template are indexed and sit
//! in topics 1 to 3; the initial price, the creator and the initial amounts
//! are in the data payload, one slot per field.

use vstd::prelude::*;
use crate::raw_log::{address_slot, u128_slot};
use crate::raw_log::{address_topic, push_address_slot, push_u128_slot, u256_topic};
use crate::raw_log::{data_slot, word_address, word_fits_u128, word_u128};
use crate::raw_log::{fits_u128, read_address, read_u128};
use crate::raw_log::{lemma_address_slot, lemma_u128_slot, lemma_u256_slot};
use crate::raw_log::{DecodeError, RawLog};
use crate::types::{Address, U256};

verus! {

/// Emitted when a pool is created for a pair of tokens from a template.
#[derive(Clone, Copy, Debug, PartialEq, Eq, Hash, Structural)]
pub struct InitPoolEvent {
    /// The height of the block that holds the event.
    pub block_height: U256,
    /// The base token of the pool.
    pub base: Address,
    /// The quote token of the pool.
    pub quote: Address,
    /// The template of the pool.
    pub pool_idx: U256,
    /// The initial price of the pool, a square root in Q64.64.
    pub price: u128,
    /// The account that created the pool.
    pub creator: Address,
    /// The liquidity moved, in sqrt(X*Y) terms.
    pub liq: u128,
    /// The amount of base tokens moved.
    pub base_qty: u128,
    /// The amount of quote tokens moved.
    pub quote_qty: u128,
}

/// The data payload of an InitPool event.
#[derive(Clone, Copy, Debug, PartialEq, Eq, Hash, Structural)]
pub struct InitPoolBytes {
    /// The initial price of the pool, a square root in Q64.64.
    pub price: u128,
    /// The account that acted.
    pub user: Address,
    /// The liquidity moved, in sqrt(X*Y) terms.
    pub liq: u128,
    /// The amount of base tokens moved.
    pub base_qty: u128,
    /// The amount of quote tokens moved.
    pub quote_qty: u128,
}

impl InitPoolEvent {
    /// What the data payload `input` decodes to: a payload shorter than
    /// 5 slots is truncated, and a 128-bit quantity with bits above its 128
    /// bits is an overflow.
    pub open spec fn decoded_data(input: Seq<u8>) -> Result<InitPoolBytes, DecodeError> {
        if input.len() < 160 {
            Err(DecodeError::TruncatedData)
        } else if !(word_fits_u128(data_slot(input, 0))
                && word_fits_u128(data_slot(input, 2))
                && word_fits_u128(data_slot(input, 3))
                && word_fits_u128(data_slot(input, 4))) {
            Err(DecodeError::NumericOverflow)
        } else {
            Ok(
                InitPoolBytes {
                    price: word_u128(data_slot(input, 0)),
                    user: word_address(data_slot(input, 1)),
                    liq: word_u128(data_slot(input, 2)),
                    base_qty: word_u128(data_slot(input, 3)),
                    quote_qty: word_u128(data_slot(input, 4)),
                },
            )
        }
    }

    /// What the log `log` decodes to. The topic count is tested first, the
    /// block height second, the data payload last.
    #[verifier::opaque]
    pub open spec fn decoded(log: &RawLog) -> Result<InitPoolEvent, DecodeError> {
        match log.header_fault() {
            Some(e) => Err(e),
            None => match Self::decoded_data(log.data@) {
                Err(e) => Err(e),
                Ok(bytes) => Ok(
                    InitPoolEvent {
                        block_height: log.block_number.unwrap(),
                        base: log.topic_address(1),
                        quote: log.topic_address(2),
                        pool_idx: log.topic_u256(3),
                        price: bytes.price,
                        creator: bytes.user,
                        liq: bytes.liq,
                        base_qty: bytes.base_qty,
                        quote_qty: bytes.quote_qty,
                    },
                ),
            },
        }
    }

    /// Decodes every log of `input`, and fails on the first one that does not decode.
    pub fn from_logs(input: &[RawLog]) -> (r: Result<Vec<InitPoolEvent>, DecodeError>)
        ensures
            match r {
                Ok(events) => events@.len() == input@.len() && forall|i: int|
                    0 <= i < input@.len() ==> Self::decoded(&input@[i]) == Ok::<
                        InitPoolEvent,
                        DecodeError,
                    >(#[trigger] events@[i]),
                Err(e) => exists|i: int|
                    0 <= i < input@.len() && #[trigger] Self::decoded(&input@[i]) == Err::<
                        InitPoolEvent,
                        DecodeError,
                    >(e) && forall|j: int|
                        0 <= j < i ==> (#[trigger] Self::decoded(&input@[j])).is_ok(),
            },
    {
        let mut res: Vec<InitPoolEvent> = Vec::new();
        let mut n: usize = 0;
        while n < input.len()
            invariant
                n <= input@.len(),
                res@.len() == n,
                forall|i: int|
                    0 <= i < n ==> Self::decoded(&input@[i]) == Ok::<
                        InitPoolEvent,
                        DecodeError,
                    >(#[trigger] res@[i]),
                forall|j: int| 0 <= j < n ==> (#[trigger] Self::decoded(&input@[j])).is_ok(),
            decreases input@.len() - n,
        {
            match Self::from_log(&input[n]) {
                Ok(event) => {
                    res.push(event);
                },
                Err(e) => {
                    assert(Self::decoded(&input@[n as int]) == Err::<InitPoolEvent, DecodeError>(
                        e,
                    ));
                    return Err(e);
                },
            }
            n = n + 1;
        }
        Ok(res)
    }

    /// Decodes one log: the indexed parameters from its topics, the others
    /// from its data payload.
    pub fn from_log(input: &RawLog) -> (r: Result<InitPoolEvent, DecodeError>)
        ensures
            r == Self::decoded(input),
    {
        reveal(InitPoolEvent::decoded);
        let block_height = match input.check_header() {
            Ok(height) => height,
            Err(e) => {
                return Err(e);
            },
        };
        let base = input.read_topic_address(1);
        let quote = input.read_topic_address(2);
        let pool_idx = input.read_topic_u256(3);
        let bytes = match Self::decode_data_bytes(input.data.as_slice()) {
            Ok(bytes) => bytes,
            Err(e) => {
                return Err(e);
            },
        };
        Ok(InitPoolEvent {
            block_height,
            base,
            quote,
            pool_idx,
            price: bytes.price,
            creator: bytes.user,
            liq: bytes.liq,
            base_qty: bytes.base_qty,
            quote_qty: bytes.quote_qty,
        })
    }

    /// The data payload that carries `bytes`: one slot for each field.
    pub open spec fn encoded_data(bytes: InitPoolBytes) -> Seq<u8> {
        u128_slot(bytes.price)
            + address_slot(bytes.user)
            + u128_slot(bytes.liq)
            + u128_slot(bytes.base_qty)
            + u128_slot(bytes.quote_qty)
    }

    /// The data payload of this event.
    pub open spec fn data_bytes(&self) -> InitPoolBytes {
        InitPoolBytes {
            price: self.price,
            user: self.creator,
            liq: self.liq,
            base_qty: self.base_qty,
            quote_qty: self.quote_qty,
        }
    }

    /// A payload decodes to the fields that it was encoded from.
    pub proof fn lemma_data_round_trip(bytes: InitPoolBytes)
        ensures
            Self::encoded_data(bytes).len() == 160,
            Self::decoded_data(Self::encoded_data(bytes)) == Ok::<InitPoolBytes, DecodeError>(
                bytes,
            ),
    {
        let data = Self::encoded_data(bytes);
        lemma_u128_slot(bytes.price);
        lemma_address_slot(bytes.user);
        lemma_u128_slot(bytes.liq);
        lemma_u128_slot(bytes.base_qty);
        lemma_u128_slot(bytes.quote_qty);
        assert(data_slot(data, 0) =~= u128_slot(bytes.price));
        assert(data_slot(data, 1) =~= address_slot(bytes.user));
        assert(data_slot(data, 2) =~= u128_slot(bytes.liq));
        assert(data_slot(data, 3) =~= u128_slot(bytes.base_qty));
        assert(data_slot(data, 4) =~= u128_slot(bytes.quote_qty));
    }

    /// Encodes the data payload of this event.
    pub fn encode_data_bytes(bytes: &InitPoolBytes) -> (out: Vec<u8>)
        ensures
            out@ == Self::encoded_data(*bytes),
            Self::decoded_data(out@) == Ok::<InitPoolBytes, DecodeError>(*bytes),
    {
        let mut out: Vec<u8> = Vec::new();
        push_u128_slot(&mut out, bytes.price);
        push_address_slot(&mut out, bytes.user);
        push_u128_slot(&mut out, bytes.liq);
        push_u128_slot(&mut out, bytes.base_qty);
        push_u128_slot(&mut out, bytes.quote_qty);
        proof {
            assert(out@ =~= Self::encoded_data(*bytes));
            Self::lemma_data_round_trip(*bytes);
        }
        out
    }

    /// The log that carries this event under the signature hash
    /// `signature`. Decoding the log gives the event back.
    pub fn to_log(&self, signature: [u8; 32]) -> (log: RawLog)
        ensures
            Self::decoded(&log) == Ok::<InitPoolEvent, DecodeError>(*self),
            log.topics@.len() == 4,
            log.topics@[0] == signature,
            log.data@ == Self::encoded_data(self.data_bytes()),
            log.block_number == Some(self.block_height),
    {
        let mut topics: Vec<[u8; 32]> = Vec::new();
        topics.push(signature);
        topics.push(address_topic(self.base));
        topics.push(address_topic(self.quote));
        topics.push(u256_topic(self.pool_idx));
        let bytes = InitPoolBytes {
            price: self.price,
            user: self.creator,
            liq: self.liq,
            base_qty: self.base_qty,
            quote_qty: self.quote_qty,
        };
        let data = Self::encode_data_bytes(&bytes);
        let log = RawLog { topics, data, block_number: Some(self.block_height) };
        proof {
            reveal(InitPoolEvent::decoded);
            lemma_address_slot(self.base);
            lemma_address_slot(self.quote);
            lemma_u256_slot(self.pool_idx);
        }
        log
    }

    /// Decodes the data payload of this event.
    pub fn decode_data_bytes(input: &[u8]) -> (r: Result<InitPoolBytes, DecodeError>)
        ensures
            r == Self::decoded_data(input@),
    {
        if input.len() < 5 * 32 {
            return Err(DecodeError::TruncatedData);
        }
        if !(fits_u128(input, 0)
            && fits_u128(input, 2)
            && fits_u128(input, 3)
            && fits_u128(input, 4)) {
            return Err(DecodeError::NumericOverflow);
        }
        let price = read_u128(input, 0);
        let user = read_address(input, 1);
        let liq = read_u128(input, 2);
        let base_qty = read_u128(input, 3);
        let quote_qty = read_u128(input, 4);
        Ok(InitPoolBytes {
            price,
            user,
            liq,
            base_qty,
            quote_qty,
        })
    }
}

} // verus!
