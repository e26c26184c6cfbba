//! Raw event logs as the chain hands them out, and the typed readers for
//! their topics and data slots.

use vstd::prelude::*;
use crate::abi_util::{be_bytes, be_value, pow256, signed32, slot_at};
use crate::abi_util::{lemma_be_value_zero_prefix, lemma_pow256_add, lemma_pow256_positive};
use crate::types::{lemma_bytes_denote, u256_max, write_be};
use crate::abi_util::{parse_i32, parse_u128, slot_fits_u128};
use crate::abi_util::{lemma_be_value_bound, lemma_pow256_values};
use crate::types::{parse_address, parse_uint256, Address, U256};

verus! {

/// One event log: its topics, its data payload and the block it was mined in.
///
/// The first topic is the hash of the event's signature; the next three hold
/// the indexed parameters.
#[derive(Clone, Debug, PartialEq, Eq)]
pub struct RawLog {
    /// The topic words, 32 bytes each.
    pub topics: Vec<[u8; 32]>,
    /// The non-indexed parameters, one 32-byte slot each.
    pub data: Vec<u8>,
    /// The height of the block that holds the log; none for a pending log.
    pub block_number: Option<U256>,
}

/// Why a log could not be decoded.
#[derive(Clone, Copy, Debug, PartialEq, Eq, Structural)]
pub enum DecodeError {
    /// The log has fewer than four topics.
    TooFewTopics,
    /// The log carries no block height.
    MissingBlockHeight,
    /// The data payload is shorter than the event's slots.
    TruncatedData,
    /// A 128-bit quantity has non-zero bits above its 128 bits.
    NumericOverflow,
}

/// The 256-bit word that denotes `n`.
pub open spec fn u256_of(n: nat) -> U256 {
    U256 {
        hi: (n / 0x1_0000_0000_0000_0000_0000_0000_0000_0000nat) as u128,
        lo: (n % 0x1_0000_0000_0000_0000_0000_0000_0000_0000nat) as u128,
    }
}

/// The address whose 20 bytes denote `n`.
pub open spec fn address_of(n: nat) -> Address {
    Address {
        hi: (n / 0x1_0000_0000_0000_0000_0000_0000_0000_0000nat) as u32,
        lo: (n % 0x1_0000_0000_0000_0000_0000_0000_0000_0000nat) as u128,
    }
}

/// The word that denotes the value of a word is that word.
pub proof fn lemma_u256_of_value(w: U256)
    ensures
        u256_of(w.value()) == w,
{
}

/// The word that denotes a number of 256 bits has that number as its value.
pub proof fn lemma_u256_of_bounded(n: nat)
    requires
        n <= u256_max(),
    ensures
        u256_of(n).value() == n,
{
    lemma_pow256_values();
    lemma_pow256_add(16, 16);
    let p: nat = pow256(16);
    assert(n / p < p) by (nonlinear_arith)
        requires
            n < p * p,
            p > 0,
    ;
    assert(n % p < p && n == (n / p) * p + n % p) by (nonlinear_arith)
        requires
            p > 0,
    ;
}

/// The address that denotes the value of an address is that address.
pub proof fn lemma_address_of_value(a: Address)
    ensures
        address_of(a.value()) == a,
{
}

/// The address in the 32-byte word `word`: its last 20 bytes.
pub open spec fn word_address(word: Seq<u8>) -> Address {
    address_of(be_value(word.subrange(12, 32)))
}

/// The 256-bit number in the 32-byte word `word`.
pub open spec fn word_u256(word: Seq<u8>) -> U256 {
    u256_of(be_value(word))
}

/// The 128-bit number in the last 16 bytes of `word`.
pub open spec fn word_u128(word: Seq<u8>) -> u128 {
    be_value(word.subrange(16, 32)) as u128
}

/// The signed 32-bit number in the last 4 bytes of `word`.
pub open spec fn word_tick(word: Seq<u8>) -> i32 {
    signed32(be_value(word.subrange(28, 32))) as i32
}

/// Whether the number in `word` fits in 128 bits.
pub open spec fn word_fits_u128(word: Seq<u8>) -> bool {
    be_value(word) < pow256(16)
}

/// Slot number `k` of a data payload.
pub open spec fn data_slot(data: Seq<u8>, k: int) -> Seq<u8> {
    slot_at(data, 32 * k)
}

/// `count` bytes of the value `byte`.
pub open spec fn fill(byte: u8, count: nat) -> Seq<u8> {
    Seq::new(count, |i: int| byte)
}

/// The slot that holds the 128-bit number `v`: 16 zero bytes, then the
/// number's 16 bytes.
pub open spec fn u128_slot(v: u128) -> Seq<u8> {
    fill(0, 16) + be_bytes(v as nat, 16)
}

/// The word that holds the address `a`: 12 zero bytes, then the address.
pub open spec fn address_slot(a: Address) -> Seq<u8> {
    fill(0, 12) + a.bytes()
}

/// The word that holds the 256-bit number `v`.
pub open spec fn u256_slot(v: U256) -> Seq<u8> {
    v.bytes()
}

/// The 32 bits of the tick `t`, read as an unsigned number.
pub open spec fn unsigned32(t: i32) -> nat {
    if t < 0 {
        (t + 0x1_0000_0000) as nat
    } else {
        t as nat
    }
}

/// The slot that holds the tick `t`: its 4 bytes in two's complement,
/// preceded by 28 bytes that extend its sign.
pub open spec fn tick_slot(t: i32) -> Seq<u8> {
    fill(
        if t < 0 {
            0xff
        } else {
            0
        },
        28,
    ) + be_bytes(unsigned32(t), 4)
}

/// The slot of a 128-bit number has 32 bytes, fits in 128 bits and reads as
/// the number.
pub proof fn lemma_u128_slot(v: u128)
    ensures
        u128_slot(v).len() == 32,
        word_fits_u128(u128_slot(v)),
        word_u128(u128_slot(v)) == v,
{
    lemma_pow256_values();
    lemma_bytes_denote(v as nat, 16);
    let s = u128_slot(v);
    assert(s.subrange(16, 32) =~= be_bytes(v as nat, 16));
    lemma_be_value_zero_prefix(s, 16);
}

/// The word of an address has 32 bytes and reads as the address.
pub proof fn lemma_address_slot(a: Address)
    ensures
        address_slot(a).len() == 32,
        word_address(address_slot(a)) == a,
{
    lemma_pow256_values();
    lemma_pow256_add(4, 16);
    let p: nat = pow256(16);
    let q: nat = pow256(4);
    let hi: nat = a.hi as nat;
    let lo: nat = a.lo as nat;
    assert(hi * p + lo < q * p) by (nonlinear_arith)
        requires
            hi <= q - 1,
            lo <= p - 1,
    ;
    lemma_bytes_denote(a.value(), 20);
    assert(address_slot(a).subrange(12, 32) =~= a.bytes());
    lemma_address_of_value(a);
}

/// The word of a 256-bit number has 32 bytes and reads as the number.
pub proof fn lemma_u256_slot(v: U256)
    ensures
        u256_slot(v).len() == 32,
        word_u256(u256_slot(v)) == v,
{
    U256::lemma_value_bound(v);
    lemma_pow256_positive(32);
    lemma_bytes_denote(v.value(), 32);
    lemma_u256_of_value(v);
}

/// The slot of a tick has 32 bytes and reads as the tick.
pub proof fn lemma_tick_slot(t: i32)
    ensures
        tick_slot(t).len() == 32,
        word_tick(tick_slot(t)) == t,
{
    lemma_pow256_values();
    lemma_bytes_denote(unsigned32(t), 4);
    assert(tick_slot(t).subrange(28, 32) =~= be_bytes(unsigned32(t), 4));
}

/// Appends `count` bytes of the value `byte` to `out`.
fn push_fill(out: &mut Vec<u8>, byte: u8, count: usize)
    ensures
        final(out)@ == old(out)@ + fill(byte, count as nat),
{
    let mut n: usize = 0;
    assert(out@ =~= old(out)@ + fill(byte, 0));
    while n < count
        invariant
            n <= count,
            out@ == old(out)@ + fill(byte, n as nat),
        decreases count - n,
    {
        out.push(byte);
        n = n + 1;
        assert(out@ =~= old(out)@ + fill(byte, n as nat));
    }
}

/// Appends the slot of the 128-bit number `v` to `out`.
pub fn push_u128_slot(out: &mut Vec<u8>, v: u128)
    ensures
        final(out)@ == old(out)@ + u128_slot(v),
{
    proof {
        lemma_pow256_values();
    }
    push_fill(out, 0, 16);
    let mut low = write_be(v, 16);
    out.append(&mut low);
    assert(out@ =~= old(out)@ + u128_slot(v));
}

/// Appends the word of the address `a` to `out`.
pub fn push_address_slot(out: &mut Vec<u8>, a: Address)
    ensures
        final(out)@ == old(out)@ + address_slot(a),
{
    push_fill(out, 0, 12);
    let mut low = a.to_bytes();
    out.append(&mut low);
    assert(out@ =~= old(out)@ + address_slot(a));
}

/// Appends the word of the 256-bit number `v` to `out`.
pub fn push_u256_slot(out: &mut Vec<u8>, v: U256)
    ensures
        final(out)@ == old(out)@ + u256_slot(v),
{
    let mut word = v.to_be_bytes();
    out.append(&mut word);
}

/// Appends the slot of the tick `t` to `out`.
pub fn push_tick_slot(out: &mut Vec<u8>, t: i32)
    ensures
        final(out)@ == old(out)@ + tick_slot(t),
{
    proof {
        lemma_pow256_values();
    }
    if t < 0 {
        push_fill(out, 0xff, 28);
        let low: i64 = t as i64 + 0x1_0000_0000;
        let mut bytes = write_be(low as u128, 4);
        out.append(&mut bytes);
    } else {
        push_fill(out, 0, 28);
        let mut bytes = write_be(t as u128, 4);
        out.append(&mut bytes);
    }
    assert(out@ =~= old(out)@ + tick_slot(t));
}

/// The topic word made of the 32 bytes of `bytes`.
fn word_of(bytes: &Vec<u8>) -> (word: [u8; 32])
    requires
        bytes@.len() == 32,
    ensures
        word@ == bytes@,
{
    let mut word: [u8; 32] = [0u8; 32];
    let mut i: usize = 0;
    while i < 32
        invariant
            i <= 32,
            bytes@.len() == 32,
            forall|j: int| 0 <= j < i ==> word@[j] == bytes@[j],
        decreases 32 - i,
    {
        word.set(i, bytes[i]);
        i = i + 1;
    }
    assert(word@ =~= bytes@);
    word
}

/// The topic that holds the address `a`.
pub fn address_topic(a: Address) -> (word: [u8; 32])
    ensures
        word@ == address_slot(a),
{
    let mut bytes: Vec<u8> = Vec::new();
    push_address_slot(&mut bytes, a);
    proof {
        lemma_address_slot(a);
        assert(bytes@ =~= address_slot(a));
    }
    word_of(&bytes)
}

/// The topic that holds the 256-bit number `v`.
pub fn u256_topic(v: U256) -> (word: [u8; 32])
    ensures
        word@ == u256_slot(v),
{
    let bytes = v.to_be_bytes();
    word_of(&bytes)
}

/// Reads the address in slot `k` of `data`.
pub fn read_address(data: &[u8], k: usize) -> (a: Address)
    requires
        32 * (k + 1) <= data@.len(),
    ensures
        a == word_address(data_slot(data@, k as int)),
{
    let total: usize = data.len();
    let a = parse_address(data, 32 * k);
    proof {
        assert(data_slot(data@, k as int).subrange(12, 32) =~= data@.subrange(
            32 * k + 12,
            32 * k + 32,
        ));
        lemma_address_of_value(a);
    }
    a
}

/// Reads the 256-bit number in slot `k` of `data`.
pub fn read_u256(data: &[u8], k: usize) -> (w: U256)
    requires
        32 * (k + 1) <= data@.len(),
    ensures
        w == word_u256(data_slot(data@, k as int)),
{
    let total: usize = data.len();
    let w = parse_uint256(data, 32 * k);
    proof {
        lemma_u256_of_value(w);
    }
    w
}

/// Reads the 128-bit number in slot `k` of `data`.
pub fn read_u128(data: &[u8], k: usize) -> (v: u128)
    requires
        32 * (k + 1) <= data@.len(),
    ensures
        v == word_u128(data_slot(data@, k as int)),
{
    let total: usize = data.len();
    let v = parse_u128(data, 32 * k);
    proof {
        let part = data@.subrange(32 * k + 16, 32 * k + 32);
        assert(data_slot(data@, k as int).subrange(16, 32) =~= part);
        lemma_be_value_bound(part);
        lemma_pow256_values();
    }
    v
}

/// Reads the tick in slot `k` of `data`.
pub fn read_tick(data: &[u8], k: usize) -> (v: i32)
    requires
        32 * (k + 1) <= data@.len(),
    ensures
        v == word_tick(data_slot(data@, k as int)),
{
    let total: usize = data.len();
    let v = parse_i32(data, 32 * k);
    proof {
        let part = data@.subrange(32 * k + 28, 32 * k + 32);
        assert(data_slot(data@, k as int).subrange(28, 32) =~= part);
        lemma_be_value_bound(part);
        lemma_pow256_values();
    }
    v
}

/// Whether the number in slot `k` of `data` fits in 128 bits.
pub fn fits_u128(data: &[u8], k: usize) -> (fits: bool)
    requires
        32 * (k + 1) <= data@.len(),
    ensures
        fits == word_fits_u128(data_slot(data@, k as int)),
{
    let total: usize = data.len();
    slot_fits_u128(data, 32 * k)
}

impl RawLog {
    /// What stops decoding before the data payload is looked at, if anything:
    /// the topic count is tested first, the block height second.
    pub open spec fn header_fault(&self) -> Option<DecodeError> {
        if self.topics@.len() < 4 {
            Some(DecodeError::TooFewTopics)
        } else if self.block_number.is_none() {
            Some(DecodeError::MissingBlockHeight)
        } else {
            None
        }
    }

    /// The address in topic `i`.
    pub open spec fn topic_address(&self, i: int) -> Address {
        word_address(self.topics@[i]@)
    }

    /// The 256-bit number in topic `i`.
    pub open spec fn topic_u256(&self, i: int) -> U256 {
        word_u256(self.topics@[i]@)
    }

    /// Tests the topic count and the block height, and returns the height.
    pub fn check_header(&self) -> (r: Result<U256, DecodeError>)
        ensures
            match r {
                Ok(height) => self.header_fault().is_none() && self.block_number == Some(height),
                Err(e) => self.header_fault() == Some(e),
            },
    {
        if self.topics.len() < 4 {
            return Err(DecodeError::TooFewTopics);
        }
        match self.block_number {
            Some(height) => Ok(height),
            None => Err(DecodeError::MissingBlockHeight),
        }
    }

    /// Reads the address in topic `i`, ignoring the topic's first 12 bytes.
    pub fn read_topic_address(&self, i: usize) -> (a: Address)
        requires
            i < self.topics@.len(),
        ensures
            a == self.topic_address(i as int),
    {
        let word: &[u8; 32] = &self.topics[i];
        let a = parse_address(word.as_slice(), 0);
        proof {
            lemma_address_of_value(a);
        }
        a
    }

    /// Reads the 256-bit number in topic `i`.
    pub fn read_topic_u256(&self, i: usize) -> (w: U256)
        requires
            i < self.topics@.len(),
        ensures
            w == self.topic_u256(i as int),
    {
        let word: &[u8; 32] = &self.topics[i];
        let w = parse_uint256(word.as_slice(), 0);
        proof {
            assert(word@.subrange(0, 32) =~= word@);
            lemma_u256_of_value(w);
        }
        w
    }
}

} // verus!
