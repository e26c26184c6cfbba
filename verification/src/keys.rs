//! The keys under which records are stored.
//!
//! A key is a fixed prefix that names the kind of record, followed by the
//! fields that identify the record, each written as text and set apart by
//! `_`. Addresses are written in their checksummed hexadecimal form, numbers
//! in decimal. The keys of one user, or of one user and pool, share a prefix,
//! so that a prefix scan lists exactly that history.

use vstd::prelude::*;
use vstd::string::StringExecFns;
use crate::abi_util::be_value;
use crate::pools::InitPoolEvent;
use crate::positions::{BurnAmbientEvent, BurnRangedEvent, MintAmbientEvent, MintRangedEvent};
use crate::types::{Address, U256};

verus! {

/// Key of the cursor: the last block that was searched.
pub const LATEST_SEARCHED_BLOCK_KEY: &'static str = "block";

/// Prefix of the keys of InitPool events.
pub const INIT_POOL_PREFIX: &'static str = "init-pool_";

/// Prefix of the keys of pools.
pub const POOL_PREFIX: &'static str = "pool_";

/// Prefix of the keys of MintRanged events.
pub const MINT_RANGED_PREFIX: &'static str = "mint-ranged_";

/// Prefix of the keys of MintAmbient events.
pub const MINT_AMBIENT_PREFIX: &'static str = "mint-ambient_";

/// Prefix of the keys of BurnRanged events.
pub const BURN_RANGED_PREFIX: &'static str = "burn-ranged_";

/// Prefix of the keys of BurnAmbient events.
pub const BURN_AMBIENT_PREFIX: &'static str = "burn-ambient_";

/// Prefix of the keys of the latest curve of a pool.
pub const LATEST_CURVE_KEY: &'static str = "curve";

/// Prefix of the keys of the latest price of a pool.
pub const LATEST_PRICE_KEY: &'static str = "price";

/// Prefix of the keys of the latest liquidity of a pool.
pub const LATEST_LIQUIDITY_KEY: &'static str = "liquidity";

/// The text that `clarity` prints for the address of the 20 bytes `bytes`:
/// `0x` and the 40 hexadecimal digits of the bytes, letters in the case that
/// the EIP-55 checksum gives them.
pub uninterp spec fn address_text(bytes: Seq<u8>) -> Seq<char>;

/// The character of the decimal digit `d`.
pub open spec fn digit_char(d: nat) -> char {
    (0x30 + d) as char
}

/// The decimal writing of `n`, without leading zeros.
pub open spec fn decimal_text(n: nat) -> Seq<char>
    decreases n,
{
    if n < 10 {
        seq![digit_char(n)]
    } else {
        decimal_text(n / 10).push(digit_char(n % 10))
    }
}

/// The decimal writing of `v`, with a minus sign where `v` is negative.
pub open spec fn signed_decimal_text(v: int) -> Seq<char> {
    if v < 0 {
        seq!['-'] + decimal_text((-v) as nat)
    } else {
        decimal_text(v as nat)
    }
}

/// Calls `clarity::Address::from_slice` on the 20 bytes and prints the
/// address with its `Display`. Trusted: the result is the text that the name
/// `address_text` stands for, and it has 42 characters. `from_slice` fails on
/// no slice of 20 bytes.
#[verifier::external_body]
fn print_address(bytes: &Vec<u8>) -> (s: String)
    requires
        bytes@.len() == 20,
    ensures
        s@ == address_text(bytes@),
        s@.len() == 42,
{
    match clarity::Address::from_slice(bytes.as_slice()) {
        Ok(address) => address.to_string(),
        Err(_) => String::new(),
    }
}

/// Calls `clarity::Uint256::from_be_bytes` on the 32 bytes and prints the
/// number with its `Display`. Trusted: `from_be_bytes` reads the bytes as one
/// big-endian number, and `Display` writes a number in decimal without
/// leading zeros.
#[verifier::external_body]
fn print_uint256(bytes: &Vec<u8>) -> (s: String)
    requires
        bytes@.len() == 32,
    ensures
        s@ == decimal_text(be_value(bytes@)),
{
    clarity::Uint256::from_be_bytes(bytes.as_slice()).to_string()
}

/// Calls `i32::to_string`. Trusted: the result is the decimal writing of
/// `v`, with a minus sign before it where `v` is negative.
#[verifier::external_body]
fn print_tick(v: i32) -> (s: String)
    ensures
        s@ == signed_decimal_text(v as int),
{
    v.to_string()
}

impl Address {
    /// The text of this address in a key.
    pub open spec fn text(self) -> Seq<char> {
        address_text(self.bytes())
    }

    /// The text of this address in a key: 42 characters, whatever the address.
    pub fn to_text(&self) -> (s: String)
        ensures
            s@ == self.text(),
            s@.len() == 42,
    {
        let bytes = self.to_bytes();
        print_address(&bytes)
    }
}

impl U256 {
    /// The text of this number in a key: its decimal writing.
    pub open spec fn text(self) -> Seq<char> {
        decimal_text(self.value())
    }

    /// The text of this number in a key.
    pub fn to_text(&self) -> (s: String)
        ensures
            s@ == self.text(),
    {
        let bytes = self.to_be_bytes();
        print_uint256(&bytes)
    }
}

/// The text of a tick in a key: its decimal writing.
pub fn tick_text(v: i32) -> (s: String)
    ensures
        s@ == signed_decimal_text(v as int),
{
    print_tick(v)
}

/// A text that begins with `prefix` and a field of a fixed width begins with
/// `prefix` and another field of that width only if the two fields are equal:
/// with fields of one width, no key is found under the prefix of another.
pub proof fn lemma_fixed_width_field(
    prefix: Seq<char>,
    a: Seq<char>,
    b: Seq<char>,
    rest: Seq<char>,
)
    requires
        a.len() == b.len(),
    ensures
        (prefix + a).is_prefix_of(prefix + b + rest) <==> a == b,
{
    let whole = prefix + b + rest;
    if (prefix + a).is_prefix_of(whole) {
        assert forall|i: int| 0 <= i < a.len() implies a[i] == b[i] by {
            assert((prefix + a)[prefix.len() + i] == whole[prefix.len() + i]);
        }
        assert(a =~= b);
    }
    if a == b {
        assert(whole.subrange(0, (prefix + a).len() as int) =~= prefix + a);
    }
}

/// The text that identifies a pool: base token, quote token and template,
/// set apart by `_`.
pub open spec fn pool_text(base: Address, quote: Address, pool_idx: U256) -> Seq<char> {
    base.text() + "_"@ + quote.text() + "_"@ + pool_idx.text()
}

/// Appends to `key` the text that identifies a pool.
fn push_pool(key: String, base: Address, quote: Address, pool_idx: U256) -> (k: String)
    ensures
        k@ == key@ + pool_text(base, quote, pool_idx),
{
    let k = key.concat(base.to_text().as_str()).concat("_").concat(
        quote.to_text().as_str(),
    ).concat("_").concat(pool_idx.to_text().as_str());
    assert(k@ =~= key@ + pool_text(base, quote, pool_idx));
    k
}

/// Appends to `key` a `_` and the text of `block`.
fn push_block(key: String, block: U256) -> (k: String)
    ensures
        k@ == key@ + "_"@ + block.text(),
{
    key.concat("_").concat(block.to_text().as_str())
}

/// Appends to `key` a `_`, the text of `bid_tick`, a `_` and the text of `ask_tick`.
fn push_ticks(key: String, bid_tick: i32, ask_tick: i32) -> (k: String)
    ensures
        k@ == key@ + "_"@ + signed_decimal_text(bid_tick as int) + "_"@ + signed_decimal_text(
            ask_tick as int,
        ),
{
    key.concat("_").concat(tick_text(bid_tick).as_str()).concat("_").concat(
        tick_text(ask_tick).as_str(),
    )
}

/// The key of the InitPool event of a pool.
pub open spec fn init_pool_key_text(base: Address, quote: Address, pool_idx: U256) -> Seq<char> {
    INIT_POOL_PREFIX@ + pool_text(base, quote, pool_idx)
}

/// The key of the InitPool event of a pool.
pub fn init_pool_key(base: Address, quote: Address, pool_idx: U256) -> (k: String)
    ensures
        k@ == init_pool_key_text(base, quote, pool_idx),
{
    push_pool(String::from_str(INIT_POOL_PREFIX), base, quote, pool_idx)
}

/// The key of a pool.
pub open spec fn pool_key_text(base: Address, quote: Address, pool_idx: U256) -> Seq<char> {
    POOL_PREFIX@ + pool_text(base, quote, pool_idx)
}

/// The key of a pool.
pub fn pool_key(base: Address, quote: Address, pool_idx: U256) -> (k: String)
    ensures
        k@ == pool_key_text(base, quote, pool_idx),
{
    push_pool(String::from_str(POOL_PREFIX), base, quote, pool_idx)
}

/// The key of the latest curve of a pool.
pub open spec fn curve_key_text(base: Address, quote: Address, pool_idx: U256) -> Seq<char> {
    LATEST_CURVE_KEY@ + pool_text(base, quote, pool_idx)
}

/// The key of the latest curve of a pool.
pub fn curve_key(base: Address, quote: Address, pool_idx: U256) -> (k: String)
    ensures
        k@ == curve_key_text(base, quote, pool_idx),
{
    push_pool(String::from_str(LATEST_CURVE_KEY), base, quote, pool_idx)
}

/// The key of the latest price of a pool.
pub open spec fn price_key_text(base: Address, quote: Address, pool_idx: U256) -> Seq<char> {
    LATEST_PRICE_KEY@ + pool_text(base, quote, pool_idx)
}

/// The key of the latest price of a pool.
pub fn price_key(base: Address, quote: Address, pool_idx: U256) -> (k: String)
    ensures
        k@ == price_key_text(base, quote, pool_idx),
{
    push_pool(String::from_str(LATEST_PRICE_KEY), base, quote, pool_idx)
}

/// The key of the latest liquidity of a pool.
pub open spec fn liquidity_key_text(base: Address, quote: Address, pool_idx: U256) -> Seq<char> {
    LATEST_LIQUIDITY_KEY@ + pool_text(base, quote, pool_idx)
}

/// The key of the latest liquidity of a pool.
pub fn liquidity_key(base: Address, quote: Address, pool_idx: U256) -> (k: String)
    ensures
        k@ == liquidity_key_text(base, quote, pool_idx),
{
    push_pool(String::from_str(LATEST_LIQUIDITY_KEY), base, quote, pool_idx)
}

/// The prefix of the keys of the MintRanged events of `user`.
pub open spec fn mint_ranged_user_prefix_text(user: Address) -> Seq<char> {
    MINT_RANGED_PREFIX@ + user.text()
}

/// The prefix of the keys of the MintRanged events of `user`.
pub fn mint_ranged_user_prefix(user: Address) -> (k: String)
    ensures
        k@ == mint_ranged_user_prefix_text(user),
{
    String::from_str(MINT_RANGED_PREFIX).concat(user.to_text().as_str())
}

/// The prefix of the keys of the MintRanged events of `user` in one pool.
pub open spec fn mint_ranged_user_pool_prefix_text(
    user: Address,
    base: Address,
    quote: Address,
    pool_idx: U256,
) -> Seq<char> {
    mint_ranged_user_prefix_text(user) + "_"@ + pool_text(base, quote, pool_idx)
}

/// The prefix of the keys of the MintRanged events of `user` in one pool.
pub fn mint_ranged_user_pool_prefix(
    user: Address,
    base: Address,
    quote: Address,
    pool_idx: U256,
) -> (k: String)
    ensures
        k@ == mint_ranged_user_pool_prefix_text(user, base, quote, pool_idx),
{
    let k = push_pool(mint_ranged_user_prefix(user).concat("_"), base, quote, pool_idx);
    assert(k@ =~= mint_ranged_user_pool_prefix_text(user, base, quote, pool_idx));
    k
}

/// The key of one MintRanged event: the prefix of its user and pool, then its
/// ticks and its block.
pub open spec fn mint_ranged_key_text(
    user: Address,
    base: Address,
    quote: Address,
    pool_idx: U256,
    bid_tick: i32,
    ask_tick: i32,
    block: U256,
) -> Seq<char> {
    mint_ranged_user_pool_prefix_text(user, base, quote, pool_idx) + "_"@ + signed_decimal_text(
        bid_tick as int,
    ) + "_"@ + signed_decimal_text(ask_tick as int) + "_"@ + block.text()
}

/// The key of one MintRanged event.
pub fn mint_ranged_key(
    user: Address,
    base: Address,
    quote: Address,
    pool_idx: U256,
    bid_tick: i32,
    ask_tick: i32,
    block: U256,
) -> (k: String)
    ensures
        k@ == mint_ranged_key_text(user, base, quote, pool_idx, bid_tick, ask_tick, block),
{
    push_block(
        push_ticks(mint_ranged_user_pool_prefix(user, base, quote, pool_idx), bid_tick, ask_tick),
        block,
    )
}

/// The prefix of the keys of the MintAmbient events of `user`.
pub open spec fn mint_ambient_user_prefix_text(user: Address) -> Seq<char> {
    MINT_AMBIENT_PREFIX@ + user.text()
}

/// The prefix of the keys of the MintAmbient events of `user`.
pub fn mint_ambient_user_prefix(user: Address) -> (k: String)
    ensures
        k@ == mint_ambient_user_prefix_text(user),
{
    String::from_str(MINT_AMBIENT_PREFIX).concat(user.to_text().as_str())
}

/// The prefix of the keys of the MintAmbient events of `user` in one pool.
pub open spec fn mint_ambient_user_pool_prefix_text(
    user: Address,
    base: Address,
    quote: Address,
    pool_idx: U256,
) -> Seq<char> {
    mint_ambient_user_prefix_text(user) + "_"@ + pool_text(base, quote, pool_idx)
}

/// The prefix of the keys of the MintAmbient events of `user` in one pool.
pub fn mint_ambient_user_pool_prefix(
    user: Address,
    base: Address,
    quote: Address,
    pool_idx: U256,
) -> (k: String)
    ensures
        k@ == mint_ambient_user_pool_prefix_text(user, base, quote, pool_idx),
{
    let k = push_pool(mint_ambient_user_prefix(user).concat("_"), base, quote, pool_idx);
    assert(k@ =~= mint_ambient_user_pool_prefix_text(user, base, quote, pool_idx));
    k
}

/// The key of one MintAmbient event: the prefix of its user and pool, then its block.
pub open spec fn mint_ambient_key_text(
    user: Address,
    block: U256,
    base: Address,
    quote: Address,
    pool_idx: U256,
) -> Seq<char> {
    mint_ambient_user_pool_prefix_text(user, base, quote, pool_idx) + "_"@ + block.text()
}

/// The key of one MintAmbient event.
pub fn mint_ambient_key(
    user: Address,
    block: U256,
    base: Address,
    quote: Address,
    pool_idx: U256,
) -> (k: String)
    ensures
        k@ == mint_ambient_key_text(user, block, base, quote, pool_idx),
{
    push_block(mint_ambient_user_pool_prefix(user, base, quote, pool_idx), block)
}

/// The prefix of the keys of the BurnRanged events of `user`.
pub open spec fn burn_ranged_user_prefix_text(user: Address) -> Seq<char> {
    BURN_RANGED_PREFIX@ + user.text()
}

/// The prefix of the keys of the BurnRanged events of `user`.
pub fn burn_ranged_user_prefix(user: Address) -> (k: String)
    ensures
        k@ == burn_ranged_user_prefix_text(user),
{
    String::from_str(BURN_RANGED_PREFIX).concat(user.to_text().as_str())
}

/// The prefix of the keys of the BurnRanged events of `user` in one pool.
pub open spec fn burn_ranged_user_pool_prefix_text(
    user: Address,
    base: Address,
    quote: Address,
    pool_idx: U256,
) -> Seq<char> {
    burn_ranged_user_prefix_text(user) + "_"@ + pool_text(base, quote, pool_idx)
}

/// The prefix of the keys of the BurnRanged events of `user` in one pool.
pub fn burn_ranged_user_pool_prefix(
    user: Address,
    base: Address,
    quote: Address,
    pool_idx: U256,
) -> (k: String)
    ensures
        k@ == burn_ranged_user_pool_prefix_text(user, base, quote, pool_idx),
{
    let k = push_pool(burn_ranged_user_prefix(user).concat("_"), base, quote, pool_idx);
    assert(k@ =~= burn_ranged_user_pool_prefix_text(user, base, quote, pool_idx));
    k
}

/// The key of one BurnRanged event: the prefix of its user and pool, then its
/// ticks and its block.
pub open spec fn burn_ranged_key_text(
    user: Address,
    base: Address,
    quote: Address,
    pool_idx: U256,
    bid_tick: i32,
    ask_tick: i32,
    block: U256,
) -> Seq<char> {
    burn_ranged_user_pool_prefix_text(user, base, quote, pool_idx) + "_"@ + signed_decimal_text(
        bid_tick as int,
    ) + "_"@ + signed_decimal_text(ask_tick as int) + "_"@ + block.text()
}

/// The key of one BurnRanged event.
pub fn burn_ranged_key(
    user: Address,
    base: Address,
    quote: Address,
    pool_idx: U256,
    bid_tick: i32,
    ask_tick: i32,
    block: U256,
) -> (k: String)
    ensures
        k@ == burn_ranged_key_text(user, base, quote, pool_idx, bid_tick, ask_tick, block),
{
    push_block(
        push_ticks(burn_ranged_user_pool_prefix(user, base, quote, pool_idx), bid_tick, ask_tick),
        block,
    )
}

/// The prefix of the keys of the BurnAmbient events of `user`.
pub open spec fn burn_ambient_user_prefix_text(user: Address) -> Seq<char> {
    BURN_AMBIENT_PREFIX@ + user.text()
}

/// The prefix of the keys of the BurnAmbient events of `user`.
pub fn burn_ambient_user_prefix(user: Address) -> (k: String)
    ensures
        k@ == burn_ambient_user_prefix_text(user),
{
    String::from_str(BURN_AMBIENT_PREFIX).concat(user.to_text().as_str())
}

/// The prefix of the keys of the BurnAmbient events of `user` in one pool.
pub open spec fn burn_ambient_user_pool_prefix_text(
    user: Address,
    base: Address,
    quote: Address,
    pool_idx: U256,
) -> Seq<char> {
    burn_ambient_user_prefix_text(user) + "_"@ + pool_text(base, quote, pool_idx)
}

/// The prefix of the keys of the BurnAmbient events of `user` in one pool.
pub fn burn_ambient_user_pool_prefix(
    user: Address,
    base: Address,
    quote: Address,
    pool_idx: U256,
) -> (k: String)
    ensures
        k@ == burn_ambient_user_pool_prefix_text(user, base, quote, pool_idx),
{
    let k = push_pool(burn_ambient_user_prefix(user).concat("_"), base, quote, pool_idx);
    assert(k@ =~= burn_ambient_user_pool_prefix_text(user, base, quote, pool_idx));
    k
}

/// The key of one BurnAmbient event: the prefix of its user and pool, then its block.
pub open spec fn burn_ambient_key_text(
    user: Address,
    base: Address,
    quote: Address,
    pool_idx: U256,
    block: U256,
) -> Seq<char> {
    burn_ambient_user_pool_prefix_text(user, base, quote, pool_idx) + "_"@ + block.text()
}

/// The key of one BurnAmbient event.
pub fn burn_ambient_key(
    user: Address,
    base: Address,
    quote: Address,
    pool_idx: U256,
    block: U256,
) -> (k: String)
    ensures
        k@ == burn_ambient_key_text(user, base, quote, pool_idx, block),
{
    push_block(burn_ambient_user_pool_prefix(user, base, quote, pool_idx), block)
}

/// The prefix of a user selects the MintRanged events of that user only: where
/// the texts of two users have one width, the key of an event of `user`
/// begins with the prefix of `other` only if the two texts are the same.
pub proof fn lemma_mint_ranged_prefix_selects_user(
    other: Address,
    user: Address,
    base: Address,
    quote: Address,
    pool_idx: U256,
    bid_tick: i32,
    ask_tick: i32,
    block: U256,
)
    requires
        other.text().len() == user.text().len(),
    ensures
        mint_ranged_user_prefix_text(other).is_prefix_of(
            mint_ranged_key_text(
                user,
                base,
                quote,
                pool_idx,
                bid_tick,
                ask_tick,
                block,
            ),
        ) <==> other.text() == user.text(),
{
    let rest = "_"@ + pool_text(base, quote, pool_idx) + "_"@ + signed_decimal_text(bid_tick as int)
        + "_"@ + signed_decimal_text(ask_tick as int) + "_"@ + block.text();
    let key = mint_ranged_key_text(
        user,
        base,
        quote,
        pool_idx,
        bid_tick,
        ask_tick,
        block,
    );
    assert(key =~= MINT_RANGED_PREFIX@ + user.text() + rest);
    lemma_fixed_width_field(MINT_RANGED_PREFIX@, other.text(), user.text(), rest);
}

/// The prefix of a user selects the BurnRanged events of that user only: where
/// the texts of two users have one width, the key of an event of `user`
/// begins with the prefix of `other` only if the two texts are the same.
pub proof fn lemma_burn_ranged_prefix_selects_user(
    other: Address,
    user: Address,
    base: Address,
    quote: Address,
    pool_idx: U256,
    bid_tick: i32,
    ask_tick: i32,
    block: U256,
)
    requires
        other.text().len() == user.text().len(),
    ensures
        burn_ranged_user_prefix_text(other).is_prefix_of(
            burn_ranged_key_text(
                user,
                base,
                quote,
                pool_idx,
                bid_tick,
                ask_tick,
                block,
            ),
        ) <==> other.text() == user.text(),
{
    let rest = "_"@ + pool_text(base, quote, pool_idx) + "_"@ + signed_decimal_text(bid_tick as int)
        + "_"@ + signed_decimal_text(ask_tick as int) + "_"@ + block.text();
    let key = burn_ranged_key_text(
        user,
        base,
        quote,
        pool_idx,
        bid_tick,
        ask_tick,
        block,
    );
    assert(key =~= BURN_RANGED_PREFIX@ + user.text() + rest);
    lemma_fixed_width_field(BURN_RANGED_PREFIX@, other.text(), user.text(), rest);
}

/// The prefix of a user selects the MintAmbient events of that user only: where
/// the texts of two users have one width, the key of an event of `user`
/// begins with the prefix of `other` only if the two texts are the same.
pub proof fn lemma_mint_ambient_prefix_selects_user(
    other: Address,
    user: Address,
    base: Address,
    quote: Address,
    pool_idx: U256,
    block: U256,
)
    requires
        other.text().len() == user.text().len(),
    ensures
        mint_ambient_user_prefix_text(other).is_prefix_of(
            mint_ambient_key_text(
                user,
                block,
                base,
                quote,
                pool_idx,
            ),
        ) <==> other.text() == user.text(),
{
    let rest = "_"@ + pool_text(base, quote, pool_idx) + "_"@ + block.text();
    let key = mint_ambient_key_text(
        user,
        block,
        base,
        quote,
        pool_idx,
    );
    assert(key =~= MINT_AMBIENT_PREFIX@ + user.text() + rest);
    lemma_fixed_width_field(MINT_AMBIENT_PREFIX@, other.text(), user.text(), rest);
}

/// The prefix of a user selects the BurnAmbient events of that user only: where
/// the texts of two users have one width, the key of an event of `user`
/// begins with the prefix of `other` only if the two texts are the same.
pub proof fn lemma_burn_ambient_prefix_selects_user(
    other: Address,
    user: Address,
    base: Address,
    quote: Address,
    pool_idx: U256,
    block: U256,
)
    requires
        other.text().len() == user.text().len(),
    ensures
        burn_ambient_user_prefix_text(other).is_prefix_of(
            burn_ambient_key_text(
                user,
                base,
                quote,
                pool_idx,
                block,
            ),
        ) <==> other.text() == user.text(),
{
    let rest = "_"@ + pool_text(base, quote, pool_idx) + "_"@ + block.text();
    let key = burn_ambient_key_text(
        user,
        base,
        quote,
        pool_idx,
        block,
    );
    assert(key =~= BURN_AMBIENT_PREFIX@ + user.text() + rest);
    lemma_fixed_width_field(BURN_AMBIENT_PREFIX@, other.text(), user.text(), rest);
}

impl InitPoolEvent {
    /// The key under which this event is stored.
    pub open spec fn key_text(&self) -> Seq<char> {
        init_pool_key_text(self.base, self.quote, self.pool_idx)
    }

    /// The key under which this event is stored.
    pub fn store_key(&self) -> (k: String)
        ensures
            k@ == self.key_text(),
    {
        init_pool_key(self.base, self.quote, self.pool_idx)
    }
}

impl MintRangedEvent {
    /// The key under which this event is stored.
    pub open spec fn key_text(&self) -> Seq<char> {
        mint_ranged_key_text(
            self.user,
            self.base,
            self.quote,
            self.pool_idx,
            self.bid_tick,
            self.ask_tick,
            self.block_height,
        )
    }

    /// The key under which this event is stored.
    pub fn store_key(&self) -> (k: String)
        ensures
            k@ == self.key_text(),
    {
        mint_ranged_key(
            self.user,
            self.base,
            self.quote,
            self.pool_idx,
            self.bid_tick,
            self.ask_tick,
            self.block_height,
        )
    }
}

impl BurnRangedEvent {
    /// The key under which this event is stored.
    pub open spec fn key_text(&self) -> Seq<char> {
        burn_ranged_key_text(
            self.user,
            self.base,
            self.quote,
            self.pool_idx,
            self.bid_tick,
            self.ask_tick,
            self.block_height,
        )
    }

    /// The key under which this event is stored.
    pub fn store_key(&self) -> (k: String)
        ensures
            k@ == self.key_text(),
    {
        burn_ranged_key(
            self.user,
            self.base,
            self.quote,
            self.pool_idx,
            self.bid_tick,
            self.ask_tick,
            self.block_height,
        )
    }
}

impl MintAmbientEvent {
    /// The key under which this event is stored.
    pub open spec fn key_text(&self) -> Seq<char> {
        mint_ambient_key_text(self.user, self.block_height, self.base, self.quote, self.pool_idx)
    }

    /// The key under which this event is stored.
    pub fn store_key(&self) -> (k: String)
        ensures
            k@ == self.key_text(),
    {
        mint_ambient_key(self.user, self.block_height, self.base, self.quote, self.pool_idx)
    }
}

impl BurnAmbientEvent {
    /// The key under which this event is stored.
    pub open spec fn key_text(&self) -> Seq<char> {
        burn_ambient_key_text(self.user, self.base, self.quote, self.pool_idx, self.block_height)
    }

    /// The key under which this event is stored.
    pub fn store_key(&self) -> (k: String)
        ensures
            k@ == self.key_text(),
    {
        burn_ambient_key(self.user, self.base, self.quote, self.pool_idx, self.block_height)
    }
}

} // verus!
