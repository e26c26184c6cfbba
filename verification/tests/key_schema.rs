use ambient_indexer::events::DecodedEvent;
use ambient_indexer::keys::{
    burn_ambient_key, burn_ambient_user_pool_prefix, burn_ambient_user_prefix, burn_ranged_key,
    burn_ranged_user_pool_prefix, burn_ranged_user_prefix, curve_key, init_pool_key,
    liquidity_key, mint_ambient_key, mint_ambient_user_pool_prefix, mint_ambient_user_prefix,
    mint_ranged_key, mint_ranged_user_pool_prefix, mint_ranged_user_prefix, pool_key, price_key,
    tick_text,
};
use ambient_indexer::positions::{HarvestEvent, MintAmbientEvent, MintRangedEvent};
use ambient_indexer::store::{get_latest_searched_block, save_latest_searched_block};
use ambient_indexer::types::{Address, U256};

const USER: &str = "0x7580bFE88Dd3d07947908FAE12d95872a260F2D8";
const BASE: &str = "0x0412C7c846bb6b7DC462CF6B453f76D8440b2609";
const QUOTE: &str = "0x30dA8589BFa1E509A319489E014d384b87815D89";

fn parse(text: &str) -> Address {
    let digits: Vec<u8> = text[2..]
        .bytes()
        .map(|c| match c {
            b'0'..=b'9' => c - b'0',
            b'a'..=b'f' => c - b'a' + 10,
            b'A'..=b'F' => c - b'A' + 10,
            _ => panic!("not a hexadecimal digit"),
        })
        .collect();
    let bytes: Vec<u8> = digits.chunks(2).map(|pair| pair[0] * 16 + pair[1]).collect();
    Address::from_slice(&bytes).unwrap()
}

#[test]
fn address_text_is_what_clarity_prints() {
    for text in [USER, BASE, QUOTE] {
        let a = parse(text);
        let printed = clarity::Address::from_slice(&a.to_bytes()).unwrap().to_string();
        assert_eq!(a.to_text(), printed);
        assert_eq!(a.to_text().len(), 42);
        assert_eq!(a.to_text().to_lowercase(), text.to_lowercase());
    }
    assert_eq!(
        Address { hi: 0, lo: 0 }.to_text(),
        "0x0000000000000000000000000000000000000000"
    );
}

#[test]
fn address_text_is_checksummed() {
    assert_eq!(parse(USER).to_text(), USER);
    assert_eq!(parse(&USER.to_lowercase()).to_text(), USER);
}

#[test]
fn number_text_is_decimal() {
    assert_eq!(U256::from_u64(0).to_text(), "0");
    assert_eq!(U256::from_u64(36000).to_text(), "36000");
    assert_eq!(U256 { hi: 0, lo: u128::MAX }.to_text(), "340282366920938463463374607431768211455");
    assert_eq!(U256 { hi: 1, lo: 0 }.to_text(), "340282366920938463463374607431768211456");
    assert_eq!(
        U256 { hi: u128::MAX, lo: u128::MAX }.to_text(),
        "115792089237316195423570985008687907853269984665640564039457584007913129639935"
    );
}

#[test]
fn tick_text_is_signed_decimal() {
    assert_eq!(tick_text(0), "0");
    assert_eq!(tick_text(-10), "-10");
    assert_eq!(tick_text(887272), "887272");
    assert_eq!(tick_text(i32::MIN), "-2147483648");
}

#[test]
fn pool_keys_are_prefix_and_pool() {
    let (base, quote, idx) = (parse(BASE), parse(QUOTE), U256::from_u64(36000));
    let pool = format!("{}_{}_36000", base.to_text(), quote.to_text());
    assert_eq!(init_pool_key(base, quote, idx), format!("init-pool_{}", pool));
    assert_eq!(pool_key(base, quote, idx), format!("pool_{}", pool));
    assert_eq!(curve_key(base, quote, idx), format!("curve{}", pool));
    assert_eq!(price_key(base, quote, idx), format!("price{}", pool));
    assert_eq!(liquidity_key(base, quote, idx), format!("liquidity{}", pool));
}

#[test]
fn ranged_keys_extend_their_prefixes() {
    let (user, base, quote) = (parse(USER), parse(BASE), parse(QUOTE));
    let idx = U256::from_u64(36001);
    let block = U256::from_u64(123456);
    let user_prefix = mint_ranged_user_prefix(user);
    let pool_prefix = mint_ranged_user_pool_prefix(user, base, quote, idx);
    let key = mint_ranged_key(user, base, quote, idx, -10, 10, block);
    assert_eq!(user_prefix, format!("mint-ranged_{}", USER));
    assert_eq!(pool_prefix, format!("mint-ranged_{}_{}_{}_36001", USER, base.to_text(), quote.to_text()));
    assert_eq!(key, format!("{}_-10_10_123456", pool_prefix));
    assert!(key.starts_with(&user_prefix));
    let burn = burn_ranged_key(user, base, quote, idx, -10, 10, block);
    assert_eq!(burn_ranged_user_prefix(user), format!("burn-ranged_{}", USER));
    assert_eq!(burn, format!("{}_-10_10_123456", burn_ranged_user_pool_prefix(user, base, quote, idx)));
    assert_eq!(&burn[..5], "burn-");
    assert_eq!(burn[5..], key[5..]);
}

#[test]
fn ambient_keys_have_no_ticks() {
    let (user, base, quote) = (parse(USER), parse(BASE), parse(QUOTE));
    let idx = U256::from_u64(36000);
    let block = U256::from_u64(9);
    let pool_prefix = mint_ambient_user_pool_prefix(user, base, quote, idx);
    assert_eq!(mint_ambient_user_prefix(user), format!("mint-ambient_{}", USER));
    assert_eq!(pool_prefix, format!("mint-ambient_{}_{}_{}_36000", USER, base.to_text(), quote.to_text()));
    assert_eq!(mint_ambient_key(user, block, base, quote, idx), format!("{}_9", pool_prefix));
    assert_eq!(burn_ambient_user_prefix(user), format!("burn-ambient_{}", USER));
    assert_eq!(
        burn_ambient_key(user, base, quote, idx, block),
        format!("{}_9", burn_ambient_user_pool_prefix(user, base, quote, idx))
    );
}

#[test]
fn events_are_stored_under_their_own_key() {
    let (user, base, quote) = (parse(USER), parse(BASE), parse(QUOTE));
    let ranged = MintRangedEvent {
        block_height: U256::from_u64(5),
        user,
        base,
        quote,
        pool_idx: U256::from_u64(36000),
        bid_tick: -3,
        ask_tick: 4,
        liq: 1,
        base_qty: 2,
        quote_qty: 3,
    };
    assert_eq!(
        ranged.store_key(),
        mint_ranged_key(user, base, quote, U256::from_u64(36000), -3, 4, U256::from_u64(5))
    );
    assert_eq!(DecodedEvent::MintRanged(ranged).store_key(), Some(ranged.store_key()));
    let ambient = MintAmbientEvent {
        block_height: U256::from_u64(5),
        user,
        base,
        quote,
        pool_idx: U256::from_u64(36000),
        liq: 1,
        base_qty: 2,
        quote_qty: 3,
    };
    assert_eq!(
        DecodedEvent::MintAmbient(ambient).store_key(),
        Some(mint_ambient_key(user, U256::from_u64(5), base, quote, U256::from_u64(36000)))
    );
    let harvest = HarvestEvent {
        block_height: U256::from_u64(5),
        user,
        base,
        quote,
        pool_idx: U256::from_u64(36000),
        bid_tick: -3,
        ask_tick: 4,
        base_qty: 2,
        quote_qty: 3,
    };
    assert_eq!(DecodedEvent::Harvest(harvest).store_key(), None);
}

#[test]
fn the_cursor_is_stored_big_endian_under_a_fixed_key() {
    let (key, value) = save_latest_searched_block(U256::from_u64(0x0102));
    assert_eq!(key, "block");
    let mut expected = vec![0u8; 30];
    expected.extend_from_slice(&[1, 2]);
    assert_eq!(value, expected);
    assert_eq!(get_latest_searched_block(&Some(value)), Some(U256::from_u64(0x0102)));
    assert_eq!(get_latest_searched_block(&None), None);
    let big = U256 { hi: 77, lo: 88 };
    assert_eq!(get_latest_searched_block(&Some(save_latest_searched_block(big).1)), Some(big));
}
