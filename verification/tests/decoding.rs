use ambient_indexer::events::{decode, decode_many, encode, DecodedEvent, EventKind};
use ambient_indexer::pools::{InitPoolBytes, InitPoolEvent};
use ambient_indexer::positions::{
    BurnAmbientEvent, BurnRangedEvent, HarvestEvent, MintAmbientBytes, MintAmbientEvent,
    MintRangedBytes, MintRangedEvent,
};
use ambient_indexer::raw_log::{DecodeError, RawLog};
use ambient_indexer::types::{Address, U256};

fn addr(n: u8) -> Address {
    Address { hi: 0xa0b0c0d0 + n as u32, lo: (n as u128) << 100 | 0x1234 }
}

fn sig(n: u8) -> [u8; 32] {
    [n; 32]
}

fn mint_ranged() -> MintRangedEvent {
    MintRangedEvent {
        block_height: U256::from_u64(77),
        user: addr(1),
        base: addr(2),
        quote: addr(3),
        pool_idx: U256::from_u64(36000),
        bid_tick: -887272,
        ask_tick: 887272,
        liq: u128::MAX,
        base_qty: 1_000_000_000_000_000_000,
        quote_qty: 0,
    }
}

fn burn_ranged() -> BurnRangedEvent {
    BurnRangedEvent {
        block_height: U256 { hi: 5, lo: 6 },
        user: addr(4),
        base: addr(5),
        quote: addr(6),
        pool_idx: U256 { hi: u128::MAX, lo: u128::MAX },
        bid_tick: i32::MIN,
        ask_tick: i32::MAX,
        liq: 1,
        base_qty: 2,
        quote_qty: 3,
    }
}

fn mint_ambient() -> MintAmbientEvent {
    MintAmbientEvent {
        block_height: U256::from_u64(0),
        user: addr(7),
        base: Address { hi: 0, lo: 0 },
        quote: Address { hi: u32::MAX, lo: u128::MAX },
        pool_idx: U256::from_u64(36001),
        liq: 9,
        base_qty: 8,
        quote_qty: 7,
    }
}

fn init_pool() -> InitPoolEvent {
    InitPoolEvent {
        block_height: U256::from_u64(12),
        base: addr(8),
        quote: addr(9),
        pool_idx: U256::from_u64(36000),
        price: 1u128 << 64,
        creator: addr(10),
        liq: 5,
        base_qty: 6,
        quote_qty: 7,
    }
}

fn valid_mint_ranged_log() -> RawLog {
    mint_ranged().to_log(sig(1))
}

#[test]
fn mint_ranged_round_trip() {
    let log = mint_ranged().to_log(sig(1));
    assert_eq!(log.topics.len(), 4);
    assert_eq!(log.data.len(), 6 * 32);
    assert_eq!(MintRangedEvent::from_log(&log), Ok(mint_ranged()));
}

#[test]
fn burn_ranged_round_trip() {
    let log = burn_ranged().to_log(sig(2));
    assert_eq!(BurnRangedEvent::from_log(&log), Ok(burn_ranged()));
}

#[test]
fn harvest_round_trip() {
    let event = HarvestEvent {
        block_height: U256::from_u64(3),
        user: addr(1),
        base: addr(2),
        quote: addr(3),
        pool_idx: U256::from_u64(1),
        bid_tick: -1,
        ask_tick: 0,
        base_qty: 10,
        quote_qty: 20,
    };
    let log = event.to_log(sig(3));
    assert_eq!(log.data.len(), 5 * 32);
    assert_eq!(HarvestEvent::from_log(&log), Ok(event));
}

#[test]
fn mint_ambient_round_trip() {
    let log = mint_ambient().to_log(sig(4));
    assert_eq!(log.data.len(), 4 * 32);
    assert_eq!(MintAmbientEvent::from_log(&log), Ok(mint_ambient()));
}

#[test]
fn burn_ambient_round_trip() {
    let event = BurnAmbientEvent {
        block_height: U256::from_u64(1 << 40),
        user: addr(1),
        base: addr(2),
        quote: addr(3),
        pool_idx: U256::from_u64(36000),
        liq: 100,
        base_qty: 200,
        quote_qty: 300,
    };
    assert_eq!(BurnAmbientEvent::from_log(&event.to_log(sig(5))), Ok(event));
}

#[test]
fn init_pool_round_trip() {
    let log = init_pool().to_log(sig(6));
    assert_eq!(log.data.len(), 5 * 32);
    assert_eq!(InitPoolEvent::from_log(&log), Ok(init_pool()));
}

#[test]
fn every_kind_round_trips_through_decode() {
    let events = vec![
        DecodedEvent::InitPool(init_pool()),
        DecodedEvent::MintRanged(mint_ranged()),
        DecodedEvent::BurnRanged(burn_ranged()),
        DecodedEvent::MintAmbient(mint_ambient()),
    ];
    for event in events {
        let log = encode(&event, sig(9));
        assert_eq!(decode(event.kind(), &log), Ok(event));
        assert_eq!(log.block_number, Some(event.block_height()));
    }
}

#[test]
fn encoded_mint_ranged_has_the_wire_layout() {
    let log = valid_mint_ranged_log();
    assert_eq!(log.topics[0], sig(1));
    assert_eq!(log.topics[1][..12], [0u8; 12]);
    assert_eq!(log.topics[1][12..], addr(1).to_bytes()[..]);
    assert_eq!(log.data[..32], U256::from_u64(36000).to_be_bytes()[..]);
    assert_eq!(log.data[32..48], [0u8; 16]);
    assert_eq!(log.data[48..64], [0xffu8; 16]);
    // bid_tick -887272 is 0xfff27618 in two's complement, sign-extended
    assert_eq!(log.data[64..92], [0xffu8; 28]);
    assert_eq!(log.data[92..96], [0xff, 0xf2, 0x76, 0x18]);
    assert_eq!(log.data[96..124], [0u8; 28]);
    assert_eq!(log.data[124..128], [0x00, 0x0d, 0x89, 0xe8]);
}

#[test]
fn too_few_topics_is_rejected() {
    let mut log = valid_mint_ranged_log();
    log.topics.pop();
    assert_eq!(MintRangedEvent::from_log(&log), Err(DecodeError::TooFewTopics));
    log.topics.clear();
    assert_eq!(decode(EventKind::MintRanged, &log), Err(DecodeError::TooFewTopics));
    assert_eq!(decode(EventKind::InitPool, &log), Err(DecodeError::TooFewTopics));
}

#[test]
fn missing_block_height_is_rejected() {
    let mut log = valid_mint_ranged_log();
    log.block_number = None;
    assert_eq!(MintRangedEvent::from_log(&log), Err(DecodeError::MissingBlockHeight));
}

#[test]
fn truncated_data_is_rejected() {
    let mut log = valid_mint_ranged_log();
    log.data.pop();
    assert_eq!(MintRangedEvent::from_log(&log), Err(DecodeError::TruncatedData));
    // 5 slots are enough for a harvest, not for a ranged mint
    log.data.truncate(5 * 32);
    assert!(HarvestEvent::from_log(&log).is_ok());
    assert_eq!(decode(EventKind::BurnRanged, &log), Err(DecodeError::TruncatedData));
    log.data.clear();
    assert_eq!(decode(EventKind::MintAmbient, &log), Err(DecodeError::TruncatedData));
}

#[test]
fn data_beyond_the_slots_is_ignored() {
    let mut log = valid_mint_ranged_log();
    log.data.extend_from_slice(&[0xab; 40]);
    assert_eq!(MintRangedEvent::from_log(&log), Ok(mint_ranged()));
}

#[test]
fn a_quantity_beyond_128_bits_is_an_overflow() {
    let mut log = valid_mint_ranged_log();
    // the liq slot is the second: set a bit above its low 16 bytes
    log.data[32 + 15] = 1;
    assert_eq!(MintRangedEvent::from_log(&log), Err(DecodeError::NumericOverflow));
    let mut log = valid_mint_ranged_log();
    log.data[5 * 32] = 0x80;
    assert_eq!(MintRangedEvent::from_log(&log), Err(DecodeError::NumericOverflow));
}

#[test]
fn ticks_tolerate_any_bytes_above_their_four() {
    let mut log = valid_mint_ranged_log();
    // the bid_tick slot is the third; what precedes its last 4 bytes is not read
    for i in 64..92 {
        log.data[i] = 0x5a;
    }
    assert_eq!(MintRangedEvent::from_log(&log), Ok(mint_ranged()));
}

#[test]
fn faults_are_reported_in_the_order_topics_height_data() {
    let mut log = valid_mint_ranged_log();
    log.data.clear();
    log.block_number = None;
    assert_eq!(MintRangedEvent::from_log(&log), Err(DecodeError::MissingBlockHeight));
    log.topics.truncate(3);
    assert_eq!(MintRangedEvent::from_log(&log), Err(DecodeError::TooFewTopics));
    let mut log = valid_mint_ranged_log();
    log.data[32] = 1;
    log.data.truncate(191);
    assert_eq!(MintRangedEvent::from_log(&log), Err(DecodeError::TruncatedData));
}

#[test]
fn address_padding_is_not_validated() {
    let mut log = valid_mint_ranged_log();
    for topic in 1..4 {
        for i in 0..12 {
            log.topics[topic][i] = 0xff;
        }
    }
    let decoded = MintRangedEvent::from_log(&log).unwrap();
    assert_eq!(decoded.user, addr(1));
    assert_eq!(decoded.base, addr(2));
    assert_eq!(decoded.quote, addr(3));
    assert_eq!(decoded, mint_ranged());
}

#[test]
fn init_pool_reads_the_creator_from_the_low_20_bytes_of_its_slot() {
    let mut log = init_pool().to_log(sig(6));
    for i in 32..44 {
        log.data[i] = 0x77;
    }
    assert_eq!(InitPoolEvent::from_log(&log).unwrap().creator, addr(10));
}

#[test]
fn more_than_four_topics_are_accepted() {
    let mut log = valid_mint_ranged_log();
    log.topics.push([1u8; 32]);
    assert_eq!(MintRangedEvent::from_log(&log), Ok(mint_ranged()));
}

#[test]
fn decode_data_bytes_reads_each_slot() {
    let bytes = MintRangedBytes {
        pool_idx: U256::from_u64(36000),
        liq: 1,
        bid_tick: -10,
        ask_tick: 10,
        base_qty: 2,
        quote_qty: 3,
    };
    let data = MintRangedEvent::encode_data_bytes(&bytes);
    assert_eq!(MintRangedEvent::decode_data_bytes(&data), Ok(bytes));
    let ambient = MintAmbientBytes { pool_idx: U256::from_u64(1), liq: 2, base_qty: 3, quote_qty: 4 };
    let data = MintAmbientEvent::encode_data_bytes(&ambient);
    assert_eq!(MintAmbientEvent::decode_data_bytes(&data), Ok(ambient));
    assert_eq!(
        MintAmbientEvent::decode_data_bytes(&data[..127]),
        Err(DecodeError::TruncatedData)
    );
    let pool = InitPoolBytes { price: 1, user: addr(1), liq: 2, base_qty: 3, quote_qty: 4 };
    let data = InitPoolEvent::encode_data_bytes(&pool);
    assert_eq!(InitPoolEvent::decode_data_bytes(&data), Ok(pool));
}

#[test]
fn from_logs_decodes_all_in_order() {
    let mut second = mint_ranged();
    second.block_height = U256::from_u64(78);
    let logs = vec![mint_ranged().to_log(sig(1)), second.to_log(sig(1))];
    assert_eq!(MintRangedEvent::from_logs(&logs), Ok(vec![mint_ranged(), second]));
    assert_eq!(MintRangedEvent::from_logs(&[]), Ok(vec![]));
}

#[test]
fn from_logs_fails_on_the_first_bad_log() {
    let mut truncated = valid_mint_ranged_log();
    truncated.data.truncate(10);
    let mut pending = valid_mint_ranged_log();
    pending.block_number = None;
    let logs = vec![valid_mint_ranged_log(), truncated, pending];
    assert_eq!(MintRangedEvent::from_logs(&logs), Err(DecodeError::TruncatedData));
}

#[test]
fn decode_many_is_all_or_nothing() {
    let good = valid_mint_ranged_log();
    let mut pending = valid_mint_ranged_log();
    pending.block_number = None;
    let mut short = valid_mint_ranged_log();
    short.topics.truncate(2);
    assert_eq!(
        decode_many(EventKind::MintRanged, &[good.clone(), good.clone()]),
        Ok(vec![DecodedEvent::MintRanged(mint_ranged()), DecodedEvent::MintRanged(mint_ranged())])
    );
    assert_eq!(
        decode_many(EventKind::MintRanged, &[good.clone(), pending.clone(), short.clone()]),
        Err(DecodeError::MissingBlockHeight)
    );
    assert_eq!(
        decode_many(EventKind::MintRanged, &[short, pending, good]),
        Err(DecodeError::TooFewTopics)
    );
    assert_eq!(decode_many(EventKind::Harvest, &[]), Ok(vec![]));
}

#[test]
fn a_log_decodes_by_the_kind_asked_for() {
    let log = valid_mint_ranged_log();
    let as_burn = decode(EventKind::BurnRanged, &log).unwrap();
    assert_eq!(as_burn.kind(), EventKind::BurnRanged);
    match as_burn {
        DecodedEvent::BurnRanged(e) => {
            assert_eq!(e.liq, mint_ranged().liq);
            assert_eq!(e.bid_tick, mint_ranged().bid_tick);
        }
        _ => panic!("decoded as another kind"),
    }
    assert_eq!(EventKind::MintRanged.signature(),
        "MintRanged(address,address,address,uint256,uint128,int24,int24,uint128,uint128)");
    assert_eq!(EventKind::InitPool.signature(),
        "InitPool(address,address,uint256,uint128,address,uint128,uint128,uint128)");
}
