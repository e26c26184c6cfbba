use std::collections::BTreeMap;

use ambient_indexer::events::DecodedEvent;
use ambient_indexer::pools::InitPoolEvent;
use ambient_indexer::positions::{BurnRangedEvent, MintAmbientEvent, MintRangedEvent};
use ambient_indexer::raw_log::{DecodeError, RawLog};
use ambient_indexer::scanner::{
    next_cursor, plan_range, scan_tick, search_for_pools, search_for_positions, Fetched,
    ScanError, ScanRange,
};
use ambient_indexer::scope::{holds_address, holds_template, select, PoolId, ScanScope};
use ambient_indexer::types::{Address, U256};

fn token(n: u32) -> Address {
    Address { hi: n, lo: n as u128 }
}

fn scope() -> ScanScope {
    ScanScope {
        tokens: vec![token(1), token(2)],
        templates: vec![U256::from_u64(36000), U256::from_u64(36001)],
    }
}

fn ambient(block: u64, base: u32, quote: u32, template: u64) -> MintAmbientEvent {
    MintAmbientEvent {
        block_height: U256::from_u64(block),
        user: token(100),
        base: token(base),
        quote: token(quote),
        pool_idx: U256::from_u64(template),
        liq: 1,
        base_qty: 2,
        quote_qty: 3,
    }
}

fn ranged(block: u64, base: u32, quote: u32, template: u64) -> MintRangedEvent {
    MintRangedEvent {
        block_height: U256::from_u64(block),
        user: token(100),
        base: token(base),
        quote: token(quote),
        pool_idx: U256::from_u64(template),
        bid_tick: -5,
        ask_tick: 5,
        liq: 1,
        base_qty: 2,
        quote_qty: 3,
    }
}

fn burn(block: u64, base: u32, quote: u32, template: u64) -> BurnRangedEvent {
    BurnRangedEvent {
        block_height: U256::from_u64(block),
        user: token(100),
        base: token(base),
        quote: token(quote),
        pool_idx: U256::from_u64(template),
        bid_tick: -5,
        ask_tick: 5,
        liq: 1,
        base_qty: 2,
        quote_qty: 3,
    }
}

fn pool(block: u64, base: u32, quote: u32, template: u64) -> InitPoolEvent {
    InitPoolEvent {
        block_height: U256::from_u64(block),
        base: token(base),
        quote: token(quote),
        pool_idx: U256::from_u64(template),
        price: 1,
        creator: token(100),
        liq: 1,
        base_qty: 2,
        quote_qty: 3,
    }
}

fn empty() -> Fetched {
    Fetched {
        init_pool: Some(vec![]),
        mint_ranged: Some(vec![]),
        mint_ambient: Some(vec![]),
        burn_ranged: Some(vec![]),
        burn_ambient: Some(vec![]),
    }
}

fn bad_log() -> RawLog {
    RawLog { topics: vec![], data: vec![], block_number: Some(U256::from_u64(1)) }
}

fn store(events: &[DecodedEvent], into: &mut BTreeMap<String, DecodedEvent>) {
    for event in events {
        if let Some(key) = event.store_key() {
            into.insert(key, *event);
        }
    }
}

#[test]
fn the_range_starts_at_the_first_block_without_a_cursor() {
    let range = plan_range(None, U256::from_u64(5000));
    assert_eq!(range, ScanRange { start: U256::from_u64(0), end: U256::from_u64(1000) });
    let range = plan_range(None, U256::from_u64(600));
    assert_eq!(range, ScanRange { start: U256::from_u64(0), end: U256::from_u64(600) });
}

#[test]
fn the_range_ends_at_the_chain_head_or_a_window_beyond_the_cursor() {
    let range = plan_range(Some(U256::from_u64(4500)), U256::from_u64(5000));
    assert_eq!(range, ScanRange { start: U256::from_u64(4500), end: U256::from_u64(5000) });
    let range = plan_range(Some(U256::from_u64(3000)), U256::from_u64(5000));
    assert_eq!(range, ScanRange { start: U256::from_u64(3000), end: U256::from_u64(4000) });
    let range = plan_range(Some(U256::from_u64(4000)), U256::from_u64(5000));
    assert_eq!(range.end, U256::from_u64(5000));
    let range = plan_range(Some(U256::from_u64(5000)), U256::from_u64(5000));
    assert_eq!(range.start, range.end);
}

#[test]
fn the_range_does_not_wrap_at_the_top_of_the_numbers() {
    let top = U256 { hi: u128::MAX, lo: u128::MAX };
    let near = U256 { hi: u128::MAX, lo: u128::MAX - 5 };
    assert_eq!(plan_range(Some(near), top), ScanRange { start: near, end: top });
    let carry = U256 { hi: 0, lo: u128::MAX - 5 };
    assert_eq!(plan_range(Some(carry), top).end, U256 { hi: 1, lo: 994 });
}

#[test]
fn scope_admits_a_watched_template_with_a_watched_token() {
    let s = scope();
    assert!(s.is_admitted(token(1), token(9), U256::from_u64(36000)));
    assert!(s.is_admitted(token(9), token(2), U256::from_u64(36001)));
    assert!(!s.is_admitted(token(8), token(9), U256::from_u64(36000)));
    assert!(!s.is_admitted(token(1), token(2), U256::from_u64(36002)));
    assert!(holds_address(&s.tokens, token(2)));
    assert!(!holds_address(&s.tokens, token(3)));
    assert!(!holds_address(&vec![], token(3)));
    assert!(holds_template(&s.templates, U256::from_u64(36001)));
    assert!(!holds_template(&s.templates, U256 { hi: 1, lo: 36001 }));
}

#[test]
fn an_unwatched_template_is_not_stored_but_its_pool_is() {
    let mut fetched = empty();
    fetched.init_pool = Some(vec![pool(10, 8, 9, 99).to_log([0; 32])]);
    fetched.mint_ambient = Some(vec![
        ambient(10, 1, 2, 99).to_log([0; 32]),
        ambient(11, 1, 9, 36000).to_log([0; 32]),
        ambient(12, 8, 9, 36000).to_log([0; 32]),
    ]);
    let range = ScanRange { start: U256::from_u64(10), end: U256::from_u64(20) };
    let outcome = scan_tick(&scope(), &range, &fetched).unwrap();
    assert_eq!(
        outcome.events,
        vec![
            DecodedEvent::InitPool(pool(10, 8, 9, 99)),
            DecodedEvent::MintAmbient(ambient(11, 1, 9, 36000)),
        ]
    );
    assert_eq!(outcome.cursor, U256::from_u64(20));
    assert!(outcome.refresh);
}

#[test]
fn an_empty_scope_still_stores_pools() {
    let nothing = ScanScope { tokens: vec![], templates: vec![] };
    let mut fetched = empty();
    fetched.init_pool = Some(vec![pool(10, 1, 2, 36000).to_log([0; 32])]);
    fetched.mint_ranged = Some(vec![ranged(10, 1, 2, 36000).to_log([0; 32])]);
    assert_eq!(
        search_for_pools(&nothing, &fetched),
        Ok(vec![DecodedEvent::InitPool(pool(10, 1, 2, 36000))])
    );
    assert_eq!(search_for_positions(&nothing, &fetched), Ok(vec![]));
}

#[test]
fn position_events_are_stored_stream_by_stream() {
    let mut fetched = empty();
    fetched.burn_ranged = Some(vec![burn(3, 1, 2, 36000).to_log([0; 32])]);
    fetched.mint_ambient = Some(vec![ambient(2, 1, 2, 36000).to_log([0; 32])]);
    fetched.mint_ranged = Some(vec![
        ranged(4, 1, 2, 36000).to_log([0; 32]),
        ranged(1, 7, 2, 36001).to_log([0; 32]),
    ]);
    assert_eq!(
        search_for_positions(&scope(), &fetched),
        Ok(vec![
            DecodedEvent::MintRanged(ranged(4, 1, 2, 36000)),
            DecodedEvent::MintRanged(ranged(1, 7, 2, 36001)),
            DecodedEvent::MintAmbient(ambient(2, 1, 2, 36000)),
            DecodedEvent::BurnRanged(burn(3, 1, 2, 36000)),
        ])
    );
}

#[test]
fn a_failed_fetch_aborts_the_tick() {
    let range = ScanRange { start: U256::from_u64(10), end: U256::from_u64(20) };
    let mut fetched = empty();
    fetched.burn_ambient = None;
    fetched.mint_ranged = Some(vec![bad_log()]);
    assert_eq!(scan_tick(&scope(), &range, &fetched).err(), Some(ScanError::Transport));
    let mut fetched = empty();
    fetched.init_pool = None;
    assert_eq!(scan_tick(&scope(), &range, &fetched).err(), Some(ScanError::Transport));
    assert_eq!(search_for_pools(&scope(), &fetched), Err(ScanError::Transport));
}

#[test]
fn a_log_that_does_not_decode_aborts_the_tick() {
    let range = ScanRange { start: U256::from_u64(10), end: U256::from_u64(20) };
    let mut fetched = empty();
    fetched.init_pool = Some(vec![pool(10, 1, 2, 36000).to_log([0; 32])]);
    fetched.burn_ranged = Some(vec![bad_log()]);
    assert_eq!(
        scan_tick(&scope(), &range, &fetched).err(),
        Some(ScanError::Decode(DecodeError::TooFewTopics))
    );
    // an event that the scope would drop aborts the tick as well if it does not decode
    let mut truncated = ambient(10, 8, 9, 99).to_log([0; 32]);
    truncated.data.truncate(100);
    let mut pending = ranged(10, 1, 2, 36000).to_log([0; 32]);
    pending.block_number = None;
    let mut fetched = empty();
    fetched.mint_ambient = Some(vec![truncated]);
    fetched.burn_ranged = Some(vec![pending]);
    assert_eq!(
        search_for_positions(&scope(), &fetched),
        Err(ScanError::Decode(DecodeError::TruncatedData))
    );
    let mut fetched = empty();
    fetched.init_pool = Some(vec![bad_log()]);
    fetched.mint_ranged = None;
    assert_eq!(
        scan_tick(&scope(), &range, &fetched).err(),
        Some(ScanError::Decode(DecodeError::TooFewTopics))
    );
}

#[test]
fn a_failed_tick_leaves_the_cursor() {
    let cursor = Some(U256::from_u64(10));
    let range = plan_range(cursor, U256::from_u64(15));
    let mut fetched = empty();
    fetched.mint_ranged = None;
    let result = scan_tick(&scope(), &range, &fetched);
    assert_eq!(next_cursor(cursor, &result), cursor);
    assert_eq!(next_cursor(None, &result), None);
    let result = scan_tick(&scope(), &range, &empty());
    assert_eq!(next_cursor(cursor, &result), Some(U256::from_u64(15)));
}

#[test]
fn the_cursor_never_falls_over_a_run_of_ticks() {
    let mut cursor = None;
    let heads = [500u64, 500, 2600, 2600, 2600, 2600, 2700];
    let expected = [500u64, 500, 1500, 1500, 2500, 2600, 2700];
    for (i, head) in heads.iter().enumerate() {
        let range = plan_range(cursor, U256::from_u64(*head));
        let mut fetched = empty();
        if i == 3 {
            fetched.mint_ambient = Some(vec![bad_log()]);
        }
        let result = scan_tick(&scope(), &range, &fetched);
        let next = next_cursor(cursor, &result);
        assert!(cursor <= next);
        assert_eq!(next, Some(U256::from_u64(expected[i])));
        cursor = next;
    }
}

#[test]
fn a_second_tick_without_new_blocks_changes_nothing() {
    let head = U256::from_u64(700);
    let mut fetched = empty();
    fetched.init_pool = Some(vec![
        pool(700, 1, 2, 36000).to_log([0; 32]),
        pool(700, 1, 2, 36000).to_log([1; 32]),
    ]);
    fetched.mint_ranged = Some(vec![ranged(700, 1, 2, 36000).to_log([0; 32])]);
    fetched.mint_ambient = Some(vec![ambient(700, 1, 2, 36000).to_log([0; 32])]);
    let mut stored = BTreeMap::new();
    let mut cursor = Some(head);

    let range = plan_range(cursor, head);
    let first = scan_tick(&scope(), &range, &fetched);
    store(&first.as_ref().unwrap().events, &mut stored);
    cursor = next_cursor(cursor, &first);
    let after_first = stored.clone();
    assert_eq!(after_first.len(), 3);
    assert_eq!(cursor, Some(head));
    assert!(!first.unwrap().refresh);

    let range = plan_range(cursor, head);
    let second = scan_tick(&scope(), &range, &fetched);
    store(&second.as_ref().unwrap().events, &mut stored);
    cursor = next_cursor(cursor, &second);
    assert_eq!(stored, after_first);
    assert_eq!(cursor, Some(head));
}

#[test]
fn the_pools_to_query_are_every_pair_with_every_template() {
    let s = ScanScope {
        tokens: vec![token(1), token(2), token(3)],
        templates: vec![U256::from_u64(36000), U256::from_u64(36001)],
    };
    assert_eq!(
        s.list_pairs(),
        vec![
            (token(1), token(1)),
            (token(1), token(2)),
            (token(1), token(3)),
            (token(2), token(2)),
            (token(2), token(3)),
            (token(3), token(3)),
        ]
    );
    let pools = s.list_pools();
    assert_eq!(pools.len(), 12);
    assert_eq!(pools[0], PoolId { base: token(1), quote: token(1), pool_idx: U256::from_u64(36000) });
    assert_eq!(pools[1], PoolId { base: token(1), quote: token(1), pool_idx: U256::from_u64(36001) });
    assert_eq!(pools[2], PoolId { base: token(1), quote: token(2), pool_idx: U256::from_u64(36000) });
    assert_eq!(pools[11], PoolId { base: token(3), quote: token(3), pool_idx: U256::from_u64(36001) });
}

#[test]
fn a_scope_without_tokens_or_templates_has_no_pools_to_query() {
    let no_tokens = ScanScope { tokens: vec![], templates: vec![U256::from_u64(1)] };
    assert_eq!(no_tokens.list_pairs(), vec![]);
    assert_eq!(no_tokens.list_pools(), vec![]);
    let no_templates = ScanScope { tokens: vec![token(1)], templates: vec![] };
    assert_eq!(no_templates.list_pairs(), vec![(token(1), token(1))]);
    assert_eq!(no_templates.list_pools(), vec![]);
}

#[test]
fn events_are_selected_by_user_and_pool() {
    let mut other = ranged(2, 1, 2, 36000);
    other.user = token(101);
    let events = vec![ranged(1, 1, 2, 36000), other, ranged(3, 1, 2, 36001)];
    assert_eq!(select(&events, token(100), None), vec![events[0], events[2]]);
    assert_eq!(select(&events, token(101), None), vec![other]);
    let pool = PoolId { base: token(1), quote: token(2), pool_idx: U256::from_u64(36001) };
    assert_eq!(select(&events, token(100), Some(pool)), vec![events[2]]);
    assert_eq!(select(&events, token(101), Some(pool)), vec![]);
}
