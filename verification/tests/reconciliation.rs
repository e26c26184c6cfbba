use ambient_indexer::active::{
    active_positions, get_active_user_pool_positions, get_active_user_positions, Position,
    PositionReport,
};
use ambient_indexer::ambient::{combine_and_filter_ambient_positions, AmbientPosition};
use ambient_indexer::chronology::sort_by_date;
use ambient_indexer::positions::{
    BurnAmbientEvent, BurnRangedEvent, MintAmbientEvent, MintRangedEvent,
};
use ambient_indexer::ranged::{combine_and_filter_ranged_positions, RangedPosition};
use ambient_indexer::types::{Address, U256};

fn addr(n: u32) -> Address {
    Address { hi: n, lo: 0xfeed_0000 + n as u128 }
}

fn mint(block: u64, bid: i32, ask: i32, liq: u128) -> MintRangedEvent {
    MintRangedEvent {
        block_height: U256::from_u64(block),
        user: addr(1),
        base: addr(2),
        quote: addr(3),
        pool_idx: U256::from_u64(7),
        bid_tick: bid,
        ask_tick: ask,
        liq,
        base_qty: liq * 2,
        quote_qty: liq * 3,
    }
}

fn burn(block: u64, bid: i32, ask: i32) -> BurnRangedEvent {
    BurnRangedEvent {
        block_height: U256::from_u64(block),
        user: addr(1),
        base: addr(2),
        quote: addr(3),
        pool_idx: U256::from_u64(7),
        bid_tick: bid,
        ask_tick: ask,
        liq: 0,
        base_qty: 0,
        quote_qty: 0,
    }
}

fn mint_ambient(block: u64, liq: u128) -> MintAmbientEvent {
    MintAmbientEvent {
        block_height: U256::from_u64(block),
        user: addr(1),
        base: addr(2),
        quote: addr(3),
        pool_idx: U256::from_u64(7),
        liq,
        base_qty: liq + 1,
        quote_qty: liq + 2,
    }
}

fn burn_ambient(block: u64) -> BurnAmbientEvent {
    BurnAmbientEvent {
        block_height: U256::from_u64(block),
        user: addr(1),
        base: addr(2),
        quote: addr(3),
        pool_idx: U256::from_u64(7),
        liq: 0,
        base_qty: 0,
        quote_qty: 0,
    }
}

#[test]
fn two_mints_at_one_key_are_summed() {
    let open = combine_and_filter_ranged_positions(vec![mint(1, -10, 10, 100), mint(5, -10, 10, 50)], vec![]);
    assert_eq!(
        open,
        vec![RangedPosition {
            start_block: U256::from_u64(5),
            user: addr(1),
            base: addr(2),
            quote: addr(3),
            pool_idx: U256::from_u64(7),
            bid_tick: -10,
            ask_tick: 10,
            liq: 150,
            base_amount: 300,
            quote_amount: 450,
        }]
    );
}

#[test]
fn a_burn_after_the_mints_closes_the_position() {
    let open = combine_and_filter_ranged_positions(
        vec![mint(1, -10, 10, 100), mint(5, -10, 10, 50)],
        vec![burn(9, -10, 10)],
    );
    assert_eq!(open, vec![]);
}

#[test]
fn mints_that_differ_in_ask_tick_open_two_positions() {
    let open = combine_and_filter_ranged_positions(vec![mint(4, -10, 10, 100), mint(4, -10, 11, 100)], vec![]);
    assert_eq!(open.len(), 2);
    assert_eq!(open[0].ask_tick, 10);
    assert_eq!(open[1].ask_tick, 11);
    assert_eq!(open[0].liq, 100);
    assert_eq!(open[1].liq, 100);
    assert_eq!(open[0].start_block, open[1].start_block);
}

#[test]
fn mints_that_differ_in_user_or_pool_do_not_merge() {
    let mut other_user = mint(2, -10, 10, 5);
    other_user.user = addr(9);
    let mut other_pool = mint(3, -10, 10, 6);
    other_pool.pool_idx = U256::from_u64(8);
    let mut other_quote = mint(4, -10, 10, 7);
    other_quote.quote = addr(10);
    let open = combine_and_filter_ranged_positions(
        vec![mint(1, -10, 10, 4), other_user, other_pool, other_quote],
        vec![],
    );
    assert_eq!(open.iter().map(|p| p.liq).collect::<Vec<_>>(), vec![4, 5, 6, 7]);
}

#[test]
fn a_dangling_burn_is_recorded_and_removes_nothing() {
    let mints = vec![mint(1, -10, 10, 100)];
    let burns = vec![burn(2, -20, 20), burn(3, -10, 10), burn(4, -10, 10)];
    let folded = RangedPosition::reconcile(&mints, &burns).unwrap();
    assert_eq!(folded.positions, vec![]);
    assert_eq!(folded.dangling, vec![burn(2, -20, 20), burn(4, -10, 10)]);

    let folded = RangedPosition::reconcile(&mints, &vec![burn(2, -20, 20)]).unwrap();
    assert_eq!(folded.positions.len(), 1);
    assert_eq!(folded.positions[0].liq, 100);
    assert_eq!(folded.dangling, vec![burn(2, -20, 20)]);

    let folded = RangedPosition::reconcile(&vec![], &vec![burn(2, -20, 20)]).unwrap();
    assert_eq!(folded.positions, vec![]);
    assert_eq!(folded.dangling.len(), 1);
}

#[test]
fn a_burn_before_the_mint_does_not_close_it() {
    let open = combine_and_filter_ranged_positions(vec![mint(5, -10, 10, 100)], vec![burn(4, -10, 10)]);
    assert_eq!(open.len(), 1);
    let open = combine_and_filter_ranged_positions(vec![mint(5, -10, 10, 100)], vec![burn(5, -10, 10)]);
    assert_eq!(open, vec![]);
}

#[test]
fn a_mint_before_the_open_position_opens_another() {
    let open = combine_and_filter_ranged_positions(vec![mint(5, -10, 10, 100), mint(3, -10, 10, 1)], vec![]);
    assert_eq!(open.len(), 2);
    assert_eq!(open[0].start_block, U256::from_u64(3));
    assert_eq!(open[1].start_block, U256::from_u64(5));
    // a later mint goes to the first position that was started no later
    let open = combine_and_filter_ranged_positions(
        vec![mint(5, -10, 10, 100), mint(3, -10, 10, 1), mint(4, -10, 10, 10)],
        vec![],
    );
    assert_eq!(open.len(), 2);
    assert_eq!(open[0].liq, 11);
    assert_eq!(open[0].start_block, U256::from_u64(4));
    assert_eq!(open[1].liq, 100);
}

#[test]
fn a_burn_closes_one_position_only() {
    let open = combine_and_filter_ranged_positions(
        vec![mint(5, -10, 10, 100), mint(3, -10, 10, 1)],
        vec![burn(9, -10, 10)],
    );
    assert_eq!(open.len(), 1);
    assert_eq!(open[0].liq, 1);
}

#[test]
fn amounts_beyond_128_bits_give_no_result() {
    let mints = vec![mint(1, 0, 1, u128::MAX / 3), mint(2, 0, 1, 1)];
    assert!(RangedPosition::reconcile(&mints, &vec![]).is_none());
    let mints = vec![mint(1, 0, 1, u128::MAX / 3 - 1), mint(2, 0, 1, 1)];
    let folded = RangedPosition::reconcile(&mints, &vec![]).unwrap();
    assert_eq!(folded.positions[0].quote_amount, u128::MAX / 3 * 3);
    // amounts of different positions are not summed
    let mints = vec![mint(1, 0, 1, u128::MAX / 3), mint(2, 0, 2, u128::MAX / 3)];
    assert_eq!(RangedPosition::reconcile(&mints, &vec![]).unwrap().positions.len(), 2);
}

#[test]
fn ambient_positions_are_keyed_without_ticks() {
    let open = combine_and_filter_ambient_positions(vec![mint_ambient(1, 100), mint_ambient(5, 50)], vec![]);
    assert_eq!(
        open,
        vec![AmbientPosition {
            start_block: U256::from_u64(5),
            user: addr(1),
            base: addr(2),
            quote: addr(3),
            pool_idx: U256::from_u64(7),
            liq: 150,
            base_amount: 152,
            quote_amount: 154,
        }]
    );
    let open = combine_and_filter_ambient_positions(
        vec![mint_ambient(1, 100), mint_ambient(5, 50)],
        vec![burn_ambient(9)],
    );
    assert_eq!(open, vec![]);
    let folded = AmbientPosition::reconcile(&vec![mint_ambient(6, 1)], &vec![burn_ambient(2)]).unwrap();
    assert_eq!(folded.positions.len(), 1);
    assert_eq!(folded.dangling, vec![burn_ambient(2)]);
}

#[test]
fn open_positions_are_listed_by_start_block() {
    // the first position is dated anew by the mint of block 9
    let open = combine_and_filter_ranged_positions(
        vec![mint(1, -10, 10, 1), mint(2, -20, 20, 2), mint(2, -30, 30, 3), mint(9, -10, 10, 4)],
        vec![],
    );
    assert_eq!(open.iter().map(|p| p.liq).collect::<Vec<_>>(), vec![2, 3, 5]);
    assert_eq!(
        open.iter().map(|p| p.start_block).collect::<Vec<_>>(),
        vec![U256::from_u64(2), U256::from_u64(2), U256::from_u64(9)]
    );
}

#[test]
fn sorting_by_block_is_stable() {
    let events = vec![mint(5, 1, 1, 1), mint(2, 2, 2, 2), mint(5, 3, 3, 3), mint(2, 4, 4, 4), mint(1, 5, 5, 5)];
    let sorted = sort_by_date(&events);
    assert_eq!(sorted.iter().map(|e| e.liq).collect::<Vec<_>>(), vec![5, 2, 4, 1, 3]);
    assert_eq!(sort_by_date(&Vec::<MintRangedEvent>::new()), vec![]);
}

#[test]
fn active_positions_sorts_the_histories_first() {
    // the history comes in key order of the store, not in block order
    let mints = vec![mint(5, -10, 10, 50), mint(1, -10, 10, 100)];
    let open = active_positions(&mints, &vec![], &vec![], &vec![]).unwrap();
    assert_eq!(open.len(), 1);
    match open[0] {
        Position::Ranged(p) => {
            assert_eq!(p.liq, 150);
            assert_eq!(p.start_block, U256::from_u64(5));
        }
        Position::Ambient(_) => panic!("an ambient position"),
    }
}

#[test]
fn active_positions_lists_both_families_by_start_block() {
    let open = active_positions(
        &vec![mint(7, -10, 10, 1), mint(3, -20, 20, 2)],
        &vec![],
        &vec![mint_ambient(5, 3)],
        &vec![],
    )
    .unwrap();
    assert_eq!(
        open.iter().map(|p| p.start_block()).collect::<Vec<_>>(),
        vec![U256::from_u64(3), U256::from_u64(5), U256::from_u64(7)]
    );
    assert!(matches!(open[1], Position::Ambient(_)));
    // at one block, ranged positions come before ambient ones
    let open = active_positions(&vec![mint(5, -10, 10, 1)], &vec![], &vec![mint_ambient(5, 3)], &vec![]).unwrap();
    assert!(matches!(open[0], Position::Ranged(_)));
    assert!(matches!(open[1], Position::Ambient(_)));
}

#[test]
fn active_user_positions_leave_other_users_out() {
    let mut foreign = mint(2, -10, 10, 1000);
    foreign.user = addr(50);
    let mut foreign_burn = burn(3, -10, 10);
    foreign_burn.user = addr(50);
    let open = get_active_user_positions(
        addr(1),
        &vec![mint(1, -10, 10, 100), foreign],
        &vec![foreign_burn],
        &vec![],
        &vec![],
    )
    .unwrap();
    assert_eq!(open.len(), 1);
    match open[0] {
        Position::Ranged(p) => assert_eq!(p.liq, 100),
        Position::Ambient(_) => panic!("an ambient position"),
    }
    let theirs = get_active_user_positions(addr(50), &vec![mint(1, -10, 10, 100), foreign], &vec![foreign_burn], &vec![], &vec![]).unwrap();
    assert_eq!(theirs, vec![]);
}

#[test]
fn active_user_pool_positions_are_narrowed_to_the_pool() {
    let mut elsewhere = mint(2, -10, 10, 5);
    elsewhere.pool_idx = U256::from_u64(8);
    let mints = vec![mint(1, -10, 10, 100), elsewhere];
    let open = get_active_user_pool_positions(addr(1), addr(2), addr(3), U256::from_u64(7), &mints, &vec![], &vec![mint_ambient(4, 9)], &vec![]).unwrap();
    assert_eq!(open.len(), 2);
    let open = get_active_user_pool_positions(addr(1), addr(2), addr(3), U256::from_u64(8), &mints, &vec![], &vec![mint_ambient(4, 9)], &vec![]).unwrap();
    assert_eq!(open.len(), 1);
    let open = get_active_user_pool_positions(addr(1), addr(3), addr(2), U256::from_u64(7), &mints, &vec![], &vec![], &vec![]).unwrap();
    assert_eq!(open, vec![]);
}

#[test]
fn active_positions_report_an_overflow() {
    let mints = vec![mint_ambient(1, u128::MAX - 2), mint_ambient(2, 1)];
    assert_eq!(active_positions(&vec![], &vec![], &mints, &vec![]), None);
}

#[test]
fn a_report_tells_the_families_apart() {
    let ranged = combine_and_filter_ranged_positions(vec![mint(1, -10, 10, 100)], vec![]);
    assert_eq!(
        Position::Ranged(ranged[0]).report(),
        PositionReport {
            user: addr(1),
            base: addr(2),
            quote: addr(3),
            pool_idx: U256::from_u64(7),
            bid_tick: -10,
            ask_tick: 10,
            is_bid: true,
            ambient_liq: 0,
            conc_liq: 100,
        }
    );
    let mut empty = mint_ambient(1, 5);
    empty.base_qty = 0;
    let ambient = combine_and_filter_ambient_positions(vec![empty], vec![]);
    assert_eq!(
        Position::Ambient(ambient[0]).report(),
        PositionReport {
            user: addr(1),
            base: addr(2),
            quote: addr(3),
            pool_idx: U256::from_u64(7),
            bid_tick: 0,
            ask_tick: 0,
            is_bid: false,
            ambient_liq: 5,
            conc_liq: 0,
        }
    );
}
