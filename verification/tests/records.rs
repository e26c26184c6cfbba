use ambient_indexer::curve::{amount_is_worth_storing, CurveState};
use ambient_indexer::proto_text::{
    check_space, clean_proto_string, find_char, trim, without_char,
};
use ambient_indexer::mirror::{
    cache_action, cache_is_fresh, is_served, CacheAction, ProposalInfo, ProposalQuery, ValidatorInfo, ValidatorQuery,
    CACHE_DURATION,
};

fn proposal(status: i32) -> ProposalInfo {
    ProposalInfo {
        proposal_id: 1,
        content: None,
        status,
        final_tally_result: None,
        submit_time: None,
        deposit_end_time: None,
        total_deposit: vec![],
        voting_start_time: None,
        voting_end_time: None,
        last_updated: 0,
    }
}

fn validator(status: i32, jailed: bool) -> ValidatorInfo {
    ValidatorInfo {
        operator_address: String::from("altheavaloper1"),
        consensus_pubkey: None,
        jailed,
        status,
        tokens: String::from("0"),
        delegator_shares: String::from("0"),
        description: None,
        unbonding_height: 0,
        unbonding_time: None,
        commission: None,
        min_self_delegation: String::from("1"),
        last_updated: 0,
    }
}

#[test]
fn curve_is_read_from_five_slots() {
    let mut input = vec![0u8; 160];
    input[31] = 1;
    input[48] = 0x80;
    input[95] = 3;
    input[120] = 0x01;
    input[127] = 0x04;
    input[159] = 5;
    // what precedes a field in its slot is not read
    input[96] = 0xff;
    let curve = CurveState::from_abi(&input);
    assert_eq!(
        curve,
        CurveState {
            price_root: 1,
            ambient_seeds: 1u128 << 127,
            conc_liq: 3,
            seed_deflator: (1u64 << 56) + 4,
            conc_growth: 5,
        }
    );
    assert!(!curve.is_zero());
}

#[test]
fn a_curve_of_zeros_is_zero() {
    let curve = CurveState::from_abi(&[0u8; 200]);
    assert!(curve.is_zero());
    assert!(!curve.is_worth_storing(false));
    assert!(curve.is_worth_storing(true));
    let mut one = curve;
    one.conc_growth = 1;
    assert!(!one.is_zero());
    assert!(one.is_worth_storing(false));
    assert!(amount_is_worth_storing(1, false));
    assert!(amount_is_worth_storing(0, true));
    assert!(!amount_is_worth_storing(0, false));
}

#[test]
fn a_proposal_is_active_in_its_voting_period() {
    assert!(proposal(2).is_active());
    assert!(!proposal(1).is_active());
    assert!(!proposal(3).is_active());
}

#[test]
fn a_validator_is_active_when_bonded_and_not_jailed() {
    assert!(validator(3, false).is_active());
    assert!(!validator(3, true).is_active());
    assert!(!validator(2, false).is_active());
}

#[test]
fn a_cached_record_is_fresh_below_the_cache_duration() {
    assert_eq!(CACHE_DURATION, 300);
    assert!(cache_is_fresh(1000, 1000, CACHE_DURATION));
    assert!(cache_is_fresh(1299, 1000, CACHE_DURATION));
    assert!(!cache_is_fresh(1300, 1000, CACHE_DURATION));
    assert!(!cache_is_fresh(1000, 1000, 0));
    assert_eq!(cache_action(Some(1000), 1299, 300), CacheAction::Serve);
    assert_eq!(cache_action(Some(1000), 1300, 300), CacheAction::Refresh);
    assert_eq!(cache_action(None, 1300, 300), CacheAction::Refresh);
}

#[test]
fn the_activity_filter_serves_what_it_asks_for() {
    assert!(is_served(true, None));
    assert!(is_served(false, None));
    assert!(is_served(true, Some(true)));
    assert!(!is_served(false, Some(true)));
    assert!(is_served(false, Some(false)));
    assert!(!is_served(true, Some(false)));
}

#[test]
fn a_title_is_cut_at_the_first_separator() {
    assert_eq!(clean_proto_string("  \u{1b}My \u{1b}Title \u{12}the rest\u{12}more"), "My Title");
    assert_eq!(clean_proto_string("\u{12}only what follows"), "");
    assert_eq!(clean_proto_string("Title\u{12}"), "Title");
}

#[test]
fn a_text_without_separator_is_only_trimmed() {
    assert_eq!(clean_proto_string("\t plain \u{1b}text\u{a0}\n"), "plain \u{1b}text");
    assert_eq!(clean_proto_string(""), "");
    assert_eq!(clean_proto_string(" \u{2003} "), "");
    assert_eq!(clean_proto_string("héllo wörld"), "héllo wörld");
}

#[test]
fn the_text_helpers_work_by_characters() {
    assert_eq!(find_char("héllo", 'l'), 2);
    assert_eq!(find_char("héllo", 'z'), 5);
    assert_eq!(find_char("", 'z'), 0);
    assert_eq!(without_char("a-b--c", '-'), "abc");
    assert_eq!(trim("\u{3000}é \u{1680}"), "é");
    assert!(check_space(' '));
    assert!(check_space('\u{85}'));
    assert!(!check_space('\u{200b}'));
    assert!(!check_space('x'));
}

#[test]
fn a_proposal_query_by_status_overrides_the_activity_filter() {
    let by_status = ProposalQuery { status: Some(3), active: Some(true) };
    assert!(by_status.is_admitted(&proposal(3)));
    assert!(!by_status.is_admitted(&proposal(2)));
    let by_activity = ProposalQuery { status: None, active: Some(true) };
    assert!(by_activity.is_admitted(&proposal(2)));
    assert!(!by_activity.is_admitted(&proposal(3)));
    let all = ProposalQuery { status: None, active: None };
    assert!(all.is_admitted(&proposal(5)));
}

#[test]
fn a_validator_query_by_address_overrides_the_activity_filter() {
    let by_address = ValidatorQuery {
        active: Some(true),
        operator_address: Some(String::from("altheavaloper1")),
    };
    assert!(by_address.is_admitted(&validator(1, true)));
    let other = ValidatorQuery { active: None, operator_address: Some(String::from("altheavaloper2")) };
    assert!(!other.is_admitted(&validator(3, false)));
    let inactive = ValidatorQuery { active: Some(false), operator_address: None };
    assert!(inactive.is_admitted(&validator(3, true)));
    assert!(!inactive.is_admitted(&validator(3, false)));
}
