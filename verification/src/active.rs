//! The positions that a user has open, derived from the history of the
//! user's mint and burn events.

use vstd::prelude::*;
use crate::ambient::AmbientPosition;
use crate::chronology::{ascending, by_date, lemma_by_date_sorts, sort_by_date, Dated};
use crate::positions::{BurnAmbientEvent, BurnRangedEvent, MintAmbientEvent, MintRangedEvent};
use crate::ranged::RangedPosition;
use crate::scope::{concerns, retained, select, PoolId};
use crate::types::{Address, U256};

verus! {

/// An open position of either family.
#[derive(Clone, Copy, Debug, PartialEq, Eq, Hash, Structural)]
pub enum Position {
    Ranged(RangedPosition),
    Ambient(AmbientPosition),
}

/// What is reported of an open position.
#[derive(Clone, Copy, Debug, PartialEq, Eq, Hash, Structural)]
pub struct PositionReport {
    /// The account that owns the position.
    pub user: Address,
    /// The base token of the pool.
    pub base: Address,
    /// The quote token of the pool.
    pub quote: Address,
    /// The template of the pool.
    pub pool_idx: U256,
    /// The lower tick of the range; zero for an ambient position.
    pub bid_tick: i32,
    /// The upper tick of the range; zero for an ambient position.
    pub ask_tick: i32,
    /// Whether the position holds base tokens.
    pub is_bid: bool,
    /// The liquidity of an ambient position; zero for a ranged one.
    pub ambient_liq: u128,
    /// The liquidity of a ranged position; zero for an ambient one.
    pub conc_liq: u128,
}

impl Position {
    /// What is reported of this position.
    pub open spec fn spec_report(&self) -> PositionReport {
        match *self {
            Position::Ranged(p) => PositionReport {
                user: p.user,
                base: p.base,
                quote: p.quote,
                pool_idx: p.pool_idx,
                bid_tick: p.bid_tick,
                ask_tick: p.ask_tick,
                is_bid: p.base_amount > 0,
                ambient_liq: 0,
                conc_liq: p.liq,
            },
            Position::Ambient(p) => PositionReport {
                user: p.user,
                base: p.base,
                quote: p.quote,
                pool_idx: p.pool_idx,
                bid_tick: 0,
                ask_tick: 0,
                is_bid: p.base_amount > 0,
                ambient_liq: p.liq,
                conc_liq: 0,
            },
        }
    }

    /// What is reported of this position.
    #[verifier::when_used_as_spec(spec_report)]
    pub fn report(&self) -> (r: PositionReport)
        ensures
            r == self.spec_report(),
    {
        match self {
            Position::Ranged(p) => PositionReport {
                user: p.user,
                base: p.base,
                quote: p.quote,
                pool_idx: p.pool_idx,
                bid_tick: p.bid_tick,
                ask_tick: p.ask_tick,
                is_bid: p.base_amount > 0,
                ambient_liq: 0,
                conc_liq: p.liq,
            },
            Position::Ambient(p) => PositionReport {
                user: p.user,
                base: p.base,
                quote: p.quote,
                pool_idx: p.pool_idx,
                bid_tick: 0,
                ask_tick: 0,
                is_bid: p.base_amount > 0,
                ambient_liq: p.liq,
                conc_liq: 0,
            },
        }
    }

    /// The block of the latest mint that added to the position.
    pub open spec fn spec_start_block(&self) -> U256 {
        match *self {
            Position::Ranged(p) => p.start_block,
            Position::Ambient(p) => p.start_block,
        }
    }

    /// The block of the latest mint that added to the position.
    #[verifier::when_used_as_spec(spec_start_block)]
    pub fn start_block(&self) -> (b: U256)
        ensures
            b == self.spec_start_block(),
    {
        match self {
            Position::Ranged(p) => p.start_block,
            Position::Ambient(p) => p.start_block,
        }
    }
}

impl Dated for Position {
    open spec fn date(&self) -> nat {
        self.spec_start_block().value()
    }

    fn not_after(&self, other: &Self) -> (r: bool) {
        let mine = self.start_block();
        let theirs = other.start_block();
        mine.le(&theirs)
    }
}

/// The ranged positions followed by the ambient ones, as positions of either family.
pub open spec fn joined(ranged: Seq<RangedPosition>, ambient: Seq<AmbientPosition>) -> Seq<
    Position,
> {
    Seq::new(ranged.len(), |i: int| Position::Ranged(ranged[i])) + Seq::new(
        ambient.len(),
        |i: int| Position::Ambient(ambient[i]),
    )
}

/// Whether the mints, taken in ascending order of block, can be summed
/// without an amount leaving 128 bits.
pub open spec fn amounts_fit(
    mint_ranged: Seq<MintRangedEvent>,
    mint_ambient: Seq<MintAmbientEvent>,
) -> bool {
    RangedPosition::mints_fit(Seq::empty(), by_date(mint_ranged)) && AmbientPosition::mints_fit(
        Seq::empty(),
        by_date(mint_ambient),
    )
}

/// The positions that the four histories leave open. Each history is taken
/// in ascending order of block; the ranged and the ambient family are
/// reconciled apart; the open positions of both are listed in ascending order
/// of their start block, ranged before ambient where the blocks are equal,
/// and within a family in the order they were opened.
pub open spec fn open_positions(
    mint_ranged: Seq<MintRangedEvent>,
    burn_ranged: Seq<BurnRangedEvent>,
    mint_ambient: Seq<MintAmbientEvent>,
    burn_ambient: Seq<BurnAmbientEvent>,
) -> Seq<Position> {
    by_date(
        joined(
            RangedPosition::open_after(by_date(mint_ranged), by_date(burn_ranged)),
            AmbientPosition::open_after(by_date(mint_ambient), by_date(burn_ambient)),
        ),
    )
}

/// Derives the open positions from the four histories of one scope. There is
/// no result where a sum of amounts leaves 128 bits.
pub fn active_positions(
    mint_ranged: &Vec<MintRangedEvent>,
    burn_ranged: &Vec<BurnRangedEvent>,
    mint_ambient: &Vec<MintAmbientEvent>,
    burn_ambient: &Vec<BurnAmbientEvent>,
) -> (r: Option<Vec<Position>>)
    ensures
        r.is_some() <==> amounts_fit(mint_ranged@, mint_ambient@),
        r.is_some() ==> r.unwrap()@ == open_positions(
            mint_ranged@,
            burn_ranged@,
            mint_ambient@,
            burn_ambient@,
        ),
        r.is_some() ==> ascending(r.unwrap()@),
{
    let mint_ranged = sort_by_date(mint_ranged);
    let burn_ranged = sort_by_date(burn_ranged);
    let mint_ambient = sort_by_date(mint_ambient);
    let burn_ambient = sort_by_date(burn_ambient);
    let ranged = match RangedPosition::reconcile(&mint_ranged, &burn_ranged) {
        Some(folded) => folded.positions,
        None => {
            return None;
        },
    };
    let ambient = match AmbientPosition::reconcile(&mint_ambient, &burn_ambient) {
        Some(folded) => folded.positions,
        None => {
            return None;
        },
    };
    let mut all: Vec<Position> = Vec::new();
    let mut i: usize = 0;
    while i < ranged.len()
        invariant
            i <= ranged@.len(),
            all@ == Seq::new(i as nat, |k: int| Position::Ranged(ranged@[k])),
        decreases ranged@.len() - i,
    {
        all.push(Position::Ranged(ranged[i]));
        i = i + 1;
        assert(all@ =~= Seq::new(i as nat, |k: int| Position::Ranged(ranged@[k])));
    }
    let ghost front = all@;
    let mut j: usize = 0;
    while j < ambient.len()
        invariant
            j <= ambient@.len(),
            all@ == front + Seq::new(j as nat, |k: int| Position::Ambient(ambient@[k])),
        decreases ambient@.len() - j,
    {
        all.push(Position::Ambient(ambient[j]));
        j = j + 1;
        assert(all@ =~= front + Seq::new(j as nat, |k: int| Position::Ambient(ambient@[k])));
    }
    proof {
        assert(all@ =~= joined(ranged@, ambient@));
        lemma_by_date_sorts(all@);
    }
    Some(sort_by_date(&all))
}

/// The positions that `user` has open, derived from histories that may hold
/// events of other users as well.
pub fn get_active_user_positions(
    user: Address,
    mint_ranged: &Vec<MintRangedEvent>,
    burn_ranged: &Vec<BurnRangedEvent>,
    mint_ambient: &Vec<MintAmbientEvent>,
    burn_ambient: &Vec<BurnAmbientEvent>,
) -> (r: Option<Vec<Position>>)
    ensures
        r.is_some() <==> amounts_fit(
            retained(mint_ranged@, |e: MintRangedEvent| concerns(e, user, None)),
            retained(mint_ambient@, |e: MintAmbientEvent| concerns(e, user, None)),
        ),
        r.is_some() ==> r.unwrap()@ == open_positions(
            retained(mint_ranged@, |e: MintRangedEvent| concerns(e, user, None)),
            retained(burn_ranged@, |e: BurnRangedEvent| concerns(e, user, None)),
            retained(mint_ambient@, |e: MintAmbientEvent| concerns(e, user, None)),
            retained(burn_ambient@, |e: BurnAmbientEvent| concerns(e, user, None)),
        ),
{
    let mint_ranged = select(mint_ranged, user, None);
    let burn_ranged = select(burn_ranged, user, None);
    let mint_ambient = select(mint_ambient, user, None);
    let burn_ambient = select(burn_ambient, user, None);
    active_positions(&mint_ranged, &burn_ranged, &mint_ambient, &burn_ambient)
}

/// The positions that `user` has open in the pool of `base` and `quote` made
/// from the template `pool_idx`, derived from histories that may hold events
/// of other users and pools as well.
pub fn get_active_user_pool_positions(
    user: Address,
    base: Address,
    quote: Address,
    pool_idx: U256,
    mint_ranged: &Vec<MintRangedEvent>,
    burn_ranged: &Vec<BurnRangedEvent>,
    mint_ambient: &Vec<MintAmbientEvent>,
    burn_ambient: &Vec<BurnAmbientEvent>,
) -> (r: Option<Vec<Position>>)
    ensures
        r.is_some() <==> amounts_fit(
            retained(
                mint_ranged@,
                |e: MintRangedEvent| concerns(e, user, Some(PoolId { base, quote, pool_idx })),
            ),
            retained(
                mint_ambient@,
                |e: MintAmbientEvent| concerns(e, user, Some(PoolId { base, quote, pool_idx })),
            ),
        ),
        r.is_some() ==> r.unwrap()@ == open_positions(
            retained(
                mint_ranged@,
                |e: MintRangedEvent| concerns(e, user, Some(PoolId { base, quote, pool_idx })),
            ),
            retained(
                burn_ranged@,
                |e: BurnRangedEvent| concerns(e, user, Some(PoolId { base, quote, pool_idx })),
            ),
            retained(
                mint_ambient@,
                |e: MintAmbientEvent| concerns(e, user, Some(PoolId { base, quote, pool_idx })),
            ),
            retained(
                burn_ambient@,
                |e: BurnAmbientEvent| concerns(e, user, Some(PoolId { base, quote, pool_idx })),
            ),
        ),
{
    let pool = Some(PoolId { base, quote, pool_idx });
    let mint_ranged = select(mint_ranged, user, pool);
    let burn_ranged = select(burn_ranged, user, pool);
    let mint_ambient = select(mint_ambient, user, pool);
    let burn_ambient = select(burn_ambient, user, pool);
    active_positions(&mint_ranged, &burn_ranged, &mint_ambient, &burn_ambient)
}

} // verus!
