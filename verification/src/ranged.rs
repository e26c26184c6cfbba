//! Reconciliation of ranged positions: folding a history of mint and burn
//! events into the positions that are open at its end.
//!
//! A position is identified by its key. A mint adds to the first open position
//! of its key that was started no later than the mint, or opens a new one. A
//! burn closes the first open position of its key that was started no later
//! than the burn; a burn that finds none is dangling and changes nothing.

use vstd::prelude::*;
use crate::chronology::{ascending, by_date, lemma_by_date_sorts, sort_by_date, Dated};
use crate::positions::{BurnRangedEvent, MintRangedEvent};
use crate::types::{Address, U256};

verus! {

/// The tuple that identifies a ranged position.
#[derive(Clone, Copy, Debug, PartialEq, Eq, Hash, Structural)]
pub struct RangedKey {
    /// The account that owns the position.
    pub user: Address,
    /// The base token of the pool.
    pub base: Address,
    /// The quote token of the pool.
    pub quote: Address,
    /// The template of the pool.
    pub pool_idx: U256,
    /// The lower tick of the range.
    pub bid_tick: i32,
    /// The upper tick of the range.
    pub ask_tick: i32,
}

/// An open ranged position.
#[derive(Clone, Copy, Debug, PartialEq, Eq, Hash, Structural)]
pub struct RangedPosition {
    /// The block of the latest mint that added to the position.
    pub start_block: U256,
    /// The account that owns the position.
    pub user: Address,
    /// The base token of the pool.
    pub base: Address,
    /// The quote token of the pool.
    pub quote: Address,
    /// The template of the pool.
    pub pool_idx: U256,
    /// The lower tick of the range.
    pub bid_tick: i32,
    /// The upper tick of the range.
    pub ask_tick: i32,
    /// The liquidity added so far.
    pub liq: u128,
    /// The base tokens added so far.
    pub base_amount: u128,
    /// The quote tokens added so far.
    pub quote_amount: u128,
}

/// What a history of ranged events folds to.
#[derive(Debug)]
pub struct RangedReconciliation {
    /// The positions that are open at the end, in ascending order of their
    /// start block; positions of one start block in the order they were opened.
    pub positions: Vec<RangedPosition>,
    /// The burns that found no position to close, in the order they came.
    pub dangling: Vec<BurnRangedEvent>,
}

impl MintRangedEvent {
    /// The key of the position that this mint adds to.
    pub open spec fn spec_key(&self) -> RangedKey {
        RangedKey {
            user: self.user,
            base: self.base,
            quote: self.quote,
            pool_idx: self.pool_idx,
            bid_tick: self.bid_tick,
            ask_tick: self.ask_tick,
        }
    }

    /// The key of the position that this mint adds to.
    #[verifier::when_used_as_spec(spec_key)]
    pub fn key(&self) -> (k: RangedKey)
        ensures
            k == self.spec_key(),
    {
        RangedKey {
            user: self.user,
            base: self.base,
            quote: self.quote,
            pool_idx: self.pool_idx,
            bid_tick: self.bid_tick,
            ask_tick: self.ask_tick,
        }
    }
}

impl BurnRangedEvent {
    /// The key of the position that this burn closes.
    pub open spec fn spec_key(&self) -> RangedKey {
        RangedKey {
            user: self.user,
            base: self.base,
            quote: self.quote,
            pool_idx: self.pool_idx,
            bid_tick: self.bid_tick,
            ask_tick: self.ask_tick,
        }
    }

    /// The key of the position that this burn closes.
    #[verifier::when_used_as_spec(spec_key)]
    pub fn key(&self) -> (k: RangedKey)
        ensures
            k == self.spec_key(),
    {
        RangedKey {
            user: self.user,
            base: self.base,
            quote: self.quote,
            pool_idx: self.pool_idx,
            bid_tick: self.bid_tick,
            ask_tick: self.ask_tick,
        }
    }
}

impl Dated for MintRangedEvent {
    open spec fn date(&self) -> nat {
        self.block_height.value()
    }

    fn not_after(&self, other: &Self) -> (r: bool) {
        self.block_height.le(&other.block_height)
    }
}

impl Dated for BurnRangedEvent {
    open spec fn date(&self) -> nat {
        self.block_height.value()
    }

    fn not_after(&self, other: &Self) -> (r: bool) {
        self.block_height.le(&other.block_height)
    }
}

impl Dated for RangedPosition {
    open spec fn date(&self) -> nat {
        self.start_block.value()
    }

    fn not_after(&self, other: &Self) -> (r: bool) {
        self.start_block.le(&other.start_block)
    }
}

impl RangedPosition {
    /// The key of this position.
    pub open spec fn spec_key(&self) -> RangedKey {
        RangedKey {
            user: self.user,
            base: self.base,
            quote: self.quote,
            pool_idx: self.pool_idx,
            bid_tick: self.bid_tick,
            ask_tick: self.ask_tick,
        }
    }

    /// The key of this position.
    #[verifier::when_used_as_spec(spec_key)]
    pub fn key(&self) -> (k: RangedKey)
        ensures
            k == self.spec_key(),
    {
        RangedKey {
            user: self.user,
            base: self.base,
            quote: self.quote,
            pool_idx: self.pool_idx,
            bid_tick: self.bid_tick,
            ask_tick: self.ask_tick,
        }
    }

    /// Whether an event of key `key` in block `block` falls to this position:
    /// the keys are equal and the position was started no later than `block`.
    pub open spec fn accepts(&self, key: RangedKey, block: U256) -> bool {
        self.spec_key() == key && self.start_block.value() <= block.value()
    }

    /// The position that `mint` opens.
    pub open spec fn opened_by(mint: MintRangedEvent) -> RangedPosition {
        RangedPosition {
            start_block: mint.block_height,
            user: mint.user,
            base: mint.base,
            quote: mint.quote,
            pool_idx: mint.pool_idx,
            bid_tick: mint.bid_tick,
            ask_tick: mint.ask_tick,
            liq: mint.liq,
            base_amount: mint.base_qty,
            quote_amount: mint.quote_qty,
        }
    }

    /// Whether the amounts of `mint` can be added to this position within 128 bits.
    pub open spec fn has_room_for(&self, mint: MintRangedEvent) -> bool {
        self.liq + mint.liq <= u128::MAX && self.base_amount + mint.base_qty <= u128::MAX
            && self.quote_amount + mint.quote_qty <= u128::MAX
    }

    /// This position after `mint` was added to it: the amounts are summed and
    /// the position is dated by the mint.
    pub open spec fn grown_by(&self, mint: MintRangedEvent) -> RangedPosition {
        RangedPosition {
            start_block: mint.block_height,
            user: self.user,
            base: self.base,
            quote: self.quote,
            pool_idx: self.pool_idx,
            bid_tick: self.bid_tick,
            ask_tick: self.ask_tick,
            liq: (self.liq + mint.liq) as u128,
            base_amount: (self.base_amount + mint.base_qty) as u128,
            quote_amount: (self.quote_amount + mint.quote_qty) as u128,
        }
    }

    /// The index of the first position of `open` that accepts an event of key
    /// `key` in block `block`; the length of `open` where none does.
    pub open spec fn first_accepting(open: Seq<RangedPosition>, key: RangedKey, block: U256) -> int
        decreases open.len(),
    {
        if open.len() == 0 {
            0
        } else if open[0].accepts(key, block) {
            0
        } else {
            1 + Self::first_accepting(open.skip(1), key, block)
        }
    }

    /// Whether `mint` can be applied to `open` without an amount leaving 128 bits.
    pub open spec fn mint_fits(open: Seq<RangedPosition>, mint: MintRangedEvent) -> bool {
        let i = Self::first_accepting(open, mint.spec_key(), mint.block_height);
        i < open.len() ==> open[i].has_room_for(mint)
    }

    /// The open positions after `mint`: it is added to the first position
    /// that accepts it, or opens a new position behind the others.
    pub open spec fn minted(
        open: Seq<RangedPosition>,
        mint: MintRangedEvent,
    ) -> Seq<RangedPosition> {
        let i = Self::first_accepting(open, mint.spec_key(), mint.block_height);
        if i < open.len() {
            open.update(i, open[i].grown_by(mint))
        } else {
            open.push(Self::opened_by(mint))
        }
    }

    /// Whether all of `mints` can be applied to `open`, one after the other,
    /// without an amount leaving 128 bits.
    pub open spec fn mints_fit(open: Seq<RangedPosition>, mints: Seq<MintRangedEvent>) -> bool
        decreases mints.len(),
    {
        mints.len() == 0 || (Self::mint_fits(open, mints[0]) && Self::mints_fit(
            Self::minted(open, mints[0]),
            mints.skip(1),
        ))
    }

    /// The open positions after all of `mints`, applied in their order.
    pub open spec fn minted_all(
        open: Seq<RangedPosition>,
        mints: Seq<MintRangedEvent>,
    ) -> Seq<RangedPosition>
        decreases mints.len(),
    {
        if mints.len() == 0 {
            open
        } else {
            Self::minted_all(Self::minted(open, mints[0]), mints.skip(1))
        }
    }

    /// Whether `burn` finds no position of `open` to close.
    pub open spec fn is_dangling(open: Seq<RangedPosition>, burn: BurnRangedEvent) -> bool {
        Self::first_accepting(open, burn.spec_key(), burn.block_height) >= open.len()
    }

    /// The open positions after `burn`: the first position that accepts it is
    /// removed whole; where none accepts it, nothing changes.
    pub open spec fn burned(
        open: Seq<RangedPosition>,
        burn: BurnRangedEvent,
    ) -> Seq<RangedPosition> {
        let i = Self::first_accepting(open, burn.spec_key(), burn.block_height);
        if i < open.len() {
            open.remove(i)
        } else {
            open
        }
    }

    /// The open positions after all of `burns`, applied in their order.
    pub open spec fn burned_all(
        open: Seq<RangedPosition>,
        burns: Seq<BurnRangedEvent>,
    ) -> Seq<RangedPosition>
        decreases burns.len(),
    {
        if burns.len() == 0 {
            open
        } else {
            Self::burned_all(Self::burned(open, burns[0]), burns.skip(1))
        }
    }

    /// Those of `burns` that are dangling when they are applied to `open` in their order.
    pub open spec fn dangling_burns(
        open: Seq<RangedPosition>,
        burns: Seq<BurnRangedEvent>,
    ) -> Seq<BurnRangedEvent>
        decreases burns.len(),
    {
        if burns.len() == 0 {
            Seq::empty()
        } else {
            let rest = Self::dangling_burns(Self::burned(open, burns[0]), burns.skip(1));
            if Self::is_dangling(open, burns[0]) {
                seq![burns[0]] + rest
            } else {
                rest
            }
        }
    }

    /// The positions that are open after all of `mints` and then all of
    /// `burns`, in the order they were opened.
    pub open spec fn reconciled(
        mints: Seq<MintRangedEvent>,
        burns: Seq<BurnRangedEvent>,
    ) -> Seq<RangedPosition> {
        Self::burned_all(Self::minted_all(Seq::empty(), mints), burns)
    }

    /// The positions that are open after all of `mints` and then all of
    /// `burns`, in ascending order of their start block; positions of one
    /// start block in the order they were opened.
    pub open spec fn open_after(
        mints: Seq<MintRangedEvent>,
        burns: Seq<BurnRangedEvent>,
    ) -> Seq<RangedPosition> {
        by_date(Self::reconciled(mints, burns))
    }

    /// The first accepting position is accepting, and none before it is.
    pub proof fn lemma_first_accepting(open: Seq<RangedPosition>, key: RangedKey, block: U256)
        ensures
            0 <= Self::first_accepting(open, key, block) <= open.len(),
            Self::first_accepting(open, key, block) < open.len() ==> open[Self::first_accepting(
                open,
                key,
                block,
            )].accepts(key, block),
            forall|j: int|
                0 <= j < Self::first_accepting(open, key, block) ==> !(#[trigger] open[j]).accepts(
                    key,
                    block,
                ),
        decreases open.len(),
    {
        if open.len() > 0 && !open[0].accepts(key, block) {
            let rest = open.skip(1);
            Self::lemma_first_accepting(rest, key, block);
            let r = Self::first_accepting(rest, key, block);
            assert forall|j: int| 0 <= j < 1 + r implies !(#[trigger] open[j]).accepts(
                key,
                block,
            ) by {
                if j > 0 {
                    assert(rest[j - 1] == open[j]);
                }
            }
            if r < rest.len() {
                assert(rest[r] == open[r + 1]);
            }
        }
    }

    /// A mint whose key no open position has opens a position of its own,
    /// behind the others, and changes none of them.
    pub proof fn lemma_mint_of_new_key_opens(open: Seq<RangedPosition>, mint: MintRangedEvent)
        requires
            forall|j: int|
                0 <= j < open.len() ==> (#[trigger] open[j]).spec_key() != mint.spec_key(),
        ensures
            Self::mint_fits(open, mint),
            Self::minted(open, mint) == open.push(Self::opened_by(mint)),
    {
        Self::lemma_first_accepting(open, mint.spec_key(), mint.block_height);
    }

    /// A mint changes no position of another key: positions of different
    /// keys are never merged.
    pub proof fn lemma_mint_keeps_other_keys(open: Seq<RangedPosition>, mint: MintRangedEvent)
        ensures
            Self::minted(open, mint).len() >= open.len(),
            forall|j: int|
                0 <= j < open.len() && (#[trigger] open[j]).spec_key() != mint.spec_key()
                    ==> Self::minted(open, mint)[j] == open[j],
    {
        Self::lemma_first_accepting(open, mint.spec_key(), mint.block_height);
    }

    /// A burn that no open position accepts is dangling and changes nothing.
    pub proof fn lemma_dangling_burn_changes_nothing(
        open: Seq<RangedPosition>,
        burn: BurnRangedEvent,
    )
        requires
            forall|j: int|
                0 <= j < open.len() ==> !(#[trigger] open[j]).accepts(
                    burn.spec_key(),
                    burn.block_height,
                ),
        ensures
            Self::is_dangling(open, burn),
            Self::burned(open, burn) == open,
    {
        Self::lemma_first_accepting(open, burn.spec_key(), burn.block_height);
    }

    /// A burn removes at most one position, and none of another key.
    pub proof fn lemma_burn_keeps_other_keys(open: Seq<RangedPosition>, burn: BurnRangedEvent)
        ensures
            Self::burned(open, burn).len() + 1 >= open.len(),
            forall|j: int|
                0 <= j < open.len() && (#[trigger] open[j]).spec_key() != burn.spec_key()
                    ==> Self::burned(open, burn).contains(open[j]),
    {
        Self::lemma_first_accepting(open, burn.spec_key(), burn.block_height);
        let i = Self::first_accepting(open, burn.spec_key(), burn.block_height);
        let after = Self::burned(open, burn);
        assert forall|j: int|
            0 <= j < open.len() && (#[trigger] open[j]).spec_key()
                != burn.spec_key() implies after.contains(open[j]) by {
            if i < open.len() {
                if j < i {
                    assert(after[j] == open[j]);
                } else {
                    assert(after[j - 1] == open[j]);
                }
            } else {
                assert(after[j] == open[j]);
            }
        }
    }

    /// Whether no two positions of `open` have one key.
    pub open spec fn keys_are_distinct(open: Seq<RangedPosition>) -> bool {
        forall|i: int, j: int|
            0 <= i < j < open.len() ==> (#[trigger] open[i]).spec_key() != (
            #[trigger] open[j]).spec_key()
    }

    /// Whether no position of `open` was started later than block `block`.
    pub open spec fn started_by(open: Seq<RangedPosition>, block: nat) -> bool {
        forall|i: int| 0 <= i < open.len() ==> (#[trigger] open[i]).start_block.value() <= block
    }

    /// Mints that come in ascending order of block never open a second
    /// position at a key: each mint finds the position of its key, if there
    /// is one.
    pub proof fn lemma_mints_keep_keys_distinct(
        open: Seq<RangedPosition>,
        mints: Seq<MintRangedEvent>,
    )
        requires
            Self::keys_are_distinct(open),
            ascending(mints),
            mints.len() > 0 ==> Self::started_by(open, mints[0].block_height.value()),
        ensures
            Self::keys_are_distinct(Self::minted_all(open, mints)),
        decreases mints.len(),
    {
        if mints.len() > 0 {
            let mint = mints[0];
            let rest = mints.skip(1);
            let next = Self::minted(open, mint);
            let k = Self::first_accepting(open, mint.spec_key(), mint.block_height);
            Self::lemma_first_accepting(open, mint.spec_key(), mint.block_height);
            assert forall|i: int, j: int| 0 <= i < j < next.len() implies (
            #[trigger] next[i]).spec_key() != (#[trigger] next[j]).spec_key() by {
                if k < open.len() {
                    assert(next[i].spec_key() == open[i].spec_key());
                    assert(next[j].spec_key() == open[j].spec_key());
                } else if j == open.len() {
                    assert(!open[i].accepts(mint.spec_key(), mint.block_height));
                } else {
                    assert(next[i] == open[i] && next[j] == open[j]);
                }
            }
            assert forall|i: int, j: int| 0 <= i < j < rest.len() implies (
            #[trigger] rest[i]).date() <= (#[trigger] rest[j]).date() by {
                assert(rest[i] == mints[i + 1] && rest[j] == mints[j + 1]);
            }
            if rest.len() > 0 {
                assert(rest[0] == mints[1]);
                assert(mints[0].date() <= mints[1].date());
                assert forall|i: int| 0 <= i < next.len() implies (
                #[trigger] next[i]).start_block.value() <= rest[0].block_height.value() by {
                    if i < open.len() && i != k {
                        assert(next[i] == open[i]);
                    }
                }
            }
            Self::lemma_mints_keep_keys_distinct(next, rest);
        }
    }

    /// Burns open no position, so they leave the keys distinct.
    pub proof fn lemma_burns_keep_keys_distinct(
        open: Seq<RangedPosition>,
        burns: Seq<BurnRangedEvent>,
    )
        requires
            Self::keys_are_distinct(open),
        ensures
            Self::keys_are_distinct(Self::burned_all(open, burns)),
        decreases burns.len(),
    {
        if burns.len() > 0 {
            let burn = burns[0];
            let next = Self::burned(open, burn);
            let k = Self::first_accepting(open, burn.spec_key(), burn.block_height);
            Self::lemma_first_accepting(open, burn.spec_key(), burn.block_height);
            assert forall|i: int, j: int| 0 <= i < j < next.len() implies (
            #[trigger] next[i]).spec_key() != (#[trigger] next[j]).spec_key() by {
                if k < open.len() {
                    let a = if i < k { i } else { i + 1 };
                    let b = if j < k { j } else { j + 1 };
                    assert(next[i] == open[a] && next[j] == open[b]);
                }
            }
            Self::lemma_burns_keep_keys_distinct(next, burns.skip(1));
        }
    }

    /// A position's identity is its key: from mints that come in ascending
    /// order of block, no two open positions have one key, whatever the burns.
    pub proof fn lemma_one_position_per_key(
        mints: Seq<MintRangedEvent>,
        burns: Seq<BurnRangedEvent>,
    )
        requires
            ascending(mints),
        ensures
            Self::keys_are_distinct(Self::reconciled(mints, burns)),
    {
        Self::lemma_mints_keep_keys_distinct(Seq::empty(), mints);
        Self::lemma_burns_keep_keys_distinct(Self::minted_all(Seq::empty(), mints), burns);
    }

    /// Finds the first position of `open` that accepts an event of key `key`
    /// in block `block`.
    pub fn find_accepting(open: &Vec<RangedPosition>, key: &RangedKey, block: &U256) -> (i: usize)
        ensures
            i == Self::first_accepting(open@, *key, *block),
            i <= open@.len(),
    {
        let mut i: usize = 0;
        assert(open@.skip(0) =~= open@);
        while i < open.len()
            invariant
                i <= open@.len(),
                Self::first_accepting(open@, *key, *block) == i + Self::first_accepting(
                    open@.skip(i as int),
                    *key,
                    *block,
                ),
            decreases open@.len() - i,
        {
            let p: &RangedPosition = &open[i];
            let ghost rest = open@.skip(i as int);
            assert(rest[0] == open@[i as int]);
            assert(rest.skip(1) =~= open@.skip(i + 1));
            if p.key() == *key && p.start_block.le(block) {
                return i;
            }
            i = i + 1;
        }
        i
    }

    /// Applies `mint` to `open`, unless an amount would leave 128 bits: then
    /// `open` is left as it is and the result is false.
    pub fn apply_mint(open: &mut Vec<RangedPosition>, mint: &MintRangedEvent) -> (fits: bool)
        ensures
            fits == Self::mint_fits(old(open)@, *mint),
            fits ==> final(open)@ == Self::minted(old(open)@, *mint),
            !fits ==> final(open)@ == old(open)@,
    {
        let key = mint.key();
        let i = Self::find_accepting(open, &key, &mint.block_height);
        if i < open.len() {
            let p: RangedPosition = open[i];
            let liq = match p.liq.checked_add(mint.liq) {
                Some(v) => v,
                None => {
                    return false;
                },
            };
            let base_amount = match p.base_amount.checked_add(mint.base_qty) {
                Some(v) => v,
                None => {
                    return false;
                },
            };
            let quote_amount = match p.quote_amount.checked_add(mint.quote_qty) {
                Some(v) => v,
                None => {
                    return false;
                },
            };
            open.set(
                i,
                RangedPosition {
                    start_block: mint.block_height,
                    user: p.user,
                    base: p.base,
                    quote: p.quote,
                    pool_idx: p.pool_idx,
                    bid_tick: p.bid_tick,
                    ask_tick: p.ask_tick,
                    liq,
                    base_amount,
                    quote_amount,
                },
            );
        } else {
            open.push(
                RangedPosition {
                    start_block: mint.block_height,
            user: mint.user,
            base: mint.base,
            quote: mint.quote,
            pool_idx: mint.pool_idx,
            bid_tick: mint.bid_tick,
            ask_tick: mint.ask_tick,
                    liq: mint.liq,
                    base_amount: mint.base_qty,
                    quote_amount: mint.quote_qty,
                },
            );
        }
        true
    }

    /// Applies `burn` to `open` and says whether it closed a position.
    pub fn apply_burn(open: &mut Vec<RangedPosition>, burn: &BurnRangedEvent) -> (closed: bool)
        ensures
            closed == !Self::is_dangling(old(open)@, *burn),
            final(open)@ == Self::burned(old(open)@, *burn),
    {
        let key = burn.key();
        let i = Self::find_accepting(open, &key, &burn.block_height);
        if i < open.len() {
            let _ = open.remove(i);
            true
        } else {
            false
        }
    }

    /// Folds `mints` and then `burns`, each in its order, into the open
    /// positions and the dangling burns. The histories are meant to come in
    /// ascending order of block. There is no result where a sum of amounts
    /// leaves 128 bits.
    pub fn reconcile(mints: &Vec<MintRangedEvent>, burns: &Vec<BurnRangedEvent>) -> (r: Option<
        RangedReconciliation,
    >)
        ensures
            r.is_some() <==> Self::mints_fit(Seq::empty(), mints@),
            r.is_some() ==> r.unwrap().positions@ == Self::open_after(mints@, burns@),
            r.is_some() ==> ascending(r.unwrap().positions@),
            r.is_some() ==> r.unwrap().dangling@ == Self::dangling_burns(
                Self::minted_all(Seq::empty(), mints@),
                burns@,
            ),
    {
        let mut open: Vec<RangedPosition> = Vec::new();
        let mut n: usize = 0;
        assert(mints@.skip(0) =~= mints@);
        while n < mints.len()
            invariant
                n <= mints@.len(),
                Self::mints_fit(Seq::empty(), mints@) == Self::mints_fit(
                    open@,
                    mints@.skip(n as int),
                ),
                Self::minted_all(Seq::empty(), mints@) == Self::minted_all(
                    open@,
                    mints@.skip(n as int),
                ),
            decreases mints@.len() - n,
        {
            let ghost rest = mints@.skip(n as int);
            assert(rest[0] == mints@[n as int]);
            assert(rest.skip(1) =~= mints@.skip(n + 1));
            if !Self::apply_mint(&mut open, &mints[n]) {
                return None;
            }
            n = n + 1;
        }
        let ghost start = open@;
        let mut dangling: Vec<BurnRangedEvent> = Vec::new();
        let mut m: usize = 0;
        assert(burns@.skip(0) =~= burns@);
        assert(dangling@ + Self::dangling_burns(start, burns@) =~= Self::dangling_burns(
            start,
            burns@,
        ));
        while m < burns.len()
            invariant
                m <= burns@.len(),
                start == Self::minted_all(Seq::empty(), mints@),
                Self::mints_fit(Seq::empty(), mints@),
                Self::burned_all(start, burns@) == Self::burned_all(open@, burns@.skip(m as int)),
                Self::dangling_burns(start, burns@) == dangling@ + Self::dangling_burns(
                    open@,
                    burns@.skip(m as int),
                ),
            decreases burns@.len() - m,
        {
            let ghost rest = burns@.skip(m as int);
            let ghost before = open@;
            let ghost found = dangling@;
            assert(rest[0] == burns@[m as int]);
            assert(rest.skip(1) =~= burns@.skip(m + 1));
            if !Self::apply_burn(&mut open, &burns[m]) {
                dangling.push(burns[m]);
                assert(dangling@ + Self::dangling_burns(open@, rest.skip(1)) =~= found + (
                seq![rest[0]] + Self::dangling_burns(open@, rest.skip(1))));
            }
            m = m + 1;
        }
        assert(Self::dangling_burns(open@, burns@.skip(m as int)) =~= Seq::<
            BurnRangedEvent,
        >::empty());
        assert(dangling@ + Seq::<BurnRangedEvent>::empty() =~= dangling@);
        proof {
            lemma_by_date_sorts(open@);
        }
        Some(RangedReconciliation { positions: sort_by_date(&open), dangling })
    }
}

/// Combines the mints of one position and removes the positions that a burn
/// closes: the positions that are open after `mint_ranged` and then
/// `burn_ranged`, each applied in its order, listed by start block.
pub fn combine_and_filter_ranged_positions(
    mint_ranged: Vec<MintRangedEvent>,
    burn_ranged: Vec<BurnRangedEvent>,
) -> (open: Vec<RangedPosition>)
    requires
        RangedPosition::mints_fit(Seq::empty(), mint_ranged@),
    ensures
        open@ == RangedPosition::open_after(mint_ranged@, burn_ranged@),
        ascending(open@),
{
    match RangedPosition::reconcile(&mint_ranged, &burn_ranged) {
        Some(folded) => folded.positions,
        None => Vec::new(),
    }
}

} // verus!
