//! Selecting position events by what they are about: the pools that a scan
//! watches, the user or the pool that a query asks for.

use vstd::prelude::*;
use crate::positions::{BurnAmbientEvent, BurnRangedEvent, HarvestEvent};
use crate::positions::{MintAmbientEvent, MintRangedEvent};
use crate::types::{Address, U256};

verus! {

/// An event of a user's position in a pool.
pub trait PoolEvent: Copy {
    /// The account that owns the position.
    spec fn owner(&self) -> Address;

    /// The base token of the pool.
    spec fn base_token(&self) -> Address;

    /// The quote token of the pool.
    spec fn quote_token(&self) -> Address;

    /// The template of the pool.
    spec fn template(&self) -> U256;

    /// The account that owns the position.
    fn get_owner(&self) -> (a: Address)
        ensures
            a == self.owner(),
    ;

    /// The base token of the pool.
    fn get_base_token(&self) -> (a: Address)
        ensures
            a == self.base_token(),
    ;

    /// The quote token of the pool.
    fn get_quote_token(&self) -> (a: Address)
        ensures
            a == self.quote_token(),
    ;

    /// The template of the pool.
    fn get_template(&self) -> (t: U256)
        ensures
            t == self.template(),
    ;
}

/// The tokens and pool templates whose position events a scan keeps.
#[derive(Clone, Debug, PartialEq, Eq)]
pub struct ScanScope {
    /// The tokens of interest: an event is kept only if its base or its quote
    /// token is one of them.
    pub tokens: Vec<Address>,
    /// The templates of interest: an event is kept only if its pool was made
    /// from one of them.
    pub templates: Vec<U256>,
}

/// The pool that a query is narrowed to.
#[derive(Clone, Copy, Debug, PartialEq, Eq, Hash, Structural)]
pub struct PoolId {
    /// The base token of the pool.
    pub base: Address,
    /// The quote token of the pool.
    pub quote: Address,
    /// The template of the pool.
    pub pool_idx: U256,
}

/// The items of `s` for which `keep` holds, in their order.
pub open spec fn retained<T>(s: Seq<T>, keep: spec_fn(T) -> bool) -> Seq<T>
    decreases s.len(),
{
    if s.len() == 0 {
        Seq::empty()
    } else if keep(s.last()) {
        retained(s.drop_last(), keep).push(s.last())
    } else {
        retained(s.drop_last(), keep)
    }
}

/// What is retained are the items for which `keep` holds, and all of them.
pub proof fn lemma_retained_contains<T>(s: Seq<T>, keep: spec_fn(T) -> bool, x: T)
    ensures
        retained(s, keep).contains(x) <==> s.contains(x) && keep(x),
    decreases s.len(),
{
    if s.len() == 0 {
        assert(!retained(s, keep).contains(x));
    } else {
        let front = s.drop_last();
        lemma_retained_contains(front, keep, x);
        let r = retained(s, keep);
        if r.contains(x) {
            let i = choose|i: int| 0 <= i < r.len() && r[i] == x;
            if keep(s.last()) && i == r.len() - 1 {
                assert(s[s.len() - 1] == x);
            } else {
                assert(retained(front, keep)[i] == x);
                let k = choose|k: int| 0 <= k < front.len() && front[k] == x;
                assert(s[k] == x);
            }
        }
        if s.contains(x) && keep(x) {
            let k = choose|k: int| 0 <= k < s.len() && s[k] == x;
            if k == s.len() - 1 {
                assert(r[r.len() - 1] == x);
            } else {
                assert(front[k] == x);
                let i = choose|i: int|
                    0 <= i < retained(front, keep).len() && retained(front, keep)[i] == x;
                assert(r[i] == x);
            }
        }
    }
}

/// Where `keep` holds for every item, every item is retained.
pub proof fn lemma_retained_all<T>(s: Seq<T>, keep: spec_fn(T) -> bool)
    requires
        forall|i: int| 0 <= i < s.len() ==> keep(#[trigger] s[i]),
    ensures
        retained(s, keep) == s,
    decreases s.len(),
{
    if s.len() > 0 {
        let front = s.drop_last();
        assert forall|i: int| 0 <= i < front.len() implies keep(#[trigger] front[i]) by {
            assert(front[i] == s[i]);
        }
        lemma_retained_all(front, keep);
        assert(keep(s[s.len() - 1]));
        assert(front.push(s.last()) =~= s);
    }
}

/// Whether `list` holds `a`.
pub fn holds_address(list: &Vec<Address>, a: Address) -> (r: bool)
    ensures
        r == list@.contains(a),
{
    let mut i: usize = 0;
    while i < list.len()
        invariant
            i <= list@.len(),
            forall|j: int| 0 <= j < i ==> list@[j] != a,
        decreases list@.len() - i,
    {
        if list[i] == a {
            return true;
        }
        i = i + 1;
    }
    false
}

/// Whether `list` holds `t`.
pub fn holds_template(list: &Vec<U256>, t: U256) -> (r: bool)
    ensures
        r == list@.contains(t),
{
    let mut i: usize = 0;
    while i < list.len()
        invariant
            i <= list@.len(),
            forall|j: int| 0 <= j < i ==> list@[j] != t,
        decreases list@.len() - i,
    {
        if list[i] == t {
            return true;
        }
        i = i + 1;
    }
    false
}

impl ScanScope {
    /// Whether a position event of a pool of `base` and `quote` made from
    /// `template` is kept: the template is of interest, and so is one of the
    /// two tokens.
    pub open spec fn admits(&self, base: Address, quote: Address, template: U256) -> bool {
        self.templates@.contains(template) && (self.tokens@.contains(base)
            || self.tokens@.contains(quote))
    }

    /// Whether a position event of a pool of `base` and `quote` made from
    /// `template` is kept.
    pub fn is_admitted(&self, base: Address, quote: Address, template: U256) -> (r: bool)
        ensures
            r == self.admits(base, quote, template),
    {
        holds_template(&self.templates, template) && (holds_address(&self.tokens, base)
            || holds_address(&self.tokens, quote))
    }
}

/// The pairs of tokens `(tokens[a], tokens[b])` with `a <= b`, as far as they
/// are listed once the rows before `i` are complete and row `i` has reached
/// column `j`: row by row, each row from its diagonal to the right.
pub open spec fn pairs_until(tokens: Seq<Address>, i: int, j: int) -> Seq<(Address, Address)>
    decreases i, j,
{
    if 0 <= i < j <= tokens.len() {
        pairs_until(tokens, i, j - 1).push((tokens[i], tokens[j - 1]))
    } else if 0 < i <= tokens.len() {
        pairs_until(tokens, i - 1, tokens.len() as int)
    } else {
        Seq::empty()
    }
}

/// Every pair of `tokens` that can be the base and the quote token of a pool.
pub open spec fn token_pairs(tokens: Seq<Address>) -> Seq<(Address, Address)> {
    pairs_until(tokens, tokens.len() as int, tokens.len() as int)
}

/// The pools of the first `p` pairs and every template, and of pair `p` and
/// the first `t` templates: pair by pair, each pair with every template.
pub open spec fn pools_until(
    pairs: Seq<(Address, Address)>,
    templates: Seq<U256>,
    p: int,
    t: int,
) -> Seq<PoolId>
    decreases p, t,
{
    if 0 <= p < pairs.len() && 0 < t <= templates.len() {
        pools_until(pairs, templates, p, t - 1).push(
            PoolId { base: pairs[p].0, quote: pairs[p].1, pool_idx: templates[t - 1] },
        )
    } else if 0 < p <= pairs.len() {
        pools_until(pairs, templates, p - 1, templates.len() as int)
    } else {
        Seq::empty()
    }
}

impl ScanScope {
    /// The pools that the scope asks to be queried: every pair of its tokens
    /// with every one of its templates.
    pub open spec fn pools(&self) -> Seq<PoolId> {
        pools_until(
            token_pairs(self.tokens@),
            self.templates@,
            token_pairs(self.tokens@).len() as int,
            0,
        )
    }

    /// Lists every pair of the scope's tokens, a token with itself included.
    pub fn list_pairs(&self) -> (pairs: Vec<(Address, Address)>)
        ensures
            pairs@ == token_pairs(self.tokens@),
    {
        let n = self.tokens.len();
        let mut pairs: Vec<(Address, Address)> = Vec::new();
        let mut i: usize = 0;
        while i < n
            invariant
                i <= n,
                n == self.tokens@.len(),
                pairs@ == pairs_until(self.tokens@, i as int, i as int),
            decreases n - i,
        {
            let mut j: usize = i;
            while j < n
                invariant
                    i <= j <= n,
                    i < n,
                    n == self.tokens@.len(),
                    pairs@ == pairs_until(self.tokens@, i as int, j as int),
                decreases n - j,
            {
                pairs.push((self.tokens[i], self.tokens[j]));
                j = j + 1;
            }
            i = i + 1;
        }
        pairs
    }

    /// Lists the pools that the scope asks to be queried.
    pub fn list_pools(&self) -> (pools: Vec<PoolId>)
        ensures
            pools@ == self.pools(),
    {
        let pairs = self.list_pairs();
        let count = self.templates.len();
        let mut pools: Vec<PoolId> = Vec::new();
        let mut p: usize = 0;
        while p < pairs.len()
            invariant
                p <= pairs@.len(),
                count == self.templates@.len(),
                pools@ == pools_until(pairs@, self.templates@, p as int, 0),
            decreases pairs@.len() - p,
        {
            let mut t: usize = 0;
            while t < count
                invariant
                    t <= count,
                    p < pairs@.len(),
                    count == self.templates@.len(),
                    pools@ == pools_until(pairs@, self.templates@, p as int, t as int),
                decreases count - t,
            {
                pools.push(
                    PoolId { base: pairs[p].0, quote: pairs[p].1, pool_idx: self.templates[t] },
                );
                t = t + 1;
            }
            p = p + 1;
        }
        pools
    }
}

/// Whether the event `e` is of `user` and, where `pool` names one, of that pool.
pub open spec fn concerns<T: PoolEvent>(e: T, user: Address, pool: Option<PoolId>) -> bool {
    e.owner() == user && match pool {
        Some(p) => e.base_token() == p.base && e.quote_token() == p.quote && e.template()
            == p.pool_idx,
        None => true,
    }
}

/// Those of `events` that are of `user` and, where `pool` names one, of that
/// pool, in their order.
pub fn select<T: PoolEvent>(events: &Vec<T>, user: Address, pool: Option<PoolId>) -> (kept: Vec<T>)
    ensures
        kept@ == retained(events@, |e: T| concerns(e, user, pool)),
{
    let ghost keep = |e: T| concerns(e, user, pool);
    let mut kept: Vec<T> = Vec::new();
    let mut n: usize = 0;
    while n < events.len()
        invariant
            n <= events@.len(),
            keep == |e: T| concerns(e, user, pool),
            kept@ == retained(events@.take(n as int), keep),
        decreases events@.len() - n,
    {
        let e: T = events[n];
        proof {
            assert(events@.take(n + 1).drop_last() =~= events@.take(n as int));
            assert(events@.take(n + 1).last() == e);
        }
        let of_pool: bool = match pool {
            Some(p) => e.get_base_token() == p.base && e.get_quote_token() == p.quote
                && e.get_template() == p.pool_idx,
            None => true,
        };
        if e.get_owner() == user && of_pool {
            kept.push(e);
        }
        n = n + 1;
    }
    proof {
        assert(events@.take(n as int) =~= events@);
    }
    kept
}

impl PoolEvent for MintRangedEvent {
    open spec fn owner(&self) -> Address {
        self.user
    }

    open spec fn base_token(&self) -> Address {
        self.base
    }

    open spec fn quote_token(&self) -> Address {
        self.quote
    }

    open spec fn template(&self) -> U256 {
        self.pool_idx
    }

    fn get_owner(&self) -> (a: Address) {
        self.user
    }

    fn get_base_token(&self) -> (a: Address) {
        self.base
    }

    fn get_quote_token(&self) -> (a: Address) {
        self.quote
    }

    fn get_template(&self) -> (t: U256) {
        self.pool_idx
    }
}

impl PoolEvent for BurnRangedEvent {
    open spec fn owner(&self) -> Address {
        self.user
    }

    open spec fn base_token(&self) -> Address {
        self.base
    }

    open spec fn quote_token(&self) -> Address {
        self.quote
    }

    open spec fn template(&self) -> U256 {
        self.pool_idx
    }

    fn get_owner(&self) -> (a: Address) {
        self.user
    }

    fn get_base_token(&self) -> (a: Address) {
        self.base
    }

    fn get_quote_token(&self) -> (a: Address) {
        self.quote
    }

    fn get_template(&self) -> (t: U256) {
        self.pool_idx
    }
}

impl PoolEvent for HarvestEvent {
    open spec fn owner(&self) -> Address {
        self.user
    }

    open spec fn base_token(&self) -> Address {
        self.base
    }

    open spec fn quote_token(&self) -> Address {
        self.quote
    }

    open spec fn template(&self) -> U256 {
        self.pool_idx
    }

    fn get_owner(&self) -> (a: Address) {
        self.user
    }

    fn get_base_token(&self) -> (a: Address) {
        self.base
    }

    fn get_quote_token(&self) -> (a: Address) {
        self.quote
    }

    fn get_template(&self) -> (t: U256) {
        self.pool_idx
    }
}

impl PoolEvent for MintAmbientEvent {
    open spec fn owner(&self) -> Address {
        self.user
    }

    open spec fn base_token(&self) -> Address {
        self.base
    }

    open spec fn quote_token(&self) -> Address {
        self.quote
    }

    open spec fn template(&self) -> U256 {
        self.pool_idx
    }

    fn get_owner(&self) -> (a: Address) {
        self.user
    }

    fn get_base_token(&self) -> (a: Address) {
        self.base
    }

    fn get_quote_token(&self) -> (a: Address) {
        self.quote
    }

    fn get_template(&self) -> (t: U256) {
        self.pool_idx
    }
}

impl PoolEvent for BurnAmbientEvent {
    open spec fn owner(&self) -> Address {
        self.user
    }

    open spec fn base_token(&self) -> Address {
        self.base
    }

    open spec fn quote_token(&self) -> Address {
        self.quote
    }

    open spec fn template(&self) -> U256 {
        self.pool_idx
    }

    fn get_owner(&self) -> (a: Address) {
        self.user
    }

    fn get_base_token(&self) -> (a: Address) {
        self.base
    }

    fn get_quote_token(&self) -> (a: Address) {
        self.quote
    }

    fn get_template(&self) -> (t: U256) {
        self.pool_idx
    }
}

} // verus!
