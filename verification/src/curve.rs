//! The state of a pool's liquidity curve, as the query contract returns it.

use vstd::prelude::*;
use crate::abi_util::{be_value, parse_u128, parse_u64};

verus! {

/// Signature of the query for the state of a pool's curve.
pub const QUERY_CURVE_SIG: &'static str = "queryCurve(address,address,uint256)";

/// Signature of the query for the liquidity that is active in a pool.
pub const QUERY_LIQUIDITY_SIG: &'static str = "queryLiquidity(address,address,uint256)";

/// Signature of the query for the price of a pool.
pub const QUERY_PRICE_SIG: &'static str = "queryPrice(address,address,uint256)";

/// The state of a pool's curve.
#[derive(Clone, Copy, Debug, PartialEq, Eq, Structural)]
pub struct CurveState {
    /// The square root of the price, in Q64.64.
    pub price_root: u128,
    /// The ambient liquidity, in seeds.
    pub ambient_seeds: u128,
    /// The concentrated liquidity.
    pub conc_liq: u128,
    /// The deflator that turns seeds into liquidity.
    pub seed_deflator: u64,
    /// The growth of the concentrated liquidity's rewards.
    pub conc_growth: u64,
}

impl CurveState {
    /// The curve that the five slots of `input` denote: three 128-bit numbers
    /// followed by two 64-bit numbers, each in the last bytes of its slot.
    pub open spec fn read_from(input: Seq<u8>) -> CurveState {
        CurveState {
            price_root: be_value(input.subrange(16, 32)) as u128,
            ambient_seeds: be_value(input.subrange(48, 64)) as u128,
            conc_liq: be_value(input.subrange(80, 96)) as u128,
            seed_deflator: be_value(input.subrange(120, 128)) as u64,
            conc_growth: be_value(input.subrange(152, 160)) as u64,
        }
    }

    /// Whether every field of the curve is zero.
    pub open spec fn spec_is_zero(&self) -> bool {
        self.price_root == 0 && self.ambient_seeds == 0 && self.conc_liq == 0 && self.seed_deflator
            == 0 && self.conc_growth == 0
    }

    /// Reads the curve from the answer of the query contract.
    pub fn from_abi(input: &[u8]) -> (curve: CurveState)
        requires
            input@.len() >= 160,
        ensures
            curve == Self::read_from(input@),
            curve.price_root as nat == be_value(input@.subrange(16, 32)),
            curve.ambient_seeds as nat == be_value(input@.subrange(48, 64)),
            curve.conc_liq as nat == be_value(input@.subrange(80, 96)),
            curve.seed_deflator as nat == be_value(input@.subrange(120, 128)),
            curve.conc_growth as nat == be_value(input@.subrange(152, 160)),
    {
        let price_root = parse_u128(input, 0);
        let ambient_seeds = parse_u128(input, 32);
        let conc_liq = parse_u128(input, 64);
        let seed_deflator = parse_u64(input, 96);
        let conc_growth = parse_u64(input, 128);
        CurveState { price_root, ambient_seeds, conc_liq, seed_deflator, conc_growth }
    }

    /// Whether every field of the curve is zero: the answer for a pool that
    /// does not exist.
    #[verifier::when_used_as_spec(spec_is_zero)]
    pub fn is_zero(&self) -> (r: bool)
        ensures
            r == self.spec_is_zero(),
    {
        self.price_root == 0 && self.ambient_seeds == 0 && self.conc_liq == 0 && self.seed_deflator
            == 0 && self.conc_growth == 0
    }

    /// Whether the curve is worth storing: it is not zero, or a curve of the
    /// pool is stored already.
    pub fn is_worth_storing(&self, stored_before: bool) -> (r: bool)
        ensures
            r == (!self.spec_is_zero() || stored_before),
    {
        !self.is_zero() || stored_before
    }
}

/// Whether a price or a liquidity is worth storing: it is not zero, or one
/// is stored for the pool already.
pub fn amount_is_worth_storing(amount: u128, stored_before: bool) -> (r: bool)
    ensures
        r == (amount != 0 || stored_before),
{
    amount != 0 || stored_before
}

} // verus!
