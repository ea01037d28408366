//! The trade fee and its split into five fixed shares.
use crate::math::mul_div_floor;
use vstd::arithmetic::div_mod::lemma_fundamental_div_mod;
use vstd::prelude::*;

verus! {

/// Percent of a trade fee accrued for the token's creator.
pub const CREATOR_PERCENT: u128 = 20;

/// Percent of a trade fee accrued for the stories pool.
pub const STORIES_PERCENT: u128 = 10;

/// Percent of a trade fee sent to the burn address.
pub const BURN_CSPR_PERCENT: u128 = 10;

/// Percent of a trade fee set aside to burn the secondary token.
pub const BURN_SECONDARY_PERCENT: u128 = 10;

/// One percent of the gross traded amount, floored.
pub open spec fn spec_trade_fee(amount: int) -> int {
    amount / 100
}

/// `percent` percent of `fee`, floored.
pub open spec fn share_of(fee: int, percent: int) -> int {
    (fee * percent) / 100
}

/// What is left of `fee` for the platform once the four percentage shares
/// are taken.
pub open spec fn platform_share(fee: int) -> int {
    fee - share_of(fee, CREATOR_PERCENT as int) - share_of(fee, STORIES_PERCENT as int) - share_of(
        fee,
        BURN_CSPR_PERCENT as int,
    ) - share_of(fee, BURN_SECONDARY_PERCENT as int)
}

/// The five shares of one trade fee.
#[derive(Clone, Copy, Debug, PartialEq, Eq)]
pub struct FeeSplit {
    pub creator: u128,
    pub stories: u128,
    pub burn_cspr: u128,
    pub burn_secondary: u128,
    pub platform: u128,
}

impl FeeSplit {
    /// The split of `fee` that [`split_fee`] computes.
    pub open spec fn is_split_of(self, fee: int) -> bool {
        &&& self.creator == share_of(fee, CREATOR_PERCENT as int)
        &&& self.stories == share_of(fee, STORIES_PERCENT as int)
        &&& self.burn_cspr == share_of(fee, BURN_CSPR_PERCENT as int)
        &&& self.burn_secondary == share_of(fee, BURN_SECONDARY_PERCENT as int)
        &&& self.platform == platform_share(fee)
    }

    pub open spec fn total(self) -> int {
        self.creator + self.stories + self.burn_cspr + self.burn_secondary + self.platform
    }
}

/// The fee charged on a trade of `amount`: `amount / 100`. A trade under
/// 100 base units pays nothing.
pub fn trade_fee(amount: u128) -> (fee: u128)
    ensures
        fee == spec_trade_fee(amount as int),
{
    amount / 100
}

proof fn lemma_share_bound(fee: int, percent: int)
    requires
        0 <= fee,
        0 <= percent,
    ensures
        0 <= share_of(fee, percent),
        100 * share_of(fee, percent) <= fee * percent,
{
    assert(fee * percent >= 0) by (nonlinear_arith)
        requires
            0 <= fee,
            0 <= percent,
    ;
    lemma_fundamental_div_mod(fee * percent, 100);
}

/// The platform's share is never negative, and the five shares add up to
/// the fee exactly, for every fee.
pub proof fn lemma_fee_conservation(fee: nat)
    ensures
        platform_share(fee as int) >= 0,
        share_of(fee as int, CREATOR_PERCENT as int) + share_of(fee as int, STORIES_PERCENT as int)
            + share_of(fee as int, BURN_CSPR_PERCENT as int) + share_of(
            fee as int,
            BURN_SECONDARY_PERCENT as int,
        ) + platform_share(fee as int) == fee,
{
    lemma_share_bound(fee as int, 20);
    lemma_share_bound(fee as int, 10);
}

/// Splits `fee` into creator 20%, stories 10%, CSPR burn 10%, secondary
/// burn 10%, and the remainder for the platform.
pub fn split_fee(fee: u128) -> (s: FeeSplit)
    ensures
        s.is_split_of(fee as int),
        s.total() == fee,
{
    proof {
        lemma_fee_conservation(fee as nat);
    }
    let creator = mul_div_floor(CREATOR_PERCENT, fee, 100);
    let stories = mul_div_floor(STORIES_PERCENT, fee, 100);
    let burn_cspr = mul_div_floor(BURN_CSPR_PERCENT, fee, 100);
    let burn_secondary = mul_div_floor(BURN_SECONDARY_PERCENT, fee, 100);
    assert(CREATOR_PERCENT * fee == fee * CREATOR_PERCENT) by (nonlinear_arith);
    assert(STORIES_PERCENT * fee == fee * STORIES_PERCENT) by (nonlinear_arith);
    let platform = fee - creator - stories - burn_cspr - burn_secondary;
    FeeSplit { creator, stories, burn_cspr, burn_secondary, platform }
}

} // verus!
