//! Identifiers, records, events and errors of the launchpad.
use vstd::prelude::*;

verus! {

/// A 32-byte account or contract hash, held as two 128-bit halves
/// (`lo` holds bytes 0..16, little-endian).
#[derive(Clone, Copy, Debug, PartialEq, Eq, Structural, Hash)]
pub struct Address {
    pub hi: u128,
    pub lo: u128,
}

impl Address {
    /// The all-zero hash, used as the default burn address.
    pub fn zero() -> (r: Address)
        ensures
            r == (Address { hi: 0, lo: 0 }),
    {
        Address { hi: 0, lo: 0 }
    }
}

/// A launchpad token and its bonding curve.
#[derive(Clone, Debug)]
pub struct TokenLaunch {
    pub mint: Address,
    pub creator: Address,
    pub name: String,
    pub symbol: String,
    pub uri: String,
    pub total_supply: u128,
    pub virtual_cspr_reserves: u128,
    pub virtual_token_reserves: u128,
    pub real_cspr_reserves: u128,
    pub creator_fees_unclaimed: u128,
    pub stories_fees_unclaimed: u128,
    pub created_at: u64,
    pub graduated: bool,
    pub last_activity: u64,
    pub website: Option<String>,
    pub telegram: Option<String>,
    pub twitter: Option<String>,
    pub banner_uri: Option<String>,
    pub holders_count: u32,
    pub is_cto: bool,
}

/// Community-takeover ownership of a token that existed before the launchpad.
#[derive(Clone, Copy, Debug, PartialEq, Eq, Structural)]
pub struct CTOOwnership {
    pub token_contract: Address,
    pub cto_owner: Address,
    pub claimed_at: u64,
    pub fees_unclaimed: u128,
    pub last_activity: u64,
}

/// A swap pool for a token that existed before the launchpad.
#[derive(Clone, Copy, Debug, PartialEq, Eq, Structural)]
pub struct LiquidityPool {
    pub token_contract: Address,
    pub cspr_reserves: u128,
    pub token_reserves: u128,
    pub total_volume_cspr: u128,
    pub cto_owner: Option<Address>,
    pub created_at: u64,
}

/// Why an operation was rejected. A rejected operation changes nothing.
#[derive(Clone, Copy, Debug, PartialEq, Eq, Structural)]
pub enum Error {
    TokenAlreadyExists,
    TokenNotFound,
    InitialBuyTooLow,
    SlippageExceeded,
    InsufficientTokens,
    Unauthorized,
    AlreadyGraduated,
    NotEnoughToGraduate,
    InsufficientClaimAmount,
    NoFeesToClaim,
    TransferFailed,
    CTONotEligible,
    CTOPriceTooLow,
    InsufficientHolders,
    NotInitialized,
    PoolNotFound,
    CTOAlreadyClaimed,
    InsufficientLiquidity,
    /// An amount or counter would leave the range of its integer type.
    ArithmeticOverflow,
}

/// A payment in CSPR that the host must make once the operation commits.
#[derive(Clone, Copy, Debug, PartialEq, Eq, Structural)]
pub struct Transfer {
    pub to: Address,
    pub amount: u128,
}

#[derive(Clone, Debug)]
pub struct TokenCreated {
    pub mint: Address,
    pub creator: Address,
    pub name: String,
    pub symbol: String,
    pub initial_buy_cspr: u128,
}

#[derive(Clone, Copy, Debug, PartialEq, Eq, Structural)]
pub struct TokenBought {
    pub mint: Address,
    pub buyer: Address,
    pub cspr_amount: u128,
    pub tokens_out: u128,
    pub new_price: u128,
}

#[derive(Clone, Copy, Debug, PartialEq, Eq, Structural)]
pub struct TokenSold {
    pub mint: Address,
    pub seller: Address,
    pub tokens_in: u128,
    pub cspr_out: u128,
    pub new_price: u128,
}

#[derive(Clone, Copy, Debug, PartialEq, Eq, Structural)]
pub struct TokenGraduated {
    pub mint: Address,
    pub final_mcap_cspr: u128,
    pub dex_address: Option<Address>,
}

#[derive(Clone, Copy, Debug, PartialEq, Eq, Structural)]
pub struct CreatorFeesClaimed {
    pub mint: Address,
    pub creator: Address,
    pub amount: u128,
}

#[derive(Clone, Debug)]
pub struct TokenInfoUpdated {
    pub mint: Address,
    pub updater: Address,
    pub website: Option<String>,
    pub telegram: Option<String>,
    pub twitter: Option<String>,
}

#[derive(Clone, Copy, Debug, PartialEq, Eq, Structural)]
pub struct CTOExecuted {
    pub mint: Address,
    pub old_creator: Address,
    pub new_creator: Address,
    pub price_paid: u128,
}

/// An event for indexers, in the order the operation produced it.
#[derive(Clone, Debug)]
pub enum Event {
    Created(TokenCreated),
    Bought(TokenBought),
    Sold(TokenSold),
    Graduated(TokenGraduated),
    FeesClaimed(CreatorFeesClaimed),
    InfoUpdated(TokenInfoUpdated),
    CtoExecuted(CTOExecuted),
}

/// What a committed operation asks the host to do: pay these transfers, in
/// order, and publish these events.
#[derive(Clone, Debug)]
pub struct Receipt {
    pub transfers: Vec<Transfer>,
    pub events: Vec<Event>,
}

} // verus!
