//! The mathematical model of the factory's state and of what each operation
//! does to it.
use crate::curve::{buy_output, cspr_reserve_after_sell, sell_output, token_reserve_after_buy};
use crate::fees::{
    platform_share, share_of, spec_trade_fee, BURN_CSPR_PERCENT, BURN_SECONDARY_PERCENT,
    CREATOR_PERCENT, STORIES_PERCENT,
};
use crate::types::{
    Address, CTOExecuted, CTOOwnership, CreatorFeesClaimed, Error, Event, LiquidityPool, TokenBought,
    TokenGraduated, TokenInfoUpdated, TokenLaunch, TokenSold, Transfer,
};
use vstd::prelude::*;

verus! {

/// CSPR-side virtual reserve of a new launch (30 CSPR).
pub const INITIAL_VIRTUAL_CSPR: u128 = 30_000_000_000;

/// Token-side virtual reserve of a new launch (1.073 billion tokens).
pub const INITIAL_VIRTUAL_TOKENS: u128 = 1_073_000_000_000_000_000;

/// Informational total supply of a launch (1 billion tokens, 9 decimals).
pub const TOTAL_SUPPLY: u128 = 1_000_000_000_000_000_000;

/// Smallest amount the platform may pay out of a stories pool at once.
pub const MIN_STORIES_CLAIM: u128 = 10_000_000_000;

/// Settings fixed when the factory is set up.
#[derive(Clone, Copy, Debug, PartialEq, Eq, Structural)]
pub struct FactoryConfig {
    pub platform_wallet: Address,
    pub stories_pool: Address,
    pub burn_cspr_address: Address,
    pub screener_token: Address,
    pub min_initial_buy: u128,
    pub graduation_target: u128,
    pub cto_price: u128,
    pub cto_inactivity_period: u64,
    pub min_holders_for_cto: u32,
}

/// The whole state of a factory.
pub struct FactoryState {
    pub config: FactoryConfig,
    pub token_counter: u64,
    pub launches: Seq<TokenLaunch>,
    pub pools: Seq<LiquidityPool>,
    pub ctos: Seq<CTOOwnership>,
}

// ---------------------------------------------------------------- lookups

pub open spec fn has_launch(s: Seq<TokenLaunch>, m: Address) -> bool {
    exists|i: int| 0 <= i < s.len() && (#[trigger] s[i]).mint == m
}

pub open spec fn launch_index(s: Seq<TokenLaunch>, m: Address) -> int {
    choose|i: int| 0 <= i < s.len() && (#[trigger] s[i]).mint == m
}

pub open spec fn mints_unique(s: Seq<TokenLaunch>) -> bool {
    forall|i: int, j: int|
        0 <= i < s.len() && 0 <= j < s.len() && (#[trigger] s[i]).mint == (#[trigger] s[j]).mint
            ==> i == j
}

pub open spec fn has_pool(s: Seq<LiquidityPool>, t: Address) -> bool {
    exists|i: int| 0 <= i < s.len() && (#[trigger] s[i]).token_contract == t
}

pub open spec fn pool_index(s: Seq<LiquidityPool>, t: Address) -> int {
    choose|i: int| 0 <= i < s.len() && (#[trigger] s[i]).token_contract == t
}

pub open spec fn pools_unique(s: Seq<LiquidityPool>) -> bool {
    forall|i: int, j: int|
        0 <= i < s.len() && 0 <= j < s.len() && (#[trigger] s[i]).token_contract == (
        #[trigger] s[j]).token_contract ==> i == j
}

pub open spec fn has_cto(s: Seq<CTOOwnership>, t: Address) -> bool {
    exists|i: int| 0 <= i < s.len() && (#[trigger] s[i]).token_contract == t
}

pub open spec fn cto_index(s: Seq<CTOOwnership>, t: Address) -> int {
    choose|i: int| 0 <= i < s.len() && (#[trigger] s[i]).token_contract == t
}

pub open spec fn ctos_unique(s: Seq<CTOOwnership>) -> bool {
    forall|i: int, j: int|
        0 <= i < s.len() && 0 <= j < s.len() && (#[trigger] s[i]).token_contract == (
        #[trigger] s[j]).token_contract ==> i == j
}

/// A launch's curve: the CSPR side is the initial virtual reserve plus the
/// real reserve, so it stays positive, and the token side is positive.
pub open spec fn launch_curve_ok(l: TokenLaunch) -> bool {
    &&& l.virtual_cspr_reserves == INITIAL_VIRTUAL_CSPR + l.real_cspr_reserves
    &&& l.virtual_token_reserves > 0
}

impl FactoryState {
    pub open spec fn wf(self) -> bool {
        &&& mints_unique(self.launches)
        &&& pools_unique(self.pools)
        &&& ctos_unique(self.ctos)
        &&& forall|i: int| 0 <= i < self.launches.len() ==> launch_curve_ok(#[trigger] self.launches[i])
    }

    pub open spec fn launch(self, m: Address) -> TokenLaunch {
        self.launches[launch_index(self.launches, m)]
    }

    pub open spec fn pool(self, t: Address) -> LiquidityPool {
        self.pools[pool_index(self.pools, t)]
    }

    pub open spec fn cto(self, t: Address) -> CTOOwnership {
        self.ctos[cto_index(self.ctos, t)]
    }

    /// This state with the launch `m` replaced by `l`.
    pub open spec fn with_launch(self, m: Address, l: TokenLaunch) -> FactoryState {
        FactoryState { launches: self.launches.update(launch_index(self.launches, m), l), ..self }
    }

    /// This state with the pool `t` replaced by `p`.
    pub open spec fn with_pool(self, t: Address, p: LiquidityPool) -> FactoryState {
        FactoryState { pools: self.pools.update(pool_index(self.pools, t), p), ..self }
    }

    /// This state with the takeover record `t` replaced by `c`.
    pub open spec fn with_cto(self, t: Address, c: CTOOwnership) -> FactoryState {
        FactoryState { ctos: self.ctos.update(cto_index(self.ctos, t), c), ..self }
    }
}

// ------------------------------------------------------------ trade maths

/// The net input of a buy: the gross amount less the trade fee.
pub open spec fn net_of_fee(gross: int) -> int {
    gross - spec_trade_fee(gross)
}

/// The payments that carry the instantly routed shares of a launchpad fee:
/// platform share, CSPR burn, secondary-token burn (held by the platform).
pub open spec fn launch_fee_transfers(c: FactoryConfig, fee: int) -> Seq<Transfer> {
    seq![
        Transfer { to: c.platform_wallet, amount: platform_share(fee) as u128 },
        Transfer { to: c.burn_cspr_address, amount: share_of(fee, BURN_CSPR_PERCENT as int) as u128 },
        Transfer { to: c.platform_wallet, amount: share_of(fee, BURN_SECONDARY_PERCENT as int) as u128 },
    ]
}

/// Whether every amount a buy of `gross` on `l` writes fits in 128 bits.
pub open spec fn buy_fits(l: TokenLaunch, gross: int) -> bool {
    let fee = spec_trade_fee(gross);
    &&& l.virtual_cspr_reserves + net_of_fee(gross) <= u128::MAX
    &&& l.creator_fees_unclaimed + share_of(fee, CREATOR_PERCENT as int) <= u128::MAX
    &&& l.stories_fees_unclaimed + share_of(fee, STORIES_PERCENT as int) <= u128::MAX
}

/// Tokens a buy of `gross` on `l` hands out.
pub open spec fn launch_buy_output(l: TokenLaunch, gross: int) -> int {
    buy_output(l.virtual_cspr_reserves as int, l.virtual_token_reserves as int, net_of_fee(gross))
}

/// The launch after a buy of `gross`, graduation check included.
pub open spec fn launch_after_buy(l: TokenLaunch, gross: int, target: u128) -> TokenLaunch {
    let fee = spec_trade_fee(gross);
    let net = net_of_fee(gross);
    let real_after = l.real_cspr_reserves + net;
    TokenLaunch {
        virtual_cspr_reserves: (l.virtual_cspr_reserves + net) as u128,
        virtual_token_reserves: token_reserve_after_buy(
            l.virtual_cspr_reserves as int,
            l.virtual_token_reserves as int,
            net,
        ) as u128,
        real_cspr_reserves: real_after as u128,
        creator_fees_unclaimed: (l.creator_fees_unclaimed + share_of(fee, CREATOR_PERCENT as int)) as u128,
        stories_fees_unclaimed: (l.stories_fees_unclaimed + share_of(fee, STORIES_PERCENT as int)) as u128,
        graduated: l.graduated || real_after >= target,
        ..l
    }
}

/// Why a buy of `gross` on `l` fails, if it does, once the launch is found
/// and not graduated. The token side of the curve may not run dry.
pub open spec fn launch_buy_error(l: TokenLaunch, gross: int, min_tokens_out: int) -> Option<Error> {
    if !buy_fits(l, gross) {
        Some(Error::ArithmeticOverflow)
    } else if token_reserve_after_buy(
        l.virtual_cspr_reserves as int,
        l.virtual_token_reserves as int,
        net_of_fee(gross),
    ) == 0 {
        Some(Error::InsufficientLiquidity)
    } else if launch_buy_output(l, gross) < min_tokens_out {
        Some(Error::SlippageExceeded)
    } else {
        None
    }
}

/// The events of a buy of `gross` by `buyer` on the launch `l`.
pub open spec fn launch_buy_events(l: TokenLaunch, buyer: Address, gross: int, target: u128) -> Seq<
    Event,
> {
    let after = launch_after_buy(l, gross, target);
    let bought = Event::Bought(
        TokenBought {
            mint: l.mint,
            buyer,
            cspr_amount: gross as u128,
            tokens_out: launch_buy_output(l, gross) as u128,
            new_price: (after.virtual_cspr_reserves / after.virtual_token_reserves) as u128,
        },
    );
    if after.graduated && !l.graduated {
        seq![
            bought,
            Event::Graduated(
                TokenGraduated {
                    mint: l.mint,
                    final_mcap_cspr: after.real_cspr_reserves,
                    dex_address: None,
                },
            ),
        ]
    } else {
        seq![bought]
    }
}

/// Why `buy` fails, if it does.
pub open spec fn buy_error(s: FactoryState, mint: Address, min_tokens_out: u128, attached: u128) -> Option<Error> {
    if attached == 0 {
        Some(Error::InitialBuyTooLow)
    } else if !has_launch(s.launches, mint) {
        Some(Error::TokenNotFound)
    } else if s.launch(mint).graduated {
        Some(Error::AlreadyGraduated)
    } else {
        launch_buy_error(s.launch(mint), attached as int, min_tokens_out as int)
    }
}

/// The address of the launch made as number `counter` at time `now`: the
/// counter in bytes 0..8 and the time in bytes 8..16, little-endian.
pub open spec fn mint_address(counter: u64, now: u64) -> Address {
    Address { hi: 0, lo: (counter + now * 0x1_0000_0000_0000_0000) as u128 }
}

/// A launch as `create_token` makes it, before any initial buy.
pub open spec fn fresh_launch(
    mint: Address,
    creator: Address,
    name: String,
    symbol: String,
    uri: String,
    now: u64,
) -> TokenLaunch {
    TokenLaunch {
        mint,
        creator,
        name,
        symbol,
        uri,
        total_supply: TOTAL_SUPPLY,
        virtual_cspr_reserves: INITIAL_VIRTUAL_CSPR,
        virtual_token_reserves: INITIAL_VIRTUAL_TOKENS,
        real_cspr_reserves: 0,
        creator_fees_unclaimed: 0,
        stories_fees_unclaimed: 0,
        created_at: now,
        graduated: false,
        last_activity: now,
        website: None,
        telegram: None,
        twitter: None,
        banner_uri: None,
        holders_count: 0,
        is_cto: false,
    }
}

/// Why `create_token` fails, if it does. `fresh` is the launch it would make.
pub open spec fn create_error(s: FactoryState, initial_buy: u128, attached: u128, fresh: TokenLaunch) -> Option<Error> {
    if initial_buy > 0 && (attached < initial_buy || initial_buy < s.config.min_initial_buy) {
        Some(Error::InitialBuyTooLow)
    } else if s.token_counter == u64::MAX {
        Some(Error::ArithmeticOverflow)
    } else if has_launch(s.launches, fresh.mint) {
        Some(Error::TokenAlreadyExists)
    } else if initial_buy > 0 {
        launch_buy_error(fresh, initial_buy as int, 0)
    } else {
        None
    }
}

/// Gross CSPR a sell of `tokens_in` on `l` pays out, before the fee.
pub open spec fn launch_sell_gross(l: TokenLaunch, tokens_in: int) -> int {
    sell_output(l.virtual_cspr_reserves as int, l.virtual_token_reserves as int, tokens_in)
}

/// CSPR a sell of `tokens_in` on `l` hands the seller.
pub open spec fn launch_sell_net(l: TokenLaunch, tokens_in: int) -> int {
    let gross = launch_sell_gross(l, tokens_in);
    gross - spec_trade_fee(gross)
}

/// Whether every amount a sell of `tokens_in` on `l` writes fits in 128 bits.
pub open spec fn sell_fits(l: TokenLaunch, tokens_in: int) -> bool {
    let fee = spec_trade_fee(launch_sell_gross(l, tokens_in));
    &&& l.virtual_token_reserves + tokens_in <= u128::MAX
    &&& l.creator_fees_unclaimed + share_of(fee, CREATOR_PERCENT as int) <= u128::MAX
    &&& l.stories_fees_unclaimed + share_of(fee, STORIES_PERCENT as int) <= u128::MAX
}

/// The launch after a sell of `tokens_in`.
pub open spec fn launch_after_sell(l: TokenLaunch, tokens_in: int) -> TokenLaunch {
    let gross = launch_sell_gross(l, tokens_in);
    let fee = spec_trade_fee(gross);
    TokenLaunch {
        virtual_cspr_reserves: cspr_reserve_after_sell(
            l.virtual_cspr_reserves as int,
            l.virtual_token_reserves as int,
            tokens_in,
        ) as u128,
        virtual_token_reserves: (l.virtual_token_reserves + tokens_in) as u128,
        real_cspr_reserves: (l.real_cspr_reserves - gross) as u128,
        creator_fees_unclaimed: (l.creator_fees_unclaimed + share_of(fee, CREATOR_PERCENT as int)) as u128,
        stories_fees_unclaimed: (l.stories_fees_unclaimed + share_of(fee, STORIES_PERCENT as int)) as u128,
        ..l
    }
}

/// Why `sell` fails, if it does. The real reserve may not go below zero.
pub open spec fn sell_error(s: FactoryState, mint: Address, tokens_in: u128, min_cspr_out: u128) -> Option<Error> {
    let l = s.launch(mint);
    if tokens_in == 0 {
        Some(Error::InsufficientTokens)
    } else if !has_launch(s.launches, mint) {
        Some(Error::TokenNotFound)
    } else if l.graduated {
        Some(Error::AlreadyGraduated)
    } else if !sell_fits(l, tokens_in as int) {
        Some(Error::ArithmeticOverflow)
    } else if launch_sell_net(l, tokens_in as int) < min_cspr_out {
        Some(Error::SlippageExceeded)
    } else if launch_sell_gross(l, tokens_in as int) > l.real_cspr_reserves {
        Some(Error::InsufficientLiquidity)
    } else {
        None
    }
}

/// The payments of a sell of `tokens_in` on `l`: the seller's net proceeds
/// first, then the instantly routed fee shares.
pub open spec fn launch_sell_transfers(c: FactoryConfig, l: TokenLaunch, seller: Address, tokens_in: int) -> Seq<
    Transfer,
> {
    seq![Transfer { to: seller, amount: launch_sell_net(l, tokens_in) as u128 }] + launch_fee_transfers(
        c,
        spec_trade_fee(launch_sell_gross(l, tokens_in)),
    )
}

/// The event of a sell of `tokens_in` by `seller` on `l`.
pub open spec fn launch_sell_event(l: TokenLaunch, seller: Address, tokens_in: int) -> Event {
    let after = launch_after_sell(l, tokens_in);
    Event::Sold(
        TokenSold {
            mint: l.mint,
            seller,
            tokens_in: tokens_in as u128,
            cspr_out: launch_sell_net(l, tokens_in) as u128,
            new_price: (after.virtual_cspr_reserves / after.virtual_token_reserves) as u128,
        },
    )
}

/// Replacing a launch by one with the same mint and a sound curve keeps the
/// state well formed.
pub proof fn lemma_replace_launch(s: FactoryState, i: int, l: TokenLaunch)
    requires
        s.wf(),
        0 <= i < s.launches.len(),
        l.mint == s.launches[i].mint,
        launch_curve_ok(l),
    ensures
        (FactoryState { launches: s.launches.update(i, l), ..s }).wf(),
{
    let t = s.launches.update(i, l);
    assert forall|a: int, b: int|
        0 <= a < t.len() && 0 <= b < t.len() && (#[trigger] t[a]).mint == (#[trigger] t[b]).mint implies a
        == b by {
        assert(t[a].mint == s.launches[a].mint);
        assert(t[b].mint == s.launches[b].mint);
    }
    assert forall|a: int| 0 <= a < t.len() implies launch_curve_ok(#[trigger] t[a]) by {
        if a != i {
            assert(t[a] == s.launches[a]);
        }
    }
}

/// Every launch that has graduated in `s1` is still there, and still
/// graduated, in `s2`.
pub open spec fn graduation_kept(s1: FactoryState, s2: FactoryState) -> bool {
    forall|m: Address|
        has_launch(s1.launches, m) && (#[trigger] s1.launch(m)).graduated ==> has_launch(
            s2.launches,
            m,
        ) && s2.launch(m).graduated
}

/// Replacing the launch `m` by a record with the same mint moves no other
/// launch and leaves `m` where it was.
pub proof fn lemma_with_launch_lookup(s: FactoryState, m: Address, l: TokenLaunch, m2: Address)
    requires
        s.wf(),
        has_launch(s.launches, m),
        l.mint == m,
    ensures
        has_launch(s.with_launch(m, l).launches, m2) == has_launch(s.launches, m2),
        has_launch(s.launches, m2) ==> launch_index(s.with_launch(m, l).launches, m2)
            == launch_index(s.launches, m2),
        s.with_launch(m, l).launch(m) == l,
        has_launch(s.launches, m2) && m2 != m ==> s.with_launch(m, l).launch(m2) == s.launch(m2),
{
    let i = launch_index(s.launches, m);
    let t = s.with_launch(m, l).launches;
    assert(s.launches[i].mint == m);
    assert forall|j: int| 0 <= j < t.len() implies (#[trigger] t[j]).mint == s.launches[j].mint by {}
    if has_launch(s.launches, m2) {
        let k = launch_index(s.launches, m2);
        assert(t[k].mint == m2);
        let k2 = launch_index(t, m2);
        assert(s.launches[k2].mint == t[k2].mint);
    }
    if has_launch(t, m2) {
        let k2 = launch_index(t, m2);
        assert(s.launches[k2].mint == m2);
    }
    assert(t[i].mint == m);
    let k3 = launch_index(t, m);
    assert(s.launches[k3].mint == t[k3].mint);
}

/// Replacing a launch by a record with the same mint that is graduated
/// whenever the old one was keeps every graduation.
pub proof fn lemma_with_launch_keeps_graduation(s: FactoryState, m: Address, l: TokenLaunch)
    requires
        s.wf(),
        has_launch(s.launches, m),
        l.mint == m,
        s.launch(m).graduated ==> l.graduated,
    ensures
        graduation_kept(s, s.with_launch(m, l)),
{
    assert forall|m2: Address| has_launch(s.launches, m2) && (#[trigger] s.launch(m2)).graduated implies has_launch(
        s.with_launch(m, l).launches,
        m2,
    ) && s.with_launch(m, l).launch(m2).graduated by {
        lemma_with_launch_lookup(s, m, l, m2);
    }
}

/// Why `claim_creator_fees` fails, if it does.
pub open spec fn creator_claim_error(s: FactoryState, mint: Address, caller: Address) -> Option<Error> {
    if !has_launch(s.launches, mint) {
        Some(Error::TokenNotFound)
    } else if s.launch(mint).creator != caller {
        Some(Error::Unauthorized)
    } else if s.launch(mint).creator_fees_unclaimed == 0 {
        Some(Error::NoFeesToClaim)
    } else {
        None
    }
}

/// The state after the creator of `mint` claims all accrued fees.
pub open spec fn after_creator_claim(s: FactoryState, mint: Address) -> FactoryState {
    s.with_launch(mint, TokenLaunch { creator_fees_unclaimed: 0, ..s.launch(mint) })
}

/// Why `claim_stories_fees` fails, if it does.
pub open spec fn stories_claim_error(
    s: FactoryState,
    mint: Address,
    amount: u128,
    caller: Address,
) -> Option<Error> {
    if caller != s.config.platform_wallet {
        Some(Error::Unauthorized)
    } else if amount < MIN_STORIES_CLAIM {
        Some(Error::InsufficientClaimAmount)
    } else if !has_launch(s.launches, mint) {
        Some(Error::TokenNotFound)
    } else if s.launch(mint).stories_fees_unclaimed < amount {
        Some(Error::NoFeesToClaim)
    } else {
        None
    }
}

/// The state after `amount` is paid out of the stories fees of `mint`.
pub open spec fn after_stories_claim(s: FactoryState, mint: Address, amount: u128) -> FactoryState {
    s.with_launch(
        mint,
        TokenLaunch {
            stories_fees_unclaimed: (s.launch(mint).stories_fees_unclaimed - amount) as u128,
            ..s.launch(mint)
        },
    )
}

/// A claim of all creator fees takes exactly what had accrued, leaving
/// nothing, and a second claim before new fees accrue fails with
/// `NoFeesToClaim`.
pub proof fn lemma_creator_claim_zero_sum(s: FactoryState, mint: Address, caller: Address)
    requires
        s.wf(),
        creator_claim_error(s, mint, caller) is None,
    ensures
        after_creator_claim(s, mint).launch(mint).creator_fees_unclaimed
            == s.launch(mint).creator_fees_unclaimed - s.launch(mint).creator_fees_unclaimed,
        creator_claim_error(after_creator_claim(s, mint), mint, caller) == Some(Error::NoFeesToClaim),
{
    let l = TokenLaunch { creator_fees_unclaimed: 0, ..s.launch(mint) };
    assert(s.launches[launch_index(s.launches, mint)].mint == mint);
    lemma_with_launch_lookup(s, mint, l, mint);
}

/// A stories claim of `amount` lowers the stories fees by exactly `amount`;
/// claiming the same amount again before new fees accrue fails with
/// `NoFeesToClaim` whenever less than `amount` is left.
pub proof fn lemma_stories_claim_zero_sum(s: FactoryState, mint: Address, amount: u128, caller: Address)
    requires
        s.wf(),
        stories_claim_error(s, mint, amount, caller) is None,
    ensures
        after_stories_claim(s, mint, amount).launch(mint).stories_fees_unclaimed
            == s.launch(mint).stories_fees_unclaimed - amount,
        after_stories_claim(s, mint, amount).launch(mint).stories_fees_unclaimed < amount
            ==> stories_claim_error(after_stories_claim(s, mint, amount), mint, amount, caller)
            == Some(Error::NoFeesToClaim),
{
    let l = TokenLaunch {
        stories_fees_unclaimed: (s.launch(mint).stories_fees_unclaimed - amount) as u128,
        ..s.launch(mint)
    };
    assert(s.launches[launch_index(s.launches, mint)].mint == mint);
    lemma_with_launch_lookup(s, mint, l, mint);
}

/// The launch `l` with each metadata field that is given overwritten, and
/// its activity time set to `now`.
pub open spec fn launch_with_info(
    l: TokenLaunch,
    website: Option<String>,
    telegram: Option<String>,
    twitter: Option<String>,
    banner_uri: Option<String>,
    now: u64,
) -> TokenLaunch {
    TokenLaunch {
        website: if website is Some { website } else { l.website },
        telegram: if telegram is Some { telegram } else { l.telegram },
        twitter: if twitter is Some { twitter } else { l.twitter },
        banner_uri: if banner_uri is Some { banner_uri } else { l.banner_uri },
        last_activity: now,
        ..l
    }
}

/// Why `update_token_info` fails, if it does.
pub open spec fn info_update_error(s: FactoryState, mint: Address, caller: Address) -> Option<Error> {
    if !has_launch(s.launches, mint) {
        Some(Error::TokenNotFound)
    } else if s.launch(mint).creator != caller {
        Some(Error::Unauthorized)
    } else {
        None
    }
}

/// Why `execute_cto` fails, if it does.
pub open spec fn cto_error(s: FactoryState, mint: Address, attached: u128, now: u64) -> Option<Error> {
    let l = s.launch(mint);
    if attached < s.config.cto_price {
        Some(Error::CTOPriceTooLow)
    } else if !has_launch(s.launches, mint) {
        Some(Error::TokenNotFound)
    } else if now < l.last_activity + s.config.cto_inactivity_period {
        Some(Error::CTONotEligible)
    } else if l.holders_count < s.config.min_holders_for_cto {
        Some(Error::InsufficientHolders)
    } else {
        None
    }
}

/// The launch `l` after `caller` takes it over at time `now`.
pub open spec fn launch_after_cto(l: TokenLaunch, caller: Address, now: u64) -> TokenLaunch {
    TokenLaunch { creator: caller, last_activity: now, is_cto: true, ..l }
}

/// The event of a takeover of `mint` by `new_creator`.
pub open spec fn cto_event(mint: Address, old_creator: Address, new_creator: Address, price: u128) -> Event {
    Event::CtoExecuted(CTOExecuted { mint, old_creator, new_creator, price_paid: price })
}

/// The event of a claim of `amount` fees by `creator`.
pub open spec fn fees_claimed_event(mint: Address, creator: Address, amount: u128) -> Event {
    Event::FeesClaimed(CreatorFeesClaimed { mint, creator, amount })
}

/// The event of a metadata update.
pub open spec fn info_event(
    mint: Address,
    updater: Address,
    website: Option<String>,
    telegram: Option<String>,
    twitter: Option<String>,
) -> Event {
    Event::InfoUpdated(TokenInfoUpdated { mint, updater, website, telegram, twitter })
}

/// Adding a launch with a new mint and a sound curve keeps the state well
/// formed, moves no launch, and keeps every graduation.
pub proof fn lemma_push_launch(s: FactoryState, l: TokenLaunch)
    requires
        s.wf(),
        !has_launch(s.launches, l.mint),
        launch_curve_ok(l),
    ensures
        (FactoryState { launches: s.launches.push(l), ..s }).wf(),
        graduation_kept(s, FactoryState { launches: s.launches.push(l), ..s }),
{
    let s2 = FactoryState { launches: s.launches.push(l), ..s };
    let t = s2.launches;
    assert forall|i: int, j: int|
        0 <= i < t.len() && 0 <= j < t.len() && (#[trigger] t[i]).mint == (#[trigger] t[j]).mint implies i
        == j by {
        if i < s.launches.len() {
            assert(s.launches[i] == t[i]);
        }
        if j < s.launches.len() {
            assert(s.launches[j] == t[j]);
        }
    }
    assert forall|i: int| 0 <= i < t.len() implies launch_curve_ok(#[trigger] t[i]) by {
        if i < s.launches.len() {
            assert(s.launches[i] == t[i]);
        }
    }
    assert forall|m: Address| has_launch(s.launches, m) && (#[trigger] s.launch(m)).graduated implies has_launch(
        t,
        m,
    ) && s2.launch(m).graduated by {
        let k = launch_index(s.launches, m);
        assert(t[k] == s.launches[k]);
        let k2 = launch_index(t, m);
        assert(t[k2].mint == m);
        if k2 < s.launches.len() {
            assert(s.launches[k2] == t[k2]);
        }
    }
}

// ------------------------------------------------- pools and takeovers

/// Replacing a pool by one for the same token keeps the state well formed.
pub proof fn lemma_replace_pool(s: FactoryState, i: int, p: LiquidityPool)
    requires
        s.wf(),
        0 <= i < s.pools.len(),
        p.token_contract == s.pools[i].token_contract,
    ensures
        (FactoryState { pools: s.pools.update(i, p), ..s }).wf(),
{
    let t = s.pools.update(i, p);
    assert forall|a: int, b: int|
        0 <= a < t.len() && 0 <= b < t.len() && (#[trigger] t[a]).token_contract == (
        #[trigger] t[b]).token_contract implies a == b by {
        assert(t[a].token_contract == s.pools[a].token_contract);
        assert(t[b].token_contract == s.pools[b].token_contract);
    }
}

/// Replacing a takeover record by one for the same token keeps the state
/// well formed.
pub proof fn lemma_replace_cto(s: FactoryState, i: int, c: CTOOwnership)
    requires
        s.wf(),
        0 <= i < s.ctos.len(),
        c.token_contract == s.ctos[i].token_contract,
    ensures
        (FactoryState { ctos: s.ctos.update(i, c), ..s }).wf(),
{
    let t = s.ctos.update(i, c);
    assert forall|a: int, b: int|
        0 <= a < t.len() && 0 <= b < t.len() && (#[trigger] t[a]).token_contract == (
        #[trigger] t[b]).token_contract implies a == b by {
        assert(t[a].token_contract == s.ctos[a].token_contract);
        assert(t[b].token_contract == s.ctos[b].token_contract);
    }
}

/// Adding a pool for a new token keeps the state well formed.
pub proof fn lemma_push_pool(s: FactoryState, p: LiquidityPool)
    requires
        s.wf(),
        !has_pool(s.pools, p.token_contract),
    ensures
        (FactoryState { pools: s.pools.push(p), ..s }).wf(),
{
    let t = s.pools.push(p);
    assert forall|i: int, j: int|
        0 <= i < t.len() && 0 <= j < t.len() && (#[trigger] t[i]).token_contract == (
        #[trigger] t[j]).token_contract implies i == j by {
        if i < s.pools.len() {
            assert(s.pools[i] == t[i]);
        }
        if j < s.pools.len() {
            assert(s.pools[j] == t[j]);
        }
    }
}

/// Adding a takeover record for a new token keeps the state well formed.
pub proof fn lemma_push_cto(s: FactoryState, c: CTOOwnership)
    requires
        s.wf(),
        !has_cto(s.ctos, c.token_contract),
    ensures
        (FactoryState { ctos: s.ctos.push(c), ..s }).wf(),
{
    let t = s.ctos.push(c);
    assert forall|i: int, j: int|
        0 <= i < t.len() && 0 <= j < t.len() && (#[trigger] t[i]).token_contract == (
        #[trigger] t[j]).token_contract implies i == j by {
        if i < s.ctos.len() {
            assert(s.ctos[i] == t[i]);
        }
        if j < s.ctos.len() {
            assert(s.ctos[j] == t[j]);
        }
    }
}

/// Why `claim_cto_existing` fails, if it does.
pub open spec fn cto_claim_existing_error(s: FactoryState, token_contract: Address, attached: u128) -> Option<
    Error,
> {
    if attached < s.config.cto_price {
        Some(Error::CTOPriceTooLow)
    } else if has_cto(s.ctos, token_contract) {
        Some(Error::CTOAlreadyClaimed)
    } else {
        None
    }
}

/// Why `create_pool_existing` fails, if it does.
pub open spec fn pool_create_error(s: FactoryState, token_contract: Address, caller: Address, attached: u128) -> Option<
    Error,
> {
    if caller != s.config.platform_wallet {
        Some(Error::Unauthorized)
    } else if has_pool(s.pools, token_contract) {
        Some(Error::TokenAlreadyExists)
    } else if attached == 0 {
        Some(Error::InitialBuyTooLow)
    } else {
        None
    }
}

/// The owner recorded in a new pool: the takeover owner at creation time.
pub open spec fn cto_owner_of(s: FactoryState, token_contract: Address) -> Option<Address> {
    if has_cto(s.ctos, token_contract) {
        Some(s.cto(token_contract).cto_owner)
    } else {
        None
    }
}

/// The payments that route a pool swap's fee: the launchpad's three instant
/// shares, then the creator share to the platform when the token has no
/// takeover owner, then the stories share to the stories pool.
pub open spec fn pool_fee_transfers(c: FactoryConfig, fee: int, owned: bool) -> Seq<Transfer> {
    launch_fee_transfers(c, fee) + (if owned {
        Seq::<Transfer>::empty()
    } else {
        seq![Transfer { to: c.platform_wallet, amount: share_of(fee, CREATOR_PERCENT as int) as u128 }]
    }) + seq![Transfer { to: c.stories_pool, amount: share_of(fee, STORIES_PERCENT as int) as u128 }]
}

/// Whether the takeover owner's accrual can take `share` more.
pub open spec fn cto_accrual_fits(s: FactoryState, token_contract: Address, share: int) -> bool {
    has_cto(s.ctos, token_contract) ==> s.cto(token_contract).fees_unclaimed + share <= u128::MAX
}

/// `s` with the creator share of a pool fee accrued to the takeover owner,
/// if the token has one, who is then active at `now`.
pub open spec fn accrue_to_owner(s: FactoryState, token_contract: Address, share: int, now: u64) -> FactoryState {
    if has_cto(s.ctos, token_contract) {
        let c = s.cto(token_contract);
        s.with_cto(
            token_contract,
            CTOOwnership { fees_unclaimed: (c.fees_unclaimed + share) as u128, last_activity: now, ..c },
        )
    } else {
        s
    }
}

/// Tokens a pool swap of `gross` CSPR hands out.
pub open spec fn pool_buy_output(p: LiquidityPool, gross: int) -> int {
    buy_output(p.cspr_reserves as int, p.token_reserves as int, net_of_fee(gross))
}

/// Why `swap_cspr_for_existing` fails, if it does. The pool's token side
/// may not run dry.
pub open spec fn pool_buy_error(s: FactoryState, token_contract: Address, min_tokens_out: u128, attached: u128) -> Option<
    Error,
> {
    let p = s.pool(token_contract);
    let fee = spec_trade_fee(attached as int);
    let net = net_of_fee(attached as int);
    if attached == 0 {
        Some(Error::InitialBuyTooLow)
    } else if !has_pool(s.pools, token_contract) {
        Some(Error::PoolNotFound)
    } else if p.cspr_reserves + net > u128::MAX || p.total_volume_cspr + attached > u128::MAX
        || !cto_accrual_fits(s, token_contract, share_of(fee, CREATOR_PERCENT as int)) {
        Some(Error::ArithmeticOverflow)
    } else if pool_buy_output(p, attached as int) < min_tokens_out {
        Some(Error::SlippageExceeded)
    } else if pool_buy_output(p, attached as int) > p.token_reserves || token_reserve_after_buy(
        p.cspr_reserves as int,
        p.token_reserves as int,
        net,
    ) == 0 {
        Some(Error::InsufficientLiquidity)
    } else {
        None
    }
}

/// The pool after a swap of `gross` CSPR into it.
pub open spec fn pool_after_buy(p: LiquidityPool, gross: int) -> LiquidityPool {
    let net = net_of_fee(gross);
    LiquidityPool {
        cspr_reserves: (p.cspr_reserves + net) as u128,
        token_reserves: token_reserve_after_buy(p.cspr_reserves as int, p.token_reserves as int, net) as u128,
        total_volume_cspr: (p.total_volume_cspr + gross) as u128,
        ..p
    }
}

/// Gross CSPR a pool swap of `tokens_in` pays out, before the fee.
pub open spec fn pool_sell_gross(p: LiquidityPool, tokens_in: int) -> int {
    sell_output(p.cspr_reserves as int, p.token_reserves as int, tokens_in)
}

/// CSPR a pool swap of `tokens_in` hands the seller.
pub open spec fn pool_sell_net(p: LiquidityPool, tokens_in: int) -> int {
    let gross = pool_sell_gross(p, tokens_in);
    gross - spec_trade_fee(gross)
}

/// Why `swap_existing_for_cspr` fails, if it does.
pub open spec fn pool_sell_error(s: FactoryState, token_contract: Address, tokens_in: u128, min_cspr_out: u128) -> Option<
    Error,
> {
    let p = s.pool(token_contract);
    let gross = pool_sell_gross(p, tokens_in as int);
    let fee = spec_trade_fee(gross);
    if tokens_in == 0 {
        Some(Error::InsufficientTokens)
    } else if !has_pool(s.pools, token_contract) {
        Some(Error::PoolNotFound)
    } else if p.token_reserves + tokens_in > u128::MAX {
        Some(Error::ArithmeticOverflow)
    } else if p.total_volume_cspr + gross > u128::MAX || !cto_accrual_fits(
        s,
        token_contract,
        share_of(fee, CREATOR_PERCENT as int),
    ) {
        Some(Error::ArithmeticOverflow)
    } else if pool_sell_net(p, tokens_in as int) < min_cspr_out {
        Some(Error::SlippageExceeded)
    } else if pool_sell_net(p, tokens_in as int) > p.cspr_reserves {
        Some(Error::InsufficientLiquidity)
    } else {
        None
    }
}

/// The pool after a swap of `tokens_in` tokens into it.
pub open spec fn pool_after_sell(p: LiquidityPool, tokens_in: int) -> LiquidityPool {
    LiquidityPool {
        cspr_reserves: cspr_reserve_after_sell(p.cspr_reserves as int, p.token_reserves as int, tokens_in) as u128,
        token_reserves: (p.token_reserves + tokens_in) as u128,
        total_volume_cspr: (p.total_volume_cspr + pool_sell_gross(p, tokens_in)) as u128,
        ..p
    }
}

/// Why `claim_cto_fees_existing` fails, if it does.
pub open spec fn cto_fees_claim_error(s: FactoryState, token_contract: Address, caller: Address) -> Option<Error> {
    if !has_cto(s.ctos, token_contract) {
        Some(Error::TokenNotFound)
    } else if s.cto(token_contract).cto_owner != caller {
        Some(Error::Unauthorized)
    } else if s.cto(token_contract).fees_unclaimed == 0 {
        Some(Error::NoFeesToClaim)
    } else {
        None
    }
}

/// The state after the takeover owner of `token_contract` claims all
/// accrued fees.
pub open spec fn after_cto_fees_claim(s: FactoryState, token_contract: Address) -> FactoryState {
    s.with_cto(token_contract, CTOOwnership { fees_unclaimed: 0, ..s.cto(token_contract) })
}

/// A claim of all takeover fees takes exactly what had accrued, leaving
/// nothing, and a second claim before new fees accrue fails with
/// `NoFeesToClaim`.
pub proof fn lemma_cto_fees_claim_zero_sum(s: FactoryState, token_contract: Address, caller: Address)
    requires
        s.wf(),
        cto_fees_claim_error(s, token_contract, caller) is None,
    ensures
        after_cto_fees_claim(s, token_contract).cto(token_contract).fees_unclaimed
            == s.cto(token_contract).fees_unclaimed - s.cto(token_contract).fees_unclaimed,
        cto_fees_claim_error(after_cto_fees_claim(s, token_contract), token_contract, caller)
            == Some(Error::NoFeesToClaim),
{
    let i = cto_index(s.ctos, token_contract);
    let t = after_cto_fees_claim(s, token_contract).ctos;
    assert(s.ctos[i].token_contract == token_contract);
    assert(t[i].token_contract == token_contract);
    let k = cto_index(t, token_contract);
    assert(t[k].token_contract == s.ctos[k].token_contract);
}

/// A graduated launch is closed to trading: every buy with CSPR attached and
/// every sell of a positive amount on it fails with `AlreadyGraduated`.
/// (That no operation ever clears the flag is `graduation_kept`, which every
/// operation ensures.)
pub proof fn lemma_graduated_launch_is_closed(
    s: FactoryState,
    mint: Address,
    attached: u128,
    min_tokens_out: u128,
    tokens_in: u128,
    min_cspr_out: u128,
)
    requires
        has_launch(s.launches, mint),
        s.launch(mint).graduated,
    ensures
        attached > 0 ==> buy_error(s, mint, min_tokens_out, attached) == Some(Error::AlreadyGraduated),
        tokens_in > 0 ==> sell_error(s, mint, tokens_in, min_cspr_out) == Some(Error::AlreadyGraduated),
{
}

} // verus!
