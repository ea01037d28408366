//! The factory: launches, pools and takeover records, and every operation on
//! them. Each operation takes the caller, the attached CSPR and the time from
//! the host, and on success hands back the payments to make and the events
//! to publish; a rejected operation leaves the state as it was.
use crate::curve::{new_cspr_reserve, new_token_reserve, quote_buy, quote_sell, spot_price};
use crate::fees::{split_fee, trade_fee};
use crate::model::{
    accrue_to_owner, after_creator_claim, after_cto_fees_claim, after_stories_claim, buy_error,
    create_error, creator_claim_error, cto_accrual_fits, cto_claim_existing_error, cto_error,
    cto_event, cto_fees_claim_error, cto_index, cto_owner_of, fees_claimed_event, fresh_launch,
    graduation_kept, has_cto, has_launch, has_pool, info_event, info_update_error,
    launch_after_buy, launch_after_cto, launch_after_sell, launch_buy_error, launch_buy_events,
    launch_buy_output, launch_curve_ok, launch_fee_transfers, launch_index, launch_sell_event,
    launch_sell_net, launch_sell_transfers, launch_with_info, lemma_push_cto, lemma_push_launch,
    lemma_push_pool, lemma_replace_cto, lemma_replace_launch, lemma_replace_pool,
    lemma_with_launch_keeps_graduation, mint_address, net_of_fee, pool_after_buy, pool_after_sell,
    pool_buy_error, pool_buy_output, pool_create_error, pool_fee_transfers, pool_index,
    pool_sell_error, pool_sell_gross, pool_sell_net, sell_error, stories_claim_error,
    FactoryConfig, FactoryState, INITIAL_VIRTUAL_CSPR, INITIAL_VIRTUAL_TOKENS, MIN_STORIES_CLAIM,
    TOTAL_SUPPLY,
};
use crate::types::{
    Address, CTOExecuted, CTOOwnership, CreatorFeesClaimed, Error, Event, LiquidityPool, Receipt,
    TokenBought, TokenCreated, TokenGraduated, TokenInfoUpdated, TokenLaunch, TokenSold, Transfer,
};
use vstd::prelude::*;

verus! {

/// Minimum initial buy: 0.01 CSPR.
pub const DEFAULT_MIN_INITIAL_BUY: u128 = 10_000_000;

/// Real reserve at which a launch graduates: 100,000 CSPR.
pub const DEFAULT_GRADUATION_TARGET: u128 = 100_000_000_000_000;

/// Price of a community takeover: 1,000 CSPR.
pub const DEFAULT_CTO_PRICE: u128 = 1_000_000_000_000;

/// Creator inactivity before a takeover is allowed: 90 days, in seconds.
pub const DEFAULT_CTO_INACTIVITY_PERIOD: u64 = 7_776_000;

/// Holders a launch needs before a takeover is allowed.
pub const DEFAULT_MIN_HOLDERS_FOR_CTO: u32 = 10;

pub struct TokenFactory {
    config: FactoryConfig,
    token_counter: u64,
    launches: Vec<TokenLaunch>,
    liquidity_pools: Vec<LiquidityPool>,
    cto_ownerships: Vec<CTOOwnership>,
}

impl View for TokenFactory {
    type V = FactoryState;

    closed spec fn view(&self) -> FactoryState {
        FactoryState {
            config: self.config,
            token_counter: self.token_counter,
            launches: self.launches@,
            pools: self.liquidity_pools@,
            ctos: self.cto_ownerships@,
        }
    }
}

/// The payments and events of a launchpad buy of `gross` on `l`.
fn buy_on_launch(
    config: &FactoryConfig,
    l: &mut TokenLaunch,
    buyer: Address,
    gross: u128,
    min_tokens_out: u128,
) -> (r: Result<(Vec<Transfer>, Vec<Event>), Error>)
    requires
        launch_curve_ok(*old(l)),
        !old(l).graduated,
    ensures
        match r {
            Ok((transfers, events)) => {
                &&& launch_buy_error(*old(l), gross as int, min_tokens_out as int) is None
                &&& *final(l) == launch_after_buy(*old(l), gross as int, config.graduation_target)
                &&& transfers@ == launch_fee_transfers(*config, crate::fees::spec_trade_fee(gross as int))
                &&& events@ == launch_buy_events(*old(l), buyer, gross as int, config.graduation_target)
            },
            Err(e) => {
                &&& launch_buy_error(*old(l), gross as int, min_tokens_out as int) == Some(e)
                &&& *final(l) == *old(l)
            },
        },
        launch_curve_ok(*final(l)),
{
    let fee = trade_fee(gross);
    let net = gross - fee;
    let split = split_fee(fee);
    if l.virtual_cspr_reserves > u128::MAX - net || l.creator_fees_unclaimed > u128::MAX
        - split.creator || l.stories_fees_unclaimed > u128::MAX - split.stories {
        return Err(Error::ArithmeticOverflow);
    }
    let new_cspr = l.virtual_cspr_reserves + net;
    let new_tokens = new_token_reserve(l.virtual_cspr_reserves, l.virtual_token_reserves, net);
    if new_tokens == 0 {
        return Err(Error::InsufficientLiquidity);
    }
    let tokens_out = l.virtual_token_reserves - new_tokens;
    if tokens_out < min_tokens_out {
        return Err(Error::SlippageExceeded);
    }
    let mut transfers: Vec<Transfer> = Vec::new();
    transfers.push(Transfer { to: config.platform_wallet, amount: split.platform });
    transfers.push(Transfer { to: config.burn_cspr_address, amount: split.burn_cspr });
    transfers.push(Transfer { to: config.platform_wallet, amount: split.burn_secondary });

    l.creator_fees_unclaimed = l.creator_fees_unclaimed + split.creator;
    l.stories_fees_unclaimed = l.stories_fees_unclaimed + split.stories;
    l.virtual_cspr_reserves = new_cspr;
    l.virtual_token_reserves = new_tokens;
    l.real_cspr_reserves = l.real_cspr_reserves + net;

    let mut events: Vec<Event> = Vec::new();
    events.push(
        Event::Bought(
            TokenBought {
                mint: l.mint,
                buyer,
                cspr_amount: gross,
                tokens_out,
                new_price: new_cspr / new_tokens,
            },
        ),
    );
    if l.real_cspr_reserves >= config.graduation_target {
        l.graduated = true;
        events.push(
            Event::Graduated(
                TokenGraduated {
                    mint: l.mint,
                    final_mcap_cspr: l.real_cspr_reserves,
                    dex_address: None,
                },
            ),
        );
    }
    assert(events@ =~= launch_buy_events(*old(l), buyer, gross as int, config.graduation_target));
    assert(transfers@ =~= launch_fee_transfers(*config, fee as int));
    Ok((transfers, events))
}

impl TokenFactory {
    pub open spec fn wf(&self) -> bool {
        self@.wf()
    }

    /// A factory with no launches, pools or takeovers, and the default
    /// thresholds. The burn address defaults to the all-zero hash.
    pub fn init(
        platform_wallet: Address,
        stories_pool: Address,
        screener_token: Address,
        burn_address: Option<Address>,
    ) -> (r: TokenFactory)
        ensures
            r.wf(),
            r@.config == (FactoryConfig {
                platform_wallet,
                stories_pool,
                burn_cspr_address: match burn_address {
                    Some(a) => a,
                    None => Address { hi: 0, lo: 0 },
                },
                screener_token,
                min_initial_buy: DEFAULT_MIN_INITIAL_BUY,
                graduation_target: DEFAULT_GRADUATION_TARGET,
                cto_price: DEFAULT_CTO_PRICE,
                cto_inactivity_period: DEFAULT_CTO_INACTIVITY_PERIOD,
                min_holders_for_cto: DEFAULT_MIN_HOLDERS_FOR_CTO,
            }),
            r@.token_counter == 0,
            r@.launches.len() == 0,
            r@.pools.len() == 0,
            r@.ctos.len() == 0,
    {
        let burn_cspr_address = match burn_address {
            Some(a) => a,
            None => Address::zero(),
        };
        TokenFactory::with_config(
            FactoryConfig {
                platform_wallet,
                stories_pool,
                burn_cspr_address,
                screener_token,
                min_initial_buy: DEFAULT_MIN_INITIAL_BUY,
                graduation_target: DEFAULT_GRADUATION_TARGET,
                cto_price: DEFAULT_CTO_PRICE,
                cto_inactivity_period: DEFAULT_CTO_INACTIVITY_PERIOD,
                min_holders_for_cto: DEFAULT_MIN_HOLDERS_FOR_CTO,
            },
        )
    }

    /// A factory with no launches, pools or takeovers, and the given settings.
    pub fn with_config(config: FactoryConfig) -> (r: TokenFactory)
        ensures
            r.wf(),
            r@.config == config,
            r@.token_counter == 0,
            r@.launches.len() == 0,
            r@.pools.len() == 0,
            r@.ctos.len() == 0,
    {
        TokenFactory {
            config,
            token_counter: 0,
            launches: Vec::new(),
            liquidity_pools: Vec::new(),
            cto_ownerships: Vec::new(),
        }
    }

    /// The settings.
    pub fn config(&self) -> (r: FactoryConfig)
        ensures
            r == self@.config,
    {
        self.config
    }

    /// Position of the launch `mint` in the table.
    fn find_launch(&self, mint: Address) -> (r: Option<usize>)
        requires
            self.wf(),
        ensures
            match r {
                Some(i) => {
                    &&& has_launch(self@.launches, mint)
                    &&& i as int == launch_index(self@.launches, mint)
                    &&& i < self@.launches.len()
                },
                None => !has_launch(self@.launches, mint),
            },
    {
        let mut i: usize = 0;
        while i < self.launches.len()
            invariant
                self.wf(),
                0 <= i <= self.launches@.len(),
                forall|j: int| 0 <= j < i ==> (#[trigger] self.launches@[j]).mint != mint,
            decreases self.launches@.len() - i,
        {
            if self.launches[i].mint == mint {
                proof {
                    assert(self@.launches[i as int].mint == mint);
                    let k = launch_index(self@.launches, mint);
                    assert(self@.launches[k].mint == self@.launches[i as int].mint);
                }
                return Some(i);
            }
            i = i + 1;
        }
        None
    }

    /// Creates a launch with a fresh curve. Free, unless `initial_buy_cspr`
    /// is given: then at least that much must be attached, it must reach the
    /// minimum initial buy, and it is bought for the caller at once.
    pub fn create_token(
        &mut self,
        name: String,
        symbol: String,
        uri: String,
        initial_buy_cspr: Option<u128>,
        caller: Address,
        attached: u128,
        now: u64,
    ) -> (r: Result<Receipt, Error>)
        requires
            old(self).wf(),
        ensures
            final(self).wf(),
            graduation_kept(old(self)@, final(self)@),
            ({
                let s = old(self)@;
                let initial = match initial_buy_cspr {
                    Some(v) => v,
                    None => 0u128,
                };
                let fresh = fresh_launch(
                    mint_address(s.token_counter, now),
                    caller,
                    name,
                    symbol,
                    uri,
                    now,
                );
                let target = s.config.graduation_target;
                match r {
                    Ok(receipt) => {
                        &&& create_error(s, initial, attached, fresh) is None
                        &&& final(self)@ == FactoryState {
                            token_counter: (s.token_counter + 1) as u64,
                            launches: s.launches.push(
                                if initial > 0 {
                                    launch_after_buy(fresh, initial as int, target)
                                } else {
                                    fresh
                                },
                            ),
                            ..s
                        }
                        &&& receipt.transfers@ == if initial > 0 {
                            launch_fee_transfers(s.config, crate::fees::spec_trade_fee(initial as int))
                        } else {
                            Seq::empty()
                        }
                        &&& receipt.events@ == (if initial > 0 {
                            launch_buy_events(fresh, caller, initial as int, target)
                        } else {
                            Seq::empty()
                        }).push(
                            Event::Created(
                                TokenCreated {
                                    mint: fresh.mint,
                                    creator: caller,
                                    name,
                                    symbol,
                                    initial_buy_cspr: initial,
                                },
                            ),
                        )
                    },
                    Err(e) => {
                        &&& create_error(s, initial, attached, fresh) == Some(e)
                        &&& final(self)@ == s
                    },
                }
            }),
    {
        let initial: u128 = match initial_buy_cspr {
            Some(v) => v,
            None => 0,
        };
        if initial > 0 && (attached < initial || initial < self.config.min_initial_buy) {
            return Err(Error::InitialBuyTooLow);
        }
        if self.token_counter == u64::MAX {
            return Err(Error::ArithmeticOverflow);
        }
        let mint = Address {
            hi: 0,
            lo: self.token_counter as u128 + now as u128 * 0x1_0000_0000_0000_0000u128,
        };
        if self.find_launch(mint).is_some() {
            return Err(Error::TokenAlreadyExists);
        }
        let mut launch = TokenLaunch {
            mint,
            creator: caller,
            name: name.clone(),
            symbol: symbol.clone(),
            uri,
            total_supply: TOTAL_SUPPLY,
            virtual_cspr_reserves: INITIAL_VIRTUAL_CSPR,
            virtual_token_reserves: INITIAL_VIRTUAL_TOKENS,
            real_cspr_reserves: 0,
            creator_fees_unclaimed: 0,
            stories_fees_unclaimed: 0,
            created_at: now,
            graduated: false,
            last_activity: now,
            website: None,
            telegram: None,
            twitter: None,
            banner_uri: None,
            holders_count: 0,
            is_cto: false,
        };
        let mut transfers: Vec<Transfer> = Vec::new();
        let mut events: Vec<Event> = Vec::new();
        if initial > 0 {
            match buy_on_launch(&self.config, &mut launch, caller, initial, 0) {
                Ok((t, e)) => {
                    transfers = t;
                    events = e;
                },
                Err(e) => {
                    return Err(e);
                },
            }
        }
        events.push(
            Event::Created(
                TokenCreated { mint, creator: caller, name, symbol, initial_buy_cspr: initial },
            ),
        );
        let ghost s0 = self@;
        self.token_counter = self.token_counter + 1;
        self.launches.push(launch);
        proof {
            lemma_push_launch(s0, self.launches@.last());
            assert(self.launches@ =~= s0.launches.push(self.launches@.last()));
        }
        Ok(Receipt { transfers, events })
    }

    /// Buys tokens of the launch `mint` with all the attached CSPR. One
    /// percent is taken as the fee before the curve is quoted; the launch
    /// graduates once its real reserve reaches the target.
    pub fn buy(&mut self, mint: Address, min_tokens_out: u128, caller: Address, attached: u128) -> (r:
        Result<Receipt, Error>)
        requires
            old(self).wf(),
        ensures
            final(self).wf(),
            graduation_kept(old(self)@, final(self)@),
            ({
                let s = old(self)@;
                let l = s.launch(mint);
                match r {
                    Ok(receipt) => {
                        &&& buy_error(s, mint, min_tokens_out, attached) is None
                        &&& final(self)@ == s.with_launch(
                            mint,
                            launch_after_buy(l, attached as int, s.config.graduation_target),
                        )
                        &&& receipt.transfers@ == launch_fee_transfers(
                            s.config,
                            crate::fees::spec_trade_fee(attached as int),
                        )
                        &&& receipt.events@ == launch_buy_events(
                            l,
                            caller,
                            attached as int,
                            s.config.graduation_target,
                        )
                    },
                    Err(e) => {
                        &&& buy_error(s, mint, min_tokens_out, attached) == Some(e)
                        &&& final(self)@ == s
                    },
                }
            }),
    {
        if attached == 0 {
            return Err(Error::InitialBuyTooLow);
        }
        let i = match self.find_launch(mint) {
            Some(i) => i,
            None => {
                return Err(Error::TokenNotFound);
            },
        };
        if self.launches[i].graduated {
            return Err(Error::AlreadyGraduated);
        }
        let config = self.config;
        let ghost s = self@;
        assert(launch_curve_ok(self.launches@[i as int]));
        let res = buy_on_launch(&config, &mut self.launches[i], caller, attached, min_tokens_out);
        proof {
            if res is Ok {
                lemma_replace_launch(s, i as int, self.launches@[i as int]);
                assert(self@ == s.with_launch(mint, self.launches@[i as int]));
                lemma_with_launch_keeps_graduation(s, mint, self.launches@[i as int]);
            } else {
                assert(self.launches@ =~= s.launches);
            }
        }
        match res {
            Ok((transfers, events)) => Ok(Receipt { transfers, events }),
            Err(e) => Err(e),
        }
    }

    /// Sells `tokens_in` tokens of the launch `mint` back to the curve. The
    /// fee is one percent of the gross proceeds; the real reserve falls by
    /// the gross proceeds.
    pub fn sell(&mut self, mint: Address, tokens_in: u128, min_cspr_out: u128, caller: Address) -> (r:
        Result<Receipt, Error>)
        requires
            old(self).wf(),
        ensures
            final(self).wf(),
            graduation_kept(old(self)@, final(self)@),
            ({
                let s = old(self)@;
                let l = s.launch(mint);
                match r {
                    Ok(receipt) => {
                        &&& sell_error(s, mint, tokens_in, min_cspr_out) is None
                        &&& final(self)@ == s.with_launch(mint, launch_after_sell(l, tokens_in as int))
                        &&& receipt.transfers@ == launch_sell_transfers(s.config, l, caller, tokens_in as int)
                        &&& receipt.events@ == seq![launch_sell_event(l, caller, tokens_in as int)]
                    },
                    Err(e) => {
                        &&& sell_error(s, mint, tokens_in, min_cspr_out) == Some(e)
                        &&& final(self)@ == s
                    },
                }
            }),
    {
        if tokens_in == 0 {
            return Err(Error::InsufficientTokens);
        }
        let i = match self.find_launch(mint) {
            Some(i) => i,
            None => {
                return Err(Error::TokenNotFound);
            },
        };
        let ghost s = self@;
        let ghost l0 = self.launches@[i as int];
        assert(launch_curve_ok(l0));
        let x = self.launches[i].virtual_cspr_reserves;
        let y = self.launches[i].virtual_token_reserves;
        if self.launches[i].graduated {
            return Err(Error::AlreadyGraduated);
        }
        if y > u128::MAX - tokens_in {
            return Err(Error::ArithmeticOverflow);
        }
        let new_tokens = y + tokens_in;
        let new_cspr = new_cspr_reserve(x, y, tokens_in);
        let gross = x - new_cspr;
        let fee = trade_fee(gross);
        let net = gross - fee;
        let split = split_fee(fee);
        if self.launches[i].creator_fees_unclaimed > u128::MAX - split.creator
            || self.launches[i].stories_fees_unclaimed > u128::MAX - split.stories {
            return Err(Error::ArithmeticOverflow);
        }
        if net < min_cspr_out {
            return Err(Error::SlippageExceeded);
        }
        if gross > self.launches[i].real_cspr_reserves {
            return Err(Error::InsufficientLiquidity);
        }
        let mut transfers: Vec<Transfer> = Vec::new();
        transfers.push(Transfer { to: caller, amount: net });
        transfers.push(Transfer { to: self.config.platform_wallet, amount: split.platform });
        transfers.push(Transfer { to: self.config.burn_cspr_address, amount: split.burn_cspr });
        transfers.push(Transfer { to: self.config.platform_wallet, amount: split.burn_secondary });

        self.launches[i].creator_fees_unclaimed = self.launches[i].creator_fees_unclaimed
            + split.creator;
        self.launches[i].stories_fees_unclaimed = self.launches[i].stories_fees_unclaimed
            + split.stories;
        self.launches[i].virtual_cspr_reserves = new_cspr;
        self.launches[i].virtual_token_reserves = new_tokens;
        self.launches[i].real_cspr_reserves = self.launches[i].real_cspr_reserves - gross;

        let mut events: Vec<Event> = Vec::new();
        events.push(
            Event::Sold(
                TokenSold {
                    mint,
                    seller: caller,
                    tokens_in,
                    cspr_out: net,
                    new_price: new_cspr / new_tokens,
                },
            ),
        );
        proof {
            assert(self.launches@[i as int] == launch_after_sell(l0, tokens_in as int));
            lemma_replace_launch(s, i as int, self.launches@[i as int]);
            assert(self.launches@ =~= s.launches.update(i as int, self.launches@[i as int]));
            lemma_with_launch_keeps_graduation(s, mint, self.launches@[i as int]);
            assert(transfers@ =~= launch_sell_transfers(s.config, l0, caller, tokens_in as int));
            assert(events@ =~= seq![launch_sell_event(l0, caller, tokens_in as int)]);
        }
        Ok(Receipt { transfers, events })
    }

    /// Pays the creator of `mint` every fee accrued for them, and zeroes the
    /// accrual. Only the current creator may claim.
    pub fn claim_creator_fees(&mut self, mint: Address, caller: Address) -> (r: Result<Receipt, Error>)
        requires
            old(self).wf(),
        ensures
            final(self).wf(),
            graduation_kept(old(self)@, final(self)@),
            ({
                let s = old(self)@;
                let amount = s.launch(mint).creator_fees_unclaimed;
                match r {
                    Ok(receipt) => {
                        &&& creator_claim_error(s, mint, caller) is None
                        &&& final(self)@ == after_creator_claim(s, mint)
                        &&& receipt.transfers@ == seq![Transfer { to: caller, amount }]
                        &&& receipt.events@ == seq![fees_claimed_event(mint, caller, amount)]
                    },
                    Err(e) => {
                        &&& creator_claim_error(s, mint, caller) == Some(e)
                        &&& final(self)@ == s
                    },
                }
            }),
    {
        let i = match self.find_launch(mint) {
            Some(i) => i,
            None => {
                return Err(Error::TokenNotFound);
            },
        };
        if self.launches[i].creator != caller {
            return Err(Error::Unauthorized);
        }
        let amount = self.launches[i].creator_fees_unclaimed;
        if amount == 0 {
            return Err(Error::NoFeesToClaim);
        }
        let ghost s = self@;
        assert(launch_curve_ok(s.launches[i as int]));
        self.launches[i].creator_fees_unclaimed = 0;
        proof {
            self.lemma_replaced(s, mint, i);
        }
        let mut transfers: Vec<Transfer> = Vec::new();
        transfers.push(Transfer { to: caller, amount });
        let mut events: Vec<Event> = Vec::new();
        events.push(Event::FeesClaimed(CreatorFeesClaimed { mint, creator: caller, amount }));
        proof {
            assert(transfers@ =~= seq![Transfer { to: caller, amount }]);
            assert(events@ =~= seq![fees_claimed_event(mint, caller, amount)]);
        }
        Ok(Receipt { transfers, events })
    }

    /// Pays `amount` of the stories fees of `mint` to `claimer`. Only the
    /// platform wallet may distribute them, at least `MIN_STORIES_CLAIM` at
    /// a time; partial claims are allowed.
    pub fn claim_stories_fees(
        &mut self,
        mint: Address,
        claimer: Address,
        amount: u128,
        caller: Address,
    ) -> (r: Result<Receipt, Error>)
        requires
            old(self).wf(),
        ensures
            final(self).wf(),
            graduation_kept(old(self)@, final(self)@),
            ({
                let s = old(self)@;
                match r {
                    Ok(receipt) => {
                        &&& stories_claim_error(s, mint, amount, caller) is None
                        &&& final(self)@ == after_stories_claim(s, mint, amount)
                        &&& receipt.transfers@ == seq![Transfer { to: claimer, amount }]
                        &&& receipt.events@ == Seq::<Event>::empty()
                    },
                    Err(e) => {
                        &&& stories_claim_error(s, mint, amount, caller) == Some(e)
                        &&& final(self)@ == s
                    },
                }
            }),
    {
        if caller != self.config.platform_wallet {
            return Err(Error::Unauthorized);
        }
        if amount < MIN_STORIES_CLAIM {
            return Err(Error::InsufficientClaimAmount);
        }
        let i = match self.find_launch(mint) {
            Some(i) => i,
            None => {
                return Err(Error::TokenNotFound);
            },
        };
        if self.launches[i].stories_fees_unclaimed < amount {
            return Err(Error::NoFeesToClaim);
        }
        let ghost s = self@;
        assert(launch_curve_ok(s.launches[i as int]));
        self.launches[i].stories_fees_unclaimed = self.launches[i].stories_fees_unclaimed - amount;
        proof {
            self.lemma_replaced(s, mint, i);
        }
        let mut transfers: Vec<Transfer> = Vec::new();
        transfers.push(Transfer { to: claimer, amount });
        proof {
            assert(transfers@ =~= seq![Transfer { to: claimer, amount }]);
        }
        Ok(Receipt { transfers, events: Vec::new() })
    }

    /// Overwrites each metadata field of `mint` that is given, leaves the
    /// others as they were, and records the creator as active now. Only the
    /// current creator may update.
    pub fn update_token_info(
        &mut self,
        mint: Address,
        website: Option<String>,
        telegram: Option<String>,
        twitter: Option<String>,
        banner_uri: Option<String>,
        caller: Address,
        now: u64,
    ) -> (r: Result<Receipt, Error>)
        requires
            old(self).wf(),
        ensures
            final(self).wf(),
            graduation_kept(old(self)@, final(self)@),
            ({
                let s = old(self)@;
                match r {
                    Ok(receipt) => {
                        &&& info_update_error(s, mint, caller) is None
                        &&& final(self)@ == s.with_launch(
                            mint,
                            launch_with_info(s.launch(mint), website, telegram, twitter, banner_uri, now),
                        )
                        &&& receipt.transfers@ == Seq::<Transfer>::empty()
                        &&& receipt.events@ == seq![info_event(mint, caller, website, telegram, twitter)]
                    },
                    Err(e) => {
                        &&& info_update_error(s, mint, caller) == Some(e)
                        &&& final(self)@ == s
                    },
                }
            }),
    {
        let i = match self.find_launch(mint) {
            Some(i) => i,
            None => {
                return Err(Error::TokenNotFound);
            },
        };
        if self.launches[i].creator != caller {
            return Err(Error::Unauthorized);
        }
        let ghost s = self@;
        assert(launch_curve_ok(s.launches[i as int]));
        let website_copy = copy_text(&website);
        let telegram_copy = copy_text(&telegram);
        let twitter_copy = copy_text(&twitter);
        if website.is_some() {
            self.launches[i].website = website;
        }
        if telegram.is_some() {
            self.launches[i].telegram = telegram;
        }
        if twitter.is_some() {
            self.launches[i].twitter = twitter;
        }
        if banner_uri.is_some() {
            self.launches[i].banner_uri = banner_uri;
        }
        self.launches[i].last_activity = now;
        proof {
            self.lemma_replaced(s, mint, i);
        }
        let mut events: Vec<Event> = Vec::new();
        events.push(
            Event::InfoUpdated(
                TokenInfoUpdated {
                    mint,
                    updater: caller,
                    website: website_copy,
                    telegram: telegram_copy,
                    twitter: twitter_copy,
                },
            ),
        );
        proof {
            assert(events@ =~= seq![info_event(mint, caller, website_copy, telegram_copy, twitter_copy)]);
        }
        Ok(Receipt { transfers: Vec::new(), events })
    }

    /// Community takeover: once the creator of `mint` has been inactive for
    /// the inactivity period and the launch has enough holders, the caller
    /// pays the takeover price, which goes whole to the platform, and
    /// becomes the creator.
    pub fn execute_cto(&mut self, mint: Address, caller: Address, attached: u128, now: u64) -> (r:
        Result<Receipt, Error>)
        requires
            old(self).wf(),
        ensures
            final(self).wf(),
            graduation_kept(old(self)@, final(self)@),
            ({
                let s = old(self)@;
                let price = s.config.cto_price;
                match r {
                    Ok(receipt) => {
                        &&& cto_error(s, mint, attached, now) is None
                        &&& final(self)@ == s.with_launch(mint, launch_after_cto(s.launch(mint), caller, now))
                        &&& receipt.transfers@ == seq![Transfer { to: s.config.platform_wallet, amount: price }]
                        &&& receipt.events@ == seq![cto_event(mint, s.launch(mint).creator, caller, price)]
                    },
                    Err(e) => {
                        &&& cto_error(s, mint, attached, now) == Some(e)
                        &&& final(self)@ == s
                    },
                }
            }),
    {
        let price = self.config.cto_price;
        if attached < price {
            return Err(Error::CTOPriceTooLow);
        }
        let i = match self.find_launch(mint) {
            Some(i) => i,
            None => {
                return Err(Error::TokenNotFound);
            },
        };
        if (now as u128) < self.launches[i].last_activity as u128
            + self.config.cto_inactivity_period as u128 {
            return Err(Error::CTONotEligible);
        }
        if self.launches[i].holders_count < self.config.min_holders_for_cto {
            return Err(Error::InsufficientHolders);
        }
        let ghost s = self@;
        assert(launch_curve_ok(s.launches[i as int]));
        let old_creator = self.launches[i].creator;
        self.launches[i].creator = caller;
        self.launches[i].last_activity = now;
        self.launches[i].is_cto = true;
        proof {
            self.lemma_replaced(s, mint, i);
        }
        let mut transfers: Vec<Transfer> = Vec::new();
        transfers.push(Transfer { to: self.config.platform_wallet, amount: price });
        let mut events: Vec<Event> = Vec::new();
        events.push(
            Event::CtoExecuted(
                CTOExecuted { mint, old_creator, new_creator: caller, price_paid: price },
            ),
        );
        proof {
            assert(transfers@ =~= seq![Transfer { to: s.config.platform_wallet, amount: price }]);
            assert(events@ =~= seq![cto_event(mint, old_creator, caller, price)]);
        }
        Ok(Receipt { transfers, events })
    }

    /// Position of the pool of `token_contract` in the table.
    fn find_pool(&self, token_contract: Address) -> (r: Option<usize>)
        requires
            self.wf(),
        ensures
            match r {
                Some(i) => {
                    &&& has_pool(self@.pools, token_contract)
                    &&& i as int == pool_index(self@.pools, token_contract)
                    &&& i < self@.pools.len()
                },
                None => !has_pool(self@.pools, token_contract),
            },
    {
        let mut i: usize = 0;
        while i < self.liquidity_pools.len()
            invariant
                self.wf(),
                0 <= i <= self.liquidity_pools@.len(),
                forall|j: int| 0 <= j < i ==> (#[trigger] self.liquidity_pools@[j]).token_contract != token_contract,
            decreases self.liquidity_pools@.len() - i,
        {
            if self.liquidity_pools[i].token_contract == token_contract {
                proof {
                    assert(self@.pools[i as int].token_contract == token_contract);
                    let k = pool_index(self@.pools, token_contract);
                    assert(self@.pools[k].token_contract == self@.pools[i as int].token_contract);
                }
                return Some(i);
            }
            i = i + 1;
        }
        None
    }

    /// Position of the takeover record of `token_contract` in the table.
    fn find_cto(&self, token_contract: Address) -> (r: Option<usize>)
        requires
            self.wf(),
        ensures
            match r {
                Some(i) => {
                    &&& has_cto(self@.ctos, token_contract)
                    &&& i as int == cto_index(self@.ctos, token_contract)
                    &&& i < self@.ctos.len()
                },
                None => !has_cto(self@.ctos, token_contract),
            },
    {
        let mut i: usize = 0;
        while i < self.cto_ownerships.len()
            invariant
                self.wf(),
                0 <= i <= self.cto_ownerships@.len(),
                forall|j: int| 0 <= j < i ==> (#[trigger] self.cto_ownerships@[j]).token_contract != token_contract,
            decreases self.cto_ownerships@.len() - i,
        {
            if self.cto_ownerships[i].token_contract == token_contract {
                proof {
                    assert(self@.ctos[i as int].token_contract == token_contract);
                    let k = cto_index(self@.ctos, token_contract);
                    assert(self@.ctos[k].token_contract == self@.ctos[i as int].token_contract);
                }
                return Some(i);
            }
            i = i + 1;
        }
        None
    }

    /// Buys the takeover of a token that existed before the launchpad. The
    /// price goes whole to the platform; each token can be claimed once.
    pub fn claim_cto_existing(&mut self, token_contract: Address, caller: Address, attached: u128, now: u64) -> (r:
        Result<Receipt, Error>)
        requires
            old(self).wf(),
        ensures
            final(self).wf(),
            graduation_kept(old(self)@, final(self)@),
            ({
                let s = old(self)@;
                let price = s.config.cto_price;
                match r {
                    Ok(receipt) => {
                        &&& cto_claim_existing_error(s, token_contract, attached) is None
                        &&& final(self)@ == FactoryState {
                            ctos: s.ctos.push(
                                CTOOwnership {
                                    token_contract,
                                    cto_owner: caller,
                                    claimed_at: now,
                                    fees_unclaimed: 0,
                                    last_activity: now,
                                },
                            ),
                            ..s
                        }
                        &&& receipt.transfers@ == seq![Transfer { to: s.config.platform_wallet, amount: price }]
                        &&& receipt.events@ == seq![
                            cto_event(token_contract, Address { hi: 0, lo: 0 }, caller, price),
                        ]
                    },
                    Err(e) => {
                        &&& cto_claim_existing_error(s, token_contract, attached) == Some(e)
                        &&& final(self)@ == s
                    },
                }
            }),
    {
        let price = self.config.cto_price;
        if attached < price {
            return Err(Error::CTOPriceTooLow);
        }
        if self.find_cto(token_contract).is_some() {
            return Err(Error::CTOAlreadyClaimed);
        }
        let record = CTOOwnership {
            token_contract,
            cto_owner: caller,
            claimed_at: now,
            fees_unclaimed: 0,
            last_activity: now,
        };
        let ghost s = self@;
        self.cto_ownerships.push(record);
        proof {
            lemma_push_cto(s, record);
            assert(self@ == FactoryState { ctos: s.ctos.push(record), ..s });
        }
        let mut transfers: Vec<Transfer> = Vec::new();
        transfers.push(Transfer { to: self.config.platform_wallet, amount: price });
        let mut events: Vec<Event> = Vec::new();
        events.push(
            Event::CtoExecuted(
                CTOExecuted {
                    mint: token_contract,
                    old_creator: Address::zero(),
                    new_creator: caller,
                    price_paid: price,
                },
            ),
        );
        proof {
            assert(transfers@ =~= seq![Transfer { to: s.config.platform_wallet, amount: price }]);
            assert(events@ =~= seq![cto_event(token_contract, Address { hi: 0, lo: 0 }, caller, price)]);
        }
        Ok(Receipt { transfers, events })
    }

    /// Opens a swap pool for a token that existed before the launchpad,
    /// seeded with the attached CSPR and `initial_token_amount` tokens. Only
    /// the platform wallet may open pools. The pool records the takeover
    /// owner of that moment, if any.
    pub fn create_pool_existing(
        &mut self,
        token_contract: Address,
        initial_token_amount: u128,
        caller: Address,
        attached: u128,
        now: u64,
    ) -> (r: Result<Receipt, Error>)
        requires
            old(self).wf(),
        ensures
            final(self).wf(),
            graduation_kept(old(self)@, final(self)@),
            ({
                let s = old(self)@;
                match r {
                    Ok(receipt) => {
                        &&& pool_create_error(s, token_contract, caller, attached) is None
                        &&& final(self)@ == FactoryState {
                            pools: s.pools.push(
                                LiquidityPool {
                                    token_contract,
                                    cspr_reserves: attached,
                                    token_reserves: initial_token_amount,
                                    total_volume_cspr: 0,
                                    cto_owner: cto_owner_of(s, token_contract),
                                    created_at: now,
                                },
                            ),
                            ..s
                        }
                        &&& receipt.transfers@ == Seq::<Transfer>::empty()
                        &&& receipt.events@ == Seq::<Event>::empty()
                    },
                    Err(e) => {
                        &&& pool_create_error(s, token_contract, caller, attached) == Some(e)
                        &&& final(self)@ == s
                    },
                }
            }),
    {
        if caller != self.config.platform_wallet {
            return Err(Error::Unauthorized);
        }
        if self.find_pool(token_contract).is_some() {
            return Err(Error::TokenAlreadyExists);
        }
        if attached == 0 {
            return Err(Error::InitialBuyTooLow);
        }
        let cto_owner = match self.find_cto(token_contract) {
            Some(j) => Some(self.cto_ownerships[j].cto_owner),
            None => None,
        };
        let pool = LiquidityPool {
            token_contract,
            cspr_reserves: attached,
            token_reserves: initial_token_amount,
            total_volume_cspr: 0,
            cto_owner,
            created_at: now,
        };
        let ghost s = self@;
        self.liquidity_pools.push(pool);
        proof {
            lemma_push_pool(s, pool);
            assert(self@ == FactoryState { pools: s.pools.push(pool), ..s });
        }
        Ok(Receipt { transfers: Vec::new(), events: Vec::new() })
    }

    /// Routes the creator share of a pool fee: accrued to the takeover owner
    /// of `token_contract`, who is then active at `now`, or paid to the
    /// platform when the token has none.
    fn route_creator_share(
        &mut self,
        token_contract: Address,
        share: u128,
        now: u64,
        transfers: &mut Vec<Transfer>,
    )
        requires
            old(self).wf(),
            cto_accrual_fits(old(self)@, token_contract, share as int),
        ensures
            final(self).wf(),
            final(self)@ == accrue_to_owner(old(self)@, token_contract, share as int, now),
            final(transfers)@ == old(transfers)@ + if has_cto(old(self)@.ctos, token_contract) {
                Seq::<Transfer>::empty()
            } else {
                seq![Transfer { to: old(self)@.config.platform_wallet, amount: share }]
            },
    {
        let ghost s = self@;
        match self.find_cto(token_contract) {
            Some(j) => {
                let c = self.cto_ownerships[j];
                let c2 = CTOOwnership {
                    fees_unclaimed: c.fees_unclaimed + share,
                    last_activity: now,
                    ..c
                };
                self.cto_ownerships[j] = c2;
                proof {
                    lemma_replace_cto(s, j as int, c2);
                    assert(self@ == s.with_cto(token_contract, c2));
                }
                assert(transfers@ =~= old(transfers)@ + Seq::<Transfer>::empty());
            },
            None => {
                transfers.push(Transfer { to: self.config.platform_wallet, amount: share });
            },
        }
    }

    /// Swaps the attached CSPR for tokens of a pre-existing token's pool, on
    /// the same curve and fee as a launchpad buy.
    pub fn swap_cspr_for_existing(
        &mut self,
        token_contract: Address,
        min_tokens_out: u128,
        caller: Address,
        attached: u128,
        now: u64,
    ) -> (r: Result<Receipt, Error>)
        requires
            old(self).wf(),
        ensures
            final(self).wf(),
            graduation_kept(old(self)@, final(self)@),
            ({
                let s = old(self)@;
                let p = s.pool(token_contract);
                let fee = crate::fees::spec_trade_fee(attached as int);
                let after = pool_after_buy(p, attached as int);
                match r {
                    Ok(receipt) => {
                        &&& pool_buy_error(s, token_contract, min_tokens_out, attached) is None
                        &&& final(self)@ == accrue_to_owner(
                            s.with_pool(token_contract, after),
                            token_contract,
                            crate::fees::share_of(fee, crate::fees::CREATOR_PERCENT as int),
                            now,
                        )
                        &&& receipt.transfers@ == pool_fee_transfers(
                            s.config,
                            fee,
                            has_cto(s.ctos, token_contract),
                        )
                        &&& receipt.events@ == seq![
                            Event::Bought(
                                TokenBought {
                                    mint: token_contract,
                                    buyer: caller,
                                    cspr_amount: attached,
                                    tokens_out: pool_buy_output(p, attached as int) as u128,
                                    new_price: after.cspr_reserves / after.token_reserves,
                                },
                            ),
                        ]
                    },
                    Err(e) => {
                        &&& pool_buy_error(s, token_contract, min_tokens_out, attached) == Some(e)
                        &&& final(self)@ == s
                    },
                }
            }),
    {
        if attached == 0 {
            return Err(Error::InitialBuyTooLow);
        }
        let i = match self.find_pool(token_contract) {
            Some(i) => i,
            None => {
                return Err(Error::PoolNotFound);
            },
        };
        let ghost s = self@;
        let p = self.liquidity_pools[i];
        let fee = trade_fee(attached);
        let net = attached - fee;
        let split = split_fee(fee);
        let owner_fits = match self.find_cto(token_contract) {
            Some(j) => self.cto_ownerships[j].fees_unclaimed <= u128::MAX - split.creator,
            None => true,
        };
        if p.cspr_reserves > u128::MAX - net || p.total_volume_cspr > u128::MAX - attached
            || !owner_fits {
            return Err(Error::ArithmeticOverflow);
        }
        let new_cspr = p.cspr_reserves + net;
        let new_tokens = new_token_reserve(p.cspr_reserves, p.token_reserves, net);
        let tokens_out = p.token_reserves - new_tokens;
        if tokens_out < min_tokens_out {
            return Err(Error::SlippageExceeded);
        }
        if tokens_out > p.token_reserves || new_tokens == 0 {
            return Err(Error::InsufficientLiquidity);
        }
        let mut transfers: Vec<Transfer> = Vec::new();
        transfers.push(Transfer { to: self.config.platform_wallet, amount: split.platform });
        transfers.push(Transfer { to: self.config.burn_cspr_address, amount: split.burn_cspr });
        transfers.push(Transfer { to: self.config.platform_wallet, amount: split.burn_secondary });
        let after = LiquidityPool {
            cspr_reserves: new_cspr,
            token_reserves: new_tokens,
            total_volume_cspr: p.total_volume_cspr + attached,
            ..p
        };
        self.liquidity_pools[i] = after;
        proof {
            lemma_replace_pool(s, i as int, after);
            assert(self@ == s.with_pool(token_contract, after));
        }
        self.route_creator_share(token_contract, split.creator, now, &mut transfers);
        transfers.push(Transfer { to: self.config.stories_pool, amount: split.stories });
        let mut events: Vec<Event> = Vec::new();
        events.push(
            Event::Bought(
                TokenBought {
                    mint: token_contract,
                    buyer: caller,
                    cspr_amount: attached,
                    tokens_out,
                    new_price: new_cspr / new_tokens,
                },
            ),
        );
        proof {
            assert(transfers@ =~= pool_fee_transfers(s.config, fee as int, has_cto(s.ctos, token_contract)));
        }
        Ok(Receipt { transfers, events })
    }

    /// Swaps `tokens_in` tokens of a pre-existing token's pool for CSPR, on
    /// the same curve and fee as a launchpad sell.
    pub fn swap_existing_for_cspr(
        &mut self,
        token_contract: Address,
        tokens_in: u128,
        min_cspr_out: u128,
        caller: Address,
        now: u64,
    ) -> (r: Result<Receipt, Error>)
        requires
            old(self).wf(),
        ensures
            final(self).wf(),
            graduation_kept(old(self)@, final(self)@),
            ({
                let s = old(self)@;
                let p = s.pool(token_contract);
                let fee = crate::fees::spec_trade_fee(pool_sell_gross(p, tokens_in as int));
                let after = pool_after_sell(p, tokens_in as int);
                match r {
                    Ok(receipt) => {
                        &&& pool_sell_error(s, token_contract, tokens_in, min_cspr_out) is None
                        &&& final(self)@ == accrue_to_owner(
                            s.with_pool(token_contract, after),
                            token_contract,
                            crate::fees::share_of(fee, crate::fees::CREATOR_PERCENT as int),
                            now,
                        )
                        &&& receipt.transfers@ == seq![
                            Transfer { to: caller, amount: pool_sell_net(p, tokens_in as int) as u128 },
                        ] + pool_fee_transfers(s.config, fee, has_cto(s.ctos, token_contract))
                        &&& receipt.events@ == seq![
                            Event::Sold(
                                TokenSold {
                                    mint: token_contract,
                                    seller: caller,
                                    tokens_in,
                                    cspr_out: pool_sell_net(p, tokens_in as int) as u128,
                                    new_price: after.cspr_reserves / after.token_reserves,
                                },
                            ),
                        ]
                    },
                    Err(e) => {
                        &&& pool_sell_error(s, token_contract, tokens_in, min_cspr_out) == Some(e)
                        &&& final(self)@ == s
                    },
                }
            }),
    {
        if tokens_in == 0 {
            return Err(Error::InsufficientTokens);
        }
        let i = match self.find_pool(token_contract) {
            Some(i) => i,
            None => {
                return Err(Error::PoolNotFound);
            },
        };
        let ghost s = self@;
        let p = self.liquidity_pools[i];
        if p.token_reserves > u128::MAX - tokens_in {
            return Err(Error::ArithmeticOverflow);
        }
        let new_tokens = p.token_reserves + tokens_in;
        let new_cspr = new_cspr_reserve(p.cspr_reserves, p.token_reserves, tokens_in);
        let gross = p.cspr_reserves - new_cspr;
        let fee = trade_fee(gross);
        let net = gross - fee;
        let split = split_fee(fee);
        let owner_fits = match self.find_cto(token_contract) {
            Some(j) => self.cto_ownerships[j].fees_unclaimed <= u128::MAX - split.creator,
            None => true,
        };
        if p.total_volume_cspr > u128::MAX - gross || !owner_fits {
            return Err(Error::ArithmeticOverflow);
        }
        if net < min_cspr_out {
            return Err(Error::SlippageExceeded);
        }
        if net > p.cspr_reserves {
            return Err(Error::InsufficientLiquidity);
        }
        let mut transfers: Vec<Transfer> = Vec::new();
        transfers.push(Transfer { to: caller, amount: net });
        transfers.push(Transfer { to: self.config.platform_wallet, amount: split.platform });
        transfers.push(Transfer { to: self.config.burn_cspr_address, amount: split.burn_cspr });
        transfers.push(Transfer { to: self.config.platform_wallet, amount: split.burn_secondary });
        let after = LiquidityPool {
            cspr_reserves: new_cspr,
            token_reserves: new_tokens,
            total_volume_cspr: p.total_volume_cspr + gross,
            ..p
        };
        self.liquidity_pools[i] = after;
        proof {
            lemma_replace_pool(s, i as int, after);
            assert(self@ == s.with_pool(token_contract, after));
        }
        self.route_creator_share(token_contract, split.creator, now, &mut transfers);
        transfers.push(Transfer { to: self.config.stories_pool, amount: split.stories });
        let mut events: Vec<Event> = Vec::new();
        events.push(
            Event::Sold(
                TokenSold {
                    mint: token_contract,
                    seller: caller,
                    tokens_in,
                    cspr_out: net,
                    new_price: new_cspr / new_tokens,
                },
            ),
        );
        proof {
            assert(transfers@ =~= seq![Transfer { to: caller, amount: net }] + pool_fee_transfers(
                s.config,
                fee as int,
                has_cto(s.ctos, token_contract),
            ));
        }
        Ok(Receipt { transfers, events })
    }

    /// Pays the takeover owner of `token_contract` every fee accrued for
    /// them, and zeroes the accrual. Only the registered owner may claim.
    pub fn claim_cto_fees_existing(&mut self, token_contract: Address, caller: Address) -> (r: Result<
        Receipt,
        Error,
    >)
        requires
            old(self).wf(),
        ensures
            final(self).wf(),
            graduation_kept(old(self)@, final(self)@),
            ({
                let s = old(self)@;
                let amount = s.cto(token_contract).fees_unclaimed;
                match r {
                    Ok(receipt) => {
                        &&& cto_fees_claim_error(s, token_contract, caller) is None
                        &&& final(self)@ == after_cto_fees_claim(s, token_contract)
                        &&& receipt.transfers@ == seq![Transfer { to: caller, amount }]
                        &&& receipt.events@ == seq![fees_claimed_event(token_contract, caller, amount)]
                    },
                    Err(e) => {
                        &&& cto_fees_claim_error(s, token_contract, caller) == Some(e)
                        &&& final(self)@ == s
                    },
                }
            }),
    {
        let j = match self.find_cto(token_contract) {
            Some(j) => j,
            None => {
                return Err(Error::TokenNotFound);
            },
        };
        let c = self.cto_ownerships[j];
        if c.cto_owner != caller {
            return Err(Error::Unauthorized);
        }
        if c.fees_unclaimed == 0 {
            return Err(Error::NoFeesToClaim);
        }
        let ghost s = self@;
        let amount = c.fees_unclaimed;
        let c2 = CTOOwnership { fees_unclaimed: 0, ..c };
        self.cto_ownerships[j] = c2;
        proof {
            lemma_replace_cto(s, j as int, c2);
            assert(self@ == s.with_cto(token_contract, c2));
        }
        let mut transfers: Vec<Transfer> = Vec::new();
        transfers.push(Transfer { to: caller, amount });
        let mut events: Vec<Event> = Vec::new();
        events.push(
            Event::FeesClaimed(CreatorFeesClaimed { mint: token_contract, creator: caller, amount }),
        );
        proof {
            assert(transfers@ =~= seq![Transfer { to: caller, amount }]);
            assert(events@ =~= seq![fees_claimed_event(token_contract, caller, amount)]);
        }
        Ok(Receipt { transfers, events })
    }

    /// The takeover record of `token_contract`, if one was claimed.
    pub fn get_cto_ownership(&self, token_contract: Address) -> (r: Option<CTOOwnership>)
        requires
            self.wf(),
        ensures
            r == if has_cto(self@.ctos, token_contract) {
                Some(self@.cto(token_contract))
            } else {
                None
            },
    {
        match self.find_cto(token_contract) {
            Some(j) => Some(self.cto_ownerships[j]),
            None => None,
        }
    }

    /// The pool of `token_contract`, if one was opened.
    pub fn get_pool(&self, token_contract: Address) -> (r: Option<LiquidityPool>)
        requires
            self.wf(),
        ensures
            r == if has_pool(self@.pools, token_contract) {
                Some(self@.pool(token_contract))
            } else {
                None
            },
    {
        match self.find_pool(token_contract) {
            Some(i) => Some(self.liquidity_pools[i]),
            None => None,
        }
    }

    /// Whether `address` is the takeover owner of `token_contract`.
    pub fn has_cto_access(&self, token_contract: Address, address: Address) -> (r: bool)
        requires
            self.wf(),
        ensures
            r == (has_cto(self@.ctos, token_contract) && self@.cto(token_contract).cto_owner == address),
    {
        match self.find_cto(token_contract) {
            Some(j) => self.cto_ownerships[j].cto_owner == address,
            None => false,
        }
    }

    /// Tokens that `swap_cspr_for_existing` would hand out for `cspr_in`.
    pub fn calculate_swap_cspr_to_token(&self, token_contract: Address, cspr_in: u128) -> (r: Result<u128, Error>)
        requires
            self.wf(),
        ensures
            ({
                let p = self@.pool(token_contract);
                let net = net_of_fee(cspr_in as int);
                match r {
                    Ok(v) => {
                        &&& has_pool(self@.pools, token_contract)
                        &&& 0 < p.cspr_reserves + net <= u128::MAX
                        &&& v == pool_buy_output(p, cspr_in as int)
                    },
                    Err(e) => if !has_pool(self@.pools, token_contract) {
                        e == Error::PoolNotFound
                    } else if p.cspr_reserves + net > u128::MAX {
                        e == Error::ArithmeticOverflow
                    } else {
                        p.cspr_reserves + net == 0 && e == Error::InsufficientLiquidity
                    },
                }
            }),
    {
        let i = match self.find_pool(token_contract) {
            Some(i) => i,
            None => {
                return Err(Error::PoolNotFound);
            },
        };
        let p = self.liquidity_pools[i];
        let net = cspr_in - trade_fee(cspr_in);
        if p.cspr_reserves > u128::MAX - net {
            return Err(Error::ArithmeticOverflow);
        }
        if p.cspr_reserves + net == 0 {
            return Err(Error::InsufficientLiquidity);
        }
        Ok(quote_buy(p.cspr_reserves, p.token_reserves, net))
    }

    /// CSPR that `swap_existing_for_cspr` would hand out for `tokens_in`.
    pub fn calculate_swap_token_to_cspr(&self, token_contract: Address, tokens_in: u128) -> (r: Result<u128, Error>)
        requires
            self.wf(),
        ensures
            ({
                let p = self@.pool(token_contract);
                match r {
                    Ok(v) => {
                        &&& has_pool(self@.pools, token_contract)
                        &&& 0 < p.token_reserves + tokens_in <= u128::MAX
                        &&& v == pool_sell_net(p, tokens_in as int)
                    },
                    Err(e) => if !has_pool(self@.pools, token_contract) {
                        e == Error::PoolNotFound
                    } else if p.token_reserves + tokens_in > u128::MAX {
                        e == Error::ArithmeticOverflow
                    } else {
                        p.token_reserves + tokens_in == 0 && e == Error::InsufficientLiquidity
                    },
                }
            }),
    {
        let i = match self.find_pool(token_contract) {
            Some(i) => i,
            None => {
                return Err(Error::PoolNotFound);
            },
        };
        let p = self.liquidity_pools[i];
        if p.token_reserves > u128::MAX - tokens_in {
            return Err(Error::ArithmeticOverflow);
        }
        if p.token_reserves + tokens_in == 0 {
            return Err(Error::InsufficientLiquidity);
        }
        let gross = quote_sell(p.cspr_reserves, p.token_reserves, tokens_in);
        Ok(gross - trade_fee(gross))
    }

    /// The launch `mint`, if it exists.
    pub fn get_token_launch(&self, mint: Address) -> (r: Option<&TokenLaunch>)
        requires
            self.wf(),
        ensures
            match r {
                Some(l) => has_launch(self@.launches, mint) && *l == self@.launch(mint),
                None => !has_launch(self@.launches, mint),
            },
    {
        match self.find_launch(mint) {
            Some(i) => Some(&self.launches[i]),
            None => None,
        }
    }

    /// Current price of the launch `mint`: CSPR-side over token-side
    /// virtual reserve, floored.
    pub fn get_price(&self, mint: Address) -> (r: Result<u128, Error>)
        requires
            self.wf(),
        ensures
            match r {
                Ok(v) => has_launch(self@.launches, mint) && v == self@.launch(mint).virtual_cspr_reserves
                    / self@.launch(mint).virtual_token_reserves,
                Err(e) => !has_launch(self@.launches, mint) && e == Error::TokenNotFound,
            },
    {
        let i = match self.find_launch(mint) {
            Some(i) => i,
            None => {
                return Err(Error::TokenNotFound);
            },
        };
        assert(launch_curve_ok(self@.launches[i as int]));
        Ok(spot_price(self.launches[i].virtual_cspr_reserves, self.launches[i].virtual_token_reserves))
    }

    /// Tokens that `buy` would hand out on the launch `mint` for `cspr_in`,
    /// fee included.
    pub fn calculate_buy(&self, mint: Address, cspr_in: u128) -> (r: Result<u128, Error>)
        requires
            self.wf(),
        ensures
            ({
                let l = self@.launch(mint);
                match r {
                    Ok(v) => {
                        &&& has_launch(self@.launches, mint)
                        &&& l.virtual_cspr_reserves + net_of_fee(cspr_in as int) <= u128::MAX
                        &&& v == launch_buy_output(l, cspr_in as int)
                    },
                    Err(e) => if !has_launch(self@.launches, mint) {
                        e == Error::TokenNotFound
                    } else {
                        l.virtual_cspr_reserves + net_of_fee(cspr_in as int) > u128::MAX && e
                            == Error::ArithmeticOverflow
                    },
                }
            }),
    {
        let i = match self.find_launch(mint) {
            Some(i) => i,
            None => {
                return Err(Error::TokenNotFound);
            },
        };
        assert(launch_curve_ok(self@.launches[i as int]));
        let x = self.launches[i].virtual_cspr_reserves;
        let net = cspr_in - trade_fee(cspr_in);
        if x > u128::MAX - net {
            return Err(Error::ArithmeticOverflow);
        }
        Ok(quote_buy(x, self.launches[i].virtual_token_reserves, net))
    }

    /// CSPR that `sell` would hand out on the launch `mint` for `tokens_in`,
    /// fee deducted.
    pub fn calculate_sell(&self, mint: Address, tokens_in: u128) -> (r: Result<u128, Error>)
        requires
            self.wf(),
        ensures
            ({
                let l = self@.launch(mint);
                match r {
                    Ok(v) => {
                        &&& has_launch(self@.launches, mint)
                        &&& l.virtual_token_reserves + tokens_in <= u128::MAX
                        &&& v == launch_sell_net(l, tokens_in as int)
                    },
                    Err(e) => if !has_launch(self@.launches, mint) {
                        e == Error::TokenNotFound
                    } else {
                        l.virtual_token_reserves + tokens_in > u128::MAX && e == Error::ArithmeticOverflow
                    },
                }
            }),
    {
        let i = match self.find_launch(mint) {
            Some(i) => i,
            None => {
                return Err(Error::TokenNotFound);
            },
        };
        assert(launch_curve_ok(self@.launches[i as int]));
        let y = self.launches[i].virtual_token_reserves;
        if y > u128::MAX - tokens_in {
            return Err(Error::ArithmeticOverflow);
        }
        let gross = quote_sell(self.launches[i].virtual_cspr_reserves, y, tokens_in);
        Ok(gross - trade_fee(gross))
    }

    /// After the launch at position `i` (the one of `mint`) was rewritten in
    /// place, keeping its mint, its curve and its graduation.
    proof fn lemma_replaced(&self, s: FactoryState, mint: Address, i: usize)
        requires
            s.wf(),
            has_launch(s.launches, mint),
            i as int == launch_index(s.launches, mint),
            0 <= i < s.launches.len(),
            self@.config == s.config,
            self@.token_counter == s.token_counter,
            self@.pools == s.pools,
            self@.ctos == s.ctos,
            self@.launches.len() == s.launches.len(),
            forall|j: int| 0 <= j < s.launches.len() && j != i ==> self@.launches[j] == s.launches[j],
            self@.launches[i as int].mint == mint,
            launch_curve_ok(self@.launches[i as int]),
            s.launches[i as int].graduated ==> self@.launches[i as int].graduated,
        ensures
            self.wf(),
            self@ == s.with_launch(mint, self@.launches[i as int]),
            graduation_kept(s, self@),
    {
        let l = self@.launches[i as int];
        assert(self@.launches =~= s.launches.update(i as int, l));
        lemma_replace_launch(s, i as int, l);
        lemma_with_launch_keeps_graduation(s, mint, l);
    }
}

/// A copy of an optional text.
fn copy_text(t: &Option<String>) -> (r: Option<String>)
    ensures
        r == *t,
{
    match t {
        Some(v) => Some(v.clone()),
        None => None,
    }
}

} // verus!
