use screener_contracts::model::FactoryConfig;
use screener_contracts::types::{Address, Error, Event, Transfer};
use screener_contracts::TokenFactory;

fn account(n: u128) -> Address {
    Address { hi: 0, lo: n }
}

const NOW: u64 = 1_700_000_000;

fn platform() -> Address {
    account(1)
}

fn stories() -> Address {
    account(2)
}

fn screener() -> Address {
    account(3)
}

fn creator() -> Address {
    account(4)
}

fn burn() -> Address {
    account(9)
}

fn factory() -> TokenFactory {
    TokenFactory::init(platform(), stories(), screener(), Some(burn()))
}

fn config_with(graduation_target: u128, min_holders: u32) -> FactoryConfig {
    let mut c = factory().config();
    c.graduation_target = graduation_target;
    c.min_holders_for_cto = min_holders;
    c
}

fn mint_of(counter: u64, now: u64) -> Address {
    Address { hi: 0, lo: counter as u128 + ((now as u128) << 64) }
}

fn create(f: &mut TokenFactory, initial: Option<u128>, now: u64) -> Address {
    let counter = f_counter(f);
    let attached = initial.unwrap_or(0);
    f.create_token(
        "Test".to_string(),
        "TEST".to_string(),
        "https://test.com".to_string(),
        initial,
        creator(),
        attached,
        now,
    )
    .unwrap();
    mint_of(counter, now)
}

fn f_counter(f: &TokenFactory) -> u64 {
    let mut n = 0u64;
    while f.get_token_launch(mint_of(n, NOW)).is_some() {
        n += 1;
    }
    n
}

#[test]
fn test_create_token_free() {
    let mut f = factory();
    let r = f
        .create_token(
            "DogeCoin".to_string(),
            "DOGE".to_string(),
            "https://example.com/doge.json".to_string(),
            None,
            creator(),
            0,
            NOW,
        )
        .unwrap();
    assert!(r.transfers.is_empty());
    assert_eq!(r.events.len(), 1);
    match &r.events[0] {
        Event::Created(e) => {
            assert_eq!(e.name, "DogeCoin");
            assert_eq!(e.symbol, "DOGE");
            assert_eq!(e.initial_buy_cspr, 0);
            assert_eq!(e.creator, creator());
        }
        _ => panic!("expected a creation event"),
    }
    let l = f.get_token_launch(mint_of(0, NOW)).unwrap();
    assert_eq!(l.uri, "https://example.com/doge.json");
    assert_eq!(l.virtual_cspr_reserves, 30_000_000_000);
    assert_eq!(l.virtual_token_reserves, 1_073_000_000_000_000_000);
    assert_eq!(l.total_supply, 1_000_000_000_000_000_000);
    assert_eq!(l.real_cspr_reserves, 0);
    assert!(!l.graduated);
}

#[test]
fn test_create_with_initial_buy() {
    let mut f = factory();
    let initial_buy: u128 = 1_000_000_000;
    let r = f
        .create_token(
            "PepeCoin".to_string(),
            "PEPE".to_string(),
            "https://example.com/pepe.json".to_string(),
            Some(initial_buy),
            creator(),
            initial_buy,
            NOW,
        )
        .unwrap();
    assert_eq!(
        r.transfers,
        vec![
            Transfer { to: platform(), amount: 5_000_000 },
            Transfer { to: burn(), amount: 1_000_000 },
            Transfer { to: platform(), amount: 1_000_000 },
        ]
    );
    assert_eq!(r.events.len(), 2);
    match &r.events[0] {
        Event::Bought(b) => {
            assert_eq!(b.tokens_out, 34_277_831_558_567_280);
            assert_eq!(b.cspr_amount, initial_buy);
        }
        _ => panic!("expected a buy event first"),
    }
    assert!(matches!(&r.events[1], Event::Created(_)));
    let l = f.get_token_launch(mint_of(0, NOW)).unwrap();
    assert_eq!(l.real_cspr_reserves, 990_000_000);
    assert_eq!(l.virtual_cspr_reserves, 30_990_000_000);
    assert_eq!(l.virtual_token_reserves, 1_038_722_168_441_432_720);
    assert_eq!(l.creator_fees_unclaimed, 2_000_000);
    assert_eq!(l.stories_fees_unclaimed, 1_000_000);
}

#[test]
fn test_bonding_curve_price_increases() {
    let mut f = factory();
    let initial_buy: u128 = 1_000_000_000;
    let mint = create(&mut f, Some(initial_buy), NOW);
    let first = f.calculate_buy(mint, initial_buy).unwrap();
    assert_eq!(first, 32_155_564_313_852_983);
    let (x1, y1) = {
        let l = f.get_token_launch(mint).unwrap();
        (l.virtual_cspr_reserves, l.virtual_token_reserves)
    };
    let r = f.buy(mint, first, account(5), initial_buy).unwrap();
    match &r.events[0] {
        Event::Bought(b) => assert_eq!(b.tokens_out, first),
        _ => panic!("expected a buy event"),
    }
    let l = f.get_token_launch(mint).unwrap();
    // price x / y grew: x2 * y1 > x1 * y2, compared without overflow
    assert!(l.virtual_cspr_reserves > x1 && l.virtual_token_reserves < y1);
    let second = f.calculate_buy(mint, initial_buy).unwrap();
    assert!(second < first);
}

#[test]
fn initial_buy_at_minimum() {
    let mut f = factory();
    let min = f.config().min_initial_buy;
    let r = f.create_token(
        "A".to_string(),
        "A".to_string(),
        "u".to_string(),
        Some(min - 1),
        creator(),
        min,
        NOW,
    );
    assert_eq!(r.unwrap_err(), Error::InitialBuyTooLow);
    let r = f.create_token(
        "A".to_string(),
        "A".to_string(),
        "u".to_string(),
        Some(min),
        creator(),
        min,
        NOW,
    );
    assert!(r.is_ok());
}

#[test]
fn initial_buy_needs_enough_attached() {
    let mut f = factory();
    let r = f.create_token(
        "A".to_string(),
        "A".to_string(),
        "u".to_string(),
        Some(20_000_000),
        creator(),
        19_999_999,
        NOW,
    );
    assert_eq!(r.unwrap_err(), Error::InitialBuyTooLow);
    assert!(f.get_token_launch(mint_of(0, NOW)).is_none());
}

#[test]
fn mints_are_distinct() {
    let mut f = factory();
    let a = create(&mut f, None, NOW);
    let b = create(&mut f, None, NOW);
    assert_ne!(a, b);
    assert!(f.get_token_launch(a).is_some());
    assert!(f.get_token_launch(b).is_some());
}

#[test]
fn takeover_before_inactivity_period() {
    let mut f = TokenFactory::with_config(config_with(u128::MAX, 0));
    let mint = create(&mut f, None, NOW);
    let price = f.config().cto_price;
    let period = f.config().cto_inactivity_period;
    let r = f.execute_cto(mint, account(7), price, NOW + period - 1);
    assert_eq!(r.unwrap_err(), Error::CTONotEligible);
}

#[test]
fn takeover_rules() {
    let mut f = factory();
    let mint = create(&mut f, None, NOW);
    let price = f.config().cto_price;
    let period = f.config().cto_inactivity_period;
    assert_eq!(
        f.execute_cto(mint, account(7), price - 1, NOW + period).unwrap_err(),
        Error::CTOPriceTooLow
    );
    assert_eq!(
        f.execute_cto(account(99), account(7), price, NOW + period).unwrap_err(),
        Error::TokenNotFound
    );
    // no holders are counted yet, and ten are needed
    assert_eq!(
        f.execute_cto(mint, account(7), price, NOW + period).unwrap_err(),
        Error::InsufficientHolders
    );

    let mut g = TokenFactory::with_config(config_with(u128::MAX, 0));
    let mint = create(&mut g, None, NOW);
    let r = g.execute_cto(mint, account(7), price, NOW + period).unwrap();
    assert_eq!(r.transfers, vec![Transfer { to: platform(), amount: price }]);
    match &r.events[0] {
        Event::CtoExecuted(e) => {
            assert_eq!(e.old_creator, creator());
            assert_eq!(e.new_creator, account(7));
            assert_eq!(e.price_paid, price);
        }
        _ => panic!("expected a takeover event"),
    }
    let l = g.get_token_launch(mint).unwrap();
    assert_eq!(l.creator, account(7));
    assert!(l.is_cto);
    assert_eq!(l.last_activity, NOW + period);
}

#[test]
fn buy_errors() {
    let mut f = factory();
    let mint = create(&mut f, None, NOW);
    assert_eq!(f.buy(mint, 0, account(5), 0).unwrap_err(), Error::InitialBuyTooLow);
    assert_eq!(
        f.buy(account(99), 0, account(5), 1_000).unwrap_err(),
        Error::TokenNotFound
    );
    let quote = f.calculate_buy(mint, 1_000_000).unwrap();
    assert_eq!(
        f.buy(mint, quote + 1, account(5), 1_000_000).unwrap_err(),
        Error::SlippageExceeded
    );
    assert!(f.buy(mint, quote, account(5), 1_000_000).is_ok());
}

#[test]
fn sell_errors_and_proceeds() {
    let mut f = factory();
    let mint = create(&mut f, Some(1_000_000_000), NOW);
    assert_eq!(f.sell(mint, 0, 0, creator()).unwrap_err(), Error::InsufficientTokens);
    assert_eq!(
        f.sell(account(99), 10, 0, creator()).unwrap_err(),
        Error::TokenNotFound
    );
    let bought: u128 = 34_277_831_558_567_280;
    // more tokens than the curve ever handed out would drain real reserves
    assert_eq!(
        f.sell(mint, bought * 2, 0, creator()).unwrap_err(),
        Error::InsufficientLiquidity
    );
    let quote = f.calculate_sell(mint, bought / 2).unwrap();
    assert_eq!(
        f.sell(mint, bought / 2, quote + 1, creator()).unwrap_err(),
        Error::SlippageExceeded
    );
    let before = f.get_token_launch(mint).unwrap().real_cspr_reserves;
    let r = f.sell(mint, bought / 2, quote, creator()).unwrap();
    assert_eq!(r.transfers[0], Transfer { to: creator(), amount: quote });
    assert_eq!(r.transfers.len(), 4);
    let gross = r.transfers.iter().map(|t| t.amount).sum::<u128>()
        + (f.get_token_launch(mint).unwrap().creator_fees_unclaimed - 2_000_000)
        + (f.get_token_launch(mint).unwrap().stories_fees_unclaimed - 1_000_000);
    assert_eq!(f.get_token_launch(mint).unwrap().real_cspr_reserves, before - gross);
}

#[test]
fn graduation_is_one_way() {
    let mut f = TokenFactory::with_config(config_with(5_000_000_000, 10));
    let mint = create(&mut f, None, NOW);
    let r = f.buy(mint, 0, account(5), 3_000_000_000).unwrap();
    assert_eq!(r.events.len(), 1);
    assert!(!f.get_token_launch(mint).unwrap().graduated);
    let r = f.buy(mint, 0, account(5), 3_000_000_000).unwrap();
    assert_eq!(r.events.len(), 2);
    match &r.events[1] {
        Event::Graduated(g) => {
            assert_eq!(g.final_mcap_cspr, 5_940_000_000);
            assert_eq!(g.dex_address, None);
        }
        _ => panic!("expected a graduation event"),
    }
    assert!(f.get_token_launch(mint).unwrap().graduated);
    assert_eq!(
        f.buy(mint, 0, account(5), 1_000).unwrap_err(),
        Error::AlreadyGraduated
    );
    assert_eq!(f.sell(mint, 1_000, 0, account(5)).unwrap_err(), Error::AlreadyGraduated);
    f.update_token_info(mint, None, None, None, None, creator(), NOW + 1).unwrap();
    assert!(f.get_token_launch(mint).unwrap().graduated);
}

#[test]
fn creator_claim_is_zero_sum() {
    let mut f = factory();
    let mint = create(&mut f, Some(1_000_000_000), NOW);
    assert_eq!(
        f.claim_creator_fees(mint, account(5)).unwrap_err(),
        Error::Unauthorized
    );
    let r = f.claim_creator_fees(mint, creator()).unwrap();
    assert_eq!(r.transfers, vec![Transfer { to: creator(), amount: 2_000_000 }]);
    match &r.events[0] {
        Event::FeesClaimed(c) => assert_eq!(c.amount, 2_000_000),
        _ => panic!("expected a claim event"),
    }
    assert_eq!(f.get_token_launch(mint).unwrap().creator_fees_unclaimed, 0);
    assert_eq!(
        f.claim_creator_fees(mint, creator()).unwrap_err(),
        Error::NoFeesToClaim
    );
    assert_eq!(
        f.claim_creator_fees(account(99), creator()).unwrap_err(),
        Error::TokenNotFound
    );
}

#[test]
fn stories_claims() {
    let mut f = factory();
    // 3,000 CSPR of buys accrue 3 CSPR of stories fees
    let mint = create(&mut f, Some(3_000_000_000_000), NOW);
    let accrued = f.get_token_launch(mint).unwrap().stories_fees_unclaimed;
    assert_eq!(accrued, 3_000_000_000);
    assert_eq!(
        f.claim_stories_fees(mint, account(6), 10_000_000_000, creator()).unwrap_err(),
        Error::Unauthorized
    );
    assert_eq!(
        f.claim_stories_fees(mint, account(6), 9_999_999_999, platform()).unwrap_err(),
        Error::InsufficientClaimAmount
    );
    assert_eq!(
        f.claim_stories_fees(account(99), account(6), 10_000_000_000, platform()).unwrap_err(),
        Error::TokenNotFound
    );
    assert_eq!(
        f.claim_stories_fees(mint, account(6), 10_000_000_000, platform()).unwrap_err(),
        Error::NoFeesToClaim
    );
    let mint2 = create(&mut f, Some(25_000_000_000_000), NOW);
    let r = f
        .claim_stories_fees(mint2, account(6), 10_000_000_000, platform())
        .unwrap();
    assert_eq!(r.transfers, vec![Transfer { to: account(6), amount: 10_000_000_000 }]);
    assert_eq!(
        f.get_token_launch(mint2).unwrap().stories_fees_unclaimed,
        15_000_000_000
    );
    assert!(f
        .claim_stories_fees(mint2, account(6), 10_000_000_000, platform())
        .is_ok());
    assert_eq!(
        f.claim_stories_fees(mint2, account(6), 10_000_000_000, platform()).unwrap_err(),
        Error::NoFeesToClaim
    );
}

#[test]
fn info_update_merges_given_fields() {
    let mut f = factory();
    let mint = create(&mut f, None, NOW);
    assert_eq!(
        f.update_token_info(mint, None, None, None, None, account(5), NOW)
            .unwrap_err(),
        Error::Unauthorized
    );
    f.update_token_info(
        mint,
        Some("https://site".to_string()),
        Some("tg".to_string()),
        None,
        None,
        creator(),
        NOW + 5,
    )
    .unwrap();
    let r = f
        .update_token_info(mint, None, None, Some("tw".to_string()), None, creator(), NOW + 9)
        .unwrap();
    match &r.events[0] {
        Event::InfoUpdated(u) => {
            assert_eq!(u.twitter.as_deref(), Some("tw"));
            assert_eq!(u.website, None);
        }
        _ => panic!("expected an update event"),
    }
    let l = f.get_token_launch(mint).unwrap();
    assert_eq!(l.website.as_deref(), Some("https://site"));
    assert_eq!(l.telegram.as_deref(), Some("tg"));
    assert_eq!(l.twitter.as_deref(), Some("tw"));
    assert_eq!(l.banner_uri, None);
    assert_eq!(l.last_activity, NOW + 9);
}

#[test]
fn price_and_quotes_of_unknown_launch() {
    let f = factory();
    assert_eq!(f.get_price(account(99)).unwrap_err(), Error::TokenNotFound);
    assert_eq!(f.calculate_buy(account(99), 10).unwrap_err(), Error::TokenNotFound);
    assert_eq!(f.calculate_sell(account(99), 10).unwrap_err(), Error::TokenNotFound);
}

#[test]
fn default_burn_address_is_zero() {
    let f = TokenFactory::init(platform(), stories(), screener(), None);
    assert_eq!(f.config().burn_cspr_address, Address::zero());
    assert_eq!(f.config().graduation_target, 100_000_000_000_000);
    assert_eq!(f.config().cto_price, 1_000_000_000_000);
    assert_eq!(f.config().cto_inactivity_period, 7_776_000);
    assert_eq!(f.config().min_holders_for_cto, 10);
}
