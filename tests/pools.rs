use screener_contracts::types::{Address, Error, Event, Transfer};
use screener_contracts::TokenFactory;

fn account(n: u128) -> Address {
    Address { hi: 0, lo: n }
}

const NOW: u64 = 1_700_000_000;

fn setup() -> TokenFactory {
    TokenFactory::init(account(1), account(2), account(3), Some(account(9)))
}

fn token() -> Address {
    Address { hi: 7, lo: 7 }
}

#[test]
fn pool_creation_rules() {
    let mut f = setup();
    assert_eq!(
        f.create_pool_existing(token(), 1_000, account(5), 1_000, NOW).unwrap_err(),
        Error::Unauthorized
    );
    assert_eq!(
        f.create_pool_existing(token(), 1_000, account(1), 0, NOW).unwrap_err(),
        Error::InitialBuyTooLow
    );
    assert!(f.get_pool(token()).is_none());
    f.create_pool_existing(token(), 2_000_000, account(1), 1_000_000, NOW).unwrap();
    let p = f.get_pool(token()).unwrap();
    assert_eq!(p.cspr_reserves, 1_000_000);
    assert_eq!(p.token_reserves, 2_000_000);
    assert_eq!(p.total_volume_cspr, 0);
    assert_eq!(p.cto_owner, None);
    assert_eq!(p.created_at, NOW);
    assert_eq!(
        f.create_pool_existing(token(), 1_000, account(1), 1_000, NOW).unwrap_err(),
        Error::TokenAlreadyExists
    );
}

#[test]
fn pool_records_owner_at_creation() {
    let mut f = setup();
    let price = f.config().cto_price;
    f.claim_cto_existing(token(), account(6), price, NOW).unwrap();
    f.create_pool_existing(token(), 2_000_000, account(1), 1_000_000, NOW).unwrap();
    assert_eq!(f.get_pool(token()).unwrap().cto_owner, Some(account(6)));
}

#[test]
fn takeover_of_existing_token() {
    let mut f = setup();
    let price = f.config().cto_price;
    assert_eq!(
        f.claim_cto_existing(token(), account(6), price - 1, NOW).unwrap_err(),
        Error::CTOPriceTooLow
    );
    let r = f.claim_cto_existing(token(), account(6), price, NOW).unwrap();
    assert_eq!(r.transfers, vec![Transfer { to: account(1), amount: price }]);
    match &r.events[0] {
        Event::CtoExecuted(e) => {
            assert_eq!(e.old_creator, Address::zero());
            assert_eq!(e.new_creator, account(6));
        }
        _ => panic!("expected a takeover event"),
    }
    assert!(f.has_cto_access(token(), account(6)));
    assert!(!f.has_cto_access(token(), account(5)));
    assert!(!f.has_cto_access(account(99), account(6)));
    assert_eq!(
        f.claim_cto_existing(token(), account(5), price, NOW).unwrap_err(),
        Error::CTOAlreadyClaimed
    );
    let c = f.get_cto_ownership(token()).unwrap();
    assert_eq!(c.cto_owner, account(6));
    assert_eq!(c.fees_unclaimed, 0);
}

#[test]
fn swap_without_owner_routes_creator_share_to_platform() {
    let mut f = setup();
    f.create_pool_existing(token(), 1_000_000, account(1), 1_000, NOW).unwrap();
    assert_eq!(
        f.swap_cspr_for_existing(token(), 0, account(5), 0, NOW).unwrap_err(),
        Error::InitialBuyTooLow
    );
    assert_eq!(
        f.swap_cspr_for_existing(account(99), 0, account(5), 100, NOW).unwrap_err(),
        Error::PoolNotFound
    );
    let quote = f.calculate_swap_cspr_to_token(token(), 10_000).unwrap();
    assert_eq!(
        f.swap_cspr_for_existing(token(), quote + 1, account(5), 10_000, NOW).unwrap_err(),
        Error::SlippageExceeded
    );
    let r = f.swap_cspr_for_existing(token(), quote, account(5), 10_000, NOW).unwrap();
    // fee 100: platform 50, burn 10, secondary 10, creator 20, stories 10
    assert_eq!(
        r.transfers,
        vec![
            Transfer { to: account(1), amount: 50 },
            Transfer { to: account(9), amount: 10 },
            Transfer { to: account(1), amount: 10 },
            Transfer { to: account(1), amount: 20 },
            Transfer { to: account(2), amount: 10 },
        ]
    );
    // net 9_900 into 1_000 x 1_000_000: 1e9 / 10_900 = 91_743
    assert_eq!(quote, 1_000_000 - 91_743);
    let p = f.get_pool(token()).unwrap();
    assert_eq!(p.cspr_reserves, 10_900);
    assert_eq!(p.token_reserves, 91_743);
    assert_eq!(p.total_volume_cspr, 10_000);
}

#[test]
fn swaps_accrue_to_owner_and_owner_claims() {
    let mut f = setup();
    let price = f.config().cto_price;
    f.claim_cto_existing(token(), account(6), price, NOW).unwrap();
    f.create_pool_existing(token(), 1_000_000, account(1), 1_000, NOW).unwrap();
    let r = f.swap_cspr_for_existing(token(), 0, account(5), 10_000, NOW + 3).unwrap();
    assert_eq!(r.transfers.len(), 4);
    let c = f.get_cto_ownership(token()).unwrap();
    assert_eq!(c.fees_unclaimed, 20);
    assert_eq!(c.last_activity, NOW + 3);

    assert_eq!(
        f.swap_existing_for_cspr(token(), 0, 0, account(5), NOW).unwrap_err(),
        Error::InsufficientTokens
    );
    assert_eq!(
        f.swap_existing_for_cspr(account(99), 5, 0, account(5), NOW).unwrap_err(),
        Error::PoolNotFound
    );
    let quote = f.calculate_swap_token_to_cspr(token(), 500_000).unwrap();
    assert_eq!(
        f.swap_existing_for_cspr(token(), 500_000, quote + 1, account(5), NOW).unwrap_err(),
        Error::SlippageExceeded
    );
    let r = f.swap_existing_for_cspr(token(), 500_000, quote, account(5), NOW + 4).unwrap();
    assert_eq!(r.transfers[0], Transfer { to: account(5), amount: quote });
    // 10_900 x 91_743 = 999_998_700; / 591_743 = 1_689; gross 9_211; fee 92
    assert_eq!(quote, 9_211 - 92);
    let p = f.get_pool(token()).unwrap();
    assert_eq!(p.cspr_reserves, 1_689);
    assert_eq!(p.token_reserves, 591_743);
    assert_eq!(p.total_volume_cspr, 10_000 + 9_211);
    // creator share of 92 is 18
    assert_eq!(f.get_cto_ownership(token()).unwrap().fees_unclaimed, 38);

    assert_eq!(
        f.claim_cto_fees_existing(token(), account(5)).unwrap_err(),
        Error::Unauthorized
    );
    let r = f.claim_cto_fees_existing(token(), account(6)).unwrap();
    assert_eq!(r.transfers, vec![Transfer { to: account(6), amount: 38 }]);
    assert_eq!(f.get_cto_ownership(token()).unwrap().fees_unclaimed, 0);
    assert_eq!(
        f.claim_cto_fees_existing(token(), account(6)).unwrap_err(),
        Error::NoFeesToClaim
    );
    assert_eq!(
        f.claim_cto_fees_existing(account(99), account(6)).unwrap_err(),
        Error::TokenNotFound
    );
}

#[test]
fn empty_pool_cannot_hand_out_tokens() {
    let mut f = setup();
    f.create_pool_existing(token(), 0, account(1), 1_000, NOW).unwrap();
    assert_eq!(
        f.swap_cspr_for_existing(token(), 0, account(5), 1_000, NOW).unwrap_err(),
        Error::InsufficientLiquidity
    );
    assert_eq!(f.calculate_swap_cspr_to_token(token(), 1_000).unwrap(), 0);
    assert_eq!(
        f.calculate_swap_cspr_to_token(account(99), 1_000).unwrap_err(),
        Error::PoolNotFound
    );
    assert_eq!(
        f.calculate_swap_token_to_cspr(token(), 0).unwrap_err(),
        Error::InsufficientLiquidity
    );
}
