use bond_market::address::{
    derive_authority, find_bond_vault_address, find_pool_address, find_quote_vault_address,
    verify_authority, Address,
};
use bond_market::amm::{
    handle_initialize_amm, handle_swap, initialize_amm, swap, InitializeAmm, PoolRegistry, Swap,
};
use bond_market::error::{AmmError, CustomError};
use bond_market::factory::{create_market, handler, CreateMarket};
use bond_market::state::{MarketState, TokenAccount};

fn addr(b: u8) -> Address {
    Address::new([b; 32])
}

fn program() -> Address {
    addr(7)
}

fn new_market(name: &str) -> (Address, MarketState) {
    let ctx = CreateMarket { admin: addr(1), bond_mint: addr(2), quote_mint: addr(3) };
    handler(&ctx, &program(), name.to_string(), 1_900_000_000, 500).unwrap()
}

fn vaults_of(market_address: &Address) -> (Address, Address) {
    let (pool, _) = find_pool_address(&program(), market_address).unwrap();
    let (bond, _) = find_bond_vault_address(&program(), &pool).unwrap();
    let (quote, _) = find_quote_vault_address(&program(), &pool).unwrap();
    (bond, quote)
}

fn token(address: u8, mint: &Address, owner: &Address, amount: u64) -> TokenAccount {
    TokenAccount { address: addr(address), mint: *mint, owner: *owner, amount }
}

fn swap_accounts(quote: u64, bond: u64, user_quote: u64, user_bond: u64) -> Swap {
    let (market_address, market) = new_market("ACME");
    let user = addr(9);
    let authority = market.market_authority;
    let (bond_vault, quote_vault) = vaults_of(&market_address);
    Swap {
        user,
        market_address,
        market_authority: authority,
        user_bond_ata: token(20, &market.bond_mint, &user, user_bond),
        user_quote_ata: token(21, &market.quote_mint, &user, user_quote),
        bond_vault: TokenAccount { address: bond_vault, mint: market.bond_mint, owner: authority, amount: bond },
        quote_vault: TokenAccount { address: quote_vault, mint: market.quote_mint, owner: authority, amount: quote },
        market,
    }
}

fn balances(s: &Swap) -> [u64; 4] {
    [s.user_quote_ata.amount, s.quote_vault.amount, s.bond_vault.amount, s.user_bond_ata.amount]
}

#[test]
fn created_market_copies_fields() {
    let (address, market) = new_market("ACME");
    assert_eq!(market.admin.bytes, [1; 32]);
    assert_eq!(market.bond_mint.bytes, [2; 32]);
    assert_eq!(market.quote_mint.bytes, [3; 32]);
    assert_eq!(market.issuer_name, "ACME");
    assert_eq!(market.maturity_timestamp, 1_900_000_000);
    assert_eq!(market.coupon_rate_bps, 500);
    assert!(!market.is_matured);
    assert!(market.market_bump >= 1);
    assert!(market.market_authority_bump >= 1);
    assert!(!address.same(&market.market_authority));
}

#[test]
fn created_authority_rederives_from_stored_bump() {
    let (address, market) = new_market("ACME");
    let derived = derive_authority(&program(), &address, market.market_authority_bump).unwrap();
    assert_eq!(derived.bytes, market.market_authority.bytes);
    assert!(!derived.same(&address));
    assert!(verify_authority(&program(), &address, market.market_authority_bump, &market.market_authority));
    assert!(!verify_authority(&program(), &address, market.market_authority_bump, &address));
}

#[test]
fn authority_depends_on_program() {
    let (address, market) = new_market("ACME");
    let other = addr(8);
    assert!(!verify_authority(&other, &address, market.market_authority_bump, &market.market_authority));
}

#[test]
fn markets_of_different_issuers_differ() {
    let (a, ma) = new_market("ACME");
    let (b, mb) = new_market("GLOBEX");
    assert!(!a.same(&b));
    assert!(!ma.market_authority.same(&mb.market_authority));
}

#[test]
fn market_creation_is_deterministic() {
    let (a, ma) = new_market("ACME");
    let (b, mb) = new_market("ACME");
    assert_eq!(a.bytes, b.bytes);
    assert_eq!(ma.market_authority.bytes, mb.market_authority.bytes);
    assert_eq!(ma.market_bump, mb.market_bump);
}

#[test]
fn issuer_name_too_long_is_refused() {
    let ctx = CreateMarket { admin: addr(1), bond_mint: addr(2), quote_mint: addr(3) };
    let name = "x".repeat(51);
    let r = create_market(&ctx, &program(), name, 0, 0);
    assert_eq!(r.err(), Some(CustomError::IssuerNameTooLong));
}

#[test]
fn issuer_name_longer_than_a_seed_cannot_be_derived() {
    let ctx = CreateMarket { admin: addr(1), bond_mint: addr(2), quote_mint: addr(3) };
    let r = create_market(&ctx, &program(), "y".repeat(50), 0, 0);
    assert_eq!(r.err(), Some(CustomError::DerivationFailed));
    let r = create_market(&ctx, &program(), "z".repeat(32), 0, 0);
    assert!(r.is_ok());
}

#[test]
fn quote_to_bond_swap_moves_both_legs() {
    let mut s = swap_accounts(1_000_000, 1_000_000, 50_000, 0);
    let r = handle_swap(&mut s, &program(), 10_000, true);
    assert_eq!(r, Ok(9_877));
    assert_eq!(balances(&s), [40_000, 1_010_000, 990_123, 9_877]);
}

#[test]
fn bond_to_quote_swap_moves_both_legs() {
    let mut s = swap_accounts(1_000_000, 1_000_000, 0, 50_000);
    let r = swap(&mut s, &program(), 10_000, false);
    assert_eq!(r, Ok(9_877));
    assert_eq!(balances(&s), [9_877, 990_123, 1_010_000, 40_000]);
}

#[test]
fn swaps_on_equal_balances_pay_the_same() {
    let mut a = swap_accounts(300_000, 700_000, 50_000, 0);
    let mut b = swap_accounts(300_000, 700_000, 90_000, 5);
    assert_eq!(handle_swap(&mut a, &program(), 1_234, true), handle_swap(&mut b, &program(), 1_234, true));
}

#[test]
fn swap_with_wrong_authority_changes_nothing() {
    let mut s = swap_accounts(1_000_000, 1_000_000, 50_000, 0);
    s.market_authority = addr(4);
    s.market.market_authority = addr(4);
    s.bond_vault.owner = addr(4);
    let r = handle_swap(&mut s, &program(), 10_000, true);
    assert_eq!(r, Err(AmmError::AuthorityMismatch));
    assert_eq!(balances(&s), [50_000, 1_000_000, 1_000_000, 0]);
}

#[test]
fn swap_with_wrong_bump_changes_nothing() {
    let mut s = swap_accounts(1_000_000, 1_000_000, 50_000, 0);
    s.market.market_authority_bump = s.market.market_authority_bump.wrapping_sub(1);
    let r = handle_swap(&mut s, &program(), 10_000, true);
    assert_eq!(r, Err(AmmError::AuthorityMismatch));
    assert_eq!(balances(&s), [50_000, 1_000_000, 1_000_000, 0]);
}

#[test]
fn swap_beyond_user_balance_changes_nothing() {
    let mut s = swap_accounts(1_000_000, 1_000_000, 5_000, 0);
    let r = handle_swap(&mut s, &program(), 10_000, true);
    assert_eq!(r, Err(AmmError::TransferFailed));
    assert_eq!(balances(&s), [5_000, 1_000_000, 1_000_000, 0]);
}

#[test]
fn swap_from_foreign_account_changes_nothing() {
    let mut s = swap_accounts(1_000_000, 1_000_000, 50_000, 0);
    s.user_quote_ata.owner = addr(5);
    let r = handle_swap(&mut s, &program(), 10_000, true);
    assert_eq!(r, Err(AmmError::TransferFailed));
    assert_eq!(balances(&s), [50_000, 1_000_000, 1_000_000, 0]);
}

#[test]
fn outbound_leg_refused_changes_nothing() {
    let mut s = swap_accounts(1_000_000, 1_000_000, 50_000, 0);
    s.user_bond_ata.mint = addr(6);
    let r = handle_swap(&mut s, &program(), 10_000, true);
    assert_eq!(r, Err(AmmError::TransferFailed));
    assert_eq!(balances(&s), [50_000, 1_000_000, 1_000_000, 0]);
}

#[test]
fn swap_against_empty_quote_vault_is_no_trade() {
    let mut s = swap_accounts(0, 1_000_000, 0, 50_000);
    let r = handle_swap(&mut s, &program(), 10_000, false);
    assert_eq!(r, Err(AmmError::ZeroOutput));
    assert_eq!(balances(&s), [0, 0, 1_000_000, 50_000]);
}

#[test]
fn swap_into_empty_pool_with_nothing_is_arithmetic_fault() {
    let mut s = swap_accounts(0, 0, 50_000, 50_000);
    let r = handle_swap(&mut s, &program(), 0, true);
    assert_eq!(r, Err(AmmError::ArithmeticFault));
    assert_eq!(balances(&s), [50_000, 0, 0, 50_000]);
}

#[test]
fn near_max_amount_against_near_max_vault_aborts() {
    let mut s = swap_accounts(u64::MAX - 10, u64::MAX - 10, u64::MAX - 5, 0);
    let r = handle_swap(&mut s, &program(), u64::MAX - 5, true);
    assert_eq!(r, Err(AmmError::ArithmeticFault));
    assert_eq!(balances(&s), [u64::MAX - 5, u64::MAX - 10, u64::MAX - 10, 0]);
}

fn init_accounts() -> InitializeAmm {
    let (market_address, market) = new_market("ACME");
    let (bond_vault, quote_vault) = vaults_of(&market_address);
    InitializeAmm {
        admin: addr(1),
        market_address,
        market_authority: market.market_authority,
        bond_vault,
        quote_vault,
        market,
    }
}

#[test]
fn initialize_pool_twice_fails_the_second_time() {
    let mut registry = PoolRegistry::new();
    let ctx = init_accounts();
    let first = handle_initialize_amm(&mut registry, &ctx, &program());
    let address = first.unwrap();
    assert_eq!(registry.pools.len(), 1);
    registry.pools[0].quote_vault.amount = 777;
    let second = initialize_amm(&mut registry, &ctx, &program());
    assert_eq!(second.err(), Some(AmmError::AlreadyExists));
    assert_eq!(registry.pools.len(), 1);
    assert_eq!(registry.pools[0].quote_vault.amount, 777);
    assert_eq!(registry.pools[0].bond_vault.amount, 0);
    assert!(registry.contains(&address));
}

#[test]
fn initialized_pool_has_empty_vaults_owned_by_authority() {
    let mut registry = PoolRegistry::new();
    let ctx = init_accounts();
    let address = handle_initialize_amm(&mut registry, &ctx, &program()).unwrap();
    let pool = &registry.pools[0];
    assert_eq!(pool.address.bytes, address.bytes);
    assert_eq!(pool.state.market.bytes, ctx.market_address.bytes);
    assert!(pool.state.amm_bump >= 1);
    assert_eq!(pool.bond_vault.amount, 0);
    assert_eq!(pool.quote_vault.amount, 0);
    assert_eq!(pool.bond_vault.owner.bytes, ctx.market.market_authority.bytes);
    assert_eq!(pool.quote_vault.owner.bytes, ctx.market.market_authority.bytes);
    assert_eq!(pool.bond_vault.mint.bytes, [2; 32]);
    assert_eq!(pool.quote_vault.mint.bytes, [3; 32]);
    assert!(!address.same(&ctx.market_address));
}

#[test]
fn pools_of_different_markets_coexist() {
    let mut registry = PoolRegistry::new();
    let ctx = init_accounts();
    let (market_address, market) = new_market("GLOBEX");
    let (bond_vault, quote_vault) = vaults_of(&market_address);
    let other = InitializeAmm {
        admin: addr(1),
        market_address,
        market_authority: market.market_authority,
        bond_vault,
        quote_vault,
        market,
    };
    assert!(handle_initialize_amm(&mut registry, &ctx, &program()).is_ok());
    assert!(handle_initialize_amm(&mut registry, &other, &program()).is_ok());
    assert_eq!(registry.pools.len(), 2);
}

#[test]
fn initialize_with_wrong_authority_is_refused() {
    let mut registry = PoolRegistry::new();
    let mut ctx = init_accounts();
    ctx.market_authority = addr(4);
    let r = handle_initialize_amm(&mut registry, &ctx, &program());
    assert_eq!(r.err(), Some(AmmError::AuthorityMismatch));
    assert_eq!(registry.pools.len(), 0);
}

#[test]
fn address_comparison_is_bytewise() {
    let a = addr(1);
    let mut bytes = [1u8; 32];
    assert!(a.same(&Address::new(bytes)));
    bytes[31] = 2;
    assert!(!a.same(&Address::new(bytes)));
}

#[test]
fn swap_against_foreign_quote_vault_is_refused() {
    let mut s = swap_accounts(1_000_000, 1_000_000, 50_000, 0);
    s.quote_vault.address = addr(40);
    s.quote_vault.amount = 0;
    let r = handle_swap(&mut s, &program(), 10_000, false);
    assert_eq!(r, Err(AmmError::VaultMismatch));
    assert_eq!(balances(&s), [50_000, 0, 1_000_000, 0]);
}

#[test]
fn swap_against_vault_of_wrong_owner_is_refused() {
    let mut s = swap_accounts(1_000_000, 1_000_000, 50_000, 0);
    s.bond_vault.owner = addr(9);
    let r = handle_swap(&mut s, &program(), 10_000, true);
    assert_eq!(r, Err(AmmError::VaultMismatch));
    assert_eq!(balances(&s), [50_000, 1_000_000, 1_000_000, 0]);
}

#[test]
fn swap_against_vault_of_wrong_asset_is_refused() {
    let mut s = swap_accounts(1_000_000, 1_000_000, 50_000, 0);
    s.quote_vault.mint = addr(2);
    s.user_quote_ata.mint = addr(2);
    let r = handle_swap(&mut s, &program(), 10_000, true);
    assert_eq!(r, Err(AmmError::VaultMismatch));
    assert_eq!(balances(&s), [50_000, 1_000_000, 1_000_000, 0]);
}

#[test]
fn initialize_with_foreign_vault_address_is_refused() {
    let mut registry = PoolRegistry::new();
    let mut ctx = init_accounts();
    ctx.bond_vault = addr(30);
    let r = handle_initialize_amm(&mut registry, &ctx, &program());
    assert_eq!(r.err(), Some(AmmError::VaultMismatch));
    assert_eq!(registry.pools.len(), 0);
}

#[test]
fn vault_addresses_are_derived_from_the_pool() {
    let (market_address, _) = new_market("ACME");
    let (pool, bump) = find_pool_address(&program(), &market_address).unwrap();
    assert!(bump >= 1);
    let (bond, quote) = vaults_of(&market_address);
    assert!(!bond.same(&quote));
    assert!(!bond.same(&pool));
    assert!(!quote.same(&pool));
    let (bond_again, quote_again) = vaults_of(&market_address);
    assert!(bond.same(&bond_again));
    assert!(quote.same(&quote_again));
}
