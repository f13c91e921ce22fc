use vstd::prelude::*;
use crate::address::Address;

verus! {

/// A token-holding record: which asset it holds, who may move it, and how much.
#[derive(Clone, Copy, Debug)]
pub struct TokenAccount {
    pub address: Address,
    pub mint: Address,
    pub owner: Address,
    pub amount: u64,
}

/// A registered bond market.
#[derive(Clone, Debug)]
pub struct MarketState {
    pub admin: Address,
    /// Derived signer that owns the market's vaults.
    pub market_authority: Address,
    pub bond_mint: Address,
    pub quote_mint: Address,
    pub issuer_name: String,
    pub maturity_timestamp: i64,
    pub coupon_rate_bps: u16,
    pub is_matured: bool,
    pub market_bump: u8,
    pub market_authority_bump: u8,
}

/// The pool record of a market.
#[derive(Clone, Copy, Debug)]
pub struct AmmState {
    /// The market this pool trades.
    pub market: Address,
    /// Bump of the pool record's own derived address.
    pub amm_bump: u8,
}

/// Marker of a claimed coupon period.
#[derive(Clone, Copy, Debug, Default)]
pub struct CouponClaimState {
    /// The period for which the coupon was claimed.
    pub claim_period: u8,
    /// Bump of the claim record's derived address.
    pub bump: u8,
}

} // verus!
