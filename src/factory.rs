use vstd::prelude::*;
use vstd::utf8::encode_utf8;
use crate::address::{
    Address, authority_seeds, authority_valid, canonical_find, find_authority,
    find_market_address, market_seeds,
};
use crate::amm::{Swap, swap_authority_ok};
use crate::error::CustomError;
use crate::state::MarketState;

verus! {

/// Longest issuer name, in bytes.
pub const MAX_ISSUER_NAME_LEN: usize = 50;

/// Longest seed the ledger accepts, in bytes.
pub const MAX_SEED_LEN: usize = 32;

/// The accounts of a market creation: the creating admin and the two assets.
pub struct CreateMarket {
    pub admin: Address,
    pub bond_mint: Address,
    pub quote_mint: Address,
}

/// The bytes of an issuer name, as used in the market's seeds.
pub open spec fn name_bytes(name: Seq<char>) -> Seq<u8> {
    encode_utf8(name)
}

/// `address` and `m` are what creating a market from these arguments yields.
pub open spec fn market_created(
    ctx: CreateMarket,
    program_id: Seq<u8>,
    issuer_name: Seq<char>,
    maturity_timestamp: i64,
    coupon_rate_bps: u16,
    address: Address,
    m: MarketState,
) -> bool {
    &&& name_bytes(issuer_name).len() <= MAX_ISSUER_NAME_LEN
    &&& canonical_find(market_seeds(name_bytes(issuer_name)), program_id, Some((address, m.market_bump)))
    &&& canonical_find(
        authority_seeds(address@),
        program_id,
        Some((m.market_authority, m.market_authority_bump)),
    )
    &&& m.admin == ctx.admin
    &&& m.bond_mint == ctx.bond_mint
    &&& m.quote_mint == ctx.quote_mint
    &&& m.issuer_name@ == issuer_name
    &&& m.maturity_timestamp == maturity_timestamp
    &&& m.coupon_rate_bps == coupon_rate_bps
    &&& !m.is_matured
}

/// Creates a market record: checks the issuer name's length, derives the market's address
/// from its name and the market's signing authority from that address, and stores both
/// bumps so that either can be re-derived later. The ledger takes seeds of at most 32
/// bytes, so a name of 33 to 50 bytes passes the length check and then fails with
/// `DerivationFailed`.
pub fn handler(
    ctx: &CreateMarket,
    program_id: &Address,
    issuer_name: String,
    maturity_timestamp: i64,
    coupon_rate_bps: u16,
) -> (r: Result<(Address, MarketState), CustomError>)
    ensures
        r == Err::<(Address, MarketState), CustomError>(CustomError::IssuerNameTooLong) <==> name_bytes(
            issuer_name@,
        ).len() > MAX_ISSUER_NAME_LEN,
        r == Err::<(Address, MarketState), CustomError>(CustomError::DerivationFailed) <==> {
            &&& name_bytes(issuer_name@).len() <= MAX_ISSUER_NAME_LEN
            &&& (canonical_find(market_seeds(name_bytes(issuer_name@)), program_id@, None) || exists|
                a: Address,
                b: u8,
            |
                canonical_find(market_seeds(name_bytes(issuer_name@)), program_id@, Some((a, b)))
                    && canonical_find(authority_seeds(a@), program_id@, None))
        },
        MAX_SEED_LEN < name_bytes(issuer_name@).len() <= MAX_ISSUER_NAME_LEN ==> r == Err::<
            (Address, MarketState),
            CustomError,
        >(CustomError::DerivationFailed),
        r matches Ok((a, m)) ==> market_created(
            *ctx,
            program_id@,
            issuer_name@,
            maturity_timestamp,
            coupon_rate_bps,
            a,
            m,
        ),
{
    let text = issuer_name.as_str();
    let raw = text.as_bytes();
    proof {
        assert(raw@ == name_bytes(issuer_name@));
    }
    if raw.len() > MAX_ISSUER_NAME_LEN {
        return Err(CustomError::IssuerNameTooLong);
    }
    let name = crate::address::bytes_of(raw);
    let (address, market_bump) = match find_market_address(program_id, &name) {
        Some(found) => found,
        None => {
            proof {
                assert forall|a: Address, b: u8|
                    !canonical_find(
                        market_seeds(name_bytes(issuer_name@)),
                        program_id@,
                        Some((a, b)),
                    ) by {
                    if canonical_find(
                        market_seeds(name_bytes(issuer_name@)),
                        program_id@,
                        Some((a, b)),
                    ) {
                        assert(crate::address::program_address_of(
                            crate::address::with_bump(market_seeds(name_bytes(issuer_name@)), b),
                            program_id@,
                        ) is None);
                    }
                }
            }
            return Err(CustomError::DerivationFailed);
        },
    };
    proof {
        crate::address::lemma_canonical_unique(
            market_seeds(name_bytes(issuer_name@)),
            program_id@,
            address,
            market_bump,
        );
    }
    let (authority, authority_bump) = match find_authority(program_id, &address) {
        Some(found) => found,
        None => {
            proof {
                assert(canonical_find(
                    market_seeds(name_bytes(issuer_name@)),
                    program_id@,
                    Some((address, market_bump)),
                ));
            }
            return Err(CustomError::DerivationFailed);
        },
    };
    proof {
        crate::address::lemma_canonical_unique(
            authority_seeds(address@),
            program_id@,
            authority,
            authority_bump,
        );
        assert forall|a: Address, b: u8|
            canonical_find(market_seeds(name_bytes(issuer_name@)), program_id@, Some((a, b)))
                implies !canonical_find(authority_seeds(a@), program_id@, None) by {
            assert(a@ == address@);
        }
    }
    let market = MarketState {
        admin: ctx.admin,
        market_authority: authority,
        bond_mint: ctx.bond_mint,
        quote_mint: ctx.quote_mint,
        issuer_name,
        maturity_timestamp,
        coupon_rate_bps,
        is_matured: false,
        market_bump,
        market_authority_bump: authority_bump,
    };
    Ok((address, market))
}

/// Creates a bond market; see [`handler`].
pub fn create_market(
    ctx: &CreateMarket,
    program_id: &Address,
    issuer_name: String,
    maturity_timestamp: i64,
    coupon_rate_bps: u16,
) -> (r: Result<(Address, MarketState), CustomError>)
    ensures
        r == Err::<(Address, MarketState), CustomError>(CustomError::IssuerNameTooLong) <==> name_bytes(
            issuer_name@,
        ).len() > MAX_ISSUER_NAME_LEN,
        r == Err::<(Address, MarketState), CustomError>(CustomError::DerivationFailed) <==> {
            &&& name_bytes(issuer_name@).len() <= MAX_ISSUER_NAME_LEN
            &&& (canonical_find(market_seeds(name_bytes(issuer_name@)), program_id@, None) || exists|
                a: Address,
                b: u8,
            |
                canonical_find(market_seeds(name_bytes(issuer_name@)), program_id@, Some((a, b)))
                    && canonical_find(authority_seeds(a@), program_id@, None))
        },
        MAX_SEED_LEN < name_bytes(issuer_name@).len() <= MAX_ISSUER_NAME_LEN ==> r == Err::<
            (Address, MarketState),
            CustomError,
        >(CustomError::DerivationFailed),
        r matches Ok((a, m)) ==> market_created(
            *ctx,
            program_id@,
            issuer_name@,
            maturity_timestamp,
            coupon_rate_bps,
            a,
            m,
        ),
{
    handler(ctx, program_id, issuer_name, maturity_timestamp, coupon_rate_bps)
}

} // verus!

verus! {

/// A market's authority, as created, re-derives bit for bit from the market's address and
/// its stored bump, so the accounts of a swap on that market pass the authority check.
pub proof fn lemma_created_authority_rederives(
    ctx: CreateMarket,
    program_id: Seq<u8>,
    issuer_name: Seq<char>,
    maturity_timestamp: i64,
    coupon_rate_bps: u16,
    address: Address,
    m: MarketState,
    s: Swap,
)
    requires
        market_created(ctx, program_id, issuer_name, maturity_timestamp, coupon_rate_bps, address, m),
        s.market_address == address,
        s.market == m,
        s.market_authority == m.market_authority,
    ensures
        authority_valid(program_id, address@, m.market_authority_bump, m.market_authority@),
        swap_authority_ok(s, program_id),
{
}

} // verus!
