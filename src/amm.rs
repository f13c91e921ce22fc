use vstd::prelude::*;
use crate::address::{
    Address, amm_seeds, authority_valid, canonical_find, find_bond_vault_address,
    find_pool_address, find_quote_vault_address, pool_address, vault_addresses,
    verify_authority,
};
use crate::error::AmmError;
use crate::pricing::{quote_swap, swap_result};
use crate::state::{AmmState, MarketState, TokenAccount};

verus! {

/// The accounts a swap reads and moves: the market, its re-derived authority, the
/// trader's two token accounts and the pool's two vaults.
pub struct Swap {
    pub user: Address,
    pub market_address: Address,
    pub market: MarketState,
    pub market_authority: Address,
    pub user_bond_ata: TokenAccount,
    pub user_quote_ata: TokenAccount,
    pub bond_vault: TokenAccount,
    pub quote_vault: TokenAccount,
}

/// Outcome of moving `amount` from `from` to `to` under the signature of `signer`.
pub open spec fn leg_outcome(from: TokenAccount, to: TokenAccount, signer: Seq<u8>, amount: nat) -> Result<
    (),
    AmmError,
> {
    if from.owner@ != signer || from.mint@ != to.mint@ || (from.amount as nat) < amount {
        Err(AmmError::TransferFailed)
    } else if to.amount as nat + amount > u64::MAX {
        Err(AmmError::ArithmeticFault)
    } else {
        Ok(())
    }
}

/// The presented authority is the market's stored authority and re-derives from it.
pub open spec fn swap_authority_ok(s: Swap, program_id: Seq<u8>) -> bool {
    &&& s.market_authority@ == s.market.market_authority@
    &&& authority_valid(
        program_id,
        s.market_address@,
        s.market.market_authority_bump,
        s.market_authority@,
    )
}

/// Both vaults are the pool's own: at the addresses derived from the market's pool, owned
/// by the market's authority, and holding the market's bond and quote assets.
pub open spec fn swap_vaults_ok(s: Swap, program_id: Seq<u8>) -> bool {
    &&& vault_addresses(program_id, s.market_address@) == Some(
        (s.bond_vault.address@, s.quote_vault.address@),
    )
    &&& s.bond_vault.owner@ == s.market.market_authority@
    &&& s.quote_vault.owner@ == s.market.market_authority@
    &&& s.bond_vault.mint@ == s.market.bond_mint@
    &&& s.quote_vault.mint@ == s.market.quote_mint@
}

/// What a swap returns: authority first, then the pool's vaults, then pricing, then the inbound leg, then the
/// refusal of an empty payout, then the outbound leg.
pub open spec fn swap_outcome(s: Swap, program_id: Seq<u8>, amount_in: u64, swap_for_bond: bool) -> Result<
    u64,
    AmmError,
> {
    if !swap_authority_ok(s, program_id) {
        Err(AmmError::AuthorityMismatch)
    } else if !swap_vaults_ok(s, program_id) {
        Err(AmmError::VaultMismatch)
    } else {
        match swap_result(
            s.quote_vault.amount as nat,
            s.bond_vault.amount as nat,
            amount_in as nat,
            swap_for_bond,
        ) {
            None => Err(AmmError::ArithmeticFault),
            Some(n) => {
                let (user_src, vault_src, vault_dst, user_dst) = if swap_for_bond {
                    (s.user_quote_ata, s.quote_vault, s.bond_vault, s.user_bond_ata)
                } else {
                    (s.user_bond_ata, s.bond_vault, s.quote_vault, s.user_quote_ata)
                };
                match leg_outcome(user_src, vault_src, s.user@, amount_in as nat) {
                    Err(e) => Err(e),
                    Ok(_) => if n == 0 {
                        Err(AmmError::ZeroOutput)
                    } else {
                        match leg_outcome(vault_dst, user_dst, s.market_authority@, n) {
                            Err(e) => Err(e),
                            Ok(_) => Ok(n as u64),
                        }
                    },
                }
            },
        }
    }
}

pub open spec fn credited(a: TokenAccount, amount: int) -> TokenAccount {
    TokenAccount { amount: (a.amount + amount) as u64, ..a }
}

/// The accounts after both legs of a swap that paid out `n`.
pub open spec fn swap_applied(s: Swap, amount_in: u64, n: u64, swap_for_bond: bool) -> Swap {
    if swap_for_bond {
        Swap {
            user_quote_ata: credited(s.user_quote_ata, -amount_in),
            quote_vault: credited(s.quote_vault, amount_in as int),
            bond_vault: credited(s.bond_vault, -n),
            user_bond_ata: credited(s.user_bond_ata, n as int),
            ..s
        }
    } else {
        Swap {
            user_bond_ata: credited(s.user_bond_ata, -amount_in),
            bond_vault: credited(s.bond_vault, amount_in as int),
            quote_vault: credited(s.quote_vault, -n),
            user_quote_ata: credited(s.user_quote_ata, n as int),
            ..s
        }
    }
}

/// Decides whether the presented vaults are the pool's own.
fn check_vaults(s: &Swap, program_id: &Address) -> (r: bool)
    ensures
        r == swap_vaults_ok(*s, program_id@),
{
    let pool = match find_pool_address(program_id, &s.market_address) {
        Some((p, _)) => p,
        None => return false,
    };
    let bond = match find_bond_vault_address(program_id, &pool) {
        Some((v, _)) => v,
        None => return false,
    };
    let quote = match find_quote_vault_address(program_id, &pool) {
        Some((v, _)) => v,
        None => return false,
    };
    bond.same(&s.bond_vault.address) && quote.same(&s.quote_vault.address)
        && s.bond_vault.owner.same(&s.market.market_authority) && s.quote_vault.owner.same(
        &s.market.market_authority,
    ) && s.bond_vault.mint.same(&s.market.bond_mint) && s.quote_vault.mint.same(
        &s.market.quote_mint,
    )
}

/// Decides whether a transfer leg would go through, without moving anything. It follows
/// the token program's checks on a plain transfer: the signer must be the owner (a delegate's
/// approval is not modelled, so a delegate-signed leg is refused), the assets must match,
/// the balance must cover the amount and the credit must not overflow. Frozen accounts are
/// not modelled; the token program refuses those when the transfer is made.
fn check_leg(from: &TokenAccount, to: &TokenAccount, signer: &Address, amount: u64) -> (r: Result<
    (),
    AmmError,
>)
    ensures
        r == leg_outcome(*from, *to, signer@, amount as nat),
{
    if !from.owner.same(signer) || !from.mint.same(&to.mint) || from.amount < amount {
        Err(AmmError::TransferFailed)
    } else if to.amount > u64::MAX - amount {
        Err(AmmError::ArithmeticFault)
    } else {
        Ok(())
    }
}

/// Sells `amount_in` of quote for bond (`swap_for_bond`) or of bond for quote at the
/// constant-product price less the fee. Every check is made before any balance moves, so
/// the two legs happen together or not at all.
pub fn handle_swap(ctx: &mut Swap, program_id: &Address, amount_in: u64, swap_for_bond: bool) -> (r:
    Result<u64, AmmError>)
    ensures
        r == swap_outcome(*old(ctx), program_id@, amount_in, swap_for_bond),
        r is Ok ==> *final(ctx) == swap_applied(*old(ctx), amount_in, r->Ok_0, swap_for_bond),
        r is Err ==> *final(ctx) == *old(ctx),
        r is Ok ==> r->Ok_0 > 0 && swap_authority_ok(*old(ctx), program_id@),
        r is Ok && swap_for_bond ==> {
            &&& final(ctx).quote_vault.amount == old(ctx).quote_vault.amount + amount_in
            &&& final(ctx).bond_vault.amount == old(ctx).bond_vault.amount - r->Ok_0
            &&& final(ctx).user_quote_ata.amount == old(ctx).user_quote_ata.amount - amount_in
            &&& final(ctx).user_bond_ata.amount == old(ctx).user_bond_ata.amount + r->Ok_0
        },
        r is Ok && !swap_for_bond ==> {
            &&& final(ctx).bond_vault.amount == old(ctx).bond_vault.amount + amount_in
            &&& final(ctx).quote_vault.amount == old(ctx).quote_vault.amount - r->Ok_0
            &&& final(ctx).user_bond_ata.amount == old(ctx).user_bond_ata.amount - amount_in
            &&& final(ctx).user_quote_ata.amount == old(ctx).user_quote_ata.amount + r->Ok_0
        },
{
    if !ctx.market_authority.same(&ctx.market.market_authority) || !verify_authority(
        program_id,
        &ctx.market_address,
        ctx.market.market_authority_bump,
        &ctx.market_authority,
    ) {
        return Err(AmmError::AuthorityMismatch);
    }
    if !check_vaults(ctx, program_id) {
        return Err(AmmError::VaultMismatch);
    }
    let n = match quote_swap(ctx.quote_vault.amount, ctx.bond_vault.amount, amount_in, swap_for_bond) {
        Ok(n) => n,
        Err(e) => return Err(e),
    };
    if swap_for_bond {
        match check_leg(&ctx.user_quote_ata, &ctx.quote_vault, &ctx.user, amount_in) {
            Ok(_) => {},
            Err(e) => return Err(e),
        }
        if n == 0 {
            return Err(AmmError::ZeroOutput);
        }
        match check_leg(&ctx.bond_vault, &ctx.user_bond_ata, &ctx.market_authority, n) {
            Ok(_) => {},
            Err(e) => return Err(e),
        }
        ctx.user_quote_ata.amount = ctx.user_quote_ata.amount - amount_in;
        ctx.quote_vault.amount = ctx.quote_vault.amount + amount_in;
        ctx.bond_vault.amount = ctx.bond_vault.amount - n;
        ctx.user_bond_ata.amount = ctx.user_bond_ata.amount + n;
    } else {
        match check_leg(&ctx.user_bond_ata, &ctx.bond_vault, &ctx.user, amount_in) {
            Ok(_) => {},
            Err(e) => return Err(e),
        }
        if n == 0 {
            return Err(AmmError::ZeroOutput);
        }
        match check_leg(&ctx.quote_vault, &ctx.user_quote_ata, &ctx.market_authority, n) {
            Ok(_) => {},
            Err(e) => return Err(e),
        }
        ctx.user_bond_ata.amount = ctx.user_bond_ata.amount - amount_in;
        ctx.bond_vault.amount = ctx.bond_vault.amount + amount_in;
        ctx.quote_vault.amount = ctx.quote_vault.amount - n;
        ctx.user_quote_ata.amount = ctx.user_quote_ata.amount + n;
    }
    Ok(n)
}

/// Swaps through the pool; see [`handle_swap`].
pub fn swap(ctx: &mut Swap, program_id: &Address, amount_in: u64, swap_for_bond: bool) -> (r: Result<
    u64,
    AmmError,
>)
    ensures
        r == swap_outcome(*old(ctx), program_id@, amount_in, swap_for_bond),
        r is Ok ==> *final(ctx) == swap_applied(*old(ctx), amount_in, r->Ok_0, swap_for_bond),
        r is Err ==> *final(ctx) == *old(ctx),
{
    handle_swap(ctx, program_id, amount_in, swap_for_bond)
}

} // verus!

verus! {

/// The accounts of a pool initialization: the market, its authority, and the addresses
/// of the two new vaults, which must be the ones derived from the pool's address.
pub struct InitializeAmm {
    pub admin: Address,
    pub market_address: Address,
    pub market: MarketState,
    pub market_authority: Address,
    pub bond_vault: Address,
    pub quote_vault: Address,
}

/// A pool record together with its two vaults.
#[derive(Clone, Copy, Debug)]
pub struct Pool {
    pub address: Address,
    pub state: AmmState,
    pub bond_vault: TokenAccount,
    pub quote_vault: TokenAccount,
}

/// The pool and vault records that exist, each at its derived address.
pub struct PoolRegistry {
    pub pools: Vec<Pool>,
}

/// Some record (a pool or one of its vaults) exists at `address`.
pub open spec fn record_at(pools: Seq<Pool>, address: Seq<u8>) -> bool {
    exists|i: int|
        0 <= i < pools.len() && ((#[trigger] pools[i]).address@ == address
            || pools[i].bond_vault.address@ == address || pools[i].quote_vault.address@ == address)
}

pub open spec fn init_authority_ok(ctx: InitializeAmm, program_id: Seq<u8>) -> bool {
    &&& ctx.market_authority@ == ctx.market.market_authority@
    &&& authority_valid(
        program_id,
        ctx.market_address@,
        ctx.market.market_authority_bump,
        ctx.market_authority@,
    )
}

/// What initializing the pool of `ctx`'s market returns, given the records that exist:
/// authority first, then the pool's derived address and whether it is taken, then the
/// vaults' derived addresses, whether they are the ones presented, and whether they are taken.
pub open spec fn init_outcome(pools: Seq<Pool>, ctx: InitializeAmm, program_id: Seq<u8>) -> Result<
    Seq<u8>,
    AmmError,
> {
    if !init_authority_ok(ctx, program_id) {
        Err(AmmError::AuthorityMismatch)
    } else {
        match pool_address(program_id, ctx.market_address@) {
            None => Err(AmmError::DerivationFailed),
            Some(p) => if record_at(pools, p) {
                Err(AmmError::AlreadyExists)
            } else {
                match vault_addresses(program_id, ctx.market_address@) {
                    None => Err(AmmError::DerivationFailed),
                    Some((bv, qv)) => if bv != ctx.bond_vault@ || qv != ctx.quote_vault@ {
                        Err(AmmError::VaultMismatch)
                    } else if record_at(pools, bv) || record_at(pools, qv) {
                        Err(AmmError::AlreadyExists)
                    } else {
                        Ok(p)
                    },
                }
            },
        }
    }
}

pub open spec fn address_result_view(r: Result<Address, AmmError>) -> Result<Seq<u8>, AmmError> {
    match r {
        Ok(a) => Ok(a@),
        Err(e) => Err(e),
    }
}

/// The pool made for `ctx` at `address` with `bump`: bound to the market, both vaults
/// empty and owned by the market's authority.
pub open spec fn new_pool(ctx: InitializeAmm, address: Address, bump: u8) -> Pool {
    Pool {
        address,
        state: AmmState { market: ctx.market_address, amm_bump: bump },
        bond_vault: TokenAccount {
            address: ctx.bond_vault,
            mint: ctx.market.bond_mint,
            owner: ctx.market.market_authority,
            amount: 0,
        },
        quote_vault: TokenAccount {
            address: ctx.quote_vault,
            mint: ctx.market.quote_mint,
            owner: ctx.market.market_authority,
            amount: 0,
        },
    }
}

impl PoolRegistry {
    pub fn new() -> (r: PoolRegistry)
        ensures
            r.pools@.len() == 0,
    {
        PoolRegistry { pools: Vec::new() }
    }

    /// Whether a pool or vault record exists at `address`.
    pub fn contains(&self, address: &Address) -> (r: bool)
        ensures
            r == record_at(self.pools@, address@),
    {
        let mut i: usize = 0;
        while i < self.pools.len()
            invariant
                0 <= i <= self.pools@.len(),
                forall|j: int|
                    0 <= j < i ==> (#[trigger] self.pools@[j]).address@ != address@
                        && self.pools@[j].bond_vault.address@ != address@
                        && self.pools@[j].quote_vault.address@ != address@,
            decreases self.pools@.len() - i,
        {
            let p = &self.pools[i];
            if p.address.same(address) || p.bond_vault.address.same(address)
                || p.quote_vault.address.same(address) {
                return true;
            }
            i = i + 1;
        }
        false
    }
}

/// Creates the pool of a market at its derived address, with two empty vaults at the
/// addresses derived from the pool's, owned by the market's authority. A record that
/// already exists is never overwritten.
pub fn handle_initialize_amm(registry: &mut PoolRegistry, ctx: &InitializeAmm, program_id: &Address) -> (r:
    Result<Address, AmmError>)
    ensures
        address_result_view(r) == init_outcome(old(registry).pools@, *ctx, program_id@),
        r matches Ok(a) ==> exists|b: u8|
            canonical_find(amm_seeds(ctx.market_address@), program_id@, Some((a, b)))
                && final(registry).pools@ == old(registry).pools@.push(new_pool(*ctx, a, b)),
        r is Err ==> final(registry).pools@ == old(registry).pools@,
{
    if !ctx.market_authority.same(&ctx.market.market_authority) || !verify_authority(
        program_id,
        &ctx.market_address,
        ctx.market.market_authority_bump,
        &ctx.market_authority,
    ) {
        return Err(AmmError::AuthorityMismatch);
    }
    let (address, bump) = match find_pool_address(program_id, &ctx.market_address) {
        Some(found) => found,
        None => return Err(AmmError::DerivationFailed),
    };
    if registry.contains(&address) {
        return Err(AmmError::AlreadyExists);
    }
    let bond_vault = match find_bond_vault_address(program_id, &address) {
        Some((v, _)) => v,
        None => return Err(AmmError::DerivationFailed),
    };
    let quote_vault = match find_quote_vault_address(program_id, &address) {
        Some((v, _)) => v,
        None => return Err(AmmError::DerivationFailed),
    };
    if !bond_vault.same(&ctx.bond_vault) || !quote_vault.same(&ctx.quote_vault) {
        return Err(AmmError::VaultMismatch);
    }
    if registry.contains(&bond_vault) || registry.contains(&quote_vault) {
        return Err(AmmError::AlreadyExists);
    }
    let pool = Pool {
        address,
        state: AmmState { market: ctx.market_address, amm_bump: bump },
        bond_vault: TokenAccount {
            address: ctx.bond_vault,
            mint: ctx.market.bond_mint,
            owner: ctx.market.market_authority,
            amount: 0,
        },
        quote_vault: TokenAccount {
            address: ctx.quote_vault,
            mint: ctx.market.quote_mint,
            owner: ctx.market.market_authority,
            amount: 0,
        },
    };
    registry.pools.push(pool);
    proof {
        assert(registry.pools@ =~= old(registry).pools@.push(new_pool(*ctx, address, bump)));
    }
    Ok(address)
}

/// Initializes the pool of a market; see [`handle_initialize_amm`].
pub fn initialize_amm(registry: &mut PoolRegistry, ctx: &InitializeAmm, program_id: &Address) -> (r:
    Result<Address, AmmError>)
    ensures
        address_result_view(r) == init_outcome(old(registry).pools@, *ctx, program_id@),
        r matches Ok(a) ==> exists|b: u8|
            canonical_find(amm_seeds(ctx.market_address@), program_id@, Some((a, b)))
                && final(registry).pools@ == old(registry).pools@.push(new_pool(*ctx, a, b)),
        r is Err ==> final(registry).pools@ == old(registry).pools@,
{
    handle_initialize_amm(registry, ctx, program_id)
}

} // verus!

verus! {

/// The payout of a successful swap is fixed by the two vault balances, the amount and the
/// direction: any two account sets that agree on the vault balances and both go through pay
/// out the same amount.
pub proof fn lemma_swap_deterministic(
    s1: Swap,
    s2: Swap,
    program_id: Seq<u8>,
    amount_in: u64,
    swap_for_bond: bool,
)
    requires
        s1.quote_vault.amount == s2.quote_vault.amount,
        s1.bond_vault.amount == s2.bond_vault.amount,
        swap_outcome(s1, program_id, amount_in, swap_for_bond) is Ok,
        swap_outcome(s2, program_id, amount_in, swap_for_bond) is Ok,
    ensures
        swap_outcome(s1, program_id, amount_in, swap_for_bond) == swap_outcome(
            s2,
            program_id,
            amount_in,
            swap_for_bond,
        ),
{
}

/// Selling bond into a pool whose quote vault is empty is refused as a trade that pays
/// nothing, once the authority, the vaults and the inbound leg are in order.
pub proof fn lemma_empty_quote_vault_refused(s: Swap, program_id: Seq<u8>, amount_in: u64)
    requires
        swap_authority_ok(s, program_id),
        swap_vaults_ok(s, program_id),
        s.quote_vault.amount == 0,
        s.bond_vault.amount + amount_in > 0,
        leg_outcome(s.user_bond_ata, s.bond_vault, s.user@, amount_in as nat) is Ok,
    ensures
        swap_outcome(s, program_id, amount_in, false) == Err::<u64, AmmError>(AmmError::ZeroOutput),
{
    crate::pricing::lemma_empty_quote_reserve_pays_nothing(
        s.bond_vault.amount as nat,
        amount_in as nat,
    );
}

/// An amount that would push the receiving vault past the largest balance aborts the swap
/// with an arithmetic fault; nothing wraps.
pub proof fn lemma_vault_overflow_aborts(
    s: Swap,
    program_id: Seq<u8>,
    amount_in: u64,
    swap_for_bond: bool,
)
    requires
        swap_authority_ok(s, program_id),
        swap_vaults_ok(s, program_id),
        swap_for_bond ==> {
            &&& s.user_quote_ata.owner@ == s.user@
            &&& s.user_quote_ata.mint@ == s.quote_vault.mint@
            &&& s.user_quote_ata.amount >= amount_in
            &&& s.quote_vault.amount + amount_in > u64::MAX
        },
        !swap_for_bond ==> {
            &&& s.user_bond_ata.owner@ == s.user@
            &&& s.user_bond_ata.mint@ == s.bond_vault.mint@
            &&& s.user_bond_ata.amount >= amount_in
            &&& s.bond_vault.amount + amount_in > u64::MAX
        },
    ensures
        swap_outcome(s, program_id, amount_in, swap_for_bond) == Err::<u64, AmmError>(
            AmmError::ArithmeticFault,
        ),
{
}

} // verus!
