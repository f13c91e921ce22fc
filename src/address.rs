use vstd::prelude::*;
use anchor_lang::solana_program::pubkey::Pubkey;

verus! {

/// A 32-byte ledger address.
#[derive(Clone, Copy, Debug)]
pub struct Address {
    pub bytes: [u8; 32],
}

impl View for Address {
    type V = Seq<u8>;

    open spec fn view(&self) -> Seq<u8> {
        self.bytes@
    }
}

impl Address {
    pub fn new(bytes: [u8; 32]) -> (r: Address)
        ensures
            r@ == bytes@,
    {
        Address { bytes }
    }

    /// Byte-wise equality of two addresses.
    pub fn same(&self, other: &Address) -> (r: bool)
        ensures
            r == (self@ == other@),
    {
        let mut i: usize = 0;
        while i < 32
            invariant
                0 <= i <= 32,
                self@.len() == 32,
                other@.len() == 32,
                forall|j: int| 0 <= j < i ==> self@[j] == other@[j],
            decreases 32 - i,
        {
            if self.bytes[i] != other.bytes[i] {
                return false;
            }
            i = i + 1;
        }
        assert(self@ =~= other@);
        true
    }
}

/// The program address that the ledger derives from `seeds` under `program_id`, or
/// `None` where the seeds are refused or the hash lies on the curve.
pub uninterp spec fn program_address_of(seeds: Seq<Seq<u8>>, program_id: Seq<u8>) -> Option<
    Seq<u8>,
>;

pub open spec fn seeds_view(seeds: Seq<Vec<u8>>) -> Seq<Seq<u8>> {
    seeds.map_values(|s: Vec<u8>| s@)
}

pub open spec fn address_opt_view(a: Option<Address>) -> Option<Seq<u8>> {
    match a {
        Some(x) => Some(x@),
        None => None,
    }
}

/// `seeds` followed by the one-byte seed `bump`.
pub open spec fn with_bump(seeds: Seq<Seq<u8>>, bump: u8) -> Seq<Seq<u8>> {
    seeds.push(seq![bump])
}

/// Seeds over the ledger's limits: more than sixteen seeds, or a seed longer than 32 bytes.
pub open spec fn seeds_over_limit(seeds: Seq<Seq<u8>>) -> bool {
    seeds.len() > 16 || exists|i: int| 0 <= i < seeds.len() && (#[trigger] seeds[i]).len() > 32
}

/// Relies on `Pubkey::create_program_address`: a pure function of the seeds and the
/// program id, which hashes them and refuses a result on the curve, and refuses seeds over
/// the ledger's limits before hashing.
#[verifier::external_body]
pub(crate) fn create_program_address(seeds: &Vec<Vec<u8>>, program_id: &Address) -> (r: Option<
    Address,
>)
    ensures
        address_opt_view(r) == program_address_of(seeds_view(seeds@), program_id@),
        seeds_over_limit(seeds_view(seeds@)) ==> r is None,
{
    let s: Vec<&[u8]> = seeds.iter().map(|v| v.as_slice()).collect();
    Pubkey::create_program_address(&s, &Pubkey::new_from_array(program_id.bytes)).ok().map(
        |p| Address { bytes: p.to_bytes() },
    )
}

/// What a search for a canonical bump returns: the address and bump with the highest bump
/// from 255 down to 1 that gives an address, or `None` when none does.
pub open spec fn canonical_find(seeds: Seq<Seq<u8>>, program_id: Seq<u8>, r: Option<(Address, u8)>) -> bool {
    match r {
        Some((a, b)) => {
            &&& 1 <= b
            &&& program_address_of(with_bump(seeds, b), program_id) == Some(a@)
            &&& forall|c: u8|
                b < c ==> #[trigger] program_address_of(with_bump(seeds, c), program_id) is None
        },
        None => forall|c: u8|
            1 <= c ==> #[trigger] program_address_of(with_bump(seeds, c), program_id) is None,
    }
}

/// Seeds that the ledger refuses whatever bump follows them: sixteen or more seeds, or a
/// seed longer than 32 bytes.
pub open spec fn seeds_too_long(seeds: Seq<Seq<u8>>) -> bool {
    seeds.len() >= 16 || exists|i: int| 0 <= i < seeds.len() && (#[trigger] seeds[i]).len() > 32
}

/// Relies on `Pubkey::try_find_program_address`: it tries the bump seeds from 255 down
/// to 1 with `create_program_address` and returns the first address found with its bump,
/// or `None` when none of them gives one. Seeds over the ledger's limits (at most 16 seeds
/// with the bump, each at most 32 bytes) stop the search with `None`.
#[verifier::external_body]
pub(crate) fn try_find_program_address(seeds: &Vec<Vec<u8>>, program_id: &Address) -> (r: Option<
    (Address, u8),
>)
    ensures
        canonical_find(seeds_view(seeds@), program_id@, r),
        seeds_too_long(seeds_view(seeds@)) ==> r is None,
{
    let s: Vec<&[u8]> = seeds.iter().map(|v| v.as_slice()).collect();
    Pubkey::try_find_program_address(&s, &Pubkey::new_from_array(program_id.bytes)).map(
        |(p, b)| (Address { bytes: p.to_bytes() }, b),
    )
}

/// Seed tag of a market's signing authority.
pub open spec fn authority_tag() -> Seq<u8> {
    seq![97u8, 117u8, 116u8, 104u8, 111u8, 114u8, 105u8, 116u8, 121u8]
}

/// Seed tag of a market record.
pub open spec fn market_tag() -> Seq<u8> {
    seq![109u8, 97u8, 114u8, 107u8, 101u8, 116u8]
}

/// Seed tag of a pool's bond vault.
pub open spec fn bond_vault_tag() -> Seq<u8> {
    seq![98u8, 111u8, 110u8, 100u8, 95u8, 118u8, 97u8, 117u8, 108u8, 116u8]
}

/// Seed tag of a pool's quote vault.
pub open spec fn quote_vault_tag() -> Seq<u8> {
    seq![113u8, 117u8, 111u8, 116u8, 101u8, 95u8, 118u8, 97u8, 117u8, 108u8, 116u8]
}

/// Seeds of a pool's bond vault before its bump.
pub open spec fn bond_vault_seeds(pool: Seq<u8>) -> Seq<Seq<u8>> {
    seq![bond_vault_tag(), pool]
}

/// Seeds of a pool's quote vault before its bump.
pub open spec fn quote_vault_seeds(pool: Seq<u8>) -> Seq<Seq<u8>> {
    seq![quote_vault_tag(), pool]
}

fn tag_bond_vault() -> (r: Vec<u8>)
    ensures
        r@ == bond_vault_tag(),
{
    let r = vec![98u8, 111u8, 110u8, 100u8, 95u8, 118u8, 97u8, 117u8, 108u8, 116u8];
    assert(r@ =~= bond_vault_tag());
    r
}

fn tag_quote_vault() -> (r: Vec<u8>)
    ensures
        r@ == quote_vault_tag(),
{
    let r = vec![113u8, 117u8, 111u8, 116u8, 101u8, 95u8, 118u8, 97u8, 117u8, 108u8, 116u8];
    assert(r@ =~= quote_vault_tag());
    r
}

/// Seed tag of a pool record.
pub open spec fn amm_tag() -> Seq<u8> {
    seq![97u8, 109u8, 109u8]
}

pub(crate) fn bytes_of(b: &[u8]) -> (r: Vec<u8>)
    ensures
        r@ == b@,
{
    let mut v: Vec<u8> = Vec::new();
    let mut i: usize = 0;
    while i < b.len()
        invariant
            0 <= i <= b@.len(),
            v@ == b@.subrange(0, i as int),
        decreases b@.len() - i,
    {
        v.push(b[i]);
        i = i + 1;
        assert(v@ =~= b@.subrange(0, i as int));
    }
    assert(b@.subrange(0, b@.len() as int) =~= b@);
    v
}

fn tag_authority() -> (r: Vec<u8>)
    ensures
        r@ == authority_tag(),
{
    let r = vec![97u8, 117u8, 116u8, 104u8, 111u8, 114u8, 105u8, 116u8, 121u8];
    assert(r@ =~= authority_tag());
    r
}

fn tag_market() -> (r: Vec<u8>)
    ensures
        r@ == market_tag(),
{
    let r = vec![109u8, 97u8, 114u8, 107u8, 101u8, 116u8];
    assert(r@ =~= market_tag());
    r
}

fn tag_amm() -> (r: Vec<u8>)
    ensures
        r@ == amm_tag(),
{
    let r = vec![97u8, 109u8, 109u8];
    assert(r@ =~= amm_tag());
    r
}

/// Seeds of a market's authority before its bump.
pub open spec fn authority_seeds(market: Seq<u8>) -> Seq<Seq<u8>> {
    seq![authority_tag(), market]
}

/// Seeds of a market record before its bump.
pub open spec fn market_seeds(issuer_name: Seq<u8>) -> Seq<Seq<u8>> {
    seq![market_tag(), issuer_name]
}

/// Seeds of a pool record before its bump.
pub open spec fn amm_seeds(market: Seq<u8>) -> Seq<Seq<u8>> {
    seq![amm_tag(), market]
}

/// The authority of `market` re-derived with a stored `bump` is `authority`.
pub open spec fn authority_valid(
    program_id: Seq<u8>,
    market: Seq<u8>,
    bump: u8,
    authority: Seq<u8>,
) -> bool {
    program_address_of(with_bump(authority_seeds(market), bump), program_id) == Some(authority)
}

fn two_seeds(tag: Vec<u8>, key: Vec<u8>) -> (r: Vec<Vec<u8>>)
    ensures
        seeds_view(r@) == seq![tag@, key@],
{
    let mut r: Vec<Vec<u8>> = Vec::new();
    r.push(tag);
    r.push(key);
    assert(seeds_view(r@) =~= seq![tag@, key@]);
    r
}

/// Re-derives the authority of the market at `market` from a stored bump.
pub fn derive_authority(program_id: &Address, market: &Address, bump: u8) -> (r: Option<Address>)
    ensures
        address_opt_view(r) == program_address_of(
            with_bump(authority_seeds(market@), bump),
            program_id@,
        ),
{
    let mut seeds = two_seeds(tag_authority(), bytes_of(&market.bytes));
    let mut b: Vec<u8> = Vec::new();
    b.push(bump);
    proof {
        assert(b@ =~= seq![bump]);
    }
    seeds.push(b);
    proof {
        assert(seeds_view(seeds@) =~= with_bump(authority_seeds(market@), bump));
    }
    create_program_address(&seeds, program_id)
}

/// Checks that `authority`, with the market's stored bump, is the market's derived signer.
pub fn verify_authority(program_id: &Address, market: &Address, bump: u8, authority: &Address) -> (r:
    bool)
    ensures
        r == authority_valid(program_id@, market@, bump, authority@),
{
    match derive_authority(program_id, market, bump) {
        Some(a) => a.same(authority),
        None => false,
    }
}

/// Finds the canonical authority of the market at `market` and its bump.
pub fn find_authority(program_id: &Address, market: &Address) -> (r: Option<(Address, u8)>)
    ensures
        canonical_find(authority_seeds(market@), program_id@, r),
        found_view(r) == derived_address(authority_seeds(market@), program_id@),
        r matches Some((a, b)) ==> authority_valid(program_id@, market@, b, a@),
{
    let seeds = two_seeds(tag_authority(), bytes_of(&market.bytes));
    let r = try_find_program_address(&seeds, program_id);
    proof {
        lemma_derived_address(authority_seeds(market@), program_id@, r);
    }
    r
}

/// Finds the canonical address of the market of `issuer_name` and its bump.
pub fn find_market_address(program_id: &Address, issuer_name: &Vec<u8>) -> (r: Option<(Address, u8)>)
    ensures
        canonical_find(market_seeds(issuer_name@), program_id@, r),
        found_view(r) == derived_address(market_seeds(issuer_name@), program_id@),
        issuer_name@.len() > 32 ==> r is None,
{
    let seeds = two_seeds(tag_market(), bytes_of(issuer_name.as_slice()));
    proof {
        if issuer_name@.len() > 32 {
            assert(seeds_view(seeds@)[1].len() > 32);
        }
    }
    let r = try_find_program_address(&seeds, program_id);
    proof {
        lemma_derived_address(market_seeds(issuer_name@), program_id@, r);
    }
    r
}

/// Finds the canonical address of the pool of the market at `market` and its bump.
pub fn find_pool_address(program_id: &Address, market: &Address) -> (r: Option<(Address, u8)>)
    ensures
        canonical_find(amm_seeds(market@), program_id@, r),
        found_view(r) == derived_address(amm_seeds(market@), program_id@),
{
    let seeds = two_seeds(tag_amm(), bytes_of(&market.bytes));
    let r = try_find_program_address(&seeds, program_id);
    proof {
        lemma_derived_address(amm_seeds(market@), program_id@, r);
    }
    r
}

/// Finds the canonical address of the bond vault of the pool at `pool` and its bump.
pub fn find_bond_vault_address(program_id: &Address, pool: &Address) -> (r: Option<(Address, u8)>)
    ensures
        canonical_find(bond_vault_seeds(pool@), program_id@, r),
        found_view(r) == derived_address(bond_vault_seeds(pool@), program_id@),
{
    let seeds = two_seeds(tag_bond_vault(), bytes_of(&pool.bytes));
    let r = try_find_program_address(&seeds, program_id);
    proof {
        lemma_derived_address(bond_vault_seeds(pool@), program_id@, r);
    }
    r
}

/// Finds the canonical address of the quote vault of the pool at `pool` and its bump.
pub fn find_quote_vault_address(program_id: &Address, pool: &Address) -> (r: Option<(Address, u8)>)
    ensures
        canonical_find(quote_vault_seeds(pool@), program_id@, r),
        found_view(r) == derived_address(quote_vault_seeds(pool@), program_id@),
{
    let seeds = two_seeds(tag_quote_vault(), bytes_of(&pool.bytes));
    let r = try_find_program_address(&seeds, program_id);
    proof {
        lemma_derived_address(quote_vault_seeds(pool@), program_id@, r);
    }
    r
}

/// The address a canonical search over `seeds` yields, if any.
pub open spec fn derived_address(seeds: Seq<Seq<u8>>, program_id: Seq<u8>) -> Option<Seq<u8>> {
    if exists|a: Address, b: u8| canonical_find(seeds, program_id, Some((a, b))) {
        let (a, b) = choose|a: Address, b: u8| canonical_find(seeds, program_id, Some((a, b)));
        Some(a@)
    } else {
        None
    }
}

pub open spec fn found_view(r: Option<(Address, u8)>) -> Option<Seq<u8>> {
    match r {
        Some((a, _)) => Some(a@),
        None => None,
    }
}

/// The address of the pool of the market at `market`.
pub open spec fn pool_address(program_id: Seq<u8>, market: Seq<u8>) -> Option<Seq<u8>> {
    derived_address(amm_seeds(market), program_id)
}

/// The addresses of the bond and quote vaults of the pool of the market at `market`.
pub open spec fn vault_addresses(program_id: Seq<u8>, market: Seq<u8>) -> Option<(Seq<u8>, Seq<u8>)> {
    match pool_address(program_id, market) {
        Some(p) => match (
            derived_address(bond_vault_seeds(p), program_id),
            derived_address(quote_vault_seeds(p), program_id),
        ) {
            (Some(bv), Some(qv)) => Some((bv, qv)),
            _ => None,
        },
        None => None,
    }
}

/// A canonical search has one answer: any other address and bump it could have returned
/// has the same bump and the same address bytes.
pub proof fn lemma_canonical_unique(seeds: Seq<Seq<u8>>, program_id: Seq<u8>, a: Address, b: u8)
    requires
        canonical_find(seeds, program_id, Some((a, b))),
    ensures
        forall|a2: Address, b2: u8|
            #[trigger] canonical_find(seeds, program_id, Some((a2, b2))) ==> b2 == b && a2@ == a@,
        !canonical_find(seeds, program_id, None),
{
    assert forall|a2: Address, b2: u8|
        #[trigger] canonical_find(seeds, program_id, Some((a2, b2))) implies b2 == b && a2@
        == a@ by {
        if b2 < b {
            assert(program_address_of(with_bump(seeds, b), program_id) is None);
        } else if b < b2 {
            assert(program_address_of(with_bump(seeds, b2), program_id) is None);
        }
    }
    if canonical_find(seeds, program_id, None) {
        assert(program_address_of(with_bump(seeds, b), program_id) is None);
    }
}

/// Whatever a canonical search returned is the derived address.
pub proof fn lemma_derived_address(seeds: Seq<Seq<u8>>, program_id: Seq<u8>, r: Option<(Address, u8)>)
    requires
        canonical_find(seeds, program_id, r),
    ensures
        found_view(r) == derived_address(seeds, program_id),
{
    match r {
        Some((a, b)) => {
            lemma_canonical_unique(seeds, program_id, a, b);
            let (a2, b2) = choose|a2: Address, b2: u8| canonical_find(seeds, program_id, Some((a2, b2)));
            assert(canonical_find(seeds, program_id, Some((a2, b2))));
        },
        None => {
            assert forall|a: Address, b: u8| !canonical_find(seeds, program_id, Some((a, b))) by {
                if canonical_find(seeds, program_id, Some((a, b))) {
                    assert(program_address_of(with_bump(seeds, b), program_id) is None);
                }
            }
        },
    }
}

} // verus!
