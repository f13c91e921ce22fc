use vstd::prelude::*;

verus! {

/// Failures of the pool and swap operations.
#[derive(Clone, Copy, Debug, PartialEq, Eq, Structural)]
pub enum AmmError {
    /// The presented authority is not the address derived from the market and its bump.
    AuthorityMismatch,
    /// Overflow, underflow or division by zero in pricing or in crediting a balance.
    ArithmeticFault,
    /// A transfer leg was refused: wrong owner, wrong mint or insufficient balance.
    TransferFailed,
    /// The swap would pay out nothing; it is refused rather than executed.
    ZeroOutput,
    /// A vault presented is not the pool's own: wrong address, owner or asset.
    VaultMismatch,
    /// The pool record for this market, or one of its vaults, already exists.
    AlreadyExists,
    /// No canonical program address exists for the seeds.
    DerivationFailed,
}

/// Failures of market creation.
#[derive(Clone, Copy, Debug, PartialEq, Eq, Structural)]
pub enum CustomError {
    /// The issuer name is longer than the bound on its length.
    IssuerNameTooLong,
    /// No canonical program address exists for the market's seeds.
    DerivationFailed,
}

} // verus!
