//! Error taxonomy: local validation errors raised by the handlers themselves,
//! and failures of the surrounding ledger that the handlers propagate.

use vstd::prelude::*;

verus! {

/// Validation errors of this program: a metadata field exceeds its bound.
#[derive(Clone, Copy, Debug, PartialEq, Eq)]
pub enum TokenCreatorError {
    /// The token name exceeds its permitted length.
    TokenNameTooLong,
    /// The token symbol exceeds its permitted length.
    TokenSymbolTooLong,
    /// The token URI exceeds its permitted length.
    TokenUriTooLong,
    /// A metadata field is otherwise unacceptable (empty name, symbol or
    /// URI).
    InvalidTokenMetadata,
}

/// Failures of the ledger environment that abort a transaction: they are
/// reported to the caller unmodified.
#[derive(Clone, Copy, Debug, PartialEq, Eq)]
pub enum LedgerError {
    /// A referenced record (mint or wallet) does not exist on the ledger.
    AccountNotFound,
    /// A record with the given key already exists, so it cannot be created.
    AccountAlreadyExists,
    /// The signer is not the authority recorded on the mint.
    AuthorityMismatch,
    /// The payer cannot cover a required ledger-currency transfer.
    InsufficientFunds,
    /// Minting would overflow the token supply or a holding balance.
    SupplyOverflow,
}

/// Everything an instruction handler can fail with: its own validation
/// errors, or a propagated ledger failure.
#[derive(Clone, Copy, Debug, PartialEq, Eq)]
pub enum TokenError {
    Creator(TokenCreatorError),
    Ledger(LedgerError),
}

} // verus!
