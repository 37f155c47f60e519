//! A model of a token-creation program: a ledger of mint records, holding
//! accounts and fee-paying wallets, with two instruction handlers — creating
//! a fungible token with metadata written on its mint record, and minting
//! units of it to a recipient. Each handler either performs its whole effect
//! or fails with a named error and leaves the ledger exactly as it was.

use vstd::prelude::*;

pub mod create_token;
pub mod errors;
pub mod mint_tokens;
pub mod state;
pub mod utils;

use crate::create_token::{
    create_token_handler, spec_args_valid, spec_create_token_cost, spec_created_mint, CreateToken,
    CreateTokenArgs,
};
use crate::errors::{LedgerError, TokenCreatorError, TokenError};
use crate::mint_tokens::{mint_tokens_handler, MintTokens};
use crate::state::{
    has_holding, has_mint, has_wallet, holding_idx, mint_idx, wallet_idx, HoldingAccount, Ledger,
    MintRecord, Wallet, MAX_NAME_LEN, MAX_SYMBOL_LEN, MAX_URI_LEN,
};
use crate::utils::mint_rent_exempt;

verus! {

/// Entry point of the create-token operation; delegates to
/// `create_token_handler` and promises the same outcome.
pub fn create_token(ledger: &mut Ledger, accounts: CreateToken, args: CreateTokenArgs) -> (r:
    Result<(), TokenError>)
    requires
        old(ledger).wf(),
    ensures
        final(ledger).wf(),
        r == Err::<(), TokenError>(TokenError::Creator(TokenCreatorError::TokenNameTooLong))
            <==> args.name@.len() > MAX_NAME_LEN,
        r == Err::<(), TokenError>(TokenError::Creator(TokenCreatorError::TokenSymbolTooLong))
            <==> (args.name@.len() <= MAX_NAME_LEN && args.symbol@.len() > MAX_SYMBOL_LEN),
        r == Err::<(), TokenError>(TokenError::Creator(TokenCreatorError::TokenUriTooLong)) <==> (
        args.name@.len() <= MAX_NAME_LEN && args.symbol@.len() <= MAX_SYMBOL_LEN
            && args.uri@.len() > MAX_URI_LEN),
        r == Err::<(), TokenError>(TokenError::Ledger(LedgerError::AccountAlreadyExists)) <==> (
        spec_args_valid(args) && has_mint(old(ledger).mints@, accounts.mint)),
        r == Err::<(), TokenError>(TokenError::Ledger(LedgerError::AccountNotFound)) <==> (
        spec_args_valid(args) && !has_mint(old(ledger).mints@, accounts.mint) && !has_wallet(
            old(ledger).wallets@,
            accounts.creator,
        )),
        r == Err::<(), TokenError>(TokenError::Ledger(LedgerError::InsufficientFunds)) <==> (
        spec_args_valid(args) && !has_mint(old(ledger).mints@, accounts.mint) && has_wallet(
            old(ledger).wallets@,
            accounts.creator,
        ) && old(ledger).wallets@[wallet_idx(old(ledger).wallets@, accounts.creator)].lamports
            < spec_create_token_cost(old(ledger).rent, args)),
        r is Ok <==> (spec_args_valid(args) && !has_mint(old(ledger).mints@, accounts.mint)
            && has_wallet(old(ledger).wallets@, accounts.creator) && old(ledger).wallets@[
        wallet_idx(old(ledger).wallets@, accounts.creator)].lamports >= spec_create_token_cost(
            old(ledger).rent,
            args,
        )),
        r is Err ==> *final(ledger) == *old(ledger),
        r is Ok ==> ({
            let cost = spec_create_token_cost(old(ledger).rent, args);
            let wi = wallet_idx(old(ledger).wallets@, accounts.creator);
            let w = old(ledger).wallets@[wi];
            &&& final(ledger).mints@ == old(ledger).mints@.push(
                spec_created_mint(accounts, args, old(ledger).rent),
            )
            &&& final(ledger).holdings@ == old(ledger).holdings@.push(
                (HoldingAccount { holder: accounts.creator, mint: accounts.mint, balance: 0 }),
            )
            &&& final(ledger).wallets@ == old(ledger).wallets@.update(
                wi,
                (Wallet { lamports: (w.lamports - cost) as u64, ..w }),
            )
            &&& final(ledger).rent == old(ledger).rent
        }),
        r is Ok ==> has_mint(final(ledger).mints@, accounts.mint) && mint_rent_exempt(
            *final(ledger),
            accounts.mint,
        ),
{
    create_token_handler(ledger, accounts, args)
}

/// Entry point of the mint-tokens operation; delegates to
/// `mint_tokens_handler` and promises the same outcome.
pub fn mint_tokens(ledger: &mut Ledger, accounts: MintTokens, amount: u64) -> (r: Result<
    (),
    TokenError,
>)
    requires
        old(ledger).wf(),
    ensures
        final(ledger).wf(),
        r == Err::<(), TokenError>(TokenError::Ledger(LedgerError::AccountNotFound)) <==> !has_mint(
            old(ledger).mints@,
            accounts.mint,
        ),
        r == Err::<(), TokenError>(TokenError::Ledger(LedgerError::AuthorityMismatch)) <==> (
        has_mint(old(ledger).mints@, accounts.mint) && old(ledger).mints@[mint_idx(
            old(ledger).mints@,
            accounts.mint,
        )].mint_authority != accounts.authority),
        (has_mint(old(ledger).mints@, accounts.mint) && old(ledger).mints@[mint_idx(
            old(ledger).mints@,
            accounts.mint,
        )].mint_authority == accounts.authority) ==> ({
            let mi = mint_idx(old(ledger).mints@, accounts.mint);
            let m = old(ledger).mints@[mi];
            let existing = has_holding(old(ledger).holdings@, accounts.recipient, accounts.mint);
            let hi = holding_idx(old(ledger).holdings@, accounts.recipient, accounts.mint);
            let balance0: int = if existing {
                old(ledger).holdings@[hi].balance as int
            } else {
                0
            };
            &&& (r == Err::<(), TokenError>(TokenError::Ledger(LedgerError::SupplyOverflow)) <==>
            m.supply + amount > u64::MAX)
            &&& (r is Ok <==> m.supply + amount <= u64::MAX)
            &&& r is Ok ==> {
                &&& final(ledger).mints@ == old(ledger).mints@.update(
                    mi,
                    (MintRecord { supply: (m.supply + amount) as u64, ..m }),
                )
                &&& existing ==> final(ledger).holdings@ == old(ledger).holdings@.update(
                    hi,
                    (HoldingAccount {
                        balance: (balance0 + amount) as u64,
                        ..old(ledger).holdings@[hi]
                    }),
                )
                &&& !existing ==> final(ledger).holdings@ == old(ledger).holdings@.push(
                    (HoldingAccount {
                        holder: accounts.recipient,
                        mint: accounts.mint,
                        balance: amount,
                    }),
                )
                &&& final(ledger).wallets@ == old(ledger).wallets@
                &&& final(ledger).rent == old(ledger).rent
            }
        }),
        r is Err ==> *final(ledger) == *old(ledger),
{
    mint_tokens_handler(ledger, accounts, amount)
}

} // verus!
