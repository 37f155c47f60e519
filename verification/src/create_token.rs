//! The create-token operation: validates metadata lengths, allocates the
//! mint record and the creator's holding account, writes the metadata onto
//! the record, and tops the record up to its eviction-exempt minimum.

use vstd::prelude::*;
use vstd::string::StrSliceExecFns;

use crate::errors::{LedgerError, TokenCreatorError, TokenError};
use crate::state::{
    account_backed, find_mint, find_wallet, has_holding, has_mint, has_wallet,
    lemma_backed_has_mint, lemma_backed_mints_extend, lemma_holding_push_fresh,
    lemma_mint_push_fresh, lemma_wallet_idx_unique, mint_idx, wallet_idx, HoldingAccount, Ledger,
    MintRecord, Rent, Wallet, MAX_NAME_LEN, MAX_RENT_DATA_LEN, MAX_SYMBOL_LEN, MAX_URI_LEN,
    MINT_RECORD_BASE_LEN,
};
use crate::utils::{
    check_metadata_lengths, mint_rent_exempt, update_account_lamports_to_minimum_balance,
};

verus! {

/// Arguments of the create-token operation.
#[derive(Clone, Debug, PartialEq, Eq)]
pub struct CreateTokenArgs {
    /// Token name, accepted up to `MAX_NAME_LEN` characters.
    pub name: String,
    /// Token symbol, accepted up to `MAX_SYMBOL_LEN` characters.
    pub symbol: String,
    /// Token URI, accepted up to `MAX_URI_LEN` characters.
    pub uri: String,
    /// Decimal precision of the new token.
    pub decimals: u8,
}

/// The identities the create-token operation references: the signing
/// creator, who pays and becomes every authority, and the freshly
/// generated co-signing identity of the new mint record.
#[derive(Clone, Copy, Debug, PartialEq, Eq)]
pub struct CreateToken {
    /// The signing creator.
    pub creator: u64,
    /// Identity of the mint record to create.
    pub mint: u64,
}

/// Every metadata field of the request respects its length bound.
pub open spec fn spec_args_valid(args: CreateTokenArgs) -> bool {
    &&& args.name@.len() <= MAX_NAME_LEN
    &&& args.symbol@.len() <= MAX_SYMBOL_LEN
    &&& args.uri@.len() <= MAX_URI_LEN
}

/// Ledger currency the creation costs: the eviction-exempt minimum of a
/// mint record whose stored size includes the requested metadata.
pub open spec fn spec_create_token_cost(rent: Rent, args: CreateTokenArgs) -> int {
    rent.spec_minimum_balance(
        MINT_RECORD_BASE_LEN + args.name@.len() + args.symbol@.len() + args.uri@.len(),
    )
}

/// The mint record a successful creation leaves on the ledger: the
/// requested metadata and decimals, every authority the creator, the
/// metadata pointer on the record itself, no supply yet, and exactly the
/// eviction-exempt minimum as balance.
pub open spec fn spec_created_mint(
    accounts: CreateToken,
    args: CreateTokenArgs,
    rent: Rent,
) -> MintRecord {
    MintRecord {
        key: accounts.mint,
        decimals: args.decimals,
        mint_authority: accounts.creator,
        freeze_authority: accounts.creator,
        close_authority: accounts.creator,
        metadata_pointer: accounts.mint,
        name: args.name,
        symbol: args.symbol,
        uri: args.uri,
        lamports: spec_create_token_cost(rent, args) as u64,
        supply: 0,
    }
}

/// Creates a new token: checks each metadata length in turn, allocates the
/// mint record with the creator as every authority, allocates the
/// creator's holding account, writes the metadata, and transfers the
/// eviction-exempt minimum from the creator. Any failure leaves the ledger
/// exactly as it was.
pub fn create_token_handler(
    ledger: &mut Ledger,
    accounts: CreateToken,
    args: CreateTokenArgs,
) -> (r: Result<(), TokenError>)
    requires
        old(ledger).wf(),
    ensures
        final(ledger).wf(),
        r == Err::<(), TokenError>(TokenError::Creator(TokenCreatorError::TokenNameTooLong))
            <==> args.name@.len() > MAX_NAME_LEN,
        r == Err::<(), TokenError>(TokenError::Creator(TokenCreatorError::TokenSymbolTooLong))
            <==> (args.name@.len() <= MAX_NAME_LEN && args.symbol@.len() > MAX_SYMBOL_LEN),
        r == Err::<(), TokenError>(TokenError::Creator(TokenCreatorError::TokenUriTooLong)) <==> (
        args.name@.len() <= MAX_NAME_LEN && args.symbol@.len() <= MAX_SYMBOL_LEN
            && args.uri@.len() > MAX_URI_LEN),
        r == Err::<(), TokenError>(TokenError::Ledger(LedgerError::AccountAlreadyExists)) <==> (
        spec_args_valid(args) && has_mint(old(ledger).mints@, accounts.mint)),
        r == Err::<(), TokenError>(TokenError::Ledger(LedgerError::AccountNotFound)) <==> (
        spec_args_valid(args) && !has_mint(old(ledger).mints@, accounts.mint) && !has_wallet(
            old(ledger).wallets@,
            accounts.creator,
        )),
        r == Err::<(), TokenError>(TokenError::Ledger(LedgerError::InsufficientFunds)) <==> (
        spec_args_valid(args) && !has_mint(old(ledger).mints@, accounts.mint) && has_wallet(
            old(ledger).wallets@,
            accounts.creator,
        ) && old(ledger).wallets@[wallet_idx(old(ledger).wallets@, accounts.creator)].lamports
            < spec_create_token_cost(old(ledger).rent, args)),
        r is Ok <==> (spec_args_valid(args) && !has_mint(old(ledger).mints@, accounts.mint)
            && has_wallet(old(ledger).wallets@, accounts.creator) && old(ledger).wallets@[
        wallet_idx(old(ledger).wallets@, accounts.creator)].lamports >= spec_create_token_cost(
            old(ledger).rent,
            args,
        )),
        r is Err ==> *final(ledger) == *old(ledger),
        r is Ok ==> ({
            let cost = spec_create_token_cost(old(ledger).rent, args);
            let wi = wallet_idx(old(ledger).wallets@, accounts.creator);
            let w = old(ledger).wallets@[wi];
            &&& final(ledger).mints@ == old(ledger).mints@.push(
                spec_created_mint(accounts, args, old(ledger).rent),
            )
            &&& final(ledger).holdings@ == old(ledger).holdings@.push(
                (HoldingAccount { holder: accounts.creator, mint: accounts.mint, balance: 0 }),
            )
            &&& final(ledger).wallets@ == old(ledger).wallets@.update(
                wi,
                (Wallet { lamports: (w.lamports - cost) as u64, ..w }),
            )
            &&& final(ledger).rent == old(ledger).rent
        }),
        r is Ok ==> has_mint(final(ledger).mints@, accounts.mint) && mint_rent_exempt(
            *final(ledger),
            accounts.mint,
        ),
{
    match check_metadata_lengths(args.name.as_str(), args.symbol.as_str(), args.uri.as_str()) {
        Ok(()) => {},
        Err(e) => {
            return Err(TokenError::Creator(e));
        },
    }
    let name_len = args.name.as_str().unicode_len() as u64;
    let symbol_len = args.symbol.as_str().unicode_len() as u64;
    let uri_len = args.uri.as_str().unicode_len() as u64;
    match find_mint(&ledger.mints, accounts.mint) {
        Some(i) => {
            proof {
                assert(has_mint(ledger.mints@, accounts.mint));
            }
            return Err(TokenError::Ledger(LedgerError::AccountAlreadyExists));
        },
        None => {},
    }
    let wi = match find_wallet(&ledger.wallets, accounts.creator) {
        Some(i) => i,
        None => {
            return Err(TokenError::Ledger(LedgerError::AccountNotFound));
        },
    };
    proof {
        lemma_wallet_idx_unique(ledger.wallets@, accounts.creator, wi as int);
    }
    let data_len = MINT_RECORD_BASE_LEN + name_len + symbol_len + uri_len;
    assert(data_len <= MAX_RENT_DATA_LEN);
    let cost = ledger.rent.minimum_balance(data_len);
    let wallet_lamports = ledger.wallets[wi].lamports;
    if wallet_lamports < cost {
        return Err(TokenError::Ledger(LedgerError::InsufficientFunds));
    }
    let ghost pre = *ledger;
    let record = MintRecord {
        key: accounts.mint,
        decimals: args.decimals,
        mint_authority: accounts.creator,
        freeze_authority: accounts.creator,
        close_authority: accounts.creator,
        metadata_pointer: accounts.mint,
        name: args.name,
        symbol: args.symbol,
        uri: args.uri,
        lamports: 0,
        supply: 0,
    };
    let ghost grecord = record;
    let holding = HoldingAccount { holder: accounts.creator, mint: accounts.mint, balance: 0 };
    ledger.mints.push(record);
    ledger.holdings.push(holding);
    proof {
        lemma_mint_push_fresh(pre.mints@, grecord);
        assert forall|i: int| 0 <= i < pre.holdings@.len() implies (#[trigger] pre.holdings@[i]).mint
            != accounts.mint by {
            assert(account_backed(pre.holdings@[i], pre.mints@));
            lemma_backed_has_mint(pre.holdings@[i], pre.mints@);
        }
        if has_holding(pre.holdings@, accounts.creator, accounts.mint) {
            let i = choose|i: int|
                0 <= i < pre.holdings@.len() && pre.holdings@[i].holder == accounts.creator
                    && pre.holdings@[i].mint == accounts.mint;
            assert(pre.holdings@[i].mint != accounts.mint);
        }
        lemma_holding_push_fresh(pre.holdings@, holding);
        assert(forall|j: int|
            0 <= j < pre.mints@.len() ==> (#[trigger] ledger.mints@[j]).key == pre.mints@[j].key
                && ledger.mints@[j].supply >= pre.mints@[j].supply);
        assert forall|i: int| 0 <= i < ledger.holdings@.len() implies account_backed(
            ledger.holdings@[i],
            ledger.mints@,
        ) by {
            if i < pre.holdings@.len() {
                assert(account_backed(pre.holdings@[i], pre.mints@));
                lemma_backed_mints_extend(pre.holdings@[i], pre.mints@, ledger.mints@);
                assert(ledger.holdings@[i] == pre.holdings@[i]);
            } else {
                assert(ledger.holdings@[i] == holding);
                assert(ledger.mints@[pre.mints@.len() as int] == grecord);
                assert(ledger.mints@[pre.mints@.len() as int].key == holding.mint
                    && holding.balance <= ledger.mints@[pre.mints@.len() as int].supply);
            }
        }
        assert(ledger.wf());
    }
    let ghost mid = *ledger;
    let res = update_account_lamports_to_minimum_balance(ledger, accounts.mint, accounts.creator);
    proof {
        let mi = mint_idx(mid.mints@, accounts.mint);
        assert(mi == pre.mints@.len());
        assert(mid.mints@[mi] == grecord);
        assert(grecord.spec_data_len() == data_len as int);
        let cost_spec = spec_create_token_cost(pre.rent, args);
        assert(cost == cost_spec);
        assert(wallet_idx(mid.wallets@, accounts.creator) == wi as int);
        assert(res is Ok);
        let created = spec_created_mint(accounts, args, pre.rent);
        if cost > 0 {
            assert(ledger.mints@ == mid.mints@.update(mi, created));
            assert(ledger.mints@ =~= pre.mints@.push(created));
            assert(ledger.wallets@ == pre.wallets@.update(
                wi as int,
                (Wallet { lamports: (wallet_lamports - cost) as u64, ..pre.wallets@[wi as int] }),
            ));
        } else {
            assert(*ledger == mid);
            assert(created == grecord);
            assert(ledger.wallets@ =~= pre.wallets@.update(
                wi as int,
                (Wallet { lamports: (wallet_lamports - cost) as u64, ..pre.wallets@[wi as int] }),
            ));
        }
        assert(ledger.mints@[pre.mints@.len() as int].key == accounts.mint);
        assert(has_mint(ledger.mints@, accounts.mint));
    }
    res
}

} // verus!
