//! Shared utilities: the metadata validation predicate and the
//! ledger-currency top-up that makes a mint record eviction-exempt.

use vstd::prelude::*;
use vstd::string::StrSliceExecFns;

use crate::errors::{LedgerError, TokenError};
use crate::state::{
    account_backed, has_mint, has_wallet, lemma_backed_mints_extend, lemma_mint_idx_unique,
    lemma_mint_update_same_key, lemma_wallet_idx_unique, lemma_wallet_update_same_key, mint_idx,
    wallet_idx, Ledger, MintRecord, Wallet, MAX_NAME_LEN, MAX_RENT_DATA_LEN, MAX_SYMBOL_LEN,
    MAX_URI_LEN, MINT_RECORD_BASE_LEN,
};

verus! {

/// Checks that token metadata is acceptable: every field non-empty and
/// inside its length bound.
pub fn validate_token_metadata(name: &str, symbol: &str, uri: &str) -> (r: bool)
    ensures
        r == (name@.len() > 0 && symbol@.len() > 0 && uri@.len() > 0 && name@.len() <= MAX_NAME_LEN
            && symbol@.len() <= MAX_SYMBOL_LEN && uri@.len() <= MAX_URI_LEN),
{
    !name.is_empty() && !symbol.is_empty() && !uri.is_empty()
        && name.unicode_len() as u64 <= MAX_NAME_LEN
        && symbol.unicode_len() as u64 <= MAX_SYMBOL_LEN && uri.unicode_len() as u64 <= MAX_URI_LEN
}

/// Checks the three metadata length bounds, in the order the creation
/// handler applies them, and names the first bound that fails.
pub fn check_metadata_lengths(name: &str, symbol: &str, uri: &str) -> (r: Result<
    (),
    crate::errors::TokenCreatorError,
>)
    ensures
        r == Err::<(), crate::errors::TokenCreatorError>(
            crate::errors::TokenCreatorError::TokenNameTooLong,
        ) <==> name@.len() > MAX_NAME_LEN,
        r == Err::<(), crate::errors::TokenCreatorError>(
            crate::errors::TokenCreatorError::TokenSymbolTooLong,
        ) <==> (name@.len() <= MAX_NAME_LEN && symbol@.len() > MAX_SYMBOL_LEN),
        r == Err::<(), crate::errors::TokenCreatorError>(
            crate::errors::TokenCreatorError::TokenUriTooLong,
        ) <==> (name@.len() <= MAX_NAME_LEN && symbol@.len() <= MAX_SYMBOL_LEN && uri@.len()
            > MAX_URI_LEN),
        r is Ok <==> (name@.len() <= MAX_NAME_LEN && symbol@.len() <= MAX_SYMBOL_LEN && uri@.len()
            <= MAX_URI_LEN),
{
    if name.unicode_len() as u64 > MAX_NAME_LEN {
        return Err(crate::errors::TokenCreatorError::TokenNameTooLong);
    }
    if symbol.unicode_len() as u64 > MAX_SYMBOL_LEN {
        return Err(crate::errors::TokenCreatorError::TokenSymbolTooLong);
    }
    if uri.unicode_len() as u64 > MAX_URI_LEN {
        return Err(crate::errors::TokenCreatorError::TokenUriTooLong);
    }
    Ok(())
}

/// What a mint record is missing towards its eviction-exempt minimum;
/// zero when its balance already suffices.
pub open spec fn spec_mint_shortfall(l: Ledger, account: u64) -> int
    recommends
        has_mint(l.mints@, account),
{
    let m = l.mints@[mint_idx(l.mints@, account)];
    let min = l.rent.spec_minimum_balance(m.spec_data_len());
    if m.lamports >= min {
        0
    } else {
        min - m.lamports
    }
}

/// The mint record's balance covers the eviction-exempt minimum for its
/// stored size.
pub open spec fn mint_rent_exempt(l: Ledger, account: u64) -> bool
    recommends
        has_mint(l.mints@, account),
{
    let m = l.mints@[mint_idx(l.mints@, account)];
    m.lamports >= l.rent.spec_minimum_balance(m.spec_data_len())
}

/// Tops the mint record `account` up to the minimum eviction-exempt
/// balance for its stored size, transferring exactly the shortfall from
/// the wallet `payer`. Performs no transfer when the balance already
/// suffices, and changes nothing when it fails.
pub fn update_account_lamports_to_minimum_balance(
    ledger: &mut Ledger,
    account: u64,
    payer: u64,
) -> (r: Result<(), TokenError>)
    requires
        old(ledger).wf(),
    ensures
        final(ledger).wf(),
        r == Err::<(), TokenError>(TokenError::Ledger(LedgerError::AccountNotFound)) <==> (
        !has_mint(old(ledger).mints@, account) || !has_wallet(old(ledger).wallets@, payer)),
        (has_mint(old(ledger).mints@, account) && has_wallet(old(ledger).wallets@, payer)) ==> ({
            let sf = spec_mint_shortfall(*old(ledger), account);
            let mi = mint_idx(old(ledger).mints@, account);
            let wi = wallet_idx(old(ledger).wallets@, payer);
            let m = old(ledger).mints@[mi];
            let w = old(ledger).wallets@[wi];
            &&& (r == Err::<(), TokenError>(TokenError::Ledger(LedgerError::InsufficientFunds))
                <==> sf > w.lamports)
            &&& (r is Ok <==> sf <= w.lamports)
            &&& sf == 0 ==> *final(ledger) == *old(ledger)
            &&& (r is Ok && sf > 0) ==> {
                &&& final(ledger).mints@ == old(ledger).mints@.update(
                    mi,
                    (MintRecord { lamports: (m.lamports + sf) as u64, ..m }),
                )
                &&& final(ledger).wallets@ == old(ledger).wallets@.update(
                    wi,
                    (Wallet { lamports: (w.lamports - sf) as u64, ..w }),
                )
                &&& final(ledger).holdings@ == old(ledger).holdings@
                &&& final(ledger).rent == old(ledger).rent
            }
            &&& r is Ok ==> mint_rent_exempt(*final(ledger), account)
        }),
        r is Err ==> *final(ledger) == *old(ledger),
{
    let mi = match crate::state::find_mint(&ledger.mints, account) {
        Some(i) => i,
        None => {
            return Err(TokenError::Ledger(LedgerError::AccountNotFound));
        },
    };
    let wi = match crate::state::find_wallet(&ledger.wallets, payer) {
        Some(i) => i,
        None => {
            return Err(TokenError::Ledger(LedgerError::AccountNotFound));
        },
    };
    proof {
        lemma_mint_idx_unique(ledger.mints@, account, mi as int);
        lemma_wallet_idx_unique(ledger.wallets@, payer, wi as int);
        assert(ledger.mints@[mi as int].metadata_wf());
    }
    let name_len = ledger.mints[mi].name.as_str().unicode_len() as u64;
    let symbol_len = ledger.mints[mi].symbol.as_str().unicode_len() as u64;
    let uri_len = ledger.mints[mi].uri.as_str().unicode_len() as u64;
    let data_len = MINT_RECORD_BASE_LEN + name_len + symbol_len + uri_len;
    assert(data_len <= MAX_RENT_DATA_LEN);
    let min = ledger.rent.minimum_balance(data_len);
    let cur = ledger.mints[mi].lamports;
    if cur >= min {
        return Ok(());
    }
    let shortfall = min - cur;
    let wallet_lamports = ledger.wallets[wi].lamports;
    if wallet_lamports < shortfall {
        return Err(TokenError::Ledger(LedgerError::InsufficientFunds));
    }
    let ghost pre = *ledger;
    let mut w = ledger.wallets.remove(wi);
    w.lamports = w.lamports - shortfall;
    ledger.wallets.insert(wi, w);
    let mut m = ledger.mints.remove(mi);
    m.lamports = m.lamports + shortfall;
    ledger.mints.insert(mi, m);
    proof {
        assert(ledger.wallets@ =~= pre.wallets@.update(wi as int, w));
        assert(ledger.mints@ =~= pre.mints@.update(mi as int, m));
        lemma_wallet_update_same_key(pre.wallets@, wi as int, w);
        lemma_mint_update_same_key(pre.mints@, mi as int, m);
        assert(mint_idx(ledger.mints@, account) == mi as int);
        assert(forall|j: int|
            0 <= j < pre.mints@.len() ==> (#[trigger] ledger.mints@[j]).key == pre.mints@[j].key
                && ledger.mints@[j].supply >= pre.mints@[j].supply);
        assert forall|i: int| 0 <= i < ledger.holdings@.len() implies account_backed(
            ledger.holdings@[i],
            ledger.mints@,
        ) by {
            assert(account_backed(pre.holdings@[i], pre.mints@));
            lemma_backed_mints_extend(pre.holdings@[i], pre.mints@, ledger.mints@);
        }
    }
    Ok(())
}

/// Idempotence of the top-up: a mint record whose balance already covers
/// its eviction-exempt minimum — as every record left by a successful
/// creation does — has a zero shortfall, so a repeated top-up performs no
/// transfer and leaves the ledger unchanged.
pub proof fn lemma_top_up_idempotent(l: Ledger, account: u64)
    requires
        has_mint(l.mints@, account),
        mint_rent_exempt(l, account),
    ensures
        spec_mint_shortfall(l, account) == 0,
{
}

} // verus!
