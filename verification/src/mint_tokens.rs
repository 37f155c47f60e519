//! The mint-tokens operation: increases a recipient's holding balance by a
//! requested amount, authorized by the mint's recorded authority.

use vstd::prelude::*;

use crate::errors::{LedgerError, TokenError};
use crate::state::{
    account_backed, find_holding, find_mint, has_holding, has_mint, holding_idx,
    lemma_backed_mints_extend, lemma_holding_idx_unique, lemma_holding_push_fresh,
    lemma_holding_update_same_pair, lemma_mint_idx_unique, lemma_mint_update_same_key, mint_idx,
    HoldingAccount, Ledger, MintRecord,
};

verus! {

/// The identities the mint-tokens operation references: the signer that
/// must be the mint's recorded authority, the mint record, and the
/// recipient whose holding account receives the units.
#[derive(Clone, Copy, Debug, PartialEq, Eq)]
pub struct MintTokens {
    /// The signer; minting succeeds only when it equals the mint's
    /// recorded authority.
    pub authority: u64,
    /// Key of the mint record of the token to mint.
    pub mint: u64,
    /// The identity whose holding account receives the units.
    pub recipient: u64,
}

/// Mints `amount` units to the recipient's holding account, creating that
/// account when absent. Succeeds exactly when the mint exists, the signer
/// is its recorded authority, and the supply does not overflow (the
/// ledger invariant keeps every balance at most the supply, so no balance
/// can overflow either); the balance then grows by exactly `amount` and
/// no other record changes. Any failure leaves the ledger exactly as it
/// was.
pub fn mint_tokens_handler(ledger: &mut Ledger, accounts: MintTokens, amount: u64) -> (r: Result<
    (),
    TokenError,
>)
    requires
        old(ledger).wf(),
    ensures
        final(ledger).wf(),
        r == Err::<(), TokenError>(TokenError::Ledger(LedgerError::AccountNotFound)) <==> !has_mint(
            old(ledger).mints@,
            accounts.mint,
        ),
        r == Err::<(), TokenError>(TokenError::Ledger(LedgerError::AuthorityMismatch)) <==> (
        has_mint(old(ledger).mints@, accounts.mint) && old(ledger).mints@[mint_idx(
            old(ledger).mints@,
            accounts.mint,
        )].mint_authority != accounts.authority),
        (has_mint(old(ledger).mints@, accounts.mint) && old(ledger).mints@[mint_idx(
            old(ledger).mints@,
            accounts.mint,
        )].mint_authority == accounts.authority) ==> ({
            let mi = mint_idx(old(ledger).mints@, accounts.mint);
            let m = old(ledger).mints@[mi];
            let existing = has_holding(old(ledger).holdings@, accounts.recipient, accounts.mint);
            let hi = holding_idx(old(ledger).holdings@, accounts.recipient, accounts.mint);
            let balance0: int = if existing {
                old(ledger).holdings@[hi].balance as int
            } else {
                0
            };
            &&& (r == Err::<(), TokenError>(TokenError::Ledger(LedgerError::SupplyOverflow)) <==>
            m.supply + amount > u64::MAX)
            &&& (r is Ok <==> m.supply + amount <= u64::MAX)
            &&& r is Ok ==> {
                &&& final(ledger).mints@ == old(ledger).mints@.update(
                    mi,
                    (MintRecord { supply: (m.supply + amount) as u64, ..m }),
                )
                &&& existing ==> final(ledger).holdings@ == old(ledger).holdings@.update(
                    hi,
                    (HoldingAccount {
                        balance: (balance0 + amount) as u64,
                        ..old(ledger).holdings@[hi]
                    }),
                )
                &&& !existing ==> final(ledger).holdings@ == old(ledger).holdings@.push(
                    (HoldingAccount {
                        holder: accounts.recipient,
                        mint: accounts.mint,
                        balance: amount,
                    }),
                )
                &&& final(ledger).wallets@ == old(ledger).wallets@
                &&& final(ledger).rent == old(ledger).rent
            }
        }),
        r is Err ==> *final(ledger) == *old(ledger),
{
    let mi = match find_mint(&ledger.mints, accounts.mint) {
        Some(i) => i,
        None => {
            return Err(TokenError::Ledger(LedgerError::AccountNotFound));
        },
    };
    proof {
        lemma_mint_idx_unique(ledger.mints@, accounts.mint, mi as int);
    }
    if ledger.mints[mi].mint_authority != accounts.authority {
        return Err(TokenError::Ledger(LedgerError::AuthorityMismatch));
    }
    let supply = ledger.mints[mi].supply;
    if amount > u64::MAX - supply {
        return Err(TokenError::Ledger(LedgerError::SupplyOverflow));
    }
    let ghost pre = *ledger;
    let mut m = ledger.mints.remove(mi);
    m.supply = m.supply + amount;
    ledger.mints.insert(mi, m);
    proof {
        assert(pre.mints@[mi as int].metadata_wf());
        assert(ledger.mints@ =~= pre.mints@.update(mi as int, m));
        lemma_mint_update_same_key(pre.mints@, mi as int, m);
        assert(forall|j: int|
            0 <= j < pre.mints@.len() ==> (#[trigger] ledger.mints@[j]).key == pre.mints@[j].key
                && ledger.mints@[j].supply >= pre.mints@[j].supply);
    }
    match find_holding(&ledger.holdings, accounts.recipient, accounts.mint) {
        Some(hi) => {
            proof {
                lemma_holding_idx_unique(
                    ledger.holdings@,
                    accounts.recipient,
                    accounts.mint,
                    hi as int,
                );
                assert(account_backed(pre.holdings@[hi as int], pre.mints@));
                let j = choose|j: int|
                    0 <= j < pre.mints@.len() && pre.mints@[j].key == pre.holdings@[hi as int].mint
                        && pre.holdings@[hi as int].balance <= pre.mints@[j].supply;
                lemma_mint_idx_unique(pre.mints@, accounts.mint, j);
                assert(j == mi as int);
                assert(pre.holdings@[hi as int].balance <= supply);
            }
            let mut h = ledger.holdings.remove(hi);
            h.balance = h.balance + amount;
            ledger.holdings.insert(hi, h);
            proof {
                assert(ledger.holdings@ =~= pre.holdings@.update(hi as int, h));
                lemma_holding_update_same_pair(pre.holdings@, hi as int, h);
                assert forall|i: int| 0 <= i < ledger.holdings@.len() implies account_backed(
                    ledger.holdings@[i],
                    ledger.mints@,
                ) by {
                    if i == hi as int {
                        assert(ledger.mints@[mi as int].key == h.mint && h.balance
                            <= ledger.mints@[mi as int].supply);
                    } else {
                        assert(account_backed(pre.holdings@[i], pre.mints@));
                        lemma_backed_mints_extend(pre.holdings@[i], pre.mints@, ledger.mints@);
                        assert(ledger.holdings@[i] == pre.holdings@[i]);
                    }
                }
                assert(ledger.wf());
            }
        },
        None => {
            let fresh = HoldingAccount {
                holder: accounts.recipient,
                mint: accounts.mint,
                balance: amount,
            };
            ledger.holdings.push(fresh);
            proof {
                lemma_holding_push_fresh(pre.holdings@, fresh);
                assert forall|i: int| 0 <= i < ledger.holdings@.len() implies account_backed(
                    ledger.holdings@[i],
                    ledger.mints@,
                ) by {
                    if i < pre.holdings@.len() {
                        assert(account_backed(pre.holdings@[i], pre.mints@));
                        lemma_backed_mints_extend(pre.holdings@[i], pre.mints@, ledger.mints@);
                        assert(ledger.holdings@[i] == pre.holdings@[i]);
                    } else {
                        assert(ledger.holdings@[i] == fresh);
                        assert(ledger.mints@[mi as int].key == fresh.mint && fresh.balance
                            <= ledger.mints@[mi as int].supply);
                    }
                }
                assert(ledger.wf());
            }
        },
    }
    Ok(())
}

} // verus!
