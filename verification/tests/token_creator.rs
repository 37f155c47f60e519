use token_creator::create_token::{CreateToken, CreateTokenArgs};
use token_creator::errors::{LedgerError, TokenCreatorError, TokenError};
use token_creator::mint_tokens::MintTokens;
use token_creator::state::{HoldingAccount, Ledger, MintRecord, Rent, Wallet};
use token_creator::utils::{
    check_metadata_lengths, update_account_lamports_to_minimum_balance, validate_token_metadata,
};
use token_creator::{create_token, mint_tokens};

const CREATOR: u64 = 1;
const MINT: u64 = 2;
const RECIPIENT: u64 = 3;
const OTHER: u64 = 9;

fn fresh_ledger() -> Ledger {
    Ledger {
        rent: Rent { lamports_per_byte_year: 2, exemption_threshold_years: 2 },
        wallets: vec![Wallet { key: CREATOR, lamports: 1_000_000 }],
        mints: vec![],
        holdings: vec![],
    }
}

fn demo_args() -> CreateTokenArgs {
    CreateTokenArgs {
        name: String::from("Demo"),
        symbol: String::from("DMO"),
        uri: String::from("https://x/meta.json"),
        decimals: 6,
    }
}

fn create_accounts() -> CreateToken {
    CreateToken { creator: CREATOR, mint: MINT }
}

fn mint_accounts(authority: u64, recipient: u64) -> MintTokens {
    MintTokens { authority, mint: MINT, recipient }
}

// Cost of the demo mint record: 2 lamports per unit-year, over
// (256 base + 4 + 3 + 19 metadata + 128 overhead) units, for 2 years.
const DEMO_COST: u64 = 2 * (256 + 4 + 3 + 19 + 128) * 2;

#[test]
fn create_token_demo_succeeds() {
    let mut l = fresh_ledger();
    let r = create_token(&mut l, create_accounts(), demo_args());
    assert_eq!(r, Ok(()));
    assert_eq!(l.mints.len(), 1);
    let m = &l.mints[0];
    assert_eq!(m.key, MINT);
    assert_eq!(m.decimals, 6);
    assert_eq!(m.name, "Demo");
    assert_eq!(m.symbol, "DMO");
    assert_eq!(m.uri, "https://x/meta.json");
    assert_eq!(m.mint_authority, CREATOR);
    assert_eq!(m.freeze_authority, CREATOR);
    assert_eq!(m.close_authority, CREATOR);
    assert_eq!(m.metadata_pointer, MINT);
    assert_eq!(m.supply, 0);
    assert_eq!(m.lamports, DEMO_COST);
    assert_eq!(l.holdings, vec![HoldingAccount { holder: CREATOR, mint: MINT, balance: 0 }]);
    assert_eq!(l.wallets, vec![Wallet { key: CREATOR, lamports: 1_000_000 - DEMO_COST }]);
}

#[test]
fn create_token_long_name_fails() {
    let mut l = fresh_ledger();
    let before = l.clone();
    let args = CreateTokenArgs {
        name: "A".repeat(33),
        symbol: String::from("S"),
        uri: String::from("u"),
        decimals: 0,
    };
    let r = create_token(&mut l, create_accounts(), args);
    assert_eq!(r, Err(TokenError::Creator(TokenCreatorError::TokenNameTooLong)));
    assert_eq!(l, before);
}

#[test]
fn create_token_long_symbol_fails() {
    let mut l = fresh_ledger();
    let before = l.clone();
    let args = CreateTokenArgs {
        name: String::from("ok"),
        symbol: "B".repeat(11),
        uri: String::from("u"),
        decimals: 0,
    };
    let r = create_token(&mut l, create_accounts(), args);
    assert_eq!(r, Err(TokenError::Creator(TokenCreatorError::TokenSymbolTooLong)));
    assert_eq!(l, before);
}

#[test]
fn create_token_long_uri_fails() {
    let mut l = fresh_ledger();
    let before = l.clone();
    let args = CreateTokenArgs {
        name: String::from("ok"),
        symbol: String::from("S"),
        uri: "u".repeat(201),
        decimals: 0,
    };
    let r = create_token(&mut l, create_accounts(), args);
    assert_eq!(r, Err(TokenError::Creator(TokenCreatorError::TokenUriTooLong)));
    assert_eq!(l, before);
}

#[test]
fn create_token_boundary_lengths_succeed() {
    let mut l = fresh_ledger();
    let args = CreateTokenArgs {
        name: "N".repeat(32),
        symbol: "S".repeat(10),
        uri: "u".repeat(200),
        decimals: 9,
    };
    let r = create_token(&mut l, create_accounts(), args);
    assert_eq!(r, Ok(()));
    assert_eq!(l.mints[0].name.len(), 32);
}

#[test]
fn create_token_counts_characters_not_bytes() {
    // 32 two-byte characters: inside the bound, which counts characters.
    let mut l = fresh_ledger();
    let args = CreateTokenArgs {
        name: "é".repeat(32),
        symbol: String::from("S"),
        uri: String::from("u"),
        decimals: 0,
    };
    let r = create_token(&mut l, create_accounts(), args);
    assert_eq!(r, Ok(()));
}

#[test]
fn create_token_accepts_empty_name() {
    // The handler checks only the upper bounds; the stricter
    // validate_token_metadata predicate is not on its path.
    let mut l = fresh_ledger();
    let args = CreateTokenArgs {
        name: String::new(),
        symbol: String::new(),
        uri: String::new(),
        decimals: 0,
    };
    assert_eq!(create_token(&mut l, create_accounts(), args), Ok(()));
    assert!(!validate_token_metadata("", "", ""));
}

#[test]
fn create_token_existing_mint_fails() {
    let mut l = fresh_ledger();
    assert_eq!(create_token(&mut l, create_accounts(), demo_args()), Ok(()));
    let before = l.clone();
    let r = create_token(&mut l, create_accounts(), demo_args());
    assert_eq!(r, Err(TokenError::Ledger(LedgerError::AccountAlreadyExists)));
    assert_eq!(l, before);
}

#[test]
fn create_token_unknown_creator_fails() {
    let mut l = fresh_ledger();
    let before = l.clone();
    let accounts = CreateToken { creator: OTHER, mint: MINT };
    let r = create_token(&mut l, accounts, demo_args());
    assert_eq!(r, Err(TokenError::Ledger(LedgerError::AccountNotFound)));
    assert_eq!(l, before);
}

#[test]
fn create_token_poor_creator_fails() {
    let mut l = fresh_ledger();
    l.wallets[0].lamports = DEMO_COST - 1;
    let before = l.clone();
    let r = create_token(&mut l, create_accounts(), demo_args());
    assert_eq!(r, Err(TokenError::Ledger(LedgerError::InsufficientFunds)));
    assert_eq!(l, before);
}

#[test]
fn created_mint_is_rent_exempt_and_top_up_is_idempotent() {
    let mut l = fresh_ledger();
    assert_eq!(create_token(&mut l, create_accounts(), demo_args()), Ok(()));
    // DEMO_COST is exactly the minimum for the record's data size.
    assert!(l.mints[0].lamports >= DEMO_COST);
    let before = l.clone();
    let r = update_account_lamports_to_minimum_balance(&mut l, MINT, CREATOR);
    assert_eq!(r, Ok(()));
    assert_eq!(l, before);
}

#[test]
fn top_up_transfers_exactly_the_shortfall() {
    let mut l = fresh_ledger();
    l.mints.push(MintRecord {
        key: MINT,
        decimals: 0,
        mint_authority: CREATOR,
        freeze_authority: CREATOR,
        close_authority: CREATOR,
        metadata_pointer: MINT,
        name: String::from("Demo"),
        symbol: String::from("DMO"),
        uri: String::from("https://x/meta.json"),
        lamports: 40,
        supply: 0,
    });
    let r = update_account_lamports_to_minimum_balance(&mut l, MINT, CREATOR);
    assert_eq!(r, Ok(()));
    assert_eq!(l.mints[0].lamports, DEMO_COST);
    assert_eq!(l.wallets[0].lamports, 1_000_000 - (DEMO_COST - 40));
    // A second call finds the record sufficient and transfers nothing.
    let before = l.clone();
    assert_eq!(update_account_lamports_to_minimum_balance(&mut l, MINT, CREATOR), Ok(()));
    assert_eq!(l, before);
}

#[test]
fn top_up_unknown_account_fails() {
    let mut l = fresh_ledger();
    let before = l.clone();
    let r = update_account_lamports_to_minimum_balance(&mut l, MINT, CREATOR);
    assert_eq!(r, Err(TokenError::Ledger(LedgerError::AccountNotFound)));
    assert_eq!(l, before);
}

#[test]
fn top_up_poor_payer_fails() {
    let mut l = fresh_ledger();
    assert_eq!(create_token(&mut l, create_accounts(), demo_args()), Ok(()));
    l.mints[0].lamports = 0;
    l.wallets[0].lamports = 1;
    let before = l.clone();
    let r = update_account_lamports_to_minimum_balance(&mut l, MINT, CREATOR);
    assert_eq!(r, Err(TokenError::Ledger(LedgerError::InsufficientFunds)));
    assert_eq!(l, before);
}

#[test]
fn mint_tokens_by_authority_mints_exactly_the_amount() {
    let mut l = fresh_ledger();
    assert_eq!(create_token(&mut l, create_accounts(), demo_args()), Ok(()));
    let wallets_before = l.wallets.clone();
    let r = mint_tokens(&mut l, mint_accounts(CREATOR, RECIPIENT), 1000);
    assert_eq!(r, Ok(()));
    assert_eq!(l.mints[0].supply, 1000);
    assert_eq!(
        l.holdings,
        vec![
            HoldingAccount { holder: CREATOR, mint: MINT, balance: 0 },
            HoldingAccount { holder: RECIPIENT, mint: MINT, balance: 1000 },
        ]
    );
    assert_eq!(l.wallets, wallets_before);
}

#[test]
fn mint_tokens_by_other_identity_fails_and_changes_nothing() {
    let mut l = fresh_ledger();
    assert_eq!(create_token(&mut l, create_accounts(), demo_args()), Ok(()));
    let before = l.clone();
    let r = mint_tokens(&mut l, mint_accounts(OTHER, RECIPIENT), 1000);
    assert_eq!(r, Err(TokenError::Ledger(LedgerError::AuthorityMismatch)));
    assert_eq!(l, before);
    // The recipient never got a holding account, so the balance stayed 0.
    assert!(!l.holdings.iter().any(|h| h.holder == RECIPIENT));
}

#[test]
fn mint_tokens_twice_accumulates() {
    let mut l = fresh_ledger();
    assert_eq!(create_token(&mut l, create_accounts(), demo_args()), Ok(()));
    assert_eq!(mint_tokens(&mut l, mint_accounts(CREATOR, RECIPIENT), 1000), Ok(()));
    assert_eq!(mint_tokens(&mut l, mint_accounts(CREATOR, RECIPIENT), 234), Ok(()));
    assert_eq!(l.mints[0].supply, 1234);
    assert_eq!(l.holdings[1], HoldingAccount { holder: RECIPIENT, mint: MINT, balance: 1234 });
}

#[test]
fn mint_tokens_changes_no_other_holding() {
    let mut l = fresh_ledger();
    assert_eq!(create_token(&mut l, create_accounts(), demo_args()), Ok(()));
    assert_eq!(mint_tokens(&mut l, mint_accounts(CREATOR, RECIPIENT), 50), Ok(()));
    assert_eq!(mint_tokens(&mut l, mint_accounts(CREATOR, OTHER), 7), Ok(()));
    assert_eq!(
        l.holdings,
        vec![
            HoldingAccount { holder: CREATOR, mint: MINT, balance: 0 },
            HoldingAccount { holder: RECIPIENT, mint: MINT, balance: 50 },
            HoldingAccount { holder: OTHER, mint: MINT, balance: 7 },
        ]
    );
    assert_eq!(l.mints[0].supply, 57);
}

#[test]
fn mint_tokens_unknown_mint_fails() {
    let mut l = fresh_ledger();
    let before = l.clone();
    let r = mint_tokens(&mut l, mint_accounts(CREATOR, RECIPIENT), 1);
    assert_eq!(r, Err(TokenError::Ledger(LedgerError::AccountNotFound)));
    assert_eq!(l, before);
}

#[test]
fn mint_tokens_supply_overflow_fails() {
    let mut l = fresh_ledger();
    assert_eq!(create_token(&mut l, create_accounts(), demo_args()), Ok(()));
    assert_eq!(mint_tokens(&mut l, mint_accounts(CREATOR, RECIPIENT), u64::MAX), Ok(()));
    let before = l.clone();
    let r = mint_tokens(&mut l, mint_accounts(CREATOR, RECIPIENT), 1);
    assert_eq!(r, Err(TokenError::Ledger(LedgerError::SupplyOverflow)));
    assert_eq!(l, before);
}

#[test]
fn validate_token_metadata_accepts_bounded_fields() {
    assert!(validate_token_metadata("Demo", "DMO", "https://x/meta.json"));
    assert!(validate_token_metadata(&"N".repeat(32), &"S".repeat(10), &"u".repeat(200)));
    assert!(validate_token_metadata("n", "s", "u"));
}

#[test]
fn validate_token_metadata_rejects_bad_fields() {
    assert!(!validate_token_metadata("", "DMO", "u"));
    assert!(!validate_token_metadata("Demo", "", "u"));
    assert!(!validate_token_metadata("Demo", "DMO", ""));
    assert!(!validate_token_metadata(&"N".repeat(33), "DMO", "u"));
    assert!(!validate_token_metadata("Demo", &"S".repeat(11), "u"));
    assert!(!validate_token_metadata("Demo", "DMO", &"u".repeat(201)));
}

#[test]
fn check_metadata_lengths_names_the_first_failing_bound() {
    assert_eq!(check_metadata_lengths("Demo", "DMO", "https://x/meta.json"), Ok(()));
    assert_eq!(check_metadata_lengths("", "", ""), Ok(()));
    assert_eq!(
        check_metadata_lengths(&"N".repeat(33), &"S".repeat(11), "u"),
        Err(TokenCreatorError::TokenNameTooLong)
    );
    assert_eq!(
        check_metadata_lengths("Demo", &"S".repeat(11), &"u".repeat(201)),
        Err(TokenCreatorError::TokenSymbolTooLong)
    );
    assert_eq!(
        check_metadata_lengths("Demo", "DMO", &"u".repeat(201)),
        Err(TokenCreatorError::TokenUriTooLong)
    );
}
