//! The ledger model: mint records, holding accounts, fee-paying wallets and
//! the rent schedule, together with the well-formedness invariant that the
//! instruction handlers preserve.

use vstd::prelude::*;

verus! {

/// Longest permitted token name, in characters.
pub const MAX_NAME_LEN: u64 = 32;

/// Longest permitted token symbol, in characters.
pub const MAX_SYMBOL_LEN: u64 = 10;

/// Longest permitted token URI, in characters.
pub const MAX_URI_LEN: u64 = 200;

/// Fixed part of a mint record's stored size, before its metadata strings.
pub const MINT_RECORD_BASE_LEN: u64 = 256;

/// Storage overhead the rent schedule charges on top of a record's data.
pub const ACCOUNT_STORAGE_OVERHEAD: u64 = 128;

/// Upper bound on a data size the rent schedule accepts; keeps the
/// minimum-balance arithmetic inside `u64`.
pub const MAX_RENT_DATA_LEN: u64 = 100_000;

/// The ledger's rent schedule: what a record must hold in ledger currency,
/// per unit of stored data, to be exempt from eviction.
#[derive(Clone, Copy, Debug, PartialEq, Eq)]
pub struct Rent {
    /// Ledger currency charged per stored unit of data and year.
    pub lamports_per_byte_year: u64,
    /// Number of prepaid years that makes a record eviction-exempt.
    pub exemption_threshold_years: u64,
}

impl Rent {
    /// A plausible rent schedule: positive and small enough that a
    /// minimum-balance computation cannot overflow.
    pub open spec fn wf(self) -> bool {
        &&& 0 < self.lamports_per_byte_year <= 1_000_000
        &&& 0 < self.exemption_threshold_years <= 16
    }

    /// Minimum balance a record of `data_len` stored units must carry to be
    /// eviction-exempt: proportional to its size plus a fixed overhead.
    pub open spec fn spec_minimum_balance(self, data_len: int) -> int {
        self.lamports_per_byte_year * (data_len + ACCOUNT_STORAGE_OVERHEAD)
            * self.exemption_threshold_years
    }

    /// Computes the minimum eviction-exempt balance for a record of the
    /// given stored size.
    pub fn minimum_balance(&self, data_len: u64) -> (r: u64)
        requires
            self.wf(),
            data_len <= MAX_RENT_DATA_LEN,
        ensures
            r == self.spec_minimum_balance(data_len as int),
    {
        let padded = data_len + ACCOUNT_STORAGE_OVERHEAD;
        assert(self.lamports_per_byte_year * padded <= 0x1_0000_0000_0000) by (nonlinear_arith)
            requires
                0 < self.lamports_per_byte_year <= 1_000_000,
                0 < padded <= 100_128,
        ;
        let per_year = self.lamports_per_byte_year * padded;
        assert(per_year * self.exemption_threshold_years <= 0x10_0000_0000_0000)
            by (nonlinear_arith)
            requires
                0 <= per_year <= 0x1_0000_0000_0000,
                0 < self.exemption_threshold_years <= 16,
        ;
        per_year * self.exemption_threshold_years
    }
}

/// A mint record: the ledger-resident descriptor of one token class, with
/// its metadata written directly on the record.
#[derive(Clone, Debug, PartialEq, Eq)]
pub struct MintRecord {
    /// The record's own identity on the ledger.
    pub key: u64,
    /// Decimal precision of the token.
    pub decimals: u8,
    /// Identity allowed to mint new units.
    pub mint_authority: u64,
    /// Identity allowed to freeze holdings of this token.
    pub freeze_authority: u64,
    /// Identity allowed to close the record.
    pub close_authority: u64,
    /// Where the metadata lives; here always the record itself.
    pub metadata_pointer: u64,
    /// Token name, at most `MAX_NAME_LEN` characters.
    pub name: String,
    /// Token symbol, at most `MAX_SYMBOL_LEN` characters.
    pub symbol: String,
    /// Token URI, at most `MAX_URI_LEN` characters.
    pub uri: String,
    /// Ledger-currency balance the record carries.
    pub lamports: u64,
    /// Total units of the token ever minted.
    pub supply: u64,
}

impl MintRecord {
    /// The metadata fields respect their length bounds.
    pub open spec fn metadata_wf(self) -> bool {
        &&& self.name@.len() <= MAX_NAME_LEN
        &&& self.symbol@.len() <= MAX_SYMBOL_LEN
        &&& self.uri@.len() <= MAX_URI_LEN
    }

    /// Stored size of the record: the fixed part plus its metadata strings.
    pub open spec fn spec_data_len(self) -> int {
        MINT_RECORD_BASE_LEN + self.name@.len() + self.symbol@.len() + self.uri@.len()
    }
}

/// A wallet: a plain ledger-currency balance under a signing identity; the
/// creator pays record top-ups from one.
#[derive(Clone, Copy, Debug, PartialEq, Eq)]
pub struct Wallet {
    /// The wallet's identity on the ledger.
    pub key: u64,
    /// Its ledger-currency balance.
    pub lamports: u64,
}

/// A holding account: the balance of one token class held by one identity;
/// one canonical record per (holder, mint) pair.
#[derive(Clone, Copy, Debug, PartialEq, Eq)]
pub struct HoldingAccount {
    /// The identity that owns the balance.
    pub holder: u64,
    /// Key of the mint record the balance is denominated in.
    pub mint: u64,
    /// Units of the token held.
    pub balance: u64,
}

/// Some mint record on the ledger carries the given key.
pub open spec fn has_mint(mints: Seq<MintRecord>, key: u64) -> bool {
    exists|i: int| 0 <= i < mints.len() && mints[i].key == key
}

/// Index of the mint record with the given key; meaningful only when
/// `has_mint` holds (and then unique, by well-formedness).
pub open spec fn mint_idx(mints: Seq<MintRecord>, key: u64) -> int {
    choose|i: int| 0 <= i < mints.len() && mints[i].key == key
}

/// Some wallet on the ledger carries the given key.
pub open spec fn has_wallet(wallets: Seq<Wallet>, key: u64) -> bool {
    exists|i: int| 0 <= i < wallets.len() && wallets[i].key == key
}

/// Index of the wallet with the given key; meaningful only when
/// `has_wallet` holds.
pub open spec fn wallet_idx(wallets: Seq<Wallet>, key: u64) -> int {
    choose|i: int| 0 <= i < wallets.len() && wallets[i].key == key
}

/// Some holding account on the ledger belongs to the given (holder, mint)
/// pair.
pub open spec fn has_holding(holdings: Seq<HoldingAccount>, holder: u64, mint: u64) -> bool {
    exists|i: int| 0 <= i < holdings.len() && holdings[i].holder == holder && holdings[i].mint
        == mint
}

/// Index of the holding account of the given (holder, mint) pair;
/// meaningful only when `has_holding` holds.
pub open spec fn holding_idx(holdings: Seq<HoldingAccount>, holder: u64, mint: u64) -> int {
    choose|i: int| 0 <= i < holdings.len() && holdings[i].holder == holder && holdings[i].mint
        == mint
}

/// The holding account is denominated in an existing mint whose recorded
/// supply covers its balance.
pub open spec fn account_backed(h: HoldingAccount, mints: Seq<MintRecord>) -> bool {
    exists|j: int| 0 <= j < mints.len() && mints[j].key == h.mint && h.balance <= mints[j].supply
}

/// A backed holding refers to an existing mint.
pub proof fn lemma_backed_has_mint(h: HoldingAccount, mints: Seq<MintRecord>)
    requires
        account_backed(h, mints),
    ensures
        has_mint(mints, h.mint),
{
    let j = choose|j: int|
        0 <= j < mints.len() && mints[j].key == h.mint && h.balance <= mints[j].supply;
    assert(mints[j].key == h.mint);
}

/// A backed holding stays backed when the mint records keep their keys
/// and do not lower their supplies (more records may be appended).
pub proof fn lemma_backed_mints_extend(
    h: HoldingAccount,
    mints0: Seq<MintRecord>,
    mints1: Seq<MintRecord>,
)
    requires
        account_backed(h, mints0),
        mints0.len() <= mints1.len(),
        forall|j: int|
            0 <= j < mints0.len() ==> (#[trigger] mints1[j]).key == mints0[j].key && mints1[j].supply
                >= mints0[j].supply,
    ensures
        account_backed(h, mints1),
{
    let j = choose|j: int|
        0 <= j < mints0.len() && mints0[j].key == h.mint && h.balance <= mints0[j].supply;
    assert(mints1[j].key == h.mint && h.balance <= mints1[j].supply);
}

/// No two mint records share a key.
pub open spec fn mint_keys_unique(mints: Seq<MintRecord>) -> bool {
    forall|i: int, j: int|
        #![trigger mints[i], mints[j]]
        0 <= i < j < mints.len() ==> mints[i].key != mints[j].key
}

/// No two wallets share a key.
pub open spec fn wallet_keys_unique(wallets: Seq<Wallet>) -> bool {
    forall|i: int, j: int|
        #![trigger wallets[i], wallets[j]]
        0 <= i < j < wallets.len() ==> wallets[i].key != wallets[j].key
}

/// No two holding accounts share a (holder, mint) pair.
pub open spec fn holding_pairs_unique(holdings: Seq<HoldingAccount>) -> bool {
    forall|i: int, j: int|
        #![trigger holdings[i], holdings[j]]
        0 <= i < j < holdings.len() ==> !(holdings[i].holder == holdings[j].holder
            && holdings[i].mint == holdings[j].mint)
}

/// The whole mutable state the two operations touch: the external ledger's
/// records, seen as plain values.
#[derive(Clone, Debug, PartialEq, Eq)]
pub struct Ledger {
    /// The ledger's rent schedule.
    pub rent: Rent,
    /// Fee-paying wallets, keyed by identity.
    pub wallets: Vec<Wallet>,
    /// All mint records, keyed by identity.
    pub mints: Vec<MintRecord>,
    /// All holding accounts, keyed by (holder, mint) pair.
    pub holdings: Vec<HoldingAccount>,
}

impl Ledger {
    /// The ledger invariant: a plausible rent schedule, unique keys, every
    /// holding account denominated in an existing mint whose supply covers
    /// its balance, and every mint's metadata inside its length bounds.
    pub open spec fn wf(self) -> bool {
        &&& self.rent.wf()
        &&& mint_keys_unique(self.mints@)
        &&& wallet_keys_unique(self.wallets@)
        &&& holding_pairs_unique(self.holdings@)
        &&& forall|i: int|
            0 <= i < self.holdings@.len() ==> account_backed(
                (#[trigger] self.holdings@[i]),
                self.mints@,
            )
        &&& forall|i: int|
            0 <= i < self.mints@.len() ==> (#[trigger] self.mints@[i]).metadata_wf()
    }
}

/// When mint keys are unique, any index that carries the key is the one
/// `mint_idx` denotes.
pub proof fn lemma_mint_idx_unique(mints: Seq<MintRecord>, key: u64, i: int)
    requires
        mint_keys_unique(mints),
        0 <= i < mints.len(),
        mints[i].key == key,
    ensures
        has_mint(mints, key),
        mint_idx(mints, key) == i,
{
    assert(has_mint(mints, key));
    let j = mint_idx(mints, key);
    if j < i {
        assert(mints[j].key != mints[i].key);
    } else if j > i {
        assert(mints[i].key != mints[j].key);
    }
}

/// When wallet keys are unique, any index that carries the key is the one
/// `wallet_idx` denotes.
pub proof fn lemma_wallet_idx_unique(wallets: Seq<Wallet>, key: u64, i: int)
    requires
        wallet_keys_unique(wallets),
        0 <= i < wallets.len(),
        wallets[i].key == key,
    ensures
        has_wallet(wallets, key),
        wallet_idx(wallets, key) == i,
{
    assert(has_wallet(wallets, key));
    let j = wallet_idx(wallets, key);
    if j < i {
        assert(wallets[j].key != wallets[i].key);
    } else if j > i {
        assert(wallets[i].key != wallets[j].key);
    }
}

/// When holding pairs are unique, any index that carries the pair is the
/// one `holding_idx` denotes.
pub proof fn lemma_holding_idx_unique(
    holdings: Seq<HoldingAccount>,
    holder: u64,
    mint: u64,
    i: int,
)
    requires
        holding_pairs_unique(holdings),
        0 <= i < holdings.len(),
        holdings[i].holder == holder,
        holdings[i].mint == mint,
    ensures
        has_holding(holdings, holder, mint),
        holding_idx(holdings, holder, mint) == i,
{
    assert(has_holding(holdings, holder, mint));
    let j = holding_idx(holdings, holder, mint);
    if j < i {
        assert(!(holdings[j].holder == holdings[i].holder && holdings[j].mint
            == holdings[i].mint));
    } else if j > i {
        assert(!(holdings[i].holder == holdings[j].holder && holdings[i].mint
            == holdings[j].mint));
    }
}

/// Replacing a mint record with one of the same key keeps mint keys
/// unique, keeps every key's presence, and keeps metadata bounds if the
/// replacement respects them.
pub proof fn lemma_mint_update_same_key(s: Seq<MintRecord>, i: int, m: MintRecord)
    requires
        mint_keys_unique(s),
        0 <= i < s.len(),
        m.key == s[i].key,
        m.metadata_wf(),
        forall|j: int| 0 <= j < s.len() ==> (#[trigger] s[j]).metadata_wf(),
    ensures
        mint_keys_unique(s.update(i, m)),
        forall|k: u64| has_mint(s.update(i, m), k) <==> has_mint(s, k),
        forall|j: int| 0 <= j < s.update(i, m).len() ==> (#[trigger] s.update(i, m)[j]).metadata_wf(),
        mint_idx(s.update(i, m), m.key) == i,
{
    let t = s.update(i, m);
    assert(forall|j: int| 0 <= j < t.len() ==> (#[trigger] t[j]).key == s[j].key);
    assert forall|k: u64| has_mint(t, k) implies has_mint(s, k) by {
        let j = choose|j: int| 0 <= j < t.len() && t[j].key == k;
        assert(s[j].key == k);
    }
    assert forall|k: u64| has_mint(s, k) implies has_mint(t, k) by {
        let j = choose|j: int| 0 <= j < s.len() && s[j].key == k;
        assert(t[j].key == k);
    }
    lemma_mint_idx_unique(t, m.key, i);
}

/// Appending a mint record with a fresh key keeps mint keys unique; the
/// new record sits at the old length, and exactly its key is added.
pub proof fn lemma_mint_push_fresh(s: Seq<MintRecord>, m: MintRecord)
    requires
        mint_keys_unique(s),
        !has_mint(s, m.key),
        m.metadata_wf(),
        forall|j: int| 0 <= j < s.len() ==> (#[trigger] s[j]).metadata_wf(),
    ensures
        mint_keys_unique(s.push(m)),
        forall|k: u64| has_mint(s.push(m), k) <==> has_mint(s, k) || k == m.key,
        forall|j: int| 0 <= j < s.push(m).len() ==> (#[trigger] s.push(m)[j]).metadata_wf(),
        mint_idx(s.push(m), m.key) == s.len(),
{
    let t = s.push(m);
    assert(forall|j: int| 0 <= j < s.len() ==> (#[trigger] t[j]).key == s[j].key);
    assert(t[s.len() as int] == m);
    assert forall|i: int, j: int| 0 <= i < j < t.len() implies t[i].key != t[j].key by {
        if j == s.len() {
            if t[i].key == m.key {
                assert(s[i].key == m.key);
                assert(has_mint(s, m.key));
            }
        }
    }
    assert forall|k: u64| has_mint(t, k) implies has_mint(s, k) || k == m.key by {
        let j = choose|j: int| 0 <= j < t.len() && t[j].key == k;
        if j < s.len() {
            assert(s[j].key == k);
        }
    }
    assert forall|k: u64| has_mint(s, k) || k == m.key implies has_mint(t, k) by {
        if has_mint(s, k) {
            let j = choose|j: int| 0 <= j < s.len() && s[j].key == k;
            assert(t[j].key == k);
        } else {
            assert(t[s.len() as int].key == k);
        }
    }
    lemma_mint_idx_unique(t, m.key, s.len() as int);
}

/// Replacing a wallet with one of the same key keeps wallet keys unique.
pub proof fn lemma_wallet_update_same_key(s: Seq<Wallet>, i: int, w: Wallet)
    requires
        wallet_keys_unique(s),
        0 <= i < s.len(),
        w.key == s[i].key,
    ensures
        wallet_keys_unique(s.update(i, w)),
        wallet_idx(s.update(i, w), w.key) == i,
{
    let t = s.update(i, w);
    assert(forall|j: int| 0 <= j < t.len() ==> (#[trigger] t[j]).key == s[j].key);
    lemma_wallet_idx_unique(t, w.key, i);
}

/// Replacing a holding account with one of the same pair keeps the pairs
/// unique.
pub proof fn lemma_holding_update_same_pair(s: Seq<HoldingAccount>, i: int, h: HoldingAccount)
    requires
        holding_pairs_unique(s),
        0 <= i < s.len(),
        h.holder == s[i].holder,
        h.mint == s[i].mint,
    ensures
        holding_pairs_unique(s.update(i, h)),
{
    let t = s.update(i, h);
    assert(forall|j: int|
        0 <= j < t.len() ==> (#[trigger] t[j]).holder == s[j].holder && t[j].mint == s[j].mint);
}

/// Appending a holding account for a pair not yet present keeps the pairs
/// unique.
pub proof fn lemma_holding_push_fresh(s: Seq<HoldingAccount>, h: HoldingAccount)
    requires
        holding_pairs_unique(s),
        !has_holding(s, h.holder, h.mint),
    ensures
        holding_pairs_unique(s.push(h)),
{
    let t = s.push(h);
    assert(forall|j: int|
        0 <= j < s.len() ==> (#[trigger] t[j]).holder == s[j].holder && t[j].mint == s[j].mint);
    assert forall|i: int, j: int|
        0 <= i < j < t.len() implies !(t[i].holder == t[j].holder && t[i].mint == t[j].mint) by {
        if j == s.len() {
            if t[i].holder == h.holder && t[i].mint == h.mint {
                assert(s[i].holder == h.holder && s[i].mint == h.mint);
                assert(has_holding(s, h.holder, h.mint));
            }
        }
    }
}

/// Finds the mint record with the given key, if any.
pub fn find_mint(mints: &Vec<MintRecord>, key: u64) -> (r: Option<usize>)
    ensures
        match r {
            Some(i) => i < mints@.len() && mints@[i as int].key == key,
            None => !has_mint(mints@, key),
        },
{
    let mut i: usize = 0;
    while i < mints.len()
        invariant
            i <= mints@.len(),
            forall|j: int| 0 <= j < i ==> mints@[j].key != key,
        decreases mints@.len() - i,
    {
        if mints[i].key == key {
            return Some(i);
        }
        i += 1;
    }
    None
}

/// Finds the wallet with the given key, if any.
pub fn find_wallet(wallets: &Vec<Wallet>, key: u64) -> (r: Option<usize>)
    ensures
        match r {
            Some(i) => i < wallets@.len() && wallets@[i as int].key == key,
            None => !has_wallet(wallets@, key),
        },
{
    let mut i: usize = 0;
    while i < wallets.len()
        invariant
            i <= wallets@.len(),
            forall|j: int| 0 <= j < i ==> wallets@[j].key != key,
        decreases wallets@.len() - i,
    {
        if wallets[i].key == key {
            return Some(i);
        }
        i += 1;
    }
    None
}

/// Finds the holding account of the given (holder, mint) pair, if any.
pub fn find_holding(holdings: &Vec<HoldingAccount>, holder: u64, mint: u64) -> (r: Option<usize>)
    ensures
        match r {
            Some(i) => i < holdings@.len() && holdings@[i as int].holder == holder
                && holdings@[i as int].mint == mint,
            None => !has_holding(holdings@, holder, mint),
        },
{
    let mut i: usize = 0;
    while i < holdings.len()
        invariant
            i <= holdings@.len(),
            forall|j: int|
                0 <= j < i ==> !(holdings@[j].holder == holder && holdings@[j].mint == mint),
        decreases holdings@.len() - i,
    {
        if holdings[i].holder == holder && holdings[i].mint == mint {
            return Some(i);
        }
        i += 1;
    }
    None
}

} // verus!
