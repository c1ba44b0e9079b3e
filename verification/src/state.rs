//! The records of the ledger and the accounts that hold them.

use vstd::prelude::*;
use vstd::slice::slice_to_vec;
use crate::error::TokenError;
use crate::pubkey::{pubkey_eq, Pubkey, PROGRAM_ID, SYSTEM_PROGRAM_ID};

verus! {

/// The most signers a multisignature can name.
pub const MAX_SIGNERS: usize = 11;

/// The size in bytes of a stored holding.
pub const ACCOUNT_LEN: usize = 165;

/// A fungible asset: its supply, its decimals and who may mint or freeze.
#[derive(Clone, Copy, Debug, PartialEq, Eq)]
pub struct Mint {
    /// Who may mint. With none the supply is fixed.
    pub mint_authority: Option<Pubkey>,
    /// The units outstanding.
    pub supply: u64,
    /// The number of decimal places of one unit, fixed when the mint is initialized.
    pub decimals: u8,
    pub is_initialized: bool,
    /// Who may freeze and thaw the holdings of this mint.
    pub freeze_authority: Option<Pubkey>,
}

/// The state of a holding.
#[derive(Clone, Copy, Debug, PartialEq, Eq, Structural)]
pub enum AccountState {
    Uninitialized,
    Initialized,
    Frozen,
}

/// A holding of the units of one mint.
#[derive(Clone, Copy, Debug, PartialEq, Eq)]
pub struct Account {
    /// The mint whose units are held.
    pub mint: Pubkey,
    /// Who controls the holding.
    pub owner: Pubkey,
    /// The balance.
    pub amount: u64,
    /// A second authority, allowed to move up to `delegated_amount` units.
    pub delegate: Option<Pubkey>,
    pub state: AccountState,
    /// Present on a holding that wraps the native currency: the lamports that
    /// stay in the account and are no part of `amount`.
    pub is_native: Option<u64>,
    /// What the delegate may still move.
    pub delegated_amount: u64,
    /// Who may close the holding, in place of the owner.
    pub close_authority: Option<Pubkey>,
    /// Once set, the owner can no longer be replaced.
    pub immutable_owner: bool,
}

/// An authority that `m` of its `n` signers exercise together.
#[derive(Clone, Copy, Debug, PartialEq, Eq)]
pub struct Multisig {
    /// How many signers are required.
    pub m: u8,
    /// How many signers are named.
    pub n: u8,
    pub is_initialized: bool,
    /// The signers: the first `n` entries count.
    pub signers: [Pubkey; 11],
}

/// What an account holds.
#[derive(Clone, Copy, Debug, PartialEq, Eq)]
pub enum AccountData {
    /// No record.
    Empty,
    Mint(Mint),
    Account(Account),
    Multisig(Multisig),
}

/// One account as the runtime presents it to an instruction.
#[derive(Clone, Copy, Debug, PartialEq, Eq)]
pub struct AccountInfo {
    /// The address of the account.
    pub key: Pubkey,
    /// The program that owns the account.
    pub owner: Pubkey,
    /// The native currency in the account.
    pub lamports: u64,
    /// Whether the holder of `key` signed the transaction.
    pub is_signer: bool,
    pub data: AccountData,
}

impl Account {
    pub open spec fn is_initialized(self) -> bool {
        self.state != AccountState::Uninitialized
    }

    pub open spec fn is_frozen(self) -> bool {
        self.state == AccountState::Frozen
    }

    /// A holding as the runtime creates it: every field zero.
    pub fn uninitialized() -> (account: Account)
        ensures
            account == (Account {
                mint: SYSTEM_PROGRAM_ID,
                owner: SYSTEM_PROGRAM_ID,
                amount: 0,
                delegate: None,
                state: AccountState::Uninitialized,
                is_native: None,
                delegated_amount: 0,
                close_authority: None,
                immutable_owner: false,
            }),
    {
        Account {
            mint: SYSTEM_PROGRAM_ID,
            owner: SYSTEM_PROGRAM_ID,
            amount: 0,
            delegate: None,
            state: AccountState::Uninitialized,
            is_native: None,
            delegated_amount: 0,
            close_authority: None,
            immutable_owner: false,
        }
    }
}

impl Mint {
    /// A mint as the runtime creates it: every field zero.
    pub fn uninitialized() -> (mint: Mint)
        ensures
            mint == (Mint {
                mint_authority: None,
                supply: 0,
                decimals: 0,
                is_initialized: false,
                freeze_authority: None,
            }),
    {
        Mint {
            mint_authority: None,
            supply: 0,
            decimals: 0,
            is_initialized: false,
            freeze_authority: None,
        }
    }
}

impl Multisig {
    /// The signers that count: the first `n`, and never more than the record has room for.
    pub open spec fn signer_count(self) -> nat {
        if self.n <= MAX_SIGNERS {
            self.n as nat
        } else {
            MAX_SIGNERS as nat
        }
    }

    /// What an initialized multisignature satisfies: `1 <= m <= n <= 11`.
    pub open spec fn well_formed(self) -> bool {
        1 <= self.m && self.m <= self.n && self.n <= MAX_SIGNERS
    }

    /// A multisignature as the runtime creates it: every field zero.
    pub fn uninitialized() -> (multisig: Multisig)
        ensures
            multisig.m == 0,
            multisig.n == 0,
            !multisig.is_initialized,
            forall|i: int| 0 <= i < 11 ==> multisig.signers[i] == SYSTEM_PROGRAM_ID,
    {
        Multisig { m: 0, n: 0, is_initialized: false, signers: [SYSTEM_PROGRAM_ID; 11] }
    }
}

impl AccountInfo {
    /// The initialized mint in this account: `IncorrectProgramId` where the
    /// account is not the program's, `InvalidMint` where it holds none.
    pub open spec fn mint(self) -> Result<Mint, TokenError> {
        if self.owner != PROGRAM_ID {
            Err(TokenError::IncorrectProgramId)
        } else {
            match self.data {
                AccountData::Mint(m) => if m.is_initialized {
                    Ok(m)
                } else {
                    Err(TokenError::InvalidMint)
                },
                _ => Err(TokenError::InvalidMint),
            }
        }
    }

    /// The initialized holding in this account: `IncorrectProgramId` where the
    /// account is not the program's, `InvalidAccountData` where it holds none.
    pub open spec fn holding(self) -> Result<Account, TokenError> {
        if self.owner != PROGRAM_ID {
            Err(TokenError::IncorrectProgramId)
        } else {
            match self.data {
                AccountData::Account(a) => if a.is_initialized() {
                    Ok(a)
                } else {
                    Err(TokenError::InvalidAccountData)
                },
                _ => Err(TokenError::InvalidAccountData),
            }
        }
    }

    /// Whether this account is the program's and holds a multisignature,
    /// initialized or not.
    pub open spec fn is_multisig(self) -> bool {
        self.owner == PROGRAM_ID && self.data is Multisig
    }

    /// This account with another record in it.
    pub open spec fn with_data(self, data: AccountData) -> AccountInfo {
        AccountInfo { data, ..self }
    }

    /// The initialized mint in this account.
    pub fn load_mint(&self) -> (loaded: Result<Mint, TokenError>)
        ensures
            loaded == self.mint(),
    {
        if !pubkey_eq(&self.owner, &PROGRAM_ID) {
            return Err(TokenError::IncorrectProgramId);
        }
        match self.data {
            AccountData::Mint(m) => {
                if m.is_initialized {
                    Ok(m)
                } else {
                    Err(TokenError::InvalidMint)
                }
            },
            _ => Err(TokenError::InvalidMint),
        }
    }

    /// The initialized holding in this account.
    pub fn load_account(&self) -> (loaded: Result<Account, TokenError>)
        ensures
            loaded == self.holding(),
    {
        if !pubkey_eq(&self.owner, &PROGRAM_ID) {
            return Err(TokenError::IncorrectProgramId);
        }
        match self.data {
            AccountData::Account(a) => {
                match a.state {
                    AccountState::Uninitialized => Err(TokenError::InvalidAccountData),
                    _ => Ok(a),
                }
            },
            _ => Err(TokenError::InvalidAccountData),
        }
    }
}

/// The accounts of one invocation, with what the runtime tells and is told.
#[derive(Clone, Debug, PartialEq, Eq)]
pub struct Ledger {
    /// The accounts, each address once.
    pub accounts: Vec<AccountInfo>,
    /// The lamports that keep a holding exempt from rent, as the runtime states them.
    pub rent_exempt_reserve: u64,
    /// What the last instruction that returns data handed back.
    pub return_data: Vec<u8>,
}

/// A ledger as a mathematical value.
#[verifier::ext_equal]
pub struct LedgerView {
    pub accounts: Seq<AccountInfo>,
    pub rent_exempt_reserve: u64,
    pub return_data: Seq<u8>,
}

impl View for Ledger {
    type V = LedgerView;

    open spec fn view(&self) -> LedgerView {
        LedgerView {
            accounts: self.accounts@,
            rent_exempt_reserve: self.rent_exempt_reserve,
            return_data: self.return_data@,
        }
    }
}

impl LedgerView {
    /// Whether no two accounts share an address.
    pub open spec fn distinct_keys(self) -> bool {
        forall|i: int, j: int|
            0 <= i < self.accounts.len() && 0 <= j < self.accounts.len() && i != j
                ==> (#[trigger] self.accounts[i]).key != (#[trigger] self.accounts[j]).key
    }

    /// Whether position `k` of an instruction's account list names an account of the ledger.
    pub open spec fn names(self, accounts: Seq<usize>, k: int) -> bool {
        0 <= k < accounts.len() && accounts[k] < self.accounts.len()
    }

    /// The account that position `k` of an instruction's account list names.
    pub open spec fn at(self, accounts: Seq<usize>, k: int) -> AccountInfo {
        self.accounts[accounts[k] as int]
    }

    /// This ledger with account `i` replaced.
    pub open spec fn with_info(self, i: int, info: AccountInfo) -> LedgerView {
        LedgerView { accounts: self.accounts.update(i, info), ..self }
    }

    /// This ledger with another record in account `i`.
    pub open spec fn with_data(self, i: int, data: AccountData) -> LedgerView {
        self.with_info(i, self.accounts[i].with_data(data))
    }

    /// This ledger with other data returned.
    pub open spec fn with_return_data(self, return_data: Seq<u8>) -> LedgerView {
        LedgerView { return_data, ..self }
    }
}

/// Whether one of the accounts has the address `key`.
pub open spec fn has_key(accounts: Seq<AccountInfo>, key: Pubkey) -> bool {
    exists|i: int| 0 <= i < accounts.len() && (#[trigger] accounts[i]).key == key
}

/// Where among the accounts the one with the address `key` stands.
pub open spec fn position_of(accounts: Seq<AccountInfo>, key: Pubkey) -> int {
    choose|i: int| 0 <= i < accounts.len() && (#[trigger] accounts[i]).key == key
}

/// The accounts that an instruction lists, each once: where an address is
/// listed again, the account that was listed first stands for it.
pub open spec fn gathered(listed: Seq<AccountInfo>) -> Seq<AccountInfo>
    decreases listed.len(),
{
    if listed.len() == 0 {
        Seq::empty()
    } else if has_key(gathered(listed.drop_last()), listed.last().key) {
        gathered(listed.drop_last())
    } else {
        gathered(listed.drop_last()).push(listed.last())
    }
}

/// Where in the ledger each of the accounts that an instruction lists stands.
pub open spec fn gathered_positions(listed: Seq<AccountInfo>) -> Seq<usize> {
    Seq::new(listed.len(), |k: int| position_of(gathered(listed), listed[k].key) as usize)
}

/// Among accounts with distinct addresses, an address stands in one place.
pub proof fn lemma_position_of(accounts: Seq<AccountInfo>, i: int)
    requires
        0 <= i < accounts.len(),
        forall|a: int, b: int|
            0 <= a < accounts.len() && 0 <= b < accounts.len() && a != b ==> (
            #[trigger] accounts[a]).key != (#[trigger] accounts[b]).key,
    ensures
        position_of(accounts, accounts[i].key) == i,
{
    let found = position_of(accounts, accounts[i].key);
    assert(accounts[found].key == accounts[i].key);
}

impl Ledger {
    /// The ledger of the accounts that an instruction lists, and the position
    /// in it of each of them. No two accounts of the ledger share an address.
    pub fn gather(listed: &[AccountInfo], rent_exempt_reserve: u64) -> (made: (Ledger, Vec<usize>))
        ensures
            made.0@.accounts == gathered(listed@),
            made.0@.rent_exempt_reserve == rent_exempt_reserve,
            made.0@.return_data == Seq::<u8>::empty(),
            made.0@.distinct_keys(),
            made.1@ == gathered_positions(listed@),
            forall|k: int|
                0 <= k < listed@.len() ==> made.0@.names(made.1@, k) && made.0@.at(made.1@, k).key
                    == listed@[k].key,
    {
        let mut accounts: Vec<AccountInfo> = Vec::new();
        let mut positions: Vec<usize> = Vec::new();
        let mut k: usize = 0;
        while k < listed.len()
            invariant
                k <= listed@.len(),
                accounts@ == gathered(listed@.take(k as int)),
                positions@.len() == k,
                forall|a: int, b: int|
                    0 <= a < accounts@.len() && 0 <= b < accounts@.len() && a != b ==> (
                    #[trigger] accounts@[a]).key != (#[trigger] accounts@[b]).key,
                forall|j: int|
                    0 <= j < k ==> (#[trigger] positions@[j]) < accounts@.len()
                        && accounts@[positions@[j] as int].key == listed@[j].key,
            decreases listed@.len() - k,
        {
            assert(listed@.take(k + 1).drop_last() =~= listed@.take(k as int));
            let mut i: usize = 0;
            while i < accounts.len() && !pubkey_eq(&accounts[i].key, &listed[k].key)
                invariant
                    i <= accounts@.len(),
                    k < listed@.len(),
                    forall|j: int| 0 <= j < i ==> (#[trigger] accounts@[j]).key != listed@[k as int].key,
                decreases accounts@.len() - i,
            {
                i += 1;
            }
            if i == accounts.len() {
                accounts.push(listed[k]);
            }
            positions.push(i);
            k += 1;
        }
        assert(listed@.take(listed@.len() as int) =~= listed@);
        assert(positions@ =~= gathered_positions(listed@)) by {
            assert forall|j: int| 0 <= j < listed@.len() implies positions@[j]
                == gathered_positions(listed@)[j] by {
                lemma_position_of(accounts@, positions@[j] as int);
            }
        }
        (Ledger { accounts, rent_exempt_reserve, return_data: Vec::new() }, positions)
    }

    /// A ledger of the given accounts, with no data returned yet.
    pub fn new(accounts: Vec<AccountInfo>, rent_exempt_reserve: u64) -> (ledger: Ledger)
        ensures
            ledger@.accounts == accounts@,
            ledger@.rent_exempt_reserve == rent_exempt_reserve,
            ledger@.return_data == Seq::<u8>::empty(),
    {
        Ledger { accounts, rent_exempt_reserve, return_data: Vec::new() }
    }

    /// The index of the account that position `k` of an instruction's account
    /// list names, or `NotEnoughAccountKeys` where it names none.
    pub fn account_index(&self, accounts: &[usize], k: usize) -> (found: Result<usize, TokenError>)
        ensures
            match found {
                Ok(i) => self@.names(accounts@, k as int) && i == accounts@[k as int],
                Err(e) => !self@.names(accounts@, k as int) && e == TokenError::NotEnoughAccountKeys,
            },
    {
        if k < accounts.len() && accounts[k] < self.accounts.len() {
            Ok(accounts[k])
        } else {
            Err(TokenError::NotEnoughAccountKeys)
        }
    }

    /// A copy of this ledger.
    pub fn duplicate(&self) -> (copy: Ledger)
        ensures
            copy@ == self@,
    {
        Ledger {
            accounts: slice_to_vec(self.accounts.as_slice()),
            rent_exempt_reserve: self.rent_exempt_reserve,
            return_data: slice_to_vec(self.return_data.as_slice()),
        }
    }

    /// Replaces account `i`.
    pub fn put(&mut self, i: usize, info: AccountInfo)
        requires
            i < old(self)@.accounts.len(),
        ensures
            final(self)@ == old(self)@.with_info(i as int, info),
    {
        self.accounts.set(i, info);
    }

    /// Puts another record in account `i`.
    pub fn store(&mut self, i: usize, data: AccountData)
        requires
            i < old(self)@.accounts.len(),
        ensures
            final(self)@ == old(self)@.with_data(i as int, data),
    {
        let mut info = self.accounts[i];
        info.data = data;
        self.accounts.set(i, info);
    }
}

} // verus!
