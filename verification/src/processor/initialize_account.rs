//! `InitializeAccount`, `InitializeAccount2`, `InitializeAccount3` and
//! `InitializeImmutableOwner`.

use vstd::prelude::*;
use crate::error::TokenError;
use crate::instruction::{pubkey_args, unpack_pubkey_args};
use crate::processor::{outcome_is, settle};
use crate::pubkey::{pubkey_eq, Pubkey, NATIVE_MINT_ID, PROGRAM_ID};
use crate::state::{Account, AccountData, AccountInfo, AccountState, Ledger, LedgerView};

verus! {

/// Why an account cannot become a holding: it is not the program's, has no
/// room for a holding, or holds one already.
pub open spec fn blank_holding_failure(info: AccountInfo) -> Option<TokenError> {
    if info.owner != PROGRAM_ID {
        Some(TokenError::IncorrectProgramId)
    } else if !(info.data is Account) {
        Some(TokenError::InvalidAccountData)
    } else if info.data->Account_0.is_initialized() {
        Some(TokenError::AlreadyInitialized)
    } else {
        None
    }
}

/// Why a holding is not initialized. The first `needed` positions must name
/// accounts: the holding, its mint, and whatever else the instruction lists.
pub open spec fn initialize_account_failure(
    ledger: LedgerView,
    accounts: Seq<usize>,
    needed: int,
) -> Option<TokenError> {
    let info = ledger.at(accounts, 0);
    let mint_info = ledger.at(accounts, 1);
    if exists|k: int| 0 <= k < needed && !#[trigger] ledger.names(accounts, k) {
        Some(TokenError::NotEnoughAccountKeys)
    } else if blank_holding_failure(info) is Some {
        blank_holding_failure(info)
    } else if mint_info.key != NATIVE_MINT_ID && mint_info.mint() is Err {
        Some(mint_info.mint()->Err_0)
    } else if mint_info.key == NATIVE_MINT_ID && info.lamports < ledger.rent_exempt_reserve {
        Some(TokenError::Overflow)
    } else {
        None
    }
}

/// The holding that initializing gives `owner`. A holding of the native mint
/// wraps the lamports of its account beyond the rent-exempt reserve; any
/// other starts empty. Whether the owner is immutable stays as it was set.
pub open spec fn new_holding(ledger: LedgerView, accounts: Seq<usize>, owner: Pubkey) -> Account {
    let info = ledger.at(accounts, 0);
    let native = ledger.at(accounts, 1).key == NATIVE_MINT_ID;
    Account {
        mint: ledger.at(accounts, 1).key,
        owner,
        amount: if native {
            (info.lamports - ledger.rent_exempt_reserve) as u64
        } else {
            0
        },
        delegate: None,
        state: AccountState::Initialized,
        is_native: if native {
            Some(ledger.rent_exempt_reserve)
        } else {
            None
        },
        delegated_amount: 0,
        close_authority: None,
        immutable_owner: info.data->Account_0.immutable_owner,
    }
}

/// What initializing a holding for `owner` comes to.
pub open spec fn initialize_account(
    ledger: LedgerView,
    accounts: Seq<usize>,
    owner: Pubkey,
    needed: int,
) -> Result<LedgerView, TokenError> {
    settle(
        initialize_account_failure(ledger, accounts, needed),
        ledger.with_data(
            accounts[0] as int,
            AccountData::Account(new_holding(ledger, accounts, owner)),
        ),
    )
}

/// What `InitializeAccount` comes to. The accounts are the holding, the mint,
/// the owner and the rent sysvar, which is not read.
pub open spec fn initialize_account_step(ledger: LedgerView, accounts: Seq<usize>) -> Result<
    LedgerView,
    TokenError,
> {
    initialize_account(ledger, accounts, ledger.at(accounts, 2).key, 4)
}

/// What `InitializeAccount2` comes to. The accounts are the holding, the mint
/// and the rent sysvar, which is not read; the payload is the owner.
pub open spec fn initialize_account2_step(
    ledger: LedgerView,
    accounts: Seq<usize>,
    data: Seq<u8>,
) -> Result<LedgerView, TokenError> {
    match pubkey_args(data) {
        Ok(owner) => initialize_account(ledger, accounts, owner, 3),
        Err(e) => Err(e),
    }
}

/// What `InitializeAccount3` comes to. The accounts are the holding and the
/// mint; the payload is the owner.
pub open spec fn initialize_account3_step(
    ledger: LedgerView,
    accounts: Seq<usize>,
    data: Seq<u8>,
) -> Result<LedgerView, TokenError> {
    match pubkey_args(data) {
        Ok(owner) => initialize_account(ledger, accounts, owner, 2),
        Err(e) => Err(e),
    }
}

/// What `InitializeImmutableOwner` comes to. The one account is a holding
/// that is not initialized yet.
pub open spec fn initialize_immutable_owner_step(
    ledger: LedgerView,
    accounts: Seq<usize>,
) -> Result<LedgerView, TokenError> {
    if !ledger.names(accounts, 0) {
        Err(TokenError::NotEnoughAccountKeys)
    } else {
        settle(
            blank_holding_failure(ledger.at(accounts, 0)),
            ledger.with_data(
                accounts[0] as int,
                AccountData::Account(
                    Account { immutable_owner: true, ..ledger.at(accounts, 0).data->Account_0 },
                ),
            ),
        )
    }
}

/// The holding in an account that can become one.
fn load_blank_holding(info: &AccountInfo) -> (loaded: Result<Account, TokenError>)
    ensures
        match loaded {
            Ok(blank) => blank_holding_failure(*info) is None && info.data == AccountData::Account(
                blank,
            ),
            Err(e) => blank_holding_failure(*info) == Some(e),
        },
{
    if !pubkey_eq(&info.owner, &PROGRAM_ID) {
        return Err(TokenError::IncorrectProgramId);
    }
    match info.data {
        AccountData::Account(blank) => {
            if blank.state == AccountState::Uninitialized {
                Ok(blank)
            } else {
                Err(TokenError::AlreadyInitialized)
            }
        },
        _ => Err(TokenError::InvalidAccountData),
    }
}

/// Initializes the holding at position 0 for `owner`, after the first
/// `needed` positions were found to name accounts.
fn initialize_holding(ledger: &mut Ledger, accounts: &[usize], owner: Pubkey, needed: usize) -> (result:
    Result<(), TokenError>)
    requires
        2 <= needed <= 4,
    ensures
        outcome_is(
            old(ledger)@,
            final(ledger)@,
            result,
            initialize_account(old(ledger)@, accounts@, owner, needed as int),
        ),
{
    let mut k: usize = 0;
    while k < needed
        invariant
            k <= needed <= 4,
            2 <= needed,
            forall|j: int| 0 <= j < k ==> ledger@.names(accounts@, j),
            ledger@ == old(ledger)@,
        decreases needed - k,
    {
        if ledger.account_index(accounts, k).is_err() {
            return Err(TokenError::NotEnoughAccountKeys);
        }
        k += 1;
    }
    assert(ledger@.names(accounts@, 0) && ledger@.names(accounts@, 1));
    let i = accounts[0];
    let info = ledger.accounts[i];
    let blank = load_blank_holding(&info)?;
    let mint_info = ledger.accounts[accounts[1]];
    let native = pubkey_eq(&mint_info.key, &NATIVE_MINT_ID);
    if !native {
        mint_info.load_mint()?;
    }
    let reserve = ledger.rent_exempt_reserve;
    if native && info.lamports < reserve {
        return Err(TokenError::Overflow);
    }
    let holding = Account {
        mint: mint_info.key,
        owner,
        amount: if native {
            info.lamports - reserve
        } else {
            0
        },
        delegate: None,
        state: AccountState::Initialized,
        is_native: if native {
            Some(reserve)
        } else {
            None
        },
        delegated_amount: 0,
        close_authority: None,
        immutable_owner: blank.immutable_owner,
    };
    ledger.store(i, AccountData::Account(holding));
    Ok(())
}

/// `InitializeAccount`: makes a holding of an uninitialized account, for the
/// owner among the accounts.
pub fn process_initialize_account(ledger: &mut Ledger, accounts: &[usize]) -> (result: Result<
    (),
    TokenError,
>)
    ensures
        outcome_is(
            old(ledger)@,
            final(ledger)@,
            result,
            initialize_account_step(old(ledger)@, accounts@),
        ),
{
    let owner = match ledger.account_index(accounts, 2) {
        Ok(i) => ledger.accounts[i].key,
        Err(e) => {
            assert(!ledger@.names(accounts@, 2));
            return Err(e);
        },
    };
    initialize_holding(ledger, accounts, owner, 4)
}

/// `InitializeAccount2`: `InitializeAccount` with the owner in the payload.
pub fn process_initialize_account2(
    ledger: &mut Ledger,
    accounts: &[usize],
    instruction_data: &[u8],
) -> (result: Result<(), TokenError>)
    ensures
        outcome_is(
            old(ledger)@,
            final(ledger)@,
            result,
            initialize_account2_step(old(ledger)@, accounts@, instruction_data@),
        ),
{
    let owner = unpack_pubkey_args(instruction_data)?;
    initialize_holding(ledger, accounts, owner, 3)
}

/// `InitializeAccount3`: `InitializeAccount2` without the rent sysvar account.
pub fn process_initialize_account3(
    ledger: &mut Ledger,
    accounts: &[usize],
    instruction_data: &[u8],
) -> (result: Result<(), TokenError>)
    ensures
        outcome_is(
            old(ledger)@,
            final(ledger)@,
            result,
            initialize_account3_step(old(ledger)@, accounts@, instruction_data@),
        ),
{
    let owner = unpack_pubkey_args(instruction_data)?;
    initialize_holding(ledger, accounts, owner, 2)
}

/// `InitializeImmutableOwner`: makes the owner that the holding will be
/// initialized with irreplaceable.
pub fn process_initialize_immutable_owner(ledger: &mut Ledger, accounts: &[usize]) -> (result:
    Result<(), TokenError>)
    ensures
        outcome_is(
            old(ledger)@,
            final(ledger)@,
            result,
            initialize_immutable_owner_step(old(ledger)@, accounts@),
        ),
{
    let i = ledger.account_index(accounts, 0)?;
    let info = ledger.accounts[i];
    let mut blank = load_blank_holding(&info)?;
    blank.immutable_owner = true;
    ledger.store(i, AccountData::Account(blank));
    Ok(())
}

} // verus!
