//! `CloseAccount` and `SyncNative`.

use vstd::prelude::*;
use crate::authority::{authority_failure, validate_owner};
use crate::error::TokenError;
use crate::processor::{outcome_is, settle};
use crate::pubkey::{Pubkey, SYSTEM_PROGRAM_ID};
use crate::state::{Account, AccountData, AccountInfo, Ledger, LedgerView};

verus! {

/// Who may close a holding: its close authority, or without one its owner.
pub open spec fn closer(holding: Account) -> Pubkey {
    match holding.close_authority {
        Some(authority) => authority,
        None => holding.owner,
    }
}

/// Why `CloseAccount` is refused. The accounts are the holding, the account
/// that receives its lamports, the authority and its signers.
pub open spec fn close_failure(ledger: LedgerView, accounts: Seq<usize>) -> Option<TokenError> {
    let source = ledger.at(accounts, 0).holding();
    if !ledger.names(accounts, 0) || !ledger.names(accounts, 1) || !ledger.names(accounts, 2) {
        Some(TokenError::NotEnoughAccountKeys)
    } else if accounts[0] == accounts[1] {
        Some(TokenError::InvalidAccountData)
    } else if source is Err {
        Some(source->Err_0)
    } else if source->Ok_0.is_native is None && source->Ok_0.amount != 0 {
        Some(TokenError::NonZeroBalance)
    } else if authority_failure(ledger, closer(source->Ok_0), accounts, 2) is Some {
        authority_failure(ledger, closer(source->Ok_0), accounts, 2)
    } else if ledger.at(accounts, 1).lamports + ledger.at(accounts, 0).lamports > u64::MAX {
        Some(TokenError::Overflow)
    } else {
        None
    }
}

/// An account that was closed: no lamports, no record, and back with the system program.
pub open spec fn closed(info: AccountInfo) -> AccountInfo {
    AccountInfo { owner: SYSTEM_PROGRAM_ID, lamports: 0, data: AccountData::Empty, ..info }
}

/// The ledger after `CloseAccount`: the lamports are with the destination and
/// the holding is gone.
pub open spec fn close_effect(ledger: LedgerView, accounts: Seq<usize>) -> LedgerView {
    let from_info = ledger.at(accounts, 0);
    let to_info = ledger.at(accounts, 1);
    ledger.with_info(
        accounts[1] as int,
        AccountInfo { lamports: (to_info.lamports + from_info.lamports) as u64, ..to_info },
    ).with_info(accounts[0] as int, closed(from_info))
}

/// What `CloseAccount` comes to.
pub open spec fn close_step(ledger: LedgerView, accounts: Seq<usize>) -> Result<
    LedgerView,
    TokenError,
> {
    settle(close_failure(ledger, accounts), close_effect(ledger, accounts))
}

/// Why `SyncNative` is refused. The one account is the holding.
pub open spec fn sync_native_failure(ledger: LedgerView, accounts: Seq<usize>) -> Option<
    TokenError,
> {
    let info = ledger.at(accounts, 0);
    let source = info.holding();
    if !ledger.names(accounts, 0) {
        Some(TokenError::NotEnoughAccountKeys)
    } else if source is Err {
        Some(source->Err_0)
    } else if source->Ok_0.is_native is None {
        Some(TokenError::NotNative)
    } else if info.lamports < source->Ok_0.is_native->Some_0 {
        Some(TokenError::Overflow)
    } else if info.lamports - source->Ok_0.is_native->Some_0 < source->Ok_0.amount {
        Some(TokenError::InvalidState)
    } else {
        None
    }
}

/// The ledger after `SyncNative`: the balance is what the account has in
/// lamports beyond its reserve.
pub open spec fn sync_native_effect(ledger: LedgerView, accounts: Seq<usize>) -> LedgerView {
    let info = ledger.at(accounts, 0);
    let source = info.holding()->Ok_0;
    ledger.with_data(
        accounts[0] as int,
        AccountData::Account(
            Account { amount: (info.lamports - source.is_native->Some_0) as u64, ..source },
        ),
    )
}

/// What `SyncNative` comes to.
pub open spec fn sync_native_step(ledger: LedgerView, accounts: Seq<usize>) -> Result<
    LedgerView,
    TokenError,
> {
    settle(sync_native_failure(ledger, accounts), sync_native_effect(ledger, accounts))
}

/// `CloseAccount`: hands the lamports of a holding to another account and
/// removes the holding.
pub fn process_close_account(ledger: &mut Ledger, accounts: &[usize]) -> (result: Result<
    (),
    TokenError,
>)
    ensures
        outcome_is(old(ledger)@, final(ledger)@, result, close_step(old(ledger)@, accounts@)),
{
    let from_i = ledger.account_index(accounts, 0)?;
    let to_i = ledger.account_index(accounts, 1)?;
    ledger.account_index(accounts, 2)?;
    if from_i == to_i {
        return Err(TokenError::InvalidAccountData);
    }
    let from_info = ledger.accounts[from_i];
    let source = from_info.load_account()?;
    if source.is_native.is_none() && source.amount != 0 {
        return Err(TokenError::NonZeroBalance);
    }
    let authority = match source.close_authority {
        Some(authority) => authority,
        None => source.owner,
    };
    validate_owner(ledger, &authority, accounts, 2)?;
    let mut to_info = ledger.accounts[to_i];
    if to_info.lamports > u64::MAX - from_info.lamports {
        return Err(TokenError::Overflow);
    }
    to_info.lamports = to_info.lamports + from_info.lamports;
    ledger.put(to_i, to_info);
    let mut gone = from_info;
    gone.owner = SYSTEM_PROGRAM_ID;
    gone.lamports = 0;
    gone.data = AccountData::Empty;
    ledger.put(from_i, gone);
    Ok(())
}

/// `SyncNative`: brings the balance of a holding of the native currency in
/// line with the lamports in its account.
pub fn process_sync_native(ledger: &mut Ledger, accounts: &[usize]) -> (result: Result<
    (),
    TokenError,
>)
    ensures
        outcome_is(old(ledger)@, final(ledger)@, result, sync_native_step(old(ledger)@, accounts@)),
{
    let i = ledger.account_index(accounts, 0)?;
    let info = ledger.accounts[i];
    let mut source = info.load_account()?;
    let reserve = match source.is_native {
        Some(reserve) => reserve,
        None => {
            return Err(TokenError::NotNative);
        },
    };
    if info.lamports < reserve {
        return Err(TokenError::Overflow);
    }
    let amount = info.lamports - reserve;
    if amount < source.amount {
        return Err(TokenError::InvalidState);
    }
    source.amount = amount;
    ledger.store(i, AccountData::Account(source));
    Ok(())
}

} // verus!
