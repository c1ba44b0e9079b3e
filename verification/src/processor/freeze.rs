//! `FreezeAccount` and `ThawAccount`.

use vstd::prelude::*;
use crate::authority::{authority_failure, validate_owner};
use crate::error::TokenError;
use crate::processor::{check_mint, mint_failure, outcome_is, settle};
use crate::state::{Account, AccountData, AccountState, Ledger, LedgerView};

verus! {

/// The state that freezing (`freeze`) or thawing leaves a holding in.
pub open spec fn toggled_state(freeze: bool) -> AccountState {
    if freeze {
        AccountState::Frozen
    } else {
        AccountState::Initialized
    }
}

/// Why freezing (`freeze`) or thawing is refused. The accounts are the
/// holding, its mint, the freeze authority and its signers.
pub open spec fn toggle_failure(ledger: LedgerView, accounts: Seq<usize>, freeze: bool) -> Option<
    TokenError,
> {
    let source = ledger.at(accounts, 0).holding();
    let mint_info = ledger.at(accounts, 1);
    let mint = mint_info.mint()->Ok_0;
    if !ledger.names(accounts, 0) || !ledger.names(accounts, 1) || !ledger.names(accounts, 2) {
        Some(TokenError::NotEnoughAccountKeys)
    } else if source is Err {
        Some(source->Err_0)
    } else if source->Ok_0.is_frozen() == freeze {
        Some(TokenError::InvalidState)
    } else if source->Ok_0.is_native is Some {
        Some(TokenError::NativeNotSupported)
    } else if mint_failure(mint_info, source->Ok_0.mint, None) is Some {
        mint_failure(mint_info, source->Ok_0.mint, None)
    } else if mint.freeze_authority is None {
        Some(TokenError::MintCannotFreeze)
    } else {
        authority_failure(ledger, mint.freeze_authority->Some_0, accounts, 2)
    }
}

/// The ledger after freezing or thawing: only the state of the holding differs.
pub open spec fn toggle_effect(ledger: LedgerView, accounts: Seq<usize>, freeze: bool) -> LedgerView {
    let source = ledger.at(accounts, 0).holding()->Ok_0;
    ledger.with_data(
        accounts[0] as int,
        AccountData::Account(Account { state: toggled_state(freeze), ..source }),
    )
}

/// What `FreezeAccount` comes to.
pub open spec fn freeze_step(ledger: LedgerView, accounts: Seq<usize>) -> Result<
    LedgerView,
    TokenError,
> {
    settle(toggle_failure(ledger, accounts, true), toggle_effect(ledger, accounts, true))
}

/// What `ThawAccount` comes to.
pub open spec fn thaw_step(ledger: LedgerView, accounts: Seq<usize>) -> Result<
    LedgerView,
    TokenError,
> {
    settle(toggle_failure(ledger, accounts, false), toggle_effect(ledger, accounts, false))
}

/// Freezes (`freeze`) or thaws the holding.
pub fn toggle_account_state(ledger: &mut Ledger, accounts: &[usize], freeze: bool) -> (result: Result<
    (),
    TokenError,
>)
    ensures
        outcome_is(
            old(ledger)@,
            final(ledger)@,
            result,
            settle(
                toggle_failure(old(ledger)@, accounts@, freeze),
                toggle_effect(old(ledger)@, accounts@, freeze),
            ),
        ),
{
    let from_i = ledger.account_index(accounts, 0)?;
    let mint_i = ledger.account_index(accounts, 1)?;
    ledger.account_index(accounts, 2)?;
    let from_info = ledger.accounts[from_i];
    let mut source = from_info.load_account()?;
    let frozen = source.state == AccountState::Frozen;
    if frozen == freeze {
        return Err(TokenError::InvalidState);
    }
    if source.is_native.is_some() {
        return Err(TokenError::NativeNotSupported);
    }
    let mint_info = ledger.accounts[mint_i];
    let mint = check_mint(&mint_info, &source.mint, None)?;
    match mint.freeze_authority {
        None => {
            return Err(TokenError::MintCannotFreeze);
        },
        Some(authority) => {
            validate_owner(ledger, &authority, accounts, 2)?;
        },
    }
    source.state = if freeze {
        AccountState::Frozen
    } else {
        AccountState::Initialized
    };
    ledger.store(from_i, AccountData::Account(source));
    Ok(())
}

/// `FreezeAccount`: freezes a holding.
pub fn process_freeze_account(ledger: &mut Ledger, accounts: &[usize]) -> (result: Result<
    (),
    TokenError,
>)
    ensures
        outcome_is(old(ledger)@, final(ledger)@, result, freeze_step(old(ledger)@, accounts@)),
{
    toggle_account_state(ledger, accounts, true)
}

/// `ThawAccount`: thaws a frozen holding.
pub fn process_thaw_account(ledger: &mut Ledger, accounts: &[usize]) -> (result: Result<
    (),
    TokenError,
>)
    ensures
        outcome_is(old(ledger)@, final(ledger)@, result, thaw_step(old(ledger)@, accounts@)),
{
    toggle_account_state(ledger, accounts, false)
}

} // verus!
