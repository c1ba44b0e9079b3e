//! `Approve`, `ApproveChecked` and `Revoke`: the delegate of a holding.

use vstd::prelude::*;
use crate::authority::{authority_failure, validate_owner};
use crate::error::TokenError;
use crate::instruction::{amount_args, checked_amount_args, unpack_amount, unpack_checked_amount};
use crate::processor::{check_mint, mint_failure, outcome_is, settle};
use crate::state::{Account, AccountData, AccountState, Ledger, LedgerView};

verus! {

/// The position of the delegate: a checked approval names the mint before it.
pub open spec fn delegate_position(decimals: Option<u8>) -> int {
    if decimals is Some {
        2
    } else {
        1
    }
}

/// Why an approval is refused. The accounts are the source, the mint (checked
/// approvals only), the delegate, the owner and its signers.
pub open spec fn approve_failure(
    ledger: LedgerView,
    accounts: Seq<usize>,
    decimals: Option<u8>,
) -> Option<TokenError> {
    let delegate = delegate_position(decimals);
    let source = ledger.at(accounts, 0).holding();
    if !ledger.names(accounts, 0) || (decimals is Some && !ledger.names(accounts, 1))
        || !ledger.names(accounts, delegate) || !ledger.names(accounts, delegate + 1) {
        Some(TokenError::NotEnoughAccountKeys)
    } else if source is Err {
        Some(source->Err_0)
    } else if source->Ok_0.is_frozen() {
        Some(TokenError::AccountFrozen)
    } else if decimals is Some && mint_failure(ledger.at(accounts, 1), source->Ok_0.mint, decimals)
        is Some {
        mint_failure(ledger.at(accounts, 1), source->Ok_0.mint, decimals)
    } else {
        authority_failure(ledger, source->Ok_0.owner, accounts, delegate + 1)
    }
}

/// The ledger after an approval: the source has the delegate and allowance
/// stated, whatever it had before.
pub open spec fn approve_effect(
    ledger: LedgerView,
    accounts: Seq<usize>,
    amount: u64,
    decimals: Option<u8>,
) -> LedgerView {
    let source = ledger.at(accounts, 0).holding()->Ok_0;
    ledger.with_data(
        accounts[0] as int,
        AccountData::Account(
            Account {
                delegate: Some(ledger.at(accounts, delegate_position(decimals)).key),
                delegated_amount: amount,
                ..source
            },
        ),
    )
}

/// What an approval of `amount` comes to.
pub open spec fn approve(
    ledger: LedgerView,
    accounts: Seq<usize>,
    amount: u64,
    decimals: Option<u8>,
) -> Result<LedgerView, TokenError> {
    settle(
        approve_failure(ledger, accounts, decimals),
        approve_effect(ledger, accounts, amount, decimals),
    )
}

/// What `Approve` comes to: the payload is the allowance.
pub open spec fn approve_step(ledger: LedgerView, accounts: Seq<usize>, data: Seq<u8>) -> Result<
    LedgerView,
    TokenError,
> {
    match amount_args(data) {
        Ok(amount) => approve(ledger, accounts, amount, None),
        Err(e) => Err(e),
    }
}

/// What `ApproveChecked` comes to: the payload is the allowance and the mint's decimals.
pub open spec fn approve_checked_step(
    ledger: LedgerView,
    accounts: Seq<usize>,
    data: Seq<u8>,
) -> Result<LedgerView, TokenError> {
    match checked_amount_args(data) {
        Ok((amount, decimals)) => approve(ledger, accounts, amount, Some(decimals)),
        Err(e) => Err(e),
    }
}

/// Why `Revoke` is refused. The accounts are the source, the owner and its signers.
pub open spec fn revoke_failure(ledger: LedgerView, accounts: Seq<usize>) -> Option<TokenError> {
    let source = ledger.at(accounts, 0).holding();
    if !ledger.names(accounts, 0) || !ledger.names(accounts, 1) {
        Some(TokenError::NotEnoughAccountKeys)
    } else if source is Err {
        Some(source->Err_0)
    } else if source->Ok_0.is_frozen() {
        Some(TokenError::AccountFrozen)
    } else {
        authority_failure(ledger, source->Ok_0.owner, accounts, 1)
    }
}

/// The ledger after `Revoke`: the source has no delegate and no allowance.
pub open spec fn revoke_effect(ledger: LedgerView, accounts: Seq<usize>) -> LedgerView {
    let source = ledger.at(accounts, 0).holding()->Ok_0;
    ledger.with_data(
        accounts[0] as int,
        AccountData::Account(Account { delegate: None, delegated_amount: 0, ..source }),
    )
}

/// What `Revoke` comes to.
pub open spec fn revoke_step(ledger: LedgerView, accounts: Seq<usize>) -> Result<
    LedgerView,
    TokenError,
> {
    settle(revoke_failure(ledger, accounts), revoke_effect(ledger, accounts))
}

/// Gives the source the delegate at its position, with the allowance `amount`.
pub fn approve_amount(
    ledger: &mut Ledger,
    accounts: &[usize],
    amount: u64,
    decimals: Option<u8>,
) -> (result: Result<(), TokenError>)
    ensures
        outcome_is(
            old(ledger)@,
            final(ledger)@,
            result,
            approve(old(ledger)@, accounts@, amount, decimals),
        ),
{
    let delegate: usize = if decimals.is_some() {
        2
    } else {
        1
    };
    let from_i = ledger.account_index(accounts, 0)?;
    if decimals.is_some() {
        ledger.account_index(accounts, 1)?;
    }
    let delegate_i = ledger.account_index(accounts, delegate)?;
    ledger.account_index(accounts, delegate + 1)?;
    let from_info = ledger.accounts[from_i];
    let mut source = from_info.load_account()?;
    if source.state == AccountState::Frozen {
        return Err(TokenError::AccountFrozen);
    }
    if decimals.is_some() {
        let mint_info = ledger.accounts[accounts[1]];
        check_mint(&mint_info, &source.mint, decimals)?;
    }
    validate_owner(ledger, &source.owner, accounts, delegate + 1)?;
    source.delegate = Some(ledger.accounts[delegate_i].key);
    source.delegated_amount = amount;
    ledger.store(from_i, AccountData::Account(source));
    Ok(())
}

/// `Approve`: names a delegate and the allowance in the payload.
pub fn process_approve(ledger: &mut Ledger, accounts: &[usize], instruction_data: &[u8]) -> (result:
    Result<(), TokenError>)
    ensures
        outcome_is(
            old(ledger)@,
            final(ledger)@,
            result,
            approve_step(old(ledger)@, accounts@, instruction_data@),
        ),
{
    let amount = unpack_amount(instruction_data)?;
    approve_amount(ledger, accounts, amount, None)
}

/// `ApproveChecked`: an `Approve` that also states the mint and its decimals.
pub fn process_approve_checked(
    ledger: &mut Ledger,
    accounts: &[usize],
    instruction_data: &[u8],
) -> (result: Result<(), TokenError>)
    ensures
        outcome_is(
            old(ledger)@,
            final(ledger)@,
            result,
            approve_checked_step(old(ledger)@, accounts@, instruction_data@),
        ),
{
    let (amount, decimals) = unpack_checked_amount(instruction_data)?;
    approve_amount(ledger, accounts, amount, Some(decimals))
}

/// `Revoke`: removes the delegate and its allowance. The payload is not read.
pub fn process_revoke(ledger: &mut Ledger, accounts: &[usize], _instruction_data: &[u8]) -> (result:
    Result<(), TokenError>)
    ensures
        outcome_is(old(ledger)@, final(ledger)@, result, revoke_step(old(ledger)@, accounts@)),
{
    let from_i = ledger.account_index(accounts, 0)?;
    ledger.account_index(accounts, 1)?;
    let from_info = ledger.accounts[from_i];
    let mut source = from_info.load_account()?;
    if source.state == AccountState::Frozen {
        return Err(TokenError::AccountFrozen);
    }
    validate_owner(ledger, &source.owner, accounts, 1)?;
    source.delegate = None;
    source.delegated_amount = 0;
    ledger.store(from_i, AccountData::Account(source));
    Ok(())
}

} // verus!
