//! `Transfer` and `TransferChecked`: units move from one holding to another.

use vstd::prelude::*;
use crate::error::TokenError;
use crate::instruction::{amount_args, checked_amount_args, unpack_amount, unpack_checked_amount};
use crate::pubkey::pubkey_eq;
use crate::processor::{
    acts_as_delegate, check_mint, mint_failure, outcome_is, settle, spend, spend_effect,
    spend_failure,
};
use crate::state::{Account, AccountData, AccountInfo, AccountState, Ledger, LedgerView};

verus! {

/// The position of the destination: a checked transfer names the mint before it.
pub open spec fn destination_position(decimals: Option<u8>) -> int {
    if decimals is Some {
        2
    } else {
        1
    }
}

/// Why a transfer of `amount` is refused. The accounts are the source, the
/// mint (checked transfers only), the destination, the authority and its signers.
pub open spec fn transfer_failure(
    ledger: LedgerView,
    accounts: Seq<usize>,
    amount: u64,
    decimals: Option<u8>,
) -> Option<TokenError> {
    let to = destination_position(decimals);
    let source = ledger.at(accounts, 0).holding();
    let destination = ledger.at(accounts, to).holding();
    let to_self = accounts[0] == accounts[to];
    if !ledger.names(accounts, 0) || (decimals is Some && !ledger.names(accounts, 1))
        || !ledger.names(accounts, to) || !ledger.names(accounts, to + 1) {
        Some(TokenError::NotEnoughAccountKeys)
    } else if source is Err {
        Some(source->Err_0)
    } else if source->Ok_0.is_frozen() {
        Some(TokenError::AccountFrozen)
    } else if destination is Err {
        Some(destination->Err_0)
    } else if destination->Ok_0.is_frozen() {
        Some(TokenError::AccountFrozen)
    } else if source->Ok_0.mint != destination->Ok_0.mint {
        Some(TokenError::MintMismatch)
    } else if decimals is Some && mint_failure(ledger.at(accounts, 1), source->Ok_0.mint, decimals)
        is Some {
        mint_failure(ledger.at(accounts, 1), source->Ok_0.mint, decimals)
    } else if spend_failure(ledger, source->Ok_0, accounts, to + 1, amount) is Some {
        spend_failure(ledger, source->Ok_0, accounts, to + 1, amount)
    } else if !to_self && destination->Ok_0.amount + amount > u64::MAX {
        Some(TokenError::Overflow)
    } else if source->Ok_0.is_native is Some && ledger.at(accounts, 0).lamports < amount {
        Some(TokenError::Overflow)
    } else if source->Ok_0.is_native is Some && !to_self && ledger.at(accounts, to).lamports
        + amount > u64::MAX {
        Some(TokenError::Overflow)
    } else {
        None
    }
}

/// The source after `amount` left it. Out of a holding of the native
/// currency the lamports leave with the units.
pub open spec fn debited(
    ledger: LedgerView,
    accounts: Seq<usize>,
    amount: u64,
    decimals: Option<u8>,
) -> AccountInfo {
    let from_info = ledger.at(accounts, 0);
    let source = from_info.holding()->Ok_0;
    let authority = destination_position(decimals) + 1;
    AccountInfo {
        lamports: if source.is_native is Some {
            (from_info.lamports - amount) as u64
        } else {
            from_info.lamports
        },
        data: AccountData::Account(
            spend_effect(source, acts_as_delegate(ledger, source, accounts, authority), amount),
        ),
        ..from_info
    }
}

/// A holding after `amount` reached it, with the lamports where `native` says so.
pub open spec fn credited(to_info: AccountInfo, native: bool, amount: u64) -> AccountInfo {
    let held = to_info.data->Account_0;
    AccountInfo {
        lamports: if native {
            (to_info.lamports + amount) as u64
        } else {
            to_info.lamports
        },
        data: AccountData::Account(Account { amount: (held.amount + amount) as u64, ..held }),
        ..to_info
    }
}

/// The ledger after a transfer of `amount`: the source is debited, then the
/// destination, which may be the source itself, is credited.
pub open spec fn transfer_effect(
    ledger: LedgerView,
    accounts: Seq<usize>,
    amount: u64,
    decimals: Option<u8>,
) -> LedgerView {
    let to = destination_position(decimals);
    let native = ledger.at(accounts, 0).holding()->Ok_0.is_native is Some;
    let after_debit = ledger.with_info(accounts[0] as int, debited(ledger, accounts, amount, decimals));
    after_debit.with_info(accounts[to] as int, credited(after_debit.at(accounts, to), native, amount))
}

/// What a transfer of `amount` comes to.
pub open spec fn transfer(
    ledger: LedgerView,
    accounts: Seq<usize>,
    amount: u64,
    decimals: Option<u8>,
) -> Result<LedgerView, TokenError> {
    settle(
        transfer_failure(ledger, accounts, amount, decimals),
        transfer_effect(ledger, accounts, amount, decimals),
    )
}

/// What `Transfer` comes to: the payload is the amount.
pub open spec fn transfer_step(ledger: LedgerView, accounts: Seq<usize>, data: Seq<u8>) -> Result<
    LedgerView,
    TokenError,
> {
    match amount_args(data) {
        Ok(amount) => transfer(ledger, accounts, amount, None),
        Err(e) => Err(e),
    }
}

/// What `TransferChecked` comes to: the payload is the amount and the mint's decimals.
pub open spec fn transfer_checked_step(
    ledger: LedgerView,
    accounts: Seq<usize>,
    data: Seq<u8>,
) -> Result<LedgerView, TokenError> {
    match checked_amount_args(data) {
        Ok((amount, decimals)) => transfer(ledger, accounts, amount, Some(decimals)),
        Err(e) => Err(e),
    }
}

/// Moves `amount` from the source to the destination.
pub fn transfer_amount(
    ledger: &mut Ledger,
    accounts: &[usize],
    amount: u64,
    decimals: Option<u8>,
) -> (result: Result<(), TokenError>)
    ensures
        outcome_is(
            old(ledger)@,
            final(ledger)@,
            result,
            transfer(old(ledger)@, accounts@, amount, decimals),
        ),
{
    let to: usize = if decimals.is_some() {
        2
    } else {
        1
    };
    let from_i = ledger.account_index(accounts, 0)?;
    if decimals.is_some() {
        ledger.account_index(accounts, 1)?;
    }
    let to_i = ledger.account_index(accounts, to)?;
    ledger.account_index(accounts, to + 1)?;
    let from_info = ledger.accounts[from_i];
    let source = from_info.load_account()?;
    if source.state == AccountState::Frozen {
        return Err(TokenError::AccountFrozen);
    }
    let to_info = ledger.accounts[to_i];
    let destination = to_info.load_account()?;
    if destination.state == AccountState::Frozen {
        return Err(TokenError::AccountFrozen);
    }
    if !pubkey_eq(&source.mint, &destination.mint) {
        return Err(TokenError::MintMismatch);
    }
    if decimals.is_some() {
        let mint_info = ledger.accounts[accounts[1]];
        check_mint(&mint_info, &source.mint, decimals)?;
    }
    let left = spend(ledger, &source, accounts, to + 1, amount)?;
    let to_self = from_i == to_i;
    if !to_self && destination.amount > u64::MAX - amount {
        return Err(TokenError::Overflow);
    }
    let native = source.is_native.is_some();
    if native && from_info.lamports < amount {
        return Err(TokenError::Overflow);
    }
    if native && !to_self && to_info.lamports > u64::MAX - amount {
        return Err(TokenError::Overflow);
    }
    let mut debited = from_info;
    debited.data = AccountData::Account(left);
    if native {
        debited.lamports = from_info.lamports - amount;
    }
    ledger.put(from_i, debited);
    let mut credited = if to_self {
        debited
    } else {
        to_info
    };
    let mut held = if to_self {
        left
    } else {
        destination
    };
    held.amount = held.amount + amount;
    credited.data = AccountData::Account(held);
    if native {
        credited.lamports = credited.lamports + amount;
    }
    ledger.put(to_i, credited);
    Ok(())
}

/// `Transfer`: moves the amount in the payload from the source to the destination.
pub fn process_transfer(ledger: &mut Ledger, accounts: &[usize], instruction_data: &[u8]) -> (result:
    Result<(), TokenError>)
    ensures
        outcome_is(
            old(ledger)@,
            final(ledger)@,
            result,
            transfer_step(old(ledger)@, accounts@, instruction_data@),
        ),
{
    let amount = unpack_amount(instruction_data)?;
    transfer_amount(ledger, accounts, amount, None)
}

/// `TransferChecked`: a transfer that also states the mint and its decimals.
pub fn process_transfer_checked(
    ledger: &mut Ledger,
    accounts: &[usize],
    instruction_data: &[u8],
) -> (result: Result<(), TokenError>)
    ensures
        outcome_is(
            old(ledger)@,
            final(ledger)@,
            result,
            transfer_checked_step(old(ledger)@, accounts@, instruction_data@),
        ),
{
    let (amount, decimals) = unpack_checked_amount(instruction_data)?;
    transfer_amount(ledger, accounts, amount, Some(decimals))
}

} // verus!
