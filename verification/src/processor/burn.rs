//! `Burn` and `BurnChecked`: units leave a holding and the supply.

use vstd::prelude::*;
use crate::error::TokenError;
use crate::instruction::{amount_args, checked_amount_args, unpack_amount, unpack_checked_amount};
use crate::processor::{
    acts_as_delegate, check_mint, mint_failure, outcome_is, settle, spend, spend_effect,
    spend_failure,
};
use crate::state::{AccountData, AccountState, Ledger, LedgerView, Mint};

verus! {

/// Why burning `amount` is refused. The accounts are the source, the mint,
/// the authority and its signers.
pub open spec fn burn_failure(
    ledger: LedgerView,
    accounts: Seq<usize>,
    amount: u64,
    decimals: Option<u8>,
) -> Option<TokenError> {
    let source = ledger.at(accounts, 0).holding();
    let mint_info = ledger.at(accounts, 1);
    if !ledger.names(accounts, 0) || !ledger.names(accounts, 1) || !ledger.names(accounts, 2) {
        Some(TokenError::NotEnoughAccountKeys)
    } else if source is Err {
        Some(source->Err_0)
    } else if source->Ok_0.is_frozen() {
        Some(TokenError::AccountFrozen)
    } else if source->Ok_0.is_native is Some {
        Some(TokenError::NativeNotSupported)
    } else if mint_failure(mint_info, source->Ok_0.mint, decimals) is Some {
        mint_failure(mint_info, source->Ok_0.mint, decimals)
    } else if spend_failure(ledger, source->Ok_0, accounts, 2, amount) is Some {
        spend_failure(ledger, source->Ok_0, accounts, 2, amount)
    } else if mint_info.mint()->Ok_0.supply < amount {
        Some(TokenError::Overflow)
    } else {
        None
    }
}

/// The ledger after burning `amount`: the source's balance and the supply
/// both shrink by it, and what a delegate burned is taken off its allowance.
pub open spec fn burn_effect(ledger: LedgerView, accounts: Seq<usize>, amount: u64) -> LedgerView {
    let source = ledger.at(accounts, 0).holding()->Ok_0;
    let mint = ledger.at(accounts, 1).mint()->Ok_0;
    ledger.with_data(
        accounts[0] as int,
        AccountData::Account(
            spend_effect(source, acts_as_delegate(ledger, source, accounts, 2), amount),
        ),
    ).with_data(
        accounts[1] as int,
        AccountData::Mint(Mint { supply: (mint.supply - amount) as u64, ..mint }),
    )
}

/// What burning `amount` comes to.
pub open spec fn burn(
    ledger: LedgerView,
    accounts: Seq<usize>,
    amount: u64,
    decimals: Option<u8>,
) -> Result<LedgerView, TokenError> {
    settle(burn_failure(ledger, accounts, amount, decimals), burn_effect(ledger, accounts, amount))
}

/// What `Burn` comes to: the payload is the amount.
pub open spec fn burn_step(ledger: LedgerView, accounts: Seq<usize>, data: Seq<u8>) -> Result<
    LedgerView,
    TokenError,
> {
    match amount_args(data) {
        Ok(amount) => burn(ledger, accounts, amount, None),
        Err(e) => Err(e),
    }
}

/// What `BurnChecked` comes to: the payload is the amount and the mint's decimals.
pub open spec fn burn_checked_step(ledger: LedgerView, accounts: Seq<usize>, data: Seq<u8>) -> Result<
    LedgerView,
    TokenError,
> {
    match checked_amount_args(data) {
        Ok((amount, decimals)) => burn(ledger, accounts, amount, Some(decimals)),
        Err(e) => Err(e),
    }
}

/// Burns `amount` out of the source.
pub fn burn_amount(
    ledger: &mut Ledger,
    accounts: &[usize],
    amount: u64,
    decimals: Option<u8>,
) -> (result: Result<(), TokenError>)
    ensures
        outcome_is(
            old(ledger)@,
            final(ledger)@,
            result,
            burn(old(ledger)@, accounts@, amount, decimals),
        ),
{
    let from_i = ledger.account_index(accounts, 0)?;
    let mint_i = ledger.account_index(accounts, 1)?;
    ledger.account_index(accounts, 2)?;
    let from_info = ledger.accounts[from_i];
    let source = from_info.load_account()?;
    if source.state == AccountState::Frozen {
        return Err(TokenError::AccountFrozen);
    }
    if source.is_native.is_some() {
        return Err(TokenError::NativeNotSupported);
    }
    let mint_info = ledger.accounts[mint_i];
    let mut mint = check_mint(&mint_info, &source.mint, decimals)?;
    let left = spend(ledger, &source, accounts, 2, amount)?;
    if mint.supply < amount {
        return Err(TokenError::Overflow);
    }
    mint.supply = mint.supply - amount;
    ledger.store(from_i, AccountData::Account(left));
    ledger.store(mint_i, AccountData::Mint(mint));
    Ok(())
}

/// `Burn`: burns the amount in the payload out of the source.
pub fn process_burn(ledger: &mut Ledger, accounts: &[usize], instruction_data: &[u8]) -> (result:
    Result<(), TokenError>)
    ensures
        outcome_is(
            old(ledger)@,
            final(ledger)@,
            result,
            burn_step(old(ledger)@, accounts@, instruction_data@),
        ),
{
    let amount = unpack_amount(instruction_data)?;
    burn_amount(ledger, accounts, amount, None)
}

/// `BurnChecked`: a `Burn` that also states the mint's decimals.
pub fn process_burn_checked(
    ledger: &mut Ledger,
    accounts: &[usize],
    instruction_data: &[u8],
) -> (result: Result<(), TokenError>)
    ensures
        outcome_is(
            old(ledger)@,
            final(ledger)@,
            result,
            burn_checked_step(old(ledger)@, accounts@, instruction_data@),
        ),
{
    let (amount, decimals) = unpack_checked_amount(instruction_data)?;
    burn_amount(ledger, accounts, amount, Some(decimals))
}

} // verus!
