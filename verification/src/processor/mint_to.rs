//! `MintTo` and `MintToChecked`: new units enter a holding and the supply.

use vstd::prelude::*;
use crate::authority::{authority_failure, validate_owner};
use crate::error::TokenError;
use crate::instruction::{amount_args, checked_amount_args, unpack_amount, unpack_checked_amount};
use crate::processor::{check_mint, mint_failure, outcome_is, settle};
use crate::state::{Account, AccountData, AccountState, Ledger, LedgerView, Mint};

verus! {

/// Why minting `amount` is refused. The accounts are the mint, the
/// destination, the mint authority and its signers.
pub open spec fn mint_to_failure(
    ledger: LedgerView,
    accounts: Seq<usize>,
    amount: u64,
    decimals: Option<u8>,
) -> Option<TokenError> {
    let destination = ledger.at(accounts, 1).holding();
    let mint_info = ledger.at(accounts, 0);
    let mint = mint_info.mint()->Ok_0;
    if !ledger.names(accounts, 0) || !ledger.names(accounts, 1) || !ledger.names(accounts, 2) {
        Some(TokenError::NotEnoughAccountKeys)
    } else if destination is Err {
        Some(destination->Err_0)
    } else if destination->Ok_0.is_frozen() {
        Some(TokenError::AccountFrozen)
    } else if destination->Ok_0.is_native is Some {
        Some(TokenError::NativeNotSupported)
    } else if mint_failure(mint_info, destination->Ok_0.mint, decimals) is Some {
        mint_failure(mint_info, destination->Ok_0.mint, decimals)
    } else if mint.mint_authority is None {
        Some(TokenError::FixedSupply)
    } else if authority_failure(ledger, mint.mint_authority->Some_0, accounts, 2) is Some {
        authority_failure(ledger, mint.mint_authority->Some_0, accounts, 2)
    } else if destination->Ok_0.amount + amount > u64::MAX {
        Some(TokenError::Overflow)
    } else if mint.supply + amount > u64::MAX {
        Some(TokenError::Overflow)
    } else {
        None
    }
}

/// The ledger after minting `amount`: the supply and the destination's
/// balance both grow by it.
pub open spec fn mint_to_effect(ledger: LedgerView, accounts: Seq<usize>, amount: u64) -> LedgerView {
    let mint = ledger.at(accounts, 0).mint()->Ok_0;
    let destination = ledger.at(accounts, 1).holding()->Ok_0;
    ledger.with_data(
        accounts[0] as int,
        AccountData::Mint(Mint { supply: (mint.supply + amount) as u64, ..mint }),
    ).with_data(
        accounts[1] as int,
        AccountData::Account(
            Account { amount: (destination.amount + amount) as u64, ..destination },
        ),
    )
}

/// What minting `amount` comes to.
pub open spec fn mint_to(
    ledger: LedgerView,
    accounts: Seq<usize>,
    amount: u64,
    decimals: Option<u8>,
) -> Result<LedgerView, TokenError> {
    settle(
        mint_to_failure(ledger, accounts, amount, decimals),
        mint_to_effect(ledger, accounts, amount),
    )
}

/// What `MintTo` comes to: the payload is the amount.
pub open spec fn mint_to_step(ledger: LedgerView, accounts: Seq<usize>, data: Seq<u8>) -> Result<
    LedgerView,
    TokenError,
> {
    match amount_args(data) {
        Ok(amount) => mint_to(ledger, accounts, amount, None),
        Err(e) => Err(e),
    }
}

/// What `MintToChecked` comes to: the payload is the amount and the mint's decimals.
pub open spec fn mint_to_checked_step(
    ledger: LedgerView,
    accounts: Seq<usize>,
    data: Seq<u8>,
) -> Result<LedgerView, TokenError> {
    match checked_amount_args(data) {
        Ok((amount, decimals)) => mint_to(ledger, accounts, amount, Some(decimals)),
        Err(e) => Err(e),
    }
}

/// Mints `amount` into the destination.
pub fn mint_amount(
    ledger: &mut Ledger,
    accounts: &[usize],
    amount: u64,
    decimals: Option<u8>,
) -> (result: Result<(), TokenError>)
    ensures
        outcome_is(
            old(ledger)@,
            final(ledger)@,
            result,
            mint_to(old(ledger)@, accounts@, amount, decimals),
        ),
{
    let mint_i = ledger.account_index(accounts, 0)?;
    let to_i = ledger.account_index(accounts, 1)?;
    ledger.account_index(accounts, 2)?;
    let to_info = ledger.accounts[to_i];
    let mut destination = to_info.load_account()?;
    if destination.state == AccountState::Frozen {
        return Err(TokenError::AccountFrozen);
    }
    if destination.is_native.is_some() {
        return Err(TokenError::NativeNotSupported);
    }
    let mint_info = ledger.accounts[mint_i];
    let mut mint = check_mint(&mint_info, &destination.mint, decimals)?;
    match mint.mint_authority {
        None => {
            return Err(TokenError::FixedSupply);
        },
        Some(authority) => {
            validate_owner(ledger, &authority, accounts, 2)?;
        },
    }
    if destination.amount > u64::MAX - amount {
        return Err(TokenError::Overflow);
    }
    if mint.supply > u64::MAX - amount {
        return Err(TokenError::Overflow);
    }
    mint.supply = mint.supply + amount;
    destination.amount = destination.amount + amount;
    ledger.store(mint_i, AccountData::Mint(mint));
    ledger.store(to_i, AccountData::Account(destination));
    Ok(())
}

/// `MintTo`: mints the amount in the payload into the destination.
pub fn process_mint_to(ledger: &mut Ledger, accounts: &[usize], instruction_data: &[u8]) -> (result:
    Result<(), TokenError>)
    ensures
        outcome_is(
            old(ledger)@,
            final(ledger)@,
            result,
            mint_to_step(old(ledger)@, accounts@, instruction_data@),
        ),
{
    let amount = unpack_amount(instruction_data)?;
    mint_amount(ledger, accounts, amount, None)
}

/// `MintToChecked`: a `MintTo` that also states the mint's decimals.
pub fn process_mint_to_checked(
    ledger: &mut Ledger,
    accounts: &[usize],
    instruction_data: &[u8],
) -> (result: Result<(), TokenError>)
    ensures
        outcome_is(
            old(ledger)@,
            final(ledger)@,
            result,
            mint_to_checked_step(old(ledger)@, accounts@, instruction_data@),
        ),
{
    let (amount, decimals) = unpack_checked_amount(instruction_data)?;
    mint_amount(ledger, accounts, amount, Some(decimals))
}

} // verus!
