//! `AmountToUiAmount` and `UiAmountToAmount`: an amount as people write it.

use vstd::prelude::*;
use crate::error::TokenError;
use crate::instruction::{amount_args, pack_u64, u64_bytes, unpack_amount};
use crate::processor::outcome_is;
use crate::state::{Ledger, LedgerView};
use crate::ui_amount::{amount_to_ui_amount, ui_amount, ui_amount_to_amount, ui_amount_value};

verus! {

/// What `AmountToUiAmount` comes to. The payload is an amount and the one
/// account is a mint; the amount written out with the mint's decimals is
/// returned, and no account changes.
pub open spec fn amount_to_ui_amount_step(
    ledger: LedgerView,
    accounts: Seq<usize>,
    data: Seq<u8>,
) -> Result<LedgerView, TokenError> {
    let mint = ledger.at(accounts, 0).mint();
    match amount_args(data) {
        Err(e) => Err(e),
        Ok(amount) => {
            if !ledger.names(accounts, 0) {
                Err(TokenError::NotEnoughAccountKeys)
            } else if mint is Err {
                Err(mint->Err_0)
            } else {
                Ok(ledger.with_return_data(ui_amount(amount, mint->Ok_0.decimals)))
            }
        },
    }
}

/// What `UiAmountToAmount` comes to. The payload is an amount written out and
/// the one account is a mint; the amount is returned in eight bytes, least
/// significant first, and no account changes. A text that states no amount
/// of the mint is refused with `InvalidArgument`.
pub open spec fn ui_amount_to_amount_step(
    ledger: LedgerView,
    accounts: Seq<usize>,
    data: Seq<u8>,
) -> Result<LedgerView, TokenError> {
    let mint = ledger.at(accounts, 0).mint();
    if !ledger.names(accounts, 0) {
        Err(TokenError::NotEnoughAccountKeys)
    } else if mint is Err {
        Err(mint->Err_0)
    } else {
        match ui_amount_value(data, mint->Ok_0.decimals) {
            Some(amount) => Ok(ledger.with_return_data(u64_bytes(amount))),
            None => Err(TokenError::InvalidArgument),
        }
    }
}

/// `AmountToUiAmount`: returns the amount in the payload, written out.
pub fn process_amount_to_ui_amount(
    ledger: &mut Ledger,
    accounts: &[usize],
    instruction_data: &[u8],
) -> (result: Result<(), TokenError>)
    ensures
        outcome_is(
            old(ledger)@,
            final(ledger)@,
            result,
            amount_to_ui_amount_step(old(ledger)@, accounts@, instruction_data@),
        ),
{
    let amount = unpack_amount(instruction_data)?;
    let i = ledger.account_index(accounts, 0)?;
    let info = ledger.accounts[i];
    let mint = info.load_mint()?;
    ledger.return_data = amount_to_ui_amount(amount, mint.decimals);
    Ok(())
}

/// `UiAmountToAmount`: returns the amount that the text in the payload states.
pub fn process_ui_amount_to_amount(
    ledger: &mut Ledger,
    accounts: &[usize],
    instruction_data: &[u8],
) -> (result: Result<(), TokenError>)
    ensures
        outcome_is(
            old(ledger)@,
            final(ledger)@,
            result,
            ui_amount_to_amount_step(old(ledger)@, accounts@, instruction_data@),
        ),
{
    let i = ledger.account_index(accounts, 0)?;
    let info = ledger.accounts[i];
    let mint = info.load_mint()?;
    match ui_amount_to_amount(instruction_data, mint.decimals) {
        Some(amount) => {
            ledger.return_data = pack_u64(amount);
            Ok(())
        },
        None => Err(TokenError::InvalidArgument),
    }
}

} // verus!
