//! The instructions, one function each, and what they share.

use vstd::prelude::*;
use crate::authority::{authority_failure, validate_owner};
use crate::error::TokenError;
use crate::pubkey::{is_some_pubkey, pubkey_eq, Pubkey};
use crate::state::{Account, AccountInfo, Ledger, LedgerView, Mint};

pub mod amount_to_ui_amount;
pub mod approve;
pub mod batch;
pub mod burn;
pub mod close_account;
pub mod freeze;
pub mod get_account_data_size;
pub mod initialize_account;
pub mod initialize_mint;
pub mod initialize_multisig;
pub mod mint_to;
pub mod set_authority;
pub mod transfer;

verus! {

/// What an instruction comes to: its failure where it has one, else its effect.
pub open spec fn settle(failure: Option<TokenError>, effect: LedgerView) -> Result<
    LedgerView,
    TokenError,
> {
    match failure {
        Some(e) => Err(e),
        None => Ok(effect),
    }
}

/// Whether a call that found the ledger as `pre`, left it as `post` and
/// returned `result` did what `step` says: on success the ledger is the next
/// one, on failure the error is the stated one and the ledger is untouched.
pub open spec fn outcome_is(
    pre: LedgerView,
    post: LedgerView,
    result: Result<(), TokenError>,
    step: Result<LedgerView, TokenError>,
) -> bool {
    match step {
        Ok(next) => result is Ok && post == next,
        Err(e) => result == Err::<(), TokenError>(e) && post == pre,
    }
}

/// Why an account does not stand for the mint with the address `mint`: it has
/// another address, holds no mint, or, in a checked instruction, the mint has
/// other decimals than the instruction states.
pub open spec fn mint_failure(info: AccountInfo, mint: Pubkey, decimals: Option<u8>) -> Option<
    TokenError,
> {
    if info.key != mint {
        Some(TokenError::MintMismatch)
    } else if info.mint() is Err {
        Some(info.mint()->Err_0)
    } else if decimals is Some && info.mint()->Ok_0.decimals != decimals->Some_0 {
        Some(TokenError::DecimalsMismatch)
    } else {
        None
    }
}

/// Whether the account at position `authority` acts as the delegate of `holding`.
pub open spec fn acts_as_delegate(
    ledger: LedgerView,
    holding: Account,
    accounts: Seq<usize>,
    authority: int,
) -> bool {
    holding.delegate == Some(ledger.at(accounts, authority).key)
}

/// Why the account at position `authority` may not take `amount` out of
/// `holding`. Nobody takes more than the balance; the delegate may take what
/// its allowance covers, the owner anything.
pub open spec fn spend_failure(
    ledger: LedgerView,
    holding: Account,
    accounts: Seq<usize>,
    authority: int,
    amount: u64,
) -> Option<TokenError> {
    if holding.amount < amount {
        Some(TokenError::InsufficientFunds)
    } else if !ledger.names(accounts, authority) {
        Some(TokenError::NotEnoughAccountKeys)
    } else if acts_as_delegate(ledger, holding, accounts, authority) {
        let checked = authority_failure(
            ledger,
            ledger.at(accounts, authority).key,
            accounts,
            authority,
        );
        if checked is Some {
            checked
        } else if holding.delegated_amount < amount {
            Some(TokenError::InsufficientFunds)
        } else {
            None
        }
    } else {
        authority_failure(ledger, holding.owner, accounts, authority)
    }
}

/// A holding after `amount` left it. What the delegate took is taken off its
/// allowance, and a delegate whose allowance is used up is removed.
pub open spec fn spend_effect(holding: Account, by_delegate: bool, amount: u64) -> Account {
    if by_delegate {
        Account {
            amount: (holding.amount - amount) as u64,
            delegated_amount: (holding.delegated_amount - amount) as u64,
            delegate: if holding.delegated_amount == amount {
                None
            } else {
                holding.delegate
            },
            ..holding
        }
    } else {
        Account { amount: (holding.amount - amount) as u64, ..holding }
    }
}

/// The mint with the address `mint` that an account stands for.
pub fn check_mint(info: &AccountInfo, mint: &Pubkey, decimals: Option<u8>) -> (checked: Result<
    Mint,
    TokenError,
>)
    ensures
        match checked {
            Ok(found) => mint_failure(*info, *mint, decimals) is None && info.mint() == Ok::<
                Mint,
                TokenError,
            >(found),
            Err(e) => mint_failure(*info, *mint, decimals) == Some(e),
        },
{
    if !pubkey_eq(&info.key, mint) {
        return Err(TokenError::MintMismatch);
    }
    let found = info.load_mint()?;
    if let Some(stated) = decimals {
        if found.decimals != stated {
            return Err(TokenError::DecimalsMismatch);
        }
    }
    Ok(found)
}

/// Takes `amount` out of `holding` for the account at position `authority`.
pub fn spend(
    ledger: &Ledger,
    holding: &Account,
    accounts: &[usize],
    authority: usize,
    amount: u64,
) -> (spent: Result<Account, TokenError>)
    ensures
        match spent {
            Ok(left) => spend_failure(ledger@, *holding, accounts@, authority as int, amount)
                is None && left == spend_effect(
                *holding,
                acts_as_delegate(ledger@, *holding, accounts@, authority as int),
                amount,
            ),
            Err(e) => spend_failure(ledger@, *holding, accounts@, authority as int, amount)
                == Some(e),
        },
{
    if holding.amount < amount {
        return Err(TokenError::InsufficientFunds);
    }
    let i = ledger.account_index(accounts, authority)?;
    let key = ledger.accounts[i].key;
    let mut left = *holding;
    if is_some_pubkey(&holding.delegate, &key) {
        validate_owner(ledger, &key, accounts, authority)?;
        if holding.delegated_amount < amount {
            return Err(TokenError::InsufficientFunds);
        }
        left.delegated_amount = holding.delegated_amount - amount;
        if left.delegated_amount == 0 {
            left.delegate = None;
        }
    } else {
        validate_owner(ledger, &holding.owner, accounts, authority)?;
    }
    left.amount = holding.amount - amount;
    Ok(left)
}

} // verus!
