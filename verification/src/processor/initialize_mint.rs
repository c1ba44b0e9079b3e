//! `InitializeMint` and `InitializeMint2`.

use vstd::prelude::*;
use crate::error::TokenError;
use crate::instruction::{mint_args, unpack_mint_args, MintArgs};
use crate::processor::{outcome_is, settle};
use crate::pubkey::{pubkey_eq, PROGRAM_ID};
use crate::state::{AccountData, AccountInfo, Ledger, LedgerView, Mint};

verus! {

/// Why an account cannot become a mint: it is not the program's, has no room
/// for a mint, or holds one already.
pub open spec fn blank_mint_failure(info: AccountInfo) -> Option<TokenError> {
    if info.owner != PROGRAM_ID {
        Some(TokenError::IncorrectProgramId)
    } else if !(info.data is Mint) {
        Some(TokenError::InvalidAccountData)
    } else if info.data->Mint_0.is_initialized {
        Some(TokenError::AlreadyInitialized)
    } else {
        None
    }
}

/// The mint that a payload describes: nothing minted yet.
pub open spec fn new_mint(args: MintArgs) -> Mint {
    Mint {
        mint_authority: Some(args.mint_authority),
        supply: 0,
        decimals: args.decimals,
        is_initialized: true,
        freeze_authority: args.freeze_authority,
    }
}

/// What initializing a mint comes to. The accounts are the mint and, where
/// `rent_sysvar` says so, the rent sysvar, which is not read.
pub open spec fn initialize_mint_step(
    ledger: LedgerView,
    accounts: Seq<usize>,
    data: Seq<u8>,
    rent_sysvar: bool,
) -> Result<LedgerView, TokenError> {
    match mint_args(data) {
        Err(e) => Err(e),
        Ok(args) => {
            if !ledger.names(accounts, 0) || (rent_sysvar && !ledger.names(accounts, 1)) {
                Err(TokenError::NotEnoughAccountKeys)
            } else {
                settle(
                    blank_mint_failure(ledger.at(accounts, 0)),
                    ledger.with_data(accounts[0] as int, AccountData::Mint(new_mint(args))),
                )
            }
        },
    }
}

/// `InitializeMint`: makes a mint of an uninitialized account.
pub fn process_initialize_mint(
    ledger: &mut Ledger,
    accounts: &[usize],
    instruction_data: &[u8],
    rent_sysvar_account: bool,
) -> (result: Result<(), TokenError>)
    ensures
        outcome_is(
            old(ledger)@,
            final(ledger)@,
            result,
            initialize_mint_step(old(ledger)@, accounts@, instruction_data@, rent_sysvar_account),
        ),
{
    let args = unpack_mint_args(instruction_data)?;
    let i = ledger.account_index(accounts, 0)?;
    if rent_sysvar_account {
        ledger.account_index(accounts, 1)?;
    }
    let info = ledger.accounts[i];
    if !pubkey_eq(&info.owner, &PROGRAM_ID) {
        return Err(TokenError::IncorrectProgramId);
    }
    match info.data {
        AccountData::Mint(mint) => {
            if mint.is_initialized {
                return Err(TokenError::AlreadyInitialized);
            }
        },
        _ => {
            return Err(TokenError::InvalidAccountData);
        },
    }
    ledger.store(
        i,
        AccountData::Mint(
            Mint {
                mint_authority: Some(args.mint_authority),
                supply: 0,
                decimals: args.decimals,
                is_initialized: true,
                freeze_authority: args.freeze_authority,
            },
        ),
    );
    Ok(())
}

/// `InitializeMint2`: `InitializeMint` without the rent sysvar account.
pub fn process_initialize_mint2(
    ledger: &mut Ledger,
    accounts: &[usize],
    instruction_data: &[u8],
) -> (result: Result<(), TokenError>)
    ensures
        outcome_is(
            old(ledger)@,
            final(ledger)@,
            result,
            initialize_mint_step(old(ledger)@, accounts@, instruction_data@, false),
        ),
{
    process_initialize_mint(ledger, accounts, instruction_data, false)
}

} // verus!
