//! `SetAuthority`: replaces or removes one authority of a mint or a holding.

use vstd::prelude::*;
use crate::authority::{authority_failure, validate_owner};
use crate::error::TokenError;
use crate::instruction::{authority_args, unpack_authority_args, AuthorityArgs, AuthorityType};
use crate::processor::close_account::closer;
use crate::processor::{outcome_is, settle};
use crate::pubkey::{pubkey_eq, PROGRAM_ID};
use crate::state::{Account, AccountData, AccountState, Ledger, LedgerView, Mint};

verus! {

/// Why an authority of a holding is not replaced. The owner is replaced by
/// another owner only, and never once it was made immutable.
pub open spec fn holding_authority_failure(
    ledger: LedgerView,
    accounts: Seq<usize>,
    holding: Account,
    args: AuthorityArgs,
) -> Option<TokenError> {
    if !holding.is_initialized() {
        Some(TokenError::UninitializedState)
    } else if holding.is_frozen() {
        Some(TokenError::AccountFrozen)
    } else {
        match args.authority_type {
            AuthorityType::AccountOwner => {
                if holding.immutable_owner {
                    Some(TokenError::ImmutableOwner)
                } else if authority_failure(ledger, holding.owner, accounts, 1) is Some {
                    authority_failure(ledger, holding.owner, accounts, 1)
                } else if args.new_authority is None {
                    Some(TokenError::InvalidArgument)
                } else {
                    None
                }
            },
            AuthorityType::CloseAccount => authority_failure(ledger, closer(holding), accounts, 1),
            _ => Some(TokenError::InvalidArgument),
        }
    }
}

/// Why an authority of a mint is not replaced. An authority that was removed
/// stays removed.
pub open spec fn mint_authority_failure(
    ledger: LedgerView,
    accounts: Seq<usize>,
    mint: Mint,
    args: AuthorityArgs,
) -> Option<TokenError> {
    if !mint.is_initialized {
        Some(TokenError::UninitializedState)
    } else {
        match args.authority_type {
            AuthorityType::MintTokens => {
                if mint.mint_authority is None {
                    Some(TokenError::FixedSupply)
                } else {
                    authority_failure(ledger, mint.mint_authority->Some_0, accounts, 1)
                }
            },
            AuthorityType::FreezeAccount => {
                if mint.freeze_authority is None {
                    Some(TokenError::MintCannotFreeze)
                } else {
                    authority_failure(ledger, mint.freeze_authority->Some_0, accounts, 1)
                }
            },
            _ => Some(TokenError::InvalidArgument),
        }
    }
}

/// Why `SetAuthority` is refused. The accounts are the mint or holding, the
/// current authority and its signers.
pub open spec fn set_authority_failure(
    ledger: LedgerView,
    accounts: Seq<usize>,
    args: AuthorityArgs,
) -> Option<TokenError> {
    let info = ledger.at(accounts, 0);
    if !ledger.names(accounts, 0) || !ledger.names(accounts, 1) {
        Some(TokenError::NotEnoughAccountKeys)
    } else if info.owner != PROGRAM_ID {
        Some(TokenError::IncorrectProgramId)
    } else {
        match info.data {
            AccountData::Account(holding) => holding_authority_failure(
                ledger,
                accounts,
                holding,
                args,
            ),
            AccountData::Mint(mint) => mint_authority_failure(ledger, accounts, mint, args),
            _ => Some(TokenError::InvalidArgument),
        }
    }
}

/// A holding with an authority replaced. A new owner starts without a
/// delegate, and a holding of the native currency without a close authority.
pub open spec fn holding_with_authority(holding: Account, args: AuthorityArgs) -> Account {
    match args.authority_type {
        AuthorityType::AccountOwner => Account {
            owner: args.new_authority->Some_0,
            delegate: None,
            delegated_amount: 0,
            close_authority: if holding.is_native is Some {
                None
            } else {
                holding.close_authority
            },
            ..holding
        },
        _ => Account { close_authority: args.new_authority, ..holding },
    }
}

/// A mint with an authority replaced.
pub open spec fn mint_with_authority(mint: Mint, args: AuthorityArgs) -> Mint {
    match args.authority_type {
        AuthorityType::MintTokens => Mint { mint_authority: args.new_authority, ..mint },
        _ => Mint { freeze_authority: args.new_authority, ..mint },
    }
}

/// The ledger after `SetAuthority`.
pub open spec fn set_authority_effect(
    ledger: LedgerView,
    accounts: Seq<usize>,
    args: AuthorityArgs,
) -> LedgerView {
    match ledger.at(accounts, 0).data {
        AccountData::Account(holding) => ledger.with_data(
            accounts[0] as int,
            AccountData::Account(holding_with_authority(holding, args)),
        ),
        AccountData::Mint(mint) => ledger.with_data(
            accounts[0] as int,
            AccountData::Mint(mint_with_authority(mint, args)),
        ),
        _ => ledger,
    }
}

/// What `SetAuthority` comes to: the payload is the role and the optional new authority.
pub open spec fn set_authority_step(
    ledger: LedgerView,
    accounts: Seq<usize>,
    data: Seq<u8>,
) -> Result<LedgerView, TokenError> {
    match authority_args(data) {
        Ok(args) => settle(
            set_authority_failure(ledger, accounts, args),
            set_authority_effect(ledger, accounts, args),
        ),
        Err(e) => Err(e),
    }
}

/// Replaces an authority of a holding.
fn set_holding_authority(
    ledger: &mut Ledger,
    accounts: &[usize],
    i: usize,
    holding: Account,
    args: AuthorityArgs,
) -> (result: Result<(), TokenError>)
    requires
        old(ledger)@.names(accounts@, 0),
        i == accounts@[0],
    ensures
        outcome_is(
            old(ledger)@,
            final(ledger)@,
            result,
            settle(
                holding_authority_failure(old(ledger)@, accounts@, holding, args),
                old(ledger)@.with_data(
                    i as int,
                    AccountData::Account(holding_with_authority(holding, args)),
                ),
            ),
        ),
{
    let mut holding = holding;
    if holding.state == AccountState::Uninitialized {
        return Err(TokenError::UninitializedState);
    }
    if holding.state == AccountState::Frozen {
        return Err(TokenError::AccountFrozen);
    }
    match args.authority_type {
        AuthorityType::AccountOwner => {
            if holding.immutable_owner {
                return Err(TokenError::ImmutableOwner);
            }
            validate_owner(ledger, &holding.owner, accounts, 1)?;
            match args.new_authority {
                None => {
                    return Err(TokenError::InvalidArgument);
                },
                Some(owner) => {
                    holding.owner = owner;
                },
            }
            holding.delegate = None;
            holding.delegated_amount = 0;
            if holding.is_native.is_some() {
                holding.close_authority = None;
            }
        },
        AuthorityType::CloseAccount => {
            let authority = match holding.close_authority {
                Some(authority) => authority,
                None => holding.owner,
            };
            validate_owner(ledger, &authority, accounts, 1)?;
            holding.close_authority = args.new_authority;
        },
        _ => {
            return Err(TokenError::InvalidArgument);
        },
    }
    ledger.store(i, AccountData::Account(holding));
    Ok(())
}

/// Replaces an authority of a mint.
fn set_mint_authority(
    ledger: &mut Ledger,
    accounts: &[usize],
    i: usize,
    mint: Mint,
    args: AuthorityArgs,
) -> (result: Result<(), TokenError>)
    requires
        old(ledger)@.names(accounts@, 0),
        i == accounts@[0],
    ensures
        outcome_is(
            old(ledger)@,
            final(ledger)@,
            result,
            settle(
                mint_authority_failure(old(ledger)@, accounts@, mint, args),
                old(ledger)@.with_data(
                    i as int,
                    AccountData::Mint(mint_with_authority(mint, args)),
                ),
            ),
        ),
{
    let mut mint = mint;
    if !mint.is_initialized {
        return Err(TokenError::UninitializedState);
    }
    match args.authority_type {
        AuthorityType::MintTokens => {
            match mint.mint_authority {
                None => {
                    return Err(TokenError::FixedSupply);
                },
                Some(authority) => {
                    validate_owner(ledger, &authority, accounts, 1)?;
                },
            }
            mint.mint_authority = args.new_authority;
        },
        AuthorityType::FreezeAccount => {
            match mint.freeze_authority {
                None => {
                    return Err(TokenError::MintCannotFreeze);
                },
                Some(authority) => {
                    validate_owner(ledger, &authority, accounts, 1)?;
                },
            }
            mint.freeze_authority = args.new_authority;
        },
        _ => {
            return Err(TokenError::InvalidArgument);
        },
    }
    ledger.store(i, AccountData::Mint(mint));
    Ok(())
}

/// `SetAuthority`: replaces, or removes, the authority that the payload names.
pub fn process_set_authority(
    ledger: &mut Ledger,
    accounts: &[usize],
    instruction_data: &[u8],
) -> (result: Result<(), TokenError>)
    ensures
        outcome_is(
            old(ledger)@,
            final(ledger)@,
            result,
            set_authority_step(old(ledger)@, accounts@, instruction_data@),
        ),
{
    let args = unpack_authority_args(instruction_data)?;
    let i = ledger.account_index(accounts, 0)?;
    ledger.account_index(accounts, 1)?;
    let info = ledger.accounts[i];
    if !pubkey_eq(&info.owner, &PROGRAM_ID) {
        return Err(TokenError::IncorrectProgramId);
    }
    match info.data {
        AccountData::Account(holding) => set_holding_authority(ledger, accounts, i, holding, args),
        AccountData::Mint(mint) => set_mint_authority(ledger, accounts, i, mint, args),
        _ => Err(TokenError::InvalidArgument),
    }
}

} // verus!
