//! Where an instruction enters: the first byte says which one it is.

use vstd::prelude::*;
use vstd::slice::slice_subrange;
use crate::error::TokenError;
use crate::processor::amount_to_ui_amount::{
    amount_to_ui_amount_step, process_amount_to_ui_amount, process_ui_amount_to_amount,
    ui_amount_to_amount_step,
};
use crate::processor::approve::{
    approve_checked_step, approve_step, process_approve, process_approve_checked, process_revoke,
    revoke_step,
};
use crate::processor::batch::{batch_step, process_batch};
use crate::processor::burn::{burn_checked_step, burn_step, process_burn, process_burn_checked};
use crate::processor::close_account::{
    close_step, process_close_account, process_sync_native, sync_native_step,
};
use crate::processor::freeze::{
    freeze_step, process_freeze_account, process_thaw_account, thaw_step,
};
use crate::processor::get_account_data_size::{
    get_account_data_size_step, process_get_account_data_size,
};
use crate::processor::initialize_account::{
    initialize_account2_step, initialize_account3_step, initialize_account_step,
    initialize_immutable_owner_step, process_initialize_account, process_initialize_account2,
    process_initialize_account3, process_initialize_immutable_owner,
};
use crate::processor::initialize_mint::{
    initialize_mint_step, process_initialize_mint, process_initialize_mint2,
};
use crate::processor::initialize_multisig::{
    initialize_multisig_step, process_initialize_multisig, process_initialize_multisig2,
};
use crate::processor::mint_to::{
    mint_to_checked_step, mint_to_step, process_mint_to, process_mint_to_checked,
};
use crate::processor::outcome_is;
use crate::processor::set_authority::{process_set_authority, set_authority_step};
use crate::processor::transfer::{
    process_transfer, process_transfer_checked, transfer_checked_step, transfer_step,
};
use crate::pubkey::Pubkey;
use crate::state::{Ledger, LedgerView};

verus! {

/// What the less common instructions come to, by discriminator. `data` is the
/// payload, without the discriminator.
pub open spec fn remaining_step(
    ledger: LedgerView,
    accounts: Seq<usize>,
    data: Seq<u8>,
    discriminator: u8,
) -> Result<LedgerView, TokenError> {
    if discriminator == 1 {
        initialize_account_step(ledger, accounts)
    } else if discriminator == 2 {
        initialize_multisig_step(ledger, accounts, data, 2)
    } else if discriminator == 4 {
        approve_step(ledger, accounts, data)
    } else if discriminator == 5 {
        revoke_step(ledger, accounts)
    } else if discriminator == 6 {
        set_authority_step(ledger, accounts, data)
    } else if discriminator == 8 {
        burn_step(ledger, accounts, data)
    } else if discriminator == 10 {
        freeze_step(ledger, accounts)
    } else if discriminator == 11 {
        thaw_step(ledger, accounts)
    } else if discriminator == 12 {
        transfer_checked_step(ledger, accounts, data)
    } else if discriminator == 13 {
        approve_checked_step(ledger, accounts, data)
    } else if discriminator == 14 {
        mint_to_checked_step(ledger, accounts, data)
    } else if discriminator == 15 {
        burn_checked_step(ledger, accounts, data)
    } else if discriminator == 16 {
        initialize_account2_step(ledger, accounts, data)
    } else if discriminator == 17 {
        sync_native_step(ledger, accounts)
    } else if discriminator == 19 {
        initialize_multisig_step(ledger, accounts, data, 1)
    } else if discriminator == 21 {
        get_account_data_size_step(ledger, accounts)
    } else if discriminator == 22 {
        initialize_immutable_owner_step(ledger, accounts)
    } else if discriminator == 23 {
        amount_to_ui_amount_step(ledger, accounts, data)
    } else if discriminator == 24 {
        ui_amount_to_amount_step(ledger, accounts, data)
    } else {
        Err(TokenError::InvalidInstructionData)
    }
}

/// What an instruction other than a batch comes to. `data` is the
/// discriminator and the payload; without a discriminator, with the
/// discriminator of a batch or with one that names no instruction, it is
/// refused with `InvalidInstructionData`.
#[verifier::opaque]
pub open spec fn inner_step(ledger: LedgerView, accounts: Seq<usize>, data: Seq<u8>) -> Result<
    LedgerView,
    TokenError,
> {
    let payload = data.subrange(1, data.len() as int);
    if data.len() == 0 {
        Err(TokenError::InvalidInstructionData)
    } else if data[0] == 0 {
        initialize_mint_step(ledger, accounts, payload, true)
    } else if data[0] == 3 {
        transfer_step(ledger, accounts, payload)
    } else if data[0] == 7 {
        mint_to_step(ledger, accounts, payload)
    } else if data[0] == 9 {
        close_step(ledger, accounts)
    } else if data[0] == 18 {
        initialize_account3_step(ledger, accounts, payload)
    } else if data[0] == 20 {
        initialize_mint_step(ledger, accounts, payload, false)
    } else {
        remaining_step(ledger, accounts, payload, data[0])
    }
}

/// What an instruction comes to. `data` is the discriminator and the payload.
pub open spec fn instruction_step(ledger: LedgerView, accounts: Seq<usize>, data: Seq<u8>) -> Result<
    LedgerView,
    TokenError,
> {
    if data.len() > 0 && data[0] == 255 {
        batch_step(ledger, accounts, data.subrange(1, data.len() as int))
    } else {
        inner_step(ledger, accounts, data)
    }
}

/// Without a discriminator, or with the discriminator of a batch, an
/// instruction inside a batch is refused.
pub proof fn lemma_inner_step_refuses(ledger: LedgerView, accounts: Seq<usize>, data: Seq<u8>)
    requires
        data.len() == 0 || data[0] == 255,
    ensures
        inner_step(ledger, accounts, data) == Err::<LedgerView, TokenError>(
            TokenError::InvalidInstructionData,
        ),
{
    reveal(inner_step);
}

/// How deep an instruction nests: a batch holds instructions, which hold none.
pub open spec fn nesting(data: Seq<u8>) -> nat {
    if data.len() > 0 && data[0] == 255 {
        2
    } else {
        0
    }
}

/// Process an instruction.
///
/// The processor of the token program is divided into two parts to reduce the overhead
/// of having a large `match` statement. The first part of the processor handles the
/// most common instructions, while the second part handles the remaining instructions.
/// The rationale is to reduce the overhead of making multiple comparisons for popular
/// instructions.
///
/// Instructions on the first part of the processor:
///
/// - `0`: `InitializeMint`
/// - `3`:  `Transfer`
/// - `7`:  `MintTo`
/// - `9`:  `CloseAccount`
/// - `18`: `InitializeAccount3`
/// - `20`: `InitializeMint2`
///
/// `accounts` lists, in the order the instruction gives them their roles, the
/// positions in the ledger of the accounts it works on. The ledger is left
/// as the instruction says, or, where it is refused, as it was.
pub fn process_instruction(
    _program_id: &Pubkey,
    ledger: &mut Ledger,
    accounts: &[usize],
    instruction_data: &[u8],
) -> (result: Result<(), TokenError>)
    ensures
        outcome_is(
            old(ledger)@,
            final(ledger)@,
            result,
            instruction_step(old(ledger)@, accounts@, instruction_data@),
        ),
    decreases nesting(instruction_data@),
{
    proof {
        reveal(inner_step);
    }
    if instruction_data.len() == 0 {
        return Err(TokenError::InvalidInstructionData);
    }
    let discriminator = instruction_data[0];
    let instruction_data = slice_subrange(instruction_data, 1, instruction_data.len());

    match discriminator {
        // 0 - InitializeMint
        0 => process_initialize_mint(ledger, accounts, instruction_data, true),
        // 3 - Transfer
        3 => process_transfer(ledger, accounts, instruction_data),
        // 7 - MintTo
        7 => process_mint_to(ledger, accounts, instruction_data),
        // 9 - CloseAccount
        9 => process_close_account(ledger, accounts),
        // 18 - InitializeAccount3
        18 => process_initialize_account3(ledger, accounts, instruction_data),
        // 20 - InitializeMint2
        20 => process_initialize_mint2(ledger, accounts, instruction_data),
        // 255 - Batch
        255 => process_batch(ledger, accounts, instruction_data),
        _ => process_remaining_instruction(ledger, accounts, instruction_data, discriminator),
    }
}

/// Process the remaining instructions.
///
/// This function is called by the `process_instruction` function if the discriminator
/// does not match any of the common instructions. This function is used to reduce the
/// overhead of having a large `match` statement in the `process_instruction` function.
pub fn process_remaining_instruction(
    ledger: &mut Ledger,
    accounts: &[usize],
    instruction_data: &[u8],
    discriminator: u8,
) -> (result: Result<(), TokenError>)
    ensures
        outcome_is(
            old(ledger)@,
            final(ledger)@,
            result,
            remaining_step(old(ledger)@, accounts@, instruction_data@, discriminator),
        ),
{
    match discriminator {
        // 1 - InitializeAccount
        1 => process_initialize_account(ledger, accounts),
        // 2 - InitializeMultisig
        2 => process_initialize_multisig(ledger, accounts, instruction_data),
        // 4 - Approve
        4 => process_approve(ledger, accounts, instruction_data),
        // 5 - Revoke
        5 => process_revoke(ledger, accounts, instruction_data),
        // 6 - SetAuthority
        6 => process_set_authority(ledger, accounts, instruction_data),
        // 8 - Burn
        8 => process_burn(ledger, accounts, instruction_data),
        // 10 - FreezeAccount
        10 => process_freeze_account(ledger, accounts),
        // 11 - ThawAccount
        11 => process_thaw_account(ledger, accounts),
        // 12 - TransferChecked
        12 => process_transfer_checked(ledger, accounts, instruction_data),
        // 13 - ApproveChecked
        13 => process_approve_checked(ledger, accounts, instruction_data),
        // 14 - MintToChecked
        14 => process_mint_to_checked(ledger, accounts, instruction_data),
        // 15 - BurnChecked
        15 => process_burn_checked(ledger, accounts, instruction_data),
        // 16 - InitializeAccount2
        16 => process_initialize_account2(ledger, accounts, instruction_data),
        // 17 - SyncNative
        17 => process_sync_native(ledger, accounts),
        // 19 - InitializeMultisig2
        19 => process_initialize_multisig2(ledger, accounts, instruction_data),
        // 21 - GetAccountDataSize
        21 => process_get_account_data_size(ledger, accounts),
        // 22 - InitializeImmutableOwner
        22 => process_initialize_immutable_owner(ledger, accounts),
        // 23 - AmountToUiAmount
        23 => process_amount_to_ui_amount(ledger, accounts, instruction_data),
        // 24 - UiAmountToAmount
        24 => process_ui_amount_to_amount(ledger, accounts, instruction_data),
        _ => Err(TokenError::InvalidInstructionData),
    }
}

} // verus!
