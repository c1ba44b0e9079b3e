//! What the instructions keep of the units in the ledger: transfers move
//! them, and only minting and burning change how many there are.

use vstd::prelude::*;
use crate::entrypoint::{inner_step, instruction_step};
use crate::error::TokenError;
use crate::processor::burn::{burn, burn_checked_step, burn_step};
use crate::processor::mint_to::{mint_to, mint_to_checked_step, mint_to_step};
use crate::instruction::{amount_args, checked_amount_args};
use crate::processor::transfer::{
    debited, destination_position, transfer, transfer_checked_step, transfer_step,
};
use crate::pubkey::Pubkey;
use crate::state::{AccountInfo, LedgerView};

verus! {

/// The units of `mint` that an account holds: the balance of an initialized
/// holding of that mint, and nothing for any other account.
pub open spec fn held(info: AccountInfo, mint: Pubkey) -> nat {
    match info.holding() {
        Ok(holding) => if holding.mint == mint {
            holding.amount as nat
        } else {
            0
        },
        Err(_) => 0,
    }
}

/// The units of `mint` that all the accounts hold together.
pub open spec fn total_held(accounts: Seq<AccountInfo>, mint: Pubkey) -> nat
    decreases accounts.len(),
{
    if accounts.len() == 0 {
        0
    } else {
        total_held(accounts.drop_last(), mint) + held(accounts.last(), mint)
    }
}

/// Whether every initialized mint of the ledger has as its supply what all
/// the holdings of that mint hold together.
pub open spec fn supplies_match(ledger: LedgerView) -> bool {
    forall|i: int|
        0 <= i < ledger.accounts.len() && (#[trigger] ledger.accounts[i]).mint() is Ok
            ==> ledger.accounts[i].mint()->Ok_0.supply == total_held(
            ledger.accounts,
            ledger.accounts[i].key,
        )
}

/// One instruction with its accounts.
pub struct Invocation {
    /// The positions in the ledger of the accounts, in the order of their roles.
    pub accounts: Seq<usize>,
    /// The discriminator and the payload.
    pub data: Seq<u8>,
}

/// What a row of instructions comes to, executed one after the other until one fails.
pub open spec fn run(ledger: LedgerView, invocations: Seq<Invocation>) -> Result<
    LedgerView,
    TokenError,
>
    decreases invocations.len(),
{
    if invocations.len() == 0 {
        Ok(ledger)
    } else {
        match run(ledger, invocations.drop_last()) {
            Ok(next) => instruction_step(
                next,
                invocations.last().accounts,
                invocations.last().data,
            ),
            Err(e) => Err(e),
        }
    }
}

/// Whether an instruction is a `Transfer` or a `TransferChecked`.
pub open spec fn is_transfer(data: Seq<u8>) -> bool {
    data.len() > 0 && (data[0] == 3 || data[0] == 12)
}

/// Whether an instruction is a `MintTo`, a `Burn`, or the checked form of one.
pub open spec fn is_mint_or_burn(data: Seq<u8>) -> bool {
    data.len() > 0 && (data[0] == 7 || data[0] == 8 || data[0] == 14 || data[0] == 15)
}

/// Replacing one account changes the total by what the account held more or less.
pub proof fn lemma_total_held_update(
    accounts: Seq<AccountInfo>,
    i: int,
    info: AccountInfo,
    mint: Pubkey,
)
    requires
        0 <= i < accounts.len(),
    ensures
        total_held(accounts.update(i, info), mint) + held(accounts[i], mint) == total_held(
            accounts,
            mint,
        ) + held(info, mint),
    decreases accounts.len(),
{
    if i == accounts.len() - 1 {
        assert(accounts.update(i, info).drop_last() =~= accounts.drop_last());
    } else {
        lemma_total_held_update(accounts.drop_last(), i, info, mint);
        assert(accounts.update(i, info).drop_last() =~= accounts.drop_last().update(i, info));
    }
}

/// Conservation: a transfer leaves the units of every mint as many as they
/// were, whatever the mint and whoever holds them.
pub proof fn lemma_transfer_conserves(
    ledger: LedgerView,
    accounts: Seq<usize>,
    amount: u64,
    decimals: Option<u8>,
    mint: Pubkey,
)
    requires
        transfer(ledger, accounts, amount, decimals) is Ok,
    ensures
        total_held(transfer(ledger, accounts, amount, decimals)->Ok_0.accounts, mint)
            == total_held(ledger.accounts, mint),
{
    let to = destination_position(decimals);
    let next = transfer(ledger, accounts, amount, decimals)->Ok_0;
    let after_debit = ledger.with_info(accounts[0] as int, debited(ledger, accounts, amount, decimals));
    lemma_total_held_update(
        ledger.accounts,
        accounts[0] as int,
        debited(ledger, accounts, amount, decimals),
        mint,
    );
    lemma_total_held_update(
        after_debit.accounts,
        accounts[to] as int,
        next.accounts[accounts[to] as int],
        mint,
    );
}

/// Conservation, for `Transfer` and `TransferChecked` as they come in.
pub proof fn lemma_transfer_instruction_conserves(
    ledger: LedgerView,
    accounts: Seq<usize>,
    data: Seq<u8>,
    mint: Pubkey,
)
    requires
        is_transfer(data),
        instruction_step(ledger, accounts, data) is Ok,
    ensures
        total_held(instruction_step(ledger, accounts, data)->Ok_0.accounts, mint) == total_held(
            ledger.accounts,
            mint,
        ),
{
    reveal(inner_step);
    let payload = data.subrange(1, data.len() as int);
    if data[0] == 3 {
        assert(instruction_step(ledger, accounts, data) == transfer_step(ledger, accounts, payload));
        let amount = amount_args(payload)->Ok_0;
        lemma_transfer_conserves(ledger, accounts, amount, None, mint);
    } else {
        assert(instruction_step(ledger, accounts, data) == transfer_checked_step(
            ledger,
            accounts,
            payload,
        ));
        let args = checked_amount_args(payload)->Ok_0;
        lemma_transfer_conserves(ledger, accounts, args.0, Some(args.1), mint);
    }
}

/// Conservation, for all sequences: however many transfers follow one
/// another, between whichever accounts, the units of every mint stay as many
/// as they were.
pub proof fn lemma_transfers_conserve(
    ledger: LedgerView,
    invocations: Seq<Invocation>,
    mint: Pubkey,
)
    requires
        forall|k: int| 0 <= k < invocations.len() ==> is_transfer(#[trigger] invocations[k].data),
        run(ledger, invocations) is Ok,
    ensures
        total_held(run(ledger, invocations)->Ok_0.accounts, mint) == total_held(
            ledger.accounts,
            mint,
        ),
    decreases invocations.len(),
{
    if invocations.len() > 0 {
        let before = invocations.drop_last();
        assert forall|k: int| 0 <= k < before.len() implies is_transfer(
            #[trigger] before[k].data,
        ) by {
            assert(before[k] == invocations[k]);
        }
        lemma_transfers_conserve(ledger, before, mint);
        let middle = run(ledger, before)->Ok_0;
        lemma_transfer_instruction_conserves(
            middle,
            invocations.last().accounts,
            invocations.last().data,
            mint,
        );
    }
}

/// Supply consistency, for minting: where no two accounts share an address
/// and every supply is what the holdings hold, it is so after the minting too.
pub proof fn lemma_mint_to_keeps_supplies(
    ledger: LedgerView,
    accounts: Seq<usize>,
    amount: u64,
    decimals: Option<u8>,
)
    requires
        ledger.distinct_keys(),
        supplies_match(ledger),
        mint_to(ledger, accounts, amount, decimals) is Ok,
    ensures
        supplies_match(mint_to(ledger, accounts, amount, decimals)->Ok_0),
        mint_to(ledger, accounts, amount, decimals)->Ok_0.distinct_keys(),
{
    let next = mint_to(ledger, accounts, amount, decimals)->Ok_0;
    let mint_i = accounts[0] as int;
    let to_i = accounts[1] as int;
    let middle = ledger.accounts.update(mint_i, next.accounts[mint_i]);
    assert(next.accounts =~= middle.update(to_i, next.accounts[to_i]));
    assert forall|i: int|
        0 <= i < next.accounts.len() && (#[trigger] next.accounts[i]).mint() is Ok implies next.accounts[i].mint()->Ok_0.supply
        == total_held(next.accounts, next.accounts[i].key) by {
        let key = next.accounts[i].key;
        lemma_total_held_update(ledger.accounts, mint_i, next.accounts[mint_i], key);
        lemma_total_held_update(middle, to_i, next.accounts[to_i], key);
        assert(ledger.accounts[i].mint() is Ok);
    }
}

/// Supply consistency, for burning: where no two accounts share an address
/// and every supply is what the holdings hold, it is so after the burning too.
pub proof fn lemma_burn_keeps_supplies(
    ledger: LedgerView,
    accounts: Seq<usize>,
    amount: u64,
    decimals: Option<u8>,
)
    requires
        ledger.distinct_keys(),
        supplies_match(ledger),
        burn(ledger, accounts, amount, decimals) is Ok,
    ensures
        supplies_match(burn(ledger, accounts, amount, decimals)->Ok_0),
        burn(ledger, accounts, amount, decimals)->Ok_0.distinct_keys(),
{
    let next = burn(ledger, accounts, amount, decimals)->Ok_0;
    let from_i = accounts[0] as int;
    let mint_i = accounts[1] as int;
    let middle = ledger.accounts.update(from_i, next.accounts[from_i]);
    assert(next.accounts =~= middle.update(mint_i, next.accounts[mint_i]));
    assert forall|i: int|
        0 <= i < next.accounts.len() && (#[trigger] next.accounts[i]).mint() is Ok implies next.accounts[i].mint()->Ok_0.supply
        == total_held(next.accounts, next.accounts[i].key) by {
        let key = next.accounts[i].key;
        lemma_total_held_update(ledger.accounts, from_i, next.accounts[from_i], key);
        lemma_total_held_update(middle, mint_i, next.accounts[mint_i], key);
        assert(ledger.accounts[i].mint() is Ok);
    }
}

/// Supply consistency, for `MintTo`, `Burn` and their checked forms as they come in.
pub proof fn lemma_mint_or_burn_instruction_keeps_supplies(
    ledger: LedgerView,
    accounts: Seq<usize>,
    data: Seq<u8>,
)
    requires
        is_mint_or_burn(data),
        ledger.distinct_keys(),
        supplies_match(ledger),
        instruction_step(ledger, accounts, data) is Ok,
    ensures
        supplies_match(instruction_step(ledger, accounts, data)->Ok_0),
        instruction_step(ledger, accounts, data)->Ok_0.distinct_keys(),
{
    reveal(inner_step);
    let payload = data.subrange(1, data.len() as int);
    if data[0] == 7 {
        assert(instruction_step(ledger, accounts, data) == mint_to_step(ledger, accounts, payload));
        lemma_mint_to_keeps_supplies(ledger, accounts, amount_args(payload)->Ok_0, None);
    } else if data[0] == 8 {
        assert(instruction_step(ledger, accounts, data) == burn_step(ledger, accounts, payload));
        lemma_burn_keeps_supplies(ledger, accounts, amount_args(payload)->Ok_0, None);
    } else if data[0] == 14 {
        assert(instruction_step(ledger, accounts, data) == mint_to_checked_step(
            ledger,
            accounts,
            payload,
        ));
        let args = checked_amount_args(payload)->Ok_0;
        lemma_mint_to_keeps_supplies(ledger, accounts, args.0, Some(args.1));
    } else {
        assert(instruction_step(ledger, accounts, data) == burn_checked_step(
            ledger,
            accounts,
            payload,
        ));
        let args = checked_amount_args(payload)->Ok_0;
        lemma_burn_keeps_supplies(ledger, accounts, args.0, Some(args.1));
    }
}

/// Supply consistency, for all sequences: where no two accounts share an
/// address and every supply is what the holdings hold, it is so after any
/// sequence of mintings and burnings.
pub proof fn lemma_mints_and_burns_keep_supplies(ledger: LedgerView, invocations: Seq<Invocation>)
    requires
        forall|k: int|
            0 <= k < invocations.len() ==> is_mint_or_burn(#[trigger] invocations[k].data),
        ledger.distinct_keys(),
        supplies_match(ledger),
        run(ledger, invocations) is Ok,
    ensures
        supplies_match(run(ledger, invocations)->Ok_0),
        run(ledger, invocations)->Ok_0.distinct_keys(),
    decreases invocations.len(),
{
    if invocations.len() > 0 {
        let before = invocations.drop_last();
        assert forall|k: int| 0 <= k < before.len() implies is_mint_or_burn(
            #[trigger] before[k].data,
        ) by {
            assert(before[k] == invocations[k]);
        }
        lemma_mints_and_burns_keep_supplies(ledger, before);
        lemma_mint_or_burn_instruction_keeps_supplies(
            run(ledger, before)->Ok_0,
            invocations.last().accounts,
            invocations.last().data,
        );
    }
}

} // verus!
