//! The lives of the records: a record is initialized once, keeps what was
//! fixed then, and ends only where a holding is closed.

use vstd::prelude::*;
use crate::entrypoint::{inner_step, instruction_step, remaining_step};
use crate::instruction::{amount_args, checked_amount_args};
use crate::processor::batch::batch_step;
use crate::processor::close_account::close_step;
use crate::processor::initialize_multisig::{
    initialize_multisig_step, lemma_signer_array_holds, listed_signers,
};
use crate::processor::set_authority::set_authority_step;
use crate::processor::transfer::transfer;
use crate::pubkey::{PROGRAM_ID, SYSTEM_PROGRAM_ID};
use crate::state::{AccountInfo, LedgerView};
use crate::supply::is_mint_or_burn;

verus! {

/// Whether an account is as closing leaves it: with the system program, without a record.
pub open spec fn is_closed(info: AccountInfo) -> bool {
    info.owner == SYSTEM_PROGRAM_ID && info.data is Empty
}

/// Whether an account kept what is fixed for its life.
/// - An account of another program keeps its owner and its data.
/// - An initialized mint stays one, with its decimals.
/// - An initialized holding stays one, of the same mint, or is closed.
/// - An initialized multisignature stays as it is.
pub open spec fn record_kept(before: AccountInfo, after: AccountInfo) -> bool {
    &&& before.owner != PROGRAM_ID ==> after.owner == before.owner && after.data == before.data
    &&& before.mint() is Ok ==> after.mint() is Ok && after.mint()->Ok_0.decimals
        == before.mint()->Ok_0.decimals
    &&& before.holding() is Ok ==> is_closed(after) || (after.holding() is Ok
        && after.holding()->Ok_0.mint == before.holding()->Ok_0.mint)
    &&& before.is_multisig() && before.data->Multisig_0.is_initialized ==> after.owner
        == before.owner && after.data == before.data
}

/// Whether every account kept what is fixed for its life.
pub open spec fn records_kept(before: LedgerView, after: LedgerView) -> bool {
    &&& after.accounts.len() == before.accounts.len()
    &&& forall|i: int|
        0 <= i < before.accounts.len() ==> record_kept(
            before.accounts[i],
            #[trigger] after.accounts[i],
        )
}

/// Whether every initialized mint kept its supply.
pub open spec fn supplies_kept(before: LedgerView, after: LedgerView) -> bool {
    forall|i: int|
        0 <= i < before.accounts.len() && before.accounts[i].mint() is Ok ==> (
        #[trigger] after.accounts[i]).mint() is Ok && after.accounts[i].mint()->Ok_0.supply
            == before.accounts[i].mint()->Ok_0.supply
}

/// This program is not the system program.
pub proof fn lemma_program_is_not_system()
    ensures
        PROGRAM_ID != SYSTEM_PROGRAM_ID,
{
    assert(PROGRAM_ID[0] != SYSTEM_PROGRAM_ID[0]);
}

/// What was kept twice over was kept.
pub proof fn lemma_records_kept_transitive(first: LedgerView, second: LedgerView, third: LedgerView)
    requires
        records_kept(first, second),
        records_kept(second, third),
    ensures
        records_kept(first, third),
{
    lemma_program_is_not_system();
    assert forall|i: int| 0 <= i < first.accounts.len() implies record_kept(
        first.accounts[i],
        #[trigger] third.accounts[i],
    ) by {
        assert(record_kept(first.accounts[i], second.accounts[i]));
        assert(record_kept(second.accounts[i], third.accounts[i]));
    }
}

/// A transfer keeps the records.
pub proof fn lemma_transfer_keeps_records(
    ledger: LedgerView,
    accounts: Seq<usize>,
    amount: u64,
    decimals: Option<u8>,
)
    requires
        transfer(ledger, accounts, amount, decimals) is Ok,
    ensures
        records_kept(ledger, transfer(ledger, accounts, amount, decimals)->Ok_0),
        supplies_kept(ledger, transfer(ledger, accounts, amount, decimals)->Ok_0),
{
}

/// Closing keeps the records: the holding is closed, and the destination
/// differs in its lamports only.
pub proof fn lemma_close_keeps_records(ledger: LedgerView, accounts: Seq<usize>)
    requires
        close_step(ledger, accounts) is Ok,
    ensures
        records_kept(ledger, close_step(ledger, accounts)->Ok_0),
        supplies_kept(ledger, close_step(ledger, accounts)->Ok_0),
{
}

/// `SetAuthority` keeps the records.
pub proof fn lemma_set_authority_keeps_records(ledger: LedgerView, accounts: Seq<usize>, data: Seq<u8>)
    requires
        set_authority_step(ledger, accounts, data) is Ok,
    ensures
        records_kept(ledger, set_authority_step(ledger, accounts, data)->Ok_0),
        supplies_kept(ledger, set_authority_step(ledger, accounts, data)->Ok_0),
{
}

/// The less common instructions keep the records, and all of them but
/// `Burn`, `MintToChecked` and `BurnChecked` the supplies.
pub proof fn lemma_remaining_step_keeps_records(
    ledger: LedgerView,
    accounts: Seq<usize>,
    data: Seq<u8>,
    discriminator: u8,
)
    requires
        remaining_step(ledger, accounts, data, discriminator) is Ok,
    ensures
        records_kept(ledger, remaining_step(ledger, accounts, data, discriminator)->Ok_0),
        discriminator != 8 && discriminator != 14 && discriminator != 15 ==> supplies_kept(
            ledger,
            remaining_step(ledger, accounts, data, discriminator)->Ok_0,
        ),
{
    if discriminator == 12 {
        let args = checked_amount_args(data)->Ok_0;
        lemma_transfer_keeps_records(ledger, accounts, args.0, Some(args.1));
    } else if discriminator == 6 {
        lemma_set_authority_keeps_records(ledger, accounts, data);
    }
}

/// An instruction other than a batch keeps the records.
pub proof fn lemma_inner_step_keeps_records(ledger: LedgerView, accounts: Seq<usize>, data: Seq<u8>)
    requires
        inner_step(ledger, accounts, data) is Ok,
    ensures
        records_kept(ledger, inner_step(ledger, accounts, data)->Ok_0),
        !is_mint_or_burn(data) ==> supplies_kept(ledger, inner_step(ledger, accounts, data)->Ok_0),
{
    reveal(inner_step);
    let payload = data.subrange(1, data.len() as int);
    if data[0] == 3 {
        lemma_transfer_keeps_records(ledger, accounts, amount_args(payload)->Ok_0, None);
    } else if data[0] == 9 {
        lemma_close_keeps_records(ledger, accounts);
    } else if data[0] == 0 || data[0] == 7 || data[0] == 18 || data[0] == 20 {
    } else {
        lemma_remaining_step_keeps_records(ledger, accounts, payload, data[0]);
    }
}

/// A batch keeps the records.
pub proof fn lemma_batch_step_keeps_records(ledger: LedgerView, accounts: Seq<usize>, data: Seq<u8>)
    requires
        batch_step(ledger, accounts, data) is Ok,
    ensures
        records_kept(ledger, batch_step(ledger, accounts, data)->Ok_0),
    decreases data.len(),
{
    if data.len() > 0 {
        let first = inner_step(
            ledger,
            accounts.take(data[0] as int),
            data.subrange(2, 2 + data[1] as int),
        );
        lemma_inner_step_keeps_records(
            ledger,
            accounts.take(data[0] as int),
            data.subrange(2, 2 + data[1] as int),
        );
        lemma_batch_step_keeps_records(
            first->Ok_0,
            accounts.skip(data[0] as int),
            data.skip(2 + data[1] as int),
        );
        lemma_records_kept_transitive(ledger, first->Ok_0, batch_step(ledger, accounts, data)->Ok_0);
    }
}

/// The lives of the records: whatever an instruction does, a mint stays a
/// mint with its decimals, a holding stays a holding of its mint until it is
/// closed, a multisignature stays as it was initialized, and the records of
/// other programs are not touched.
pub proof fn lemma_instruction_keeps_records(ledger: LedgerView, accounts: Seq<usize>, data: Seq<u8>)
    requires
        instruction_step(ledger, accounts, data) is Ok,
    ensures
        records_kept(ledger, instruction_step(ledger, accounts, data)->Ok_0),
{
    if data.len() > 0 && data[0] == 255 {
        lemma_batch_step_keeps_records(ledger, accounts, data.subrange(1, data.len() as int));
    } else {
        lemma_inner_step_keeps_records(ledger, accounts, data);
    }
}

/// The supply changes by minting and burning only: any other instruction,
/// but for a batch, which may hold these, leaves every supply as it was.
pub proof fn lemma_supply_changes_by_minting_and_burning_only(
    ledger: LedgerView,
    accounts: Seq<usize>,
    data: Seq<u8>,
)
    requires
        !is_mint_or_burn(data),
        !(data.len() > 0 && data[0] == 255),
        instruction_step(ledger, accounts, data) is Ok,
    ensures
        supplies_kept(ledger, instruction_step(ledger, accounts, data)->Ok_0),
{
    lemma_inner_step_keeps_records(ledger, accounts, data);
}

/// A multisignature that was initialized is well formed: it requires at
/// least one and at most all of its signers, of which there are at most eleven.
pub proof fn lemma_initialized_multisig_is_well_formed(
    ledger: LedgerView,
    accounts: Seq<usize>,
    data: Seq<u8>,
    first: int,
)
    requires
        1 <= first <= 2,
        initialize_multisig_step(ledger, accounts, data, first) is Ok,
    ensures
        ({
            let after = initialize_multisig_step(ledger, accounts, data, first)->Ok_0.at(
                accounts,
                0,
            );
            &&& after.is_multisig()
            &&& after.data->Multisig_0.is_initialized
            &&& after.data->Multisig_0.well_formed()
            &&& after.data->Multisig_0.m == data[0]
            &&& forall|k: int|
                0 <= k < after.data->Multisig_0.n ==> after.data->Multisig_0.signers[k]
                    == ledger.at(accounts, first + k).key
        }),
{
    assert(ledger.names(accounts, 0));
    lemma_signer_array_holds(listed_signers(ledger, accounts, first));
}

} // verus!
