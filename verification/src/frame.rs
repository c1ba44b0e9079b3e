//! What no instruction changes: which accounts there are, their addresses
//! and signatures, and how many lamports they have between them.

use vstd::prelude::*;
use crate::entrypoint::{inner_step, instruction_step, remaining_step};
use crate::instruction::{amount_args, checked_amount_args};
use crate::processor::batch::batch_step;
use crate::processor::close_account::close_step;
use crate::processor::set_authority::set_authority_step;
use crate::processor::transfer::{debited, destination_position, transfer};
use crate::state::{AccountData, AccountInfo, LedgerView};

verus! {

/// The lamports that all the accounts have together.
pub open spec fn total_lamports(accounts: Seq<AccountInfo>) -> nat
    decreases accounts.len(),
{
    if accounts.len() == 0 {
        0
    } else {
        total_lamports(accounts.drop_last()) + accounts.last().lamports as nat
    }
}

/// Whether two ledgers have the same accounts, but for their records and for
/// where the lamports are: as many accounts, with the same addresses and
/// signatures, as many lamports between them, and the same rent-exempt reserve.
pub open spec fn same_frame(before: LedgerView, after: LedgerView) -> bool {
    &&& after.accounts.len() == before.accounts.len()
    &&& after.rent_exempt_reserve == before.rent_exempt_reserve
    &&& total_lamports(after.accounts) == total_lamports(before.accounts)
    &&& forall|i: int|
        0 <= i < before.accounts.len() ==> {
            &&& (#[trigger] after.accounts[i]).key == before.accounts[i].key
            &&& after.accounts[i].is_signer == before.accounts[i].is_signer
        }
}

/// Replacing one account changes the lamports by what the account has more or less.
pub proof fn lemma_total_lamports_update(accounts: Seq<AccountInfo>, i: int, info: AccountInfo)
    requires
        0 <= i < accounts.len(),
    ensures
        total_lamports(accounts.update(i, info)) + accounts[i].lamports == total_lamports(accounts)
            + info.lamports,
    decreases accounts.len(),
{
    if i == accounts.len() - 1 {
        assert(accounts.update(i, info).drop_last() =~= accounts.drop_last());
    } else {
        lemma_total_lamports_update(accounts.drop_last(), i, info);
        assert(accounts.update(i, info).drop_last() =~= accounts.drop_last().update(i, info));
    }
}

/// Another record in one account keeps the frame.
pub proof fn lemma_with_data_keeps_frame(ledger: LedgerView, i: int, data: AccountData)
    requires
        0 <= i < ledger.accounts.len(),
    ensures
        same_frame(ledger, ledger.with_data(i, data)),
{
    lemma_total_lamports_update(ledger.accounts, i, ledger.accounts[i].with_data(data));
}

/// Other records in two accounts keep the frame.
pub proof fn lemma_with_two_data_keeps_frame(
    ledger: LedgerView,
    i: int,
    first: AccountData,
    j: int,
    second: AccountData,
)
    requires
        0 <= i < ledger.accounts.len(),
        0 <= j < ledger.accounts.len(),
    ensures
        same_frame(ledger, ledger.with_data(i, first).with_data(j, second)),
{
    let middle = ledger.with_data(i, first);
    lemma_with_data_keeps_frame(ledger, i, first);
    lemma_with_data_keeps_frame(middle, j, second);
}

/// A transfer keeps the frame: between holdings of the native currency the
/// lamports that leave the source reach the destination.
pub proof fn lemma_transfer_keeps_frame(
    ledger: LedgerView,
    accounts: Seq<usize>,
    amount: u64,
    decimals: Option<u8>,
)
    requires
        transfer(ledger, accounts, amount, decimals) is Ok,
    ensures
        same_frame(ledger, transfer(ledger, accounts, amount, decimals)->Ok_0),
{
    let to = destination_position(decimals);
    let next = transfer(ledger, accounts, amount, decimals)->Ok_0;
    let after_debit = ledger.with_info(accounts[0] as int, debited(ledger, accounts, amount, decimals));
    lemma_total_lamports_update(
        ledger.accounts,
        accounts[0] as int,
        debited(ledger, accounts, amount, decimals),
    );
    lemma_total_lamports_update(
        after_debit.accounts,
        accounts[to] as int,
        next.accounts[accounts[to] as int],
    );
}

/// Closing keeps the frame: the lamports of the holding are with the destination.
pub proof fn lemma_close_keeps_frame(ledger: LedgerView, accounts: Seq<usize>)
    requires
        close_step(ledger, accounts) is Ok,
    ensures
        same_frame(ledger, close_step(ledger, accounts)->Ok_0),
{
    let next = close_step(ledger, accounts)->Ok_0;
    let to_i = accounts[1] as int;
    let from_i = accounts[0] as int;
    let middle = ledger.accounts.update(to_i, next.accounts[to_i]);
    assert(next.accounts =~= middle.update(from_i, next.accounts[from_i]));
    lemma_total_lamports_update(ledger.accounts, to_i, next.accounts[to_i]);
    lemma_total_lamports_update(middle, from_i, next.accounts[from_i]);
}

/// The less common instructions keep the frame.
pub proof fn lemma_remaining_step_keeps_frame(
    ledger: LedgerView,
    accounts: Seq<usize>,
    data: Seq<u8>,
    discriminator: u8,
)
    requires
        remaining_step(ledger, accounts, data, discriminator) is Ok,
    ensures
        same_frame(ledger, remaining_step(ledger, accounts, data, discriminator)->Ok_0),
{
    let next = remaining_step(ledger, accounts, data, discriminator)->Ok_0;
    let first = accounts[0] as int;
    if discriminator == 12 {
        let args = checked_amount_args(data)->Ok_0;
        lemma_transfer_keeps_frame(ledger, accounts, args.0, Some(args.1));
    } else if discriminator == 8 || discriminator == 15 {
        lemma_with_two_data_keeps_frame(
            ledger,
            first,
            next.accounts[first].data,
            accounts[1] as int,
            next.accounts[accounts[1] as int].data,
        );
        assert(next =~= ledger.with_data(first, next.accounts[first].data).with_data(
            accounts[1] as int,
            next.accounts[accounts[1] as int].data,
        ));
    } else if discriminator == 14 {
        lemma_with_two_data_keeps_frame(
            ledger,
            first,
            next.accounts[first].data,
            accounts[1] as int,
            next.accounts[accounts[1] as int].data,
        );
        assert(next =~= ledger.with_data(first, next.accounts[first].data).with_data(
            accounts[1] as int,
            next.accounts[accounts[1] as int].data,
        ));
    } else if discriminator == 21 || discriminator == 23 || discriminator == 24 {
        assert(next.accounts == ledger.accounts);
    } else if discriminator == 6 {
        lemma_set_authority_keeps_frame(ledger, accounts, data);
    } else {
        lemma_with_data_keeps_frame(ledger, first, next.accounts[first].data);
        assert(next =~= ledger.with_data(first, next.accounts[first].data));
    }
}

/// `SetAuthority` keeps the frame.
pub proof fn lemma_set_authority_keeps_frame(ledger: LedgerView, accounts: Seq<usize>, data: Seq<u8>)
    requires
        set_authority_step(ledger, accounts, data) is Ok,
    ensures
        same_frame(ledger, set_authority_step(ledger, accounts, data)->Ok_0),
{
    let next = set_authority_step(ledger, accounts, data)->Ok_0;
    let first = accounts[0] as int;
    lemma_with_data_keeps_frame(ledger, first, next.accounts[first].data);
    assert(next =~= ledger.with_data(first, next.accounts[first].data));
}

/// An instruction other than a batch keeps the frame of the ledger.
pub proof fn lemma_inner_step_keeps_frame(ledger: LedgerView, accounts: Seq<usize>, data: Seq<u8>)
    requires
        inner_step(ledger, accounts, data) is Ok,
    ensures
        same_frame(ledger, inner_step(ledger, accounts, data)->Ok_0),
{
    reveal(inner_step);
    let next = inner_step(ledger, accounts, data)->Ok_0;
    let payload = data.subrange(1, data.len() as int);
    let first = accounts[0] as int;
    if data[0] == 3 {
        lemma_transfer_keeps_frame(ledger, accounts, amount_args(payload)->Ok_0, None);
    } else if data[0] == 7 {
        lemma_with_two_data_keeps_frame(
            ledger,
            first,
            next.accounts[first].data,
            accounts[1] as int,
            next.accounts[accounts[1] as int].data,
        );
        assert(next =~= ledger.with_data(first, next.accounts[first].data).with_data(
            accounts[1] as int,
            next.accounts[accounts[1] as int].data,
        ));
    } else if data[0] == 9 {
        lemma_close_keeps_frame(ledger, accounts);
    } else if data[0] == 0 || data[0] == 18 || data[0] == 20 {
        lemma_with_data_keeps_frame(ledger, first, next.accounts[first].data);
        assert(next =~= ledger.with_data(first, next.accounts[first].data));
    } else {
        lemma_remaining_step_keeps_frame(ledger, accounts, payload, data[0]);
    }
}

/// A batch keeps the frame of the ledger.
pub proof fn lemma_batch_step_keeps_frame(ledger: LedgerView, accounts: Seq<usize>, data: Seq<u8>)
    requires
        batch_step(ledger, accounts, data) is Ok,
    ensures
        same_frame(ledger, batch_step(ledger, accounts, data)->Ok_0),
    decreases data.len(),
{
    if data.len() > 0 {
        let first = inner_step(
            ledger,
            accounts.take(data[0] as int),
            data.subrange(2, 2 + data[1] as int),
        );
        lemma_inner_step_keeps_frame(
            ledger,
            accounts.take(data[0] as int),
            data.subrange(2, 2 + data[1] as int),
        );
        lemma_batch_step_keeps_frame(
            first->Ok_0,
            accounts.skip(data[0] as int),
            data.skip(2 + data[1] as int),
        );
    }
}

/// The frame is kept: whatever an instruction does, it leaves as many
/// accounts as there were, with the addresses and signatures they had and as
/// many lamports between them. So no instruction makes or loses lamports,
/// and accounts with distinct addresses keep distinct addresses.
pub proof fn lemma_instruction_keeps_frame(ledger: LedgerView, accounts: Seq<usize>, data: Seq<u8>)
    requires
        instruction_step(ledger, accounts, data) is Ok,
    ensures
        same_frame(ledger, instruction_step(ledger, accounts, data)->Ok_0),
        ledger.distinct_keys() ==> instruction_step(ledger, accounts, data)->Ok_0.distinct_keys(),
{
    let next = instruction_step(ledger, accounts, data)->Ok_0;
    if data.len() > 0 && data[0] == 255 {
        lemma_batch_step_keeps_frame(ledger, accounts, data.subrange(1, data.len() as int));
    } else {
        lemma_inner_step_keeps_frame(ledger, accounts, data);
    }
    if ledger.distinct_keys() {
        assert forall|i: int, j: int|
            0 <= i < next.accounts.len() && 0 <= j < next.accounts.len() && i != j implies (
        #[trigger] next.accounts[i]).key != (#[trigger] next.accounts[j]).key by {
            assert(ledger.accounts[i].key != ledger.accounts[j].key);
        }
    }
}

} // verus!
