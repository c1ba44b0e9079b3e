//! `Batch`: several instructions in one, on one list of accounts.

use vstd::prelude::*;
use vstd::slice::slice_subrange;
use crate::entrypoint::{inner_step, lemma_inner_step_refuses, process_instruction};
use crate::error::TokenError;
use crate::processor::outcome_is;
use crate::pubkey::PROGRAM_ID;
use crate::state::{Ledger, LedgerView};

verus! {

/// What `Batch` comes to.
///
/// The payload is a row of instructions, each a count of accounts, a length,
/// and that many bytes: a discriminator and a payload. Each takes its
/// accounts off the front of the list and finds the ledger as the one before
/// left it. A row that ends inside an instruction, an instruction that asks
/// for more accounts than are left, and a batch inside the batch are refused
/// with `InvalidInstructionData`; the first instruction that fails fails the batch.
pub open spec fn batch_step(ledger: LedgerView, accounts: Seq<usize>, data: Seq<u8>) -> Result<
    LedgerView,
    TokenError,
>
    decreases data.len(),
{
    if data.len() == 0 {
        Ok(ledger)
    } else if data.len() < 2 || data.len() < 2 + data[1] || accounts.len() < data[0] {
        Err(TokenError::InvalidInstructionData)
    } else {
        match inner_step(
            ledger,
            accounts.take(data[0] as int),
            data.subrange(2, 2 + data[1] as int),
        ) {
            Ok(next) => batch_step(
                next,
                accounts.skip(data[0] as int),
                data.skip(2 + data[1] as int),
            ),
            Err(e) => Err(e),
        }
    }
}

/// `Batch`: executes the instructions in the payload one after the other.
/// Where one fails, the ledger is as it was before the batch.
pub fn process_batch(ledger: &mut Ledger, accounts: &[usize], instruction_data: &[u8]) -> (result:
    Result<(), TokenError>)
    ensures
        outcome_is(
            old(ledger)@,
            final(ledger)@,
            result,
            batch_step(old(ledger)@, accounts@, instruction_data@),
        ),
    decreases 1nat,
{
    let mut work = ledger.duplicate();
    let mut taken: usize = 0;
    let mut read: usize = 0;
    assert(accounts@.skip(0) =~= accounts@);
    assert(instruction_data@.skip(0) =~= instruction_data@);
    while read < instruction_data.len()
        invariant
            taken <= accounts@.len(),
            read <= instruction_data@.len(),
            ledger@ == old(ledger)@,
            batch_step(old(ledger)@, accounts@, instruction_data@) == batch_step(
                work@,
                accounts@.skip(taken as int),
                instruction_data@.skip(read as int),
            ),
        decreases instruction_data@.len() - read,
    {
        let ghost rest_accounts = accounts@.skip(taken as int);
        let ghost rest_data = instruction_data@.skip(read as int);
        if instruction_data.len() - read < 2 {
            return Err(TokenError::InvalidInstructionData);
        }
        let count = instruction_data[read] as usize;
        let len = instruction_data[read + 1] as usize;
        assert(rest_data[0] == count && rest_data[1] == len);
        if instruction_data.len() - read - 2 < len || accounts.len() - taken < count {
            return Err(TokenError::InvalidInstructionData);
        }
        let ix_accounts = slice_subrange(accounts, taken, taken + count);
        let ix_data = slice_subrange(instruction_data, read + 2, read + 2 + len);
        assert(ix_accounts@ =~= rest_accounts.take(count as int));
        assert(ix_data@ =~= rest_data.subrange(2, 2 + len));
        if len == 0 || ix_data[0] == 255 {
            proof {
                lemma_inner_step_refuses(work@, ix_accounts@, ix_data@);
            }
            return Err(TokenError::InvalidInstructionData);
        }
        match process_instruction(&PROGRAM_ID, &mut work, ix_accounts, ix_data) {
            Ok(()) => {},
            Err(e) => {
                return Err(e);
            },
        }
        assert(rest_accounts.skip(count as int) =~= accounts@.skip(taken + count));
        assert(rest_data.skip(2 + len) =~= instruction_data@.skip(read + 2 + len));
        taken += count;
        read += 2 + len;
    }
    assert(instruction_data@.skip(read as int).len() == 0);
    *ledger = work;
    Ok(())
}

} // verus!
