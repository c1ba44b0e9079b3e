//! `GetAccountDataSize`: how many bytes a holding of a mint takes.

use vstd::prelude::*;
use crate::error::TokenError;
use crate::instruction::{pack_u64, u64_bytes};
use crate::processor::outcome_is;
use crate::state::{Ledger, LedgerView, ACCOUNT_LEN};

verus! {

/// What `GetAccountDataSize` comes to. The one account is a mint; the size of
/// a holding is returned in eight bytes, least significant first, and no
/// account changes.
pub open spec fn get_account_data_size_step(ledger: LedgerView, accounts: Seq<usize>) -> Result<
    LedgerView,
    TokenError,
> {
    if !ledger.names(accounts, 0) {
        Err(TokenError::NotEnoughAccountKeys)
    } else if ledger.at(accounts, 0).mint() is Err {
        Err(ledger.at(accounts, 0).mint()->Err_0)
    } else {
        Ok(ledger.with_return_data(u64_bytes(ACCOUNT_LEN as u64)))
    }
}

/// `GetAccountDataSize`: returns the size of a holding of the given mint.
pub fn process_get_account_data_size(ledger: &mut Ledger, accounts: &[usize]) -> (result: Result<
    (),
    TokenError,
>)
    ensures
        outcome_is(
            old(ledger)@,
            final(ledger)@,
            result,
            get_account_data_size_step(old(ledger)@, accounts@),
        ),
{
    let i = ledger.account_index(accounts, 0)?;
    // Make sure the mint is valid.
    let info = ledger.accounts[i];
    info.load_mint()?;
    ledger.return_data = pack_u64(ACCOUNT_LEN as u64);
    Ok(())
}

} // verus!
