//! What holds of the instructions together: a frozen holding stays out of
//! everything, a delegate stays within its allowance, stated decimals are the
//! mint's, and a closed holding is gone.

use vstd::prelude::*;
use crate::authority::{authority_failure, lemma_authority_frame, same_authorities};
use crate::entrypoint::inner_step;
use crate::error::TokenError;
use crate::instruction::checked_amount_args;
use crate::processor::batch::batch_step;
use crate::processor::approve::{
    approve, approve_checked_step, approve_failure, delegate_position, revoke_failure, revoke_step,
};
use crate::processor::burn::{burn, burn_checked_step, burn_failure};
use crate::processor::close_account::{close_failure, close_step, closer};
use crate::processor::freeze::{freeze_step, thaw_step};
use crate::processor::mint_to::{mint_to, mint_to_checked_step, mint_to_failure};
use crate::processor::acts_as_delegate;
use crate::processor::transfer::{
    destination_position, transfer, transfer_checked_step, transfer_failure,
};
use crate::state::{AccountData, AccountInfo, LedgerView};

verus! {

/// Whether an instruction is refused because a holding is frozen, or before
/// that because it names too few accounts.
pub open spec fn refused_as_frozen(failure: Option<TokenError>) -> bool {
    failure == Some(TokenError::AccountFrozen) || failure == Some(
        TokenError::NotEnoughAccountKeys,
    )
}

/// Whether an account holds a frozen holding.
pub open spec fn is_frozen_holding(info: AccountInfo) -> bool {
    info.holding() is Ok && info.holding()->Ok_0.is_frozen()
}

/// Freeze exclusion, for the source: nothing is transferred, delegated or
/// burned out of a frozen holding, and its delegate is not revoked.
pub proof fn lemma_frozen_source_is_excluded(
    ledger: LedgerView,
    accounts: Seq<usize>,
    amount: u64,
    decimals: Option<u8>,
)
    requires
        is_frozen_holding(ledger.at(accounts, 0)),
    ensures
        refused_as_frozen(transfer_failure(ledger, accounts, amount, decimals)),
        refused_as_frozen(approve_failure(ledger, accounts, decimals)),
        refused_as_frozen(burn_failure(ledger, accounts, amount, decimals)),
        refused_as_frozen(revoke_failure(ledger, accounts)),
{
}

/// Freeze exclusion, for the destination: nothing is minted into a frozen
/// holding, and nothing transferred into it.
pub proof fn lemma_frozen_destination_is_excluded(
    ledger: LedgerView,
    accounts: Seq<usize>,
    amount: u64,
    decimals: Option<u8>,
)
    ensures
        is_frozen_holding(ledger.at(accounts, 1)) ==> refused_as_frozen(
            mint_to_failure(ledger, accounts, amount, decimals),
        ),
        is_frozen_holding(ledger.at(accounts, destination_position(decimals))) ==> transfer(
            ledger,
            accounts,
            amount,
            decimals,
        ) is Err,
{
}

/// Thawing restores: a holding that was frozen and is thawed by the same
/// accounts is what it was, and so is the ledger.
pub proof fn lemma_thaw_restores(ledger: LedgerView, accounts: Seq<usize>)
    requires
        freeze_step(ledger, accounts) is Ok,
    ensures
        is_frozen_holding(freeze_step(ledger, accounts)->Ok_0.at(accounts, 0)),
        thaw_step(freeze_step(ledger, accounts)->Ok_0, accounts) == Ok::<LedgerView, TokenError>(
            ledger,
        ),
{
    let frozen = freeze_step(ledger, accounts)->Ok_0;
    let authority = ledger.at(accounts, 1).mint()->Ok_0.freeze_authority->Some_0;
    assert(same_authorities(ledger, frozen));
    lemma_authority_frame(ledger, frozen, authority, accounts, 2);
    assert(thaw_step(frozen, accounts) is Ok);
    assert(thaw_step(frozen, accounts)->Ok_0.accounts =~= ledger.accounts);
    assert(thaw_step(frozen, accounts)->Ok_0 =~= ledger);
}

/// The delegate cap. After an approval of `allowance`, a transfer out of the
/// same holding by the delegate
/// - is refused where it asks for more: with `InsufficientFunds` where
///   nothing else is wrong with it, that is where a transfer of nothing would pass;
/// - leaves, where it passes, what is left of the allowance;
/// - passes where the allowance and the balance cover it, a transfer of
///   nothing would pass, and the destination has room.
pub proof fn lemma_delegate_cap(
    ledger: LedgerView,
    approval: Seq<usize>,
    allowance: u64,
    approval_decimals: Option<u8>,
    accounts: Seq<usize>,
    amount: u64,
    decimals: Option<u8>,
)
    requires
        approve(ledger, approval, allowance, approval_decimals) is Ok,
        accounts[0] == approval[0],
        ledger.at(accounts, destination_position(decimals) + 1).key == ledger.at(
            approval,
            delegate_position(approval_decimals),
        ).key,
    ensures
        ({
            let approved = approve(ledger, approval, allowance, approval_decimals)->Ok_0;
            let to = destination_position(decimals);
            let source = approved.at(accounts, 0).holding()->Ok_0;
            let moved = transfer(approved, accounts, amount, decimals);
            &&& source.delegated_amount == allowance
            &&& amount > allowance ==> moved is Err
            &&& amount > allowance && transfer(approved, accounts, 0, decimals) is Ok ==> moved
                == Err::<LedgerView, TokenError>(TokenError::InsufficientFunds)
            &&& moved is Ok ==> amount <= allowance && moved->Ok_0.at(
                accounts,
                0,
            ).holding()->Ok_0.delegated_amount == allowance - amount
            &&& amount <= allowance && amount <= source.amount && source.is_native is None
                && transfer(approved, accounts, 0, decimals) is Ok && (accounts[0] == accounts[to]
                || approved.at(accounts, to).holding()->Ok_0.amount + amount <= u64::MAX)
                ==> moved is Ok
        }),
{
}

/// Revoking resets the cap: whatever the allowance was, after `Revoke` there
/// is no delegate and no allowance, and nothing else has changed.
pub proof fn lemma_revoke_resets_cap(ledger: LedgerView, accounts: Seq<usize>)
    requires
        revoke_step(ledger, accounts) is Ok,
    ensures
        ({
            let before = ledger.at(accounts, 0).holding()->Ok_0;
            let after = revoke_step(ledger, accounts)->Ok_0;
            &&& after.at(accounts, 0).holding() is Ok
            &&& after.at(accounts, 0).holding()->Ok_0.delegate is None
            &&& after.at(accounts, 0).holding()->Ok_0.delegated_amount == 0
            &&& after.at(accounts, 0).holding()->Ok_0.amount == before.amount
            &&& after.at(accounts, 0).holding()->Ok_0.owner == before.owner
            &&& forall|i: int|
                0 <= i < ledger.accounts.len() && i != accounts[0] ==> after.accounts[i]
                    == ledger.accounts[i]
        }),
{
}

/// Whether an account holds an initialized mint with the given decimals.
pub open spec fn is_mint_with_decimals(info: AccountInfo, decimals: u8) -> bool {
    info.mint() is Ok && info.mint()->Ok_0.decimals == decimals
}

/// Decimals enforcement: a checked instruction passes only where the
/// decimals it states are those of the mint it names, whatever the amount.
pub proof fn lemma_decimals_are_enforced(
    ledger: LedgerView,
    accounts: Seq<usize>,
    amount: u64,
    decimals: u8,
)
    ensures
        transfer(ledger, accounts, amount, Some(decimals)) is Ok ==> is_mint_with_decimals(
            ledger.at(accounts, 1),
            decimals,
        ),
        approve(ledger, accounts, amount, Some(decimals)) is Ok ==> is_mint_with_decimals(
            ledger.at(accounts, 1),
            decimals,
        ),
        burn(ledger, accounts, amount, Some(decimals)) is Ok ==> is_mint_with_decimals(
            ledger.at(accounts, 1),
            decimals,
        ),
        mint_to(ledger, accounts, amount, Some(decimals)) is Ok ==> is_mint_with_decimals(
            ledger.at(accounts, 0),
            decimals,
        ),
{
}

/// Decimals enforcement, by its error: where a checked instruction passes
/// with the decimals of the mint, it is refused with `DecimalsMismatch` with
/// any other, whatever the amount.
pub proof fn lemma_wrong_decimals_mismatch(
    ledger: LedgerView,
    accounts: Seq<usize>,
    amount: u64,
    other_amount: u64,
    decimals: u8,
    wrong: u8,
)
    requires
        wrong != decimals,
    ensures
        transfer(ledger, accounts, amount, Some(decimals)) is Ok ==> transfer(
            ledger,
            accounts,
            other_amount,
            Some(wrong),
        ) == Err::<LedgerView, TokenError>(TokenError::DecimalsMismatch),
        approve(ledger, accounts, amount, Some(decimals)) is Ok ==> approve(
            ledger,
            accounts,
            other_amount,
            Some(wrong),
        ) == Err::<LedgerView, TokenError>(TokenError::DecimalsMismatch),
        burn(ledger, accounts, amount, Some(decimals)) is Ok ==> burn(
            ledger,
            accounts,
            other_amount,
            Some(wrong),
        ) == Err::<LedgerView, TokenError>(TokenError::DecimalsMismatch),
        mint_to(ledger, accounts, amount, Some(decimals)) is Ok ==> mint_to(
            ledger,
            accounts,
            other_amount,
            Some(wrong),
        ) == Err::<LedgerView, TokenError>(TokenError::DecimalsMismatch),
{
}

/// A delegate spends within its cap: what a delegate transfers or burns is
/// no more than the balance and no more than its allowance.
pub proof fn lemma_delegate_spends_within_cap(
    ledger: LedgerView,
    accounts: Seq<usize>,
    amount: u64,
    decimals: Option<u8>,
)
    requires
        ledger.at(accounts, 0).holding() is Ok,
    ensures
        ({
            let source = ledger.at(accounts, 0).holding()->Ok_0;
            let authority = destination_position(decimals) + 1;
            &&& transfer(ledger, accounts, amount, decimals) is Ok ==> amount <= source.amount
            &&& transfer(ledger, accounts, amount, decimals) is Ok && acts_as_delegate(
                ledger,
                source,
                accounts,
                authority,
            ) ==> amount <= source.delegated_amount
            &&& burn(ledger, accounts, amount, decimals) is Ok ==> amount <= source.amount
            &&& burn(ledger, accounts, amount, decimals) is Ok && acts_as_delegate(
                ledger,
                source,
                accounts,
                2,
            ) ==> amount <= source.delegated_amount
        }),
{
}

/// Decimals enforcement, for the checked instructions as they come in: with
/// other decimals in the payload than the mint has, each of them is refused.
pub proof fn lemma_wrong_decimals_are_refused(
    ledger: LedgerView,
    accounts: Seq<usize>,
    data: Seq<u8>,
)
    requires
        checked_amount_args(data) is Ok,
    ensures
        ledger.at(accounts, 1).mint() is Ok && ledger.at(accounts, 1).mint()->Ok_0.decimals
            != data[8] ==> transfer_checked_step(ledger, accounts, data) is Err
            && approve_checked_step(ledger, accounts, data) is Err && burn_checked_step(
            ledger,
            accounts,
            data,
        ) is Err,
        ledger.at(accounts, 0).mint() is Ok && ledger.at(accounts, 0).mint()->Ok_0.decimals
            != data[8] ==> mint_to_checked_step(ledger, accounts, data) is Err,
{
    let args = checked_amount_args(data)->Ok_0;
    lemma_decimals_are_enforced(ledger, accounts, args.0, args.1);
}

/// The close precondition: a holding that does not wrap the native currency
/// and still has a balance is not closed.
pub proof fn lemma_close_requires_empty(ledger: LedgerView, accounts: Seq<usize>)
    requires
        ledger.names(accounts, 0),
        ledger.names(accounts, 1),
        ledger.names(accounts, 2),
        accounts[0] != accounts[1],
        ledger.at(accounts, 0).holding() is Ok,
        ledger.at(accounts, 0).holding()->Ok_0.is_native is None,
        ledger.at(accounts, 0).holding()->Ok_0.amount > 0,
    ensures
        close_step(ledger, accounts) == Err::<LedgerView, TokenError>(TokenError::NonZeroBalance),
{
}

/// An empty holding is closed where its close authority, or without one its
/// owner, acts and the lamports fit in the destination.
pub proof fn lemma_empty_holding_closes(ledger: LedgerView, accounts: Seq<usize>)
    requires
        ledger.names(accounts, 0),
        ledger.names(accounts, 1),
        ledger.names(accounts, 2),
        accounts[0] != accounts[1],
        ledger.at(accounts, 0).holding() is Ok,
        ledger.at(accounts, 0).holding()->Ok_0.amount == 0,
        authority_failure(ledger, closer(ledger.at(accounts, 0).holding()->Ok_0), accounts, 2)
            is None,
        ledger.at(accounts, 0).lamports + ledger.at(accounts, 1).lamports <= u64::MAX,
    ensures
        close_step(ledger, accounts) is Ok,
{
}

/// A closed holding is gone: its account has no lamports and no record, and
/// holds neither a holding nor a mint nor a multisignature any more. The
/// destination has the lamports, and no other account has changed.
pub proof fn lemma_closed_is_gone(ledger: LedgerView, accounts: Seq<usize>)
    requires
        close_step(ledger, accounts) is Ok,
    ensures
        ({
            let after = close_step(ledger, accounts)->Ok_0;
            let gone = after.at(accounts, 0);
            &&& gone.data == AccountData::Empty
            &&& gone.lamports == 0
            &&& gone.holding() is Err
            &&& gone.mint() is Err
            &&& !gone.is_multisig()
            &&& after.at(accounts, 1).lamports == ledger.at(accounts, 1).lamports + ledger.at(
                accounts,
                0,
            ).lamports
            &&& forall|i: int|
                0 <= i < ledger.accounts.len() && i != accounts[0] && i != accounts[1]
                    ==> after.accounts[i] == ledger.accounts[i]
        }),
{
    assert(close_failure(ledger, accounts) is None);
}

/// One instruction as it stands in a batch: the number of its accounts, the
/// length of its data, and the data.
pub open spec fn batch_row(count: nat, data: Seq<u8>) -> Seq<u8> {
    seq![count as u8, data.len() as u8] + data
}

/// A batch is its instructions in order, until one fails: it comes to what
/// the rest of the batch comes to on the ledger that the first instruction
/// leaves, and where the first instruction fails, the batch fails as it did.
/// So a batch whose second instruction fails has failed, whatever the first did.
pub proof fn lemma_batch_is_its_instructions_in_order(
    ledger: LedgerView,
    first_accounts: Seq<usize>,
    first_data: Seq<u8>,
    rest_accounts: Seq<usize>,
    rest_data: Seq<u8>,
)
    requires
        first_accounts.len() <= 255,
        first_data.len() <= 255,
    ensures
        batch_step(
            ledger,
            first_accounts + rest_accounts,
            batch_row(first_accounts.len(), first_data) + rest_data,
        ) == match inner_step(ledger, first_accounts, first_data) {
            Ok(next) => batch_step(next, rest_accounts, rest_data),
            Err(e) => Err(e),
        },
{
    let accounts = first_accounts + rest_accounts;
    let data = batch_row(first_accounts.len(), first_data) + rest_data;
    assert(data[0] == first_accounts.len() && data[1] == first_data.len());
    assert(accounts.take(data[0] as int) =~= first_accounts);
    assert(accounts.skip(data[0] as int) =~= rest_accounts);
    assert(data.subrange(2, 2 + data[1] as int) =~= first_data);
    assert(data.skip(2 + data[1] as int) =~= rest_data);
}

} // verus!
