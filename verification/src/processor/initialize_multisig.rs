//! `InitializeMultisig` and `InitializeMultisig2`.

use vstd::array::spec_array_update;
use vstd::prelude::*;
use crate::error::TokenError;
use crate::instruction::{threshold_args, unpack_threshold};
use crate::processor::{outcome_is, settle};
use crate::pubkey::{pubkey_eq, Pubkey, PROGRAM_ID};
use crate::state::{AccountData, AccountInfo, Ledger, LedgerView, Multisig, MAX_SIGNERS};

verus! {

/// The signer list that has the given entries.
pub open spec fn signer_array(keys: Seq<Pubkey>) -> [Pubkey; 11]
    recommends
        keys.len() == 11,
{
    choose|signers: [Pubkey; 11]| signers@ == keys
}

/// Every signer list is the one that has its entries.
pub proof fn lemma_signer_array(signers: [Pubkey; 11])
    ensures
        signer_array(signers@) == signers,
{
    let chosen = signer_array(signers@);
    assert(chosen@ == signers@);
    assert(chosen =~= signers);
}

/// A signer list whose first `upto` entries are those of `keys`.
pub open spec fn signer_array_upto(keys: Seq<Pubkey>, upto: nat) -> [Pubkey; 11]
    decreases upto,
{
    if upto == 0 {
        arbitrary()
    } else {
        spec_array_update(signer_array_upto(keys, (upto - 1) as nat), upto - 1, keys[upto - 1])
    }
}

/// Eleven addresses make a signer list: the one that has them as its entries.
pub proof fn lemma_signer_array_holds(keys: Seq<Pubkey>)
    requires
        keys.len() == 11,
    ensures
        signer_array(keys)@ == keys,
{
    lemma_signer_array_upto(keys, 11);
    assert(signer_array_upto(keys, 11)@ =~= keys);
}

/// The first `upto` entries of the list made up to there are those of `keys`.
proof fn lemma_signer_array_upto(keys: Seq<Pubkey>, upto: nat)
    requires
        upto <= 11,
    ensures
        forall|i: int| 0 <= i < upto ==> signer_array_upto(keys, upto)@[i] == keys[i],
    decreases upto,
{
    if upto > 0 {
        lemma_signer_array_upto(keys, (upto - 1) as nat);
    }
}

/// Why an account cannot become a multisignature: it is not the program's,
/// has no room for one, or holds one already.
pub open spec fn blank_multisig_failure(info: AccountInfo) -> Option<TokenError> {
    if info.owner != PROGRAM_ID {
        Some(TokenError::IncorrectProgramId)
    } else if !(info.data is Multisig) {
        Some(TokenError::InvalidAccountData)
    } else if info.data->Multisig_0.is_initialized {
        Some(TokenError::AlreadyInitialized)
    } else {
        None
    }
}

/// The addresses of the accounts from position `first` on, in the order
/// given, followed by what the record held before.
pub open spec fn listed_signers(ledger: LedgerView, accounts: Seq<usize>, first: int) -> Seq<
    Pubkey,
> {
    Seq::new(
        11,
        |i: int|
            if first + i < accounts.len() {
                ledger.at(accounts, first + i).key
            } else {
                ledger.at(accounts, 0).data->Multisig_0.signers[i]
            },
    )
}

/// Why a multisignature of `m` required signers is not initialized. The
/// signers are the accounts from position `first` on: there must be between 1
/// and 11 of them, and `m` between 1 and their number.
pub open spec fn initialize_multisig_failure(
    ledger: LedgerView,
    accounts: Seq<usize>,
    m: u8,
    first: int,
) -> Option<TokenError> {
    let n = accounts.len() - first;
    if exists|k: int| 0 <= k < first && !#[trigger] ledger.names(accounts, k) {
        Some(TokenError::NotEnoughAccountKeys)
    } else if blank_multisig_failure(ledger.at(accounts, 0)) is Some {
        blank_multisig_failure(ledger.at(accounts, 0))
    } else if n < 1 || n > MAX_SIGNERS || m < 1 || m > n {
        Some(TokenError::InvalidArgument)
    } else if exists|k: int| first <= k < accounts.len() && !#[trigger] ledger.names(accounts, k) {
        Some(TokenError::NotEnoughAccountKeys)
    } else {
        None
    }
}

/// The multisignature that initializing stores.
pub open spec fn new_multisig(ledger: LedgerView, accounts: Seq<usize>, m: u8, first: int) -> Multisig {
    Multisig {
        m,
        n: (accounts.len() - first) as u8,
        is_initialized: true,
        signers: signer_array(listed_signers(ledger, accounts, first)),
    }
}

/// What initializing a multisignature comes to. The payload is the number of
/// required signers; the accounts are the multisignature, the rent sysvar
/// where `first` is 2, and the signers.
pub open spec fn initialize_multisig_step(
    ledger: LedgerView,
    accounts: Seq<usize>,
    data: Seq<u8>,
    first: int,
) -> Result<LedgerView, TokenError> {
    match threshold_args(data) {
        Ok(m) => settle(
            initialize_multisig_failure(ledger, accounts, m, first),
            ledger.with_data(
                accounts[0] as int,
                AccountData::Multisig(new_multisig(ledger, accounts, m, first)),
            ),
        ),
        Err(e) => Err(e),
    }
}

/// Initializes the multisignature at position 0 with the signers from
/// position `first` on.
fn initialize_signers(
    ledger: &mut Ledger,
    accounts: &[usize],
    instruction_data: &[u8],
    first: usize,
) -> (result: Result<(), TokenError>)
    requires
        1 <= first <= 2,
    ensures
        outcome_is(
            old(ledger)@,
            final(ledger)@,
            result,
            initialize_multisig_step(old(ledger)@, accounts@, instruction_data@, first as int),
        ),
{
    let m = unpack_threshold(instruction_data)?;
    let i = ledger.account_index(accounts, 0)?;
    if first == 2 {
        ledger.account_index(accounts, 1)?;
    }
    assert(forall|k: int| 0 <= k < first ==> ledger@.names(accounts@, k));
    let info = ledger.accounts[i];
    if !pubkey_eq(&info.owner, &PROGRAM_ID) {
        return Err(TokenError::IncorrectProgramId);
    }
    let blank = match info.data {
        AccountData::Multisig(blank) => blank,
        _ => {
            return Err(TokenError::InvalidAccountData);
        },
    };
    if blank.is_initialized {
        return Err(TokenError::AlreadyInitialized);
    }
    let n = accounts.len() - first;
    if n < 1 || n > MAX_SIGNERS || m < 1 || m as usize > n {
        return Err(TokenError::InvalidArgument);
    }
    let mut signers = blank.signers;
    let mut k: usize = 0;
    while k < n
        invariant
            k <= n <= 11,
            1 <= first <= 2,
            n == accounts@.len() - first,
            ledger@ == old(ledger)@,
            forall|j: int| 0 <= j < first ==> ledger@.names(accounts@, j),
            blank_multisig_failure(ledger@.at(accounts@, 0)) is None,
            ledger@.at(accounts@, 0).data == AccountData::Multisig(blank),
            1 <= m <= n,
            threshold_args(instruction_data@) == Ok::<u8, TokenError>(m),
            forall|j: int| first <= j < first + k ==> ledger@.names(accounts@, j),
            forall|j: int| 0 <= j < k ==> signers@[j] == ledger@.at(accounts@, first + j).key,
            forall|j: int| k <= j < 11 ==> signers@[j] == blank.signers@[j],
        decreases n - k,
    {
        let found = ledger.account_index(accounts, first + k);
        match found {
            Ok(at) => {
                signers[k] = ledger.accounts[at].key;
            },
            Err(e) => {
                assert(!ledger@.names(accounts@, first + k));
                return Err(e);
            },
        }
        k += 1;
    }
    proof {
        assert(signers@ =~= listed_signers(ledger@, accounts@, first as int));
        lemma_signer_array(signers);
    }
    ledger.store(
        i,
        AccountData::Multisig(Multisig { m, n: n as u8, is_initialized: true, signers }),
    );
    Ok(())
}

/// `InitializeMultisig`: makes a multisignature of an uninitialized account.
pub fn process_initialize_multisig(
    ledger: &mut Ledger,
    accounts: &[usize],
    instruction_data: &[u8],
) -> (result: Result<(), TokenError>)
    ensures
        outcome_is(
            old(ledger)@,
            final(ledger)@,
            result,
            initialize_multisig_step(old(ledger)@, accounts@, instruction_data@, 2),
        ),
{
    initialize_signers(ledger, accounts, instruction_data, 2)
}

/// `InitializeMultisig2`: `InitializeMultisig` without the rent sysvar account.
pub fn process_initialize_multisig2(
    ledger: &mut Ledger,
    accounts: &[usize],
    instruction_data: &[u8],
) -> (result: Result<(), TokenError>)
    ensures
        outcome_is(
            old(ledger)@,
            final(ledger)@,
            result,
            initialize_multisig_step(old(ledger)@, accounts@, instruction_data@, 1),
        ),
{
    initialize_signers(ledger, accounts, instruction_data, 1)
}

} // verus!
