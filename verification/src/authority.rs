//! Who may act: a single signer, or enough signers of a multisignature.

use vstd::prelude::*;
use vstd::slice::slice_subrange;
use crate::error::TokenError;
use crate::pubkey::{pubkey_eq, Pubkey, PROGRAM_ID};
use crate::state::{AccountData, Ledger, LedgerView, Multisig, MAX_SIGNERS};

verus! {

/// Whether position `k` of `signers` names an account with the address `key`
/// whose holder signed.
pub open spec fn signs(ledger: LedgerView, signers: Seq<usize>, k: int, key: Pubkey) -> bool {
    &&& ledger.names(signers, k)
    &&& ledger.at(signers, k).key == key
    &&& ledger.at(signers, k).is_signer
}

/// Whether some account among `signers` has the address `key` and signed.
pub open spec fn signed_by(ledger: LedgerView, signers: Seq<usize>, key: Pubkey) -> bool {
    exists|k: int| #[trigger] signs(ledger, signers, k, key)
}

/// How many of the first `upto` signers of a multisignature signed. A signer
/// counts once, however often its account stands among `signers`.
pub open spec fn matched_signers(
    ledger: LedgerView,
    multisig: Multisig,
    signers: Seq<usize>,
    upto: nat,
) -> nat
    decreases upto,
{
    if upto == 0 {
        0
    } else {
        let rest = matched_signers(ledger, multisig, signers, (upto - 1) as nat);
        if signed_by(ledger, signers, multisig.signers[upto - 1]) {
            rest + 1
        } else {
            rest
        }
    }
}

/// The accounts that follow position `authority` in an instruction's account
/// list: the signers of a multisignature.
pub open spec fn signers_after(accounts: Seq<usize>, authority: int) -> Seq<usize> {
    accounts.subrange(authority + 1, accounts.len() as int)
}

/// Whether the account at position `authority` may act for `expected`.
///
/// The account must have the address `expected`, else `OwnerMismatch`. Where
/// it holds a multisignature, at least `m` of its signers must have signed
/// among the accounts that follow; else the account itself must have signed.
pub open spec fn authority_failure(
    ledger: LedgerView,
    expected: Pubkey,
    accounts: Seq<usize>,
    authority: int,
) -> Option<TokenError> {
    let info = ledger.at(accounts, authority);
    if !ledger.names(accounts, authority) {
        Some(TokenError::NotEnoughAccountKeys)
    } else if info.key != expected {
        Some(TokenError::OwnerMismatch)
    } else if info.is_multisig() {
        let multisig = info.data->Multisig_0;
        if !multisig.is_initialized {
            Some(TokenError::InvalidAccountData)
        } else if matched_signers(
            ledger,
            multisig,
            signers_after(accounts, authority),
            multisig.signer_count(),
        ) < multisig.m {
            Some(TokenError::MissingRequiredSignature)
        } else {
            None
        }
    } else if !info.is_signer {
        Some(TokenError::MissingRequiredSignature)
    } else {
        None
    }
}

/// No more signers match than were asked about.
pub proof fn lemma_matched_signers_bound(
    ledger: LedgerView,
    multisig: Multisig,
    signers: Seq<usize>,
    upto: nat,
)
    ensures
        matched_signers(ledger, multisig, signers, upto) <= upto,
    decreases upto,
{
    if upto > 0 {
        lemma_matched_signers_bound(ledger, multisig, signers, (upto - 1) as nat);
    }
}

/// Whether two ledgers have the same accounts as far as authority goes: the
/// same addresses, owners and signatures, and the same multisignatures.
pub open spec fn same_authorities(a: LedgerView, b: LedgerView) -> bool {
    &&& a.accounts.len() == b.accounts.len()
    &&& forall|i: int|
        0 <= i < a.accounts.len() ==> {
            &&& (#[trigger] a.accounts[i]).key == b.accounts[i].key
            &&& a.accounts[i].owner == b.accounts[i].owner
            &&& a.accounts[i].is_signer == b.accounts[i].is_signer
            &&& a.accounts[i].data is Multisig == b.accounts[i].data is Multisig
            &&& a.accounts[i].data is Multisig ==> a.accounts[i].data == b.accounts[i].data
        }
}

/// Who signed depends on the addresses and signatures of the accounts alone.
pub proof fn lemma_signed_by_frame(a: LedgerView, b: LedgerView, signers: Seq<usize>, key: Pubkey)
    requires
        same_authorities(a, b),
    ensures
        signed_by(a, signers, key) == signed_by(b, signers, key),
{
    if signed_by(a, signers, key) {
        let k = choose|k: int| #[trigger] signs(a, signers, k, key);
        assert(a.accounts[signers[k] as int].key == b.accounts[signers[k] as int].key);
        assert(signs(b, signers, k, key));
    }
    if signed_by(b, signers, key) {
        let k = choose|k: int| #[trigger] signs(b, signers, k, key);
        assert(a.accounts[signers[k] as int].key == b.accounts[signers[k] as int].key);
        assert(signs(a, signers, k, key));
    }
}

/// How many signers match depends on the addresses and signatures of the accounts alone.
pub proof fn lemma_matched_signers_frame(
    a: LedgerView,
    b: LedgerView,
    multisig: Multisig,
    signers: Seq<usize>,
    upto: nat,
)
    requires
        same_authorities(a, b),
    ensures
        matched_signers(a, multisig, signers, upto) == matched_signers(b, multisig, signers, upto),
    decreases upto,
{
    if upto > 0 {
        lemma_matched_signers_frame(a, b, multisig, signers, (upto - 1) as nat);
        lemma_signed_by_frame(a, b, signers, multisig.signers[upto - 1]);
    }
}

/// Who may act is the same in two ledgers that differ in balances and states only.
pub proof fn lemma_authority_frame(
    a: LedgerView,
    b: LedgerView,
    expected: Pubkey,
    accounts: Seq<usize>,
    authority: int,
)
    requires
        same_authorities(a, b),
    ensures
        authority_failure(a, expected, accounts, authority) == authority_failure(
            b,
            expected,
            accounts,
            authority,
        ),
{
    if a.names(accounts, authority) {
        let i = accounts[authority] as int;
        assert(a.accounts[i].key == b.accounts[i].key);
        if a.at(accounts, authority).is_multisig() {
            let multisig = a.at(accounts, authority).data->Multisig_0;
            lemma_matched_signers_frame(
                a,
                b,
                multisig,
                signers_after(accounts, authority),
                multisig.signer_count(),
            );
        }
    }
}

/// Signers count once: two lists that name the same accounts, however often
/// and in whatever order, match the same number of signers.
pub proof fn lemma_signers_count_once(
    ledger: LedgerView,
    multisig: Multisig,
    signers: Seq<usize>,
    others: Seq<usize>,
    upto: nat,
)
    requires
        forall|account: usize| signers.contains(account) <==> others.contains(account),
    ensures
        matched_signers(ledger, multisig, signers, upto) == matched_signers(
            ledger,
            multisig,
            others,
            upto,
        ),
    decreases upto,
{
    if upto > 0 {
        lemma_signers_count_once(ledger, multisig, signers, others, (upto - 1) as nat);
        let key = multisig.signers[upto - 1];
        if signed_by(ledger, signers, key) {
            let k = choose|k: int| #[trigger] signs(ledger, signers, k, key);
            assert(signers.contains(signers[k]));
            let j = choose|j: int| 0 <= j < others.len() && others[j] == signers[k];
            assert(signs(ledger, others, j, key));
        }
        if signed_by(ledger, others, key) {
            let k = choose|k: int| #[trigger] signs(ledger, others, k, key);
            assert(others.contains(others[k]));
            let j = choose|j: int| 0 <= j < signers.len() && signers[j] == others[k];
            assert(signs(ledger, signers, j, key));
        }
    }
}

/// A duplicate does not count twice: naming an account among the signers a
/// second time matches no more signers.
pub proof fn lemma_duplicate_signer_counts_once(
    ledger: LedgerView,
    multisig: Multisig,
    signers: Seq<usize>,
    k: int,
    upto: nat,
)
    requires
        0 <= k < signers.len(),
    ensures
        matched_signers(ledger, multisig, signers.push(signers[k]), upto) == matched_signers(
            ledger,
            multisig,
            signers,
            upto,
        ),
{
    let twice = signers.push(signers[k]);
    assert forall|account: usize| twice.contains(account) <==> signers.contains(account) by {
        if twice.contains(account) {
            let j = choose|j: int| 0 <= j < twice.len() && twice[j] == account;
            if j == signers.len() {
                assert(signers[k] == account);
            } else {
                assert(signers[j] == account);
            }
        }
        if signers.contains(account) {
            let j = choose|j: int| 0 <= j < signers.len() && signers[j] == account;
            assert(twice[j] == account);
        }
    }
    lemma_signers_count_once(ledger, multisig, twice, signers, upto);
}

/// The threshold of a multisignature: with at least `m` of its signers
/// signing the authority may act, with fewer it is refused for want of signatures.
pub proof fn lemma_multisig_threshold(
    ledger: LedgerView,
    expected: Pubkey,
    accounts: Seq<usize>,
    authority: int,
)
    requires
        ledger.names(accounts, authority),
        ledger.at(accounts, authority).key == expected,
        ledger.at(accounts, authority).is_multisig(),
        ledger.at(accounts, authority).data->Multisig_0.is_initialized,
    ensures
        ({
            let multisig = ledger.at(accounts, authority).data->Multisig_0;
            let matched = matched_signers(
                ledger,
                multisig,
                signers_after(accounts, authority),
                multisig.signer_count(),
            );
            &&& matched >= multisig.m ==> authority_failure(ledger, expected, accounts, authority)
                is None
            &&& matched < multisig.m ==> authority_failure(ledger, expected, accounts, authority)
                == Some(TokenError::MissingRequiredSignature)
        }),
{
}

/// Whether some account among `signers` has the address `key` and signed.
pub fn is_signed_by(ledger: &Ledger, signers: &[usize], key: &Pubkey) -> (found: bool)
    ensures
        found == signed_by(ledger@, signers@, *key),
{
    let mut k: usize = 0;
    while k < signers.len()
        invariant
            k <= signers@.len(),
            forall|j: int| 0 <= j < k ==> !signs(ledger@, signers@, j, *key),
        decreases signers@.len() - k,
    {
        let i = signers[k];
        if i < ledger.accounts.len() {
            let info = &ledger.accounts[i];
            if info.is_signer && pubkey_eq(&info.key, key) {
                assert(signs(ledger@, signers@, k as int, *key));
                return true;
            }
        }
        k += 1;
    }
    false
}

/// How many signers of a multisignature signed among `signers`.
pub fn count_signers(ledger: &Ledger, multisig: &Multisig, signers: &[usize]) -> (matched: u8)
    ensures
        matched == matched_signers(ledger@, *multisig, signers@, multisig.signer_count()),
        matched <= MAX_SIGNERS,
{
    let n: usize = if multisig.n as usize <= MAX_SIGNERS {
        multisig.n as usize
    } else {
        MAX_SIGNERS
    };
    let mut matched: u8 = 0;
    let mut i: usize = 0;
    while i < n
        invariant
            i <= n <= MAX_SIGNERS,
            matched == matched_signers(ledger@, *multisig, signers@, i as nat),
            matched <= i,
        decreases n - i,
    {
        if is_signed_by(ledger, signers, &multisig.signers[i]) {
            matched += 1;
        }
        i += 1;
    }
    matched
}

/// Checks that the account at position `authority` may act for `expected`.
pub fn validate_owner(
    ledger: &Ledger,
    expected: &Pubkey,
    accounts: &[usize],
    authority: usize,
) -> (checked: Result<(), TokenError>)
    ensures
        match checked {
            Ok(()) => authority_failure(ledger@, *expected, accounts@, authority as int) is None,
            Err(e) => authority_failure(ledger@, *expected, accounts@, authority as int) == Some(e),
        },
{
    let i = match ledger.account_index(accounts, authority) {
        Ok(i) => i,
        Err(e) => {
            return Err(e);
        },
    };
    let info = &ledger.accounts[i];
    if !pubkey_eq(&info.key, expected) {
        return Err(TokenError::OwnerMismatch);
    }
    if pubkey_eq(&info.owner, &PROGRAM_ID) {
        if let AccountData::Multisig(multisig) = &info.data {
            if !multisig.is_initialized {
                return Err(TokenError::InvalidAccountData);
            }
            assert(ledger@.names(accounts@, authority as int));
            let end = accounts.len();
            let signers = slice_subrange(accounts, authority + 1, end);
            if count_signers(ledger, multisig, signers) < multisig.m {
                return Err(TokenError::MissingRequiredSignature);
            }
            return Ok(());
        }
    }
    if !info.is_signer {
        return Err(TokenError::MissingRequiredSignature);
    }
    Ok(())
}

} // verus!
