use token_program::authority::{count_signers, is_signed_by, validate_owner};
use token_program::pubkey::{pubkey_eq, PROGRAM_ID, SYSTEM_PROGRAM_ID};
use token_program::{
    process_instruction, Account, AccountData, AccountInfo, AccountState, Ledger, Mint, Multisig,
    Pubkey, TokenError,
};

const MINT: usize = 0;
const A: usize = 1;
const B: usize = 2;
const MULTISIG: usize = 3;
const S1: usize = 4;
const S2: usize = 5;
const S3: usize = 6;
const STRANGER: usize = 7;
const BLANK: usize = 8;
const RENT: usize = 9;

fn key(tag: u8) -> Pubkey {
    let mut key = [7u8; 32];
    key[5] = tag;
    key
}

fn wallet(tag: u8, is_signer: bool) -> AccountInfo {
    AccountInfo {
        key: key(tag),
        owner: SYSTEM_PROGRAM_ID,
        lamports: 1,
        is_signer,
        data: AccountData::Empty,
    }
}

fn record(tag: u8, data: AccountData) -> AccountInfo {
    AccountInfo { key: key(tag), owner: PROGRAM_ID, lamports: 1, is_signer: false, data }
}

fn holding(owner: Pubkey, amount: u64) -> Account {
    Account {
        mint: key(1),
        owner,
        amount,
        delegate: None,
        state: AccountState::Initialized,
        is_native: None,
        delegated_amount: 0,
        close_authority: None,
        immutable_owner: false,
    }
}

fn two_of_three() -> Multisig {
    let mut signers = [SYSTEM_PROGRAM_ID; 11];
    signers[0] = key(11);
    signers[1] = key(12);
    signers[2] = key(13);
    Multisig { m: 2, n: 3, is_initialized: true, signers }
}

/// A ledger whose holding A is owned by a 2-of-3 multisignature; who signed is given.
fn ledger(signed: [bool; 3]) -> Ledger {
    Ledger::new(
        vec![
            record(
                1,
                AccountData::Mint(Mint {
                    mint_authority: Some(key(4)),
                    supply: 100,
                    decimals: 0,
                    is_initialized: true,
                    freeze_authority: None,
                }),
            ),
            record(2, AccountData::Account(holding(key(4), 100))),
            record(3, AccountData::Account(holding(key(14), 0))),
            record(4, AccountData::Multisig(two_of_three())),
            wallet(11, signed[0]),
            wallet(12, signed[1]),
            wallet(13, signed[2]),
            wallet(14, true),
            record(20, AccountData::Multisig(Multisig::uninitialized())),
            wallet(30, false),
        ],
        0,
    )
}

fn transfer(ledger: &mut Ledger, accounts: &[usize]) -> Result<(), TokenError> {
    let before = ledger.accounts.clone();
    let result = process_instruction(&PROGRAM_ID, ledger, accounts, &[3, 1, 0, 0, 0, 0, 0, 0, 0]);
    if result.is_err() {
        assert_eq!(ledger.accounts, before);
    }
    result
}

#[test]
fn a_multisignature_needs_its_threshold() {
    let missing = Err(TokenError::MissingRequiredSignature);
    // exactly m signers
    assert_eq!(transfer(&mut ledger([true, true, false]), &[A, B, MULTISIG, S1, S2]), Ok(()));
    assert_eq!(transfer(&mut ledger([true, false, true]), &[A, B, MULTISIG, S1, S3]), Ok(()));
    // all of them
    assert_eq!(transfer(&mut ledger([true, true, true]), &[A, B, MULTISIG, S1, S2, S3]), Ok(()));
    // m - 1 signers
    assert_eq!(transfer(&mut ledger([true, true, true]), &[A, B, MULTISIG, S2]), missing);
    assert_eq!(transfer(&mut ledger([true, true, true]), &[A, B, MULTISIG]), missing);
    // a signer that is named but did not sign does not count
    assert_eq!(transfer(&mut ledger([true, false, false]), &[A, B, MULTISIG, S1, S2, S3]), missing);
    // and does not stand in the way of those that did
    assert_eq!(transfer(&mut ledger([true, false, true]), &[A, B, MULTISIG, S1, S2, S3]), Ok(()));
}

#[test]
fn duplicate_signers_do_not_count_twice() {
    let missing = Err(TokenError::MissingRequiredSignature);
    assert_eq!(transfer(&mut ledger([true, true, true]), &[A, B, MULTISIG, S1, S1]), missing);
    assert_eq!(transfer(&mut ledger([true, true, true]), &[A, B, MULTISIG, S3, S3, S3, S3]), missing);
    assert_eq!(transfer(&mut ledger([true, true, true]), &[A, B, MULTISIG, S1, S1, S2]), Ok(()));
}

#[test]
fn excess_and_disorder_among_the_signers_are_tolerated() {
    let all = [true, true, true];
    assert_eq!(transfer(&mut ledger(all), &[A, B, MULTISIG, S3, STRANGER, S1]), Ok(()));
    assert_eq!(transfer(&mut ledger(all), &[A, B, MULTISIG, STRANGER, B, S2, MINT, S1]), Ok(()));
    assert_eq!(
        transfer(&mut ledger(all), &[A, B, MULTISIG, STRANGER, S1, 99]),
        Err(TokenError::MissingRequiredSignature)
    );
    // The multisignature itself does not sign.
    let mut signed = ledger([false, false, false]);
    signed.accounts[MULTISIG].is_signer = true;
    assert_eq!(
        transfer(&mut signed, &[A, B, MULTISIG]),
        Err(TokenError::MissingRequiredSignature)
    );
}

#[test]
fn an_authority_must_be_the_one_named_and_initialized() {
    let all = [true, true, true];
    assert_eq!(transfer(&mut ledger(all), &[A, B, S1, S1, S2]), Err(TokenError::OwnerMismatch));
    let mut odd = ledger(all);
    odd.accounts[BLANK].key = key(4);
    assert_eq!(transfer(&mut odd, &[A, B, BLANK, S1, S2]), Err(TokenError::InvalidAccountData));
    // A multisignature that another program owns is an account like any other.
    let mut foreign = ledger(all);
    foreign.accounts[MULTISIG].owner = key(99);
    assert_eq!(
        transfer(&mut foreign, &[A, B, MULTISIG, S1, S2]),
        Err(TokenError::MissingRequiredSignature)
    );
    foreign.accounts[MULTISIG].is_signer = true;
    assert_eq!(transfer(&mut foreign, &[A, B, MULTISIG]), Ok(()));
}

#[test]
fn validate_owner_on_its_own() {
    let ledger = ledger([true, false, true]);
    assert_eq!(validate_owner(&ledger, &key(4), &[A, B, MULTISIG, S1, S3], 2), Ok(()));
    assert_eq!(
        validate_owner(&ledger, &key(4), &[A, B, MULTISIG, S1, S2], 2),
        Err(TokenError::MissingRequiredSignature)
    );
    assert_eq!(validate_owner(&ledger, &key(14), &[STRANGER], 0), Ok(()));
    assert_eq!(
        validate_owner(&ledger, &key(12), &[S2], 0),
        Err(TokenError::MissingRequiredSignature)
    );
    assert_eq!(validate_owner(&ledger, &key(12), &[S1], 0), Err(TokenError::OwnerMismatch));
    assert_eq!(validate_owner(&ledger, &key(12), &[S1], 1), Err(TokenError::NotEnoughAccountKeys));
    assert_eq!(validate_owner(&ledger, &key(12), &[77], 0), Err(TokenError::NotEnoughAccountKeys));

    assert_eq!(count_signers(&ledger, &two_of_three(), &[S1, S2, S3, S1, STRANGER]), 2);
    assert_eq!(count_signers(&ledger, &two_of_three(), &[]), 0);
    assert!(is_signed_by(&ledger, &[S2, S3], &key(13)));
    assert!(!is_signed_by(&ledger, &[S2, S3], &key(12)));
    assert!(!is_signed_by(&ledger, &[S2, 99], &key(13)));
    assert!(pubkey_eq(&key(3), &key(3)));
    assert!(!pubkey_eq(&key(3), &key(4)));
    let mut close = key(3);
    close[31] ^= 1;
    assert!(!pubkey_eq(&key(3), &close));
}

#[test]
fn a_signer_named_twice_in_the_record_is_matched_by_one_account() {
    let mut ledger = ledger([true, false, false]);
    let mut record = two_of_three();
    record.signers[1] = key(11);
    ledger.accounts[MULTISIG].data = AccountData::Multisig(record);
    assert_eq!(count_signers(&ledger, &record, &[S1]), 2);
    assert_eq!(transfer(&mut ledger, &[A, B, MULTISIG, S1]), Ok(()));
}

#[test]
fn initializing_a_multisignature() {
    let mut ledger = ledger([false, false, false]);
    let run = |ledger: &mut Ledger, accounts: &[usize], data: &[u8]| {
        let before = ledger.accounts.clone();
        let result = process_instruction(&PROGRAM_ID, ledger, accounts, data);
        if result.is_err() {
            assert_eq!(ledger.accounts, before);
        }
        result
    };
    let bad = Err(TokenError::InvalidArgument);
    assert_eq!(run(&mut ledger, &[BLANK, S1, S2, S3], &[19, 0]), bad);
    assert_eq!(run(&mut ledger, &[BLANK, S1, S2, S3], &[19, 4]), bad);
    assert_eq!(run(&mut ledger, &[BLANK], &[19, 1]), bad);
    assert_eq!(run(&mut ledger, &[BLANK, 4, 4, 4, 4, 4, 4, 4, 4, 4, 4, 4, 4], &[19, 1]), bad);
    assert_eq!(run(&mut ledger, &[BLANK, S1, 99], &[19, 1]), Err(TokenError::NotEnoughAccountKeys));
    assert_eq!(run(&mut ledger, &[], &[19, 1]), Err(TokenError::NotEnoughAccountKeys));
    assert_eq!(run(&mut ledger, &[BLANK, S1], &[19]), Err(TokenError::InvalidInstructionData));
    assert_eq!(run(&mut ledger, &[BLANK, S1], &[19, 1, 1]), Err(TokenError::InvalidInstructionData));
    assert_eq!(run(&mut ledger, &[MULTISIG, S1], &[19, 1]), Err(TokenError::AlreadyInitialized));
    assert_eq!(run(&mut ledger, &[A, S1], &[19, 1]), Err(TokenError::InvalidAccountData));
    assert_eq!(run(&mut ledger, &[S1, S1], &[19, 1]), Err(TokenError::IncorrectProgramId));

    assert_eq!(run(&mut ledger, &[BLANK, S1, S2, S3], &[19, 2]), Ok(()));
    assert_eq!(ledger.accounts[BLANK].data, AccountData::Multisig(two_of_three()));

    // With the rent sysvar account listed, the signers follow it.
    ledger.accounts[BLANK].data = AccountData::Multisig(Multisig::uninitialized());
    assert_eq!(run(&mut ledger, &[BLANK, RENT, S3], &[2, 1]), Ok(()));
    let mut signers = [SYSTEM_PROGRAM_ID; 11];
    signers[0] = key(13);
    assert_eq!(
        ledger.accounts[BLANK].data,
        AccountData::Multisig(Multisig { m: 1, n: 1, is_initialized: true, signers })
    );
    ledger.accounts[BLANK].data = AccountData::Multisig(Multisig::uninitialized());
    assert_eq!(run(&mut ledger, &[BLANK, RENT], &[2, 1]), bad);
    assert_eq!(run(&mut ledger, &[BLANK], &[2, 1]), Err(TokenError::NotEnoughAccountKeys));

    // Eleven signers are the most.
    let eleven = [BLANK, S1, S2, S3, S1, S2, S3, S1, S2, S3, S1, S2];
    assert_eq!(run(&mut ledger, &eleven, &[19, 11]), Ok(()));
    match ledger.accounts[BLANK].data {
        AccountData::Multisig(multisig) => {
            assert_eq!((multisig.m, multisig.n), (11, 11));
            assert_eq!(multisig.signers[10], key(12));
        }
        other => panic!("no multisignature: {:?}", other),
    }
}
