use pinocchio::program_error::ProgramError;
use token_program::error::{status, ProgramErrorKind, SUCCESS};
use token_program::layout::{
    append, pack_account_data, pack_holding, pack_mint, pack_multisig, unpack_account_data,
    unpack_holding, unpack_mint, unpack_multisig, IMMUTABLE_HOLDING_LEN, MINT_LEN, MULTISIG_LEN,
};
use token_program::state::ACCOUNT_LEN;
use token_program::{Account, AccountData, AccountState, Mint, Multisig, Pubkey, TokenError};

fn key(tag: u8) -> Pubkey {
    core::array::from_fn(|i| tag.wrapping_add(i as u8))
}

fn sample_mint() -> Mint {
    Mint {
        mint_authority: Some(key(1)),
        supply: 1_000_000,
        decimals: 6,
        is_initialized: true,
        freeze_authority: None,
    }
}

fn sample_holding() -> Account {
    Account {
        mint: key(1),
        owner: key(2),
        amount: 0x0102_0304_0506_0708,
        delegate: Some(key(3)),
        state: AccountState::Frozen,
        is_native: Some(2_039_280),
        delegated_amount: 77,
        close_authority: None,
        immutable_owner: false,
    }
}

fn sample_multisig() -> Multisig {
    Multisig { m: 2, n: 3, is_initialized: true, signers: core::array::from_fn(|i| key(40 + i as u8)) }
}

#[test]
fn a_mint_lies_in_82_bytes() {
    let bytes = pack_mint(&sample_mint());
    let mut expected = vec![1, 0, 0, 0];
    expected.extend_from_slice(&key(1));
    expected.extend_from_slice(&[0x40, 0x42, 0x0f, 0, 0, 0, 0, 0]);
    expected.extend_from_slice(&[6, 1]);
    expected.extend_from_slice(&[0; 36]);
    assert_eq!(bytes, expected);
    assert_eq!(bytes.len(), MINT_LEN);
    assert_eq!(unpack_mint(&bytes), Some(sample_mint()));
    assert_eq!(unpack_mint(&[0; 82]), Some(Mint::uninitialized()));
    assert_eq!(pack_mint(&Mint::uninitialized()), vec![0; 82]);
}

#[test]
fn a_holding_lies_in_165_bytes() {
    let bytes = pack_holding(&sample_holding());
    let mut expected = Vec::new();
    expected.extend_from_slice(&key(1));
    expected.extend_from_slice(&key(2));
    expected.extend_from_slice(&[8, 7, 6, 5, 4, 3, 2, 1]);
    expected.extend_from_slice(&[1, 0, 0, 0]);
    expected.extend_from_slice(&key(3));
    expected.push(2);
    expected.extend_from_slice(&[1, 0, 0, 0]);
    expected.extend_from_slice(&2_039_280u64.to_le_bytes());
    expected.extend_from_slice(&[77, 0, 0, 0, 0, 0, 0, 0]);
    expected.extend_from_slice(&[0; 36]);
    assert_eq!(bytes, expected);
    assert_eq!(bytes.len(), ACCOUNT_LEN);
    assert_eq!(unpack_holding(&bytes), Some(sample_holding()));
    assert_eq!(unpack_holding(&[0; 165]), Some(Account::uninitialized()));
    assert_eq!(pack_holding(&Account::uninitialized()), vec![0; 165]);
}

#[test]
fn an_immutable_owner_takes_five_bytes_more() {
    let holding = Account { immutable_owner: true, ..sample_holding() };
    let bytes = pack_holding(&holding);
    assert_eq!(bytes.len(), IMMUTABLE_HOLDING_LEN);
    assert_eq!(bytes[..165], pack_holding(&sample_holding())[..]);
    assert_eq!(bytes[165..], [2, 7, 0, 0, 0]);
    assert_eq!(unpack_holding(&bytes), Some(holding));
    // Room for the five bytes that is not used says nothing.
    let mut roomy = pack_holding(&sample_holding());
    roomy.extend_from_slice(&[0; 5]);
    assert_eq!(unpack_holding(&roomy), Some(sample_holding()));
    assert_eq!(unpack_holding(&[0; 170]), Some(Account::uninitialized()));
    roomy[166] = 7;
    assert_eq!(unpack_holding(&roomy), None);
    roomy.truncate(169);
    assert_eq!(unpack_holding(&roomy), None);
}

#[test]
fn a_multisignature_lies_in_355_bytes() {
    let bytes = pack_multisig(&sample_multisig());
    assert_eq!(bytes.len(), MULTISIG_LEN);
    assert_eq!(bytes[..3], [2, 3, 1]);
    for k in 0..11 {
        assert_eq!(bytes[3 + 32 * k..35 + 32 * k], key(40 + k as u8));
    }
    assert_eq!(unpack_multisig(&bytes), Some(sample_multisig()));
    match unpack_multisig(&[0; 355]) {
        Some(blank) => {
            assert_eq!((blank.m, blank.n, blank.is_initialized), (0, 0, false));
            assert_eq!(blank.signers, [[0; 32]; 11]);
        }
        None => panic!("no multisignature"),
    }
    assert_eq!(pack_multisig(&Multisig::uninitialized()), vec![0; 355]);
}

#[test]
fn malformed_records_are_not_read() {
    let good = pack_mint(&sample_mint());
    assert_eq!(unpack_mint(&good[..81]), None);
    assert_eq!(unpack_mint(&[good.as_slice(), &[0]].concat()), None);
    for (at, byte) in [(0, 2), (1, 1), (3, 9), (45, 2), (46, 2), (49, 1)] {
        let mut bad = good.clone();
        bad[at] = byte;
        assert_eq!(unpack_mint(&bad), None, "byte {}", at);
        assert_eq!(unpack_account_data(&bad), AccountData::Empty);
    }

    let good = pack_holding(&sample_holding());
    assert_eq!(unpack_holding(&good[..164]), None);
    for (at, byte) in [(72, 2), (73, 1), (108, 3), (109, 2), (110, 1), (129, 2), (132, 1)] {
        let mut bad = good.clone();
        bad[at] = byte;
        assert_eq!(unpack_holding(&bad), None, "byte {}", at);
        assert_eq!(unpack_account_data(&bad), AccountData::Empty);
    }

    let mut bad = pack_multisig(&sample_multisig());
    bad[2] = 2;
    assert_eq!(unpack_multisig(&bad), None);
    assert_eq!(unpack_multisig(&bad[..354]), None);
    assert_eq!(unpack_account_data(&bad), AccountData::Empty);
}

#[test]
fn the_length_of_the_data_says_which_record_it_is() {
    let records = [
        AccountData::Empty,
        AccountData::Mint(sample_mint()),
        AccountData::Mint(Mint { freeze_authority: Some(key(9)), ..sample_mint() }),
        AccountData::Account(sample_holding()),
        AccountData::Account(Account { immutable_owner: true, ..sample_holding() }),
        AccountData::Account(Account { is_native: None, state: AccountState::Initialized, ..sample_holding() }),
        AccountData::Multisig(sample_multisig()),
    ];
    let lengths = [0, 82, 82, 165, 170, 165, 355];
    for (record, length) in records.iter().zip(lengths) {
        let bytes = pack_account_data(record);
        assert_eq!(bytes.len(), length);
        assert_eq!(unpack_account_data(&bytes), *record);
    }
    for length in [1, 81, 83, 164, 166, 169, 171, 354, 356, 1024] {
        assert_eq!(unpack_account_data(&vec![0; length]), AccountData::Empty);
    }
    let mut out = vec![1, 2];
    append(&mut out, &[3, 4, 5]);
    append(&mut out, &[]);
    assert_eq!(out, vec![1, 2, 3, 4, 5]);
}

#[test]
fn the_runtime_is_told_the_outcome_by_a_number() {
    assert_eq!(status(&Ok(())), SUCCESS);
    assert_eq!(status(&Ok(())), 0);
    assert_eq!(status(&Err(TokenError::InvalidArgument)), 2 << 32);
    assert_eq!(status(&Err(TokenError::InvalidInstructionData)), 3 << 32);
    assert_eq!(status(&Err(TokenError::InvalidAccountData)), 4 << 32);
    assert_eq!(status(&Err(TokenError::IncorrectProgramId)), 7 << 32);
    assert_eq!(status(&Err(TokenError::MissingRequiredSignature)), 8 << 32);
    assert_eq!(status(&Err(TokenError::NotEnoughAccountKeys)), 11 << 32);
    assert_eq!(status(&Err(TokenError::InsufficientFunds)), 1);
    assert_eq!(status(&Err(TokenError::InvalidMint)), 2);
    assert_eq!(status(&Err(TokenError::MintMismatch)), 3);
    assert_eq!(status(&Err(TokenError::OwnerMismatch)), 4);
    assert_eq!(status(&Err(TokenError::FixedSupply)), 5);
    assert_eq!(status(&Err(TokenError::AlreadyInitialized)), 6);
    assert_eq!(status(&Err(TokenError::UninitializedState)), 9);
    assert_eq!(status(&Err(TokenError::NativeNotSupported)), 10);
    assert_eq!(status(&Err(TokenError::NonZeroBalance)), 11);
    assert_eq!(status(&Err(TokenError::InvalidState)), 13);
    assert_eq!(status(&Err(TokenError::Overflow)), 14);
    assert_eq!(status(&Err(TokenError::MintCannotFreeze)), 16);
    assert_eq!(status(&Err(TokenError::AccountFrozen)), 17);
    assert_eq!(status(&Err(TokenError::DecimalsMismatch)), 18);
    assert_eq!(status(&Err(TokenError::NotNative)), 19);
    assert_eq!(status(&Err(TokenError::ImmutableOwner)), 34);

    // The runtime reads the number back as the error it stands for.
    assert_eq!(
        ProgramError::from(status(&Err(TokenError::MissingRequiredSignature))),
        ProgramError::MissingRequiredSignature
    );
    assert_eq!(ProgramError::from(status(&Err(TokenError::AccountFrozen))), ProgramError::Custom(17));
    assert_eq!(
        TokenError::NotEnoughAccountKeys.program_error(),
        ProgramErrorKind::NotEnoughAccountKeys
    );
    assert_eq!(TokenError::Overflow.program_error(), ProgramErrorKind::Custom(14));
}
