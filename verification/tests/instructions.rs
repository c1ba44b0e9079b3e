use token_program::pubkey::{NATIVE_MINT_ID, PROGRAM_ID, SYSTEM_PROGRAM_ID};
use token_program::{
    process_get_account_data_size, process_instruction, process_remaining_instruction, Account,
    AccountData, AccountInfo, AccountState, Ledger, Mint, Pubkey, TokenError,
};

const MINT: usize = 0;
const A: usize = 1;
const B: usize = 2;
const MINT_AUTHORITY: usize = 3;
const FREEZE_AUTHORITY: usize = 4;
const OWNER_A: usize = 5;
const OWNER_B: usize = 6;
const DELEGATE: usize = 7;
const STRANGER: usize = 8;
const OTHER_MINT: usize = 9;
const C: usize = 10;
const BLANK_MINT: usize = 11;
const BLANK_HOLDING: usize = 12;
const NATIVE_MINT: usize = 13;
const NATIVE: usize = 14;
const NATIVE_TOO: usize = 15;

const RESERVE: u64 = 2_039_280;

fn key(tag: u8) -> Pubkey {
    let mut key = [0u8; 32];
    key[0] = tag;
    key[31] = 0xa5;
    key
}

fn wallet(tag: u8, is_signer: bool) -> AccountInfo {
    AccountInfo {
        key: key(tag),
        owner: SYSTEM_PROGRAM_ID,
        lamports: 1_000_000_000,
        is_signer,
        data: AccountData::Empty,
    }
}

fn record(tag: u8, data: AccountData) -> AccountInfo {
    AccountInfo { key: key(tag), owner: PROGRAM_ID, lamports: RESERVE, is_signer: false, data }
}

fn mint(authority: Option<Pubkey>, freeze: Option<Pubkey>, supply: u64, decimals: u8) -> Mint {
    Mint { mint_authority: authority, supply, decimals, is_initialized: true, freeze_authority: freeze }
}

fn holding(mint: Pubkey, owner: Pubkey, amount: u64) -> Account {
    Account {
        mint,
        owner,
        amount,
        delegate: None,
        state: AccountState::Initialized,
        is_native: None,
        delegated_amount: 0,
        close_authority: None,
        immutable_owner: false,
    }
}

fn ledger() -> Ledger {
    let native = |tag: u8, amount: u64| AccountInfo {
        key: key(tag),
        owner: PROGRAM_ID,
        lamports: RESERVE + amount,
        is_signer: false,
        data: AccountData::Account(Account {
            is_native: Some(RESERVE),
            ..holding(NATIVE_MINT_ID, key(12), amount)
        }),
    };
    Ledger::new(
        vec![
            record(1, AccountData::Mint(mint(Some(key(10)), Some(key(11)), 1_500, 6))),
            record(2, AccountData::Account(holding(key(1), key(12), 1_000))),
            record(3, AccountData::Account(holding(key(1), key(13), 500))),
            wallet(10, true),
            wallet(11, true),
            wallet(12, true),
            wallet(13, true),
            wallet(14, true),
            wallet(15, false),
            record(20, AccountData::Mint(mint(None, None, 70, 2))),
            record(21, AccountData::Account(holding(key(20), key(12), 70))),
            record(22, AccountData::Mint(Mint::uninitialized())),
            record(23, AccountData::Account(Account::uninitialized())),
            AccountInfo {
                key: NATIVE_MINT_ID,
                ..record(0, AccountData::Mint(mint(None, None, 0, 9)))
            },
            native(30, 5_000),
            native(31, 0),
        ],
        RESERVE,
    )
}

fn amount_data(discriminator: u8, amount: u64) -> Vec<u8> {
    let mut data = vec![discriminator];
    data.extend_from_slice(&amount.to_le_bytes());
    data
}

fn checked_data(discriminator: u8, amount: u64, decimals: u8) -> Vec<u8> {
    let mut data = amount_data(discriminator, amount);
    data.push(decimals);
    data
}

fn run(ledger: &mut Ledger, accounts: &[usize], data: &[u8]) -> Result<(), TokenError> {
    process_instruction(&PROGRAM_ID, ledger, accounts, data)
}

/// Runs an instruction that must be refused, and checks that it changed nothing.
fn refused(ledger: &mut Ledger, accounts: &[usize], data: &[u8]) -> TokenError {
    let accounts_before = ledger.accounts.clone();
    let data_before = ledger.return_data.clone();
    let error = run(ledger, accounts, data).unwrap_err();
    assert_eq!(ledger.accounts, accounts_before);
    assert_eq!(ledger.return_data, data_before);
    error
}

fn holding_at(ledger: &Ledger, at: usize) -> Account {
    match ledger.accounts[at].data {
        AccountData::Account(account) => account,
        other => panic!("no holding: {:?}", other),
    }
}

fn mint_at(ledger: &Ledger, at: usize) -> Mint {
    match ledger.accounts[at].data {
        AccountData::Mint(mint) => mint,
        other => panic!("no mint: {:?}", other),
    }
}

fn total(ledger: &Ledger, mint: &Pubkey) -> u64 {
    ledger
        .accounts
        .iter()
        .map(|info| match info.data {
            AccountData::Account(account)
                if info.owner == PROGRAM_ID
                    && account.state != AccountState::Uninitialized
                    && account.mint == *mint =>
            {
                account.amount
            }
            _ => 0,
        })
        .sum()
}

#[test]
fn example_scenario() {
    let mut ledger = Ledger::new(
        vec![
            record(1, AccountData::Mint(Mint::uninitialized())),
            record(2, AccountData::Account(Account::uninitialized())),
            record(3, AccountData::Account(Account::uninitialized())),
            wallet(10, true),
            wallet(12, true),
        ],
        RESERVE,
    );
    // initialize mint M (decimals=6, no freeze authority)
    let mut data = vec![20, 6];
    data.extend_from_slice(&key(10));
    data.push(0);
    assert_eq!(run(&mut ledger, &[0], &data), Ok(()));
    // initialize accounts A and B for M
    let mut data = vec![18];
    data.extend_from_slice(&key(12));
    assert_eq!(run(&mut ledger, &[1, 0], &data), Ok(()));
    assert_eq!(run(&mut ledger, &[2, 0], &data), Ok(()));
    // MintTo A amount=1_000_000
    assert_eq!(run(&mut ledger, &[0, 1, 3], &amount_data(7, 1_000_000)), Ok(()));
    assert_eq!(holding_at(&ledger, 1).amount, 1_000_000);
    // Transfer A -> B amount=1_000_000
    assert_eq!(run(&mut ledger, &[1, 2, 4], &amount_data(3, 1_000_000)), Ok(()));
    assert_eq!(mint_at(&ledger, 0).supply, 1_000_000);
    assert_eq!(holding_at(&ledger, 1).amount, 0);
    assert_eq!(holding_at(&ledger, 2).amount, 1_000_000);
    assert_eq!(mint_at(&ledger, 0).freeze_authority, None);
    assert_eq!(mint_at(&ledger, 0).decimals, 6);
}

#[test]
fn transfers_conserve_the_units_of_a_mint() {
    let mut ledger = ledger();
    let before = total(&ledger, &key(1));
    assert_eq!(before, 1_500);
    assert_eq!(run(&mut ledger, &[A, B, OWNER_A], &amount_data(3, 400)), Ok(()));
    assert_eq!(run(&mut ledger, &[B, MINT, A, OWNER_B], &checked_data(12, 900, 6)), Ok(()));
    assert_eq!(run(&mut ledger, &[A, A, OWNER_A], &amount_data(3, 7)), Ok(()));
    assert_eq!(holding_at(&ledger, A).amount, 1_500);
    assert_eq!(holding_at(&ledger, B).amount, 0);
    assert_eq!(total(&ledger, &key(1)), before);
    assert_eq!(total(&ledger, &key(20)), 70);
    assert_eq!(mint_at(&ledger, MINT).supply, 1_500);
}

#[test]
fn minting_and_burning_keep_the_supply_in_line() {
    let mut ledger = ledger();
    assert_eq!(run(&mut ledger, &[MINT, A, MINT_AUTHORITY], &amount_data(7, 250)), Ok(()));
    assert_eq!(mint_at(&ledger, MINT).supply, 1_750);
    assert_eq!(holding_at(&ledger, A).amount, 1_250);
    assert_eq!(run(&mut ledger, &[B, MINT, OWNER_B], &amount_data(8, 500)), Ok(()));
    assert_eq!(run(&mut ledger, &[MINT, B, MINT_AUTHORITY], &checked_data(14, 3, 6)), Ok(()));
    assert_eq!(run(&mut ledger, &[A, MINT, OWNER_A], &checked_data(15, 50, 6)), Ok(()));
    assert_eq!(mint_at(&ledger, MINT).supply, 1_203);
    assert_eq!(holding_at(&ledger, A).amount, 1_200);
    assert_eq!(holding_at(&ledger, B).amount, 3);
    assert_eq!(total(&ledger, &key(1)), mint_at(&ledger, MINT).supply);
    assert_eq!(total(&ledger, &key(20)), mint_at(&ledger, OTHER_MINT).supply);
}

#[test]
fn a_frozen_holding_is_excluded_until_thawed() {
    let mut ledger = ledger();
    assert_eq!(run(&mut ledger, &[A, MINT, FREEZE_AUTHORITY], &[10]), Ok(()));
    assert_eq!(holding_at(&ledger, A).state, AccountState::Frozen);

    let frozen = TokenError::AccountFrozen;
    assert_eq!(refused(&mut ledger, &[A, B, OWNER_A], &amount_data(3, 1)), frozen);
    assert_eq!(refused(&mut ledger, &[B, A, OWNER_B], &amount_data(3, 1)), frozen);
    assert_eq!(refused(&mut ledger, &[A, MINT, B, OWNER_A], &checked_data(12, 1, 6)), frozen);
    assert_eq!(refused(&mut ledger, &[A, DELEGATE, OWNER_A], &amount_data(4, 1)), frozen);
    assert_eq!(refused(&mut ledger, &[A, MINT, DELEGATE, OWNER_A], &checked_data(13, 1, 6)), frozen);
    assert_eq!(refused(&mut ledger, &[A, MINT, OWNER_A], &amount_data(8, 1)), frozen);
    assert_eq!(refused(&mut ledger, &[A, MINT, OWNER_A], &checked_data(15, 1, 6)), frozen);
    assert_eq!(refused(&mut ledger, &[MINT, A, MINT_AUTHORITY], &amount_data(7, 1)), frozen);
    assert_eq!(refused(&mut ledger, &[MINT, A, MINT_AUTHORITY], &checked_data(14, 1, 6)), frozen);
    assert_eq!(refused(&mut ledger, &[A, OWNER_A], &[5]), frozen);
    let mut owner = vec![6, 2, 1];
    owner.extend_from_slice(&key(13));
    assert_eq!(refused(&mut ledger, &[A, OWNER_A], &owner), frozen);
    // Freezing what is frozen is no state to start from.
    assert_eq!(
        refused(&mut ledger, &[A, MINT, FREEZE_AUTHORITY], &[10]),
        TokenError::InvalidState
    );

    assert_eq!(run(&mut ledger, &[A, MINT, FREEZE_AUTHORITY], &[11]), Ok(()));
    assert_eq!(holding_at(&ledger, A), holding(key(1), key(12), 1_000));
    assert_eq!(run(&mut ledger, &[A, B, OWNER_A], &amount_data(3, 1)), Ok(()));
    assert_eq!(holding_at(&ledger, A).amount, 999);
    assert_eq!(
        refused(&mut ledger, &[A, MINT, FREEZE_AUTHORITY], &[11]),
        TokenError::InvalidState
    );
}

#[test]
fn freezing_needs_the_freeze_authority() {
    let mut ledger = ledger();
    assert_eq!(
        refused(&mut ledger, &[C, OTHER_MINT, FREEZE_AUTHORITY], &[10]),
        TokenError::MintCannotFreeze
    );
    assert_eq!(refused(&mut ledger, &[A, MINT, OWNER_A], &[10]), TokenError::OwnerMismatch);
    assert_eq!(refused(&mut ledger, &[A, OTHER_MINT, FREEZE_AUTHORITY], &[10]), TokenError::MintMismatch);
    assert_eq!(
        refused(&mut ledger, &[NATIVE, NATIVE_MINT, FREEZE_AUTHORITY], &[10]),
        TokenError::NativeNotSupported
    );
    assert_eq!(refused(&mut ledger, &[A, MINT], &[10]), TokenError::NotEnoughAccountKeys);
}

#[test]
fn a_delegate_stays_within_its_allowance() {
    let mut ledger = ledger();
    assert_eq!(run(&mut ledger, &[A, DELEGATE, OWNER_A], &amount_data(4, 100)), Ok(()));
    assert_eq!(holding_at(&ledger, A).delegate, Some(key(14)));
    assert_eq!(holding_at(&ledger, A).delegated_amount, 100);

    assert_eq!(run(&mut ledger, &[A, B, DELEGATE], &amount_data(3, 40)), Ok(()));
    assert_eq!(holding_at(&ledger, A).delegated_amount, 60);
    assert_eq!(holding_at(&ledger, A).delegate, Some(key(14)));
    assert_eq!(holding_at(&ledger, A).amount, 960);
    assert_eq!(holding_at(&ledger, B).amount, 540);

    assert_eq!(
        refused(&mut ledger, &[A, B, DELEGATE], &amount_data(3, 61)),
        TokenError::InsufficientFunds
    );
    assert_eq!(run(&mut ledger, &[A, MINT, DELEGATE], &amount_data(8, 10)), Ok(()));
    assert_eq!(holding_at(&ledger, A).delegated_amount, 50);
    assert_eq!(mint_at(&ledger, MINT).supply, 1_490);

    // What uses the allowance up removes the delegate.
    assert_eq!(run(&mut ledger, &[A, B, DELEGATE], &amount_data(3, 50)), Ok(()));
    assert_eq!(holding_at(&ledger, A).delegated_amount, 0);
    assert_eq!(holding_at(&ledger, A).delegate, None);
    assert_eq!(
        refused(&mut ledger, &[A, B, DELEGATE], &amount_data(3, 1)),
        TokenError::OwnerMismatch
    );
}

#[test]
fn approving_replaces_and_revoking_resets() {
    let mut ledger = ledger();
    assert_eq!(run(&mut ledger, &[A, DELEGATE, OWNER_A], &amount_data(4, 100)), Ok(()));
    assert_eq!(run(&mut ledger, &[A, MINT, STRANGER, OWNER_A], &checked_data(13, 5_000, 6)), Ok(()));
    assert_eq!(holding_at(&ledger, A).delegate, Some(key(15)));
    assert_eq!(holding_at(&ledger, A).delegated_amount, 5_000);
    // The allowance is a cap, not a reservation: the balance still bounds it.
    assert_eq!(
        refused(&mut ledger, &[A, B, DELEGATE], &amount_data(3, 1)),
        TokenError::OwnerMismatch
    );
    assert_eq!(refused(&mut ledger, &[A, DELEGATE, OWNER_B], &amount_data(4, 1)), TokenError::OwnerMismatch);

    assert_eq!(run(&mut ledger, &[A, OWNER_A], &[5]), Ok(()));
    assert_eq!(holding_at(&ledger, A), holding(key(1), key(12), 1_000));
    // Revoking where there is no delegate changes nothing and passes.
    assert_eq!(run(&mut ledger, &[A, OWNER_A], &[5, 1, 2, 3]), Ok(()));
    assert_eq!(holding_at(&ledger, A), holding(key(1), key(12), 1_000));
    assert_eq!(refused(&mut ledger, &[A, OWNER_B], &[5]), TokenError::OwnerMismatch);
    assert_eq!(refused(&mut ledger, &[A], &[5]), TokenError::NotEnoughAccountKeys);
}

#[test]
fn checked_instructions_enforce_the_decimals() {
    let mut ledger = ledger();
    let wrong = TokenError::DecimalsMismatch;
    for amount in [0, 1, 1_000, u64::MAX] {
        assert_eq!(refused(&mut ledger, &[A, MINT, B, OWNER_A], &checked_data(12, amount, 5)), wrong);
        assert_eq!(refused(&mut ledger, &[A, MINT, DELEGATE, OWNER_A], &checked_data(13, amount, 7)), wrong);
        assert_eq!(refused(&mut ledger, &[MINT, A, MINT_AUTHORITY], &checked_data(14, amount, 0)), wrong);
    }
    assert_eq!(refused(&mut ledger, &[A, MINT, OWNER_A], &checked_data(15, 1, 9)), wrong);
    assert_eq!(
        refused(&mut ledger, &[A, OTHER_MINT, B, OWNER_A], &checked_data(12, 1, 2)),
        TokenError::MintMismatch
    );
    assert_eq!(
        refused(&mut ledger, &[A, STRANGER, OWNER_A], &checked_data(15, 1, 6)),
        TokenError::MintMismatch
    );
    assert_eq!(run(&mut ledger, &[A, MINT, B, OWNER_A], &checked_data(12, 1, 6)), Ok(()));
}

#[test]
fn transfer_refusals() {
    let mut ledger = ledger();
    assert_eq!(
        refused(&mut ledger, &[A, B, OWNER_A], &amount_data(3, 1_001)),
        TokenError::InsufficientFunds
    );
    assert_eq!(refused(&mut ledger, &[A, C, OWNER_A], &amount_data(3, 1)), TokenError::MintMismatch);
    assert_eq!(refused(&mut ledger, &[A, B, OWNER_B], &amount_data(3, 1)), TokenError::OwnerMismatch);
    assert_eq!(refused(&mut ledger, &[A, B], &amount_data(3, 1)), TokenError::NotEnoughAccountKeys);
    assert_eq!(refused(&mut ledger, &[A, B, 99], &amount_data(3, 1)), TokenError::NotEnoughAccountKeys);
    assert_eq!(
        refused(&mut ledger, &[A, STRANGER, OWNER_A], &amount_data(3, 1)),
        TokenError::IncorrectProgramId
    );
    assert_eq!(
        refused(&mut ledger, &[A, BLANK_HOLDING, OWNER_A], &amount_data(3, 1)),
        TokenError::InvalidAccountData
    );
    assert_eq!(
        refused(&mut ledger, &[MINT, B, OWNER_A], &amount_data(3, 1)),
        TokenError::InvalidAccountData
    );
    assert_eq!(refused(&mut ledger, &[A, B, OWNER_A], &[3, 1, 0, 0]), TokenError::InvalidInstructionData);
    assert_eq!(
        refused(&mut ledger, &[A, B, OWNER_A], &checked_data(3, 1, 6)),
        TokenError::InvalidInstructionData
    );
    ledger.accounts[OWNER_A].is_signer = false;
    assert_eq!(
        refused(&mut ledger, &[A, B, OWNER_A], &amount_data(3, 1)),
        TokenError::MissingRequiredSignature
    );
}

#[test]
fn amounts_that_do_not_fit_are_refused() {
    let mut ledger = ledger();
    ledger.accounts[B].data = AccountData::Account(holding(key(1), key(13), u64::MAX - 5));
    assert_eq!(refused(&mut ledger, &[A, B, OWNER_A], &amount_data(3, 6)), TokenError::Overflow);
    assert_eq!(run(&mut ledger, &[A, B, OWNER_A], &amount_data(3, 5)), Ok(()));
    assert_eq!(holding_at(&ledger, B).amount, u64::MAX);
    assert_eq!(
        refused(&mut ledger, &[MINT, B, MINT_AUTHORITY], &amount_data(7, 1)),
        TokenError::Overflow
    );
    ledger.accounts[MINT].data =
        AccountData::Mint(mint(Some(key(10)), Some(key(11)), u64::MAX - 1, 6));
    assert_eq!(
        refused(&mut ledger, &[MINT, A, MINT_AUTHORITY], &amount_data(7, 2)),
        TokenError::Overflow
    );
    ledger.accounts[MINT].data = AccountData::Mint(mint(Some(key(10)), Some(key(11)), 3, 6));
    assert_eq!(refused(&mut ledger, &[A, MINT, OWNER_A], &amount_data(8, 4)), TokenError::Overflow);
}

#[test]
fn a_transfer_to_the_same_holding_changes_no_balance() {
    let mut ledger = ledger();
    assert_eq!(run(&mut ledger, &[A, A, OWNER_A], &amount_data(3, 1_000)), Ok(()));
    assert_eq!(holding_at(&ledger, A), holding(key(1), key(12), 1_000));
    assert_eq!(
        refused(&mut ledger, &[A, A, OWNER_A], &amount_data(3, 1_001)),
        TokenError::InsufficientFunds
    );
    ledger.accounts[A].data = AccountData::Account(holding(key(1), key(12), u64::MAX));
    assert_eq!(run(&mut ledger, &[A, A, OWNER_A], &amount_data(3, u64::MAX)), Ok(()));
    assert_eq!(holding_at(&ledger, A).amount, u64::MAX);
    assert_eq!(run(&mut ledger, &[NATIVE, NATIVE, OWNER_A], &amount_data(3, 5_000)), Ok(()));
    assert_eq!(ledger.accounts[NATIVE].lamports, RESERVE + 5_000);
}

#[test]
fn minting_refusals() {
    let mut ledger = ledger();
    assert_eq!(
        refused(&mut ledger, &[OTHER_MINT, C, MINT_AUTHORITY], &amount_data(7, 1)),
        TokenError::FixedSupply
    );
    assert_eq!(
        refused(&mut ledger, &[MINT, C, MINT_AUTHORITY], &amount_data(7, 1)),
        TokenError::MintMismatch
    );
    assert_eq!(
        refused(&mut ledger, &[MINT, A, OWNER_A], &amount_data(7, 1)),
        TokenError::OwnerMismatch
    );
    assert_eq!(
        refused(&mut ledger, &[NATIVE_MINT, NATIVE, MINT_AUTHORITY], &amount_data(7, 1)),
        TokenError::NativeNotSupported
    );
    assert_eq!(
        refused(&mut ledger, &[NATIVE, NATIVE_MINT, OWNER_A], &amount_data(8, 1)),
        TokenError::NativeNotSupported
    );
    ledger.accounts[A].data = AccountData::Account(holding(key(22), key(12), 0));
    assert_eq!(
        refused(&mut ledger, &[BLANK_MINT, A, MINT_AUTHORITY], &amount_data(7, 1)),
        TokenError::InvalidMint
    );
    assert_eq!(
        refused(&mut ledger, &[A, BLANK_MINT, OWNER_A], &amount_data(8, 0)),
        TokenError::InvalidMint
    );
}

#[test]
fn closing_needs_an_empty_holding() {
    let mut ledger = ledger();
    assert_eq!(refused(&mut ledger, &[A, OWNER_A, OWNER_A], &[9]), TokenError::NonZeroBalance);
    assert_eq!(run(&mut ledger, &[A, B, OWNER_A], &amount_data(3, 1_000)), Ok(()));
    assert_eq!(refused(&mut ledger, &[A, OWNER_A, OWNER_B], &[9]), TokenError::OwnerMismatch);
    assert_eq!(refused(&mut ledger, &[A, A, OWNER_A], &[9]), TokenError::InvalidAccountData);
    assert_eq!(refused(&mut ledger, &[A, OWNER_A], &[9]), TokenError::NotEnoughAccountKeys);

    assert_eq!(run(&mut ledger, &[A, OWNER_A, OWNER_A], &[9]), Ok(()));
    assert_eq!(
        ledger.accounts[A],
        AccountInfo {
            key: key(2),
            owner: SYSTEM_PROGRAM_ID,
            lamports: 0,
            is_signer: false,
            data: AccountData::Empty,
        }
    );
    assert_eq!(ledger.accounts[OWNER_A].lamports, 1_000_000_000 + RESERVE);

    // The record is no longer usable.
    assert_eq!(
        refused(&mut ledger, &[A, B, OWNER_A], &amount_data(3, 0)),
        TokenError::IncorrectProgramId
    );
    assert_eq!(
        refused(&mut ledger, &[MINT, A, MINT_AUTHORITY], &amount_data(7, 1)),
        TokenError::IncorrectProgramId
    );
    assert_eq!(refused(&mut ledger, &[A, OWNER_A, OWNER_A], &[9]), TokenError::IncorrectProgramId);
    let mut owner = vec![18];
    owner.extend_from_slice(&key(12));
    assert_eq!(refused(&mut ledger, &[A, MINT], &owner), TokenError::IncorrectProgramId);
}

#[test]
fn the_close_authority_closes_in_place_of_the_owner() {
    let mut ledger = ledger();
    ledger.accounts[A].data = AccountData::Account(Account {
        close_authority: Some(key(14)),
        ..holding(key(1), key(12), 0)
    });
    assert_eq!(refused(&mut ledger, &[A, B, OWNER_A], &[9]), TokenError::OwnerMismatch);
    ledger.accounts[B].lamports = u64::MAX;
    assert_eq!(refused(&mut ledger, &[A, B, DELEGATE], &[9]), TokenError::Overflow);
    assert_eq!(run(&mut ledger, &[A, STRANGER, DELEGATE], &[9]), Ok(()));
    assert_eq!(ledger.accounts[STRANGER].lamports, 1_000_000_000 + RESERVE);
    assert_eq!(ledger.accounts[A].data, AccountData::Empty);
}

#[test]
fn native_holdings_wrap_lamports() {
    let mut ledger = ledger();
    // A holding of the native mint starts with what its account has beyond the reserve.
    ledger.accounts[BLANK_HOLDING].lamports = RESERVE + 42;
    let mut owner = vec![18];
    owner.extend_from_slice(&key(12));
    assert_eq!(run(&mut ledger, &[BLANK_HOLDING, NATIVE_MINT], &owner), Ok(()));
    assert_eq!(
        holding_at(&ledger, BLANK_HOLDING),
        Account { is_native: Some(RESERVE), ..holding(NATIVE_MINT_ID, key(12), 42) }
    );

    // Between native holdings the lamports move with the units.
    assert_eq!(run(&mut ledger, &[NATIVE, NATIVE_TOO, OWNER_A], &amount_data(3, 1_200)), Ok(()));
    assert_eq!(holding_at(&ledger, NATIVE).amount, 3_800);
    assert_eq!(holding_at(&ledger, NATIVE_TOO).amount, 1_200);
    assert_eq!(ledger.accounts[NATIVE].lamports, RESERVE + 3_800);
    assert_eq!(ledger.accounts[NATIVE_TOO].lamports, RESERVE + 1_200);

    // Lamports that arrived from outside show after a sync.
    ledger.accounts[NATIVE_TOO].lamports += 300;
    assert_eq!(run(&mut ledger, &[NATIVE_TOO], &[17]), Ok(()));
    assert_eq!(holding_at(&ledger, NATIVE_TOO).amount, 1_500);
    assert_eq!(refused(&mut ledger, &[A], &[17]), TokenError::NotNative);
    ledger.accounts[NATIVE_TOO].lamports = RESERVE + 1_499;
    assert_eq!(refused(&mut ledger, &[NATIVE_TOO], &[17]), TokenError::InvalidState);
    ledger.accounts[NATIVE_TOO].lamports = RESERVE - 1;
    assert_eq!(refused(&mut ledger, &[NATIVE_TOO], &[17]), TokenError::Overflow);
    assert_eq!(refused(&mut ledger, &[], &[17]), TokenError::NotEnoughAccountKeys);

    // A native holding is closed with its balance: the lamports are what it wraps.
    assert_eq!(run(&mut ledger, &[NATIVE, OWNER_A, OWNER_A], &[9]), Ok(()));
    assert_eq!(ledger.accounts[OWNER_A].lamports, 1_000_000_000 + RESERVE + 3_800);
    assert_eq!(ledger.accounts[NATIVE].lamports, 0);
}

#[test]
fn a_native_holding_needs_its_reserve() {
    let mut ledger = ledger();
    ledger.accounts[BLANK_HOLDING].lamports = RESERVE - 1;
    let mut owner = vec![18];
    owner.extend_from_slice(&key(12));
    assert_eq!(refused(&mut ledger, &[BLANK_HOLDING, NATIVE_MINT], &owner), TokenError::Overflow);
    ledger.accounts[NATIVE].lamports = 4_999;
    assert_eq!(
        refused(&mut ledger, &[NATIVE, NATIVE_TOO, OWNER_A], &amount_data(3, 5_000)),
        TokenError::Overflow
    );
    ledger.accounts[NATIVE].lamports = RESERVE + 5_000;
    ledger.accounts[NATIVE_TOO].lamports = u64::MAX - 4_999;
    assert_eq!(
        refused(&mut ledger, &[NATIVE, NATIVE_TOO, OWNER_A], &amount_data(3, 5_000)),
        TokenError::Overflow
    );
}

#[test]
fn initializing_a_mint() {
    let mut ledger = ledger();
    let mut data = vec![0, 9];
    data.extend_from_slice(&key(10));
    data.push(1);
    data.extend_from_slice(&key(11));
    // With the rent sysvar account required, one account is too few.
    assert_eq!(refused(&mut ledger, &[BLANK_MINT], &data), TokenError::NotEnoughAccountKeys);
    assert_eq!(refused(&mut ledger, &[MINT, STRANGER], &data), TokenError::AlreadyInitialized);
    assert_eq!(refused(&mut ledger, &[STRANGER, STRANGER], &data), TokenError::IncorrectProgramId);
    assert_eq!(refused(&mut ledger, &[BLANK_HOLDING, STRANGER], &data), TokenError::InvalidAccountData);
    assert_eq!(
        refused(&mut ledger, &[BLANK_MINT, STRANGER], &data[..40]),
        TokenError::InvalidInstructionData
    );
    let mut odd = data.clone();
    odd[34] = 2;
    assert_eq!(refused(&mut ledger, &[BLANK_MINT, STRANGER], &odd), TokenError::InvalidInstructionData);
    odd[34] = 0;
    assert_eq!(refused(&mut ledger, &[BLANK_MINT, STRANGER], &odd), TokenError::InvalidInstructionData);

    assert_eq!(run(&mut ledger, &[BLANK_MINT, STRANGER], &data), Ok(()));
    assert_eq!(mint_at(&ledger, BLANK_MINT), mint(Some(key(10)), Some(key(11)), 0, 9));
    data[0] = 20;
    assert_eq!(refused(&mut ledger, &[BLANK_MINT], &data), TokenError::AlreadyInitialized);
}

#[test]
fn initializing_a_holding() {
    let mut ledger = ledger();
    let mut owner = vec![16];
    owner.extend_from_slice(&key(13));
    // InitializeAccount2 lists the rent sysvar account after the mint.
    assert_eq!(refused(&mut ledger, &[BLANK_HOLDING, MINT], &owner), TokenError::NotEnoughAccountKeys);
    assert_eq!(refused(&mut ledger, &[A, MINT, STRANGER], &owner), TokenError::AlreadyInitialized);
    assert_eq!(
        refused(&mut ledger, &[BLANK_HOLDING, BLANK_MINT, STRANGER], &owner),
        TokenError::InvalidMint
    );
    assert_eq!(
        refused(&mut ledger, &[BLANK_HOLDING, STRANGER, STRANGER], &owner),
        TokenError::IncorrectProgramId
    );
    assert_eq!(
        refused(&mut ledger, &[BLANK_MINT, MINT, STRANGER], &owner),
        TokenError::InvalidAccountData
    );
    assert_eq!(
        refused(&mut ledger, &[BLANK_HOLDING, MINT, STRANGER], &owner[..32]),
        TokenError::InvalidInstructionData
    );
    assert_eq!(run(&mut ledger, &[BLANK_HOLDING, MINT, STRANGER], &owner), Ok(()));
    assert_eq!(holding_at(&ledger, BLANK_HOLDING), holding(key(1), key(13), 0));

    // InitializeAccount takes the owner from the accounts.
    ledger.accounts[BLANK_HOLDING].data = AccountData::Account(Account::uninitialized());
    assert_eq!(
        refused(&mut ledger, &[BLANK_HOLDING, OTHER_MINT, OWNER_B], &[1]),
        TokenError::NotEnoughAccountKeys
    );
    assert_eq!(run(&mut ledger, &[BLANK_HOLDING, OTHER_MINT, OWNER_A, STRANGER], &[1]), Ok(()));
    assert_eq!(holding_at(&ledger, BLANK_HOLDING), holding(key(20), key(12), 0));
}

#[test]
fn an_immutable_owner_is_not_replaced() {
    let mut ledger = ledger();
    assert_eq!(refused(&mut ledger, &[A], &[22]), TokenError::AlreadyInitialized);
    assert_eq!(refused(&mut ledger, &[MINT], &[22]), TokenError::InvalidAccountData);
    assert_eq!(refused(&mut ledger, &[STRANGER], &[22]), TokenError::IncorrectProgramId);
    assert_eq!(refused(&mut ledger, &[], &[22]), TokenError::NotEnoughAccountKeys);
    assert_eq!(run(&mut ledger, &[BLANK_HOLDING], &[22]), Ok(()));
    let mut owner = vec![18];
    owner.extend_from_slice(&key(12));
    assert_eq!(run(&mut ledger, &[BLANK_HOLDING, MINT], &owner), Ok(()));
    assert_eq!(
        holding_at(&ledger, BLANK_HOLDING),
        Account { immutable_owner: true, ..holding(key(1), key(12), 0) }
    );

    let mut new_owner = vec![6, 2, 1];
    new_owner.extend_from_slice(&key(13));
    assert_eq!(
        refused(&mut ledger, &[BLANK_HOLDING, OWNER_A], &new_owner),
        TokenError::ImmutableOwner
    );
    // The close authority of such a holding can still be set.
    let mut closer = vec![6, 3, 1];
    closer.extend_from_slice(&key(14));
    assert_eq!(run(&mut ledger, &[BLANK_HOLDING, OWNER_A], &closer), Ok(()));
    assert_eq!(holding_at(&ledger, BLANK_HOLDING).close_authority, Some(key(14)));
    // Any other holding changes hands.
    assert_eq!(run(&mut ledger, &[A, OWNER_A], &new_owner), Ok(()));
    assert_eq!(holding_at(&ledger, A).owner, key(13));
}

#[test]
fn setting_the_authorities_of_a_holding() {
    let mut ledger = ledger();
    assert_eq!(run(&mut ledger, &[A, DELEGATE, OWNER_A], &amount_data(4, 100)), Ok(()));
    let mut new_owner = vec![6, 2, 1];
    new_owner.extend_from_slice(&key(13));
    assert_eq!(refused(&mut ledger, &[A, OWNER_B], &new_owner), TokenError::OwnerMismatch);
    assert_eq!(refused(&mut ledger, &[A, OWNER_A], &[6, 2, 0]), TokenError::InvalidArgument);
    assert_eq!(refused(&mut ledger, &[A, OWNER_A], &[6, 0, 0]), TokenError::InvalidArgument);
    assert_eq!(refused(&mut ledger, &[A, OWNER_A], &[6, 1, 0]), TokenError::InvalidArgument);
    assert_eq!(refused(&mut ledger, &[A, OWNER_A], &[6, 4, 0]), TokenError::InvalidInstructionData);
    assert_eq!(refused(&mut ledger, &[A, OWNER_A], &[6, 2]), TokenError::InvalidInstructionData);
    assert_eq!(refused(&mut ledger, &[A, OWNER_A], &[6, 2, 1, 7]), TokenError::InvalidInstructionData);
    assert_eq!(refused(&mut ledger, &[A], &new_owner), TokenError::NotEnoughAccountKeys);
    assert_eq!(refused(&mut ledger, &[STRANGER, OWNER_A], &new_owner), TokenError::IncorrectProgramId);
    assert_eq!(
        refused(&mut ledger, &[BLANK_HOLDING, OWNER_A], &new_owner),
        TokenError::UninitializedState
    );

    // A new owner starts without the delegate of the old one.
    assert_eq!(run(&mut ledger, &[A, OWNER_A], &new_owner), Ok(()));
    assert_eq!(holding_at(&ledger, A), holding(key(1), key(13), 1_000));

    let mut closer = vec![6, 3, 1];
    closer.extend_from_slice(&key(14));
    assert_eq!(run(&mut ledger, &[A, OWNER_B], &closer), Ok(()));
    assert_eq!(holding_at(&ledger, A).close_authority, Some(key(14)));
    // Now the close authority, not the owner, replaces or removes itself.
    assert_eq!(refused(&mut ledger, &[A, OWNER_B], &[6, 3, 0]), TokenError::OwnerMismatch);
    assert_eq!(run(&mut ledger, &[A, DELEGATE], &[6, 3, 0]), Ok(()));
    assert_eq!(holding_at(&ledger, A).close_authority, None);

    // A native holding that changes hands loses its close authority.
    ledger.accounts[NATIVE].data = AccountData::Account(Account {
        close_authority: Some(key(14)),
        ..holding_at(&ledger, NATIVE)
    });
    assert_eq!(run(&mut ledger, &[NATIVE, OWNER_A], &new_owner), Ok(()));
    assert_eq!(holding_at(&ledger, NATIVE).close_authority, None);
    assert_eq!(holding_at(&ledger, NATIVE).owner, key(13));
}

#[test]
fn setting_the_authorities_of_a_mint() {
    let mut ledger = ledger();
    let mut minter = vec![6, 0, 1];
    minter.extend_from_slice(&key(15));
    assert_eq!(refused(&mut ledger, &[MINT, FREEZE_AUTHORITY], &minter), TokenError::OwnerMismatch);
    assert_eq!(refused(&mut ledger, &[OTHER_MINT, MINT_AUTHORITY], &minter), TokenError::FixedSupply);
    assert_eq!(
        refused(&mut ledger, &[OTHER_MINT, MINT_AUTHORITY], &[6, 1, 0]),
        TokenError::MintCannotFreeze
    );
    assert_eq!(refused(&mut ledger, &[MINT, MINT_AUTHORITY], &[6, 2, 0]), TokenError::InvalidArgument);
    assert_eq!(refused(&mut ledger, &[MINT, MINT_AUTHORITY], &[6, 3, 0]), TokenError::InvalidArgument);
    assert_eq!(
        refused(&mut ledger, &[BLANK_MINT, MINT_AUTHORITY], &minter),
        TokenError::UninitializedState
    );

    assert_eq!(run(&mut ledger, &[MINT, MINT_AUTHORITY], &minter), Ok(()));
    assert_eq!(mint_at(&ledger, MINT), mint(Some(key(15)), Some(key(11)), 1_500, 6));
    assert_eq!(run(&mut ledger, &[MINT, FREEZE_AUTHORITY], &[6, 1, 0]), Ok(()));
    assert_eq!(mint_at(&ledger, MINT).freeze_authority, None);
    assert_eq!(
        refused(&mut ledger, &[A, MINT, FREEZE_AUTHORITY], &[10]),
        TokenError::MintCannotFreeze
    );
    // An authority that was removed stays removed: the supply is fixed.
    ledger.accounts[STRANGER].is_signer = true;
    assert_eq!(run(&mut ledger, &[MINT, STRANGER], &[6, 0, 0]), Ok(()));
    assert_eq!(refused(&mut ledger, &[MINT, STRANGER], &minter), TokenError::FixedSupply);
    assert_eq!(
        refused(&mut ledger, &[MINT, A, STRANGER], &amount_data(7, 1)),
        TokenError::FixedSupply
    );
}

#[test]
fn the_size_of_a_holding_is_returned() {
    let mut ledger = ledger();
    assert_eq!(run(&mut ledger, &[MINT], &[21]), Ok(()));
    assert_eq!(ledger.return_data, vec![165, 0, 0, 0, 0, 0, 0, 0]);
    assert_eq!(refused(&mut ledger, &[BLANK_MINT], &[21]), TokenError::InvalidMint);
    assert_eq!(refused(&mut ledger, &[A], &[21]), TokenError::InvalidMint);
    assert_eq!(refused(&mut ledger, &[STRANGER], &[21]), TokenError::IncorrectProgramId);
    assert_eq!(refused(&mut ledger, &[], &[21]), TokenError::NotEnoughAccountKeys);

    let mut fresh = self::ledger();
    let before = fresh.accounts.clone();
    assert_eq!(process_get_account_data_size(&mut fresh, &[OTHER_MINT, A]), Ok(()));
    assert_eq!(fresh.return_data, 165u64.to_le_bytes().to_vec());
    assert_eq!(fresh.accounts, before);
}

#[test]
fn unknown_instructions_are_refused() {
    let mut ledger = ledger();
    let all = [A, B, OWNER_A];
    assert_eq!(refused(&mut ledger, &all, &[]), TokenError::InvalidInstructionData);
    for discriminator in 25..255u8 {
        assert_eq!(
            refused(&mut ledger, &all, &amount_data(discriminator, 1)),
            TokenError::InvalidInstructionData
        );
    }
}

#[test]
fn the_remaining_instructions_are_the_less_common_ones() {
    let mut ledger = ledger();
    let amount = 25u64.to_le_bytes();
    assert_eq!(process_remaining_instruction(&mut ledger, &[A, DELEGATE, OWNER_A], &amount, 4), Ok(()));
    assert_eq!(holding_at(&ledger, A).delegated_amount, 25);
    assert_eq!(process_remaining_instruction(&mut ledger, &[A, OWNER_A], &[], 5), Ok(()));
    assert_eq!(holding_at(&ledger, A).delegated_amount, 0);
    assert_eq!(process_remaining_instruction(&mut ledger, &[A, MINT, OWNER_A], &amount, 8), Ok(()));
    assert_eq!(holding_at(&ledger, A).amount, 975);
    assert_eq!(mint_at(&ledger, MINT).supply, 1_475);
    // The common ones, and the batch, are not among them.
    let before = ledger.accounts.clone();
    for discriminator in [0, 3, 7, 9, 18, 20, 25, 254, 255] {
        assert_eq!(
            process_remaining_instruction(&mut ledger, &[A, B, OWNER_A], &amount, discriminator),
            Err(TokenError::InvalidInstructionData)
        );
    }
    assert_eq!(ledger.accounts, before);
}
