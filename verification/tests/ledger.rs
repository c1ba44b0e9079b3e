use token_program::processor::{check_mint, spend};
use token_program::pubkey::{PROGRAM_ID, SYSTEM_PROGRAM_ID};
use token_program::{
    process_instruction, Account, AccountData, AccountInfo, AccountState, Ledger, Mint, Pubkey,
    TokenError,
};

fn key(tag: u8) -> Pubkey {
    [tag; 32]
}

fn wallet(tag: u8, lamports: u64, is_signer: bool) -> AccountInfo {
    AccountInfo { key: key(tag), owner: SYSTEM_PROGRAM_ID, lamports, is_signer, data: AccountData::Empty }
}

fn holding(tag: u8, owner: u8, amount: u64) -> AccountInfo {
    AccountInfo {
        key: key(tag),
        owner: PROGRAM_ID,
        lamports: 10,
        is_signer: false,
        data: AccountData::Account(Account {
            mint: key(1),
            owner: key(owner),
            amount,
            delegate: None,
            state: AccountState::Initialized,
            is_native: None,
            delegated_amount: 0,
            close_authority: None,
            immutable_owner: false,
        }),
    }
}

fn mint(tag: u8, supply: u64, decimals: u8) -> AccountInfo {
    AccountInfo {
        key: key(tag),
        owner: PROGRAM_ID,
        lamports: 10,
        is_signer: false,
        data: AccountData::Mint(Mint {
            mint_authority: Some(key(9)),
            supply,
            decimals,
            is_initialized: true,
            freeze_authority: None,
        }),
    }
}

#[test]
fn accounts_listed_twice_stand_in_the_ledger_once() {
    let listed = [
        holding(2, 5, 100),
        holding(2, 5, 100),
        wallet(5, 7, true),
        holding(3, 5, 1),
        wallet(5, 7, true),
        holding(2, 5, 100),
    ];
    let (ledger, positions) = Ledger::gather(&listed, 890_880);
    assert_eq!(ledger.accounts, vec![holding(2, 5, 100), wallet(5, 7, true), holding(3, 5, 1)]);
    assert_eq!(positions, vec![0, 0, 1, 2, 1, 0]);
    assert_eq!(ledger.rent_exempt_reserve, 890_880);
    assert!(ledger.return_data.is_empty());

    let (ledger, positions) = Ledger::gather(&[], 1);
    assert!(ledger.accounts.is_empty());
    assert!(positions.is_empty());
}

#[test]
fn the_account_listed_first_stands_for_its_address() {
    let listed = [wallet(5, 7, false), wallet(5, 8, true), wallet(6, 9, true)];
    let (ledger, positions) = Ledger::gather(&listed, 0);
    assert_eq!(ledger.accounts, vec![wallet(5, 7, false), wallet(6, 9, true)]);
    assert_eq!(positions, vec![0, 0, 1]);
}

#[test]
fn a_transfer_between_listings_of_one_account_is_a_transfer_to_itself() {
    let listed = [holding(2, 5, 100), holding(2, 5, 100), wallet(5, 7, true)];
    let (mut ledger, positions) = Ledger::gather(&listed, 0);
    let data = [3, 60, 0, 0, 0, 0, 0, 0, 0];
    assert_eq!(process_instruction(&PROGRAM_ID, &mut ledger, &positions, &data), Ok(()));
    assert_eq!(ledger.accounts[0], holding(2, 5, 100));
    let data = [3, 101, 0, 0, 0, 0, 0, 0, 0];
    assert_eq!(
        process_instruction(&PROGRAM_ID, &mut ledger, &positions, &data),
        Err(TokenError::InsufficientFunds)
    );
}

#[test]
fn the_ledger_is_read_and_written_by_position() {
    let mut ledger = Ledger::new(vec![holding(2, 5, 100), wallet(5, 7, true), mint(1, 100, 6)], 3);
    assert_eq!(ledger.account_index(&[2, 0, 7], 0), Ok(2));
    assert_eq!(ledger.account_index(&[2, 0, 7], 1), Ok(0));
    assert_eq!(ledger.account_index(&[2, 0, 7], 2), Err(TokenError::NotEnoughAccountKeys));
    assert_eq!(ledger.account_index(&[2, 0, 7], 3), Err(TokenError::NotEnoughAccountKeys));
    assert_eq!(ledger.account_index(&[], 0), Err(TokenError::NotEnoughAccountKeys));

    let copy = ledger.duplicate();
    assert_eq!(copy, ledger);
    assert_eq!(copy.rent_exempt_reserve, 3);
    ledger.store(1, AccountData::Mint(Mint::uninitialized()));
    assert_eq!(ledger.accounts[1].data, AccountData::Mint(Mint::uninitialized()));
    assert_eq!(ledger.accounts[1].lamports, 7);
    assert_eq!(copy.accounts[1].data, AccountData::Empty);
    ledger.put(0, wallet(8, 1, false));
    assert_eq!(ledger.accounts[0], wallet(8, 1, false));
    assert_eq!(ledger.accounts[2], mint(1, 100, 6));
}

#[test]
fn records_are_loaded_from_the_accounts_of_the_program() {
    assert_eq!(mint(1, 100, 6).load_mint().map(|mint| mint.supply), Ok(100));
    assert_eq!(holding(2, 5, 3).load_account().map(|account| account.amount), Ok(3));
    assert_eq!(mint(1, 100, 6).load_account(), Err(TokenError::InvalidAccountData));
    assert_eq!(holding(2, 5, 3).load_mint(), Err(TokenError::InvalidMint));
    assert_eq!(wallet(5, 1, true).load_mint(), Err(TokenError::IncorrectProgramId));
    assert_eq!(wallet(5, 1, true).load_account(), Err(TokenError::IncorrectProgramId));
    let foreign = AccountInfo { owner: key(77), ..mint(1, 100, 6) };
    assert_eq!(foreign.load_mint(), Err(TokenError::IncorrectProgramId));
    let blank = AccountInfo { data: AccountData::Mint(Mint::uninitialized()), ..mint(1, 0, 0) };
    assert_eq!(blank.load_mint(), Err(TokenError::InvalidMint));
    let blank = AccountInfo { data: AccountData::Account(Account::uninitialized()), ..mint(1, 0, 0) };
    assert_eq!(blank.load_account(), Err(TokenError::InvalidAccountData));
    let empty = AccountInfo { data: AccountData::Empty, ..mint(1, 0, 0) };
    assert_eq!(empty.load_account(), Err(TokenError::InvalidAccountData));
    assert_eq!(empty.load_mint(), Err(TokenError::InvalidMint));

    assert_eq!(check_mint(&mint(1, 100, 6), &key(1), None).map(|mint| mint.decimals), Ok(6));
    assert_eq!(check_mint(&mint(1, 100, 6), &key(1), Some(6)).map(|mint| mint.supply), Ok(100));
    assert_eq!(check_mint(&mint(1, 100, 6), &key(1), Some(5)), Err(TokenError::DecimalsMismatch));
    assert_eq!(check_mint(&mint(1, 100, 6), &key(2), Some(6)), Err(TokenError::MintMismatch));
    assert_eq!(check_mint(&holding(1, 5, 3), &key(1), None), Err(TokenError::InvalidMint));
}

#[test]
fn spending_takes_the_amount_off_the_balance_and_the_allowance() {
    let ledger = Ledger::new(vec![wallet(5, 1, true), wallet(6, 1, true), wallet(7, 1, false)], 0);
    let source = Account {
        mint: key(1),
        owner: key(5),
        amount: 100,
        delegate: Some(key(6)),
        state: AccountState::Initialized,
        is_native: None,
        delegated_amount: 30,
        close_authority: None,
        immutable_owner: false,
    };
    assert_eq!(spend(&ledger, &source, &[0], 0, 100), Ok(Account { amount: 0, ..source }));
    assert_eq!(
        spend(&ledger, &source, &[1], 0, 10),
        Ok(Account { amount: 90, delegated_amount: 20, ..source })
    );
    assert_eq!(
        spend(&ledger, &source, &[1], 0, 30),
        Ok(Account { amount: 70, delegated_amount: 0, delegate: None, ..source })
    );
    assert_eq!(spend(&ledger, &source, &[1], 0, 31), Err(TokenError::InsufficientFunds));
    assert_eq!(spend(&ledger, &source, &[0], 0, 101), Err(TokenError::InsufficientFunds));
    assert_eq!(spend(&ledger, &source, &[2], 0, 1), Err(TokenError::OwnerMismatch));
    assert_eq!(spend(&ledger, &source, &[0], 1, 1), Err(TokenError::NotEnoughAccountKeys));
    let unsigned = Account { owner: key(7), ..source };
    assert_eq!(spend(&ledger, &unsigned, &[2], 0, 1), Err(TokenError::MissingRequiredSignature));
}

#[test]
fn no_instruction_makes_or_loses_lamports() {
    let native = |tag: u8, amount: u64| {
        let mut info = holding(tag, 5, amount);
        info.lamports = 1_000 + amount;
        if let AccountData::Account(account) = &mut info.data {
            account.is_native = Some(1_000);
        }
        info
    };
    let mut ledger =
        Ledger::new(vec![native(2, 500), native(3, 0), wallet(5, 77, true), wallet(6, 0, false)], 1_000);
    let total = |ledger: &Ledger| ledger.accounts.iter().map(|info| info.lamports as u128).sum::<u128>();
    let before = total(&ledger);
    let keys: Vec<Pubkey> = ledger.accounts.iter().map(|info| info.key).collect();

    let transfer = [3, 200, 0, 0, 0, 0, 0, 0, 0];
    assert_eq!(process_instruction(&PROGRAM_ID, &mut ledger, &[0, 1, 2], &transfer), Ok(()));
    assert_eq!(total(&ledger), before);
    assert_eq!(process_instruction(&PROGRAM_ID, &mut ledger, &[0, 3, 2], &[9]), Ok(()));
    assert_eq!(total(&ledger), before);
    assert_eq!(ledger.accounts[3].lamports, 1_300);
    assert_eq!(process_instruction(&PROGRAM_ID, &mut ledger, &[1, 2, 2], &[9]), Ok(()));
    assert_eq!(total(&ledger), before);
    assert_eq!(ledger.accounts[2].lamports, 77 + 1_200);
    assert_eq!(ledger.accounts.iter().map(|info| info.key).collect::<Vec<_>>(), keys);
}

#[test]
fn the_addresses_are_those_of_the_token_program_and_the_native_mint() {
    assert_eq!(
        PROGRAM_ID,
        pinocchio_pubkey::from_str("TokenkegQfeZyiNwAJbNbGKPFXCWuBvf9Ss623VQ5DA")
    );
    assert_eq!(
        token_program::pubkey::NATIVE_MINT_ID,
        pinocchio_pubkey::from_str("So11111111111111111111111111111111111111112")
    );
    assert_eq!(
        SYSTEM_PROGRAM_ID,
        pinocchio_pubkey::from_str("11111111111111111111111111111111")
    );
}
