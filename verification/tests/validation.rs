use solana_program::program_option::COption;
use solana_program::program_pack::Pack;
use solana_program::pubkey::Pubkey;
use tokenitis::account::Account;
use tokenitis::address::Address;
use tokenitis::basket::{Basket, Leg, Token};
use tokenitis::errors::TokenitisError;
use tokenitis::state::{Tokenitis, Transform, TransformMetadata};
use tokenitis::token::{AccountState, Mint, TokenAccount};
use tokenitis::tokenitis_instruction::create_transform::validate::{
    check_derived, check_fresh, check_input_leg, check_output_leg, check_vault,
};
use tokenitis::tokenitis_instruction::create_transform::{CreateTransform, CreateTransformArgs};
use tokenitis::tokenitis_instruction::execute_transform::validate::check_swap_leg;
use tokenitis::tokenitis_instruction::execute_transform::{
    Direction, ExecuteTransform, ExecuteTransformArgs,
};
use tokenitis::tokenitis_instruction::{
    process_instruction, Plan, TokenitisInstruction, TokenitisInstructionType,
};

const PROGRAM: [u8; 32] = [
    226, 51, 240, 192, 240, 164, 198, 61, 227, 109, 10, 218, 74, 136, 54, 168, 50, 19, 134, 134,
    68, 178, 9, 96, 42, 149, 201, 37, 178, 203, 139, 39,
];

const TOKEN_PROGRAM: [u8; 32] = [
    6, 221, 246, 225, 215, 101, 161, 147, 217, 203, 225, 70, 206, 235, 121, 172, 28, 180, 133, 237,
    95, 91, 55, 145, 58, 140, 245, 133, 126, 255, 0, 169,
];

const SYSTEM_PROGRAM: [u8; 32] = [0; 32];

fn program() -> Address {
    Address::new(PROGRAM)
}

fn key(n: u8) -> Address {
    Address::new([n; 32])
}

fn pubkey(address: &Address) -> Pubkey {
    Pubkey::new_from_array(address.bytes)
}

fn coption(address: Option<Address>) -> COption<Pubkey> {
    match address {
        Some(a) => COption::Some(pubkey(&a)),
        None => COption::None,
    }
}

fn mint_bytes(supply: u64, mint_authority: Option<Address>, freeze: Option<Address>) -> Vec<u8> {
    let mint = spl_token::state::Mint {
        mint_authority: coption(mint_authority),
        supply,
        decimals: 0,
        is_initialized: true,
        freeze_authority: coption(freeze),
    };
    let mut bytes = vec![0u8; spl_token::state::Mint::LEN];
    spl_token::state::Mint::pack(mint, &mut bytes).unwrap();
    bytes
}

fn token_state(mint: Address, owner: Address, amount: u64) -> spl_token::state::Account {
    spl_token::state::Account {
        mint: pubkey(&mint),
        owner: pubkey(&owner),
        amount,
        delegate: COption::None,
        state: spl_token::state::AccountState::Initialized,
        is_native: COption::None,
        delegated_amount: 0,
        close_authority: COption::None,
    }
}

fn token_bytes(state: spl_token::state::Account) -> Vec<u8> {
    let mut bytes = vec![0u8; spl_token::state::Account::LEN];
    spl_token::state::Account::pack(state, &mut bytes).unwrap();
    bytes
}

const CREATOR: u8 = 1;
const CALLER: u8 = 2;

fn args() -> CreateTransformArgs {
    let mut inputs = Basket::new();
    inputs.insert(key(10), Token { account: key(11), amount: 10 });
    inputs.insert(key(20), Token { account: key(21), amount: 10 });
    let mut outputs = Basket::new();
    outputs.insert(key(30), Token { account: key(31), amount: 10 });
    outputs.insert(key(40), Token { account: key(41), amount: 10 });
    CreateTransformArgs {
        metadata: TransformMetadata { name: "test123".to_string(), image: "".to_string() },
        inputs,
        outputs,
        fee: Some(5),
    }
}

/// The accounts of a creation that passes validation.
fn create_accounts() -> Vec<Account> {
    let registry = Tokenitis::find_tokenitis_address(&program()).unwrap().0;
    let transform = Tokenitis::find_transform_address(&program(), 1).unwrap().0;
    let creator = key(CREATOR);
    vec![
        Account { key: Address::new(SYSTEM_PROGRAM), data: vec![] },
        Account { key: Address::new(TOKEN_PROGRAM), data: vec![] },
        Account { key: registry, data: vec![] },
        Account { key: transform, data: vec![] },
        Account { key: creator, data: vec![] },
        Account { key: key(10), data: mint_bytes(100, Some(creator), None) },
        Account { key: key(20), data: mint_bytes(100, Some(creator), None) },
        Account { key: key(11), data: token_bytes(token_state(key(10), creator, 0)) },
        Account { key: key(21), data: token_bytes(token_state(key(20), creator, 0)) },
        Account { key: key(30), data: mint_bytes(100, None, None) },
        Account { key: key(40), data: mint_bytes(100, None, None) },
        Account { key: key(31), data: token_bytes(token_state(key(30), creator, 100)) },
        Account { key: key(41), data: token_bytes(token_state(key(40), creator, 100)) },
    ]
}

fn validate_create(accounts: &[Account], args: CreateTransformArgs) -> Result<(), TokenitisError> {
    CreateTransform::new(program(), accounts, args)?.validate_instruction()
}

fn stored_transform() -> Transform {
    let a = args();
    Transform {
        initialized: true,
        id: 1,
        metadata: a.metadata,
        inputs: a.inputs,
        outputs: a.outputs,
        fee: a.fee,
        creator: key(CREATOR),
    }
}

/// The accounts of a swap that passes validation.
fn swap_accounts() -> Vec<Account> {
    let transform = Tokenitis::find_transform_address(&program(), 1).unwrap().0;
    let caller = key(CALLER);
    vec![
        Account { key: Address::new(TOKEN_PROGRAM), data: vec![] },
        Account { key: transform, data: stored_transform().serialize().unwrap() },
        Account { key: caller, data: vec![] },
        Account { key: key(12), data: token_bytes(token_state(key(10), caller, 100)) },
        Account { key: key(22), data: token_bytes(token_state(key(20), caller, 100)) },
        Account { key: key(11), data: token_bytes(token_state(key(10), transform, 0)) },
        Account { key: key(21), data: token_bytes(token_state(key(20), transform, 0)) },
        Account { key: key(32), data: token_bytes(token_state(key(30), caller, 0)) },
        Account { key: key(42), data: token_bytes(token_state(key(40), caller, 0)) },
        Account { key: key(31), data: token_bytes(token_state(key(30), transform, 100)) },
        Account { key: key(41), data: token_bytes(token_state(key(40), transform, 100)) },
    ]
}

fn validate_swap(accounts: &[Account]) -> Result<(), TokenitisError> {
    let args = ExecuteTransformArgs { direction: Direction::Forward };
    ExecuteTransform::new(program(), accounts, args)?.validate_instruction()
}

fn plan_swap(accounts: &[Account], direction: Direction) -> Result<usize, TokenitisError> {
    let args = ExecuteTransformArgs { direction };
    let plan = ExecuteTransform::new(program(), accounts, args)?.execute_instruction()?;
    Ok(plan.transfers.len())
}

#[test]
fn the_programs_are_known_by_their_bytes() {
    assert_eq!(spl_token::id().to_bytes(), TOKEN_PROGRAM);
    assert_eq!(solana_program::system_program::id().to_bytes(), SYSTEM_PROGRAM);
    // One byte off and the account is not the program.
    let mut other = TOKEN_PROGRAM;
    other[31] ^= 1;
    let mut accounts = create_accounts();
    accounts[1].key = Address::new(other);
    assert_eq!(validate_create(&accounts, args()), Err(TokenitisError::InvalidArgument));
    let mut other = SYSTEM_PROGRAM;
    other[0] = 1;
    let mut accounts = create_accounts();
    accounts[0].key = Address::new(other);
    assert_eq!(validate_create(&accounts, args()), Err(TokenitisError::InvalidArgument));
    let mut accounts = swap_accounts();
    accounts[0].key = Address::new(SYSTEM_PROGRAM);
    assert_eq!(validate_swap(&accounts), Err(TokenitisError::InvalidArgument));
}

#[test]
fn a_sound_creation_passes() {
    assert_eq!(validate_create(&create_accounts(), args()), Ok(()));
}

#[test]
fn creation_needs_an_account_for_every_role() {
    let mut accounts = create_accounts();
    accounts.pop();
    assert_eq!(validate_create(&accounts, args()), Err(TokenitisError::InvalidInstructionData));
    assert_eq!(validate_create(&accounts[..3], args()), Err(TokenitisError::InvalidInstructionData));
    assert_eq!(validate_create(&[], args()), Err(TokenitisError::InvalidInstructionData));
}

#[test]
fn creation_refuses_long_texts() {
    let mut a = args();
    a.metadata.name = "n".repeat(300);
    assert_eq!(validate_create(&create_accounts(), a), Ok(()));
    let mut a = args();
    a.metadata.name = "n".repeat(301);
    assert_eq!(validate_create(&create_accounts(), a), Err(TokenitisError::InvalidInstructionData));
    let mut a = args();
    a.metadata.image = "i".repeat(301);
    assert_eq!(validate_create(&create_accounts(), a), Err(TokenitisError::InvalidInstructionData));
    // The limit is on bytes: 151 two-byte characters are 302 bytes.
    let mut a = args();
    a.metadata.name = "é".repeat(150);
    assert_eq!(validate_create(&create_accounts(), a), Ok(()));
    let mut a = args();
    a.metadata.name = "é".repeat(151);
    assert_eq!(validate_create(&create_accounts(), a), Err(TokenitisError::InvalidInstructionData));
}

#[test]
fn creation_refuses_a_fee_over_one_hundred_percent() {
    let mut a = args();
    a.fee = Some(100);
    assert_eq!(validate_create(&create_accounts(), a), Ok(()));
    let mut a = args();
    a.fee = Some(101);
    assert_eq!(validate_create(&create_accounts(), a), Err(TokenitisError::InvalidInstructionData));
    let mut a = args();
    a.fee = None;
    assert_eq!(validate_create(&create_accounts(), a), Ok(()));
}

#[test]
fn creation_refuses_an_amount_of_zero() {
    let mut a = args();
    a.inputs.insert(key(20), Token { account: key(21), amount: 0 });
    assert_eq!(validate_create(&create_accounts(), a), Err(TokenitisError::InvalidInstructionData));
    let mut a = args();
    a.outputs.insert(key(30), Token { account: key(31), amount: 0 });
    assert_eq!(validate_create(&create_accounts(), a), Err(TokenitisError::InvalidInstructionData));
}

#[test]
fn creation_refuses_a_vault_account_used_twice() {
    let mut a = args();
    a.inputs.insert(key(20), Token { account: key(11), amount: 10 });
    assert_eq!(validate_create(&create_accounts(), a), Err(TokenitisError::InvalidInstructionData));
    let mut a = args();
    a.outputs.insert(key(40), Token { account: key(21), amount: 10 });
    assert_eq!(validate_create(&create_accounts(), a), Err(TokenitisError::InvalidInstructionData));
}

#[test]
fn creation_refuses_other_programs() {
    let mut accounts = create_accounts();
    accounts[0].key = key(9);
    assert_eq!(validate_create(&accounts, args()), Err(TokenitisError::InvalidArgument));
    let mut accounts = create_accounts();
    accounts[1].key = Address::new([0; 32]);
    assert_eq!(validate_create(&accounts, args()), Err(TokenitisError::InvalidArgument));
}

#[test]
fn creation_refuses_a_registry_elsewhere() {
    let mut accounts = create_accounts();
    accounts[2].key = accounts[3].key;
    assert_eq!(validate_create(&accounts, args()), Err(TokenitisError::InvalidArgument));
}

#[test]
fn creation_refuses_a_transform_not_at_the_next_id() {
    let mut accounts = create_accounts();
    accounts[3].key = Tokenitis::find_transform_address(&program(), 2).unwrap().0;
    assert_eq!(validate_create(&accounts, args()), Err(TokenitisError::InvalidArgument));
    // With one transform on record the next id is 2.
    accounts[2].data = Tokenitis { num_transforms: 1 }.serialize();
    assert_eq!(validate_create(&accounts, args()), Ok(()));
    accounts[3].key = Tokenitis::find_transform_address(&program(), 1).unwrap().0;
    assert_eq!(validate_create(&accounts, args()), Err(TokenitisError::InvalidArgument));
}

#[test]
fn creation_refuses_a_registry_that_does_not_decode() {
    let mut accounts = create_accounts();
    accounts[2].data = vec![1, 2, 3];
    assert_eq!(validate_create(&accounts, args()), Err(TokenitisError::BorshIoError));
}

#[test]
fn creation_refuses_an_exhausted_counter() {
    let mut accounts = create_accounts();
    accounts[2].data = Tokenitis { num_transforms: u64::MAX }.serialize();
    assert_eq!(validate_create(&accounts, args()), Err(TokenitisError::ArithmeticOverflow));
    let instruction = TokenitisInstructionType::CreateTransform(args());
    assert!(matches!(
        process_instruction(&program(), &accounts, instruction),
        Err(TokenitisError::ArithmeticOverflow)
    ));
}

#[test]
fn creation_refuses_a_transform_already_initialized() {
    let mut accounts = create_accounts();
    accounts[3].data = stored_transform().serialize().unwrap();
    assert_eq!(validate_create(&accounts, args()), Err(TokenitisError::AccountAlreadyInitialized));
    // An allocated account that holds no initialized transform is free.
    accounts[3].data = vec![0u8; 58];
    assert_eq!(validate_create(&accounts, args()), Ok(()));
    accounts[3].data = vec![7u8; 58];
    assert_eq!(validate_create(&accounts, args()), Err(TokenitisError::BorshIoError));
}

#[test]
fn creation_refuses_legs_out_of_order() {
    // Input mints swapped.
    let mut accounts = create_accounts();
    accounts.swap(5, 6);
    assert_eq!(validate_create(&accounts, args()), Err(TokenitisError::InvalidInstructionData));
    // Input vaults swapped.
    let mut accounts = create_accounts();
    accounts.swap(7, 8);
    assert_eq!(validate_create(&accounts, args()), Err(TokenitisError::InvalidInstructionData));
    // Both swapped: the legs are whole but in descending order.
    let mut accounts = create_accounts();
    accounts.swap(5, 6);
    accounts.swap(7, 8);
    assert_eq!(validate_create(&accounts, args()), Err(TokenitisError::InvalidInstructionData));
    // The same for the outputs.
    let mut accounts = create_accounts();
    accounts.swap(9, 10);
    accounts.swap(11, 12);
    assert_eq!(validate_create(&accounts, args()), Err(TokenitisError::InvalidInstructionData));
}

#[test]
fn creation_refuses_a_vault_of_another_mint() {
    let mut accounts = create_accounts();
    accounts[7].data = token_bytes(token_state(key(20), key(CREATOR), 0));
    assert_eq!(validate_create(&accounts, args()), Err(TokenitisError::InvalidArgument));
    let mut accounts = create_accounts();
    accounts[12].data = token_bytes(token_state(key(30), key(CREATOR), 100));
    assert_eq!(validate_create(&accounts, args()), Err(TokenitisError::InvalidArgument));
}

#[test]
fn creation_refuses_a_vault_with_a_delegate_or_a_close_authority() {
    for place in [7usize, 8, 11, 12] {
        let mut accounts = create_accounts();
        let mut state = spl_token::state::Account::unpack(&accounts[place].data).unwrap();
        state.delegate = COption::Some(pubkey(&key(77)));
        accounts[place].data = token_bytes(state);
        assert_eq!(validate_create(&accounts, args()), Err(TokenitisError::InvalidAccountData));

        let mut accounts = create_accounts();
        let mut state = spl_token::state::Account::unpack(&accounts[place].data).unwrap();
        state.close_authority = COption::Some(pubkey(&key(78)));
        accounts[place].data = token_bytes(state);
        assert_eq!(validate_create(&accounts, args()), Err(TokenitisError::InvalidAccountData));
    }
}

#[test]
fn creation_refuses_a_frozen_vault() {
    let mut accounts = create_accounts();
    let mut state = spl_token::state::Account::unpack(&accounts[8].data).unwrap();
    state.state = spl_token::state::AccountState::Frozen;
    accounts[8].data = token_bytes(state);
    assert_eq!(validate_create(&accounts, args()), Err(TokenitisError::InvalidAccountData));
}

#[test]
fn creation_reports_what_the_token_program_rejects() {
    let mut accounts = create_accounts();
    accounts[7].data = vec![0u8; spl_token::state::Account::LEN];
    assert_eq!(validate_create(&accounts, args()), Err(TokenitisError::UninitializedAccount));
    let mut accounts = create_accounts();
    accounts[7].data = vec![0u8; 10];
    assert_eq!(validate_create(&accounts, args()), Err(TokenitisError::InvalidAccountData));
    let mut accounts = create_accounts();
    accounts[5].data = vec![0u8; spl_token::state::Mint::LEN];
    assert_eq!(validate_create(&accounts, args()), Err(TokenitisError::UninitializedAccount));
    let mut accounts = create_accounts();
    accounts[9].data = vec![];
    assert_eq!(validate_create(&accounts, args()), Err(TokenitisError::InvalidAccountData));
}

#[test]
fn creation_refuses_a_mint_that_can_be_frozen() {
    let mut accounts = create_accounts();
    accounts[6].data = mint_bytes(100, None, Some(key(5)));
    assert_eq!(validate_create(&accounts, args()), Err(TokenitisError::InvalidAccountData));
    let mut accounts = create_accounts();
    accounts[10].data = mint_bytes(100, None, Some(key(5)));
    assert_eq!(validate_create(&accounts, args()), Err(TokenitisError::InvalidAccountData));
}

#[test]
fn creation_refuses_an_output_mint_that_can_still_mint() {
    let mut accounts = create_accounts();
    accounts[9].data = mint_bytes(100, Some(key(CREATOR)), None);
    assert_eq!(validate_create(&accounts, args()), Err(TokenitisError::InvalidAccountData));
}

#[test]
fn creation_refuses_an_output_vault_without_the_whole_supply() {
    let mut accounts = create_accounts();
    accounts[11].data = token_bytes(token_state(key(30), key(CREATOR), 99));
    assert_eq!(validate_create(&accounts, args()), Err(TokenitisError::InvalidArgument));
    let mut accounts = create_accounts();
    accounts[10].data = mint_bytes(101, None, None);
    assert_eq!(validate_create(&accounts, args()), Err(TokenitisError::InvalidArgument));
    // An input vault may hold anything.
    let mut accounts = create_accounts();
    accounts[7].data = token_bytes(token_state(key(10), key(CREATOR), 42));
    assert_eq!(validate_create(&accounts, args()), Ok(()));
}

#[test]
fn the_first_failing_check_decides() {
    // A long name and a wrong program: the arguments are checked first.
    let mut accounts = create_accounts();
    accounts[1].key = key(9);
    let mut a = args();
    a.metadata.name = "n".repeat(400);
    assert_eq!(validate_create(&accounts, a), Err(TokenitisError::InvalidInstructionData));
    // A wrong program and a bad leg: the programs are checked first.
    accounts.swap(5, 6);
    assert_eq!(validate_create(&accounts, args()), Err(TokenitisError::InvalidArgument));
    // Two bad legs: the earlier one decides.
    let mut accounts = create_accounts();
    accounts[8].data = vec![0u8; spl_token::state::Account::LEN];
    accounts[11].data = token_bytes(token_state(key(30), key(CREATOR), 1));
    assert_eq!(validate_create(&accounts, args()), Err(TokenitisError::UninitializedAccount));
}

#[test]
fn instructions_validate_and_execute_alike() {
    let accounts = create_accounts();
    let mut creation = CreateTransform::new(program(), &accounts, args()).unwrap();
    assert_eq!(creation.validate(), Ok(()));
    let plan = creation.execute().unwrap();
    assert_eq!(plan.transform, stored_transform());
    assert_eq!(creation.execute().unwrap().transform_data, plan.transform_data);

    let accounts = swap_accounts();
    let args = ExecuteTransformArgs { direction: Direction::Reverse };
    let mut swap = ExecuteTransform::new(program(), &accounts, args).unwrap();
    assert_eq!(swap.validate(), Ok(()));
    assert_eq!(swap.execute().unwrap().transfers.len(), 4);

    let mut accounts = swap_accounts();
    accounts[0].key = key(9);
    let swap = ExecuteTransform::new(program(), &accounts, args).unwrap();
    assert_eq!(swap.validate(), Err(TokenitisError::InvalidArgument));
}

#[test]
fn a_failed_creation_plans_nothing() {
    let mut accounts = create_accounts();
    accounts.swap(5, 6);
    let instruction = TokenitisInstructionType::CreateTransform(args());
    assert!(matches!(
        process_instruction(&program(), &accounts, instruction),
        Err(TokenitisError::InvalidInstructionData)
    ));
}

#[test]
fn a_sound_swap_passes() {
    assert_eq!(validate_swap(&swap_accounts()), Ok(()));
    // Accounts after the legs, such as the creator's fee accounts, are left alone.
    let mut accounts = swap_accounts();
    accounts.push(Account { key: key(99), data: vec![] });
    assert_eq!(validate_swap(&accounts), Ok(()));
}

#[test]
fn swap_needs_an_account_for_every_role() {
    let mut accounts = swap_accounts();
    accounts.pop();
    assert_eq!(validate_swap(&accounts), Err(TokenitisError::InvalidInstructionData));
    assert_eq!(validate_swap(&accounts[..2]), Err(TokenitisError::InvalidInstructionData));
}

#[test]
fn swap_refuses_a_transform_that_does_not_decode() {
    let mut accounts = swap_accounts();
    accounts[1].data = vec![];
    assert_eq!(validate_swap(&accounts), Err(TokenitisError::BorshIoError));
    let mut accounts = swap_accounts();
    accounts[1].data.truncate(40);
    assert_eq!(validate_swap(&accounts), Err(TokenitisError::BorshIoError));
}

#[test]
fn swap_refuses_another_token_program() {
    let mut accounts = swap_accounts();
    accounts[0].key = key(9);
    assert_eq!(validate_swap(&accounts), Err(TokenitisError::InvalidArgument));
}

#[test]
fn swap_refuses_a_transform_at_another_address() {
    let mut accounts = swap_accounts();
    accounts[1].key = Tokenitis::find_transform_address(&program(), 2).unwrap().0;
    assert_eq!(validate_swap(&accounts), Err(TokenitisError::InvalidArgument));
}

#[test]
fn swap_refuses_a_substituted_vault() {
    let mut accounts = swap_accounts();
    accounts[5].key = key(66);
    assert_eq!(validate_swap(&accounts), Err(TokenitisError::InvalidArgument));
    let mut accounts = swap_accounts();
    accounts[10].key = key(66);
    assert_eq!(validate_swap(&accounts), Err(TokenitisError::InvalidArgument));
}

#[test]
fn swap_refuses_accounts_out_of_order() {
    let mut accounts = swap_accounts();
    accounts.swap(3, 4);
    assert_eq!(validate_swap(&accounts), Err(TokenitisError::InvalidArgument));
    let mut accounts = swap_accounts();
    accounts.swap(5, 6);
    assert_eq!(validate_swap(&accounts), Err(TokenitisError::InvalidArgument));
    let mut accounts = swap_accounts();
    accounts.swap(7, 8);
    accounts.swap(9, 10);
    assert_eq!(validate_swap(&accounts), Err(TokenitisError::InvalidArgument));
}

#[test]
fn swap_refuses_an_account_of_someone_else() {
    let mut accounts = swap_accounts();
    accounts[4].data = token_bytes(token_state(key(20), key(3), 100));
    assert_eq!(validate_swap(&accounts), Err(TokenitisError::InvalidArgument));
    let mut accounts = swap_accounts();
    accounts[7].data = token_bytes(token_state(key(30), key(3), 0));
    assert_eq!(validate_swap(&accounts), Err(TokenitisError::InvalidArgument));
}

#[test]
fn swap_reports_what_the_token_program_rejects() {
    let mut accounts = swap_accounts();
    accounts[3].data = vec![0u8; spl_token::state::Account::LEN];
    assert_eq!(validate_swap(&accounts), Err(TokenitisError::UninitializedAccount));
    let mut accounts = swap_accounts();
    accounts[8].data = vec![1, 2, 3];
    assert_eq!(validate_swap(&accounts), Err(TokenitisError::InvalidAccountData));
}

#[test]
fn planning_a_swap_refuses_a_foreign_leg() {
    assert_eq!(plan_swap(&swap_accounts(), Direction::Forward), Ok(4));
    assert_eq!(plan_swap(&swap_accounts(), Direction::Reverse), Ok(4));
    // The caller's input account holds a token type that the inputs lack.
    let mut accounts = swap_accounts();
    accounts[3].data = token_bytes(token_state(key(30), key(CALLER), 100));
    assert_eq!(plan_swap(&accounts, Direction::Forward), Err(TokenitisError::InvalidArgument));
    // The vault's output account holds a token type that the outputs lack.
    let mut accounts = swap_accounts();
    accounts[10].data = token_bytes(token_state(key(10), key(CALLER), 100));
    assert_eq!(plan_swap(&accounts, Direction::Reverse), Err(TokenitisError::InvalidArgument));
    // What the token program rejects is reported as it is.
    let mut accounts = swap_accounts();
    accounts[4].data = vec![0u8; spl_token::state::Account::LEN];
    assert_eq!(plan_swap(&accounts, Direction::Forward), Err(TokenitisError::UninitializedAccount));
    let mut accounts = swap_accounts();
    accounts[1].data = vec![9];
    assert_eq!(plan_swap(&accounts, Direction::Forward), Err(TokenitisError::BorshIoError));
}

#[test]
fn a_failed_swap_plans_nothing() {
    let mut accounts = swap_accounts();
    accounts[5].key = key(66);
    let instruction =
        TokenitisInstructionType::ExecuteTransform(ExecuteTransformArgs { direction: Direction::Reverse });
    assert!(matches!(
        process_instruction(&program(), &accounts, instruction),
        Err(TokenitisError::InvalidArgument)
    ));
    let instruction =
        TokenitisInstructionType::ExecuteTransform(ExecuteTransformArgs { direction: Direction::Reverse });
    assert!(matches!(
        process_instruction(&program(), &swap_accounts(), instruction),
        Ok(Plan::Swap(_))
    ));
}

fn sound_vault(mint: Address) -> TokenAccount {
    TokenAccount {
        mint,
        owner: key(CREATOR),
        amount: 100,
        delegate: None,
        state: AccountState::Initialized,
        close_authority: None,
    }
}

fn sound_mint() -> Mint {
    Mint {
        mint_authority: None,
        supply: 100,
        decimals: 0,
        is_initialized: true,
        freeze_authority: None,
    }
}

#[test]
fn check_derived_compares_with_the_derivation() {
    assert_eq!(check_derived(Some((key(5), 254)), &key(5)), Ok(()));
    assert_eq!(check_derived(Some((key(5), 254)), &key(6)), Err(TokenitisError::InvalidArgument));
    assert_eq!(check_derived(None, &key(5)), Err(TokenitisError::InvalidSeeds));
}

#[test]
fn check_fresh_looks_at_the_flag() {
    assert_eq!(check_fresh(&[]), Ok(()));
    assert_eq!(check_fresh(&[0u8; 58]), Ok(()));
    assert_eq!(check_fresh(&[0u8; 57]), Err(TokenitisError::BorshIoError));
    let mut data = vec![0u8; 58];
    data[0] = 1;
    assert_eq!(check_fresh(&data), Err(TokenitisError::AccountAlreadyInitialized));
    data[0] = 2;
    assert_eq!(check_fresh(&data), Err(TokenitisError::BorshIoError));
}

#[test]
fn check_vault_on_given_values() {
    assert_eq!(check_vault(&sound_vault(key(10)), &key(10)), Ok(()));
    assert_eq!(check_vault(&sound_vault(key(10)), &key(20)), Err(TokenitisError::InvalidArgument));
    let mut vault = sound_vault(key(10));
    vault.state = AccountState::Frozen;
    assert_eq!(check_vault(&vault, &key(10)), Err(TokenitisError::InvalidAccountData));
    let mut vault = sound_vault(key(10));
    vault.state = AccountState::Uninitialized;
    assert_eq!(check_vault(&vault, &key(10)), Err(TokenitisError::InvalidAccountData));
    let mut vault = sound_vault(key(10));
    vault.delegate = Some(key(3));
    assert_eq!(check_vault(&vault, &key(10)), Err(TokenitisError::InvalidAccountData));
    let mut vault = sound_vault(key(10));
    vault.close_authority = Some(key(3));
    assert_eq!(check_vault(&vault, &key(10)), Err(TokenitisError::InvalidAccountData));
    // A wrong mint is reported before a delegate.
    let mut vault = sound_vault(key(10));
    vault.delegate = Some(key(3));
    assert_eq!(check_vault(&vault, &key(20)), Err(TokenitisError::InvalidArgument));
}

#[test]
fn check_input_leg_on_given_values() {
    let leg = Leg { mint: key(10), token: Token { account: key(11), amount: 10 } };
    let vault = Ok(sound_vault(key(10)));
    let mut mint = sound_mint();
    mint.mint_authority = Some(key(1));
    assert_eq!(check_input_leg(&leg, &key(10), &key(11), vault, Ok(mint)), Ok(()));
    assert_eq!(
        check_input_leg(&leg, &key(20), &key(11), vault, Ok(mint)),
        Err(TokenitisError::InvalidInstructionData)
    );
    assert_eq!(
        check_input_leg(&leg, &key(10), &key(21), vault, Ok(mint)),
        Err(TokenitisError::InvalidInstructionData)
    );
    assert_eq!(
        check_input_leg(&leg, &key(10), &key(11), Err(TokenitisError::UninitializedAccount), Ok(mint)),
        Err(TokenitisError::UninitializedAccount)
    );
    assert_eq!(
        check_input_leg(&leg, &key(10), &key(11), vault, Err(TokenitisError::InvalidAccountData)),
        Err(TokenitisError::InvalidAccountData)
    );
    // The vault is looked at before the mint.
    assert_eq!(
        check_input_leg(
            &leg,
            &key(10),
            &key(11),
            Ok(sound_vault(key(20))),
            Err(TokenitisError::UninitializedAccount)
        ),
        Err(TokenitisError::InvalidArgument)
    );
    mint.freeze_authority = Some(key(1));
    assert_eq!(
        check_input_leg(&leg, &key(10), &key(11), vault, Ok(mint)),
        Err(TokenitisError::InvalidAccountData)
    );
    mint.freeze_authority = None;
    mint.is_initialized = false;
    assert_eq!(
        check_input_leg(&leg, &key(10), &key(11), vault, Ok(mint)),
        Err(TokenitisError::InvalidAccountData)
    );
}

#[test]
fn check_output_leg_on_given_values() {
    let leg = Leg { mint: key(30), token: Token { account: key(31), amount: 10 } };
    let vault = Ok(sound_vault(key(30)));
    assert_eq!(check_output_leg(&leg, &key(30), &key(31), vault, Ok(sound_mint())), Ok(()));
    assert_eq!(
        check_output_leg(&leg, &key(31), &key(31), vault, Ok(sound_mint())),
        Err(TokenitisError::InvalidInstructionData)
    );
    let mut mint = sound_mint();
    mint.mint_authority = Some(key(1));
    assert_eq!(
        check_output_leg(&leg, &key(30), &key(31), vault, Ok(mint)),
        Err(TokenitisError::InvalidAccountData)
    );
    let mut mint = sound_mint();
    mint.supply = 101;
    assert_eq!(
        check_output_leg(&leg, &key(30), &key(31), vault, Ok(mint)),
        Err(TokenitisError::InvalidArgument)
    );
    // The mint is looked at before the vault.
    assert_eq!(
        check_output_leg(
            &leg,
            &key(30),
            &key(31),
            Err(TokenitisError::InvalidAccountData),
            Err(TokenitisError::UninitializedAccount)
        ),
        Err(TokenitisError::UninitializedAccount)
    );
    let mut frozen = sound_vault(key(30));
    frozen.state = AccountState::Frozen;
    assert_eq!(
        check_output_leg(&leg, &key(30), &key(31), Ok(frozen), Ok(sound_mint())),
        Err(TokenitisError::InvalidAccountData)
    );
}

#[test]
fn check_swap_leg_on_given_values() {
    let leg = Leg { mint: key(10), token: Token { account: key(11), amount: 10 } };
    let mut held = sound_vault(key(10));
    held.owner = key(CALLER);
    assert_eq!(check_swap_leg(&leg, &key(11), Ok(held), &key(CALLER)), Ok(()));
    assert_eq!(
        check_swap_leg(&leg, &key(12), Ok(held), &key(CALLER)),
        Err(TokenitisError::InvalidArgument)
    );
    assert_eq!(
        check_swap_leg(&leg, &key(11), Ok(held), &key(CREATOR)),
        Err(TokenitisError::InvalidArgument)
    );
    assert_eq!(
        check_swap_leg(&leg, &key(11), Ok(sound_vault(key(20))), &key(CREATOR)),
        Err(TokenitisError::InvalidArgument)
    );
    assert_eq!(
        check_swap_leg(&leg, &key(11), Err(TokenitisError::UninitializedAccount), &key(CALLER)),
        Err(TokenitisError::UninitializedAccount)
    );
    // A delegate on the caller's own account is the caller's business.
    held.delegate = Some(key(9));
    assert_eq!(check_swap_leg(&leg, &key(11), Ok(held), &key(CALLER)), Ok(()));
}
