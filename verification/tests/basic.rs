use solana_program::account_info::AccountInfo;
use solana_program::instruction::{AccountMeta, Instruction};
use solana_program::program_error::ProgramError;
use solana_program::program_option::COption;
use solana_program::program_pack::Pack;
use solana_program::pubkey::Pubkey;
use std::collections::BTreeMap;
use tokenitis::account::{Account, Allocation, Transfer};
use tokenitis::address::Address;
use tokenitis::basket::{Basket, Token};
use tokenitis::errors::TokenitisError;
use tokenitis::state::{Tokenitis, Transform, TransformMetadata};
use tokenitis::tokenitis_instruction::create_transform::execute::CreatePlan;
use tokenitis::tokenitis_instruction::create_transform::CreateTransformArgs;
use tokenitis::derivation::find_fee_account;
use tokenitis::tokenitis_instruction::execute_transform::execute::SwapPlan;
use tokenitis::tokenitis_instruction::execute_transform::{Direction, ExecuteTransformArgs};
use tokenitis::tokenitis_instruction::{process_instruction, Plan, TokenitisInstructionType};

const PROGRAM: [u8; 32] = [
    226, 51, 240, 192, 240, 164, 198, 61, 227, 109, 10, 218, 74, 136, 54, 168, 50, 19, 134, 134,
    68, 178, 9, 96, 42, 149, 201, 37, 178, 203, 139, 39,
];

fn program() -> Address {
    Address::new(PROGRAM)
}

fn key(n: u8) -> Address {
    Address::new([n; 32])
}

fn pubkey(address: &Address) -> Pubkey {
    Pubkey::new_from_array(address.bytes)
}

fn address(key: &Pubkey) -> Address {
    Address::new(key.to_bytes())
}

fn instruction(built: &tokenitis::instruction::Instruction) -> Instruction {
    Instruction {
        program_id: pubkey(&built.program_id),
        accounts: built
            .accounts
            .iter()
            .map(|meta| AccountMeta {
                pubkey: pubkey(&meta.pubkey),
                is_signer: meta.is_signer,
                is_writable: meta.is_writable,
            })
            .collect(),
        data: built.data.clone(),
    }
}

/// Accounts kept in memory: what the ledger would hold.
struct World {
    data: BTreeMap<[u8; 32], Vec<u8>>,
}

impl World {
    fn new() -> World {
        World { data: BTreeMap::new() }
    }

    fn put_mint(&mut self, at: Address, supply: u64, authority: Option<Address>) {
        let mint = spl_token::state::Mint {
            mint_authority: match authority {
                Some(a) => COption::Some(pubkey(&a)),
                None => COption::None,
            },
            supply,
            decimals: 0,
            is_initialized: true,
            freeze_authority: COption::None,
        };
        let mut bytes = vec![0u8; spl_token::state::Mint::LEN];
        spl_token::state::Mint::pack(mint, &mut bytes).unwrap();
        self.data.insert(at.bytes, bytes);
    }

    fn put_token(&mut self, at: Address, mint: Address, owner: Address, amount: u64) {
        let account = spl_token::state::Account {
            mint: pubkey(&mint),
            owner: pubkey(&owner),
            amount,
            delegate: COption::None,
            state: spl_token::state::AccountState::Initialized,
            is_native: COption::None,
            delegated_amount: 0,
            close_authority: COption::None,
        };
        let mut bytes = vec![0u8; spl_token::state::Account::LEN];
        spl_token::state::Account::pack(account, &mut bytes).unwrap();
        self.data.insert(at.bytes, bytes);
    }

    fn token(&self, at: Address) -> spl_token::state::Account {
        spl_token::state::Account::unpack(&self.data[&at.bytes]).unwrap()
    }

    fn balance(&self, at: Address) -> u64 {
        self.token(at).amount
    }

    fn account(&self, at: Address) -> Account {
        Account { key: at, data: self.data.get(&at.bytes).cloned().unwrap_or_default() }
    }

    /// Hands an instruction to the token program, with the given signers.
    fn token_program(&mut self, ix: &Instruction, signers: &[Pubkey]) -> Result<(), ProgramError> {
        let token_id = spl_token::id();
        let system_id = solana_program::system_program::id();
        let mut held: Vec<(Pubkey, bool, u64, Vec<u8>, bool)> = Vec::new();
        for meta in ix.accounts.iter() {
            let data = self.data.get(&meta.pubkey.to_bytes()).cloned();
            let is_token = data.is_some();
            // An account that signs does so wherever the instruction names it.
            let signs = signers.contains(&meta.pubkey);
            held.push((meta.pubkey, signs, 1_000_000_000, data.unwrap_or_default(), is_token));
        }
        let result = {
            let infos: Vec<AccountInfo> = held
                .iter_mut()
                .map(|(key, signs, lamports, data, is_token)| {
                    AccountInfo::new(
                        key,
                        *signs,
                        true,
                        lamports,
                        data.as_mut_slice(),
                        if *is_token { &token_id } else { &system_id },
                        false,
                        0,
                    )
                })
                .collect();
            spl_token::processor::Processor::process(&token_id, &infos, &ix.data)
        };
        if result.is_ok() {
            for (key, _, _, data, is_token) in held {
                if is_token {
                    self.data.insert(key.to_bytes(), data);
                }
            }
        }
        result
    }

    /// Allocates an account as the ledger would, after checking the proof of
    /// authority that goes with the request.
    fn allocate(&mut self, allocation: &Allocation) {
        let derived = Pubkey::create_program_address(
            &[allocation.authorization.seed.as_slice(), &[allocation.authorization.nonce]],
            &pubkey(&allocation.owner),
        )
        .unwrap();
        assert_eq!(address(&derived), allocation.account);
        assert!(!self.data.contains_key(&allocation.account.bytes));
        let ix = instruction(&allocation.instruction(1_000_000));
        assert_eq!(
            ix,
            solana_program::system_instruction::create_account(
                &pubkey(&allocation.payer),
                &derived,
                1_000_000,
                allocation.space,
                &pubkey(&allocation.owner),
            )
        );
        self.data.insert(allocation.account.bytes, vec![0u8; allocation.space as usize]);
    }

    fn carry_out_create(&mut self, plan: &CreatePlan) {
        if let Some(allocation) = &plan.registry_allocation {
            self.allocate(allocation);
        }
        assert_eq!(self.data[&plan.registry_account.bytes].len(), plan.registry_data.len());
        self.data.insert(plan.registry_account.bytes, plan.registry_data.clone());
        self.allocate(&plan.transform_allocation);
        let transform = plan.transform_allocation.account;
        assert_eq!(self.data[&transform.bytes].len(), plan.transform_data.len());
        self.data.insert(transform.bytes, plan.transform_data.clone());
        for step in plan.reassignments.iter() {
            let current = pubkey(&step.current_owner);
            let ix = instruction(&step.instruction().unwrap());
            self.token_program(&ix, &[current]).unwrap();
        }
    }

    fn transfer(&mut self, transfer: &Transfer, plan: &SwapPlan) -> Result<(), ProgramError> {
        let authority = pubkey(&transfer.authority);
        if transfer.vault_signed {
            let derived = Pubkey::create_program_address(
                &[plan.authorization.seed.as_slice(), &[plan.authorization.nonce]],
                &pubkey(&program()),
            )
            .unwrap();
            assert_eq!(derived, authority);
        }
        let ix = instruction(&transfer.instruction().unwrap());
        self.token_program(&ix, &[authority])
    }

    /// Issues the transfers in order; a failure undoes all of them.
    fn carry_out_swap(&mut self, plan: &SwapPlan) -> Result<(), ProgramError> {
        let before = self.data.clone();
        for transfer in plan.transfers.iter() {
            if let Err(e) = self.transfer(transfer, plan) {
                self.data = before;
                return Err(e);
            }
        }
        Ok(())
    }
}

/// The accounts of one transform and of one caller.
struct Setup {
    world: World,
    creator: Address,
    caller: Address,
    registry: Address,
    transform: Address,
    args: CreateTransformArgs,
    vaults: [Address; 4],
    held: [Address; 4],
}

const MINT_A: u8 = 10;
const MINT_B: u8 = 20;
const MINT_C: u8 = 30;
const MINT_D: u8 = 40;

fn setup(amount: u64, fee: Option<u64>, name: &str) -> Setup {
    let creator = key(1);
    let caller = key(2);
    let mints = [key(MINT_A), key(MINT_B), key(MINT_C), key(MINT_D)];
    let vaults = [key(11), key(21), key(31), key(41)];
    let held = [key(12), key(22), key(32), key(42)];
    let mut world = World::new();
    world.put_mint(mints[0], 100, Some(caller));
    world.put_mint(mints[1], 100, Some(caller));
    world.put_mint(mints[2], 100, None);
    world.put_mint(mints[3], 100, None);
    world.put_token(vaults[0], mints[0], creator, 0);
    world.put_token(vaults[1], mints[1], creator, 0);
    world.put_token(vaults[2], mints[2], creator, 100);
    world.put_token(vaults[3], mints[3], creator, 100);
    world.put_token(held[0], mints[0], caller, 100);
    world.put_token(held[1], mints[1], caller, 100);
    world.put_token(held[2], mints[2], caller, 0);
    world.put_token(held[3], mints[3], caller, 0);
    let mut inputs = Basket::new();
    inputs.insert(mints[1], Token { account: vaults[1], amount });
    inputs.insert(mints[0], Token { account: vaults[0], amount });
    let mut outputs = Basket::new();
    outputs.insert(mints[2], Token { account: vaults[2], amount });
    outputs.insert(mints[3], Token { account: vaults[3], amount });
    let args = CreateTransformArgs {
        metadata: TransformMetadata { name: name.to_string(), image: "".to_string() },
        inputs,
        outputs,
        fee,
    };
    let registry = Tokenitis::find_tokenitis_address(&program()).unwrap().0;
    let transform = Tokenitis::find_transform_address(&program(), 1).unwrap().0;
    Setup { world, creator, caller, registry, transform, args, vaults, held }
}

impl Setup {
    fn create_accounts(&self) -> Vec<Account> {
        let w = &self.world;
        vec![
            w.account(address(&solana_program::system_program::id())),
            w.account(address(&spl_token::id())),
            w.account(self.registry),
            w.account(self.transform),
            w.account(self.creator),
            w.account(key(MINT_A)),
            w.account(key(MINT_B)),
            w.account(self.vaults[0]),
            w.account(self.vaults[1]),
            w.account(key(MINT_C)),
            w.account(key(MINT_D)),
            w.account(self.vaults[2]),
            w.account(self.vaults[3]),
        ]
    }

    fn swap_accounts(&self) -> Vec<Account> {
        let w = &self.world;
        vec![
            w.account(address(&spl_token::id())),
            w.account(self.transform),
            w.account(self.caller),
            w.account(self.held[0]),
            w.account(self.held[1]),
            w.account(self.vaults[0]),
            w.account(self.vaults[1]),
            w.account(self.held[2]),
            w.account(self.held[3]),
            w.account(self.vaults[2]),
            w.account(self.vaults[3]),
        ]
    }

    fn create(&mut self) -> CreatePlan {
        let accounts = self.create_accounts();
        let instruction = TokenitisInstructionType::CreateTransform(self.args.clone());
        let plan = match process_instruction(&program(), &accounts, instruction) {
            Ok(Plan::Create(plan)) => plan,
            other => panic!("creation failed: {:?}", other),
        };
        self.world.carry_out_create(&plan);
        plan
    }

    fn swap(&mut self, direction: Direction) -> Result<SwapPlan, TokenitisError> {
        let accounts = self.swap_accounts();
        let instruction = TokenitisInstructionType::ExecuteTransform(ExecuteTransformArgs {
            direction,
        });
        match process_instruction(&program(), &accounts, instruction) {
            Ok(Plan::Swap(plan)) => {
                self.world.carry_out_swap(&plan).unwrap();
                Ok(plan)
            }
            Ok(Plan::Create(_)) => panic!("a swap was asked for"),
            Err(e) => Err(e),
        }
    }

    fn balances(&self) -> [u64; 8] {
        let w = &self.world;
        [
            w.balance(self.held[0]),
            w.balance(self.held[1]),
            w.balance(self.held[2]),
            w.balance(self.held[3]),
            w.balance(self.vaults[0]),
            w.balance(self.vaults[1]),
            w.balance(self.vaults[2]),
            w.balance(self.vaults[3]),
        ]
    }
}

#[test]
fn basic() {
    let mut s = setup(10, None, "test123");
    let plan = s.create();
    assert_eq!(plan.transform.id, 1);

    let stored = Transform::deserialize(&s.world.data[&s.transform.bytes]).unwrap();
    assert_eq!(stored.metadata.name, "test123");
    assert_eq!(stored.metadata.image, "");

    assert_eq!(s.world.balance(s.held[0]), 100);
    assert_eq!(s.world.balance(s.held[1]), 100);
    assert_eq!(s.world.balance(s.held[2]), 0);
    assert_eq!(s.world.balance(s.held[3]), 0);
    assert_eq!(s.world.balance(s.vaults[0]), 0);
    assert_eq!(s.world.balance(s.vaults[1]), 0);
    assert_eq!(s.world.balance(s.vaults[2]), 100);
    assert_eq!(s.world.balance(s.vaults[3]), 100);

    s.swap(Direction::Forward).unwrap();

    assert_eq!(s.world.balance(s.held[0]), 90);
    assert_eq!(s.world.balance(s.held[1]), 90);
    assert_eq!(s.world.balance(s.held[2]), 10);
    assert_eq!(s.world.balance(s.held[3]), 10);
    assert_eq!(s.world.balance(s.vaults[0]), 10);
    assert_eq!(s.world.balance(s.vaults[1]), 10);
    assert_eq!(s.world.balance(s.vaults[2]), 90);
    assert_eq!(s.world.balance(s.vaults[3]), 90);

    s.swap(Direction::Reverse).unwrap();

    assert_eq!(s.world.balance(s.held[0]), 100);
    assert_eq!(s.world.balance(s.held[1]), 100);
    assert_eq!(s.world.balance(s.held[2]), 0);
    assert_eq!(s.world.balance(s.held[3]), 0);
    assert_eq!(s.world.balance(s.vaults[0]), 0);
    assert_eq!(s.world.balance(s.vaults[1]), 0);
    assert_eq!(s.world.balance(s.vaults[2]), 100);
    assert_eq!(s.world.balance(s.vaults[3]), 100);
}

#[test]
fn end_to_end_with_a_fee_that_rounds_to_nothing() {
    let mut s = setup(10, Some(5), "five percent");
    s.create();
    assert_eq!(s.balances(), [100, 100, 0, 0, 0, 0, 100, 100]);
    let forward = s.swap(Direction::Forward).unwrap();
    assert_eq!(forward.transfers.len(), 4);
    assert_eq!(s.balances(), [90, 90, 10, 10, 10, 10, 90, 90]);
    let reverse = s.swap(Direction::Reverse).unwrap();
    assert_eq!(reverse.transfers.len(), 4);
    assert_eq!(s.balances(), [100, 100, 0, 0, 0, 0, 100, 100]);
}

#[test]
fn round_trip_costs_the_caller_the_fee_and_nothing_else() {
    let mut s = setup(40, Some(5), "forty");
    let fee_a = find_fee_account(&s.creator, &key(MINT_A)).unwrap().0;
    let fee_b = find_fee_account(&s.creator, &key(MINT_B)).unwrap().0;
    s.world.put_token(fee_a, key(MINT_A), s.creator, 0);
    s.world.put_token(fee_b, key(MINT_B), s.creator, 7);
    s.create();
    let forward = s.swap(Direction::Forward).unwrap();
    assert_eq!(forward.transfers.len(), 6);
    assert_eq!(
        forward.transfers[0],
        Transfer {
            source: s.held[0],
            destination: fee_a,
            authority: s.caller,
            amount: 2,
            vault_signed: false,
        }
    );
    assert_eq!(
        forward.transfers[2],
        Transfer {
            source: s.held[0],
            destination: s.vaults[0],
            authority: s.caller,
            amount: 40,
            vault_signed: false,
        }
    );
    assert_eq!(
        forward.transfers[4],
        Transfer {
            source: s.vaults[2],
            destination: s.held[2],
            authority: s.transform,
            amount: 40,
            vault_signed: true,
        }
    );
    assert_eq!(s.balances(), [58, 58, 40, 40, 40, 40, 60, 60]);
    assert_eq!(s.world.balance(fee_a), 2);
    assert_eq!(s.world.balance(fee_b), 9);
    let reverse = s.swap(Direction::Reverse).unwrap();
    assert_eq!(reverse.transfers.len(), 4);
    assert_eq!(
        reverse.transfers[0],
        Transfer {
            source: s.vaults[0],
            destination: s.held[0],
            authority: s.transform,
            amount: 40,
            vault_signed: true,
        }
    );
    assert_eq!(
        reverse.transfers[3],
        Transfer {
            source: s.held[3],
            destination: s.vaults[3],
            authority: s.caller,
            amount: 40,
            vault_signed: false,
        }
    );
    assert_eq!(s.balances(), [98, 98, 0, 0, 0, 0, 100, 100]);
    assert_eq!(s.world.balance(fee_a), 2);
    assert_eq!(s.world.balance(fee_b), 9);
}

#[test]
fn creation_hands_every_vault_to_the_transform() {
    let mut s = setup(10, None, "custody");
    let plan = s.create();
    assert_eq!(plan.reassignments.len(), 4);
    for (i, vault) in s.vaults.iter().enumerate() {
        assert_eq!(plan.reassignments[i].account, *vault);
        assert_eq!(plan.reassignments[i].new_owner, s.transform);
        assert_eq!(plan.reassignments[i].current_owner, s.creator);
        assert_eq!(address(&s.world.token(*vault).owner), s.transform);
    }
}

#[test]
fn creation_allocates_the_registry_once_and_counts_up() {
    let mut s = setup(10, None, "first");
    let first = s.create();
    let registry = first.registry_allocation.as_ref().unwrap();
    assert_eq!(registry.account, s.registry);
    assert_eq!(registry.space, 8);
    assert_eq!(registry.payer, s.creator);
    assert_eq!(registry.owner, program());
    assert_eq!(registry.authorization.seed, b"tokenitis".to_vec());
    assert_eq!(first.registry, Tokenitis { num_transforms: 1 });
    assert_eq!(first.registry_data, vec![1, 0, 0, 0, 0, 0, 0, 0]);
    assert_eq!(first.transform_allocation.account, s.transform);
    assert_eq!(first.transform_allocation.authorization.seed, b"transform-1".to_vec());
    assert_eq!(first.transform_allocation.space as usize, first.transform_data.len());
    assert_eq!(first.transform.creator, s.creator);
    assert!(first.transform.initialized);

    // A second transform over fresh vaults.
    let second_address = Tokenitis::find_transform_address(&program(), 2).unwrap().0;
    let mut next = setup(10, None, "second");
    next.world.data.insert(s.registry.bytes, first.registry_data.clone());
    next.transform = second_address;
    let second = next.create();
    assert!(second.registry_allocation.is_none());
    assert_eq!(second.transform.id, 2);
    assert_eq!(second.registry, Tokenitis { num_transforms: 2 });
    assert_eq!(second.transform_allocation.account, second_address);
    assert_eq!(second.transform_allocation.authorization.seed, b"transform-2".to_vec());
}

#[test]
fn swap_without_funds_is_refused_by_the_token_program_and_undone() {
    let mut s = setup(10, None, "poor");
    s.create();
    s.world.put_token(s.held[1], key(MINT_B), s.caller, 3);
    let accounts = s.swap_accounts();
    let instruction =
        TokenitisInstructionType::ExecuteTransform(ExecuteTransformArgs { direction: Direction::Forward });
    let plan = match process_instruction(&program(), &accounts, instruction) {
        Ok(Plan::Swap(plan)) => plan,
        other => panic!("planning failed: {:?}", other),
    };
    assert!(s.world.carry_out_swap(&plan).is_err());
    assert_eq!(s.balances(), [100, 3, 0, 0, 0, 0, 100, 100]);
}
