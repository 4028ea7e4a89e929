use crate::account::Account;
use crate::address::{address_of, lemma_address_ext, lemma_address_of, Address};
use crate::basket::{Basket, Leg};
use crate::derivation::{
    fee_account, find_fee_account, system_program_bytes, system_program_id,
    token_program_bytes, token_program_id,
};
use crate::errors::{first_error, lemma_first_error_at, lemma_first_error_none, TokenitisError};
use crate::instruction::{
    associated_create_account, build_associated_create_account, build_initialize_account,
    build_initialize_mint, build_mint_to_checked, build_set_authority,
    build_system_create_account, system_create_account, token_initialize_account,
    token_initialize_mint, token_mint_to_checked, token_set_authority, views, AccountMeta,
    AuthorityKind, Instruction, InstructionView,
};
use crate::state::{
    take_transform, tokenitis_address, transform_address, Tokenitis, Transform, TransformView,
};
use crate::tokenitis_instruction::create_transform::validate::derived_verdict;
use crate::tokenitis_instruction::create_transform::{
    args_encodable, CreateTransform, CreateTransformArgs, CreateTransformArgsView,
};
use crate::tokenitis_instruction::execute_transform::{ExecuteTransform, ExecuteTransformArgs};
use crate::tokenitis_instruction::{
    enc_instruction, TokenitisInstructionType, TokenitisInstructionView,
};
use vstd::prelude::*;

verus! {

/// Number of bytes that the token program stores for a token type.
pub const MINT_LEN: u64 = 82;

/// Number of bytes that the token program stores for a token account.
pub const TOKEN_ACCOUNT_LEN: u64 = 165;

/// The token program's address.
pub open spec fn token_program() -> Address {
    address_of(token_program_bytes())
}

/// The instructions that set up a token type: allocate its account, then
/// initialize it. `IncorrectProgramId` where the token program builds none.
pub open spec fn mint_setup(
    mint: Address,
    mint_authority: Address,
    freeze_authority: Option<Address>,
    decimals: u8,
    rent: u64,
) -> Result<Seq<InstructionView>, TokenitisError> {
    match token_initialize_mint(mint, mint_authority, freeze_authority, decimals) {
        Some(initialize) => Ok(
            seq![
                system_create_account(mint_authority, mint, rent, MINT_LEN, token_program()),
                initialize,
            ],
        ),
        None => Err(TokenitisError::IncorrectProgramId),
    }
}

/// The instructions that set up a token account: allocate it, then
/// initialize it. `IncorrectProgramId` where the token program builds none.
pub open spec fn token_account_setup(
    mint: Address,
    token_account: Address,
    authority: Address,
    rent: u64,
) -> Result<Seq<InstructionView>, TokenitisError> {
    match token_initialize_account(token_account, mint, authority) {
        Some(initialize) => Ok(
            seq![
                system_create_account(
                    authority,
                    token_account,
                    rent,
                    TOKEN_ACCOUNT_LEN,
                    token_program(),
                ),
                initialize,
            ],
        ),
        None => Err(TokenitisError::IncorrectProgramId),
    }
}

/// Builds instructions for clients of the program.
pub struct InstructionBuilder;

impl InstructionBuilder {
    /// The instructions that set up a token type whose first authority is
    /// `mint_authority`, who also pays `spl_mint_rent` for its account.
    pub fn create_spl_token_mint(
        mint: &Address,
        mint_authority: &Address,
        freeze_authority: Option<&Address>,
        decimals: u8,
        spl_mint_rent: u64,
    ) -> (built: Result<Vec<Instruction>, TokenitisError>)
        ensures
            listed(
                built,
                mint_setup(
                    *mint,
                    *mint_authority,
                    match freeze_authority {
                        Some(authority) => Some(*authority),
                        None => None,
                    },
                    decimals,
                    spl_mint_rent,
                ),
            ),
    {
        let freeze_authority = match freeze_authority {
            Some(authority) => Some(*authority),
            None => None,
        };
        let token = token_program_id();
        proof {
            lemma_address_ext(token, token_program());
        }
        let create = build_system_create_account(
            mint_authority,
            mint,
            spl_mint_rent,
            MINT_LEN,
            &token,
        );
        let initialize = match build_initialize_mint(
            mint,
            mint_authority,
            freeze_authority,
            decimals,
        ) {
            Some(ix) => ix,
            None => {
                return Err(TokenitisError::IncorrectProgramId);
            },
        };
        let mut list: Vec<Instruction> = Vec::new();
        list.push(create);
        list.push(initialize);
        assert(views(list@) =~= seq![
            system_create_account(*mint_authority, *mint, spl_mint_rent, MINT_LEN, token_program()),
            initialize@,
        ]);
        Ok(list)
    }

    /// The instructions that set up a token account of `mint` owned by
    /// `authority`, who also pays `rent` for it.
    pub fn create_spl_token_account(
        mint: &Address,
        token_account: &Address,
        authority: &Address,
        rent: u64,
    ) -> (built: Result<Vec<Instruction>, TokenitisError>)
        ensures
            listed(built, token_account_setup(*mint, *token_account, *authority, rent)),
    {
        let token = token_program_id();
        proof {
            lemma_address_ext(token, token_program());
        }
        let create = build_system_create_account(
            authority,
            token_account,
            rent,
            TOKEN_ACCOUNT_LEN,
            &token,
        );
        let initialize = match build_initialize_account(token_account, mint, authority) {
            Some(ix) => ix,
            None => {
                return Err(TokenitisError::IncorrectProgramId);
            },
        };
        let mut list: Vec<Instruction> = Vec::new();
        list.push(create);
        list.push(initialize);
        assert(views(list@) =~= seq![
            system_create_account(
                *authority,
                *token_account,
                rent,
                TOKEN_ACCOUNT_LEN,
                token_program(),
            ),
            initialize@,
        ]);
        Ok(list)
    }

    /// The instructions that set up the vault's account for every input leg,
    /// owned by `initializer`, who also pays `spl_token_rent` for each.
    pub fn create_transform_input_accounts(
        initializer: &Address,
        spl_token_rent: u64,
        args: CreateTransformArgs,
    ) -> (built: Result<Vec<Instruction>, TokenitisError>)
        ensures
            listed(built, gather(input_parts(*initializer, spl_token_rent, args.inputs@))),
    {
        let ghost parts = input_parts(*initializer, spl_token_rent, args.inputs@);
        let n = args.inputs.len();
        let mut list: Vec<Instruction> = Vec::new();
        let mut i: usize = 0;
        assert(views(list@) =~= Seq::<InstructionView>::empty());
        assert(parts.take(0) =~= Seq::<Result<Seq<InstructionView>, TokenitisError>>::empty());
        while i < n
            invariant
                0 <= i <= n,
                n == args.inputs@.len(),
                parts == input_parts(*initializer, spl_token_rent, args.inputs@),
                gather(parts.take(i as int)) == Ok::<Seq<InstructionView>, TokenitisError>(
                    views(list@),
                ),
            decreases n - i,
        {
            let leg = args.inputs.leg(i);
            let made = InstructionBuilder::create_spl_token_account(
                &leg.mint,
                &leg.token.account,
                initializer,
                spl_token_rent,
            );
            proof {
                lemma_gather_step(parts, i as int);
            }
            match made {
                Ok(more) => {
                    append_all(&mut list, more);
                },
                Err(e) => {
                    proof {
                        lemma_gather_error(parts, i + 1);
                    }
                    return Err(e);
                },
            }
            i += 1;
        }
        assert(parts.take(n as int) =~= parts);
        Ok(list)
    }

    /// The instructions by which `funding_acc` pays for the creator's
    /// fee-collection account for every input leg.
    pub fn create_transform_fee_accounts(
        funding_acc: &Address,
        transform_creator: &Address,
        args: CreateTransformArgs,
    ) -> (built: Result<Vec<Instruction>, TokenitisError>)
        ensures
            listed(built, gather(fee_parts(*funding_acc, *transform_creator, args.inputs@))),
    {
        let ghost parts = fee_parts(*funding_acc, *transform_creator, args.inputs@);
        let n = args.inputs.len();
        let mut list: Vec<Instruction> = Vec::new();
        let mut i: usize = 0;
        assert(views(list@) =~= Seq::<InstructionView>::empty());
        assert(parts.take(0) =~= Seq::<Result<Seq<InstructionView>, TokenitisError>>::empty());
        while i < n
            invariant
                0 <= i <= n,
                n == args.inputs@.len(),
                parts == fee_parts(*funding_acc, *transform_creator, args.inputs@),
                gather(parts.take(i as int)) == Ok::<Seq<InstructionView>, TokenitisError>(
                    views(list@),
                ),
            decreases n - i,
        {
            let leg = args.inputs.leg(i);
            proof {
                lemma_gather_step(parts, i as int);
            }
            if find_fee_account(transform_creator, &leg.mint).is_none() {
                proof {
                    lemma_gather_error(parts, i + 1);
                }
                return Err(TokenitisError::InvalidSeeds);
            }
            let ix = build_associated_create_account(funding_acc, transform_creator, &leg.mint);
            let ghost before = views(list@);
            list.push(ix);
            assert(views(list@) =~= before + seq![ix@]);
            i += 1;
        }
        assert(parts.take(n as int) =~= parts);
        Ok(list)
    }

    /// The instructions that set up every output leg: its token type, the
    /// vault's account for it, the minting of its whole supply into that
    /// account, and the giving up of the authority to mint more. The supply
    /// of each token type is looked up in `output_supply`, whose first pair
    /// for a token type counts; a token type without one is an
    /// `InvalidArgument`.
    pub fn create_trarnsform_output_accounts(
        initializer: &Address,
        spl_token_rent: u64,
        spl_mint_rent: u64,
        args: CreateTransformArgs,
        output_supply: Vec<(Address, u64)>,
    ) -> (built: Result<Vec<Instruction>, TokenitisError>)
        ensures
            listed(
                built,
                gather(
                    output_parts(
                        *initializer,
                        spl_token_rent,
                        spl_mint_rent,
                        args.outputs@,
                        output_supply@,
                    ),
                ),
            ),
    {
        let ghost parts = output_parts(
            *initializer,
            spl_token_rent,
            spl_mint_rent,
            args.outputs@,
            output_supply@,
        );
        let n = args.outputs.len();
        let mut list: Vec<Instruction> = Vec::new();
        let mut i: usize = 0;
        assert(views(list@) =~= Seq::<InstructionView>::empty());
        assert(parts.take(0) =~= Seq::<Result<Seq<InstructionView>, TokenitisError>>::empty());
        while i < n
            invariant
                0 <= i <= n,
                n == args.outputs@.len(),
                parts == output_parts(
                    *initializer,
                    spl_token_rent,
                    spl_mint_rent,
                    args.outputs@,
                    output_supply@,
                ),
                gather(parts.take(i as int)) == Ok::<Seq<InstructionView>, TokenitisError>(
                    views(list@),
                ),
            decreases n - i,
        {
            let leg = args.outputs.leg(i);
            proof {
                lemma_gather_step(parts, i as int);
            }
            let made = InstructionBuilder::output_leg_setup(
                initializer,
                spl_token_rent,
                spl_mint_rent,
                &leg,
                &output_supply,
            );
            match made {
                Ok(more) => {
                    append_all(&mut list, more);
                },
                Err(e) => {
                    proof {
                        lemma_gather_error(parts, i + 1);
                    }
                    return Err(e);
                },
            }
            i += 1;
        }
        assert(parts.take(n as int) =~= parts);
        Ok(list)
    }

    /// The instruction that creates the transform with the id
    /// `transform_num`, which is to be the one that follows the registry's
    /// counter. Its accounts are the five fixed ones, then, in ascending
    /// order of token type, the mints and the vault accounts of the inputs
    /// and those of the outputs.
    pub fn create_transform(
        program_id: Address,
        creator: &Address,
        transform_num: u64,
        args: CreateTransformArgs,
    ) -> (built: Result<Vec<Instruction>, TokenitisError>)
        ensures
            match built {
                Ok(list) => {
                    &&& create_transform_error(program_id, transform_num, args@) is None
                    &&& list@.len() == 1
                    &&& list@[0].program_id == program_id
                    &&& list@[0].accounts@ == create_transform_metas(
                        tokenitis_address(program_id).unwrap().0,
                        transform_address(program_id, transform_num).unwrap().0,
                        *creator,
                        args.inputs@,
                        args.outputs@,
                    )
                    &&& list@[0].data@ == enc_instruction(
                        TokenitisInstructionView::CreateTransform(args@),
                    )
                },
                Err(e) => create_transform_error(program_id, transform_num, args@) == Some(e),
            },
    {
        let tokenitis = match Tokenitis::find_tokenitis_address(&program_id) {
            Some((address, _)) => address,
            None => {
                return Err(TokenitisError::InvalidSeeds);
            },
        };
        let transform = match Tokenitis::find_transform_address(&program_id, transform_num) {
            Some((address, _)) => address,
            None => {
                return Err(TokenitisError::InvalidSeeds);
            },
        };
        let system = system_program_id();
        let token = token_program_id();
        proof {
            lemma_address_ext(system, system_program());
            lemma_address_ext(token, token_program());
        }
        let mut accounts: Vec<AccountMeta> = Vec::new();
        accounts.push(AccountMeta { pubkey: system, is_signer: false, is_writable: false });
        accounts.push(AccountMeta { pubkey: token, is_signer: false, is_writable: false });
        accounts.push(AccountMeta { pubkey: tokenitis, is_signer: false, is_writable: true });
        accounts.push(AccountMeta { pubkey: transform, is_signer: false, is_writable: true });
        accounts.push(AccountMeta { pubkey: *creator, is_signer: true, is_writable: true });
        push_mints(&mut accounts, &args.inputs);
        push_vaults(&mut accounts, &args.inputs);
        push_mints(&mut accounts, &args.outputs);
        push_vaults(&mut accounts, &args.outputs);
        assert(accounts@ =~= create_transform_metas(
            tokenitis,
            transform,
            *creator,
            args.inputs@,
            args.outputs@,
        ));
        let data = match TokenitisInstructionType::CreateTransform(args).serialize() {
            Ok(data) => data,
            Err(e) => {
                return Err(e);
            },
        };
        let mut list: Vec<Instruction> = Vec::new();
        list.push(Instruction { program_id, accounts, data });
        Ok(list)
    }

    /// The instruction that swaps the baskets of the transform
    /// `transform_state` for `caller`. Its accounts are the three fixed
    /// ones, then, in ascending order of token type, the caller's accounts
    /// and the vault's for the inputs and those for the outputs, then, where
    /// the transform has a fee, the creator's fee-collection account of every
    /// input leg. The caller's account for each token type is looked up in
    /// `user_inputs` and `user_outputs`, whose first pair for a token type
    /// counts; a token type without one is an `InvalidArgument`.
    pub fn execute_transform(
        program_id: Address,
        caller: &Address,
        transform_state: Transform,
        args: ExecuteTransformArgs,
        user_inputs: Vec<(Address, Address)>,
        user_outputs: Vec<(Address, Address)>,
    ) -> (built: Result<Vec<Instruction>, TokenitisError>)
        ensures
            match built {
                Ok(list) => {
                    &&& first_error(
                        execute_transform_steps(
                            program_id,
                            transform_state@,
                            user_inputs@,
                            user_outputs@,
                        ),
                    ) is Ok
                    &&& list@.len() == 1
                    &&& list@[0].program_id == program_id
                    &&& list@[0].accounts@ == execute_transform_metas(
                        transform_address(program_id, transform_state.id).unwrap().0,
                        *caller,
                        transform_state@,
                        user_inputs@,
                        user_outputs@,
                    )
                    &&& list@[0].data@ == enc_instruction(
                        TokenitisInstructionView::ExecuteTransform(args),
                    )
                },
                Err(e) => first_error(
                    execute_transform_steps(
                        program_id,
                        transform_state@,
                        user_inputs@,
                        user_outputs@,
                    ),
                ) == Err::<(), TokenitisError>(e),
            },
    {
        let ghost steps = execute_transform_steps(
            program_id,
            transform_state@,
            user_inputs@,
            user_outputs@,
        );
        let ghost stored = transform_state@;
        let transform = match Tokenitis::find_transform_address(&program_id, transform_state.id) {
            Some((address, _)) => address,
            None => {
                proof {
                    lemma_first_error_at(steps, 0);
                }
                return Err(TokenitisError::InvalidSeeds);
            },
        };
        let token = token_program_id();
        proof {
            lemma_address_ext(token, token_program());
        }
        let n = transform_state.inputs.len();
        let m = transform_state.outputs.len();
        let charged = transform_state.fee.is_some();
        let mut caller_inputs: Vec<AccountMeta> = Vec::new();
        let mut program_inputs: Vec<AccountMeta> = Vec::new();
        let mut fee_accounts: Vec<AccountMeta> = Vec::new();
        let mut i: usize = 0;
        while i < n
            invariant
                0 <= i <= n,
                n == stored.inputs.len(),
                m == stored.outputs.len(),
                stored == transform_state@,
                charged == (stored.fee is Some),
                steps == execute_transform_steps(program_id, stored, user_inputs@, user_outputs@),
                forall|j: int| 0 <= j < 1 + i ==> (#[trigger] steps[j]) is Ok,
                caller_inputs@ == Seq::new(
                    i as nat,
                    |j: int| writable(first_match(user_inputs@, stored.inputs[j].mint).unwrap()),
                ),
                program_inputs@ == Seq::new(
                    i as nat,
                    |j: int| writable(stored.inputs[j].token.account),
                ),
                fee_accounts@ == Seq::new(
                    if charged {
                        i as nat
                    } else {
                        0nat
                    },
                    |j: int| writable(fee_account(stored.creator, stored.inputs[j].mint).unwrap().0),
                ),
            decreases n - i,
        {
            let leg = transform_state.inputs.leg(i);
            assert(steps[1 + i] == input_step(stored, user_inputs@, i as int));
            let held = match lookup(&user_inputs, &leg.mint) {
                Some(held) => held,
                None => {
                    proof {
                        lemma_first_error_at(steps, 1 + i);
                    }
                    return Err(TokenitisError::InvalidArgument);
                },
            };
            let ghost before = caller_inputs@;
            caller_inputs.push(AccountMeta { pubkey: held, is_signer: false, is_writable: true });
            assert(caller_inputs@ =~= Seq::new(
                (i + 1) as nat,
                |j: int| writable(first_match(user_inputs@, stored.inputs[j].mint).unwrap()),
            ));
            program_inputs.push(
                AccountMeta { pubkey: leg.token.account, is_signer: false, is_writable: true },
            );
            assert(program_inputs@ =~= Seq::new(
                (i + 1) as nat,
                |j: int| writable(stored.inputs[j].token.account),
            ));
            if charged {
                let fee = match find_fee_account(&transform_state.creator, &leg.mint) {
                    Some((address, _)) => address,
                    None => {
                        proof {
                            lemma_first_error_at(steps, 1 + i);
                        }
                        return Err(TokenitisError::InvalidSeeds);
                    },
                };
                fee_accounts.push(AccountMeta { pubkey: fee, is_signer: false, is_writable: true });
                assert(fee_accounts@ =~= Seq::new(
                    (i + 1) as nat,
                    |j: int| writable(fee_account(stored.creator, stored.inputs[j].mint).unwrap().0),
                ));
            }
            i += 1;
        }
        let mut caller_outputs: Vec<AccountMeta> = Vec::new();
        let mut program_outputs: Vec<AccountMeta> = Vec::new();
        let mut k: usize = 0;
        while k < m
            invariant
                0 <= k <= m,
                n == stored.inputs.len(),
                m == stored.outputs.len(),
                stored == transform_state@,
                steps == execute_transform_steps(program_id, stored, user_inputs@, user_outputs@),
                forall|j: int| 0 <= j < 1 + n + k ==> (#[trigger] steps[j]) is Ok,
                caller_outputs@ == Seq::new(
                    k as nat,
                    |j: int| writable(first_match(user_outputs@, stored.outputs[j].mint).unwrap()),
                ),
                program_outputs@ == Seq::new(
                    k as nat,
                    |j: int| writable(stored.outputs[j].token.account),
                ),
            decreases m - k,
        {
            let leg = transform_state.outputs.leg(k);
            assert(steps[1 + n + k] == output_step(stored, user_outputs@, k as int));
            let held = match lookup(&user_outputs, &leg.mint) {
                Some(held) => held,
                None => {
                    proof {
                        lemma_first_error_at(steps, 1 + n + k);
                    }
                    return Err(TokenitisError::InvalidArgument);
                },
            };
            caller_outputs.push(AccountMeta { pubkey: held, is_signer: false, is_writable: true });
            assert(caller_outputs@ =~= Seq::new(
                (k + 1) as nat,
                |j: int| writable(first_match(user_outputs@, stored.outputs[j].mint).unwrap()),
            ));
            program_outputs.push(
                AccountMeta { pubkey: leg.token.account, is_signer: false, is_writable: true },
            );
            assert(program_outputs@ =~= Seq::new(
                (k + 1) as nat,
                |j: int| writable(stored.outputs[j].token.account),
            ));
            k += 1;
        }
        let mut accounts: Vec<AccountMeta> = Vec::new();
        accounts.push(AccountMeta { pubkey: token, is_signer: false, is_writable: false });
        accounts.push(AccountMeta { pubkey: transform, is_signer: false, is_writable: false });
        accounts.push(AccountMeta { pubkey: *caller, is_signer: true, is_writable: false });
        accounts.append(&mut caller_inputs);
        accounts.append(&mut program_inputs);
        accounts.append(&mut caller_outputs);
        accounts.append(&mut program_outputs);
        accounts.append(&mut fee_accounts);
        proof {
            lemma_first_error_none(steps);
            assert(accounts@ =~= execute_transform_metas(
                transform,
                *caller,
                stored,
                user_inputs@,
                user_outputs@,
            ));
        }
        let mut data: Vec<u8> = Vec::new();
        data.push(1u8);
        args.write(&mut data);
        assert(data@ =~= enc_instruction(TokenitisInstructionView::ExecuteTransform(args)));
        let mut list: Vec<Instruction> = Vec::new();
        list.push(Instruction { program_id, accounts, data });
        Ok(list)
    }

    /// The instructions that set up one output leg.
    fn output_leg_setup(
        initializer: &Address,
        spl_token_rent: u64,
        spl_mint_rent: u64,
        leg: &Leg,
        output_supply: &Vec<(Address, u64)>,
    ) -> (built: Result<Vec<Instruction>, TokenitisError>)
        ensures
            listed(
                built,
                output_part(*initializer, spl_token_rent, spl_mint_rent, *leg, output_supply@),
            ),
    {
        let ghost mint_part = mint_setup(leg.mint, *initializer, None, 0, spl_mint_rent);
        let ghost account_part = token_account_setup(
            leg.mint,
            leg.token.account,
            *initializer,
            spl_token_rent,
        );
        let ghost supplied = supply_part(*initializer, *leg, output_supply@);
        let mut list = match InstructionBuilder::create_spl_token_mint(
            &leg.mint,
            initializer,
            None,
            0,
            spl_mint_rent,
        ) {
            Ok(list) => list,
            Err(e) => {
                return Err(e);
            },
        };
        match InstructionBuilder::create_spl_token_account(
            &leg.mint,
            &leg.token.account,
            initializer,
            spl_token_rent,
        ) {
            Ok(more) => {
                append_all(&mut list, more);
            },
            Err(e) => {
                return Err(e);
            },
        }
        assert(join(mint_part, account_part) == Ok::<Seq<InstructionView>, TokenitisError>(
            views(list@),
        ));
        let more = match InstructionBuilder::supply_instructions(initializer, leg, output_supply) {
            Ok(more) => more,
            Err(e) => {
                return Err(e);
            },
        };
        append_all(&mut list, more);
        Ok(list)
    }

    /// The instructions that mint an output leg's whole supply into the
    /// vault's account and then give up the authority to mint.
    fn supply_instructions(
        initializer: &Address,
        leg: &Leg,
        output_supply: &Vec<(Address, u64)>,
    ) -> (built: Result<Vec<Instruction>, TokenitisError>)
        ensures
            listed(built, supply_part(*initializer, *leg, output_supply@)),
    {
        let supply = match lookup(output_supply, &leg.mint) {
            Some(supply) => supply,
            None => {
                return Err(TokenitisError::InvalidArgument);
            },
        };
        let mint_entire_supply = match build_mint_to_checked(
            &leg.mint,
            &leg.token.account,
            initializer,
            supply,
            0,
        ) {
            Some(ix) => ix,
            None => {
                return Err(TokenitisError::IncorrectProgramId);
            },
        };
        let make_fixed_supply = match build_set_authority(
            &leg.mint,
            None,
            AuthorityKind::MintTokens,
            initializer,
        ) {
            Some(ix) => ix,
            None => {
                return Err(TokenitisError::IncorrectProgramId);
            },
        };
        let mut list: Vec<Instruction> = Vec::new();
        list.push(mint_entire_supply);
        list.push(make_fixed_supply);
        assert(views(list@) =~= seq![mint_entire_supply@, make_fixed_supply@]);
        Ok(list)
    }
}

/// The system program's address.
pub open spec fn system_program() -> Address {
    address_of(system_program_bytes())
}

/// An account that an instruction only reads.
pub open spec fn readonly(pubkey: Address) -> AccountMeta {
    AccountMeta { pubkey, is_signer: false, is_writable: false }
}

/// An account that an instruction may change.
pub open spec fn writable(pubkey: Address) -> AccountMeta {
    AccountMeta { pubkey, is_signer: false, is_writable: true }
}

/// The mints of `legs`, read only, in order.
pub open spec fn mint_metas(legs: Seq<Leg>) -> Seq<AccountMeta> {
    Seq::new(legs.len(), |i: int| readonly(legs[i].mint))
}

/// The vault accounts of `legs`, writable, in order.
pub open spec fn vault_metas(legs: Seq<Leg>) -> Seq<AccountMeta> {
    Seq::new(legs.len(), |i: int| writable(legs[i].token.account))
}

/// The accounts that a creation names: the system program, the token
/// program, the registry, the transform, the creator as signer, then the
/// mints and the vault accounts of the inputs and those of the outputs.
pub open spec fn create_transform_metas(
    registry: Address,
    transform: Address,
    creator: Address,
    inputs: Seq<Leg>,
    outputs: Seq<Leg>,
) -> Seq<AccountMeta> {
    seq![
        readonly(system_program()),
        readonly(token_program()),
        writable(registry),
        writable(transform),
        AccountMeta { pubkey: creator, is_signer: true, is_writable: true },
    ] + mint_metas(inputs) + vault_metas(inputs) + mint_metas(outputs) + vault_metas(outputs)
}

/// Why no creation can be built, if none can: an address cannot be derived,
/// or the arguments have no encoded form.
pub open spec fn create_transform_error(
    program_id: Address,
    transform_num: u64,
    args: CreateTransformArgsView,
) -> Option<TokenitisError> {
    if tokenitis_address(program_id) is None || transform_address(program_id, transform_num)
        is None {
        Some(TokenitisError::InvalidSeeds)
    } else if !args_encodable(args) {
        Some(TokenitisError::BorshIoError)
    } else {
        None
    }
}

/// The outcome of lining up the input leg at place `i` of a swap: the caller
/// must have an account for it and, where the transform has a fee, the
/// creator's fee account must have an address.
pub open spec fn input_step(stored: TransformView, user_inputs: Seq<(Address, Address)>, i: int)
    -> Result<(), TokenitisError> {
    if first_match(user_inputs, stored.inputs[i].mint) is None {
        Err(TokenitisError::InvalidArgument)
    } else if stored.fee is Some && fee_account(stored.creator, stored.inputs[i].mint) is None {
        Err(TokenitisError::InvalidSeeds)
    } else {
        Ok(())
    }
}

/// The outcome of lining up the output leg at place `i` of a swap: the
/// caller must have an account for it.
pub open spec fn output_step(stored: TransformView, user_outputs: Seq<(Address, Address)>, i: int)
    -> Result<(), TokenitisError> {
    if first_match(user_outputs, stored.outputs[i].mint) is None {
        Err(TokenitisError::InvalidArgument)
    } else {
        Ok(())
    }
}

/// The steps of building a swap, in order: deriving the transform's address,
/// then lining up every input leg and every output leg.
pub open spec fn execute_transform_steps(
    program_id: Address,
    stored: TransformView,
    user_inputs: Seq<(Address, Address)>,
    user_outputs: Seq<(Address, Address)>,
) -> Seq<Result<(), TokenitisError>> {
    let n = stored.inputs.len() as int;
    let m = stored.outputs.len() as int;
    Seq::new(
        (1 + n + m) as nat,
        |j: int|
            if j == 0 {
                if transform_address(program_id, stored.id) is Some {
                    Ok(())
                } else {
                    Err(TokenitisError::InvalidSeeds)
                }
            } else if j < 1 + n {
                input_step(stored, user_inputs, j - 1)
            } else {
                output_step(stored, user_outputs, j - 1 - n)
            },
    )
}

/// The accounts that a swap names: the token program, the transform, the
/// caller as signer, then the caller's accounts and the vault's for the
/// inputs and those for the outputs, then the creator's fee accounts where
/// the transform has a fee.
pub open spec fn execute_transform_metas(
    transform: Address,
    caller: Address,
    stored: TransformView,
    user_inputs: Seq<(Address, Address)>,
    user_outputs: Seq<(Address, Address)>,
) -> Seq<AccountMeta> {
    seq![
        readonly(token_program()),
        readonly(transform),
        AccountMeta { pubkey: caller, is_signer: true, is_writable: false },
    ] + Seq::new(
        stored.inputs.len(),
        |j: int| writable(first_match(user_inputs, stored.inputs[j].mint).unwrap()),
    ) + vault_metas(stored.inputs) + Seq::new(
        stored.outputs.len(),
        |j: int| writable(first_match(user_outputs, stored.outputs[j].mint).unwrap()),
    ) + vault_metas(stored.outputs) + Seq::new(
        if stored.fee is Some {
            stored.inputs.len()
        } else {
            0nat
        },
        |j: int| writable(fee_account(stored.creator, stored.inputs[j].mint).unwrap().0),
    )
}

/// Appends the mints of the basket, read only.
fn push_mints(accounts: &mut Vec<AccountMeta>, basket: &Basket)
    ensures
        final(accounts)@ == old(accounts)@ + mint_metas(basket@),
{
    let n = basket.len();
    let mut i: usize = 0;
    assert(accounts@ =~= old(accounts)@ + mint_metas(basket@).take(0));
    while i < n
        invariant
            0 <= i <= n,
            n == basket@.len(),
            accounts@ == old(accounts)@ + mint_metas(basket@).take(i as int),
        decreases n - i,
    {
        accounts.push(
            AccountMeta { pubkey: basket.leg(i).mint, is_signer: false, is_writable: false },
        );
        assert(accounts@ =~= old(accounts)@ + mint_metas(basket@).take(i + 1));
        i += 1;
    }
    assert(mint_metas(basket@).take(n as int) =~= mint_metas(basket@));
}

/// Appends the vault accounts of the basket, writable.
fn push_vaults(accounts: &mut Vec<AccountMeta>, basket: &Basket)
    ensures
        final(accounts)@ == old(accounts)@ + vault_metas(basket@),
{
    let n = basket.len();
    let mut i: usize = 0;
    assert(accounts@ =~= old(accounts)@ + vault_metas(basket@).take(0));
    while i < n
        invariant
            0 <= i <= n,
            n == basket@.len(),
            accounts@ == old(accounts)@ + vault_metas(basket@).take(i as int),
        decreases n - i,
    {
        accounts.push(
            AccountMeta {
                pubkey: basket.leg(i).token.account,
                is_signer: false,
                is_writable: true,
            },
        );
        assert(accounts@ =~= old(accounts)@ + vault_metas(basket@).take(i + 1));
        i += 1;
    }
    assert(vault_metas(basket@).take(n as int) =~= vault_metas(basket@));
}

/// `built` is the list of instructions that `wanted` prescribes, or its error.
pub open spec fn listed(
    built: Result<Vec<Instruction>, TokenitisError>,
    wanted: Result<Seq<InstructionView>, TokenitisError>,
) -> bool {
    match built {
        Ok(list) => wanted == Ok::<Seq<InstructionView>, TokenitisError>(views(list@)),
        Err(e) => wanted == Err::<Seq<InstructionView>, TokenitisError>(e),
    }
}

/// Two lists in a row, or the first error.
pub open spec fn join(
    first: Result<Seq<InstructionView>, TokenitisError>,
    second: Result<Seq<InstructionView>, TokenitisError>,
) -> Result<Seq<InstructionView>, TokenitisError> {
    match first {
        Err(e) => Err(e),
        Ok(a) => match second {
            Err(e) => Err(e),
            Ok(b) => Ok(a + b),
        },
    }
}

/// The lists of `parts` in a row, or the first error among them.
pub open spec fn gather(parts: Seq<Result<Seq<InstructionView>, TokenitisError>>) -> Result<
    Seq<InstructionView>,
    TokenitisError,
>
    decreases parts.len(),
{
    if parts.len() == 0 {
        Ok(Seq::<InstructionView>::empty())
    } else {
        join(gather(parts.drop_last()), parts.last())
    }
}

/// For every input leg, the setup of the vault's account for it.
pub open spec fn input_parts(initializer: Address, rent: u64, legs: Seq<Leg>) -> Seq<
    Result<Seq<InstructionView>, TokenitisError>,
> {
    Seq::new(
        legs.len(),
        |i: int| token_account_setup(legs[i].mint, legs[i].token.account, initializer, rent),
    )
}

/// For every input leg, the creation of the creator's fee-collection account
/// for it; `InvalidSeeds` where that account has no address.
pub open spec fn fee_parts(funding: Address, creator: Address, legs: Seq<Leg>) -> Seq<
    Result<Seq<InstructionView>, TokenitisError>,
> {
    Seq::new(
        legs.len(),
        |i: int|
            if fee_account(creator, legs[i].mint) is Some {
                Ok(seq![associated_create_account(funding, creator, legs[i].mint)])
            } else {
                Err(TokenitisError::InvalidSeeds)
            },
    )
}

/// The first value paired with `mint` in `pairs`.
pub open spec fn first_match<V>(pairs: Seq<(Address, V)>, mint: Address) -> Option<V>
    decreases pairs.len(),
{
    if pairs.len() == 0 {
        None
    } else if pairs[0].0 == mint {
        Some(pairs[0].1)
    } else {
        first_match(pairs.skip(1), mint)
    }
}

/// The minting of an output leg's whole supply into the vault's account,
/// followed by the giving up of the authority to mint.
pub open spec fn supply_part(initializer: Address, leg: Leg, supplies: Seq<(Address, u64)>)
    -> Result<Seq<InstructionView>, TokenitisError> {
    match first_match(supplies, leg.mint) {
        None => Err(TokenitisError::InvalidArgument),
        Some(supply) => match token_mint_to_checked(
            leg.mint,
            leg.token.account,
            initializer,
            supply,
            0,
        ) {
            None => Err(TokenitisError::IncorrectProgramId),
            Some(mint_to) => match token_set_authority(
                leg.mint,
                None,
                AuthorityKind::MintTokens,
                initializer,
            ) {
                None => Err(TokenitisError::IncorrectProgramId),
                Some(fix) => Ok(seq![mint_to, fix]),
            },
        },
    }
}

/// The setup of one output leg: its token type, the vault's account, then
/// the supply.
pub open spec fn output_part(
    initializer: Address,
    token_rent: u64,
    mint_rent: u64,
    leg: Leg,
    supplies: Seq<(Address, u64)>,
) -> Result<Seq<InstructionView>, TokenitisError> {
    join(
        join(
            mint_setup(leg.mint, initializer, None, 0, mint_rent),
            token_account_setup(leg.mint, leg.token.account, initializer, token_rent),
        ),
        supply_part(initializer, leg, supplies),
    )
}

/// For every output leg, its setup.
pub open spec fn output_parts(
    initializer: Address,
    token_rent: u64,
    mint_rent: u64,
    legs: Seq<Leg>,
    supplies: Seq<(Address, u64)>,
) -> Seq<Result<Seq<InstructionView>, TokenitisError>> {
    Seq::new(
        legs.len(),
        |i: int| output_part(initializer, token_rent, mint_rent, legs[i], supplies),
    )
}

/// Gathering one part more joins it to what was gathered.
pub proof fn lemma_gather_step(parts: Seq<Result<Seq<InstructionView>, TokenitisError>>, k: int)
    requires
        0 <= k < parts.len(),
    ensures
        gather(parts.take(k + 1)) == join(gather(parts.take(k)), parts[k]),
{
    assert(parts.take(k + 1).drop_last() =~= parts.take(k));
}

/// Once gathering has met an error, the error stays.
pub proof fn lemma_gather_error(parts: Seq<Result<Seq<InstructionView>, TokenitisError>>, k: int)
    requires
        0 <= k <= parts.len(),
        gather(parts.take(k)) is Err,
    ensures
        gather(parts) == gather(parts.take(k)),
    decreases parts.len() - k,
{
    if k < parts.len() {
        lemma_gather_step(parts, k);
        lemma_gather_error(parts, k + 1);
    } else {
        assert(parts.take(k) =~= parts);
    }
}

/// Moves the instructions of `more` to the end of `list`.
fn append_all(list: &mut Vec<Instruction>, more: Vec<Instruction>)
    ensures
        views(final(list)@) == views(old(list)@) + views(more@),
{
    let ghost added = more@;
    let mut more = more;
    list.append(&mut more);
    assert(views(list@) =~= views(old(list)@) + views(added));
}

/// Looks up the first value paired with `mint`.
pub fn lookup<V: Copy>(pairs: &Vec<(Address, V)>, mint: &Address) -> (found: Option<V>)
    ensures
        found == first_match(pairs@, *mint),
{
    let mut i: usize = 0;
    assert(pairs@.skip(0) =~= pairs@);
    while i < pairs.len()
        invariant
            0 <= i <= pairs@.len(),
            first_match(pairs@, *mint) == first_match(pairs@.skip(i as int), *mint),
        decreases pairs@.len() - i,
    {
        if pairs[i].0.same(mint) {
            return Some(pairs[i].1);
        }
        assert(pairs@.skip(i as int).skip(1) =~= pairs@.skip(i + 1));
        i += 1;
    }
    None
}

/// The accounts of `list` stand at the addresses that `metas` names, in order.
pub open spec fn stand_at(list: Seq<Account>, metas: Seq<AccountMeta>) -> bool {
    &&& list.len() == metas.len()
    &&& forall|i: int| 0 <= i < list.len() ==> (#[trigger] list[i]).key == metas[i].pubkey
}

/// The accounts that a built creation names line up with what the program
/// checks: assigned to their roles in the order built, they are the two
/// programs and the registry, every leg has the mint and the vault account
/// of its basket entry, and the transform is at the address derived for the
/// id that was built for, which passes where that id follows the counter.
pub proof fn lemma_built_creation_lines_up(
    creation: CreateTransform,
    list: Seq<Account>,
    creator: Address,
    transform_num: u64,
)
    requires
        creation.wf(),
        tokenitis_address(creation.program_id) is Some,
        transform_address(creation.program_id, transform_num) is Some,
        creation.accounts.laid_out(
            list,
            creation.args.inputs@.len() as int,
            creation.args.outputs@.len() as int,
        ),
        stand_at(
            list,
            create_transform_metas(
                tokenitis_address(creation.program_id).unwrap().0,
                transform_address(creation.program_id, transform_num).unwrap().0,
                creator,
                creation.args.inputs@,
                creation.args.outputs@,
            ),
        ),
    ensures
        creation.programs_verdict() is Ok,
        creation.registry_verdict() is Ok,
        creation.accounts.creator.key == creator,
        derived_verdict(
            transform_address(creation.program_id, transform_num),
            creation.accounts.transform.key,
        ) is Ok,
        forall|i: int|
            0 <= i < creation.args.inputs@.len() ==> (
            #[trigger] creation.accounts.input_mints@[i]).key == creation.args.inputs@[i].mint,
        forall|i: int|
            0 <= i < creation.args.inputs@.len() ==> (#[trigger] creation.accounts.inputs@[i]).key
                == creation.args.inputs@[i].token.account,
        forall|i: int|
            0 <= i < creation.args.outputs@.len() ==> (
            #[trigger] creation.accounts.output_mints@[i]).key == creation.args.outputs@[i].mint,
        forall|i: int|
            0 <= i < creation.args.outputs@.len() ==> (
            #[trigger] creation.accounts.outputs@[i]).key
                == creation.args.outputs@[i].token.account,
{
    let n = creation.args.inputs@.len() as int;
    let m = creation.args.outputs@.len() as int;
    let metas = create_transform_metas(
        tokenitis_address(creation.program_id).unwrap().0,
        transform_address(creation.program_id, transform_num).unwrap().0,
        creator,
        creation.args.inputs@,
        creation.args.outputs@,
    );
    assert(list[0].key == metas[0].pubkey);
    assert(list[1].key == metas[1].pubkey);
    assert(list[2].key == metas[2].pubkey);
    assert(list[3].key == metas[3].pubkey);
    assert(list[4].key == metas[4].pubkey);
    lemma_address_of(system_program_bytes());
    lemma_address_of(token_program_bytes());
    assert forall|i: int| 0 <= i < n implies (#[trigger] creation.accounts.input_mints@[i]).key
        == creation.args.inputs@[i].mint by {
        assert(list[5 + i].key == metas[5 + i].pubkey);
    }
    assert forall|i: int| 0 <= i < n implies (#[trigger] creation.accounts.inputs@[i]).key
        == creation.args.inputs@[i].token.account by {
        assert(list[5 + n + i].key == metas[5 + n + i].pubkey);
    }
    assert forall|i: int| 0 <= i < m implies (#[trigger] creation.accounts.output_mints@[i]).key
        == creation.args.outputs@[i].mint by {
        assert(list[5 + 2 * n + i].key == metas[5 + 2 * n + i].pubkey);
    }
    assert forall|i: int| 0 <= i < m implies (#[trigger] creation.accounts.outputs@[i]).key
        == creation.args.outputs@[i].token.account by {
        assert(list[5 + 2 * n + m + i].key == metas[5 + 2 * n + m + i].pubkey);
    }
}

/// The accounts that a built swap names line up with what the program
/// checks: assigned to their roles in the order built, they are the token
/// program and the transform at its derived address, and every leg has the
/// vault account that the transform stores for it and the caller's account
/// that was looked up for its token type.
pub proof fn lemma_built_swap_lines_up(
    swap: ExecuteTransform,
    list: Seq<Account>,
    caller: Address,
    user_inputs: Seq<(Address, Address)>,
    user_outputs: Seq<(Address, Address)>,
)
    requires
        take_transform(swap.accounts.transform.data@) is Some,
        transform_address(swap.program_id, swap.stored().id) is Some,
        swap.accounts.laid_out(
            list,
            swap.stored().inputs.len() as int,
            swap.stored().outputs.len() as int,
        ),
        list.len() >= execute_transform_metas(
            transform_address(swap.program_id, swap.stored().id).unwrap().0,
            caller,
            swap.stored(),
            user_inputs,
            user_outputs,
        ).len(),
        stand_at(
            list.take(
                execute_transform_metas(
                    transform_address(swap.program_id, swap.stored().id).unwrap().0,
                    caller,
                    swap.stored(),
                    user_inputs,
                    user_outputs,
                ).len() as int,
            ),
            execute_transform_metas(
                transform_address(swap.program_id, swap.stored().id).unwrap().0,
                caller,
                swap.stored(),
                user_inputs,
                user_outputs,
            ),
        ),
    ensures
        swap.program_verdict() is Ok,
        swap.transform_verdict() is Ok,
        swap.accounts.caller.key == caller,
        forall|i: int|
            0 <= i < swap.stored().inputs.len() ==> (#[trigger] swap.accounts.inputs@[i]).key
                == swap.stored().inputs[i].token.account,
        forall|i: int|
            0 <= i < swap.stored().inputs.len() ==> (#[trigger] swap.accounts.caller_inputs@[i]).key
                == first_match(user_inputs, swap.stored().inputs[i].mint).unwrap(),
        forall|i: int|
            0 <= i < swap.stored().outputs.len() ==> (#[trigger] swap.accounts.outputs@[i]).key
                == swap.stored().outputs[i].token.account,
        forall|i: int|
            0 <= i < swap.stored().outputs.len() ==> (
            #[trigger] swap.accounts.caller_outputs@[i]).key == first_match(
                user_outputs,
                swap.stored().outputs[i].mint,
            ).unwrap(),
{
    let stored = swap.stored();
    let n = stored.inputs.len() as int;
    let m = stored.outputs.len() as int;
    let metas = execute_transform_metas(
        transform_address(swap.program_id, stored.id).unwrap().0,
        caller,
        stored,
        user_inputs,
        user_outputs,
    );
    let named = list.take(metas.len() as int);
    assert(named[0].key == metas[0].pubkey);
    assert(named[1].key == metas[1].pubkey);
    assert(named[2].key == metas[2].pubkey);
    lemma_address_of(token_program_bytes());
    assert forall|i: int| 0 <= i < n implies (#[trigger] swap.accounts.inputs@[i]).key
        == stored.inputs[i].token.account by {
        assert(named[3 + n + i].key == metas[3 + n + i].pubkey);
    }
    assert forall|i: int| 0 <= i < n implies (#[trigger] swap.accounts.caller_inputs@[i]).key
        == first_match(user_inputs, stored.inputs[i].mint).unwrap() by {
        assert(named[3 + i].key == metas[3 + i].pubkey);
    }
    assert forall|i: int| 0 <= i < m implies (#[trigger] swap.accounts.outputs@[i]).key
        == stored.outputs[i].token.account by {
        assert(named[3 + 2 * n + m + i].key == metas[3 + 2 * n + m + i].pubkey);
    }
    assert forall|i: int| 0 <= i < m implies (#[trigger] swap.accounts.caller_outputs@[i]).key
        == first_match(user_outputs, stored.outputs[i].mint).unwrap() by {
        assert(named[3 + 2 * n + i].key == metas[3 + 2 * n + i].pubkey);
    }
}

} // verus!
