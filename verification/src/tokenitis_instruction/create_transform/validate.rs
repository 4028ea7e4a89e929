use crate::address::{lex_lt, Address};
use crate::basket::{Basket, Leg};
use crate::derivation::{
    system_program_bytes, system_program_id, token_program_bytes, token_program_id,
};
use crate::errors::{
    first_error, lemma_first_error_at, lemma_first_error_none, lemma_first_error_ok,
    TokenitisError, MAX_STRING_SIZE,
};
use crate::state::{
    distinct_accounts, fee_in_range, metadata_fits, next_id, positive_amounts, take_transform,
    tokenitis_address, transform_address, Tokenitis, Transform,
};
use crate::token::{
    mint_unpacked, token_account_unpacked, unpack_mint, unpack_token_account, AccountState, Mint,
    TokenAccount,
};
use crate::tokenitis_instruction::create_transform::CreateTransform;
use vstd::prelude::*;

verus! {

/// The outcome of comparing a supplied address with the one derived for its
/// role: `InvalidSeeds` where none can be derived, `InvalidArgument` where
/// the two differ.
pub open spec fn derived_verdict(derived: Option<(Address, u8)>, supplied: Address) -> Result<
    (),
    TokenitisError,
> {
    match derived {
        None => Err(TokenitisError::InvalidSeeds),
        Some((address, _)) => if address == supplied {
            Ok(())
        } else {
            Err(TokenitisError::InvalidArgument)
        },
    }
}

/// The outcome of looking at the account at a transform's address before
/// creation: an empty account is free; one that holds an initialized transform
/// is taken; contents that do not decode are an error.
pub open spec fn fresh_verdict(data: Seq<u8>) -> Result<(), TokenitisError> {
    if data.len() == 0 {
        Ok(())
    } else {
        match take_transform(data) {
            None => Err(TokenitisError::BorshIoError),
            Some((stored, _)) => if stored.initialized {
                Err(TokenitisError::AccountAlreadyInitialized)
            } else {
                Ok(())
            },
        }
    }
}

/// The outcome of looking at a vault's token account: it must hold the leg's
/// token type (else `InvalidArgument`), be in the initialized state and have
/// neither a close authority nor a delegate (else `InvalidAccountData`).
pub open spec fn vault_verdict(vault: TokenAccount, mint_key: Address) -> Result<
    (),
    TokenitisError,
> {
    if vault.mint != mint_key {
        Err(TokenitisError::InvalidArgument)
    } else if vault.state != AccountState::Initialized || vault.close_authority is Some
        || vault.delegate is Some {
        Err(TokenitisError::InvalidAccountData)
    } else {
        Ok(())
    }
}

/// The outcome of looking at an input leg's token type: it must be
/// initialized and have no freeze authority.
pub open spec fn input_mint_verdict(mint: Mint) -> Result<(), TokenitisError> {
    if !mint.is_initialized || mint.freeze_authority is Some {
        Err(TokenitisError::InvalidAccountData)
    } else {
        Ok(())
    }
}

/// The outcome of looking at an output leg's token type: it must be
/// initialized and have neither a freeze authority nor a mint authority, so
/// that its supply is fixed for good.
pub open spec fn output_mint_verdict(mint: Mint) -> Result<(), TokenitisError> {
    if !mint.is_initialized || mint.freeze_authority is Some || mint.mint_authority is Some {
        Err(TokenitisError::InvalidAccountData)
    } else {
        Ok(())
    }
}

/// The outcome of checking one input leg, given what the token service reads
/// from the vault account and from the mint account.
///
/// The supplied addresses must be those of the basket entry at the same place
/// (else `InvalidInstructionData`); then the vault account is looked at, then
/// the mint. What the token service rejects is reported with its own error.
pub open spec fn input_leg_verdict(
    leg: Leg,
    mint_key: Address,
    vault_key: Address,
    vault: Result<TokenAccount, TokenitisError>,
    mint: Result<Mint, TokenitisError>,
) -> Result<(), TokenitisError> {
    if mint_key != leg.mint || vault_key != leg.token.account {
        Err(TokenitisError::InvalidInstructionData)
    } else {
        match vault {
            Err(e) => Err(e),
            Ok(vault) => match vault_verdict(vault, mint_key) {
                Err(e) => Err(e),
                Ok(()) => match mint {
                    Err(e) => Err(e),
                    Ok(mint) => input_mint_verdict(mint),
                },
            },
        }
    }
}

/// The outcome of checking one output leg, given what the token service reads
/// from the vault account and from the mint account.
///
/// The supplied addresses must be those of the basket entry at the same place
/// (else `InvalidInstructionData`); then the mint is looked at, then the vault
/// account, which must hold the mint's whole supply (else `InvalidArgument`).
pub open spec fn output_leg_verdict(
    leg: Leg,
    mint_key: Address,
    vault_key: Address,
    vault: Result<TokenAccount, TokenitisError>,
    mint: Result<Mint, TokenitisError>,
) -> Result<(), TokenitisError> {
    if mint_key != leg.mint || vault_key != leg.token.account {
        Err(TokenitisError::InvalidInstructionData)
    } else {
        match mint {
            Err(e) => Err(e),
            Ok(mint) => match output_mint_verdict(mint) {
                Err(e) => Err(e),
                Ok(()) => match vault {
                    Err(e) => Err(e),
                    Ok(vault) => match vault_verdict(vault, mint_key) {
                        Err(e) => Err(e),
                        Ok(()) => if vault.amount != mint.supply {
                            Err(TokenitisError::InvalidArgument)
                        } else {
                            Ok(())
                        },
                    },
                },
            },
        }
    }
}

/// Compares a supplied address with the one derived for its role.
pub fn check_derived(derived: Option<(Address, u8)>, supplied: &Address) -> (verdict: Result<
    (),
    TokenitisError,
>)
    ensures
        verdict == derived_verdict(derived, *supplied),
{
    match derived {
        None => Err(TokenitisError::InvalidSeeds),
        Some((address, _)) => if address.same(supplied) {
            Ok(())
        } else {
            Err(TokenitisError::InvalidArgument)
        },
    }
}

/// Looks at the account at a transform's address before creation.
pub fn check_fresh(data: &[u8]) -> (verdict: Result<(), TokenitisError>)
    ensures
        verdict == fresh_verdict(data@),
{
    if data.len() == 0 {
        return Ok(());
    }
    match Transform::deserialize(data) {
        Err(e) => Err(e),
        Ok(stored) => if stored.initialized {
            Err(TokenitisError::AccountAlreadyInitialized)
        } else {
            Ok(())
        },
    }
}

/// Looks at a vault's token account.
pub fn check_vault(vault: &TokenAccount, mint_key: &Address) -> (verdict: Result<
    (),
    TokenitisError,
>)
    ensures
        verdict == vault_verdict(*vault, *mint_key),
{
    if !vault.mint.same(mint_key) {
        Err(TokenitisError::InvalidArgument)
    } else if vault.state != AccountState::Initialized || vault.close_authority.is_some()
        || vault.delegate.is_some() {
        Err(TokenitisError::InvalidAccountData)
    } else {
        Ok(())
    }
}

/// Checks one input leg, given what the token service reads from the vault
/// account and from the mint account.
pub fn check_input_leg(
    leg: &Leg,
    mint_key: &Address,
    vault_key: &Address,
    vault: Result<TokenAccount, TokenitisError>,
    mint: Result<Mint, TokenitisError>,
) -> (verdict: Result<(), TokenitisError>)
    ensures
        verdict == input_leg_verdict(*leg, *mint_key, *vault_key, vault, mint),
{
    if !mint_key.same(&leg.mint) || !vault_key.same(&leg.token.account) {
        return Err(TokenitisError::InvalidInstructionData);
    }
    let vault = match vault {
        Ok(vault) => vault,
        Err(e) => {
            return Err(e);
        },
    };
    match check_vault(&vault, mint_key) {
        Ok(()) => {},
        Err(e) => {
            return Err(e);
        },
    }
    let mint = match mint {
        Ok(mint) => mint,
        Err(e) => {
            return Err(e);
        },
    };
    if !mint.is_initialized || mint.freeze_authority.is_some() {
        Err(TokenitisError::InvalidAccountData)
    } else {
        Ok(())
    }
}

/// Checks one output leg, given what the token service reads from the vault
/// account and from the mint account.
pub fn check_output_leg(
    leg: &Leg,
    mint_key: &Address,
    vault_key: &Address,
    vault: Result<TokenAccount, TokenitisError>,
    mint: Result<Mint, TokenitisError>,
) -> (verdict: Result<(), TokenitisError>)
    ensures
        verdict == output_leg_verdict(*leg, *mint_key, *vault_key, vault, mint),
{
    if !mint_key.same(&leg.mint) || !vault_key.same(&leg.token.account) {
        return Err(TokenitisError::InvalidInstructionData);
    }
    let mint = match mint {
        Ok(mint) => mint,
        Err(e) => {
            return Err(e);
        },
    };
    if !mint.is_initialized || mint.freeze_authority.is_some() || mint.mint_authority.is_some() {
        return Err(TokenitisError::InvalidAccountData);
    }
    let vault = match vault {
        Ok(vault) => vault,
        Err(e) => {
            return Err(e);
        },
    };
    match check_vault(&vault, mint_key) {
        Ok(()) => {},
        Err(e) => {
            return Err(e);
        },
    }
    if vault.amount != mint.supply {
        Err(TokenitisError::InvalidArgument)
    } else {
        Ok(())
    }
}

/// Whether every entry of the basket exchanges a positive amount.
pub fn amounts_positive(basket: &Basket) -> (positive: bool)
    ensures
        positive == positive_amounts(basket@),
{
    let n = basket.len();
    let mut i: usize = 0;
    while i < n
        invariant
            0 <= i <= n,
            n == basket@.len(),
            forall|j: int| 0 <= j < i ==> (#[trigger] basket@[j]).token.amount > 0,
        decreases n - i,
    {
        if basket.leg(i).token.amount == 0 {
            return false;
        }
        i += 1;
    }
    true
}

/// Whether one of the first `upto` entries of `legs` is held in `account`.
pub open spec fn held_before(legs: Seq<Leg>, upto: int, account: Address) -> bool {
    exists|a: int| 0 <= a < upto && (#[trigger] legs[a]).token.account == account
}

/// Whether one of the first `upto` entries of the basket is held in `account`.
fn is_held_before(basket: &Basket, upto: usize, account: &Address) -> (held: bool)
    requires
        upto <= basket@.len(),
    ensures
        held == held_before(basket@, upto as int, *account),
{
    let mut i: usize = 0;
    while i < upto
        invariant
            0 <= i <= upto <= basket@.len(),
            !held_before(basket@, i as int, *account),
        decreases upto - i,
    {
        if basket.leg(i).token.account.same(account) {
            assert(basket@[i as int].token.account == *account);
            return true;
        }
        i += 1;
    }
    false
}

/// Whether no holding account serves two legs of the two baskets.
pub fn accounts_distinct(inputs: &Basket, outputs: &Basket) -> (distinct: bool)
    ensures
        distinct == distinct_accounts(inputs@ + outputs@),
{
    let ghost all = inputs@ + outputs@;
    let n = inputs.len();
    let m = outputs.len();
    let mut j: usize = 0;
    while j < n
        invariant
            0 <= j <= n,
            n == inputs@.len(),
            all == inputs@ + outputs@,
            forall|a: int, b: int|
                #![trigger all[a], all[b]]
                0 <= a < b < j ==> all[a].token.account != all[b].token.account,
        decreases n - j,
    {
        let later = inputs.leg(j);
        if is_held_before(inputs, j, &later.token.account) {
            proof {
                let a = choose|a: int|
                    0 <= a < j && (#[trigger] inputs@[a]).token.account == later.token.account;
                assert(all[a].token.account == all[j as int].token.account);
            }
            return false;
        }
        assert forall|a: int, b: int|
            #![trigger all[a], all[b]]
            0 <= a < b < j + 1 implies all[a].token.account != all[b].token.account by {
            if b == j {
                assert(inputs@[a].token.account != later.token.account);
            }
        }
        j += 1;
    }
    let mut k: usize = 0;
    while k < m
        invariant
            0 <= k <= m,
            n == inputs@.len(),
            m == outputs@.len(),
            all == inputs@ + outputs@,
            forall|a: int, b: int|
                #![trigger all[a], all[b]]
                0 <= a < b < n + k ==> all[a].token.account != all[b].token.account,
        decreases m - k,
    {
        let later = outputs.leg(k);
        if is_held_before(inputs, n, &later.token.account) {
            proof {
                let a = choose|a: int|
                    0 <= a < n && (#[trigger] inputs@[a]).token.account == later.token.account;
                assert(all[a].token.account == all[n + k].token.account);
            }
            return false;
        }
        if is_held_before(outputs, k, &later.token.account) {
            proof {
                let a = choose|a: int|
                    0 <= a < k && (#[trigger] outputs@[a]).token.account == later.token.account;
                assert(all[n + a].token.account == all[n + k].token.account);
            }
            return false;
        }
        assert forall|a: int, b: int|
            #![trigger all[a], all[b]]
            0 <= a < b < n + k + 1 implies all[a].token.account != all[b].token.account by {
            if b == n + k {
                if a < n {
                    assert(inputs@[a].token.account != later.token.account);
                } else {
                    assert(outputs@[a - n].token.account != later.token.account);
                }
            }
        }
        k += 1;
    }
    true
}

impl<'a> CreateTransform<'a> {
    /// The arguments are well formed: short texts, a fee that is a
    /// percentage, positive amounts and no holding account used twice.
    pub open spec fn args_verdict(&self) -> Result<(), TokenitisError> {
        if metadata_fits(self.args.metadata.name@, self.args.metadata.image@) && fee_in_range(
            self.args.fee,
        ) && positive_amounts(self.args.inputs@) && positive_amounts(self.args.outputs@)
            && distinct_accounts(self.args.inputs@ + self.args.outputs@) {
            Ok(())
        } else {
            Err(TokenitisError::InvalidInstructionData)
        }
    }

    /// The accounts supplied as the system program and the token program are those.
    pub open spec fn programs_verdict(&self) -> Result<(), TokenitisError> {
        if self.accounts.system_program.key@ == system_program_bytes()
            && self.accounts.token_program.key@ == token_program_bytes() {
            Ok(())
        } else {
            Err(TokenitisError::InvalidArgument)
        }
    }

    /// The registry account is at the registry's derived address.
    pub open spec fn registry_verdict(&self) -> Result<(), TokenitisError> {
        derived_verdict(tokenitis_address(self.program_id), self.accounts.tokenitis.key)
    }

    /// The transform account is at the address derived for the next id, and
    /// holds no initialized transform yet.
    pub open spec fn transform_verdict(&self) -> Result<(), TokenitisError> {
        match next_id(self.accounts.tokenitis.data@) {
            Err(e) => Err(e),
            Ok(id) => match derived_verdict(
                transform_address(self.program_id, id),
                self.accounts.transform.key,
            ) {
                Err(e) => Err(e),
                Ok(()) => fresh_verdict(self.accounts.transform.data@),
            },
        }
    }

    /// The outcome of checking the input leg at place `i`.
    pub open spec fn input_verdict(&self, i: int) -> Result<(), TokenitisError> {
        input_leg_verdict(
            self.args.inputs@[i],
            self.accounts.input_mints@[i].key,
            self.accounts.inputs@[i].key,
            token_account_unpacked(self.accounts.inputs@[i].data@),
            mint_unpacked(self.accounts.input_mints@[i].data@),
        )
    }

    /// The outcome of checking the output leg at place `i`.
    pub open spec fn output_verdict(&self, i: int) -> Result<(), TokenitisError> {
        output_leg_verdict(
            self.args.outputs@[i],
            self.accounts.output_mints@[i].key,
            self.accounts.outputs@[i].key,
            token_account_unpacked(self.accounts.outputs@[i].data@),
            mint_unpacked(self.accounts.output_mints@[i].data@),
        )
    }

    /// The outcomes of checking the legs: the inputs in order, then the outputs.
    pub open spec fn leg_verdicts(&self) -> Seq<Result<(), TokenitisError>> {
        Seq::new(self.args.inputs@.len(), |i: int| self.input_verdict(i)) + Seq::new(
            self.args.outputs@.len(),
            |i: int| self.output_verdict(i),
        )
    }

    /// The outcome of validation: that of the first check that fails, the
    /// checks being made in this order: the arguments, the two programs, the
    /// registry's address, the transform's address, then the legs.
    pub open spec fn verdict(&self) -> Result<(), TokenitisError> {
        first_error(
            seq![
                self.args_verdict(),
                self.programs_verdict(),
                self.registry_verdict(),
                self.transform_verdict(),
                first_error(self.leg_verdicts()),
            ],
        )
    }

    /// Checks the arguments.
    pub fn validate_args(&self) -> (verdict: Result<(), TokenitisError>)
        requires
            self.wf(),
        ensures
            verdict == self.args_verdict(),
    {
        let name = self.args.metadata.name.as_str().as_bytes();
        let image = self.args.metadata.image.as_str().as_bytes();
        if name.len() as u64 > MAX_STRING_SIZE || image.len() as u64 > MAX_STRING_SIZE {
            return Err(TokenitisError::InvalidInstructionData);
        }
        match self.args.fee {
            Some(percent) => {
                if percent > 100 {
                    return Err(TokenitisError::InvalidInstructionData);
                }
            },
            None => {},
        }
        if !amounts_positive(&self.args.inputs) || !amounts_positive(&self.args.outputs) {
            return Err(TokenitisError::InvalidInstructionData);
        }
        if !accounts_distinct(&self.args.inputs, &self.args.outputs) {
            return Err(TokenitisError::InvalidInstructionData);
        }
        Ok(())
    }

    /// Checks the legs: the inputs in order, then the outputs.
    pub fn validate_legs(&self) -> (verdict: Result<(), TokenitisError>)
        requires
            self.wf(),
        ensures
            verdict == first_error(self.leg_verdicts()),
    {
        let ghost verdicts = self.leg_verdicts();
        let n = self.args.inputs.len();
        let m = self.args.outputs.len();
        let mut i: usize = 0;
        while i < n
            invariant
                0 <= i <= n,
                self.wf(),
                n == self.args.inputs@.len(),
                verdicts == self.leg_verdicts(),
                forall|j: int| 0 <= j < i ==> (#[trigger] verdicts[j]) is Ok,
            decreases n - i,
        {
            let leg = self.args.inputs.leg(i);
            let mint_account = &self.accounts.input_mints[i];
            let vault_account = &self.accounts.inputs[i];
            let vault = unpack_token_account(vault_account.data.as_slice());
            let mint = unpack_mint(mint_account.data.as_slice());
            let checked = check_input_leg(&leg, &mint_account.key, &vault_account.key, vault, mint);
            assert(verdicts[i as int] == self.input_verdict(i as int));
            match checked {
                Ok(()) => {},
                Err(e) => {
                    proof {
                        lemma_first_error_at(verdicts, i as int);
                    }
                    return Err(e);
                },
            }
            i += 1;
        }
        let mut k: usize = 0;
        while k < m
            invariant
                0 <= k <= m,
                self.wf(),
                n == self.args.inputs@.len(),
                m == self.args.outputs@.len(),
                verdicts == self.leg_verdicts(),
                forall|j: int| 0 <= j < n + k ==> (#[trigger] verdicts[j]) is Ok,
            decreases m - k,
        {
            let leg = self.args.outputs.leg(k);
            let mint_account = &self.accounts.output_mints[k];
            let vault_account = &self.accounts.outputs[k];
            let vault = unpack_token_account(vault_account.data.as_slice());
            let mint = unpack_mint(mint_account.data.as_slice());
            let checked = check_output_leg(&leg, &mint_account.key, &vault_account.key, vault, mint);
            assert(verdicts[n + k] == self.output_verdict(k as int));
            match checked {
                Ok(()) => {},
                Err(e) => {
                    proof {
                        lemma_first_error_at(verdicts, n + k);
                    }
                    return Err(e);
                },
            }
            k += 1;
        }
        proof {
            lemma_first_error_none(verdicts);
        }
        Ok(())
    }

    /// Validates the creation. Nothing is written.
    pub fn validate_instruction(&self) -> (verdict: Result<(), TokenitisError>)
        requires
            self.wf(),
        ensures
            verdict == self.verdict(),
    {
        let ghost checks = seq![
            self.args_verdict(),
            self.programs_verdict(),
            self.registry_verdict(),
            self.transform_verdict(),
            first_error(self.leg_verdicts()),
        ];
        match self.validate_args() {
            Ok(()) => {},
            Err(e) => {
                proof {
                    lemma_first_error_at(checks, 0);
                }
                return Err(e);
            },
        }
        let accounts = &self.accounts;
        let system = system_program_id();
        let token = token_program_id();
        proof {
            crate::address::lemma_address_ext(accounts.system_program.key, system);
            crate::address::lemma_address_ext(accounts.token_program.key, token);
        }
        if !accounts.system_program.key.same(&system) || !accounts.token_program.key.same(&token) {
            proof {
                lemma_first_error_at(checks, 1);
            }
            return Err(TokenitisError::InvalidArgument);
        }
        let registry = Tokenitis::find_tokenitis_address(&self.program_id);
        match check_derived(registry, &accounts.tokenitis.key) {
            Ok(()) => {},
            Err(e) => {
                proof {
                    lemma_first_error_at(checks, 2);
                }
                return Err(e);
            },
        }
        let id = match Tokenitis::load_next_id(accounts.tokenitis.data.as_slice()) {
            Ok(id) => id,
            Err(e) => {
                proof {
                    lemma_first_error_at(checks, 3);
                }
                return Err(e);
            },
        };
        let expected = Tokenitis::find_transform_address(&self.program_id, id);
        match check_derived(expected, &accounts.transform.key) {
            Ok(()) => {},
            Err(e) => {
                proof {
                    lemma_first_error_at(checks, 3);
                }
                return Err(e);
            },
        }
        match check_fresh(accounts.transform.data.as_slice()) {
            Ok(()) => {},
            Err(e) => {
                proof {
                    lemma_first_error_at(checks, 3);
                }
                return Err(e);
            },
        }
        match self.validate_legs() {
            Ok(()) => {},
            Err(e) => {
                proof {
                    lemma_first_error_at(checks, 4);
                }
                return Err(e);
            },
        }
        proof {
            lemma_first_error_none(checks);
        }
        Ok(())
    }
}

/// A creation that passes validation has, for every leg, a
/// vault account that the token service accepts, in the initialized state and
/// with neither delegate nor close authority; and for every output leg a mint
/// whose supply is fixed and held in full by the vault account.
pub proof fn lemma_valid_creation_has_sound_vaults(creation: CreateTransform)
    requires
        creation.wf(),
        creation.verdict() is Ok,
    ensures
        forall|i: int|
            0 <= i < creation.args.inputs@.len() ==> {
                let vault = #[trigger] token_account_unpacked(creation.accounts.inputs@[i].data@);
                &&& vault is Ok
                &&& vault.unwrap().state == AccountState::Initialized
                &&& vault.unwrap().delegate is None
                &&& vault.unwrap().close_authority is None
            },
        forall|i: int|
            0 <= i < creation.args.outputs@.len() ==> {
                let vault = #[trigger] token_account_unpacked(creation.accounts.outputs@[i].data@);
                let mint = mint_unpacked(creation.accounts.output_mints@[i].data@);
                &&& vault is Ok
                &&& mint is Ok
                &&& vault.unwrap().state == AccountState::Initialized
                &&& vault.unwrap().delegate is None
                &&& vault.unwrap().close_authority is None
                &&& mint.unwrap().mint_authority is None
                &&& mint.unwrap().freeze_authority is None
                &&& vault.unwrap().amount == mint.unwrap().supply
            },
{
    lemma_valid_creation_passes_every_leg(creation);
    assert forall|i: int| 0 <= i < creation.args.inputs@.len() implies {
        let vault = #[trigger] token_account_unpacked(creation.accounts.inputs@[i].data@);
        &&& vault is Ok
        &&& vault.unwrap().state == AccountState::Initialized
        &&& vault.unwrap().delegate is None
        &&& vault.unwrap().close_authority is None
    } by {
        assert(creation.input_verdict(i) is Ok);
    }
    assert forall|i: int| 0 <= i < creation.args.outputs@.len() implies {
        let vault = #[trigger] token_account_unpacked(creation.accounts.outputs@[i].data@);
        let mint = mint_unpacked(creation.accounts.output_mints@[i].data@);
        &&& vault is Ok
        &&& mint is Ok
        &&& vault.unwrap().state == AccountState::Initialized
        &&& vault.unwrap().delegate is None
        &&& vault.unwrap().close_authority is None
        &&& mint.unwrap().mint_authority is None
        &&& mint.unwrap().freeze_authority is None
        &&& vault.unwrap().amount == mint.unwrap().supply
    } by {
        assert(creation.output_verdict(i) is Ok);
    }
}

/// A creation that passes validation passes the check of every leg.
pub proof fn lemma_valid_creation_passes_every_leg(creation: CreateTransform)
    requires
        creation.verdict() is Ok,
    ensures
        creation.args_verdict() is Ok,
        creation.programs_verdict() is Ok,
        creation.registry_verdict() is Ok,
        creation.transform_verdict() is Ok,
        forall|i: int|
            0 <= i < creation.args.inputs@.len() ==> (#[trigger] creation.input_verdict(i)) is Ok,
        forall|i: int|
            0 <= i < creation.args.outputs@.len() ==> (#[trigger] creation.output_verdict(i)) is Ok,
{
    let checks = seq![
        creation.args_verdict(),
        creation.programs_verdict(),
        creation.registry_verdict(),
        creation.transform_verdict(),
        first_error(creation.leg_verdicts()),
    ];
    lemma_first_error_ok(checks);
    assert(checks[0] is Ok);
    assert(checks[1] is Ok);
    assert(checks[2] is Ok);
    assert(checks[3] is Ok);
    assert(checks[4] is Ok);
    let legs = creation.leg_verdicts();
    lemma_first_error_ok(legs);
    let n = creation.args.inputs@.len() as int;
    assert forall|i: int| 0 <= i < creation.args.inputs@.len() implies (
    #[trigger] creation.input_verdict(i)) is Ok by {
        assert(legs[i] == creation.input_verdict(i));
    }
    assert forall|i: int| 0 <= i < creation.args.outputs@.len() implies (
    #[trigger] creation.output_verdict(i)) is Ok by {
        assert(legs[n + i] == creation.output_verdict(i));
    }
}

/// A creation that passes validation names, at every place, the
/// mint and the vault account of the basket entry at that place; so the
/// mints supplied for each basket stand in strictly ascending order.
pub proof fn lemma_valid_creation_is_in_order(creation: CreateTransform)
    requires
        creation.wf(),
        creation.verdict() is Ok,
    ensures
        forall|i: int|
            0 <= i < creation.args.inputs@.len() ==> {
                &&& (#[trigger] creation.accounts.input_mints@[i]).key
                    == creation.args.inputs@[i].mint
                &&& creation.accounts.inputs@[i].key == creation.args.inputs@[i].token.account
            },
        forall|i: int|
            0 <= i < creation.args.outputs@.len() ==> {
                &&& (#[trigger] creation.accounts.output_mints@[i]).key
                    == creation.args.outputs@[i].mint
                &&& creation.accounts.outputs@[i].key == creation.args.outputs@[i].token.account
            },
        forall|i: int, j: int|
            #![trigger creation.accounts.input_mints@[i], creation.accounts.input_mints@[j]]
            0 <= i < j < creation.args.inputs@.len() ==> lex_lt(
                creation.accounts.input_mints@[i].key@,
                creation.accounts.input_mints@[j].key@,
            ),
        forall|i: int, j: int|
            #![trigger creation.accounts.output_mints@[i], creation.accounts.output_mints@[j]]
            0 <= i < j < creation.args.outputs@.len() ==> lex_lt(
                creation.accounts.output_mints@[i].key@,
                creation.accounts.output_mints@[j].key@,
            ),
{
    lemma_valid_creation_passes_every_leg(creation);
    assert forall|i: int| 0 <= i < creation.args.inputs@.len() implies {
        &&& (#[trigger] creation.accounts.input_mints@[i]).key == creation.args.inputs@[i].mint
        &&& creation.accounts.inputs@[i].key == creation.args.inputs@[i].token.account
    } by {
        assert(creation.input_verdict(i) is Ok);
    }
    assert forall|i: int| 0 <= i < creation.args.outputs@.len() implies {
        &&& (#[trigger] creation.accounts.output_mints@[i]).key == creation.args.outputs@[i].mint
        &&& creation.accounts.outputs@[i].key == creation.args.outputs@[i].token.account
    } by {
        assert(creation.output_verdict(i) is Ok);
    }
    assert forall|i: int, j: int|
        #![trigger creation.accounts.input_mints@[i], creation.accounts.input_mints@[j]]
        0 <= i < j < creation.args.inputs@.len() implies lex_lt(
        creation.accounts.input_mints@[i].key@,
        creation.accounts.input_mints@[j].key@,
    ) by {
        assert(lex_lt(creation.args.inputs@[i].mint@, creation.args.inputs@[j].mint@));
    }
    assert forall|i: int, j: int|
        #![trigger creation.accounts.output_mints@[i], creation.accounts.output_mints@[j]]
        0 <= i < j < creation.args.outputs@.len() implies lex_lt(
        creation.accounts.output_mints@[i].key@,
        creation.accounts.output_mints@[j].key@,
    ) by {
        assert(lex_lt(creation.args.outputs@[i].mint@, creation.args.outputs@[j].mint@));
    }
}

/// A creation whose input mints are not supplied in strictly
/// ascending order, or whose output mints are not, fails validation.
pub proof fn lemma_creation_out_of_order_fails(creation: CreateTransform, i: int, j: int)
    requires
        creation.wf(),
        ({
            &&& 0 <= i < j < creation.args.inputs@.len()
            &&& !lex_lt(
                creation.accounts.input_mints@[i].key@,
                creation.accounts.input_mints@[j].key@,
            )
        }) || ({
            &&& 0 <= i < j < creation.args.outputs@.len()
            &&& !lex_lt(
                creation.accounts.output_mints@[i].key@,
                creation.accounts.output_mints@[j].key@,
            )
        }),
    ensures
        creation.verdict() is Err,
{
    if creation.verdict() is Ok {
        lemma_valid_creation_is_in_order(creation);
    }
}

} // verus!
