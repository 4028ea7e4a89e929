use crate::account::{Allocation, Reassignment, Transfer};
use crate::address::Address;
use crate::errors::TokenitisError;
use crate::derivation::fee_account;
use solana_program::pubkey::Pubkey;
use solana_program::system_instruction::create_account;
use spl_token::instruction::{
    initialize_account, initialize_mint, mint_to_checked, set_authority, transfer, AuthorityType,
};
use vstd::prelude::*;

verus! {

/// An account that an instruction names, with what the instruction may do to it.
#[derive(Clone, Copy, Debug, PartialEq, Eq)]
pub struct AccountMeta {
    pub pubkey: Address,
    pub is_signer: bool,
    pub is_writable: bool,
}

/// An instruction for a program of the ledger: the program, the accounts that
/// it names, and its encoded arguments.
#[derive(Clone, Debug, PartialEq, Eq)]
pub struct Instruction {
    pub program_id: Address,
    pub accounts: Vec<AccountMeta>,
    pub data: Vec<u8>,
}

/// An instruction as a mathematical value.
pub struct InstructionView {
    pub program_id: Address,
    pub accounts: Seq<AccountMeta>,
    pub data: Seq<u8>,
}

impl View for Instruction {
    type V = InstructionView;

    open spec fn view(&self) -> InstructionView {
        InstructionView { program_id: self.program_id, accounts: self.accounts@, data: self.data@ }
    }
}

/// The authorities that this program's clients hand on: the one to mint
/// tokens of a token type, and the ownership of a token account.
#[derive(Clone, Copy, Debug, PartialEq, Eq, Structural)]
pub enum AuthorityKind {
    MintTokens,
    AccountOwner,
}

/// The system program's instruction that creates the account `to` with
/// `space` bytes owned by `owner`, funded by `from` with `lamports`.
pub uninterp spec fn system_create_account(
    from: Address,
    to: Address,
    lamports: u64,
    space: u64,
    owner: Address,
) -> InstructionView;

/// The token program's instruction that initializes a token type, where it
/// builds one.
pub uninterp spec fn token_initialize_mint(
    mint: Address,
    mint_authority: Address,
    freeze_authority: Option<Address>,
    decimals: u8,
) -> Option<InstructionView>;

/// The token program's instruction that initializes a token account, where it
/// builds one.
pub uninterp spec fn token_initialize_account(account: Address, mint: Address, owner: Address)
    -> Option<InstructionView>;

/// The token program's instruction by which `owner`, signing alone, mints
/// `amount` tokens of `decimals` decimals into `account`, where it builds one.
pub uninterp spec fn token_mint_to_checked(
    mint: Address,
    account: Address,
    owner: Address,
    amount: u64,
    decimals: u8,
) -> Option<InstructionView>;

/// The token program's instruction by which `owner`, signing alone, hands the
/// given authority over `owned` to `new_authority`, or gives it up for good,
/// where it builds one.
pub uninterp spec fn token_set_authority(
    owned: Address,
    new_authority: Option<Address>,
    kind: AuthorityKind,
    owner: Address,
) -> Option<InstructionView>;

/// The token program's instruction by which `authority`, signing alone,
/// moves `amount` tokens from `source` to `destination`, where it builds one.
pub uninterp spec fn token_transfer(
    source: Address,
    destination: Address,
    authority: Address,
    amount: u64,
) -> Option<InstructionView>;

/// The associated-token-account program's instruction by which `funding`
/// pays for the token account associated with `wallet` and `mint`.
pub uninterp spec fn associated_create_account(funding: Address, wallet: Address, mint: Address)
    -> InstructionView;

/// Calls `solana_program::system_instruction::create_account`.
///
/// Trusted: the instruction is a function of the arguments alone, which
/// `system_create_account` names.
#[verifier::external_body]
pub(crate) fn build_system_create_account(
    from: &Address,
    to: &Address,
    lamports: u64,
    space: u64,
    owner: &Address,
) -> (built: Instruction)
    ensures
        built@ == system_create_account(*from, *to, lamports, space, *owner),
{
    let (from, to, owner) = (Pubkey::new_from_array(from.bytes), Pubkey::new_from_array(to.bytes), Pubkey::new_from_array(owner.bytes));
    let ix = create_account(&from, &to, lamports, space, &owner);
    let accounts = ix.accounts.iter().map(|m| AccountMeta { pubkey: Address { bytes: m.pubkey.to_bytes() }, is_signer: m.is_signer, is_writable: m.is_writable }).collect();
    Instruction { program_id: Address { bytes: ix.program_id.to_bytes() }, accounts, data: ix.data }
}

/// Calls `spl_token::instruction::initialize_mint` for the token program itself.
///
/// Trusted: the result is a function of the arguments alone, which
/// `token_initialize_mint` names; an error of the token program is `None`.
#[verifier::external_body]
pub(crate) fn build_initialize_mint(
    mint: &Address,
    mint_authority: &Address,
    freeze_authority: Option<Address>,
    decimals: u8,
) -> (built: Option<Instruction>)
    ensures
        match built {
            Some(ix) => token_initialize_mint(*mint, *mint_authority, freeze_authority, decimals)
                == Some(ix@),
            None => token_initialize_mint(*mint, *mint_authority, freeze_authority, decimals)
                is None,
        },
{
    let freeze = freeze_authority.map(|a| Pubkey::new_from_array(a.bytes));
    let (mint, authority) = (Pubkey::new_from_array(mint.bytes), Pubkey::new_from_array(mint_authority.bytes));
    let ix = initialize_mint(&spl_token::id(), &mint, &authority, freeze.as_ref(), decimals).ok()?;
    let accounts = ix.accounts.iter().map(|m| AccountMeta { pubkey: Address { bytes: m.pubkey.to_bytes() }, is_signer: m.is_signer, is_writable: m.is_writable }).collect();
    Some(Instruction { program_id: Address { bytes: ix.program_id.to_bytes() }, accounts, data: ix.data })
}

/// Calls `spl_token::instruction::initialize_account` for the token program itself.
///
/// Trusted: the result is a function of the arguments alone, which
/// `token_initialize_account` names; an error of the token program is `None`.
#[verifier::external_body]
pub(crate) fn build_initialize_account(account: &Address, mint: &Address, owner: &Address) -> (built:
    Option<Instruction>)
    ensures
        match built {
            Some(ix) => token_initialize_account(*account, *mint, *owner) == Some(ix@),
            None => token_initialize_account(*account, *mint, *owner) is None,
        },
{
    let (account, mint, owner) = (Pubkey::new_from_array(account.bytes), Pubkey::new_from_array(mint.bytes), Pubkey::new_from_array(owner.bytes));
    let ix = initialize_account(&spl_token::id(), &account, &mint, &owner).ok()?;
    let accounts = ix.accounts.iter().map(|m| AccountMeta { pubkey: Address { bytes: m.pubkey.to_bytes() }, is_signer: m.is_signer, is_writable: m.is_writable }).collect();
    Some(Instruction { program_id: Address { bytes: ix.program_id.to_bytes() }, accounts, data: ix.data })
}

/// Calls `spl_token::instruction::mint_to_checked` for the token program
/// itself, with the owner as the only signer.
///
/// Trusted: the result is a function of the arguments alone, which
/// `token_mint_to_checked` names; an error of the token program is `None`.
#[verifier::external_body]
pub(crate) fn build_mint_to_checked(
    mint: &Address,
    account: &Address,
    owner: &Address,
    amount: u64,
    decimals: u8,
) -> (built: Option<Instruction>)
    ensures
        match built {
            Some(ix) => token_mint_to_checked(*mint, *account, *owner, amount, decimals) == Some(
                ix@,
            ),
            None => token_mint_to_checked(*mint, *account, *owner, amount, decimals) is None,
        },
{
    let (mint, account, owner) = (Pubkey::new_from_array(mint.bytes), Pubkey::new_from_array(account.bytes), Pubkey::new_from_array(owner.bytes));
    let ix = mint_to_checked(&spl_token::id(), &mint, &account, &owner, &[&owner], amount, decimals).ok()?;
    let accounts = ix.accounts.iter().map(|m| AccountMeta { pubkey: Address { bytes: m.pubkey.to_bytes() }, is_signer: m.is_signer, is_writable: m.is_writable }).collect();
    Some(Instruction { program_id: Address { bytes: ix.program_id.to_bytes() }, accounts, data: ix.data })
}

/// Calls `spl_token::instruction::set_authority` for the token program
/// itself, with the owner as the only signer.
///
/// Trusted: the result is a function of the arguments alone, which
/// `token_set_authority` names; an error of the token program is `None`.
#[verifier::external_body]
pub(crate) fn build_set_authority(
    owned: &Address,
    new_authority: Option<Address>,
    kind: AuthorityKind,
    owner: &Address,
) -> (built: Option<Instruction>)
    ensures
        match built {
            Some(ix) => token_set_authority(*owned, new_authority, kind, *owner) == Some(ix@),
            None => token_set_authority(*owned, new_authority, kind, *owner) is None,
        },
{
    let kind = match kind {
        AuthorityKind::MintTokens => AuthorityType::MintTokens,
        AuthorityKind::AccountOwner => AuthorityType::AccountOwner,
    };
    let new = new_authority.map(|a| Pubkey::new_from_array(a.bytes));
    let (owned, owner) = (Pubkey::new_from_array(owned.bytes), Pubkey::new_from_array(owner.bytes));
    let ix = set_authority(&spl_token::id(), &owned, new.as_ref(), kind, &owner, &[&owner]).ok()?;
    let accounts = ix.accounts.iter().map(|m| AccountMeta { pubkey: Address { bytes: m.pubkey.to_bytes() }, is_signer: m.is_signer, is_writable: m.is_writable }).collect();
    Some(Instruction { program_id: Address { bytes: ix.program_id.to_bytes() }, accounts, data: ix.data })
}

/// Calls `spl_token::instruction::transfer` for the token program itself,
/// with the authority as the only signer.
///
/// Trusted: the result is a function of the arguments alone, which
/// `token_transfer` names; an error of the token program is `None`.
#[verifier::external_body]
pub(crate) fn build_transfer(
    source: &Address,
    destination: &Address,
    authority: &Address,
    amount: u64,
) -> (built: Option<Instruction>)
    ensures
        match built {
            Some(ix) => token_transfer(*source, *destination, *authority, amount) == Some(ix@),
            None => token_transfer(*source, *destination, *authority, amount) is None,
        },
{
    let (source, destination, authority) = (Pubkey::new_from_array(source.bytes), Pubkey::new_from_array(destination.bytes), Pubkey::new_from_array(authority.bytes));
    let ix = transfer(&spl_token::id(), &source, &destination, &authority, &[&authority], amount).ok()?;
    let accounts = ix.accounts.iter().map(|m| AccountMeta { pubkey: Address { bytes: m.pubkey.to_bytes() }, is_signer: m.is_signer, is_writable: m.is_writable }).collect();
    Some(Instruction { program_id: Address { bytes: ix.program_id.to_bytes() }, accounts, data: ix.data })
}

/// Calls `spl_associated_token_account::create_associated_token_account`.
///
/// Trusted: the instruction is a function of the arguments alone, which
/// `associated_create_account` names. The call derives the associated
/// account's address and does not return where there is none to derive; the
/// precondition leaves those arguments out.
#[verifier::external_body]
#[allow(deprecated)]
pub(crate) fn build_associated_create_account(funding: &Address, wallet: &Address, mint: &Address)
    -> (built: Instruction)
    requires
        fee_account(*wallet, *mint) is Some,
    ensures
        built@ == associated_create_account(*funding, *wallet, *mint),
{
    let (funding, wallet, mint) = (Pubkey::new_from_array(funding.bytes), Pubkey::new_from_array(wallet.bytes), Pubkey::new_from_array(mint.bytes));
    let ix = spl_associated_token_account::create_associated_token_account(&funding, &wallet, &mint);
    let accounts = ix.accounts.iter().map(|m| AccountMeta { pubkey: Address { bytes: m.pubkey.to_bytes() }, is_signer: m.is_signer, is_writable: m.is_writable }).collect();
    Instruction { program_id: Address { bytes: ix.program_id.to_bytes() }, accounts, data: ix.data }
}

/// The views of a list of instructions.
pub open spec fn views(list: Seq<Instruction>) -> Seq<InstructionView> {
    Seq::new(list.len(), |i: int| list[i]@)
}

impl Allocation {
    /// The system program's instruction that carries the allocation out,
    /// given the balance that the ledger asks an account of that size to hold.
    pub fn instruction(&self, rent: u64) -> (built: Instruction)
        ensures
            built@ == system_create_account(
                self.payer,
                self.account,
                rent,
                self.space,
                self.owner,
            ),
    {
        build_system_create_account(&self.payer, &self.account, rent, self.space, &self.owner)
    }
}

impl Reassignment {
    /// The token program's instruction that carries the reassignment out.
    /// `IncorrectProgramId` where the token program builds none.
    pub fn instruction(&self) -> (built: Result<Instruction, TokenitisError>)
        ensures
            match built {
                Ok(ix) => token_set_authority(
                    self.account,
                    Some(self.new_owner),
                    AuthorityKind::AccountOwner,
                    self.current_owner,
                ) == Some(ix@),
                Err(e) => e == TokenitisError::IncorrectProgramId && token_set_authority(
                    self.account,
                    Some(self.new_owner),
                    AuthorityKind::AccountOwner,
                    self.current_owner,
                ) is None,
            },
    {
        match build_set_authority(
            &self.account,
            Some(self.new_owner),
            AuthorityKind::AccountOwner,
            &self.current_owner,
        ) {
            Some(ix) => Ok(ix),
            None => Err(TokenitisError::IncorrectProgramId),
        }
    }
}

impl Transfer {
    /// The token program's instruction that carries the transfer out.
    /// `IncorrectProgramId` where the token program builds none.
    pub fn instruction(&self) -> (built: Result<Instruction, TokenitisError>)
        ensures
            match built {
                Ok(ix) => token_transfer(self.source, self.destination, self.authority, self.amount)
                    == Some(ix@),
                Err(e) => e == TokenitisError::IncorrectProgramId && token_transfer(
                    self.source,
                    self.destination,
                    self.authority,
                    self.amount,
                ) is None,
            },
    {
        match build_transfer(&self.source, &self.destination, &self.authority, self.amount) {
            Some(ix) => Ok(ix),
            None => Err(TokenitisError::IncorrectProgramId),
        }
    }
}

} // verus!
