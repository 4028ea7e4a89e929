use crate::address::Address;
use crate::errors::TokenitisError;
use solana_program::program_error::ProgramError;
use solana_program::program_pack::Pack;
use solana_program::pubkey::Pubkey;
use vstd::prelude::*;

verus! {

/// Lifecycle state of a token account.
#[derive(Clone, Copy, Debug, PartialEq, Eq, Structural)]
pub enum AccountState {
    Uninitialized,
    Initialized,
    Frozen,
}

/// What the token program records in a token account, as far as this program reads it.
#[derive(Clone, Copy, Debug)]
pub struct TokenAccount {
    /// The token type that the account holds.
    pub mint: Address,
    /// Who may move the balance.
    pub owner: Address,
    /// The balance.
    pub amount: u64,
    /// Someone else allowed to move part of the balance, if any.
    pub delegate: Option<Address>,
    pub state: AccountState,
    /// Someone allowed to close the account, if any.
    pub close_authority: Option<Address>,
}

/// What the token program records about a token type.
#[derive(Clone, Copy, Debug)]
pub struct Mint {
    /// Who may create new tokens, if anyone.
    pub mint_authority: Option<Address>,
    /// Number of tokens in existence.
    pub supply: u64,
    pub decimals: u8,
    pub is_initialized: bool,
    /// Who may freeze accounts of this token type, if anyone.
    pub freeze_authority: Option<Address>,
}

/// The token account that the token program reads from `data`, or its reason
/// for rejecting the bytes.
pub uninterp spec fn token_account_unpacked(data: Seq<u8>) -> Result<TokenAccount, TokenitisError>;

/// The token type that the token program reads from `data`, or its reason for
/// rejecting the bytes.
pub uninterp spec fn mint_unpacked(data: Seq<u8>) -> Result<Mint, TokenitisError>;

/// Calls `spl_token::state::Account::unpack`.
///
/// Trusted: the result is a function of the bytes alone, which
/// `token_account_unpacked` names. The token program's errors are
/// `UninitializedAccount` for an account in the uninitialized state and
/// `InvalidAccountData` for bytes of the wrong length or form.
#[verifier::external_body]
pub(crate) fn unpack_token_account(data: &[u8]) -> (unpacked: Result<TokenAccount, TokenitisError>)
    ensures
        unpacked == token_account_unpacked(data@),
{
    let account = match spl_token::state::Account::unpack(data) {
        Ok(account) => account,
        Err(ProgramError::UninitializedAccount) => return Err(TokenitisError::UninitializedAccount),
        Err(_) => return Err(TokenitisError::InvalidAccountData),
    };
    let state = match account.state {
        spl_token::state::AccountState::Uninitialized => AccountState::Uninitialized,
        spl_token::state::AccountState::Initialized => AccountState::Initialized,
        spl_token::state::AccountState::Frozen => AccountState::Frozen,
    };
    let address = |key: Pubkey| Address { bytes: key.to_bytes() };
    let delegate = Option::from(account.delegate.map(address));
    let close_authority = Option::from(account.close_authority.map(address));
    let (mint, owner, amount) = (address(account.mint), address(account.owner), account.amount);
    Ok(TokenAccount { mint, owner, amount, delegate, state, close_authority })
}

/// Calls `spl_token::state::Mint::unpack`.
///
/// Trusted: the result is a function of the bytes alone, which `mint_unpacked`
/// names. The token program's errors are `UninitializedAccount` for a mint
/// that is not initialized and `InvalidAccountData` for bytes of the wrong
/// length or form.
#[verifier::external_body]
pub(crate) fn unpack_mint(data: &[u8]) -> (unpacked: Result<Mint, TokenitisError>)
    ensures
        unpacked == mint_unpacked(data@),
{
    let mint = match spl_token::state::Mint::unpack(data) {
        Ok(mint) => mint,
        Err(ProgramError::UninitializedAccount) => return Err(TokenitisError::UninitializedAccount),
        Err(_) => return Err(TokenitisError::InvalidAccountData),
    };
    let address = |key: Pubkey| Address { bytes: key.to_bytes() };
    let mint_authority = Option::from(mint.mint_authority.map(address));
    let freeze_authority = Option::from(mint.freeze_authority.map(address));
    let (supply, decimals, is_initialized) = (mint.supply, mint.decimals, mint.is_initialized);
    Ok(Mint { mint_authority, supply, decimals, is_initialized, freeze_authority })
}

} // verus!
