use crate::account::{Account, Allocation};
use crate::address::Address;
use crate::derivation::{program_address, prove_authority};
use crate::errors::TokenitisError;
use vstd::prelude::*;
use vstd::slice::slice_to_vec;

verus! {

/// `allocation` asks for `space` bytes at `account`, paid by `payer` and owned
/// by the program, on the authority of `seed` and `nonce`.
pub open spec fn allocation_of(
    allocation: Allocation,
    program_id: Address,
    space: usize,
    payer: Address,
    account: Address,
    seed: Seq<u8>,
    nonce: u8,
) -> bool {
    &&& allocation.payer == payer
    &&& allocation.account == account
    &&& allocation.space == space
    &&& allocation.owner == program_id
    &&& allocation.authorization.seed@ == seed
    &&& allocation.authorization.nonce == nonce
}

/// Prepares the allocation of the account `pda`: `space` bytes, paid by
/// `creator` and owned by the program. With the request goes the proof of
/// the program's authority over the address that it derives from `seed`; the
/// ledger grants the request only where `pda` stands at that address. Fails
/// with `InvalidSeeds` where no address can be derived from the seed.
pub fn create_pda(
    program_id: &Address,
    space: usize,
    creator: &Account,
    pda: &Account,
    seed: &[u8],
) -> (prepared: Result<Allocation, TokenitisError>)
    ensures
        match prepared {
            Ok(allocation) => program_address(seq![seed@], *program_id) is Some && allocation_of(
                allocation,
                *program_id,
                space,
                creator.key,
                pda.key,
                seed@,
                program_address(seq![seed@], *program_id).unwrap().1,
            ),
            Err(e) => e == TokenitisError::InvalidSeeds && program_address(
                seq![seed@],
                *program_id,
            ) is None,
        },
{
    let authorization = match prove_authority(program_id, slice_to_vec(seed)) {
        Some((_, authorization)) => authorization,
        None => {
            return Err(TokenitisError::InvalidSeeds);
        },
    };
    Ok(
        Allocation {
            payer: creator.key,
            account: pda.key,
            space: space as u64,
            owner: *program_id,
            authorization,
        },
    )
}

/// The fee owed on `amount` at `fee_percent` percent, as a mathematical integer:
/// the product divided by one hundred, rounded down.
pub open spec fn fee_of(amount: int, fee_percent: int) -> int {
    amount * fee_percent / 100
}

/// The fee charged: the exact fee where it fits in 64 bits, else `u64::MAX`.
pub open spec fn capped_fee(amount: u64, fee_percent: u64) -> u64 {
    if fee_of(amount as int, fee_percent as int) <= u64::MAX {
        fee_of(amount as int, fee_percent as int) as u64
    } else {
        u64::MAX
    }
}

/// Computes the fee on `amount` at `fee_percent` percent, rounded down.
/// A fee too large for 64 bits is capped at `u64::MAX`.
pub fn calculate_fee(amount: u64, fee_percent: u64) -> (fee: u64)
    ensures
        fee == capped_fee(amount, fee_percent),
{
    assert(amount * fee_percent <= 0xffff_ffff_ffff_ffff * 0xffff_ffff_ffff_ffff) by (nonlinear_arith)
        requires
            amount <= 0xffff_ffff_ffff_ffff,
            fee_percent <= 0xffff_ffff_ffff_ffff,
    ;
    let product: u128 = (amount as u128) * (fee_percent as u128);
    let exact: u128 = product / 100;
    if exact > u64::MAX as u128 {
        u64::MAX
    } else {
        exact as u64
    }
}

/// No fee is charged at zero percent.
pub proof fn lemma_fee_zero_percent(amount: u64)
    ensures
        capped_fee(amount, 0) == 0,
{
}

/// At a percentage of at most 100 the fee is exact and never exceeds the amount.
pub proof fn lemma_fee_at_most_amount(amount: u64, fee_percent: u64)
    requires
        fee_percent <= 100,
    ensures
        capped_fee(amount, fee_percent) == fee_of(amount as int, fee_percent as int),
        capped_fee(amount, fee_percent) <= amount,
{
    assert(amount * fee_percent <= amount * 100) by (nonlinear_arith)
        requires
            fee_percent <= 100,
            amount >= 0,
    ;
}

/// The fee grows with the amount and with the percentage.
pub proof fn lemma_fee_monotonic(amount: u64, fee_percent: u64, larger: u64, higher: u64)
    requires
        amount <= larger,
        fee_percent <= higher,
    ensures
        capped_fee(amount, fee_percent) <= capped_fee(larger, higher),
{
    assert(amount * fee_percent <= larger * higher) by (nonlinear_arith)
        requires
            0 <= amount <= larger,
            0 <= fee_percent <= higher,
    ;
}

} // verus!
