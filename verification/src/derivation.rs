use crate::address::{address_of, lemma_address_ext, Address};
use vstd::prelude::*;

verus! {

/// The address that the ledger derives for a program from a list of seeds,
/// together with the disambiguation byte that was appended to the seeds to
/// reach it; `None` where the ledger derives none. No private key belongs to
/// such an address: the program proves its authority over it by supplying the
/// same seeds and byte again.
pub uninterp spec fn program_address(seeds: Seq<Seq<u8>>, program_id: Address) -> Option<
    (Address, u8),
>;

/// The byte strings that a list of seeds holds.
pub open spec fn seed_views(seeds: Seq<Vec<u8>>) -> Seq<Seq<u8>> {
    Seq::new(seeds.len(), |i: int| seeds[i]@)
}

/// Bytes of the token program's address, `TokenkegQfeZyiNwAJbNbGKPFXCWuBvf9Ss623VQ5DA`
/// in base 58.
pub open spec fn token_program_bytes() -> Seq<u8> {
    seq![
        6u8, 221, 246, 225, 215, 101, 161, 147, 217, 203, 225, 70, 206, 235, 121, 172,
        28, 180, 133, 237, 95, 91, 55, 145, 58, 140, 245, 133, 126, 255, 0, 169,
    ]
}

/// Bytes of the system program's address, `11111111111111111111111111111111`
/// in base 58: thirty-two zero bytes.
pub open spec fn system_program_bytes() -> Seq<u8> {
    Seq::new(32, |i: int| 0u8)
}

/// Bytes of the associated-token-account program's address,
/// `ATokenGPvbdGVxr1b2hvZbsiqW5xWH25efTNsLJA8knL` in base 58.
pub open spec fn associated_token_program_bytes() -> Seq<u8> {
    seq![
        140u8, 151, 37, 143, 78, 36, 137, 241, 187, 61, 16, 41, 20, 142, 13, 131,
        11, 90, 19, 153, 218, 255, 16, 132, 4, 142, 123, 216, 219, 233, 248, 89,
    ]
}

/// Proof of the program's authority over an address that it derived: the seed
/// and the disambiguation byte from which the ledger derives the address
/// again. It takes the place of a signature, for no private key belongs to
/// such an address.
#[derive(Clone, Debug, PartialEq, Eq)]
pub struct Authorization {
    pub seed: Vec<u8>,
    pub nonce: u8,
}

impl Authorization {
    /// The seed and the byte are those of the derivation of `address` for
    /// the program.
    pub open spec fn proves(&self, program_id: Address, address: Address) -> bool {
        program_address(seq![self.seed@], program_id) == Some((address, self.nonce))
    }
}

/// Derives the program's address for `seed` and, with it, the proof of the
/// program's authority over that address; `None` where no address can be
/// derived from the seed.
pub fn prove_authority(program_id: &Address, seed: Vec<u8>) -> (proved: Option<
    (Address, Authorization),
>)
    ensures
        match proved {
            Some((address, authorization)) => authorization.seed@ == seed@
                && authorization.proves(*program_id, address),
            None => program_address(seq![seed@], *program_id) is None,
        },
{
    let mut seeds: Vec<Vec<u8>> = Vec::new();
    seeds.push(seed);
    assert(seed_views(seeds@) =~= seq![seed@]);
    let (address, nonce) = match try_find_program_address(&seeds, program_id) {
        Some(found) => found,
        None => {
            return None;
        },
    };
    let seed = seeds.pop().unwrap();
    Some((address, Authorization { seed, nonce }))
}

/// The creator's fee-collection account for a token type: the token account
/// associated with the creator and the token type, with the disambiguation
/// byte of its derivation.
pub open spec fn fee_account(creator: Address, mint: Address) -> Option<(Address, u8)> {
    program_address(
        seq![creator@, token_program_bytes(), mint@],
        address_of(associated_token_program_bytes()),
    )
}

/// Derives the creator's fee-collection account for a token type.
pub fn find_fee_account(creator: &Address, mint: &Address) -> (found: Option<(Address, u8)>)
    ensures
        found == fee_account(*creator, *mint),
{
    let program = associated_token_program_id();
    let mut seeds: Vec<Vec<u8>> = Vec::new();
    seeds.push(creator.to_vec());
    seeds.push(token_program_id().to_vec());
    seeds.push(mint.to_vec());
    proof {
        assert(seed_views(seeds@) =~= seq![creator@, token_program_bytes(), mint@]);
        lemma_address_ext(program, address_of(associated_token_program_bytes()));
    }
    try_find_program_address(&seeds, &program)
}

/// Calls `solana_program::pubkey::Pubkey::try_find_program_address`.
///
/// Trusted: the result is a function of the seeds and the program's address
/// alone, which `program_address` names. Nothing is claimed about which
/// address comes out.
#[verifier::external_body]
pub(crate) fn try_find_program_address(seeds: &Vec<Vec<u8>>, program_id: &Address) -> (found:
    Option<(Address, u8)>)
    ensures
        found == program_address(seed_views(seeds@), *program_id),
{
    let seeds: Vec<&[u8]> = seeds.iter().map(|seed| seed.as_slice()).collect();
    let program = solana_program::pubkey::Pubkey::new_from_array(program_id.bytes);
    solana_program::pubkey::Pubkey::try_find_program_address(&seeds, &program).map(
        |(key, bump)| (Address { bytes: key.to_bytes() }, bump),
    )
}

/// Calls `spl_token::id`.
///
/// Trusted: the token program's address has the bytes `token_program_bytes`.
#[verifier::external_body]
pub(crate) fn token_program_id() -> (id: Address)
    ensures
        id@ == token_program_bytes(),
{
    Address { bytes: spl_token::id().to_bytes() }
}

/// Calls `solana_program::system_program::id`.
///
/// Trusted: the system program's address has the bytes `system_program_bytes`.
#[verifier::external_body]
pub(crate) fn system_program_id() -> (id: Address)
    ensures
        id@ == system_program_bytes(),
{
    Address { bytes: solana_program::system_program::id().to_bytes() }
}

/// Calls `spl_associated_token_account::id`.
///
/// Trusted: the associated-token-account program's address has the bytes
/// `associated_token_program_bytes`.
#[verifier::external_body]
pub(crate) fn associated_token_program_id() -> (id: Address)
    ensures
        id@ == associated_token_program_bytes(),
{
    Address { bytes: spl_associated_token_account::id().to_bytes() }
}

} // verus!
