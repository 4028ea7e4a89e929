use crate::account::Account;
use crate::address::Address;
use crate::basket::{ascending, Basket, Leg};
use crate::codec::{
    enc_fee, enc_legs, enc_string, lemma_take_fee, lemma_take_legs, lemma_take_string,
    read_basket, read_fee, read_string, take_fee, take_legs, take_string, write_basket,
    write_fee, write_string,
};
use crate::errors::TokenitisError;
use crate::state::TransformMetadata;
use vstd::prelude::*;
use vstd::slice::slice_subrange;
use vstd::utf8::encode_utf8;

pub mod execute;
pub mod validate;

verus! {

/// What the creator proposes: the texts, the two baskets and the fee.
#[derive(Clone, Debug, PartialEq, Eq)]
pub struct CreateTransformArgs {
    pub metadata: TransformMetadata,
    pub inputs: Basket,
    pub outputs: Basket,
    /// Percentage of each input amount that a forward swap pays to the creator.
    pub fee: Option<u64>,
}

/// The arguments of a creation as a mathematical value.
pub struct CreateTransformArgsView {
    pub name: Seq<char>,
    pub image: Seq<char>,
    pub inputs: Seq<Leg>,
    pub outputs: Seq<Leg>,
    pub fee: Option<u64>,
}

impl View for CreateTransformArgs {
    type V = CreateTransformArgsView;

    open spec fn view(&self) -> CreateTransformArgsView {
        CreateTransformArgsView {
            name: self.metadata.name@,
            image: self.metadata.image@,
            inputs: self.inputs@,
            outputs: self.outputs@,
            fee: self.fee,
        }
    }
}

/// The encoded form of a creation's arguments: the fields in the order of
/// their declaration.
pub open spec fn enc_create_args(args: CreateTransformArgsView) -> Seq<u8> {
    enc_string(args.name) + enc_string(args.image) + enc_legs(args.inputs) + enc_legs(args.outputs)
        + enc_fee(args.fee)
}

/// Reads a creation's arguments from the front of `bytes`.
pub open spec fn take_create_args(bytes: Seq<u8>) -> Option<(CreateTransformArgsView, Seq<u8>)> {
    match take_string(bytes) {
        Some((name, bytes)) => match take_string(bytes) {
            Some((image, bytes)) => match take_legs(bytes) {
                Some((inputs, bytes)) => match take_legs(bytes) {
                    Some((outputs, bytes)) => match take_fee(bytes) {
                        Some((fee, bytes)) => Some(
                            (CreateTransformArgsView { name, image, inputs, outputs, fee }, bytes),
                        ),
                        None => None,
                    },
                    None => None,
                },
                None => None,
            },
            None => None,
        },
        None => None,
    }
}

/// Every length that the encoded form records fits in 32 bits.
pub open spec fn args_encodable(args: CreateTransformArgsView) -> bool {
    &&& encode_utf8(args.name).len() <= u32::MAX
    &&& encode_utf8(args.image).len() <= u32::MAX
    &&& args.inputs.len() <= u32::MAX
    &&& args.outputs.len() <= u32::MAX
}

/// Arguments that were encoded are read back, whatever follows them.
pub proof fn lemma_create_args_round_trip(args: CreateTransformArgsView, rest: Seq<u8>)
    requires
        args_encodable(args),
        ascending(args.inputs),
        ascending(args.outputs),
    ensures
        take_create_args(enc_create_args(args) + rest) == Some((args, rest)),
{
    let r4 = enc_fee(args.fee) + rest;
    let r3 = enc_legs(args.outputs) + r4;
    let r2 = enc_legs(args.inputs) + r3;
    let r1 = enc_string(args.image) + r2;
    let all = enc_create_args(args) + rest;
    assert(all =~= enc_string(args.name) + r1);
    assert(take_string(all) == Some((args.name, r1))) by {
        lemma_take_string(args.name, r1);
    }
    assert(take_string(r1) == Some((args.image, r2))) by {
        lemma_take_string(args.image, r2);
    }
    assert(take_legs(r2) == Some((args.inputs, r3))) by {
        lemma_take_legs(args.inputs, r3);
    }
    assert(take_legs(r3) == Some((args.outputs, r4))) by {
        lemma_take_legs(args.outputs, r4);
    }
    assert(take_fee(r4) == Some((args.fee, rest))) by {
        lemma_take_fee(args.fee, rest);
    }
}

impl CreateTransformArgs {
    /// The baskets are in order.
    pub open spec fn wf(&self) -> bool {
        self.inputs.wf() && self.outputs.wf()
    }

    /// Appends the encoded form of the arguments. Returns whether they have
    /// one; where they have none, `out` is left as it was.
    pub fn write(&self, out: &mut Vec<u8>) -> (written: bool)
        ensures
            written == args_encodable(self@),
            final(out)@ == if written {
                old(out)@ + enc_create_args(self@)
            } else {
                old(out)@
            },
    {
        if self.metadata.name.as_str().as_bytes().len() > u32::MAX as usize
            || self.metadata.image.as_str().as_bytes().len() > u32::MAX as usize
            || self.inputs.len() > u32::MAX as usize || self.outputs.len() > u32::MAX as usize {
            return false;
        }
        write_string(out, self.metadata.name.as_str());
        write_string(out, self.metadata.image.as_str());
        write_basket(out, &self.inputs);
        write_basket(out, &self.outputs);
        write_fee(out, self.fee);
        assert(out@ =~= old(out)@ + enc_create_args(self@));
        true
    }

    /// Reads the arguments of a creation at `pos`.
    pub fn read(data: &[u8], pos: usize) -> (got: Option<(CreateTransformArgs, usize)>)
        requires
            pos <= data@.len(),
        ensures
            match got {
                Some((args, next)) => args.wf() && pos <= next <= data@.len() && take_create_args(
                    data@.skip(pos as int),
                ) == Some((args@, data@.skip(next as int))),
                None => take_create_args(data@.skip(pos as int)) is None,
            },
    {
        let (name, pos) = match read_string(data, pos) {
            Some(found) => found,
            None => {
                return None;
            },
        };
        let (image, pos) = match read_string(data, pos) {
            Some(found) => found,
            None => {
                return None;
            },
        };
        let (inputs, pos) = match read_basket(data, pos) {
            Some(found) => found,
            None => {
                return None;
            },
        };
        let (outputs, pos) = match read_basket(data, pos) {
            Some(found) => found,
            None => {
                return None;
            },
        };
        let (fee, pos) = match read_fee(data, pos) {
            Some(found) => found,
            None => {
                return None;
            },
        };
        Some(
            (
                CreateTransformArgs {
                    metadata: TransformMetadata { name, image },
                    inputs,
                    outputs,
                    fee,
                },
                pos,
            ),
        )
    }
}

/// The accounts of a creation, by role. The legs of each basket come in
/// ascending order of token type.
#[derive(Debug)]
pub struct CreateTransformAccounts<'a> {
    pub system_program: &'a Account,
    pub token_program: &'a Account,
    pub tokenitis: &'a Account,
    pub transform: &'a Account,
    pub creator: &'a Account,
    pub input_mints: &'a [Account],
    pub inputs: &'a [Account],
    pub output_mints: &'a [Account],
    pub outputs: &'a [Account],
}

/// The instruction that creates a transform.
pub struct CreateTransform<'a> {
    pub program_id: Address,
    pub accounts: CreateTransformAccounts<'a>,
    pub args: CreateTransformArgs,
}

/// Number of accounts that a creation with baskets of `inputs` and `outputs`
/// legs names: the fixed ones, then a mint and a vault account per leg.
pub open spec fn create_account_count(inputs: int, outputs: int) -> int {
    5 + 2 * inputs + 2 * outputs
}

impl<'a> CreateTransformAccounts<'a> {
    /// The roles are filled from `list` in its order: the five fixed
    /// accounts, the input mints, the input vaults, the output mints, the
    /// output vaults.
    pub open spec fn laid_out(&self, list: Seq<Account>, inputs: int, outputs: int) -> bool {
        &&& list.len() >= create_account_count(inputs, outputs)
        &&& *self.system_program == list[0]
        &&& *self.token_program == list[1]
        &&& *self.tokenitis == list[2]
        &&& *self.transform == list[3]
        &&& *self.creator == list[4]
        &&& self.input_mints@ == list.subrange(5, 5 + inputs)
        &&& self.inputs@ == list.subrange(5 + inputs, 5 + 2 * inputs)
        &&& self.output_mints@ == list.subrange(5 + 2 * inputs, 5 + 2 * inputs + outputs)
        &&& self.outputs@ == list.subrange(
            5 + 2 * inputs + outputs,
            5 + 2 * inputs + 2 * outputs,
        )
    }
}

impl<'a> CreateTransform<'a> {
    /// The baskets are in order and every leg has its mint and vault account.
    pub open spec fn wf(&self) -> bool {
        &&& self.args.inputs.wf()
        &&& self.args.outputs.wf()
        &&& self.accounts.input_mints@.len() == self.args.inputs@.len()
        &&& self.accounts.inputs@.len() == self.args.inputs@.len()
        &&& self.accounts.output_mints@.len() == self.args.outputs@.len()
        &&& self.accounts.outputs@.len() == self.args.outputs@.len()
    }

    /// Assigns the accounts of `accounts` to their roles. Fails with
    /// `InvalidInstructionData` where the list is too short for the baskets.
    pub fn new(program_id: Address, accounts: &'a [Account], args: CreateTransformArgs) -> (made:
        Result<CreateTransform<'a>, TokenitisError>)
        ensures
            match made {
                Ok(instruction) => {
                    &&& instruction.program_id == program_id
                    &&& instruction.args == args
                    &&& instruction.accounts.laid_out(
                        accounts@,
                        args.inputs@.len() as int,
                        args.outputs@.len() as int,
                    )
                    &&& instruction.wf()
                },
                Err(e) => e == TokenitisError::InvalidInstructionData && accounts@.len()
                    < create_account_count(
                    args.inputs@.len() as int,
                    args.outputs@.len() as int,
                ),
            },
    {
        let total = accounts.len();
        let n = args.inputs.len();
        let m = args.outputs.len();
        if total < 5 || total - 5 < n || total - 5 - n < n || total - 5 - n - n < m || total - 5
            - n - n - m < m {
            return Err(TokenitisError::InvalidInstructionData);
        }
        let input_mints = slice_subrange(accounts, 5, 5 + n);
        let inputs = slice_subrange(accounts, 5 + n, 5 + n + n);
        let output_mints = slice_subrange(accounts, 5 + n + n, 5 + n + n + m);
        let outputs = slice_subrange(accounts, 5 + n + n + m, 5 + n + n + m + m);
        Ok(
            CreateTransform {
                program_id,
                accounts: CreateTransformAccounts {
                    system_program: &accounts[0],
                    token_program: &accounts[1],
                    tokenitis: &accounts[2],
                    transform: &accounts[3],
                    creator: &accounts[4],
                    input_mints,
                    inputs,
                    output_mints,
                    outputs,
                },
                args,
            },
        )
    }
}

} // verus!
