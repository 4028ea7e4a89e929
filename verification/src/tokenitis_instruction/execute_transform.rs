use crate::account::Account;
use crate::address::Address;
use crate::codec::reads;
use crate::errors::TokenitisError;
use crate::state::{take_transform, Transform};
use vstd::prelude::*;
use vstd::slice::slice_subrange;

pub mod execute;
pub mod validate;

verus! {

/// The two directions of a swap: inputs for outputs, or outputs back for inputs.
#[derive(Clone, Copy, Debug, PartialEq, Eq, Structural)]
pub enum Direction {
    Forward,
    Reverse,
}

/// What the caller asks for: the direction of the swap.
#[derive(Clone, Copy, Debug, PartialEq, Eq, Structural)]
pub struct ExecuteTransformArgs {
    pub direction: Direction,
}

/// The encoded form of a swap's arguments: one byte, 0 for a forward swap and
/// 1 for a reverse one.
pub open spec fn enc_execute_args(args: ExecuteTransformArgs) -> Seq<u8> {
    seq![if args.direction == Direction::Forward { 0u8 } else { 1u8 }]
}

/// Reads a swap's arguments from the front of `bytes`.
pub open spec fn take_execute_args(bytes: Seq<u8>) -> Option<(ExecuteTransformArgs, Seq<u8>)> {
    if bytes.len() >= 1 && bytes[0] == 0 {
        Some((ExecuteTransformArgs { direction: Direction::Forward }, bytes.skip(1)))
    } else if bytes.len() >= 1 && bytes[0] == 1 {
        Some((ExecuteTransformArgs { direction: Direction::Reverse }, bytes.skip(1)))
    } else {
        None
    }
}

/// Arguments that were encoded are read back, whatever follows them.
pub proof fn lemma_execute_args_round_trip(args: ExecuteTransformArgs, rest: Seq<u8>)
    ensures
        take_execute_args(enc_execute_args(args) + rest) == Some((args, rest)),
{
    assert((enc_execute_args(args) + rest).skip(1) =~= rest);
}

impl ExecuteTransformArgs {
    /// Appends the encoded form of the arguments.
    pub fn write(&self, out: &mut Vec<u8>)
        ensures
            final(out)@ == old(out)@ + enc_execute_args(*self),
    {
        out.push(
            if self.direction == Direction::Forward {
                0u8
            } else {
                1u8
            },
        );
        assert(out@ =~= old(out)@ + enc_execute_args(*self));
    }

    /// Reads the arguments of a swap at `pos`.
    pub fn read(data: &[u8], pos: usize) -> (got: Option<(ExecuteTransformArgs, usize)>)
        requires
            pos <= data@.len(),
        ensures
            reads(data@, pos, got, take_execute_args(data@.skip(pos as int))),
    {
        if pos >= data.len() {
            return None;
        }
        assert(data@.skip(pos as int).skip(1) =~= data@.skip(pos + 1));
        let tag = data[pos];
        if tag == 0 {
            Some((ExecuteTransformArgs { direction: Direction::Forward }, pos + 1))
        } else if tag == 1 {
            Some((ExecuteTransformArgs { direction: Direction::Reverse }, pos + 1))
        } else {
            None
        }
    }
}

/// The accounts of a swap, by role. The legs of each basket come in ascending
/// order of token type: first the caller's account for each leg, then the
/// vault's.
#[derive(Debug)]
pub struct ExecuteTransformAccounts<'a> {
    pub token_program: &'a Account,
    pub transform: &'a Account,
    pub caller: &'a Account,
    pub caller_inputs: &'a [Account],
    pub inputs: &'a [Account],
    pub caller_outputs: &'a [Account],
    pub outputs: &'a [Account],
}

/// The instruction that swaps one basket for the other.
pub struct ExecuteTransform<'a> {
    pub program_id: Address,
    pub accounts: ExecuteTransformAccounts<'a>,
    pub args: ExecuteTransformArgs,
}

/// Number of accounts that a swap over baskets of `inputs` and `outputs` legs
/// names at least: the fixed ones, then two accounts per leg. Accounts that
/// follow them, such as the creator's fee accounts, are not assigned a role.
pub open spec fn execute_account_count(inputs: int, outputs: int) -> int {
    3 + 2 * inputs + 2 * outputs
}

impl<'a> ExecuteTransformAccounts<'a> {
    /// The roles are filled from `list` in its order: the three fixed
    /// accounts, the caller's input accounts, the input vaults, the caller's
    /// output accounts, the output vaults.
    pub open spec fn laid_out(&self, list: Seq<Account>, inputs: int, outputs: int) -> bool {
        &&& list.len() >= execute_account_count(inputs, outputs)
        &&& *self.token_program == list[0]
        &&& *self.transform == list[1]
        &&& *self.caller == list[2]
        &&& self.caller_inputs@ == list.subrange(3, 3 + inputs)
        &&& self.inputs@ == list.subrange(3 + inputs, 3 + 2 * inputs)
        &&& self.caller_outputs@ == list.subrange(3 + 2 * inputs, 3 + 2 * inputs + outputs)
        &&& self.outputs@ == list.subrange(
            3 + 2 * inputs + outputs,
            3 + 2 * inputs + 2 * outputs,
        )
    }
}

impl<'a> ExecuteTransform<'a> {
    /// Where the transform's account decodes, every leg of its baskets has the
    /// caller's account and the vault's.
    pub open spec fn wf(&self) -> bool {
        match take_transform(self.accounts.transform.data@) {
            Some((stored, _)) => {
                &&& self.accounts.caller_inputs@.len() == stored.inputs.len()
                &&& self.accounts.inputs@.len() == stored.inputs.len()
                &&& self.accounts.caller_outputs@.len() == stored.outputs.len()
                &&& self.accounts.outputs@.len() == stored.outputs.len()
            },
            None => true,
        }
    }

    /// Assigns the accounts of `accounts` to their roles, reading the sizes of
    /// the baskets from the transform's account. Fails with
    /// `InvalidInstructionData` where the list is too short, and with
    /// `BorshIoError` where the transform's account does not decode.
    pub fn new(program_id: Address, accounts: &'a [Account], args: ExecuteTransformArgs) -> (made:
        Result<ExecuteTransform<'a>, TokenitisError>)
        ensures
            match made {
                Ok(instruction) => {
                    &&& instruction.program_id == program_id
                    &&& instruction.args == args
                    &&& instruction.wf()
                    &&& accounts@.len() >= 3
                    &&& take_transform(accounts@[1].data@) is Some
                    &&& instruction.accounts.laid_out(
                        accounts@,
                        take_transform(accounts@[1].data@).unwrap().0.inputs.len() as int,
                        take_transform(accounts@[1].data@).unwrap().0.outputs.len() as int,
                    )
                },
                Err(e) => if accounts@.len() < 3 {
                    e == TokenitisError::InvalidInstructionData
                } else {
                    match take_transform(accounts@[1].data@) {
                        None => e == TokenitisError::BorshIoError,
                        Some((stored, _)) => e == TokenitisError::InvalidInstructionData
                            && accounts@.len() < execute_account_count(
                            stored.inputs.len() as int,
                            stored.outputs.len() as int,
                        ),
                    }
                },
            },
    {
        let total = accounts.len();
        if total < 3 {
            return Err(TokenitisError::InvalidInstructionData);
        }
        let stored = match Transform::deserialize(accounts[1].data.as_slice()) {
            Ok(stored) => stored,
            Err(e) => {
                return Err(e);
            },
        };
        let n = stored.inputs.len();
        let m = stored.outputs.len();
        if total - 3 < n || total - 3 - n < n || total - 3 - n - n < m || total - 3 - n - n - m
            < m {
            return Err(TokenitisError::InvalidInstructionData);
        }
        let caller_inputs = slice_subrange(accounts, 3, 3 + n);
        let inputs = slice_subrange(accounts, 3 + n, 3 + n + n);
        let caller_outputs = slice_subrange(accounts, 3 + n + n, 3 + n + n + m);
        let outputs = slice_subrange(accounts, 3 + n + n + m, 3 + n + n + m + m);
        Ok(
            ExecuteTransform {
                program_id,
                accounts: ExecuteTransformAccounts {
                    token_program: &accounts[0],
                    transform: &accounts[1],
                    caller: &accounts[2],
                    caller_inputs,
                    inputs,
                    caller_outputs,
                    outputs,
                },
                args,
            },
        )
    }
}

} // verus!
