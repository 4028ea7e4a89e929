use crate::account::Account;
use crate::address::Address;
use crate::basket::ascending;
use crate::errors::{first_error, TokenitisError};
use crate::state::{take_transform, transform_address, transform_seed_bytes};
use vstd::prelude::*;

pub mod create_transform;
pub mod execute_transform;

use create_transform::execute::CreatePlan;
use create_transform::{
    args_encodable, create_account_count, enc_create_args, lemma_create_args_round_trip,
    take_create_args, CreateTransform, CreateTransformArgs, CreateTransformArgsView,
};
use execute_transform::execute::SwapPlan;
use execute_transform::{
    enc_execute_args, execute_account_count, lemma_execute_args_round_trip, take_execute_args,
    ExecuteTransform, ExecuteTransformArgs,
};

verus! {

/// An instruction of the program with the accounts it was given: it can be
/// validated, and what it asks for can be planned.
pub trait TokenitisInstruction: Sized {
    /// What the instruction asks of the ledger and of the token service.
    type Plan;

    /// Every leg of the baskets has its accounts.
    spec fn well_formed(&self) -> bool;

    /// The outcome of validation.
    spec fn validity(&self) -> Result<(), TokenitisError>;

    /// `outcome` is the plan of the instruction, or the error for which
    /// none can be made.
    spec fn planned_as(&self, outcome: Result<Self::Plan, TokenitisError>) -> bool;

    /// Validates the instruction. Nothing is written or transferred.
    fn validate(&self) -> (verdict: Result<(), TokenitisError>)
        requires
            self.well_formed(),
        ensures
            verdict == self.validity(),
    ;

    /// Plans what the instruction asks for, and leaves the instruction as it
    /// was. Nothing is carried out here.
    fn execute(&mut self) -> (outcome: Result<Self::Plan, TokenitisError>)
        requires
            old(self).well_formed(),
        ensures
            *final(self) == *old(self),
            old(self).planned_as(outcome),
    ;
}

impl<'a> TokenitisInstruction for CreateTransform<'a> {
    type Plan = CreatePlan;

    open spec fn well_formed(&self) -> bool {
        self.wf()
    }

    open spec fn validity(&self) -> Result<(), TokenitisError> {
        self.verdict()
    }

    open spec fn planned_as(&self, outcome: Result<CreatePlan, TokenitisError>) -> bool {
        match outcome {
            Ok(plan) => self.execution_error() is None && self.planned(plan),
            Err(e) => self.execution_error() == Some(e),
        }
    }

    fn validate(&self) -> (verdict: Result<(), TokenitisError>) {
        self.validate_instruction()
    }

    fn execute(&mut self) -> (outcome: Result<CreatePlan, TokenitisError>) {
        self.execute_instruction()
    }
}

impl<'a> TokenitisInstruction for ExecuteTransform<'a> {
    type Plan = SwapPlan;

    open spec fn well_formed(&self) -> bool {
        self.wf()
    }

    open spec fn validity(&self) -> Result<(), TokenitisError> {
        self.verdict()
    }

    open spec fn planned_as(&self, outcome: Result<SwapPlan, TokenitisError>) -> bool {
        match outcome {
            Ok(plan) => {
                &&& first_error(self.steps()) is Ok
                &&& plan.transfers@ == self.transfers()
                &&& plan.authorization.seed@ == transform_seed_bytes(
                    self.stored().id,
                )
                &&& plan.authorization.nonce == transform_address(
                    self.program_id,
                    self.stored().id,
                ).unwrap().1
            },
            Err(e) => first_error(self.steps()) == Err::<(), TokenitisError>(e),
        }
    }

    fn validate(&self) -> (verdict: Result<(), TokenitisError>) {
        self.validate_instruction()
    }

    fn execute(&mut self) -> (outcome: Result<SwapPlan, TokenitisError>) {
        self.execute_instruction()
    }
}

/// The instructions that the program accepts.
#[derive(Clone, Debug, PartialEq, Eq)]
pub enum TokenitisInstructionType {
    CreateTransform(CreateTransformArgs),
    ExecuteTransform(ExecuteTransformArgs),
}

/// What an instruction asks of the ledger and of the token service.
#[derive(Debug)]
pub enum Plan {
    Create(CreatePlan),
    Swap(SwapPlan),
}

/// `outcome` is what the creation comes to: the error of validation where it
/// fails, else the plan or the error of planning.
pub open spec fn create_outcome(
    creation: CreateTransform,
    outcome: Result<Plan, TokenitisError>,
) -> bool {
    match creation.verdict() {
        Err(e) => outcome == Err::<Plan, TokenitisError>(e),
        Ok(()) => match outcome {
            Ok(Plan::Create(plan)) => creation.planned_as(Ok(plan)),
            Ok(Plan::Swap(_)) => false,
            Err(e) => creation.planned_as(Err(e)),
        },
    }
}

/// `outcome` is what the swap comes to: the error of validation where it
/// fails, else the plan or the error of planning.
pub open spec fn swap_outcome(swap: ExecuteTransform, outcome: Result<Plan, TokenitisError>) -> bool {
    match swap.verdict() {
        Err(e) => outcome == Err::<Plan, TokenitisError>(e),
        Ok(()) => match outcome {
            Ok(Plan::Swap(plan)) => swap.planned_as(Ok(plan)),
            Ok(Plan::Create(_)) => false,
            Err(e) => swap.planned_as(Err(e)),
        },
    }
}

/// An instruction as a mathematical value.
pub enum TokenitisInstructionView {
    CreateTransform(CreateTransformArgsView),
    ExecuteTransform(ExecuteTransformArgs),
}

impl View for TokenitisInstructionType {
    type V = TokenitisInstructionView;

    open spec fn view(&self) -> TokenitisInstructionView {
        match self {
            TokenitisInstructionType::CreateTransform(args) => {
                TokenitisInstructionView::CreateTransform(args@)
            },
            TokenitisInstructionType::ExecuteTransform(args) => {
                TokenitisInstructionView::ExecuteTransform(*args)
            },
        }
    }
}

/// The encoded form of an instruction: a tag byte, 0 for a creation and 1 for
/// a swap, followed by the arguments.
pub open spec fn enc_instruction(instruction: TokenitisInstructionView) -> Seq<u8> {
    match instruction {
        TokenitisInstructionView::CreateTransform(args) => seq![0u8] + enc_create_args(args),
        TokenitisInstructionView::ExecuteTransform(args) => seq![1u8] + enc_execute_args(args),
    }
}

/// The instruction that `bytes` are the encoded form of: the whole of `bytes`
/// must be read.
pub open spec fn decoded_instruction(bytes: Seq<u8>) -> Option<TokenitisInstructionView> {
    if bytes.len() >= 1 && bytes[0] == 0 {
        match take_create_args(bytes.skip(1)) {
            Some((args, rest)) => if rest.len() == 0 {
                Some(TokenitisInstructionView::CreateTransform(args))
            } else {
                None
            },
            None => None,
        }
    } else if bytes.len() >= 1 && bytes[0] == 1 {
        match take_execute_args(bytes.skip(1)) {
            Some((args, rest)) => if rest.len() == 0 {
                Some(TokenitisInstructionView::ExecuteTransform(args))
            } else {
                None
            },
            None => None,
        }
    } else {
        None
    }
}

/// The instruction has an encoded form.
pub open spec fn instruction_encodable(instruction: TokenitisInstructionView) -> bool {
    match instruction {
        TokenitisInstructionView::CreateTransform(args) => args_encodable(args),
        TokenitisInstructionView::ExecuteTransform(_) => true,
    }
}

/// An instruction that was encoded is decoded to itself.
pub proof fn lemma_instruction_round_trip(instruction: TokenitisInstructionView)
    requires
        instruction_encodable(instruction),
        match instruction {
            TokenitisInstructionView::CreateTransform(args) => ascending(
                args.inputs,
            ) && ascending(args.outputs),
            TokenitisInstructionView::ExecuteTransform(_) => true,
        },
    ensures
        decoded_instruction(enc_instruction(instruction)) == Some(instruction),
{
    let bytes = enc_instruction(instruction);
    match instruction {
        TokenitisInstructionView::CreateTransform(args) => {
            lemma_create_args_round_trip(args, Seq::empty());
            assert(bytes.skip(1) =~= enc_create_args(args) + Seq::<u8>::empty());
        },
        TokenitisInstructionView::ExecuteTransform(args) => {
            lemma_execute_args_round_trip(args, Seq::empty());
            assert(bytes.skip(1) =~= enc_execute_args(args) + Seq::<u8>::empty());
        },
    }
}

impl TokenitisInstructionType {
    /// The instruction's encoded form, or `BorshIoError` where a length does
    /// not fit in 32 bits.
    pub fn serialize(&self) -> (written: Result<Vec<u8>, TokenitisError>)
        ensures
            match written {
                Ok(bytes) => instruction_encodable(self@) && bytes@ == enc_instruction(self@),
                Err(e) => e == TokenitisError::BorshIoError && !instruction_encodable(self@),
            },
    {
        let mut bytes: Vec<u8> = Vec::new();
        match self {
            TokenitisInstructionType::CreateTransform(args) => {
                bytes.push(0u8);
                if !args.write(&mut bytes) {
                    return Err(TokenitisError::BorshIoError);
                }
                assert(bytes@ =~= enc_instruction(self@));
            },
            TokenitisInstructionType::ExecuteTransform(args) => {
                bytes.push(1u8);
                args.write(&mut bytes);
                assert(bytes@ =~= enc_instruction(self@));
            },
        }
        Ok(bytes)
    }

    /// Decodes an instruction from the whole of `data`. Bytes that are no
    /// instruction, or an instruction followed by more bytes, are a
    /// `BorshIoError`.
    pub fn try_from_slice(data: &[u8]) -> (decoded: Result<
        TokenitisInstructionType,
        TokenitisError,
    >)
        ensures
            match decoded {
                Ok(instruction) => instruction.wf() && decoded_instruction(data@) == Some(
                    instruction@,
                ),
                Err(e) => e == TokenitisError::BorshIoError && decoded_instruction(data@) is None,
            },
    {
        if data.len() == 0 {
            return Err(TokenitisError::BorshIoError);
        }
        let tag = data[0];
        if tag == 0 {
            match CreateTransformArgs::read(data, 1) {
                Some((args, next)) => if next == data.len() {
                    Ok(TokenitisInstructionType::CreateTransform(args))
                } else {
                    Err(TokenitisError::BorshIoError)
                },
                None => Err(TokenitisError::BorshIoError),
            }
        } else if tag == 1 {
            match ExecuteTransformArgs::read(data, 1) {
                Some((args, next)) => if next == data.len() {
                    Ok(TokenitisInstructionType::ExecuteTransform(args))
                } else {
                    Err(TokenitisError::BorshIoError)
                },
                None => Err(TokenitisError::BorshIoError),
            }
        } else {
            Err(TokenitisError::BorshIoError)
        }
    }

    /// The baskets of a creation are in order.
    pub open spec fn wf(&self) -> bool {
        match self {
            TokenitisInstructionType::CreateTransform(args) => args.inputs.wf()
                && args.outputs.wf(),
            TokenitisInstructionType::ExecuteTransform(_) => true,
        }
    }
}

/// Processes one instruction: assigns the accounts to their roles, validates,
/// and plans what is to be done. The first failure ends the processing with
/// its error, and nothing is planned.
pub fn process_instruction<'a>(
    program_id: &Address,
    accounts: &'a [Account],
    instruction: TokenitisInstructionType,
) -> (outcome: Result<Plan, TokenitisError>)
    ensures
        match instruction {
            TokenitisInstructionType::CreateTransform(args) => if accounts@.len()
                < create_account_count(args.inputs@.len() as int, args.outputs@.len() as int) {
                outcome == Err::<Plan, TokenitisError>(TokenitisError::InvalidInstructionData)
            } else {
                exists|creation: CreateTransform<'a>|
                    {
                        &&& creation.program_id == *program_id
                        &&& creation.args == args
                        &&& #[trigger] creation.accounts.laid_out(
                            accounts@,
                            args.inputs@.len() as int,
                            args.outputs@.len() as int,
                        )
                        &&& create_outcome(creation, outcome)
                    }
            },
            TokenitisInstructionType::ExecuteTransform(args) => if accounts@.len() < 3 {
                outcome == Err::<Plan, TokenitisError>(TokenitisError::InvalidInstructionData)
            } else {
                match take_transform(accounts@[1].data@) {
                    None => outcome == Err::<Plan, TokenitisError>(TokenitisError::BorshIoError),
                    Some((stored, _)) => if accounts@.len() < execute_account_count(
                        stored.inputs.len() as int,
                        stored.outputs.len() as int,
                    ) {
                        outcome == Err::<Plan, TokenitisError>(
                            TokenitisError::InvalidInstructionData,
                        )
                    } else {
                        exists|swap: ExecuteTransform<'a>|
                            {
                                &&& swap.program_id == *program_id
                                &&& swap.args == args
                                &&& #[trigger] swap.accounts.laid_out(
                                    accounts@,
                                    stored.inputs.len() as int,
                                    stored.outputs.len() as int,
                                )
                                &&& swap_outcome(swap, outcome)
                            }
                    },
                }
            },
        },
{
    match instruction {
        TokenitisInstructionType::CreateTransform(args) => {
            let creation = match CreateTransform::new(*program_id, accounts, args) {
                Ok(creation) => creation,
                Err(e) => {
                    return Err(e);
                },
            };
            let outcome = match creation.validate_instruction() {
                Err(e) => Err(e),
                Ok(()) => match creation.execute_instruction() {
                    Ok(plan) => Ok(Plan::Create(plan)),
                    Err(e) => Err(e),
                },
            };
            assert(create_outcome(creation, outcome));
            outcome
        },
        TokenitisInstructionType::ExecuteTransform(args) => {
            let swap = match ExecuteTransform::new(*program_id, accounts, args) {
                Ok(swap) => swap,
                Err(e) => {
                    return Err(e);
                },
            };
            let outcome = match swap.validate_instruction() {
                Err(e) => Err(e),
                Ok(()) => match swap.execute_instruction() {
                    Ok(plan) => Ok(Plan::Swap(plan)),
                    Err(e) => Err(e),
                },
            };
            assert(swap_outcome(swap, outcome));
            outcome
        },
    }
}

} // verus!
