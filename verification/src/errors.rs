use vstd::prelude::*;

verus! {

/// Longest accepted byte length of a transform's name or image.
pub const MAX_STRING_SIZE: u64 = 300;

/// Conditions under which the program rejects an instruction.
#[derive(Clone, Copy, Debug, PartialEq, Eq, Structural)]
pub enum TokenitisError {
    /// A supplied address, owner or mint differs from the expected one.
    InvalidArgument,
    /// The instruction's arguments are malformed.
    InvalidInstructionData,
    /// An account's contents do not have the expected form.
    InvalidAccountData,
    /// The transform's account already holds an initialized record.
    AccountAlreadyInitialized,
    /// A token account or mint has not been initialized.
    UninitializedAccount,
    /// An instruction was asked of a program other than the one that builds it.
    IncorrectProgramId,
    /// No address can be derived from the seed.
    InvalidSeeds,
    /// Stored bytes do not decode, or a value is too large to encode.
    BorshIoError,
    /// The transform counter cannot be incremented further.
    ArithmeticOverflow,
}

/// The outcome of a list of checks made in order: that of the first one that fails.
pub open spec fn first_error(verdicts: Seq<Result<(), TokenitisError>>) -> Result<
    (),
    TokenitisError,
> {
    if forall|i: int| 0 <= i < verdicts.len() ==> (#[trigger] verdicts[i]) is Ok {
        Ok(())
    } else {
        verdicts[first_failure(verdicts)]
    }
}

/// The place of the first check that fails, where one does.
pub open spec fn first_failure(verdicts: Seq<Result<(), TokenitisError>>) -> int {
    choose|i: int| fails_first_at(verdicts, i)
}

/// The check at place `i` fails and none before it does.
pub open spec fn fails_first_at(verdicts: Seq<Result<(), TokenitisError>>, i: int) -> bool {
    &&& 0 <= i < verdicts.len()
    &&& verdicts[i] is Err
    &&& forall|j: int| 0 <= j < i ==> (#[trigger] verdicts[j]) is Ok
}

/// Where the check at place `i` is the first to fail, its error is the outcome.
pub proof fn lemma_first_error_at(verdicts: Seq<Result<(), TokenitisError>>, i: int)
    requires
        fails_first_at(verdicts, i),
    ensures
        first_error(verdicts) == verdicts[i],
{
    let k = first_failure(verdicts);
    assert(fails_first_at(verdicts, k));
    assert(k == i) by {
        if k < i {
            assert(verdicts[k] is Ok);
        }
        if i < k {
            assert(verdicts[i] is Ok);
        }
    }
}

/// Where every check passes, so does the list.
pub proof fn lemma_first_error_none(verdicts: Seq<Result<(), TokenitisError>>)
    requires
        forall|i: int| 0 <= i < verdicts.len() ==> (#[trigger] verdicts[i]) is Ok,
    ensures
        first_error(verdicts) == Ok::<(), TokenitisError>(()),
{
}

/// The list passes exactly when every check does.
pub proof fn lemma_first_error_ok(verdicts: Seq<Result<(), TokenitisError>>)
    ensures
        first_error(verdicts) is Ok <==> forall|i: int|
            0 <= i < verdicts.len() ==> (#[trigger] verdicts[i]) is Ok,
{
    if !(forall|i: int| 0 <= i < verdicts.len() ==> (#[trigger] verdicts[i]) is Ok) {
        let i = choose|i: int| 0 <= i < verdicts.len() && !((#[trigger] verdicts[i]) is Ok);
        lemma_some_failure_is_first(verdicts, i);
        let k = first_failure(verdicts);
        assert(fails_first_at(verdicts, k));
    }
}

/// Where some check fails, one fails first.
pub proof fn lemma_some_failure_is_first(verdicts: Seq<Result<(), TokenitisError>>, i: int)
    requires
        0 <= i < verdicts.len(),
        verdicts[i] is Err,
    ensures
        exists|k: int| fails_first_at(verdicts, k),
    decreases i,
{
    if forall|j: int| 0 <= j < i ==> (#[trigger] verdicts[j]) is Ok {
        assert(fails_first_at(verdicts, i));
    } else {
        let j = choose|j: int| 0 <= j < i && !((#[trigger] verdicts[j]) is Ok);
        lemma_some_failure_is_first(verdicts, j);
    }
}

} // verus!
